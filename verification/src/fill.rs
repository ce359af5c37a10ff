//! The fill signer: turns an aggregate obligation and a shared deadline
//! into one signable fill payload per destination chain, resolves each
//! chain's fill contract from the system configuration, and signs the
//! payloads through an injected signing capability.

use vstd::prelude::*;
use crate::aggregate::{AggregateObligation, ObligationEntry};
use crate::config::SystemConfig;
use crate::errors::FillError;
use crate::types::Address;

verus! {

/// One token amount owed on some chain.
#[derive(Clone, Copy, Debug, PartialEq, Eq, Structural)]
pub struct TokenAmount {
    /// The token owed.
    pub token: Address,
    /// The amount owed.
    pub amount: u128,
}

impl View for TokenAmount {
    type V = TokenAmount;

    open spec fn view(&self) -> TokenAmount {
        *self
    }
}

impl DeepView for TokenAmount {
    type V = TokenAmount;

    open spec fn deep_view(&self) -> TokenAmount {
        *self
    }
}

/// Mathematical value of a [`FillPayload`].
pub ghost struct FillPayloadV {
    /// The destination chain.
    pub chain_id: u64,
    /// The fill contract on that chain.
    pub contract: Address,
    /// The token amounts owed on that chain.
    pub outputs: Seq<TokenAmount>,
    /// The shared fill deadline, in unix seconds.
    pub deadline: u64,
}

/// The signable fill obligation for one destination chain.
#[derive(Debug)]
pub struct FillPayload {
    /// The destination chain.
    pub chain_id: u64,
    /// The fill contract on that chain.
    pub contract: Address,
    /// The token amounts owed on that chain.
    pub outputs: Vec<TokenAmount>,
    /// The shared fill deadline, in unix seconds.
    pub deadline: u64,
}

impl View for FillPayload {
    type V = FillPayloadV;

    open spec fn view(&self) -> FillPayloadV {
        FillPayloadV {
            chain_id: self.chain_id,
            contract: self.contract,
            outputs: self.outputs@,
            deadline: self.deadline,
        }
    }
}

impl DeepView for FillPayload {
    type V = FillPayloadV;

    open spec fn deep_view(&self) -> FillPayloadV {
        self.view()
    }
}

impl Clone for FillPayload {
    /// Clones the payload, preserving its mathematical value.
    fn clone(&self) -> (r: Self)
        ensures
            r@ == self@,
    {
        let outputs = self.outputs.clone();
        proof {
            assert(outputs@ =~= self.outputs@);
        }
        FillPayload {
            chain_id: self.chain_id,
            contract: self.contract,
            outputs,
            deadline: self.deadline,
        }
    }
}

/// Mathematical value of a [`SignedFill`].
pub ghost struct SignedFillV {
    /// The signed payload.
    pub payload: FillPayloadV,
    /// The signature over the payload.
    pub signature: Seq<u8>,
}

/// A fill payload together with the filler's signature over it.
#[derive(Debug)]
pub struct SignedFill {
    /// The signed payload.
    pub payload: FillPayload,
    /// The signature over the payload.
    pub signature: Vec<u8>,
}

impl View for SignedFill {
    type V = SignedFillV;

    open spec fn view(&self) -> SignedFillV {
        SignedFillV { payload: self.payload@, signature: self.signature@ }
    }
}

impl DeepView for SignedFill {
    type V = SignedFillV;

    open spec fn deep_view(&self) -> SignedFillV {
        self.view()
    }
}

impl Clone for SignedFill {
    /// Clones the signed fill, preserving its mathematical value.
    fn clone(&self) -> (r: Self)
        ensures
            r@ == self@,
    {
        let signature = self.signature.clone();
        proof {
            assert(signature@ =~= self.signature@);
        }
        SignedFill { payload: self.payload.clone(), signature }
    }
}

/// Mapping chain id to signed fill: one signed fill per destination
/// chain, chain ids unique.
#[derive(Debug)]
pub struct SignedFillMap {
    /// The signed fills, one per chain.
    pub fills: Vec<SignedFill>,
}

impl View for SignedFillMap {
    type V = Seq<SignedFillV>;

    open spec fn view(&self) -> Seq<SignedFillV> {
        self.fills.deep_view()
    }
}

impl SignedFillMap {
    /// Whether no two fills share a destination chain.
    pub open spec fn wf(&self) -> bool {
        forall|i: int, j: int|
            #![trigger self@[i], self@[j]]
            0 <= i < j < self@.len() ==> self@[i].payload.chain_id != self@[j].payload.chain_id
    }

    /// The signed fill recorded for `chain_id`, reading the first match.
    pub open spec fn spec_fill_for(&self, chain_id: u64) -> Option<SignedFillV> {
        spec_fill_lookup(self@, chain_id)
    }

    /// Looks up the signed fill for `chain_id`.
    pub fn fill_for(&self, chain_id: u64) -> (r: Option<&SignedFill>)
        ensures
            match r {
                Some(f) => self.spec_fill_for(chain_id) == Some(f@) && f@.payload.chain_id
                    == chain_id,
                None => self.spec_fill_for(chain_id) is None,
            },
    {
        let n: usize = self.fills.len();
        let mut i: usize = 0;
        while i < n
            invariant
                n == self.fills@.len(),
                self@.len() == n,
                0 <= i <= n,
                forall|k: int| 0 <= k < i ==> (#[trigger] self@[k]).payload.chain_id != chain_id,
            decreases n - i,
        {
            assert(self@[i as int] == self.fills@[i as int]@);
            if self.fills[i].payload.chain_id == chain_id {
                proof {
                    lemma_fill_lookup_at(self@, chain_id, i as int);
                }
                return Some(&self.fills[i]);
            }
            i = i + 1;
        }
        proof {
            lemma_fill_lookup_none(self@, chain_id);
        }
        None
    }
}

/// The fill recorded for `chain_id` in a fill sequence, reading the
/// first match.
pub open spec fn spec_fill_lookup(fills: Seq<SignedFillV>, chain_id: u64) -> Option<SignedFillV>
    decreases fills.len(),
{
    if fills.len() == 0 {
        None
    } else if fills.first().payload.chain_id == chain_id {
        Some(fills.first())
    } else {
        spec_fill_lookup(fills.drop_first(), chain_id)
    }
}

/// When the first fill for `chain_id` stands at index `i`, the lookup
/// reads that fill.
pub proof fn lemma_fill_lookup_at(fills: Seq<SignedFillV>, chain_id: u64, i: int)
    requires
        0 <= i < fills.len(),
        fills[i].payload.chain_id == chain_id,
        forall|k: int| 0 <= k < i ==> (#[trigger] fills[k]).payload.chain_id != chain_id,
    ensures
        spec_fill_lookup(fills, chain_id) == Some(fills[i]),
    decreases i,
{
    if i > 0 {
        let rest = fills.drop_first();
        assert(forall|k: int| 0 <= k < rest.len() ==> rest[k] == #[trigger] fills[k + 1]);
        lemma_fill_lookup_at(rest, chain_id, i - 1);
    }
}

/// When no fill is recorded for `chain_id`, the lookup reads nothing.
pub proof fn lemma_fill_lookup_none(fills: Seq<SignedFillV>, chain_id: u64)
    requires
        forall|k: int| 0 <= k < fills.len() ==> (#[trigger] fills[k]).payload.chain_id != chain_id,
    ensures
        spec_fill_lookup(fills, chain_id) is None,
    decreases fills.len(),
{
    if fills.len() > 0 {
        let rest = fills.drop_first();
        assert(forall|k: int| 0 <= k < rest.len() ==> rest[k] == #[trigger] fills[k + 1]);
        lemma_fill_lookup_none(rest, chain_id);
    }
}

/// The distinct destination chains of an obligation, in first occurrence
/// order.
pub open spec fn chains_of(entries: Seq<ObligationEntry>) -> Seq<u64>
    decreases entries.len(),
{
    if entries.len() == 0 {
        Seq::empty()
    } else {
        let p = chains_of(entries.drop_last());
        if p.contains(entries.last().chain_id) {
            p
        } else {
            p.push(entries.last().chain_id)
        }
    }
}

/// The token amounts owed on `chain_id`, in entry order.
pub open spec fn outs_for_chain(entries: Seq<ObligationEntry>, chain_id: u64) -> Seq<TokenAmount>
    decreases entries.len(),
{
    if entries.len() == 0 {
        Seq::empty()
    } else {
        let p = outs_for_chain(entries.drop_last(), chain_id);
        if entries.last().chain_id == chain_id {
            p.push(TokenAmount { token: entries.last().token, amount: entries.last().amount })
        } else {
            p
        }
    }
}

/// The signable fill payload for one destination chain of an obligation.
pub open spec fn payload_for(
    entries: Seq<ObligationEntry>,
    deadline: u64,
    cfg: SystemConfig,
    chain_id: u64,
) -> FillPayloadV {
    FillPayloadV {
        chain_id,
        contract: cfg.spec_orders_contract_for(chain_id).unwrap(),
        outputs: outs_for_chain(entries, chain_id),
        deadline,
    }
}

/// The signable fill payloads of an obligation, one per destination
/// chain, in first occurrence order.
pub open spec fn spec_fill_payloads(
    entries: Seq<ObligationEntry>,
    deadline: u64,
    cfg: SystemConfig,
) -> Seq<FillPayloadV> {
    Seq::new(chains_of(entries).len(), |i: int| payload_for(entries, deadline, cfg, chains_of(entries)[i]))
}

/// The distinct chains of an obligation hold no duplicates.
pub proof fn lemma_chains_of_distinct(entries: Seq<ObligationEntry>)
    ensures
        forall|i: int, j: int|
            0 <= i < j < chains_of(entries).len() ==> #[trigger] chains_of(entries)[i]
                != #[trigger] chains_of(entries)[j],
    decreases entries.len(),
{
    if entries.len() > 0 {
        lemma_chains_of_distinct(entries.drop_last());
        let p = chains_of(entries.drop_last());
        let c = entries.last().chain_id;
        if !p.contains(c) {
            assert forall|i: int, j: int|
                0 <= i < j < chains_of(entries).len() implies #[trigger] chains_of(entries)[i]
                != #[trigger] chains_of(entries)[j] by {
                if j == p.len() {
                    assert(chains_of(entries)[i] == p[i]);
                    assert(!p.contains(c));
                    assert(p[i] != c) by {
                        if p[i] == c {
                            assert(p.contains(c));
                        }
                    }
                } else {
                    assert(chains_of(entries)[i] == p[i]);
                    assert(chains_of(entries)[j] == p[j]);
                }
            }
        }
    }
}

/// Whether `chains` contains `c`.
fn contains_chain(chains: &Vec<u64>, c: u64) -> (r: bool)
    ensures
        r == chains@.contains(c),
{
    let n: usize = chains.len();
    let mut i: usize = 0;
    while i < n
        invariant
            n == chains@.len(),
            0 <= i <= n,
            forall|k: int| 0 <= k < i ==> chains@[k] != c,
        decreases n - i,
    {
        if chains[i] == c {
            assert(chains@.contains(c));
            return true;
        }
        i = i + 1;
    }
    proof {
        assert(!chains@.contains(c)) by {
            if chains@.contains(c) {
                let k = choose|k: int| 0 <= k < chains@.len() && chains@[k] == c;
                assert(chains@[k] != c);
            }
        }
    }
    false
}

/// Collects the distinct destination chains of the obligation entries,
/// in first occurrence order.
fn collect_chains(entries: &Vec<ObligationEntry>) -> (r: Vec<u64>)
    ensures
        r@ == chains_of(entries@),
{
    let n: usize = entries.len();
    let mut r: Vec<u64> = Vec::new();
    let mut i: usize = 0;
    while i < n
        invariant
            n == entries@.len(),
            0 <= i <= n,
            r@ == chains_of(entries@.take(i as int)),
        decreases n - i,
    {
        proof {
            assert(entries@.take(i + 1 as int).drop_last() =~= entries@.take(i as int));
            assert(entries@.take(i + 1 as int).last() == entries@[i as int]);
        }
        let c = entries[i].chain_id;
        if !contains_chain(&r, c) {
            r.push(c);
        }
        i = i + 1;
    }
    proof {
        assert(entries@.take(n as int) =~= entries@);
    }
    r
}

/// Collects the token amounts owed on `chain_id`, in entry order.
fn collect_outs(entries: &Vec<ObligationEntry>, chain_id: u64) -> (r: Vec<TokenAmount>)
    ensures
        r@ == outs_for_chain(entries@, chain_id),
{
    let n: usize = entries.len();
    let mut r: Vec<TokenAmount> = Vec::new();
    let mut i: usize = 0;
    while i < n
        invariant
            n == entries@.len(),
            0 <= i <= n,
            r@ == outs_for_chain(entries@.take(i as int), chain_id),
        decreases n - i,
    {
        proof {
            assert(entries@.take(i + 1 as int).drop_last() =~= entries@.take(i as int));
            assert(entries@.take(i + 1 as int).last() == entries@[i as int]);
        }
        let e = entries[i];
        if e.chain_id == chain_id {
            r.push(TokenAmount { token: e.token, amount: e.amount });
        }
        i = i + 1;
    }
    proof {
        assert(entries@.take(n as int) =~= entries@);
    }
    r
}

/// Builds the signable fill payload for every destination chain of the
/// obligation, resolving each chain's fill contract from the system
/// configuration.
///
/// Succeeds exactly when every destination chain has a configured fill
/// contract; otherwise fails with the first unconfigured chain. On
/// success, every produced payload's chain id has a configured contract,
/// and the payload carries exactly that contract.
pub fn fill_payloads(ob: &AggregateObligation, deadline: u64, cfg: &SystemConfig) -> (r: Result<
    Vec<FillPayload>,
    FillError,
>)
    ensures
        match r {
            Ok(ps) => {
                &&& ps.deep_view() == spec_fill_payloads(ob@, deadline, *cfg)
                &&& forall|j: int|
                    0 <= j < chains_of(ob@).len() ==> cfg.spec_knows_chain(
                        #[trigger] chains_of(ob@)[j],
                    )
                &&& forall|j: int|
                    0 <= j < ps.deep_view().len() ==> cfg.spec_orders_contract_for(
                        (#[trigger] ps.deep_view()[j]).chain_id,
                    ) == Some(ps.deep_view()[j].contract)
            },
            Err(e) => exists|i: int|
                {
                    &&& 0 <= i < chains_of(ob@).len()
                    &&& e == FillError::UnknownChain(chains_of(ob@)[i])
                    &&& !cfg.spec_knows_chain(#[trigger] chains_of(ob@)[i])
                    &&& forall|j: int| 0 <= j < i ==> cfg.spec_knows_chain(#[trigger] chains_of(ob@)[j])
                },
        },
{
    let ghost spec_ps = spec_fill_payloads(ob@, deadline, *cfg);
    let chains = collect_chains(&ob.entries);
    let n: usize = chains.len();
    let mut ps: Vec<FillPayload> = Vec::new();
    let mut i: usize = 0;
    while i < n
        invariant
            chains@ == chains_of(ob@),
            spec_ps == spec_fill_payloads(ob@, deadline, *cfg),
            n == chains@.len(),
            0 <= i <= n,
            ps@.len() == i,
            forall|j: int| 0 <= j < i ==> (#[trigger] ps@[j])@ == spec_ps[j],
            forall|j: int| 0 <= j < i ==> cfg.spec_knows_chain(#[trigger] chains@[j]),
        decreases n - i,
    {
        let c = chains[i];
        match cfg.orders_contract_for(c) {
            None => {
                assert(!cfg.spec_knows_chain(chains_of(ob@)[i as int]));
                return Err(FillError::UnknownChain(c));
            },
            Some(contract) => {
                let outs = collect_outs(&ob.entries, c);
                let p = FillPayload { chain_id: c, contract, outputs: outs, deadline };
                assert(p@ == payload_for(ob@, deadline, *cfg, c));
                assert(spec_ps[i as int] == payload_for(ob@, deadline, *cfg, c));
                ps.push(p);
            },
        }
        i = i + 1;
    }
    proof {
        assert(ps.deep_view() =~= spec_ps) by {
            assert(forall|j: int|
                0 <= j < ps@.len() ==> #[trigger] ps.deep_view()[j] == ps@[j]@);
        }
    }
    Ok(ps)
}

/// An injected signing capability: whoever runs the engine supplies the
/// key handling, local or remote. Nothing is assumed of the returned
/// signature bytes.
pub trait Signer {
    /// Signs one fill payload, or rejects it.
    fn sign(&self, payload: &FillPayload) -> (r: Result<Vec<u8>, ()>);
}

/// Signs every fill payload through the signing capability, producing
/// one signed fill per destination chain.
///
/// On success the mapping carries exactly the given payloads, in order,
/// each with whatever signature the capability returned; the only
/// possible failure is the capability's own, so an empty payload list
/// always succeeds, without invoking the capability at all.
pub fn sign_fills<S: Signer>(payloads: &Vec<FillPayload>, signer: &S) -> (r: Result<
    SignedFillMap,
    FillError,
>)
    ensures
        payloads@.len() == 0 ==> r is Ok,
        match r {
            Ok(m) => {
                &&& m@.len() == payloads@.len()
                &&& forall|i: int|
                    0 <= i < m@.len() ==> (#[trigger] m@[i]).payload == payloads.deep_view()[i]
                &&& (forall|i: int, j: int|
                    0 <= i < j < payloads@.len()
                        ==> (#[trigger] payloads.deep_view()[i]).chain_id
                        != (#[trigger] payloads.deep_view()[j]).chain_id) ==> m.wf()
            },
            Err(e) => e == FillError::SigningFailed,
        },
{
    let n: usize = payloads.len();
    let mut fills: Vec<SignedFill> = Vec::new();
    let mut i: usize = 0;
    while i < n
        invariant
            n == payloads@.len(),
            0 <= i <= n,
            fills@.len() == i,
            forall|j: int| 0 <= j < i ==> (#[trigger] fills@[j])@.payload == payloads@[j]@,
        decreases n - i,
    {
        match signer.sign(&payloads[i]) {
            Ok(sig) => {
                let p = payloads[i].clone();
                fills.push(SignedFill { payload: p, signature: sig });
            },
            Err(_) => {
                return Err(FillError::SigningFailed);
            },
        }
        i = i + 1;
    }
    let m = SignedFillMap { fills };
    proof {
        assert(forall|j: int| 0 <= j < m@.len() ==> #[trigger] m@[j] == fills@[j]@);
        assert(forall|j: int|
            0 <= j < payloads@.len() ==> #[trigger] payloads.deep_view()[j] == payloads@[j]@);
        if forall|i: int, j: int|
            0 <= i < j < payloads@.len() ==> (#[trigger] payloads.deep_view()[i]).chain_id
                != (#[trigger] payloads.deep_view()[j]).chain_id {
            assert forall|i: int, j: int|
                #![trigger m@[i], m@[j]]
                0 <= i < j < m@.len() implies m@[i].payload.chain_id
                != m@[j].payload.chain_id by {
                assert(payloads.deep_view()[i].chain_id != payloads.deep_view()[j].chain_id);
            }
            assert(m.wf());
        }
    }
    Ok(m)
}

} // verus!
