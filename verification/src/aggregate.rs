//! The order aggregator: nets a non-empty set of signed orders into one
//! fill obligation per `(destination chain, token)` pair.
//!
//! Netting is a plain sum per pair; nothing is netted across different
//! tokens. The result is deterministic: it is pinned, entry for entry, to
//! the spec-level aggregation [`spec_agg`] of the orders' outputs.

use vstd::prelude::*;
use crate::errors::FillError;
use crate::types::{Address, Output, SignedOrder, SignedOrderV};

verus! {

/// One netted obligation: the total amount of `token` the filler owes on
/// `chain_id`.
#[derive(Clone, Copy, Debug, PartialEq, Eq, Structural)]
pub struct ObligationEntry {
    /// The destination chain.
    pub chain_id: u64,
    /// The token owed.
    pub token: Address,
    /// The net amount owed.
    pub amount: u128,
}

impl View for ObligationEntry {
    type V = ObligationEntry;

    open spec fn view(&self) -> ObligationEntry {
        *self
    }
}

impl DeepView for ObligationEntry {
    type V = ObligationEntry;

    open spec fn deep_view(&self) -> ObligationEntry {
        *self
    }
}

/// The aggregate obligation of one order set: one entry per
/// `(chain, token)` pair that occurs in some order output, in first
/// occurrence order.
#[derive(Debug)]
pub struct AggregateObligation {
    /// The netted entries.
    pub entries: Vec<ObligationEntry>,
}

impl AggregateObligation {
    /// Whether the obligation is well formed: it is a mapping, so no
    /// two entries share a `(chain, token)` key.
    pub open spec fn wf(&self) -> bool {
        unique_keys(self@)
    }

    /// The net amount recorded for `(chain_id, token)`, if any output
    /// of the aggregated orders was routed to that pair.
    pub fn amount_for(&self, chain_id: u64, token: Address) -> (r: Option<u128>)
        ensures
            r == spec_lookup(self@, chain_id, token),
    {
        let n: usize = self.entries.len();
        let mut i: usize = 0;
        while i < n
            invariant
                n == self.entries@.len(),
                0 <= i <= n,
                forall|k: int|
                    0 <= k < i ==> !entry_matches(#[trigger] self.entries@[k], chain_id, token),
            decreases n - i,
        {
            let e = self.entries[i];
            if e.chain_id == chain_id && e.token == token {
                proof {
                    lemma_lookup_at(self.entries@, chain_id, token, i as int);
                }
                return Some(e.amount);
            }
            i = i + 1;
        }
        proof {
            lemma_lookup_none(self.entries@, chain_id, token);
        }
        None
    }
}

impl Clone for AggregateObligation {
    /// Clones the obligation, preserving its mathematical value.
    fn clone(&self) -> (r: Self)
        ensures
            r@ == self@,
    {
        let entries = self.entries.clone();
        proof {
            assert(entries@ =~= self.entries@);
        }
        AggregateObligation { entries }
    }
}

impl View for AggregateObligation {
    type V = Seq<ObligationEntry>;

    open spec fn view(&self) -> Seq<ObligationEntry> {
        self.entries@
    }
}

/// Whether output `o` is routed to `chain_id` and pays `token`.
pub open spec fn out_matches(o: Output, chain_id: u64, token: Address) -> bool {
    o.chain_id == chain_id && o.token == token
}

/// The arithmetic sum of the amounts of all outputs in `outs` routed to
/// `chain_id` in `token`.
pub open spec fn sum_for(outs: Seq<Output>, chain_id: u64, token: Address) -> int
    decreases outs.len(),
{
    if outs.len() == 0 {
        0
    } else {
        sum_for(outs.drop_last(), chain_id, token) + if out_matches(outs.last(), chain_id, token) {
            outs.last().amount as int
        } else {
            0
        }
    }
}

/// Whether some output in `outs` is routed to `chain_id` in `token`.
pub open spec fn present_in(outs: Seq<Output>, chain_id: u64, token: Address) -> bool {
    exists|k: int| 0 <= k < outs.len() && out_matches(outs[k], chain_id, token)
}

/// The aggregator's machine-limit precondition: every
/// `(chain, token)` output sum fits the amount type.
pub open spec fn spec_sums_fit(outs: Seq<Output>) -> bool {
    forall|chain_id: u64, token: Address|
        #[trigger] sum_for(outs, chain_id, token) <= u128::MAX
}

/// All outputs of `orders`, in order.
pub open spec fn flat_outputs(orders: Seq<SignedOrderV>) -> Seq<Output>
    decreases orders.len(),
{
    if orders.len() == 0 {
        Seq::empty()
    } else {
        flat_outputs(orders.drop_last()) + orders.last().outputs
    }
}

/// Whether entry `e` is keyed by `(chain_id, token)`.
pub open spec fn entry_matches(e: ObligationEntry, chain_id: u64, token: Address) -> bool {
    e.chain_id == chain_id && e.token == token
}

/// The amount recorded in `entries` for `(chain_id, token)`, reading the
/// first matching entry.
pub open spec fn spec_lookup(entries: Seq<ObligationEntry>, chain_id: u64, token: Address) -> Option<
    u128,
>
    decreases entries.len(),
{
    if entries.len() == 0 {
        None
    } else if entry_matches(entries.first(), chain_id, token) {
        Some(entries.first().amount)
    } else {
        spec_lookup(entries.drop_first(), chain_id, token)
    }
}

/// `entries` with output `o` folded in: the first entry keyed like `o` is
/// bumped by `o.amount`, or a fresh entry is appended if none is.
pub open spec fn spec_upsert(entries: Seq<ObligationEntry>, o: Output) -> Seq<ObligationEntry>
    decreases entries.len(),
{
    if entries.len() == 0 {
        seq![ObligationEntry { chain_id: o.chain_id, token: o.token, amount: o.amount }]
    } else if entry_matches(entries.first(), o.chain_id, o.token) {
        seq![
            ObligationEntry {
                chain_id: entries.first().chain_id,
                token: entries.first().token,
                amount: (entries.first().amount + o.amount) as u128,
            },
        ] + entries.drop_first()
    } else {
        seq![entries.first()] + spec_upsert(entries.drop_first(), o)
    }
}

/// The aggregation of `outs`: every output folded in, in order.
pub open spec fn spec_agg(outs: Seq<Output>) -> Seq<ObligationEntry>
    decreases outs.len(),
{
    if outs.len() == 0 {
        Seq::empty()
    } else {
        spec_upsert(spec_agg(outs.drop_last()), outs.last())
    }
}

/// Whether no two entries share a `(chain, token)` key.
pub open spec fn unique_keys(entries: Seq<ObligationEntry>) -> bool {
    forall|i: int, j: int|
        #![trigger entries[i], entries[j]]
        0 <= i < j < entries.len() ==> !(entries[i].chain_id == entries[j].chain_id
            && entries[i].token == entries[j].token)
}

/// Sums of amounts are never negative.
pub proof fn lemma_sum_nonneg(outs: Seq<Output>, chain_id: u64, token: Address)
    ensures
        0 <= sum_for(outs, chain_id, token),
    decreases outs.len(),
{
    if outs.len() > 0 {
        lemma_sum_nonneg(outs.drop_last(), chain_id, token);
    }
}

/// The sum over a prefix never exceeds the sum over the whole sequence.
pub proof fn lemma_sum_take_le(outs: Seq<Output>, n: int, chain_id: u64, token: Address)
    requires
        0 <= n <= outs.len(),
    ensures
        sum_for(outs.take(n), chain_id, token) <= sum_for(outs, chain_id, token),
    decreases outs.len(),
{
    if n == outs.len() {
        assert(outs.take(n) =~= outs);
    } else {
        lemma_sum_take_le(outs.drop_last(), n, chain_id, token);
        assert(outs.drop_last().take(n) =~= outs.take(n));
    }
}

/// A pair that occurs in no output sums to zero.
pub proof fn lemma_sum_absent(outs: Seq<Output>, chain_id: u64, token: Address)
    requires
        !present_in(outs, chain_id, token),
    ensures
        sum_for(outs, chain_id, token) == 0,
    decreases outs.len(),
{
    if outs.len() > 0 {
        let s = outs.drop_last();
        assert(!present_in(s, chain_id, token)) by {
            if present_in(s, chain_id, token) {
                let k = choose|k: int| 0 <= k < s.len() && out_matches(s[k], chain_id, token);
                assert(outs[k] == s[k]);
            }
        }
        assert(!out_matches(outs.last(), chain_id, token)) by {
            if out_matches(outs.last(), chain_id, token) {
                assert(out_matches(outs[outs.len() - 1], chain_id, token));
            }
        }
        lemma_sum_absent(s, chain_id, token);
    }
}

/// A pair occurs in a sequence exactly when it occurs before the last
/// output or in the last output.
pub proof fn lemma_present_drop_last(outs: Seq<Output>, chain_id: u64, token: Address)
    requires
        outs.len() > 0,
    ensures
        present_in(outs, chain_id, token) <==> (present_in(outs.drop_last(), chain_id, token)
            || out_matches(outs.last(), chain_id, token)),
{
    let s = outs.drop_last();
    if present_in(outs, chain_id, token) {
        let k = choose|k: int| 0 <= k < outs.len() && out_matches(outs[k], chain_id, token);
        if k < outs.len() - 1 {
            assert(s[k] == outs[k]);
            assert(present_in(s, chain_id, token));
        }
    }
    if present_in(s, chain_id, token) {
        let k = choose|k: int| 0 <= k < s.len() && out_matches(s[k], chain_id, token);
        assert(outs[k] == s[k]);
        assert(present_in(outs, chain_id, token));
    }
    if out_matches(outs.last(), chain_id, token) {
        assert(out_matches(outs[outs.len() - 1], chain_id, token));
        assert(present_in(outs, chain_id, token));
    }
}

/// How folding one output into an entry list changes each recorded
/// amount: the output's own pair gains `o.amount`, every other pair is
/// untouched.
#[verifier::rlimit(50)]
pub proof fn lemma_upsert_lookup(
    entries: Seq<ObligationEntry>,
    o: Output,
    chain_id: u64,
    token: Address,
)
    ensures
        spec_lookup(spec_upsert(entries, o), chain_id, token) == if out_matches(
            o,
            chain_id,
            token,
        ) {
            match spec_lookup(entries, chain_id, token) {
                Some(a) => Some(((a + o.amount) as u128)),
                None => Some(o.amount),
            }
        } else {
            spec_lookup(entries, chain_id, token)
        },
    decreases entries.len(),
{
    let u = spec_upsert(entries, o);
    if entries.len() == 0 {
        let e = ObligationEntry { chain_id: o.chain_id, token: o.token, amount: o.amount };
        assert(u == seq![e]);
        assert(u.first() == e);
        assert(u.drop_first() =~= Seq::<ObligationEntry>::empty());
        if entry_matches(e, chain_id, token) {
            assert(spec_lookup(u, chain_id, token) == Some(o.amount));
            assert(out_matches(o, chain_id, token));
        } else {
            assert(spec_lookup(u, chain_id, token) == spec_lookup(
                u.drop_first(),
                chain_id,
                token,
            ));
            assert(spec_lookup(u, chain_id, token) is None);
        }
    } else if entry_matches(entries.first(), o.chain_id, o.token) {
        let b = ObligationEntry {
            chain_id: entries.first().chain_id,
            token: entries.first().token,
            amount: (entries.first().amount + o.amount) as u128,
        };
        assert(u == seq![b] + entries.drop_first());
        assert(u.first() == b);
        assert(u.drop_first() =~= entries.drop_first());
        if entry_matches(b, chain_id, token) {
            assert(out_matches(o, chain_id, token));
            assert(spec_lookup(u, chain_id, token) == Some(b.amount));
            assert(spec_lookup(entries, chain_id, token) == Some(entries.first().amount));
        } else {
            assert(!entry_matches(entries.first(), chain_id, token));
            assert(spec_lookup(u, chain_id, token) == spec_lookup(
                entries.drop_first(),
                chain_id,
                token,
            ));
            assert(spec_lookup(entries, chain_id, token) == spec_lookup(
                entries.drop_first(),
                chain_id,
                token,
            ));
            assert(!out_matches(o, chain_id, token));
        }
    } else {
        assert(u == seq![entries.first()] + spec_upsert(entries.drop_first(), o));
        assert(u.first() == entries.first());
        assert(u.drop_first() =~= spec_upsert(entries.drop_first(), o));
        lemma_upsert_lookup(entries.drop_first(), o, chain_id, token);
        if entry_matches(entries.first(), chain_id, token) {
            assert(!out_matches(o, chain_id, token));
            assert(spec_lookup(u, chain_id, token) == Some(entries.first().amount));
            assert(spec_lookup(entries, chain_id, token) == Some(entries.first().amount));
        } else {
            assert(spec_lookup(u, chain_id, token) == spec_lookup(
                spec_upsert(entries.drop_first(), o),
                chain_id,
                token,
            ));
            assert(spec_lookup(entries, chain_id, token) == spec_lookup(
                entries.drop_first(),
                chain_id,
                token,
            ));
        }
    }
}

/// The central law of the aggregator: after aggregating a sequence of
/// outputs, the recorded amount of every `(chain, token)` pair that
/// occurs in the outputs is exactly the arithmetic sum of the matching
/// output amounts, and no other pair is recorded.
pub proof fn lemma_agg_amounts_are_sums(outs: Seq<Output>, chain_id: u64, token: Address)
    requires
        sum_for(outs, chain_id, token) <= u128::MAX,
    ensures
        spec_lookup(spec_agg(outs), chain_id, token) == if present_in(outs, chain_id, token) {
            Some((sum_for(outs, chain_id, token) as u128))
        } else {
            None::<u128>
        },
    decreases outs.len(),
{
    if outs.len() == 0 {
    } else {
        let s = outs.drop_last();
        let o = outs.last();
        lemma_sum_nonneg(s, chain_id, token);
        lemma_agg_amounts_are_sums(s, chain_id, token);
        lemma_upsert_lookup(spec_agg(s), o, chain_id, token);
        lemma_present_drop_last(outs, chain_id, token);
        if out_matches(o, chain_id, token) {
            if !present_in(s, chain_id, token) {
                lemma_sum_absent(s, chain_id, token);
            }
        }
    }
}

/// The index of the first entry keyed by `(chain_id, token)`, or `-1` if
/// none is.
pub open spec fn find_first(entries: Seq<ObligationEntry>, chain_id: u64, token: Address) -> int
    decreases entries.len(),
{
    if entries.len() == 0 {
        -1
    } else if entry_matches(entries.first(), chain_id, token) {
        0
    } else {
        let r = find_first(entries.drop_first(), chain_id, token);
        if r == -1 {
            -1
        } else {
            r + 1
        }
    }
}

/// What `find_first` finds: either no entry matches at all, or the found
/// index is the first matching one.
pub proof fn lemma_find_first(entries: Seq<ObligationEntry>, chain_id: u64, token: Address)
    ensures
        -1 <= find_first(entries, chain_id, token) < entries.len(),
        find_first(entries, chain_id, token) == -1 ==> (forall|k: int|
            0 <= k < entries.len() ==> !entry_matches(#[trigger] entries[k], chain_id, token)),
        find_first(entries, chain_id, token) >= 0 ==> {
            let i = find_first(entries, chain_id, token);
            &&& i < entries.len()
            &&& entry_matches(entries[i], chain_id, token)
            &&& forall|k: int|
                0 <= k < i ==> !entry_matches(#[trigger] entries[k], chain_id, token)
        },
    decreases entries.len(),
{
    if entries.len() == 0 {
    } else if entry_matches(entries.first(), chain_id, token) {
        assert(entries[0] == entries.first());
    } else {
        let rest = entries.drop_first();
        lemma_find_first(rest, chain_id, token);
        let r = find_first(rest, chain_id, token);
        if r == -1 {
            assert forall|k: int|
                0 <= k < entries.len() implies !entry_matches(
                #[trigger] entries[k],
                chain_id,
                token,
            ) by {
                if k == 0 {
                    assert(entries[0] == entries.first());
                } else {
                    assert(entries[k] == rest[k - 1]);
                }
            }
        } else {
            assert(entries[r + 1] == rest[r]);
            assert forall|k: int|
                0 <= k < r + 1 implies !entry_matches(#[trigger] entries[k], chain_id, token) by {
                if k == 0 {
                    assert(entries[0] == entries.first());
                } else {
                    assert(entries[k] == rest[k - 1]);
                }
            }
        }
    }
}

/// When the first matching entry stands at index `i`, the lookup reads
/// that entry.
pub proof fn lemma_lookup_at(entries: Seq<ObligationEntry>, chain_id: u64, token: Address, i: int)
    requires
        0 <= i < entries.len(),
        entry_matches(entries[i], chain_id, token),
        forall|k: int| 0 <= k < i ==> !entry_matches(#[trigger] entries[k], chain_id, token),
    ensures
        spec_lookup(entries, chain_id, token) == Some(entries[i].amount),
    decreases i,
{
    if i > 0 {
        let rest = entries.drop_first();
        assert(forall|k: int| 0 <= k < rest.len() ==> rest[k] == #[trigger] entries[k + 1]);
        lemma_lookup_at(rest, chain_id, token, i - 1);
    }
}

/// When no entry matches, the lookup reads nothing.
pub proof fn lemma_lookup_none(entries: Seq<ObligationEntry>, chain_id: u64, token: Address)
    requires
        forall|k: int|
            0 <= k < entries.len() ==> !entry_matches(#[trigger] entries[k], chain_id, token),
    ensures
        spec_lookup(entries, chain_id, token) is None,
    decreases entries.len(),
{
    if entries.len() > 0 {
        let rest = entries.drop_first();
        assert(forall|k: int| 0 <= k < rest.len() ==> rest[k] == #[trigger] entries[k + 1]);
        lemma_lookup_none(rest, chain_id, token);
    }
}

/// When the first entry keyed like `o` stands at index `i`, folding `o`
/// in bumps exactly that entry.
pub proof fn lemma_upsert_found(entries: Seq<ObligationEntry>, o: Output, i: int)
    requires
        0 <= i < entries.len(),
        entry_matches(entries[i], o.chain_id, o.token),
        forall|k: int| 0 <= k < i ==> !entry_matches(#[trigger] entries[k], o.chain_id, o.token),
    ensures
        spec_upsert(entries, o) == entries.update(
            i,
            ObligationEntry {
                chain_id: entries[i].chain_id,
                token: entries[i].token,
                amount: (entries[i].amount + o.amount) as u128,
            },
        ),
    decreases i,
{
    if i == 0 {
        assert(spec_upsert(entries, o) =~= entries.update(
            0,
            ObligationEntry {
                chain_id: entries[0].chain_id,
                token: entries[0].token,
                amount: (entries[0].amount + o.amount) as u128,
            },
        ));
    } else {
        let rest = entries.drop_first();
        assert(forall|k: int| 0 <= k < rest.len() ==> rest[k] == #[trigger] entries[k + 1]);
        lemma_upsert_found(rest, o, i - 1);
        assert(spec_upsert(entries, o) =~= entries.update(
            i,
            ObligationEntry {
                chain_id: entries[i].chain_id,
                token: entries[i].token,
                amount: (entries[i].amount + o.amount) as u128,
            },
        ));
    }
}

/// When no entry is keyed like `o`, folding `o` in appends a fresh entry.
pub proof fn lemma_upsert_absent(entries: Seq<ObligationEntry>, o: Output)
    requires
        forall|k: int|
            0 <= k < entries.len() ==> !entry_matches(#[trigger] entries[k], o.chain_id, o.token),
    ensures
        spec_upsert(entries, o) == entries.push(
            ObligationEntry { chain_id: o.chain_id, token: o.token, amount: o.amount },
        ),
    decreases entries.len(),
{
    if entries.len() == 0 {
        assert(spec_upsert(entries, o) =~= entries.push(
            ObligationEntry { chain_id: o.chain_id, token: o.token, amount: o.amount },
        ));
    } else {
        let rest = entries.drop_first();
        assert(forall|k: int| 0 <= k < rest.len() ==> rest[k] == #[trigger] entries[k + 1]);
        lemma_upsert_absent(rest, o);
        assert(spec_upsert(entries, o) =~= entries.push(
            ObligationEntry { chain_id: o.chain_id, token: o.token, amount: o.amount },
        ));
    }
}

/// Folding an output in never introduces a duplicate key.
pub proof fn lemma_upsert_unique(entries: Seq<ObligationEntry>, o: Output)
    requires
        unique_keys(entries),
    ensures
        unique_keys(spec_upsert(entries, o)),
{
    lemma_find_first(entries, o.chain_id, o.token);
    let i = find_first(entries, o.chain_id, o.token);
    if i >= 0 {
        lemma_upsert_found(entries, o, i);
    } else {
        lemma_upsert_absent(entries, o);
        assert forall|a: int, b: int|
            0 <= a < b < spec_upsert(entries, o).len() implies !(#[trigger] spec_upsert(entries, o)[a].chain_id
            == #[trigger] spec_upsert(entries, o)[b].chain_id && spec_upsert(entries, o)[a].token
            == spec_upsert(entries, o)[b].token) by {
            if b == entries.len() {
                assert(spec_upsert(entries, o)[a] == entries[a]);
                assert(!entry_matches(entries[a], o.chain_id, o.token));
            } else {
                assert(spec_upsert(entries, o)[a] == entries[a]);
                assert(spec_upsert(entries, o)[b] == entries[b]);
            }
        }
    }
}

/// The aggregation of any output sequence has unique keys.
pub proof fn lemma_agg_unique(outs: Seq<Output>)
    ensures
        unique_keys(spec_agg(outs)),
    decreases outs.len(),
{
    if outs.len() == 0 {
    } else {
        lemma_agg_unique(outs.drop_last());
        lemma_upsert_unique(spec_agg(outs.drop_last()), outs.last());
    }
}

/// Collects all outputs of `orders`, in order.
fn flatten_outputs(orders: &Vec<SignedOrder>) -> (r: Vec<Output>)
    ensures
        r@ == flat_outputs(orders.deep_view()),
{
    let ghost dv = orders.deep_view();
    let mut r: Vec<Output> = Vec::new();
    let n: usize = orders.len();
    assert(dv.len() == orders@.len());
    let mut i: usize = 0;
    while i < n
        invariant
            n == orders@.len(),
            dv == orders.deep_view(),
            dv.len() == n,
            0 <= i <= n,
            r@ == flat_outputs(dv.take(i as int)),
        decreases n - i,
    {
        let outs = &orders[i];
        let m: usize = outs.outputs.len();
        assert(dv[i as int] == orders@[i as int]@);
        let mut j: usize = 0;
        while j < m
            invariant
                n == orders@.len(),
                dv == orders.deep_view(),
                dv.len() == n,
                0 <= i < n,
                outs == &orders@[i as int],
                m == outs.outputs@.len(),
                dv[i as int] == orders@[i as int]@,
                0 <= j <= m,
                r@ == flat_outputs(dv.take(i as int)) + outs.outputs@.take(j as int),
            decreases m - j,
        {
            r.push(outs.outputs[j]);
            assert(outs.outputs@.take(j + 1 as int) =~= outs.outputs@.take(j as int).push(
                outs.outputs@[j as int],
            ));
            j = j + 1;
        }
        proof {
            assert(dv.take(i + 1 as int).drop_last() =~= dv.take(i as int));
            assert(dv.take(i + 1 as int).last() == dv[i as int]);
            assert(outs.outputs@.take(m as int) =~= outs.outputs@);
            assert(outs.outputs@ == dv[i as int].outputs);
        }
        i = i + 1;
    }
    assert(dv.take(n as int) =~= dv);
    r
}

/// Folds one output into the entry list when the bumped amount still
/// fits the amount type; otherwise reports failure and leaves the list
/// unchanged.
fn try_upsert(entries: &mut Vec<ObligationEntry>, o: Output) -> (ok: bool)
    ensures
        ok ==> final(entries)@ == spec_upsert(old(entries)@, o),
        ok ==> match spec_lookup(old(entries)@, o.chain_id, o.token) {
            Some(a) => a + o.amount <= u128::MAX,
            None => true,
        },
        !ok ==> final(entries)@ == old(entries)@,
        !ok ==> match spec_lookup(old(entries)@, o.chain_id, o.token) {
            Some(a) => a + o.amount > u128::MAX,
            None => false,
        },
{
    let n: usize = entries.len();
    let mut i: usize = 0;
    while i < n
        invariant
            n == entries@.len(),
            entries@ == old(entries)@,
            0 <= i <= n,
            forall|k: int|
                0 <= k < i ==> !entry_matches(#[trigger] entries@[k], o.chain_id, o.token),
        decreases n - i,
    {
        let e = entries[i];
        if e.chain_id == o.chain_id && e.token == o.token {
            proof {
                lemma_lookup_at(entries@, o.chain_id, o.token, i as int);
            }
            if e.amount > u128::MAX - o.amount {
                return false;
            }
            proof {
                lemma_upsert_found(entries@, o, i as int);
            }
            entries[i] = ObligationEntry {
                chain_id: e.chain_id,
                token: e.token,
                amount: e.amount + o.amount,
            };
            return true;
        }
        i = i + 1;
    }
    proof {
        lemma_lookup_none(entries@, o.chain_id, o.token);
        lemma_upsert_absent(entries@, o);
    }
    entries.push(ObligationEntry { chain_id: o.chain_id, token: o.token, amount: o.amount });
    true
}

/// Nets a non-empty ordered set of signed orders into one obligation per
/// `(destination chain, token)` pair; an empty order set is rejected.
///
/// The result is pinned to the spec-level aggregation of the orders'
/// outputs, so the recorded amount of every pair is the arithmetic sum
/// of the matching output amounts (see [`lemma_agg_amounts_are_sums`]).
pub fn aggregate(orders: &Vec<SignedOrder>) -> (r: Result<AggregateObligation, FillError>)
    requires
        spec_sums_fit(flat_outputs(orders.deep_view())),
    ensures
        match r {
            Ok(ob) => orders@.len() > 0 && ob@ == spec_agg(flat_outputs(orders.deep_view()))
                && ob.wf(),
            Err(e) => e == FillError::EmptyOrderSet && orders@.len() == 0,
        },
{
    if orders.len() == 0 {
        return Err(FillError::EmptyOrderSet);
    }
    let ghost all = flat_outputs(orders.deep_view());
    let flat = flatten_outputs(orders);
    let m: usize = flat.len();
    let mut entries: Vec<ObligationEntry> = Vec::new();
    let mut j: usize = 0;
    while j < m
        invariant
            flat@ == all,
            m == flat@.len(),
            forall|chain_id: u64, token: Address|
                #[trigger] sum_for(all, chain_id, token) <= u128::MAX,
            0 <= j <= m,
            entries@ == spec_agg(all.take(j as int)),
        decreases m - j,
    {
        let o = flat[j];
        proof {
            let c = o.chain_id;
            let t = o.token;
            let pre = all.take(j as int);
            lemma_sum_nonneg(pre, c, t);
            lemma_sum_take_le(all, j as int, c, t);
            lemma_agg_amounts_are_sums(pre, c, t);
            assert(all.take(j + 1 as int) =~= pre.push(all[j as int]));
            lemma_sum_take_le(all, j + 1 as int, c, t);
            assert(sum_for(pre.push(o), c, t) == sum_for(pre, c, t) + o.amount) by {
                assert(pre.push(o).drop_last() =~= pre);
            }
            assert(match spec_lookup(entries@, c, t) {
                Some(a) => a + o.amount <= u128::MAX,
                None => true,
            });
        }
        let ok = try_upsert(&mut entries, o);
        proof {
            if !ok {
                assert(false);
            }
            assert(all.take(j + 1 as int).drop_last() =~= all.take(j as int));
        }
        j = j + 1;
    }
    proof {
        assert(all.take(m as int) =~= all);
        lemma_agg_unique(all);
    }
    Ok(AggregateObligation { entries })
}

/// Decides the aggregator's precondition on real data: whether every
/// `(chain, token)` output sum of the order set fits the amount type.
/// A caller that cannot establish [`spec_sums_fit`] by proof runs this
/// check first and aggregates only on `true`.
#[verifier::rlimit(50)]
pub fn output_sums_fit(orders: &Vec<SignedOrder>) -> (r: bool)
    ensures
        r == spec_sums_fit(flat_outputs(orders.deep_view())),
{
    let ghost all = flat_outputs(orders.deep_view());
    let flat = flatten_outputs(orders);
    let m: usize = flat.len();
    let mut entries: Vec<ObligationEntry> = Vec::new();
    let mut j: usize = 0;
    while j < m
        invariant
            all == flat_outputs(orders.deep_view()),
            flat@ == all,
            m == flat@.len(),
            0 <= j <= m,
            entries@ == spec_agg(all.take(j as int)),
            forall|chain_id: u64, token: Address|
                #[trigger] sum_for(all.take(j as int), chain_id, token) <= u128::MAX,
        decreases m - j,
    {
        let o = flat[j];
        let ghost pre = all.take(j as int);
        let ghost c = o.chain_id;
        let ghost t = o.token;
        proof {
            lemma_sum_nonneg(pre, c, t);
            lemma_agg_amounts_are_sums(pre, c, t);
            assert(all.take(j + 1 as int) =~= pre.push(all[j as int]));
            assert(sum_for(pre.push(o), c, t) == sum_for(pre, c, t) + o.amount) by {
                assert(pre.push(o).drop_last() =~= pre);
            }
        }
        let ok = try_upsert(&mut entries, o);
        if !ok {
            proof {
                if !present_in(pre, c, t) {
                    lemma_sum_absent(pre, c, t);
                }
                lemma_sum_take_le(all, j + 1 as int, c, t);
                assert(sum_for(all, c, t) > u128::MAX);
                assert(!spec_sums_fit(all));
            }
            return false;
        }
        proof {
            assert(all.take(j + 1 as int).drop_last() =~= all.take(j as int));
            if !present_in(pre, c, t) {
                lemma_sum_absent(pre, c, t);
            }
            assert forall|c2: u64, t2: Address| #[trigger] sum_for(
                all.take(j + 1 as int),
                c2,
                t2,
            ) <= u128::MAX by {
                assert(sum_for(pre, c2, t2) <= u128::MAX);
                assert(pre.push(o).drop_last() =~= pre);
                assert(sum_for(pre.push(o), c2, t2) == sum_for(pre, c2, t2) + if out_matches(
                    o,
                    c2,
                    t2,
                ) {
                    o.amount as int
                } else {
                    0
                });
            }
        }
        j = j + 1;
    }
    proof {
        assert(all.take(m as int) =~= all);
    }
    true
}

} // verus!
