//! One fill attempt's pure pipeline: aggregate the orders, derive the
//! shared deadline, build and sign the per-chain fills, and sequence
//! the rollup and host transaction requests. Everything after this
//! plan — nonce resolution, transaction signing, bundle submission and
//! confirmation watching — consumes the plan through the other modules.
//!
//! The deadline policy follows the engine's rule of thumb: the signed
//! fill uses the lead order's deadline, and all orders grouped into one
//! attempt are expected to share it.

use vstd::prelude::*;
use crate::aggregate::{aggregate, flat_outputs, spec_agg, spec_sums_fit, AggregateObligation,
    ObligationEntry};
use crate::config::SystemConfig;
use crate::errors::FillError;
use crate::fill::{chains_of, fill_payloads, sign_fills, spec_fill_lookup, spec_fill_payloads,
    FillPayloadV, SignedFillMap, Signer};
use crate::sequence::{host_txn_requests, rollup_txn_requests, spec_host_requests,
    spec_rollup_requests, TxRequest};
use crate::types::{Address, SignedOrder, SignedOrderV};

verus! {

/// Everything one fill attempt has decided before any transaction is
/// signed for a chain: the shared deadline, the netted obligation, the
/// signed fills, and the ordered request lists for both chains.
#[derive(Debug)]
pub struct FillPlan {
    /// The shared fill deadline, taken from the lead order.
    pub deadline: u64,
    /// The netted obligation of the order set.
    pub obligation: AggregateObligation,
    /// One signed fill per destination chain.
    pub fills: SignedFillMap,
    /// The ordered rollup transaction requests.
    pub ru_requests: Vec<TxRequest>,
    /// The ordered host transaction requests.
    pub host_requests: Vec<TxRequest>,
}

/// Reads the shared fill deadline from the lead order. The deadline
/// must fit the engine's deadline type; an order set without a lead
/// order is rejected outright.
pub fn extract_deadline(orders: &Vec<SignedOrder>) -> (r: Result<u64, FillError>)
    ensures
        match r {
            Ok(d) => orders@.len() > 0 && orders.deep_view()[0].permit.deadline == d,
            Err(e) => match e {
                FillError::EmptyOrderSet => orders@.len() == 0,
                FillError::InvalidDeadline => orders@.len() > 0
                    && orders.deep_view()[0].permit.deadline > u64::MAX,
                _ => false,
            },
        },
{
    if orders.len() == 0 {
        return Err(FillError::EmptyOrderSet);
    }
    let d = orders[0].permit.deadline;
    assert(orders.deep_view()[0] == orders@[0]@);
    if d > u64::MAX as u128 {
        return Err(FillError::InvalidDeadline);
    }
    Ok(d as u64)
}

/// The earliest permit deadline across the order set. Once it has
/// passed, submitting further bundles for these orders is guaranteed
/// wasted work, so a caller's cancellation should key on it.
pub fn min_deadline(orders: &Vec<SignedOrder>) -> (r: Option<u128>)
    ensures
        match r {
            Some(m) => {
                &&& orders@.len() > 0
                &&& forall|k: int|
                    0 <= k < orders@.len() ==> m <= (#[trigger] orders.deep_view()[k]).permit.deadline
                &&& exists|k: int|
                    0 <= k < orders@.len() && (#[trigger] orders.deep_view()[k]).permit.deadline
                        == m
            },
            None => orders@.len() == 0,
        },
{
    let n: usize = orders.len();
    if n == 0 {
        return None;
    }
    let mut m: u128 = orders[0].permit.deadline;
    assert(orders.deep_view()[0] == orders@[0]@);
    let mut i: usize = 1;
    while i < n
        invariant
            n == orders@.len(),
            1 <= i <= n,
            forall|k: int| 0 <= k < i ==> m <= (#[trigger] orders.deep_view()[k]).permit.deadline,
            exists|k: int|
                0 <= k < i && (#[trigger] orders.deep_view()[k]).permit.deadline == m,
        decreases n - i,
    {
        assert(orders.deep_view()[i as int] == orders@[i as int]@);
        let d = orders[i].permit.deadline;
        if d < m {
            m = d;
        }
        i = i + 1;
    }
    Some(m)
}

/// Plans one fill attempt: nets the orders, derives the deadline from
/// the lead order, builds and signs one fill per destination chain,
/// and sequences the rollup and host transaction requests.
///
/// Fails with `EmptyOrderSet` on zero orders, `InvalidDeadline` when
/// the lead order's deadline does not fit, `UnknownChain` when a
/// destination chain has no configured fill contract, and
/// `SigningFailed` only when the signing capability rejects — which it
/// can be handed only after the earlier stages all passed and at least
/// one payload exists; nothing else can fail.
pub fn plan_fill<S: Signer>(
    orders: &Vec<SignedOrder>,
    cfg: &SystemConfig,
    filler: Address,
    signer: &S,
) -> (r: Result<FillPlan, FillError>)
    requires
        spec_sums_fit(flat_outputs(orders.deep_view())),
    ensures
        match r {
            Ok(plan) => {
                let dv = orders.deep_view();
                let ob = spec_agg(flat_outputs(dv));
                let ps = spec_fill_payloads(ob, plan.deadline, *cfg);
                &&& dv.len() > 0
                &&& dv[0].permit.deadline <= u64::MAX
                &&& plan.deadline == dv[0].permit.deadline as u64
                &&& plan.obligation@ == ob
                &&& plan.fills@.len() == ps.len()
                &&& forall|i: int|
                    0 <= i < ps.len() ==> (#[trigger] plan.fills@[i]).payload == ps[i]
                &&& forall|i: int|
                    0 <= i < ps.len() ==> cfg.spec_orders_contract_for((#[trigger] ps[i]).chain_id)
                        == Some(ps[i].contract)
                &&& plan.fills.wf()
                &&& plan.ru_requests.deep_view() == spec_rollup_requests(
                    spec_fill_lookup(plan.fills@, cfg.rollup.chain_id),
                    dv,
                    filler,
                    cfg.rollup.orders_contract,
                )
                &&& plan.host_requests.deep_view() == spec_host_requests(
                    spec_fill_lookup(plan.fills@, cfg.host.chain_id),
                )
            },
            Err(e) => match e {
                FillError::EmptyOrderSet => orders@.len() == 0,
                FillError::InvalidDeadline => orders@.len() > 0
                    && orders.deep_view()[0].permit.deadline > u64::MAX,
                FillError::UnknownChain(c) => orders@.len() > 0 && !cfg.spec_knows_chain(c)
                    && chains_of(spec_agg(flat_outputs(orders.deep_view()))).contains(c),
                FillError::SigningFailed => {
                    let chains = chains_of(spec_agg(flat_outputs(orders.deep_view())));
                    &&& orders@.len() > 0
                    &&& orders.deep_view()[0].permit.deadline <= u64::MAX
                    &&& chains.len() > 0
                    &&& forall|j: int|
                        0 <= j < chains.len() ==> cfg.spec_knows_chain(#[trigger] chains[j])
                },
                _ => false,
            },
        },
{
    let deadline = match extract_deadline(orders) {
        Ok(d) => d,
        Err(e) => {
            return Err(e);
        },
    };
    let obligation = match aggregate(orders) {
        Ok(ob) => ob,
        Err(e) => {
            return Err(e);
        },
    };
    let payloads = match fill_payloads(&obligation, deadline, cfg) {
        Ok(ps) => ps,
        Err(e) => {
            proof {
                if let FillError::UnknownChain(c) = e {
                    let chains = chains_of(obligation@);
                    let i = choose|i: int|
                        0 <= i < chains.len() && e == FillError::UnknownChain(chains[i])
                            && !cfg.spec_knows_chain(#[trigger] chains[i]);
                    assert(chains.contains(chains[i]));
                }
            }
            return Err(e);
        },
    };
    proof {
        crate::fill::lemma_chains_of_distinct(obligation@);
        assert(forall|i: int|
            0 <= i < payloads.deep_view().len() ==> (#[trigger] payloads.deep_view()[i]).chain_id
                == chains_of(obligation@)[i]);
    }
    let fills = match sign_fills(&payloads, signer) {
        Ok(m) => m,
        Err(e) => {
            proof {
                assert(payloads.deep_view().len() == payloads@.len());
                assert(payloads.deep_view().len() == chains_of(obligation@).len());
            }
            return Err(e);
        },
    };
    let ru_requests = rollup_txn_requests(&fills, orders, filler, cfg);
    let host_requests = host_txn_requests(&fills, cfg);
    Ok(FillPlan { deadline, obligation, fills, ru_requests, host_requests })
}

/// Idempotence law of the planning stages: net amounts and signable
/// payloads are functions of the order set, the deadline and the
/// configuration alone, so re-running the aggregator and the fill
/// signer's payload construction on the same inputs yields the same
/// values.
pub proof fn lemma_fill_planning_deterministic(
    orders: Seq<SignedOrderV>,
    deadline: u64,
    cfg: SystemConfig,
    ob1: Seq<ObligationEntry>,
    ob2: Seq<ObligationEntry>,
    ps1: Seq<FillPayloadV>,
    ps2: Seq<FillPayloadV>,
)
    requires
        ob1 == spec_agg(flat_outputs(orders)),
        ob2 == spec_agg(flat_outputs(orders)),
        ps1 == spec_fill_payloads(ob1, deadline, cfg),
        ps2 == spec_fill_payloads(ob2, deadline, cfg),
    ensures
        ob1 == ob2,
        ps1 == ps2,
{
}

/// Keeps exactly the fetched orders that are the target order, matched
/// by order identity: byte-identical signed content, never object
/// identity.
pub fn retain_matching(orders: &Vec<SignedOrder>, target: &SignedOrder) -> (r: Vec<SignedOrder>)
    ensures
        r.deep_view() == orders.deep_view().filter(|o: SignedOrderV| o == target@),
{
    let ghost pred = |o: SignedOrderV| o == target@;
    let n: usize = orders.len();
    let mut r: Vec<SignedOrder> = Vec::new();
    proof {
        reveal(Seq::filter);
        assert(orders.deep_view().take(0).filter(pred) =~= Seq::<SignedOrderV>::empty());
        assert(r.deep_view() =~= Seq::<SignedOrderV>::empty());
    }
    let mut i: usize = 0;
    while i < n
        invariant
            n == orders@.len(),
            0 <= i <= n,
            r.deep_view() == orders.deep_view().take(i as int).filter(pred),
            pred == (|o: SignedOrderV| o == target@),
        decreases n - i,
    {
        let ghost dv = orders.deep_view();
        proof {
            reveal(Seq::filter);
            assert(dv.take(i + 1 as int).drop_last() =~= dv.take(i as int));
            assert(dv.take(i + 1 as int).last() == dv[i as int]);
            assert(dv[i as int] == orders@[i as int]@);
        }
        if orders[i].matches(target) {
            let o = orders[i].clone();
            r.push(o);
            proof {
                reveal(Seq::filter);
                assert(r.deep_view() =~= dv.take(i + 1 as int).filter(pred)) by {
                    assert(forall|j: int|
                        0 <= j < r@.len() ==> #[trigger] r.deep_view()[j] == r@[j]@);
                    assert(dv.take(i + 1 as int).filter(pred) == dv.take(i as int).filter(
                        pred,
                    ).push(dv[i as int]));
                }
            }
        } else {
            proof {
                reveal(Seq::filter);
                assert(dv.take(i + 1 as int).filter(pred) == dv.take(i as int).filter(pred));
            }
        }
        i = i + 1;
    }
    proof {
        assert(orders.deep_view().take(n as int) =~= orders.deep_view());
    }
    r
}

} // verus!
