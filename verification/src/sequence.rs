//! The transaction sequencer: builds the ordered transaction request
//! lists for the rollup and the host chain.
//!
//! The correctness-critical rule: when a signed fill exists for the
//! rollup chain, its fill request is the first element of the rollup
//! list, strictly preceding every initiate request, because an initiate
//! call is only valid once its fill is recorded on the same chain and a
//! block orders transactions top to bottom. Host fills carry no such
//! constraint and form a list of at most one request.

use vstd::prelude::*;
use crate::config::SystemConfig;
use crate::fill::{SignedFill, SignedFillMap, SignedFillV};
use crate::types::{Address, SignedOrder, SignedOrderV};

verus! {

/// Mathematical value of a [`TxRequest`].
pub ghost enum TxRequestV {
    /// A call submitting a signed fill to its chain's orders contract.
    Fill(SignedFillV),
    /// A call initiating one signed order.
    Initiate {
        /// The order being initiated.
        order: SignedOrderV,
        /// The filler address that receives the order's inputs.
        filler: Address,
        /// The orders contract the call is addressed to.
        contract: Address,
    },
}

/// An unsigned, chain-scoped transaction request: either a fill call
/// carrying a signed fill, or an initiate call carrying a signed order.
/// The position of a request in its chain's list is semantically
/// significant.
#[derive(Debug)]
pub enum TxRequest {
    /// A call submitting a signed fill to its chain's orders contract.
    Fill(SignedFill),
    /// A call initiating one signed order.
    Initiate {
        /// The order being initiated.
        order: SignedOrder,
        /// The filler address that receives the order's inputs.
        filler: Address,
        /// The orders contract the call is addressed to.
        contract: Address,
    },
}

impl View for TxRequest {
    type V = TxRequestV;

    open spec fn view(&self) -> TxRequestV {
        match self {
            TxRequest::Fill(f) => TxRequestV::Fill(f@),
            TxRequest::Initiate { order, filler, contract } => TxRequestV::Initiate {
                order: order@,
                filler: *filler,
                contract: *contract,
            },
        }
    }
}

impl DeepView for TxRequest {
    type V = TxRequestV;

    open spec fn deep_view(&self) -> TxRequestV {
        self.view()
    }
}

/// One initiate request per order, in input order.
pub open spec fn spec_initiates(
    orders: Seq<SignedOrderV>,
    filler: Address,
    contract: Address,
) -> Seq<TxRequestV> {
    Seq::new(
        orders.len(),
        |i: int| TxRequestV::Initiate { order: orders[i], filler, contract },
    )
}

/// The rollup request list: the rollup fill first when one exists, then
/// one initiate per order, in input order.
pub open spec fn spec_rollup_requests(
    fill: Option<SignedFillV>,
    orders: Seq<SignedOrderV>,
    filler: Address,
    contract: Address,
) -> Seq<TxRequestV> {
    (match fill {
        Some(f) => seq![TxRequestV::Fill(f)],
        None => Seq::empty(),
    }) + spec_initiates(orders, filler, contract)
}

/// The host request list: the host fill alone when one exists.
pub open spec fn spec_host_requests(fill: Option<SignedFillV>) -> Seq<TxRequestV> {
    match fill {
        Some(f) => seq![TxRequestV::Fill(f)],
        None => Seq::empty(),
    }
}

/// The sequencing invariant, as a law of [`spec_rollup_requests`]: with
/// a rollup fill present, the produced list has the fill request at
/// index 0, and all initiate requests strictly after it, one per input
/// order, preserving input order.
pub proof fn lemma_fill_precedes_initiates(
    fill: SignedFillV,
    orders: Seq<SignedOrderV>,
    filler: Address,
    contract: Address,
)
    ensures
        ({
            let r = spec_rollup_requests(Some(fill), orders, filler, contract);
            &&& r.len() == 1 + orders.len()
            &&& r[0] == TxRequestV::Fill(fill)
            &&& forall|k: int|
                0 <= k < orders.len() ==> r[k + 1] == (TxRequestV::Initiate {
                    order: orders[k],
                    filler,
                    contract,
                })
        }),
{
    let r = spec_rollup_requests(Some(fill), orders, filler, contract);
    assert(r[0] == TxRequestV::Fill(fill));
    assert(forall|k: int|
        0 <= k < orders.len() ==> r[k + 1] == #[trigger] spec_initiates(
            orders,
            filler,
            contract,
        )[k]);
}

/// Builds the ordered rollup transaction request list: the rollup fill
/// first when the mapping holds one, then one initiate per signed
/// order, in input order, each addressed to the rollup orders contract
/// with the filler as input recipient.
pub fn rollup_txn_requests(
    fills: &SignedFillMap,
    orders: &Vec<SignedOrder>,
    filler: Address,
    cfg: &SystemConfig,
) -> (r: Vec<TxRequest>)
    ensures
        r.deep_view() == spec_rollup_requests(
            fills.spec_fill_for(cfg.rollup.chain_id),
            orders.deep_view(),
            filler,
            cfg.rollup.orders_contract,
        ),
{
    let ghost goal = spec_rollup_requests(
        fills.spec_fill_for(cfg.rollup.chain_id),
        orders.deep_view(),
        filler,
        cfg.rollup.orders_contract,
    );
    let contract = cfg.rollup.orders_contract;
    let mut r: Vec<TxRequest> = Vec::new();
    let ghost head: int = match fills.spec_fill_for(cfg.rollup.chain_id) {
        Some(_) => 1,
        None => 0,
    };
    match fills.fill_for(cfg.rollup.chain_id) {
        Some(f) => {
            r.push(TxRequest::Fill(f.clone()));
        },
        None => {
        },
    }
    assert(r@.len() == head);
    assert(forall|j: int| 0 <= j < head ==> (#[trigger] r@[j])@ == goal[j]);
    let n: usize = orders.len();
    let mut i: usize = 0;
    while i < n
        invariant
            goal == spec_rollup_requests(
                fills.spec_fill_for(cfg.rollup.chain_id),
                orders.deep_view(),
                filler,
                cfg.rollup.orders_contract,
            ),
            head == goal.len() - orders.deep_view().len(),
            0 <= head <= 1,
            contract == cfg.rollup.orders_contract,
            n == orders@.len(),
            orders.deep_view().len() == n,
            0 <= i <= n,
            r@.len() == head + i,
            forall|j: int| 0 <= j < head + i ==> (#[trigger] r@[j])@ == goal[j],
        decreases n - i,
    {
        let o = orders[i].clone();
        proof {
            assert(orders.deep_view()[i as int] == orders@[i as int]@);
            assert(goal[head + i] == (TxRequestV::Initiate {
                order: orders.deep_view()[i as int],
                filler,
                contract,
            }));
        }
        r.push(TxRequest::Initiate { order: o, filler, contract });
        i = i + 1;
    }
    proof {
        assert(r.deep_view() =~= goal) by {
            assert(forall|j: int| 0 <= j < r@.len() ==> #[trigger] r.deep_view()[j] == r@[j]@);
        }
    }
    r
}

/// Builds the host transaction request list: at most one request, the
/// host fill, when the mapping holds one.
pub fn host_txn_requests(fills: &SignedFillMap, cfg: &SystemConfig) -> (r: Vec<TxRequest>)
    ensures
        r.deep_view() == spec_host_requests(fills.spec_fill_for(cfg.host.chain_id)),
{
    let mut r: Vec<TxRequest> = Vec::new();
    match fills.fill_for(cfg.host.chain_id) {
        Some(f) => {
            r.push(TxRequest::Fill(f.clone()));
        },
        None => {
        },
    }
    proof {
        assert(r.deep_view() =~= spec_host_requests(fills.spec_fill_for(cfg.host.chain_id))) by {
            assert(forall|j: int| 0 <= j < r@.len() ==> #[trigger] r.deep_view()[j] == r@[j]@);
        }
    }
    r
}

} // verus!
