//! The bundle submitter's pure half: packaging wire-encoded rollup
//! transactions, plus any host-chain transactions, into bundles that
//! each target one future block.
//!
//! A bundle is atomic from the relay's perspective. The resubmission
//! policy raises inclusion odds by building several structurally
//! identical bundles that differ only in their target block number;
//! that redundancy is explicitly not atomic across bundles.

use vstd::prelude::*;
use crate::types::TxHash;

verus! {

/// How many consecutive future blocks the default resubmission policy
/// targets.
pub const DEFAULT_RESUBMISSION_BLOCKS: u64 = 10;

/// Mathematical value of a [`Bundle`].
pub ghost struct BundleV {
    /// The ordered wire bytes of the rollup transactions.
    pub txs: Seq<Seq<u8>>,
    /// The ordered wire bytes of the host-chain transactions.
    pub host_txs: Seq<Seq<u8>>,
    /// The single rollup block the bundle targets.
    pub block_number: u64,
    /// Transactions allowed to revert without invalidating the bundle.
    pub reverting_tx_hashes: Seq<TxHash>,
    /// The lower bound of the optional validity window.
    pub min_timestamp: Option<u64>,
    /// The upper bound of the optional validity window.
    pub max_timestamp: Option<u64>,
    /// The optional replacement identifier for cancel or replace
    /// semantics.
    pub replacement_uuid: Option<Seq<u8>>,
}

/// An ordered, block-targeted group of transactions submitted together
/// to the relay: either all of its rollup transactions are included in
/// the targeted block, or none are.
#[derive(Debug)]
pub struct Bundle {
    /// The ordered wire bytes of the rollup transactions.
    pub txs: Vec<Vec<u8>>,
    /// The ordered wire bytes of the host-chain transactions.
    pub host_txs: Vec<Vec<u8>>,
    /// The single rollup block the bundle targets.
    pub block_number: u64,
    /// Transactions allowed to revert without invalidating the bundle.
    pub reverting_tx_hashes: Vec<TxHash>,
    /// The lower bound of the optional validity window.
    pub min_timestamp: Option<u64>,
    /// The upper bound of the optional validity window.
    pub max_timestamp: Option<u64>,
    /// The optional replacement identifier for cancel or replace
    /// semantics.
    pub replacement_uuid: Option<Vec<u8>>,
}

impl View for Bundle {
    type V = BundleV;

    open spec fn view(&self) -> BundleV {
        BundleV {
            txs: self.txs.deep_view(),
            host_txs: self.host_txs.deep_view(),
            block_number: self.block_number,
            reverting_tx_hashes: self.reverting_tx_hashes@,
            min_timestamp: self.min_timestamp,
            max_timestamp: self.max_timestamp,
            replacement_uuid: match self.replacement_uuid {
                Some(u) => Some(u@),
                None => None,
            },
        }
    }
}

impl DeepView for Bundle {
    type V = BundleV;

    open spec fn deep_view(&self) -> BundleV {
        self.view()
    }
}

/// The bundle the default policy builds for one target block: the given
/// transactions, no validity window, no replacement identifier, no
/// reverting transactions.
pub open spec fn spec_bundle_for(
    txs: Seq<Seq<u8>>,
    host_txs: Seq<Seq<u8>>,
    block_number: u64,
) -> BundleV {
    BundleV {
        txs,
        host_txs,
        block_number,
        reverting_tx_hashes: Seq::empty(),
        min_timestamp: None,
        max_timestamp: None,
        replacement_uuid: None,
    }
}

/// Copies a list of wire byte strings.
fn clone_byte_lists(v: &Vec<Vec<u8>>) -> (r: Vec<Vec<u8>>)
    ensures
        r.deep_view() == v.deep_view(),
{
    let n: usize = v.len();
    let mut r: Vec<Vec<u8>> = Vec::new();
    let mut i: usize = 0;
    while i < n
        invariant
            n == v@.len(),
            0 <= i <= n,
            r@.len() == i,
            forall|j: int| 0 <= j < i ==> (#[trigger] r@[j])@ == v@[j]@,
        decreases n - i,
    {
        let b = v[i].clone();
        proof {
            assert(b@ =~= v@[i as int]@);
        }
        r.push(b);
        i = i + 1;
    }
    proof {
        assert(r.deep_view() =~= v.deep_view()) by {
            assert(forall|j: int| 0 <= j < r@.len() ==> #[trigger] r.deep_view()[j] == r@[j]@);
            assert(forall|j: int| 0 <= j < v@.len() ==> #[trigger] v.deep_view()[j] == v@[j]@);
        }
    }
    r
}

/// Builds the bundle targeting one future block under the default
/// policy.
pub fn build_bundle(txs: &Vec<Vec<u8>>, host_txs: &Vec<Vec<u8>>, target_block: u64) -> (b: Bundle)
    ensures
        b@ == spec_bundle_for(txs.deep_view(), host_txs.deep_view(), target_block),
{
    let b = Bundle {
        txs: clone_byte_lists(txs),
        host_txs: clone_byte_lists(host_txs),
        block_number: target_block,
        reverting_tx_hashes: Vec::new(),
        min_timestamp: None,
        max_timestamp: None,
        replacement_uuid: None,
    };
    proof {
        assert(b@.reverting_tx_hashes =~= Seq::<TxHash>::empty());
    }
    b
}

/// Builds the resubmission series: `count` structurally identical
/// bundles that differ only in their target block, covering the
/// consecutive blocks `current_block + 1` through
/// `current_block + count`.
pub fn build_bundles(
    txs: &Vec<Vec<u8>>,
    host_txs: &Vec<Vec<u8>>,
    current_block: u64,
    count: u64,
) -> (r: Vec<Bundle>)
    requires
        current_block + count <= u64::MAX,
        count <= usize::MAX,
    ensures
        r@.len() == count,
        forall|i: int|
            0 <= i < count ==> (#[trigger] r@[i])@ == spec_bundle_for(
                txs.deep_view(),
                host_txs.deep_view(),
                (current_block + 1 + i) as u64,
            ),
{
    let mut r: Vec<Bundle> = Vec::new();
    let mut i: u64 = 0;
    while i < count
        invariant
            current_block + count <= u64::MAX,
            count <= usize::MAX,
            0 <= i <= count,
            r@.len() == i,
            forall|j: int|
                0 <= j < i ==> (#[trigger] r@[j])@ == spec_bundle_for(
                    txs.deep_view(),
                    host_txs.deep_view(),
                    (current_block + 1 + j) as u64,
                ),
        decreases count - i,
    {
        let b = build_bundle(txs, host_txs, current_block + 1 + i);
        r.push(b);
        i = i + 1;
    }
    r
}

} // verus!
