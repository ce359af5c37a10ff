//! The confirmation watcher's pure half: judging the aggregate outcome
//! of a fill attempt from the settled result of every per-transaction
//! watch.
//!
//! The attempt succeeds only when every watch confirmed. Otherwise it
//! fails with the first transaction to time out, or, when nothing timed
//! out, with the first provider failure. Every watch's own result stays
//! available to the caller; nothing here fails fast.

use vstd::prelude::*;
use crate::errors::FillError;
use crate::types::TxHash;

verus! {

/// The watch timeout, in seconds, under the default policy.
pub const CONFIRMATION_TIMEOUT_SECS: u64 = 300;

/// How one transaction's confirmation watch settled.
#[derive(Clone, Copy, Debug, PartialEq, Eq, Structural)]
pub enum WatchOutcome {
    /// A receipt with at least one confirmation arrived in time.
    Confirmed,
    /// No receipt arrived within the watch timeout.
    TimedOut,
    /// The chain's provider failed while watching.
    ProviderError,
}

/// The settled result of one transaction's confirmation watch.
#[derive(Clone, Copy, Debug, PartialEq, Eq, Structural)]
pub struct WatchReport {
    /// The chain the transaction was expected to land on.
    pub chain_id: u64,
    /// The transaction being watched.
    pub tx_hash: TxHash,
    /// How the watch settled.
    pub outcome: WatchOutcome,
}

impl View for WatchReport {
    type V = WatchReport;

    open spec fn view(&self) -> WatchReport {
        *self
    }
}

impl DeepView for WatchReport {
    type V = WatchReport;

    open spec fn deep_view(&self) -> WatchReport {
        *self
    }
}

/// The index of the first report that settled with `outcome`, or `-1`
/// if none did.
pub open spec fn first_index_with(reports: Seq<WatchReport>, outcome: WatchOutcome) -> int
    decreases reports.len(),
{
    if reports.len() == 0 {
        -1
    } else if reports.first().outcome == outcome {
        0
    } else {
        let r = first_index_with(reports.drop_first(), outcome);
        if r == -1 {
            -1
        } else {
            r + 1
        }
    }
}

/// What `first_index_with` finds: either no report settled with the
/// outcome, or the found index is the first that did.
pub proof fn lemma_first_index_with(reports: Seq<WatchReport>, outcome: WatchOutcome)
    ensures
        -1 <= first_index_with(reports, outcome) < reports.len(),
        first_index_with(reports, outcome) == -1 ==> (forall|k: int|
            0 <= k < reports.len() ==> (#[trigger] reports[k]).outcome != outcome),
        first_index_with(reports, outcome) >= 0 ==> {
            let i = first_index_with(reports, outcome);
            &&& reports[i].outcome == outcome
            &&& forall|k: int| 0 <= k < i ==> (#[trigger] reports[k]).outcome != outcome
        },
    decreases reports.len(),
{
    if reports.len() == 0 {
    } else if reports.first().outcome == outcome {
        assert(reports[0] == reports.first());
    } else {
        let rest = reports.drop_first();
        lemma_first_index_with(rest, outcome);
        let r = first_index_with(rest, outcome);
        if r == -1 {
            assert forall|k: int|
                0 <= k < reports.len() implies (#[trigger] reports[k]).outcome != outcome by {
                if k == 0 {
                    assert(reports[0] == reports.first());
                } else {
                    assert(reports[k] == rest[k - 1]);
                }
            }
        } else {
            assert(reports[r + 1] == rest[r]);
            assert forall|k: int|
                0 <= k < r + 1 implies (#[trigger] reports[k]).outcome != outcome by {
                if k == 0 {
                    assert(reports[0] == reports.first());
                } else {
                    assert(reports[k] == rest[k - 1]);
                }
            }
        }
    }
}

/// The aggregate verdict of a fill attempt: success only when every
/// watch confirmed; otherwise the first timeout, or, failing that, the
/// first provider failure.
pub open spec fn spec_confirmation_summary(reports: Seq<WatchReport>) -> Result<(), FillError> {
    let t = first_index_with(reports, WatchOutcome::TimedOut);
    let e = first_index_with(reports, WatchOutcome::ProviderError);
    if t >= 0 {
        Err(
            FillError::ConfirmationTimeout {
                chain_id: reports[t].chain_id,
                tx_hash: reports[t].tx_hash,
            },
        )
    } else if e >= 0 {
        Err(
            FillError::ConfirmationError {
                chain_id: reports[e].chain_id,
                tx_hash: reports[e].tx_hash,
            },
        )
    } else {
        Ok(())
    }
}

/// Finds the first report that settled with `outcome`.
fn find_outcome(reports: &Vec<WatchReport>, outcome: WatchOutcome) -> (r: Option<usize>)
    ensures
        match r {
            Some(i) => i == first_index_with(reports@, outcome),
            None => first_index_with(reports@, outcome) == -1,
        },
{
    let n: usize = reports.len();
    let mut i: usize = 0;
    while i < n
        invariant
            n == reports@.len(),
            0 <= i <= n,
            forall|k: int| 0 <= k < i ==> (#[trigger] reports@[k]).outcome != outcome,
        decreases n - i,
    {
        if reports[i].outcome == outcome {
            proof {
                lemma_first_index_with(reports@, outcome);
                let f = first_index_with(reports@, outcome);
                if f == -1 {
                    assert(reports@[i as int].outcome != outcome);
                } else {
                    if f < i {
                        assert(reports@[f].outcome != outcome);
                    }
                    if f > i {
                        assert(reports@[i as int].outcome != outcome);
                    }
                }
            }
            return Some(i);
        }
        i = i + 1;
    }
    proof {
        lemma_first_index_with(reports@, outcome);
        let f = first_index_with(reports@, outcome);
        if f >= 0 {
            assert(reports@[f].outcome == outcome);
        }
    }
    None
}

/// Judges the aggregate outcome of a fill attempt from every settled
/// watch report: success only when every watch confirmed, else the
/// first timeout, else the first provider failure.
pub fn summarize_confirmations(reports: &Vec<WatchReport>) -> (r: Result<(), FillError>)
    ensures
        r == spec_confirmation_summary(reports@),
        r is Ok <==> (forall|k: int|
            0 <= k < reports@.len() ==> (#[trigger] reports@[k]).outcome
                == WatchOutcome::Confirmed),
{
    proof {
        lemma_first_index_with(reports@, WatchOutcome::TimedOut);
        lemma_first_index_with(reports@, WatchOutcome::ProviderError);
    }
    let timeout = find_outcome(reports, WatchOutcome::TimedOut);
    match timeout {
        Some(i) => {
            let rep = reports[i];
            Err(FillError::ConfirmationTimeout { chain_id: rep.chain_id, tx_hash: rep.tx_hash })
        },
        None => {
            let provider_err = find_outcome(reports, WatchOutcome::ProviderError);
            match provider_err {
                Some(i) => {
                    let rep = reports[i];
                    Err(
                        FillError::ConfirmationError {
                            chain_id: rep.chain_id,
                            tx_hash: rep.tx_hash,
                        },
                    )
                },
                None => {
                    proof {
                        assert forall|k: int|
                            0 <= k < reports@.len() implies (#[trigger] reports@[k]).outcome
                            == WatchOutcome::Confirmed by {
                            assert(reports@[k].outcome != WatchOutcome::TimedOut);
                            assert(reports@[k].outcome != WatchOutcome::ProviderError);
                        }
                    }
                    Ok(())
                },
            }
        },
    }
}

} // verus!
