use orders::bundle::{build_bundle, build_bundles, DEFAULT_RESUBMISSION_BLOCKS};
use orders::codec::request_bytes;
use orders::confirm::{
    summarize_confirmations, WatchOutcome, WatchReport, CONFIRMATION_TIMEOUT_SECS,
};
use orders::encode::{
    decode_tx_wire, encode_tx_wire, sign_and_encode_txns, SignedTx, TxFields, TxSigner,
    DEFAULT_GAS_LIMIT, DEFAULT_MAX_PRIORITY_FEE_WEI,
};
use orders::errors::FillError;
use orders::fill::{FillPayload, SignedFill, TokenAmount};
use orders::sequence::TxRequest;
use orders::types::{Address, Input, Output, Permit, SignedOrder, TxHash};

fn addr(n: u128) -> Address {
    Address { hi: 0x17, lo: n }
}

fn fields() -> TxFields {
    TxFields {
        chain_id: 14174,
        to: addr(0x1111),
        value: 3,
        gas_limit: 21000,
        nonce: 9,
        max_priority_fee: 1_000_000_000,
        sender: addr(0x2222),
    }
}

fn sample_fill() -> SignedFill {
    SignedFill {
        payload: FillPayload {
            chain_id: 14174,
            contract: addr(0x1111),
            outputs: vec![TokenAmount { token: addr(0xF00D), amount: 42 }],
            deadline: 4040,
        },
        signature: vec![1, 2, 3],
    }
}

fn sample_order() -> SignedOrder {
    SignedOrder {
        inputs: vec![Input { token: addr(0xAAAA), amount: 50 }],
        outputs: vec![Output { token: addr(0xF00D), amount: 42, chain_id: 14174, recipient: addr(7) }],
        permit: Permit { owner: addr(0xBEEF), nonce: 5, deadline: 4040, signature: vec![9, 9] },
    }
}

struct TestTxSigner;

impl TxSigner for TestTxSigner {
    fn sign_tx(&self, fields: &TxFields, _input: &Vec<u8>) -> Result<Vec<u8>, ()> {
        Ok(vec![fields.nonce as u8, 0xEE, 0xFF])
    }
}

struct FailingTxSigner;

impl TxSigner for FailingTxSigner {
    fn sign_tx(&self, _fields: &TxFields, _input: &Vec<u8>) -> Result<Vec<u8>, ()> {
        Err(())
    }
}

#[test]
fn wire_round_trip_recovers_every_field() {
    let f = fields();
    let input = vec![0xDE, 0xAD, 0xBE, 0xEF];
    let sig = vec![0x01, 0x02];
    let wire = encode_tx_wire(f, &input, &sig);
    let (g, input2, sig2) = decode_tx_wire(&wire).unwrap();
    assert_eq!(g, f);
    assert_eq!(input2, input);
    assert_eq!(sig2, sig);
}

#[test]
fn wire_round_trip_with_empty_calldata_and_signature() {
    let f = fields();
    let wire = encode_tx_wire(f, &vec![], &vec![]);
    let (g, input2, sig2) = decode_tx_wire(&wire).unwrap();
    assert_eq!(g, f);
    assert!(input2.is_empty());
    assert!(sig2.is_empty());
}

#[test]
fn truncated_or_padded_wire_bytes_do_not_decode() {
    let f = fields();
    let wire = encode_tx_wire(f, &vec![1, 2, 3], &vec![4]);
    let mut short = wire.clone();
    short.pop();
    assert!(decode_tx_wire(&short).is_none());
    let mut long = wire.clone();
    long.push(0);
    assert!(decode_tx_wire(&long).is_none());
    assert!(decode_tx_wire(&vec![0u8; 50]).is_none());
}

#[test]
fn sealed_transaction_hash_is_the_keccak_of_its_wire_bytes() {
    let tx = SignedTx::seal(fields(), vec![0xAB, 0xCD], vec![0x55]);
    let expected = alloy::primitives::keccak256(tx.wire.as_slice());
    let hi = u128::from_be_bytes(expected.0[0..16].try_into().unwrap());
    let lo = u128::from_be_bytes(expected.0[16..32].try_into().unwrap());
    assert!(tx.hash == TxHash { hi, lo });
}

#[test]
fn sign_and_encode_applies_the_fee_policy_in_order() {
    let reqs = vec![
        TxRequest::Fill(sample_fill()),
        TxRequest::Initiate { order: sample_order(), filler: addr(0xF111), contract: addr(0x1111) },
    ];
    let txs = sign_and_encode_txns(&reqs, 14174, 100, addr(0xF111), &TestTxSigner).unwrap();
    assert_eq!(txs.len(), 2);
    for (i, tx) in txs.iter().enumerate() {
        assert_eq!(tx.fields.chain_id, 14174);
        assert_eq!(tx.fields.gas_limit, DEFAULT_GAS_LIMIT);
        assert_eq!(tx.fields.max_priority_fee, DEFAULT_MAX_PRIORITY_FEE_WEI);
        assert_eq!(tx.fields.value, 0);
        assert_eq!(tx.fields.nonce, 100 + i as u64);
        assert!(tx.fields.sender == addr(0xF111));
        assert_eq!(tx.input, request_bytes(&reqs[i]));
        assert_eq!(tx.wire, encode_tx_wire(tx.fields, &tx.input, &tx.signature));
    }
    assert!(txs[0].fields.to == addr(0x1111));
    assert_eq!(DEFAULT_MAX_PRIORITY_FEE_WEI, 16_000_000_000);
    assert_eq!(DEFAULT_GAS_LIMIT, 1_000_000);
}

#[test]
fn encoding_an_empty_batch_succeeds_without_the_signer() {
    // No requests means nothing for the capability to decide: the
    // empty batch is owed, even with a signer that rejects everything.
    let txs = sign_and_encode_txns(&vec![], 14174, 0, addr(1), &FailingTxSigner).unwrap();
    assert_eq!(txs.len(), 0);
}

#[test]
fn a_single_signing_failure_discards_the_whole_batch() {
    let reqs = vec![TxRequest::Fill(sample_fill())];
    let r = sign_and_encode_txns(&reqs, 14174, 0, addr(1), &FailingTxSigner);
    assert_eq!(r.unwrap_err(), FillError::EncodingFailed);
}

#[test]
fn bundles_target_one_block_each_with_no_extras() {
    let txs = vec![vec![1u8, 2], vec![3u8]];
    let host = vec![vec![9u8]];
    let b = build_bundle(&txs, &host, 777);
    assert_eq!(b.block_number, 777);
    assert_eq!(b.txs, txs);
    assert_eq!(b.host_txs, host);
    assert!(b.reverting_tx_hashes.is_empty());
    assert!(b.min_timestamp.is_none());
    assert!(b.max_timestamp.is_none());
    assert!(b.replacement_uuid.is_none());
}

#[test]
fn scenario_resubmission_targets_ten_consecutive_blocks() {
    // Resubmission with the default policy: ten structurally identical
    // bundles, targeting blocks N+1 through N+10, differing only in
    // their target block number.
    let n: u64 = 123456;
    let txs = vec![vec![1u8, 2], vec![3u8]];
    let host: Vec<Vec<u8>> = vec![];
    let bundles = build_bundles(&txs, &host, n, DEFAULT_RESUBMISSION_BLOCKS);
    assert_eq!(bundles.len(), 10);
    for (i, b) in bundles.iter().enumerate() {
        assert_eq!(b.block_number, n + 1 + i as u64);
        assert_eq!(b.txs, txs);
        assert_eq!(b.host_txs, host);
        assert!(b.reverting_tx_hashes.is_empty());
        assert!(b.min_timestamp.is_none());
        assert!(b.max_timestamp.is_none());
        assert!(b.replacement_uuid.is_none());
    }
}

#[test]
fn scenario_confirmation_timeout_names_the_late_transaction() {
    // One chain confirms, the other times out after the watch window:
    // the attempt reports the timeout with that chain and hash, and the
    // other watch's result stays available in the report list.
    assert_eq!(CONFIRMATION_TIMEOUT_SECS, 300);
    let reports = vec![
        WatchReport {
            chain_id: 14174,
            tx_hash: TxHash { hi: 1, lo: 1 },
            outcome: WatchOutcome::Confirmed,
        },
        WatchReport {
            chain_id: 3151908,
            tx_hash: TxHash { hi: 2, lo: 2 },
            outcome: WatchOutcome::TimedOut,
        },
    ];
    let r = summarize_confirmations(&reports);
    assert_eq!(
        r.unwrap_err(),
        FillError::ConfirmationTimeout { chain_id: 3151908, tx_hash: TxHash { hi: 2, lo: 2 } }
    );
    assert_eq!(reports[0].outcome, WatchOutcome::Confirmed);
}

#[test]
fn confirmation_succeeds_only_when_every_watch_confirmed() {
    let ok = vec![
        WatchReport { chain_id: 1, tx_hash: TxHash { hi: 0, lo: 1 }, outcome: WatchOutcome::Confirmed },
        WatchReport { chain_id: 2, tx_hash: TxHash { hi: 0, lo: 2 }, outcome: WatchOutcome::Confirmed },
    ];
    assert!(summarize_confirmations(&ok).is_ok());
    let empty: Vec<WatchReport> = vec![];
    assert!(summarize_confirmations(&empty).is_ok());
}

#[test]
fn provider_failure_is_reported_when_nothing_timed_out() {
    let reports = vec![
        WatchReport { chain_id: 1, tx_hash: TxHash { hi: 0, lo: 1 }, outcome: WatchOutcome::Confirmed },
        WatchReport { chain_id: 2, tx_hash: TxHash { hi: 0, lo: 2 }, outcome: WatchOutcome::ProviderError },
    ];
    assert_eq!(
        summarize_confirmations(&reports).unwrap_err(),
        FillError::ConfirmationError { chain_id: 2, tx_hash: TxHash { hi: 0, lo: 2 } }
    );
}

#[test]
fn the_first_timeout_wins_over_later_failures() {
    let reports = vec![
        WatchReport { chain_id: 5, tx_hash: TxHash { hi: 0, lo: 5 }, outcome: WatchOutcome::ProviderError },
        WatchReport { chain_id: 6, tx_hash: TxHash { hi: 0, lo: 6 }, outcome: WatchOutcome::TimedOut },
        WatchReport { chain_id: 7, tx_hash: TxHash { hi: 0, lo: 7 }, outcome: WatchOutcome::TimedOut },
    ];
    assert_eq!(
        summarize_confirmations(&reports).unwrap_err(),
        FillError::ConfirmationTimeout { chain_id: 6, tx_hash: TxHash { hi: 0, lo: 6 } }
    );
}

#[test]
fn confirmation_errors_carry_their_chain_and_hash_names() {
    let e = FillError::ConfirmationTimeout { chain_id: 1, tx_hash: TxHash { hi: 2, lo: 3 } };
    assert_eq!(e.name(), "confirmation timeout");
    let e = FillError::ConfirmationError { chain_id: 1, tx_hash: TxHash { hi: 2, lo: 3 } };
    assert_eq!(e.name(), "confirmation error");
}
