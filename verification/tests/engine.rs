use orders::aggregate::{aggregate, output_sums_fit};
use orders::config::{ChainConfig, SystemConfig};
use orders::errors::FillError;
use orders::fill::{fill_payloads, sign_fills, FillPayload, Signer};
use orders::pipeline::{extract_deadline, min_deadline, plan_fill, retain_matching};
use orders::sequence::{host_txn_requests, rollup_txn_requests, TxRequest};
use orders::types::{Address, Input, Output, Permit, SignedOrder};

const RU_CHAIN: u64 = 14174;
const HOST_CHAIN: u64 = 3151908;

fn addr(n: u128) -> Address {
    Address { hi: 0, lo: n }
}

fn test_config() -> SystemConfig {
    SystemConfig {
        rollup: ChainConfig { chain_id: RU_CHAIN, orders_contract: addr(0x1111) },
        host: ChainConfig { chain_id: HOST_CHAIN, orders_contract: addr(0x2222) },
    }
}

fn order(outputs: Vec<Output>, nonce: u128, deadline: u128) -> SignedOrder {
    SignedOrder {
        inputs: vec![Input { token: addr(0xAAAA), amount: 50 }],
        outputs,
        permit: Permit {
            owner: addr(0xBEEF),
            nonce,
            deadline,
            signature: vec![nonce as u8, 0x77],
        },
    }
}

fn out(token: Address, amount: u128, chain_id: u64) -> Output {
    Output { token, amount, chain_id, recipient: addr(0xCAFE) }
}

struct TestSigner;

impl Signer for TestSigner {
    fn sign(&self, payload: &FillPayload) -> Result<Vec<u8>, ()> {
        Ok(vec![payload.chain_id as u8, 0x5A])
    }
}

struct FailingSigner;

impl Signer for FailingSigner {
    fn sign(&self, _payload: &FillPayload) -> Result<Vec<u8>, ()> {
        Err(())
    }
}

#[test]
fn aggregator_sums_amounts_per_chain_and_token() {
    let weth = addr(0xF00D);
    let usdc = addr(0xFEED);
    let orders = vec![
        order(vec![out(weth, 100, RU_CHAIN), out(usdc, 7, HOST_CHAIN)], 1, 1000),
        order(vec![out(weth, 250, RU_CHAIN)], 2, 1000),
        order(vec![out(weth, 5, HOST_CHAIN)], 3, 1000),
    ];
    let ob = aggregate(&orders).unwrap();
    assert_eq!(ob.entries.len(), 3);
    // first occurrence order: (RU, weth), (HOST, usdc), (HOST, weth)
    assert_eq!(ob.entries[0].chain_id, RU_CHAIN);
    assert!(ob.entries[0].token == weth);
    assert_eq!(ob.entries[0].amount, 350);
    assert_eq!(ob.entries[1].chain_id, HOST_CHAIN);
    assert!(ob.entries[1].token == usdc);
    assert_eq!(ob.entries[1].amount, 7);
    assert_eq!(ob.entries[2].chain_id, HOST_CHAIN);
    assert!(ob.entries[2].token == weth);
    assert_eq!(ob.entries[2].amount, 5);
}

#[test]
fn obligation_lookup_reads_the_netted_amounts() {
    let weth = addr(0xF00D);
    let orders = vec![
        order(vec![out(weth, 100, RU_CHAIN)], 1, 1000),
        order(vec![out(weth, 250, RU_CHAIN)], 2, 1000),
    ];
    let ob = aggregate(&orders).unwrap();
    assert_eq!(ob.amount_for(RU_CHAIN, weth), Some(350));
    assert_eq!(ob.amount_for(HOST_CHAIN, weth), None);
    assert_eq!(ob.amount_for(RU_CHAIN, addr(0x404)), None);
}

#[test]
fn earliest_deadline_governs_cancellation() {
    let orders = vec![
        order(vec![out(addr(1), 1, RU_CHAIN)], 1, 5555),
        order(vec![out(addr(1), 1, RU_CHAIN)], 2, 404),
        order(vec![out(addr(1), 1, RU_CHAIN)], 3, 9999),
    ];
    assert_eq!(min_deadline(&orders), Some(404));
    let empty: Vec<SignedOrder> = vec![];
    assert_eq!(min_deadline(&empty), None);
}

#[test]
fn aggregator_rejects_empty_order_set() {
    let orders: Vec<SignedOrder> = vec![];
    let r = aggregate(&orders);
    assert_eq!(r.unwrap_err(), FillError::EmptyOrderSet);
}

#[test]
fn aggregator_keeps_tokens_apart() {
    let t1 = addr(1);
    let t2 = addr(2);
    let orders = vec![order(vec![out(t1, 10, RU_CHAIN), out(t2, 20, RU_CHAIN)], 1, 9)];
    let ob = aggregate(&orders).unwrap();
    assert_eq!(ob.entries.len(), 2);
    assert_eq!(ob.entries[0].amount, 10);
    assert_eq!(ob.entries[1].amount, 20);
}

#[test]
fn fill_payloads_resolve_configured_contracts() {
    let cfg = test_config();
    let orders = vec![order(vec![out(addr(1), 10, RU_CHAIN), out(addr(1), 4, HOST_CHAIN)], 1, 77)];
    let ob = aggregate(&orders).unwrap();
    let ps = fill_payloads(&ob, 77, &cfg).unwrap();
    assert_eq!(ps.len(), 2);
    assert_eq!(ps[0].chain_id, RU_CHAIN);
    assert!(ps[0].contract == cfg.rollup.orders_contract);
    assert_eq!(ps[0].deadline, 77);
    assert_eq!(ps[0].outputs.len(), 1);
    assert_eq!(ps[0].outputs[0].amount, 10);
    assert_eq!(ps[1].chain_id, HOST_CHAIN);
    assert!(ps[1].contract == cfg.host.orders_contract);
    assert_eq!(ps[1].outputs[0].amount, 4);
}

#[test]
fn fill_payloads_reject_unconfigured_chain() {
    let cfg = test_config();
    let stray: u64 = 4242;
    let orders = vec![order(vec![out(addr(1), 10, stray)], 1, 77)];
    let ob = aggregate(&orders).unwrap();
    let r = fill_payloads(&ob, 77, &cfg);
    assert_eq!(r.unwrap_err(), FillError::UnknownChain(stray));
}

#[test]
fn sign_fills_covers_every_chain_once() {
    let cfg = test_config();
    let orders = vec![order(vec![out(addr(1), 10, RU_CHAIN), out(addr(2), 4, HOST_CHAIN)], 1, 77)];
    let ob = aggregate(&orders).unwrap();
    let ps = fill_payloads(&ob, 77, &cfg).unwrap();
    let fills = sign_fills(&ps, &TestSigner).unwrap();
    assert_eq!(fills.fills.len(), 2);
    assert_eq!(fills.fills[0].payload.chain_id, RU_CHAIN);
    assert_eq!(fills.fills[1].payload.chain_id, HOST_CHAIN);
    assert_eq!(fills.fills[0].signature, vec![RU_CHAIN as u8, 0x5A]);
}

#[test]
fn signing_no_payloads_succeeds_without_the_signer() {
    // No payloads means nothing for the capability to decide: success
    // is owed, even with a signer that rejects everything.
    let fills = sign_fills(&vec![], &FailingSigner).unwrap();
    assert_eq!(fills.fills.len(), 0);
}

#[test]
fn sum_fit_check_accepts_exactly_what_the_aggregator_admits() {
    let t = addr(0xF00D);
    let fine = vec![
        order(vec![out(t, u128::MAX, RU_CHAIN)], 1, 9),
        order(vec![out(addr(0xFEED), 1, RU_CHAIN)], 2, 9),
    ];
    // distinct pairs never sum together, so each may fill its type
    assert!(output_sums_fit(&fine));
    let overflowing = vec![
        order(vec![out(t, u128::MAX, RU_CHAIN)], 1, 9),
        order(vec![out(t, 1, RU_CHAIN)], 2, 9),
    ];
    assert!(!output_sums_fit(&overflowing));
    let empty: Vec<SignedOrder> = vec![];
    assert!(output_sums_fit(&empty));
}

#[test]
fn sign_fills_surfaces_signer_failure() {
    let cfg = test_config();
    let orders = vec![order(vec![out(addr(1), 10, RU_CHAIN)], 1, 77)];
    let ob = aggregate(&orders).unwrap();
    let ps = fill_payloads(&ob, 77, &cfg).unwrap();
    let r = sign_fills(&ps, &FailingSigner);
    assert_eq!(r.unwrap_err(), FillError::SigningFailed);
}

#[test]
fn scenario_one_order_rollup_only_fill() {
    // One order, rollup-only fill: rollup list is [fill, initiate], host
    // list is empty.
    let cfg = test_config();
    let filler = addr(0xF111);
    let orders = vec![order(vec![out(addr(1), 10, RU_CHAIN)], 1, 77)];
    let plan = plan_fill(&orders, &cfg, filler, &TestSigner).unwrap();
    assert_eq!(plan.ru_requests.len(), 2);
    match &plan.ru_requests[0] {
        TxRequest::Fill(f) => {
            assert_eq!(f.payload.chain_id, RU_CHAIN);
            assert!(f.payload.contract == cfg.rollup.orders_contract);
        },
        _ => panic!("expected the rollup fill first"),
    }
    match &plan.ru_requests[1] {
        TxRequest::Initiate { order, filler: fl, contract } => {
            assert_eq!(order.permit.nonce, 1);
            assert!(*fl == filler);
            assert!(*contract == cfg.rollup.orders_contract);
        },
        _ => panic!("expected the initiate after the fill"),
    }
    assert_eq!(plan.host_requests.len(), 0);
}

#[test]
fn scenario_two_orders_host_only_fill() {
    // Two orders routed to the host chain: rollup list is the two
    // initiates in input order, host list is the single host fill.
    let cfg = test_config();
    let filler = addr(0xF111);
    let orders = vec![
        order(vec![out(addr(1), 10, HOST_CHAIN)], 1, 77),
        order(vec![out(addr(1), 20, HOST_CHAIN)], 2, 77),
    ];
    let plan = plan_fill(&orders, &cfg, filler, &TestSigner).unwrap();
    assert_eq!(plan.ru_requests.len(), 2);
    match &plan.ru_requests[0] {
        TxRequest::Initiate { order, .. } => assert_eq!(order.permit.nonce, 1),
        _ => panic!("expected an initiate first when no rollup fill exists"),
    }
    match &plan.ru_requests[1] {
        TxRequest::Initiate { order, .. } => assert_eq!(order.permit.nonce, 2),
        _ => panic!("expected the second initiate"),
    }
    assert_eq!(plan.host_requests.len(), 1);
    match &plan.host_requests[0] {
        TxRequest::Fill(f) => {
            assert_eq!(f.payload.chain_id, HOST_CHAIN);
            assert!(f.payload.contract == cfg.host.orders_contract);
        },
        _ => panic!("expected the host fill"),
    }
}

#[test]
fn scenario_zero_orders_fails_before_any_work() {
    let cfg = test_config();
    let orders: Vec<SignedOrder> = vec![];
    let r = plan_fill(&orders, &cfg, addr(0xF111), &TestSigner);
    assert_eq!(r.unwrap_err(), FillError::EmptyOrderSet);
}

#[test]
fn rollup_requests_preserve_input_order() {
    let cfg = test_config();
    let filler = addr(0xF111);
    let orders = vec![
        order(vec![out(addr(1), 1, RU_CHAIN)], 10, 77),
        order(vec![out(addr(1), 2, RU_CHAIN)], 11, 77),
        order(vec![out(addr(1), 3, RU_CHAIN)], 12, 77),
    ];
    let ob = aggregate(&orders).unwrap();
    let ps = fill_payloads(&ob, 77, &cfg).unwrap();
    let fills = sign_fills(&ps, &TestSigner).unwrap();
    let ru = rollup_txn_requests(&fills, &orders, filler, &cfg);
    assert_eq!(ru.len(), 4);
    for (k, req) in ru.iter().enumerate().skip(1) {
        match req {
            TxRequest::Initiate { order, .. } => {
                assert_eq!(order.permit.nonce, 9 + k as u128);
            },
            _ => panic!("initiates must follow the fill"),
        }
    }
    let host = host_txn_requests(&fills, &cfg);
    assert_eq!(host.len(), 0);
}

#[test]
fn deadline_comes_from_the_lead_order() {
    let orders = vec![
        order(vec![out(addr(1), 1, RU_CHAIN)], 1, 5555),
        order(vec![out(addr(1), 1, RU_CHAIN)], 2, 9999),
    ];
    assert_eq!(extract_deadline(&orders).unwrap(), 5555);
}

#[test]
fn oversized_lead_deadline_is_invalid() {
    let orders = vec![order(vec![out(addr(1), 1, RU_CHAIN)], 1, u64::MAX as u128 + 1)];
    assert_eq!(extract_deadline(&orders).unwrap_err(), FillError::InvalidDeadline);
    let cfg = test_config();
    let r = plan_fill(&orders, &cfg, addr(2), &TestSigner);
    assert_eq!(r.unwrap_err(), FillError::InvalidDeadline);
}

#[test]
fn planning_fails_when_signer_rejects() {
    let cfg = test_config();
    let orders = vec![order(vec![out(addr(1), 1, RU_CHAIN)], 1, 77)];
    let r = plan_fill(&orders, &cfg, addr(2), &FailingSigner);
    assert_eq!(r.unwrap_err(), FillError::SigningFailed);
}

#[test]
fn planning_is_deterministic() {
    // Same order set, same deadline: both runs decide the same net
    // amounts and the same signable payloads.
    let cfg = test_config();
    let orders = vec![
        order(vec![out(addr(1), 10, RU_CHAIN), out(addr(2), 4, HOST_CHAIN)], 1, 77),
        order(vec![out(addr(1), 5, RU_CHAIN)], 2, 77),
    ];
    let first = plan_fill(&orders, &cfg, addr(2), &TestSigner).unwrap();
    let second = plan_fill(&orders, &cfg, addr(2), &TestSigner).unwrap();
    assert_eq!(first.deadline, second.deadline);
    assert_eq!(first.obligation.entries.len(), second.obligation.entries.len());
    for (a, b) in first.obligation.entries.iter().zip(second.obligation.entries.iter()) {
        assert_eq!(a, b);
    }
    assert_eq!(first.fills.fills.len(), second.fills.fills.len());
    for (a, b) in first.fills.fills.iter().zip(second.fills.fills.iter()) {
        assert_eq!(a.payload.chain_id, b.payload.chain_id);
        assert!(a.payload.contract == b.payload.contract);
        assert_eq!(a.payload.deadline, b.payload.deadline);
        assert_eq!(a.payload.outputs.len(), b.payload.outputs.len());
        for (x, y) in a.payload.outputs.iter().zip(b.payload.outputs.iter()) {
            assert_eq!(x, y);
        }
    }
}

#[test]
fn retain_matching_keeps_only_the_target_order() {
    let target = order(vec![out(addr(1), 10, RU_CHAIN)], 7, 77);
    let fetched = vec![
        order(vec![out(addr(1), 10, RU_CHAIN)], 6, 77),
        order(vec![out(addr(1), 10, RU_CHAIN)], 7, 77),
        order(vec![out(addr(1), 11, RU_CHAIN)], 7, 77),
        order(vec![out(addr(1), 10, RU_CHAIN)], 7, 77),
    ];
    let kept = retain_matching(&fetched, &target);
    assert_eq!(kept.len(), 2);
    assert!(kept[0].matches(&target));
    assert!(kept[1].matches(&target));
}

#[test]
fn order_identity_is_byte_identical_signed_content() {
    let a = order(vec![out(addr(1), 10, RU_CHAIN)], 7, 77);
    let mut b = order(vec![out(addr(1), 10, RU_CHAIN)], 7, 77);
    assert!(a.matches(&b));
    b.permit.signature = vec![0xFF];
    assert!(!a.matches(&b));
}

#[test]
fn error_kinds_have_stable_names() {
    assert_eq!(FillError::EmptyOrderSet.name(), "empty order set");
    assert_eq!(FillError::UnknownChain(5).name(), "unknown chain");
    assert_eq!(FillError::InvalidDeadline.name(), "invalid deadline");
    assert_eq!(FillError::SigningFailed.name(), "signing failed");
    assert_eq!(FillError::EncodingFailed.name(), "encoding failed");
    assert_eq!(FillError::RelayRejected.name(), "relay rejected");
}
