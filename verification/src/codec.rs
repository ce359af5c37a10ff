//! Canonical byte encodings of the engine's values: little-endian
//! fixed-width fields, length-prefixed variable fields, and
//! length-prefixed lists.
//!
//! Every encoder is pinned to a spec-level byte function, so callers can
//! reason about the exact bytes produced.

use vstd::prelude::*;
use vstd::bytes::{
    spec_u128_to_le_bytes, spec_u128_from_le_bytes, spec_u32_to_le_bytes, spec_u32_from_le_bytes,
    spec_u64_to_le_bytes, spec_u64_from_le_bytes, u128_to_le_bytes, u128_from_le_bytes,
    u32_to_le_bytes, u32_from_le_bytes, u64_to_le_bytes, u64_from_le_bytes,
    lemma_auto_spec_u128_to_from_le_bytes, lemma_auto_spec_u32_to_from_le_bytes,
    lemma_auto_spec_u64_to_from_le_bytes,
};
use crate::fill::{FillPayload, FillPayloadV, SignedFill, SignedFillV, TokenAmount};
use crate::sequence::{TxRequest, TxRequestV};
use crate::types::{Address, Input, Output, PermitV, SignedOrder, SignedOrderV};

verus! {

/// The 20 bytes of an address: high part, then low part.
pub open spec fn spec_addr_bytes(a: Address) -> Seq<u8> {
    spec_u32_to_le_bytes(a.hi) + spec_u128_to_le_bytes(a.lo)
}

/// The address read back from 20 bytes.
pub open spec fn spec_addr_from(s: Seq<u8>) -> Address {
    Address {
        hi: spec_u32_from_le_bytes(s.subrange(0, 4)),
        lo: spec_u128_from_le_bytes(s.subrange(4, 20)),
    }
}

/// Encoding then decoding an address is the identity.
pub proof fn lemma_addr_round_trip(a: Address)
    ensures
        spec_addr_bytes(a).len() == 20,
        spec_addr_from(spec_addr_bytes(a)) == a,
{
    lemma_auto_spec_u32_to_from_le_bytes();
    lemma_auto_spec_u128_to_from_le_bytes();
    assert(spec_addr_bytes(a).subrange(0, 4) =~= spec_u32_to_le_bytes(a.hi));
    assert(spec_addr_bytes(a).subrange(4, 20) =~= spec_u128_to_le_bytes(a.lo));
}

/// A length-prefixed byte field: the length as eight bytes, then the
/// bytes.
pub open spec fn spec_bytes_field(s: Seq<u8>) -> Seq<u8> {
    spec_u64_to_le_bytes(s.len() as u64) + s
}

/// The 36 bytes of one token amount.
pub open spec fn spec_token_amount_bytes(t: TokenAmount) -> Seq<u8> {
    spec_addr_bytes(t.token) + spec_u128_to_le_bytes(t.amount)
}

/// The concatenated items of a token amount list.
pub open spec fn spec_token_amount_items(ts: Seq<TokenAmount>) -> Seq<u8>
    decreases ts.len(),
{
    if ts.len() == 0 {
        Seq::empty()
    } else {
        spec_token_amount_items(ts.drop_last()) + spec_token_amount_bytes(ts.last())
    }
}

/// A length-prefixed token amount list.
pub open spec fn spec_token_amounts_bytes(ts: Seq<TokenAmount>) -> Seq<u8> {
    spec_u64_to_le_bytes(ts.len() as u64) + spec_token_amount_items(ts)
}

/// The 36 bytes of one order input.
pub open spec fn spec_input_bytes(x: Input) -> Seq<u8> {
    spec_addr_bytes(x.token) + spec_u128_to_le_bytes(x.amount)
}

/// The concatenated items of an input list.
pub open spec fn spec_input_items(xs: Seq<Input>) -> Seq<u8>
    decreases xs.len(),
{
    if xs.len() == 0 {
        Seq::empty()
    } else {
        spec_input_items(xs.drop_last()) + spec_input_bytes(xs.last())
    }
}

/// A length-prefixed input list.
pub open spec fn spec_inputs_bytes(xs: Seq<Input>) -> Seq<u8> {
    spec_u64_to_le_bytes(xs.len() as u64) + spec_input_items(xs)
}

/// The 64 bytes of one order output.
pub open spec fn spec_output_bytes(o: Output) -> Seq<u8> {
    spec_addr_bytes(o.token) + spec_u128_to_le_bytes(o.amount) + spec_u64_to_le_bytes(o.chain_id)
        + spec_addr_bytes(o.recipient)
}

/// The concatenated items of an output list.
pub open spec fn spec_output_items(os: Seq<Output>) -> Seq<u8>
    decreases os.len(),
{
    if os.len() == 0 {
        Seq::empty()
    } else {
        spec_output_items(os.drop_last()) + spec_output_bytes(os.last())
    }
}

/// A length-prefixed output list.
pub open spec fn spec_outputs_bytes(os: Seq<Output>) -> Seq<u8> {
    spec_u64_to_le_bytes(os.len() as u64) + spec_output_items(os)
}

/// The bytes of a permit: owner, nonce, deadline, signature.
pub open spec fn spec_permit_bytes(p: PermitV) -> Seq<u8> {
    spec_addr_bytes(p.owner) + spec_u128_to_le_bytes(p.nonce) + spec_u128_to_le_bytes(p.deadline)
        + spec_bytes_field(p.signature)
}

/// The bytes of a signed order: inputs, outputs, permit.
pub open spec fn spec_order_bytes(o: SignedOrderV) -> Seq<u8> {
    spec_inputs_bytes(o.inputs) + spec_outputs_bytes(o.outputs) + spec_permit_bytes(o.permit)
}

/// The signable bytes of a fill payload: chain, contract, deadline,
/// owed token amounts.
pub open spec fn spec_fill_payload_bytes(p: FillPayloadV) -> Seq<u8> {
    spec_u64_to_le_bytes(p.chain_id) + spec_addr_bytes(p.contract) + spec_u64_to_le_bytes(
        p.deadline,
    ) + spec_token_amounts_bytes(p.outputs)
}

/// The bytes of a signed fill: payload, then signature.
pub open spec fn spec_signed_fill_bytes(f: SignedFillV) -> Seq<u8> {
    spec_fill_payload_bytes(f.payload) + spec_bytes_field(f.signature)
}

/// The calldata bytes of a transaction request: a tag byte, then the
/// request's content.
pub open spec fn spec_request_bytes(r: TxRequestV) -> Seq<u8> {
    match r {
        TxRequestV::Fill(f) => seq![0u8] + spec_signed_fill_bytes(f),
        TxRequestV::Initiate { order, filler, contract } => seq![1u8] + spec_addr_bytes(filler)
            + spec_addr_bytes(contract) + spec_order_bytes(order),
    }
}

/// Appends the four little-endian bytes of `x`.
pub fn push_u32(out: &mut Vec<u8>, x: u32)
    ensures
        final(out)@ == old(out)@ + spec_u32_to_le_bytes(x),
{
    let mut b = u32_to_le_bytes(x);
    out.append(&mut b);
}

/// Appends the eight little-endian bytes of `x`.
pub fn push_u64(out: &mut Vec<u8>, x: u64)
    ensures
        final(out)@ == old(out)@ + spec_u64_to_le_bytes(x),
{
    let mut b = u64_to_le_bytes(x);
    out.append(&mut b);
}

/// Appends the sixteen little-endian bytes of `x`.
pub fn push_u128(out: &mut Vec<u8>, x: u128)
    ensures
        final(out)@ == old(out)@ + spec_u128_to_le_bytes(x),
{
    let mut b = u128_to_le_bytes(x);
    out.append(&mut b);
}

/// Appends the twenty bytes of an address.
pub fn push_addr(out: &mut Vec<u8>, a: Address)
    ensures
        final(out)@ == old(out)@ + spec_addr_bytes(a),
{
    push_u32(out, a.hi);
    push_u128(out, a.lo);
    proof {
        assert(final(out)@ =~= old(out)@ + spec_addr_bytes(a));
    }
}

/// Appends a length-prefixed byte field.
pub fn push_bytes_field(out: &mut Vec<u8>, s: &Vec<u8>)
    ensures
        final(out)@ == old(out)@ + spec_bytes_field(s@),
{
    push_u64(out, s.len() as u64);
    let mut copy = s.clone();
    proof {
        assert(copy@ =~= s@);
    }
    out.append(&mut copy);
    proof {
        assert(final(out)@ =~= old(out)@ + spec_bytes_field(s@));
    }
}

/// Appends a length-prefixed token amount list.
pub fn push_token_amounts(out: &mut Vec<u8>, ts: &Vec<TokenAmount>)
    ensures
        final(out)@ == old(out)@ + spec_token_amounts_bytes(ts@),
{
    push_u64(out, ts.len() as u64);
    let n: usize = ts.len();
    let mut i: usize = 0;
    while i < n
        invariant
            n == ts@.len(),
            0 <= i <= n,
            out@ == old(out)@ + spec_u64_to_le_bytes(ts@.len() as u64) + spec_token_amount_items(
                ts@.take(i as int),
            ),
        decreases n - i,
    {
        let t = ts[i];
        push_addr(out, t.token);
        push_u128(out, t.amount);
        proof {
            assert(ts@.take(i + 1 as int).drop_last() =~= ts@.take(i as int));
            assert(ts@.take(i + 1 as int).last() == ts@[i as int]);
            assert(out@ =~= old(out)@ + spec_u64_to_le_bytes(ts@.len() as u64)
                + spec_token_amount_items(ts@.take(i + 1 as int)));
        }
        i = i + 1;
    }
    proof {
        assert(ts@.take(n as int) =~= ts@);
        assert(out@ =~= old(out)@ + spec_token_amounts_bytes(ts@));
    }
}

/// Appends a length-prefixed input list.
pub fn push_inputs(out: &mut Vec<u8>, xs: &Vec<Input>)
    ensures
        final(out)@ == old(out)@ + spec_inputs_bytes(xs@),
{
    push_u64(out, xs.len() as u64);
    let n: usize = xs.len();
    let mut i: usize = 0;
    while i < n
        invariant
            n == xs@.len(),
            0 <= i <= n,
            out@ == old(out)@ + spec_u64_to_le_bytes(xs@.len() as u64) + spec_input_items(
                xs@.take(i as int),
            ),
        decreases n - i,
    {
        let x = xs[i];
        push_addr(out, x.token);
        push_u128(out, x.amount);
        proof {
            assert(xs@.take(i + 1 as int).drop_last() =~= xs@.take(i as int));
            assert(xs@.take(i + 1 as int).last() == xs@[i as int]);
            assert(out@ =~= old(out)@ + spec_u64_to_le_bytes(xs@.len() as u64) + spec_input_items(
                xs@.take(i + 1 as int),
            ));
        }
        i = i + 1;
    }
    proof {
        assert(xs@.take(n as int) =~= xs@);
        assert(out@ =~= old(out)@ + spec_inputs_bytes(xs@));
    }
}

/// Appends a length-prefixed output list.
pub fn push_outputs(out: &mut Vec<u8>, os: &Vec<Output>)
    ensures
        final(out)@ == old(out)@ + spec_outputs_bytes(os@),
{
    push_u64(out, os.len() as u64);
    let n: usize = os.len();
    let mut i: usize = 0;
    while i < n
        invariant
            n == os@.len(),
            0 <= i <= n,
            out@ == old(out)@ + spec_u64_to_le_bytes(os@.len() as u64) + spec_output_items(
                os@.take(i as int),
            ),
        decreases n - i,
    {
        let o = os[i];
        push_addr(out, o.token);
        push_u128(out, o.amount);
        push_u64(out, o.chain_id);
        push_addr(out, o.recipient);
        proof {
            assert(os@.take(i + 1 as int).drop_last() =~= os@.take(i as int));
            assert(os@.take(i + 1 as int).last() == os@[i as int]);
            assert(out@ =~= old(out)@ + spec_u64_to_le_bytes(os@.len() as u64) + spec_output_items(
                os@.take(i + 1 as int),
            ));
        }
        i = i + 1;
    }
    proof {
        assert(os@.take(n as int) =~= os@);
        assert(out@ =~= old(out)@ + spec_outputs_bytes(os@));
    }
}

/// Encodes the signable bytes of one fill payload.
pub fn fill_payload_bytes(p: &FillPayload) -> (r: Vec<u8>)
    ensures
        r@ == spec_fill_payload_bytes(p@),
{
    let mut out: Vec<u8> = Vec::new();
    push_u64(&mut out, p.chain_id);
    push_addr(&mut out, p.contract);
    push_u64(&mut out, p.deadline);
    push_token_amounts(&mut out, &p.outputs);
    proof {
        assert(out@ =~= spec_fill_payload_bytes(p@));
    }
    out
}

/// Encodes one signed fill.
pub fn signed_fill_bytes(f: &SignedFill) -> (r: Vec<u8>)
    ensures
        r@ == spec_signed_fill_bytes(f@),
{
    let mut out = fill_payload_bytes(&f.payload);
    push_bytes_field(&mut out, &f.signature);
    proof {
        assert(out@ =~= spec_signed_fill_bytes(f@));
    }
    out
}

/// Encodes one signed order.
pub fn order_bytes(o: &SignedOrder) -> (r: Vec<u8>)
    ensures
        r@ == spec_order_bytes(o@),
{
    let mut out: Vec<u8> = Vec::new();
    push_inputs(&mut out, &o.inputs);
    push_outputs(&mut out, &o.outputs);
    push_addr(&mut out, o.permit.owner);
    push_u128(&mut out, o.permit.nonce);
    push_u128(&mut out, o.permit.deadline);
    push_bytes_field(&mut out, &o.permit.signature);
    proof {
        assert(out@ =~= spec_order_bytes(o@));
    }
    out
}

/// Encodes the calldata bytes of one transaction request.
pub fn request_bytes(r: &TxRequest) -> (out: Vec<u8>)
    ensures
        out@ == spec_request_bytes(r@),
{
    let mut out: Vec<u8> = Vec::new();
    match r {
        TxRequest::Fill(f) => {
            out.push(0u8);
            let mut body = signed_fill_bytes(f);
            out.append(&mut body);
            proof {
                assert(out@ =~= spec_request_bytes(r@));
            }
        },
        TxRequest::Initiate { order, filler, contract } => {
            out.push(1u8);
            push_addr(&mut out, *filler);
            push_addr(&mut out, *contract);
            let mut body = order_bytes(order);
            out.append(&mut body);
            proof {
                assert(out@ =~= spec_request_bytes(r@));
            }
        },
    }
    out
}

/// Copies `n` bytes starting at `off`.
pub fn copy_range(bytes: &Vec<u8>, off: usize, n: usize) -> (r: Vec<u8>)
    requires
        off + n <= bytes@.len(),
    ensures
        r@ == bytes@.subrange(off as int, off + n),
{
    let blen: usize = bytes.len();
    let mut r: Vec<u8> = Vec::new();
    let mut k: usize = 0;
    while k < n
        invariant
            blen == bytes@.len(),
            off + n <= blen,
            0 <= k <= n,
            r@ == bytes@.subrange(off as int, off + k),
        decreases n - k,
    {
        r.push(bytes[off + k]);
        proof {
            assert(r@ =~= bytes@.subrange(off as int, off + k + 1));
        }
        k = k + 1;
    }
    r
}

/// Reads a little-endian u32 at `off`.
pub fn read_u32(bytes: &Vec<u8>, off: usize) -> (r: u32)
    requires
        off + 4 <= bytes@.len(),
    ensures
        r == spec_u32_from_le_bytes(bytes@.subrange(off as int, off + 4)),
{
    let tmp = copy_range(bytes, off, 4);
    u32_from_le_bytes(tmp.as_slice())
}

/// Reads a little-endian u64 at `off`.
pub fn read_u64(bytes: &Vec<u8>, off: usize) -> (r: u64)
    requires
        off + 8 <= bytes@.len(),
    ensures
        r == spec_u64_from_le_bytes(bytes@.subrange(off as int, off + 8)),
{
    let tmp = copy_range(bytes, off, 8);
    u64_from_le_bytes(tmp.as_slice())
}

/// Reads a little-endian u128 at `off`.
pub fn read_u128(bytes: &Vec<u8>, off: usize) -> (r: u128)
    requires
        off + 16 <= bytes@.len(),
    ensures
        r == spec_u128_from_le_bytes(bytes@.subrange(off as int, off + 16)),
{
    let tmp = copy_range(bytes, off, 16);
    u128_from_le_bytes(tmp.as_slice())
}

/// Reads a twenty-byte address at `off`.
pub fn read_addr(bytes: &Vec<u8>, off: usize) -> (r: Address)
    requires
        off + 20 <= bytes@.len(),
    ensures
        r == spec_addr_from(bytes@.subrange(off as int, off + 20)),
{
    let blen: usize = bytes.len();
    assert(off + 20 <= blen);
    let hi = read_u32(bytes, off);
    let lo = read_u128(bytes, off + 4);
    proof {
        let s = bytes@.subrange(off as int, off + 20);
        assert(bytes@.subrange(off as int, off + 4) =~= s.subrange(0, 4));
        assert(bytes@.subrange(off + 4, off + 20) =~= s.subrange(4, 20));
    }
    Address { hi, lo }
}

} // verus!
