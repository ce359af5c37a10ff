//! The transaction encoder: resolves the fee policy fields of each
//! transaction request, signs it through an injected transaction-signing
//! capability, serializes it to its canonical wire encoding, and derives
//! its hash from the wire bytes.
//!
//! The whole batch fails atomically: a single signing failure discards
//! every transaction, since a gap would break the sequencing invariant.

use vstd::prelude::*;
use vstd::bytes::{
    spec_u128_from_le_bytes, spec_u128_to_le_bytes, spec_u64_from_le_bytes, spec_u64_to_le_bytes,
    lemma_auto_spec_u128_to_from_le_bytes, lemma_auto_spec_u64_to_from_le_bytes,
};
use crate::codec::{
    copy_range, lemma_addr_round_trip, push_addr, push_u128, push_u64, read_addr, read_u128,
    read_u64, request_bytes, spec_addr_bytes, spec_addr_from, spec_request_bytes,
};
use crate::errors::FillError;
use crate::sequence::{TxRequest, TxRequestV};
use crate::types::{Address, TxHash};

verus! {

/// The deterministic gas limit given to every engine transaction.
pub const DEFAULT_GAS_LIMIT: u64 = 1_000_000;

/// One gwei, in wei.
pub const GWEI_TO_WEI: u128 = 1_000_000_000;

/// The policy multiplier, in gwei, for the priority fee of every engine
/// transaction.
pub const DEFAULT_PRIORITY_FEE_MULTIPLIER: u128 = 16;

/// The priority fee, in wei, given to every engine transaction.
pub const DEFAULT_MAX_PRIORITY_FEE_WEI: u128 = GWEI_TO_WEI * DEFAULT_PRIORITY_FEE_MULTIPLIER;

/// The resolved fields of one transaction: everything the wire encoding
/// carries besides the calldata and the signature.
#[derive(Clone, Copy, Debug, PartialEq, Eq, Structural)]
pub struct TxFields {
    /// The chain the transaction is scoped to.
    pub chain_id: u64,
    /// The contract the transaction calls.
    pub to: Address,
    /// The native value carried.
    pub value: u128,
    /// The gas limit.
    pub gas_limit: u64,
    /// The sender's transaction nonce.
    pub nonce: u64,
    /// The priority fee, in wei.
    pub max_priority_fee: u128,
    /// The sending (filler) address.
    pub sender: Address,
}

impl View for TxFields {
    type V = TxFields;

    open spec fn view(&self) -> TxFields {
        *self
    }
}

impl DeepView for TxFields {
    type V = TxFields;

    open spec fn deep_view(&self) -> TxFields {
        *self
    }
}

/// The 96 header bytes of the wire encoding.
pub open spec fn spec_tx_header_bytes(f: TxFields) -> Seq<u8> {
    spec_u64_to_le_bytes(f.chain_id) + spec_addr_bytes(f.to) + spec_u128_to_le_bytes(f.value)
        + spec_u64_to_le_bytes(f.gas_limit) + spec_u64_to_le_bytes(f.nonce)
        + spec_u128_to_le_bytes(f.max_priority_fee) + spec_addr_bytes(f.sender)
}

/// The canonical wire encoding of one transaction: the header, the
/// length-prefixed calldata, and the length-prefixed signature.
pub open spec fn spec_tx_wire(f: TxFields, input: Seq<u8>, sig: Seq<u8>) -> Seq<u8> {
    spec_tx_header_bytes(f) + spec_u64_to_le_bytes(input.len() as u64) + input
        + spec_u64_to_le_bytes(sig.len() as u64) + sig
}

/// The decoding of a wire byte string: the fields, calldata and
/// signature it carries, or nothing when the bytes are not a wire
/// encoding.
pub open spec fn spec_decode_tx(bytes: Seq<u8>) -> Option<(TxFields, Seq<u8>, Seq<u8>)> {
    if bytes.len() < 112 {
        None
    } else {
        let f = TxFields {
            chain_id: spec_u64_from_le_bytes(bytes.subrange(0, 8)),
            to: spec_addr_from(bytes.subrange(8, 28)),
            value: spec_u128_from_le_bytes(bytes.subrange(28, 44)),
            gas_limit: spec_u64_from_le_bytes(bytes.subrange(44, 52)),
            nonce: spec_u64_from_le_bytes(bytes.subrange(52, 60)),
            max_priority_fee: spec_u128_from_le_bytes(bytes.subrange(60, 76)),
            sender: spec_addr_from(bytes.subrange(76, 96)),
        };
        let ilen = spec_u64_from_le_bytes(bytes.subrange(96, 104)) as int;
        if 112 + ilen > bytes.len() {
            None
        } else {
            let slen = spec_u64_from_le_bytes(bytes.subrange(104 + ilen, 112 + ilen)) as int;
            if bytes.len() != 112 + ilen + slen {
                None
            } else {
                Some(
                    (
                        f,
                        bytes.subrange(104, 104 + ilen),
                        bytes.subrange(112 + ilen, 112 + ilen + slen),
                    ),
                )
            }
        }
    }
}

/// The round trip law of the wire encoding: decoding an encoding
/// recovers the transaction fields, the calldata and the signature
/// exactly.
pub proof fn lemma_tx_wire_round_trip(f: TxFields, input: Seq<u8>, sig: Seq<u8>)
    requires
        input.len() <= u64::MAX,
        sig.len() <= u64::MAX,
    ensures
        spec_decode_tx(spec_tx_wire(f, input, sig)) == Some((f, input, sig)),
{
    lemma_auto_spec_u64_to_from_le_bytes();
    lemma_auto_spec_u128_to_from_le_bytes();
    lemma_addr_round_trip(f.to);
    lemma_addr_round_trip(f.sender);
    let w = spec_tx_wire(f, input, sig);
    let ilen = input.len() as int;
    let slen = sig.len() as int;
    assert(w.len() == 112 + ilen + slen);
    assert(w.subrange(0, 8) =~= spec_u64_to_le_bytes(f.chain_id));
    assert(w.subrange(8, 28) =~= spec_addr_bytes(f.to));
    assert(w.subrange(28, 44) =~= spec_u128_to_le_bytes(f.value));
    assert(w.subrange(44, 52) =~= spec_u64_to_le_bytes(f.gas_limit));
    assert(w.subrange(52, 60) =~= spec_u64_to_le_bytes(f.nonce));
    assert(w.subrange(60, 76) =~= spec_u128_to_le_bytes(f.max_priority_fee));
    assert(w.subrange(76, 96) =~= spec_addr_bytes(f.sender));
    assert(w.subrange(96, 104) =~= spec_u64_to_le_bytes(input.len() as u64));
    assert(w.subrange(104, 104 + ilen) =~= input);
    assert(w.subrange(104 + ilen, 112 + ilen) =~= spec_u64_to_le_bytes(sig.len() as u64));
    assert(w.subrange(112 + ilen, 112 + ilen + slen) =~= sig);
}

/// Encodes one transaction to its canonical wire bytes.
pub fn encode_tx_wire(f: TxFields, input: &Vec<u8>, sig: &Vec<u8>) -> (r: Vec<u8>)
    ensures
        r@ == spec_tx_wire(f, input@, sig@),
{
    let mut out: Vec<u8> = Vec::new();
    push_u64(&mut out, f.chain_id);
    push_addr(&mut out, f.to);
    push_u128(&mut out, f.value);
    push_u64(&mut out, f.gas_limit);
    push_u64(&mut out, f.nonce);
    push_u128(&mut out, f.max_priority_fee);
    push_addr(&mut out, f.sender);
    push_u64(&mut out, input.len() as u64);
    let mut icopy = input.clone();
    proof {
        assert(icopy@ =~= input@);
    }
    out.append(&mut icopy);
    push_u64(&mut out, sig.len() as u64);
    let mut scopy = sig.clone();
    proof {
        assert(scopy@ =~= sig@);
    }
    out.append(&mut scopy);
    proof {
        assert(out@ =~= spec_tx_wire(f, input@, sig@));
    }
    out
}

/// Decodes a wire byte string back into its transaction fields,
/// calldata and signature.
pub fn decode_tx_wire(bytes: &Vec<u8>) -> (r: Option<(TxFields, Vec<u8>, Vec<u8>)>)
    ensures
        match r {
            Some(t) => spec_decode_tx(bytes@) == Some((t.0, t.1@, t.2@)),
            None => spec_decode_tx(bytes@) is None,
        },
{
    let blen: usize = bytes.len();
    if blen < 112 {
        return None;
    }
    let f = TxFields {
        chain_id: read_u64(bytes, 0),
        to: read_addr(bytes, 8),
        value: read_u128(bytes, 28),
        gas_limit: read_u64(bytes, 44),
        nonce: read_u64(bytes, 52),
        max_priority_fee: read_u128(bytes, 60),
        sender: read_addr(bytes, 76),
    };
    let ilen64 = read_u64(bytes, 96);
    if ilen64 > (blen - 112) as u64 {
        return None;
    }
    let ilen: usize = ilen64 as usize;
    let slen64 = read_u64(bytes, 104 + ilen);
    if slen64 != (blen - 112 - ilen) as u64 {
        return None;
    }
    let slen: usize = blen - 112 - ilen;
    let input = copy_range(bytes, 104, ilen);
    let sig = copy_range(bytes, 112 + ilen, slen);
    Some((f, input, sig))
}

/// The 256-bit digest that the outside hashing routine assigns to a
/// byte string; it depends on the bytes alone.
pub uninterp spec fn keccak_of(bytes: Seq<u8>) -> TxHash;

/// Relies on alloy's keccak256: the digest of a byte string, a function
/// of the bytes alone.
#[verifier::external_body]
fn keccak256_hash(bytes: &Vec<u8>) -> (r: TxHash)
    ensures
        r == keccak_of(bytes@),
{
    let h = alloy::primitives::keccak256(bytes.as_slice());
    let hi = u128::from_be_bytes(h.0[0..16].try_into().unwrap());
    let lo = u128::from_be_bytes(h.0[16..32].try_into().unwrap());
    TxHash { hi, lo }
}

/// Mathematical value of a [`SignedTx`].
pub ghost struct SignedTxV {
    /// The resolved transaction fields.
    pub fields: TxFields,
    /// The calldata.
    pub input: Seq<u8>,
    /// The signature bytes.
    pub signature: Seq<u8>,
    /// The wire encoding.
    pub wire: Seq<u8>,
    /// The transaction hash.
    pub hash: TxHash,
}

/// A signed, wire-encoded transaction: the resolved fields, the
/// calldata, the signature, the canonical wire bytes, and the hash
/// derived from them.
#[derive(Debug)]
pub struct SignedTx {
    /// The resolved transaction fields.
    pub fields: TxFields,
    /// The calldata.
    pub input: Vec<u8>,
    /// The signature bytes.
    pub signature: Vec<u8>,
    /// The wire encoding.
    pub wire: Vec<u8>,
    /// The transaction hash.
    pub hash: TxHash,
}

impl View for SignedTx {
    type V = SignedTxV;

    open spec fn view(&self) -> SignedTxV {
        SignedTxV {
            fields: self.fields,
            input: self.input@,
            signature: self.signature@,
            wire: self.wire@,
            hash: self.hash,
        }
    }
}

impl DeepView for SignedTx {
    type V = SignedTxV;

    open spec fn deep_view(&self) -> SignedTxV {
        self.view()
    }
}

impl Clone for SignedTx {
    /// Clones the signed transaction, preserving its mathematical value.
    fn clone(&self) -> (r: Self)
        ensures
            r@ == self@,
    {
        let input = self.input.clone();
        let signature = self.signature.clone();
        let wire = self.wire.clone();
        proof {
            assert(input@ =~= self.input@);
            assert(signature@ =~= self.signature@);
            assert(wire@ =~= self.wire@);
        }
        SignedTx { fields: self.fields, input, signature, wire, hash: self.hash }
    }
}

impl SignedTx {
    /// Whether the transaction is well formed: its wire bytes are the
    /// canonical encoding of its fields, calldata and signature, and its
    /// hash is derived from those wire bytes.
    pub open spec fn wf(&self) -> bool {
        &&& self.input@.len() <= u64::MAX
        &&& self.signature@.len() <= u64::MAX
        &&& self.wire@ == spec_tx_wire(self.fields, self.input@, self.signature@)
        &&& self.hash == keccak_of(self.wire@)
    }

    /// Seals one signed transaction: serializes the fields, calldata
    /// and signature to wire bytes and derives the hash from them.
    pub fn seal(fields: TxFields, input: Vec<u8>, signature: Vec<u8>) -> (r: SignedTx)
        ensures
            r.fields == fields,
            r.input@ == input@,
            r.signature@ == signature@,
            r.wf(),
    {
        let ilen: usize = input.len();
        let slen: usize = signature.len();
        proof {
            assert(ilen <= u64::MAX);
            assert(slen <= u64::MAX);
        }
        let wire = encode_tx_wire(fields, &input, &signature);
        let hash = keccak256_hash(&wire);
        SignedTx { fields, input, signature, wire, hash }
    }

    /// The round trip law at the transaction level: decoding a well
    /// formed transaction's wire bytes recovers its fields, calldata
    /// and signature.
    pub proof fn lemma_wire_round_trip(&self)
        requires
            self.wf(),
        ensures
            spec_decode_tx(self.wire@) == Some((self.fields, self.input@, self.signature@)),
    {
        lemma_tx_wire_round_trip(self.fields, self.input@, self.signature@);
    }
}

/// The contract the request calls: the fill contract of its fill, or
/// the orders contract of its initiate.
pub open spec fn spec_request_contract(r: TxRequestV) -> Address {
    match r {
        TxRequestV::Fill(f) => f.payload.contract,
        TxRequestV::Initiate { contract, .. } => contract,
    }
}

/// The resolved fields of the transaction for one request under the
/// engine's fee policy: fixed gas limit, fixed priority fee, no native
/// value.
pub open spec fn spec_tx_fields_for(
    r: TxRequestV,
    chain_id: u64,
    nonce: u64,
    sender: Address,
) -> TxFields {
    TxFields {
        chain_id,
        to: spec_request_contract(r),
        value: 0,
        gas_limit: DEFAULT_GAS_LIMIT,
        nonce,
        max_priority_fee: DEFAULT_MAX_PRIORITY_FEE_WEI,
        sender,
    }
}

/// Whether `t` is the well formed signed transaction of request `r`
/// with the given scope, nonce and sender; the signature bytes are
/// whatever the signing capability produced.
pub open spec fn tx_matches_request(
    t: SignedTx,
    r: TxRequestV,
    chain_id: u64,
    nonce: u64,
    sender: Address,
) -> bool {
    &&& t.wf()
    &&& t.fields == spec_tx_fields_for(r, chain_id, nonce, sender)
    &&& t.input@ == spec_request_bytes(r)
}

/// An injected transaction-signing capability: signs one resolved
/// transaction, or rejects it. Nothing is assumed of the returned
/// signature bytes.
pub trait TxSigner {
    /// Signs one transaction's fields and calldata, or rejects them.
    fn sign_tx(&self, fields: &TxFields, input: &Vec<u8>) -> (r: Result<Vec<u8>, ()>);
}

/// Resolves, signs and encodes every transaction request, preserving
/// input order and giving request `i` the nonce `start_nonce + i`.
///
/// The batch is atomic: if the capability rejects any transaction, the
/// whole batch fails with `EncodingFailed` and no partial list is
/// returned. The capability is the only thing that can fail, so an
/// empty request list always encodes to the empty batch, without
/// invoking the capability at all.
pub fn sign_and_encode_txns<S: TxSigner>(
    reqs: &Vec<TxRequest>,
    chain_id: u64,
    start_nonce: u64,
    sender: Address,
    signer: &S,
) -> (r: Result<Vec<SignedTx>, FillError>)
    requires
        start_nonce + reqs@.len() <= u64::MAX,
    ensures
        reqs@.len() == 0 ==> r is Ok,
        match r {
            Ok(txs) => {
                &&& txs@.len() == reqs@.len()
                &&& forall|i: int|
                    0 <= i < txs@.len() ==> tx_matches_request(
                        #[trigger] txs@[i],
                        reqs.deep_view()[i],
                        chain_id,
                        (start_nonce + i) as u64,
                        sender,
                    )
            },
            Err(e) => e == FillError::EncodingFailed,
        },
{
    let n: usize = reqs.len();
    let mut txs: Vec<SignedTx> = Vec::new();
    let mut i: usize = 0;
    while i < n
        invariant
            n == reqs@.len(),
            start_nonce + n <= u64::MAX,
            0 <= i <= n,
            txs@.len() == i,
            forall|j: int|
                0 <= j < i ==> tx_matches_request(
                    #[trigger] txs@[j],
                    reqs.deep_view()[j],
                    chain_id,
                    (start_nonce + j) as u64,
                    sender,
                ),
        decreases n - i,
    {
        let req = &reqs[i];
        let nonce: u64 = start_nonce + (i as u64);
        let fields = TxFields {
            chain_id,
            to: match req {
                TxRequest::Fill(f) => f.payload.contract,
                TxRequest::Initiate { contract, .. } => *contract,
            },
            value: 0,
            gas_limit: DEFAULT_GAS_LIMIT,
            nonce,
            max_priority_fee: DEFAULT_MAX_PRIORITY_FEE_WEI,
            sender,
        };
        assert(fields == spec_tx_fields_for(reqs.deep_view()[i as int], chain_id, nonce, sender));
        let input = request_bytes(req);
        match signer.sign_tx(&fields, &input) {
            Ok(sig) => {
                let tx = SignedTx::seal(fields, input, sig);
                txs.push(tx);
            },
            Err(_) => {
                return Err(FillError::EncodingFailed);
            },
        }
        i = i + 1;
    }
    Ok(txs)
}

} // verus!
