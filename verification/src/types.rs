//! Core data model: addresses, hashes, order inputs and outputs, permits,
//! and signed orders.
//!
//! Amount and identifier fields are plain integers so that every rule of
//! the engine can be stated and proved over them. An account or token
//! address is a 160-bit quantity held as a 32-bit high part and a 128-bit
//! low part; a transaction hash is a 256-bit quantity held as two 128-bit
//! halves.

use vstd::prelude::*;

verus! {

/// A 160-bit account, token or contract address.
#[derive(Clone, Copy, Debug, PartialEq, Eq, Structural)]
pub struct Address {
    /// The high 32 bits of the address.
    pub hi: u32,
    /// The low 128 bits of the address.
    pub lo: u128,
}

impl View for Address {
    type V = Address;

    open spec fn view(&self) -> Address {
        *self
    }
}

impl DeepView for Address {
    type V = Address;

    open spec fn deep_view(&self) -> Address {
        *self
    }
}

/// A 256-bit transaction hash.
#[derive(Clone, Copy, Debug, PartialEq, Eq, Structural)]
pub struct TxHash {
    /// The high 128 bits of the hash.
    pub hi: u128,
    /// The low 128 bits of the hash.
    pub lo: u128,
}

impl View for TxHash {
    type V = TxHash;

    open spec fn view(&self) -> TxHash {
        *self
    }
}

impl DeepView for TxHash {
    type V = TxHash;

    open spec fn deep_view(&self) -> TxHash {
        *self
    }
}

/// One input of an order: a token the order's owner gives up.
#[derive(Clone, Copy, Debug, PartialEq, Eq, Structural)]
pub struct Input {
    /// The token given up.
    pub token: Address,
    /// The amount given up.
    pub amount: u128,
}

impl View for Input {
    type V = Input;

    open spec fn view(&self) -> Input {
        *self
    }
}

impl DeepView for Input {
    type V = Input;

    open spec fn deep_view(&self) -> Input {
        *self
    }
}

/// One output of an order: a token amount owed to a recipient on a
/// destination chain.
#[derive(Clone, Copy, Debug, PartialEq, Eq, Structural)]
pub struct Output {
    /// The token owed.
    pub token: Address,
    /// The amount owed.
    pub amount: u128,
    /// The chain the output must be delivered on.
    pub chain_id: u64,
    /// The recipient of the output.
    pub recipient: Address,
}

impl View for Output {
    type V = Output;

    open spec fn view(&self) -> Output {
        *self
    }
}

impl DeepView for Output {
    type V = Output;

    open spec fn deep_view(&self) -> Output {
        *self
    }
}

/// Mathematical value of a [`Permit`].
pub ghost struct PermitV {
    /// The order owner's address.
    pub owner: Address,
    /// The permit nonce.
    pub nonce: u128,
    /// The permit deadline, in unix seconds.
    pub deadline: u128,
    /// The owner's signature bytes.
    pub signature: Seq<u8>,
}

/// The signed permit attached to an order: the owner's attestation that
/// the order's inputs may be consumed until the deadline.
#[derive(Debug)]
pub struct Permit {
    /// The order owner's address.
    pub owner: Address,
    /// The permit nonce.
    pub nonce: u128,
    /// The permit deadline, in unix seconds.
    pub deadline: u128,
    /// The owner's signature bytes.
    pub signature: Vec<u8>,
}

impl View for Permit {
    type V = PermitV;

    open spec fn view(&self) -> PermitV {
        PermitV {
            owner: self.owner,
            nonce: self.nonce,
            deadline: self.deadline,
            signature: self.signature@,
        }
    }
}

impl DeepView for Permit {
    type V = PermitV;

    open spec fn deep_view(&self) -> PermitV {
        self.view()
    }
}

impl Clone for Permit {
    /// Clones the permit, preserving its mathematical value.
    fn clone(&self) -> (r: Self)
        ensures
            r@ == self@,
    {
        let signature = self.signature.clone();
        proof {
            assert(signature@ =~= self.signature@);
        }
        Permit { owner: self.owner, nonce: self.nonce, deadline: self.deadline, signature }
    }
}

/// Mathematical value of a [`SignedOrder`].
pub ghost struct SignedOrderV {
    /// The order's inputs.
    pub inputs: Seq<Input>,
    /// The order's outputs.
    pub outputs: Seq<Output>,
    /// The signed permit.
    pub permit: PermitV,
}

/// An order together with its signed permit. The engine only reads signed
/// orders; two signed orders are the same order exactly when their signed
/// content is byte-identical.
#[derive(Debug)]
pub struct SignedOrder {
    /// The order's inputs.
    pub inputs: Vec<Input>,
    /// The order's outputs.
    pub outputs: Vec<Output>,
    /// The signed permit.
    pub permit: Permit,
}

impl View for SignedOrder {
    type V = SignedOrderV;

    open spec fn view(&self) -> SignedOrderV {
        SignedOrderV { inputs: self.inputs@, outputs: self.outputs@, permit: self.permit@ }
    }
}

impl DeepView for SignedOrder {
    type V = SignedOrderV;

    open spec fn deep_view(&self) -> SignedOrderV {
        self.view()
    }
}

impl Clone for SignedOrder {
    /// Clones the signed order, preserving its mathematical value.
    fn clone(&self) -> (r: Self)
        ensures
            r@ == self@,
    {
        let inputs = self.inputs.clone();
        let outputs = self.outputs.clone();
        proof {
            assert(inputs@ =~= self.inputs@);
            assert(outputs@ =~= self.outputs@);
        }
        SignedOrder { inputs, outputs, permit: self.permit.clone() }
    }
}

/// Compares two byte vectors for equality of contents.
pub fn bytes_eq(a: &Vec<u8>, b: &Vec<u8>) -> (r: bool)
    ensures
        r == (a@ == b@),
{
    if a.len() != b.len() {
        assert(a@.len() != b@.len());
        return false;
    }
    let n: usize = a.len();
    let mut i: usize = 0;
    while i < n
        invariant
            n == a@.len() == b@.len(),
            0 <= i <= n,
            forall|k: int| 0 <= k < i ==> a@[k] == b@[k],
        decreases n - i,
    {
        if a[i] != b[i] {
            return false;
        }
        i = i + 1;
    }
    proof {
        assert(a@ =~= b@);
    }
    true
}

/// Compares two input lists for equality of contents.
pub fn inputs_eq(a: &Vec<Input>, b: &Vec<Input>) -> (r: bool)
    ensures
        r == (a@ == b@),
{
    if a.len() != b.len() {
        assert(a@.len() != b@.len());
        return false;
    }
    let n: usize = a.len();
    let mut i: usize = 0;
    while i < n
        invariant
            n == a@.len() == b@.len(),
            0 <= i <= n,
            forall|k: int| 0 <= k < i ==> a@[k] == b@[k],
        decreases n - i,
    {
        if a[i] != b[i] {
            return false;
        }
        i = i + 1;
    }
    proof {
        assert(a@ =~= b@);
    }
    true
}

/// Compares two output lists for equality of contents.
pub fn outputs_eq(a: &Vec<Output>, b: &Vec<Output>) -> (r: bool)
    ensures
        r == (a@ == b@),
{
    if a.len() != b.len() {
        assert(a@.len() != b@.len());
        return false;
    }
    let n: usize = a.len();
    let mut i: usize = 0;
    while i < n
        invariant
            n == a@.len() == b@.len(),
            0 <= i <= n,
            forall|k: int| 0 <= k < i ==> a@[k] == b@[k],
        decreases n - i,
    {
        if a[i] != b[i] {
            return false;
        }
        i = i + 1;
    }
    proof {
        assert(a@ =~= b@);
    }
    true
}

impl SignedOrder {
    /// Whether this signed order is the same order as `other`: the order
    /// identity used when matching freshly fetched orders against a
    /// target, given by byte-identical signed content.
    pub fn matches(&self, other: &SignedOrder) -> (r: bool)
        ensures
            r == (self@ == other@),
    {
        let same = self.permit.owner == other.permit.owner && self.permit.nonce
            == other.permit.nonce && self.permit.deadline == other.permit.deadline && bytes_eq(
            &self.permit.signature,
            &other.permit.signature,
        ) && inputs_eq(&self.inputs, &other.inputs) && outputs_eq(&self.outputs, &other.outputs);
        proof {
            if same {
                assert(self@ =~= other@);
            }
        }
        same
    }
}

} // verus!
