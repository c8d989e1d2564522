//! The confirmation builder: for each unsigned artifact the destination
//! chain asks this validator to co-sign, the exact canonical byte encoding
//! the destination verification logic expects, and a deterministic
//! signature over it with the validator's external-chain key.
//!
//! The encoding is a sequence of 32-byte slots: the deployment's
//! domain-separation identifier, a tag naming the artifact kind, and the
//! artifact's own fields.  The identifier makes a signature from one
//! deployment worthless on every other.

use vstd::prelude::*;
use crate::bytesutil::{be_nat, be_words, copy_bytes, push_all, u64_word, be_limb};
use crate::error::GravityError;
use crate::types::{res_view, res_seq_view, EthAddr, SignerSetTx, SignerSetTxV, BatchTx, BatchTxV,
    ContractCallTx, ContractCallTxV, ValsetMemberV};

verus! {

/// The group order of the secp256k1 curve: a signing key is valid exactly
/// when its big-endian value lies strictly between zero and this.
pub open spec fn secp256k1_order() -> nat {
    0xFFFF_FFFF_FFFF_FFFF_FFFF_FFFF_FFFF_FFFE_BAAE_DCE6_AF48_A03B_BFD2_5E8C_D036_4141nat
}

/// Whether 32 key bytes form a valid signing key.
pub open spec fn valid_signing_key(key: Seq<u8>) -> bool {
    0 < be_nat(key) < secp256k1_order()
}

/// The value of a 32-byte string split into its four 8-byte limbs.
proof fn lemma_limb_split(s: Seq<u8>)
    requires
        s.len() == 32,
    ensures
        be_nat(s) == be_nat(s.subrange(0, 8)) * crate::bytesutil::pow256(24) + be_nat(
            s.subrange(8, 16),
        ) * crate::bytesutil::pow256(16) + be_nat(s.subrange(16, 24)) * crate::bytesutil::pow256(8)
            + be_nat(s.subrange(24, 32)),
{
    assert(s =~= s.subrange(0, 8) + s.subrange(8, 32));
    crate::bytesutil::lemma_be_nat_append(s.subrange(0, 8), s.subrange(8, 32));
    assert(s.subrange(8, 32) =~= s.subrange(8, 16) + s.subrange(16, 32));
    crate::bytesutil::lemma_be_nat_append(s.subrange(8, 16), s.subrange(16, 32));
    assert(s.subrange(8, 32).subrange(0, 8) =~= s.subrange(8, 16));
    assert(s.subrange(16, 32) =~= s.subrange(16, 24) + s.subrange(24, 32));
    crate::bytesutil::lemma_be_nat_append(s.subrange(16, 24), s.subrange(24, 32));
    crate::bytesutil::lemma_pow256_limbs();
    let b0 = be_nat(s.subrange(0, 8));
    let b1 = be_nat(s.subrange(8, 16));
    let b2 = be_nat(s.subrange(16, 24));
    let b3 = be_nat(s.subrange(24, 32));
    assert(be_nat(s.subrange(16, 32)) == b2 * crate::bytesutil::pow256(8) + b3);
    assert(be_nat(s.subrange(8, 32)) == b1 * crate::bytesutil::pow256(16) + be_nat(
        s.subrange(16, 32),
    )) by {
        assert(s.subrange(16, 32).len() == 16);
    }
    assert(be_nat(s) == b0 * crate::bytesutil::pow256(24) + be_nat(s.subrange(8, 32))) by {
        assert(s.subrange(8, 32).len() == 24);
    }
}

/// Decides whether the 32 key bytes form a valid signing key, by comparing
/// the four 8-byte limbs against the group order.
pub fn key_in_range(key: &[u8; 32]) -> (r: bool)
    ensures
        r <==> valid_signing_key(key@),
{
    let w0 = be_limb(key, 0);
    let w1 = be_limb(key, 8);
    let w2 = be_limb(key, 16);
    let w3 = be_limb(key, 24);
    proof {
        lemma_limb_split(key@);
        crate::bytesutil::lemma_pow256_limbs();
        assert(be_nat(key@) == w0 as nat
            * 0x1_0000_0000_0000_0000_0000_0000_0000_0000_0000_0000_0000_0000nat + w1 as nat
            * 0x1_0000_0000_0000_0000_0000_0000_0000_0000nat + w2 as nat
            * 0x1_0000_0000_0000_0000nat + w3 as nat);
    }
    let nonzero = w0 != 0 || w1 != 0 || w2 != 0 || w3 != 0;
    let below = w0 < 0xFFFF_FFFF_FFFF_FFFF || (w0 == 0xFFFF_FFFF_FFFF_FFFF && (w1
        < 0xFFFF_FFFF_FFFF_FFFE || (w1 == 0xFFFF_FFFF_FFFF_FFFE && (w2 < 0xBAAE_DCE6_AF48_A03B
        || (w2 == 0xBAAE_DCE6_AF48_A03B && w3 < 0xBFD2_5E8C_D036_4141)))));
    nonzero && below
}

/// The signature `clarity::PrivateKey::sign_ethereum_msg` produces for a
/// key and a message: deterministic ECDSA over a salted keccak digest, a
/// function of the two arguments alone.
pub uninterp spec fn sig_of(key: Seq<u8>, msg: Seq<u8>) -> Seq<u8>;

/// The external-chain address derived from a signing key: the function of
/// the key alone that `clarity::PrivateKey::to_address` computes.
pub uninterp spec fn signer_address_of(key: Seq<u8>) -> Seq<u8>;

/// Relies on `clarity::PrivateKey::from_bytes`, which accepts exactly the
/// scalars in `(0, n)` for the secp256k1 group order `n` (it derives the
/// public key through `secp256k1_ec_seckey_verify`), and on
/// `clarity::PrivateKey::sign_ethereum_msg` with
/// `clarity::Signature::to_bytes`: a deterministic (RFC 6979) recoverable
/// signature over the salted keccak digest of the message, serialized as
/// 65 bytes.
#[verifier::external_body]
fn eth_sign(key: &[u8; 32], msg: &Vec<u8>) -> (r: Option<Vec<u8>>)
    ensures
        r is Some <==> valid_signing_key(key@),
        r matches Some(s) ==> s@ == sig_of(key@, msg@) && s@.len() == 65,
{
    match clarity::PrivateKey::from_bytes(*key) {
        Ok(k) => Some(k.sign_ethereum_msg(msg).to_bytes().to_vec()),
        Err(_) => None,
    }
}

/// Relies on `clarity::PrivateKey::from_bytes` (valid exactly on scalars
/// in `(0, n)`, as above) and `clarity::PrivateKey::to_address` with
/// `clarity::Address::as_bytes`: the 20-byte account address derived from
/// the key alone, per the external chain's address derivation.
#[verifier::external_body]
fn eth_signer_address(key: &[u8; 32]) -> (r: Option<Vec<u8>>)
    ensures
        r is Some <==> valid_signing_key(key@),
        r matches Some(a) ==> a@ == signer_address_of(key@) && a@.len() == 20,
{
    match clarity::PrivateKey::from_bytes(*key) {
        Ok(k) => Some(k.to_address().as_bytes().to_vec()),
        Err(_) => None,
    }
}

/// A run of `n` zero bytes.
pub open spec fn zero_bytes(n: nat) -> Seq<u8> {
    Seq::new(n, |i: int| 0u8)
}

/// A short byte string laid into a 32-byte slot, padded with zeros on the
/// right.
pub open spec fn padded32(s: Seq<u8>) -> Seq<u8>
    recommends
        s.len() <= 32,
{
    s + zero_bytes((32 - s.len()) as nat)
}

/// A 20-byte address laid into a 32-byte slot, padded with zeros on the
/// left, as the bridge contract stores addresses.
pub open spec fn address_slot(a: Seq<u8>) -> Seq<u8> {
    zero_bytes(12) + a
}

/// The tag slot content naming a validator-set checkpoint.
pub open spec fn checkpoint_tag() -> Seq<u8> {
    seq![0x63u8, 0x68u8, 0x65u8, 0x63u8, 0x6bu8, 0x70u8, 0x6fu8, 0x69u8, 0x6eu8, 0x74u8]
}

/// The tag slot content naming a transaction batch.
pub open spec fn batch_tag() -> Seq<u8> {
    seq![
        0x74u8, 0x72u8, 0x61u8, 0x6eu8, 0x73u8, 0x61u8, 0x63u8, 0x74u8, 0x69u8, 0x6fu8, 0x6eu8,
        0x42u8, 0x61u8, 0x74u8, 0x63u8, 0x68u8,
    ]
}

/// The tag slot content naming a logic call.
pub open spec fn logic_call_tag() -> Seq<u8> {
    seq![0x6cu8, 0x6fu8, 0x67u8, 0x69u8, 0x63u8, 0x43u8, 0x61u8, 0x6cu8, 0x6cu8]
}

/// Pads a short byte string into a 32-byte slot.
fn pad32(s: &Vec<u8>) -> (r: Vec<u8>)
    requires
        s@.len() <= 32,
    ensures
        r@ == padded32(s@),
{
    let mut r = copy_bytes(s);
    while r.len() < 32
        invariant
            s@.len() <= r@.len() <= 32,
            r@.subrange(0, s@.len() as int) == s@,
            forall|i: int| s@.len() <= i < r@.len() ==> r@[i] == 0u8,
        decreases 32 - r.len(),
    {
        let ghost pre = r@;
        r.push(0u8);
        proof {
            assert(r@.subrange(0, s@.len() as int) =~= pre.subrange(0, s@.len() as int));
        }
    }
    proof {
        assert(r@ =~= padded32(s@));
    }
    r
}

/// Lays an address into its left-padded 32-byte slot.
fn address_word(a: &EthAddr) -> (r: Vec<u8>)
    ensures
        r@ == address_slot(a@),
{
    let mut r: Vec<u8> = Vec::new();
    let mut i: usize = 0;
    while i < 12
        invariant
            i <= 12,
            r@.len() == i,
            forall|j: int| 0 <= j < i ==> r@[j] == 0u8,
        decreases 12 - i,
    {
        r.push(0u8);
        i += 1;
    }
    push_all(&mut r, &a.bytes);
    proof {
        assert(r@ =~= address_slot(a@));
    }
    r
}

/// The canonical encoding of a validator-set checkpoint: the identifier
/// slot, the tag slot, the nonce, the member count, then each member's
/// power and address.
pub open spec fn spec_encode_valset_confirm(gravity_id: Seq<u8>, v: SignerSetTxV) -> Seq<u8> {
    padded32(gravity_id) + padded32(checkpoint_tag()) + be_words(v.nonce as nat, 32) + be_words(
        v.members.len(),
        32,
    ) + member_slots(v.members)
}

/// The member list's slots: one power word and one address slot per
/// member, in order.
pub open spec fn member_slots(ms: Seq<ValsetMemberV>) -> Seq<u8>
    decreases ms.len(),
{
    if ms.len() == 0 {
        Seq::empty()
    } else {
        member_slots(ms.drop_last()) + be_words(ms.last().power as nat, 32) + address_slot(
            ms.last().eth_address,
        )
    }
}

/// The canonical encoding of a transaction-batch confirmation: the
/// identifier slot, the tag slot, the token contract's slot, the batch
/// nonce and the batch timeout.
pub open spec fn spec_encode_batch_confirm(gravity_id: Seq<u8>, b: BatchTxV) -> Seq<u8> {
    padded32(gravity_id) + padded32(batch_tag()) + address_slot(b.token_contract) + be_words(
        b.nonce as nat,
        32,
    ) + be_words(b.batch_timeout as nat, 32)
}

/// The canonical encoding of a logic-call confirmation: the identifier
/// slot, the tag slot, the 32-byte invalidation scope and the invalidation
/// nonce.
pub open spec fn spec_encode_logic_call_confirm(gravity_id: Seq<u8>, c: ContractCallTxV) -> Seq<
    u8,
> {
    padded32(gravity_id) + padded32(logic_call_tag()) + c.invalidation_scope + be_words(
        c.invalidation_nonce as nat,
        32,
    )
}

/// Builds the tag slot content for a validator-set checkpoint.
fn checkpoint_tag_bytes() -> (r: Vec<u8>)
    ensures
        r@ == checkpoint_tag(),
{
    let mut r: Vec<u8> = Vec::new();
    r.push(0x63u8);
    r.push(0x68u8);
    r.push(0x65u8);
    r.push(0x63u8);
    r.push(0x6bu8);
    r.push(0x70u8);
    r.push(0x6fu8);
    r.push(0x69u8);
    r.push(0x6eu8);
    r.push(0x74u8);
    proof {
        assert(r@ =~= checkpoint_tag());
    }
    r
}

/// Builds the tag slot content for a transaction batch.
fn batch_tag_bytes() -> (r: Vec<u8>)
    ensures
        r@ == batch_tag(),
{
    let mut r: Vec<u8> = Vec::new();
    r.push(0x74u8);
    r.push(0x72u8);
    r.push(0x61u8);
    r.push(0x6eu8);
    r.push(0x73u8);
    r.push(0x61u8);
    r.push(0x63u8);
    r.push(0x74u8);
    r.push(0x69u8);
    r.push(0x6fu8);
    r.push(0x6eu8);
    r.push(0x42u8);
    r.push(0x61u8);
    r.push(0x74u8);
    r.push(0x63u8);
    r.push(0x68u8);
    proof {
        assert(r@ =~= batch_tag());
    }
    r
}

/// Builds the tag slot content for a logic call.
fn logic_call_tag_bytes() -> (r: Vec<u8>)
    ensures
        r@ == logic_call_tag(),
{
    let mut r: Vec<u8> = Vec::new();
    r.push(0x6cu8);
    r.push(0x6fu8);
    r.push(0x67u8);
    r.push(0x69u8);
    r.push(0x63u8);
    r.push(0x43u8);
    r.push(0x61u8);
    r.push(0x6cu8);
    r.push(0x6cu8);
    proof {
        assert(r@ =~= logic_call_tag());
    }
    r
}

/// Builds the canonical byte encoding of a validator-set checkpoint.
pub fn encode_valset_confirm(gravity_id: &Vec<u8>, valset: &SignerSetTx) -> (r: Vec<u8>)
    requires
        gravity_id@.len() <= 32,
    ensures
        r@ == spec_encode_valset_confirm(gravity_id@, valset@),
{
    let mut r = pad32(gravity_id);
    let tag = checkpoint_tag_bytes();
    let tag_slot = pad32(&tag);
    push_all(&mut r, &tag_slot);
    let nonce_word = u64_word(valset.nonce);
    push_all(&mut r, &nonce_word);
    let count: u64 = valset.members.len() as u64;
    let count_word = u64_word(count);
    push_all(&mut r, &count_word);
    proof {
        assert(count as nat == valset.members.deep_view().len());
    }
    let ghost head = r@;
    let mut i: usize = 0;
    proof {
        assert(member_slots(valset.members.deep_view().take(0)) =~= Seq::<u8>::empty());
        assert(r@ =~= head + member_slots(valset.members.deep_view().take(0)));
    }
    while i < valset.members.len()
        invariant
            i <= valset.members.len(),
            gravity_id@.len() <= 32,
            head == padded32(gravity_id@) + padded32(checkpoint_tag()) + be_words(
                valset.nonce as nat,
                32,
            ) + be_words(valset.members.deep_view().len(), 32),
            r@ == head + member_slots(valset.members.deep_view().take(i as int)),
        decreases valset.members.len() - i,
    {
        let m = &valset.members[i];
        proof {
            assert(m@ == valset.members.deep_view()[i as int]);
        }
        let power_word = u64_word(m.power);
        push_all(&mut r, &power_word);
        let addr_slot = address_word(&m.eth_address);
        push_all(&mut r, &addr_slot);
        proof {
            let ms = valset.members.deep_view();
            assert(ms.take(i + 1).drop_last() =~= ms.take(i as int));
            assert(ms.take(i + 1).last() == ms[i as int]);
            assert(r@ =~= head + member_slots(ms.take(i + 1)));
        }
        i += 1;
    }
    proof {
        let ms = valset.members.deep_view();
        assert(ms.take(ms.len() as int) =~= ms);
        assert(r@ =~= spec_encode_valset_confirm(gravity_id@, valset@));
    }
    r
}

/// Builds the canonical byte encoding of a transaction-batch confirmation.
pub fn encode_tx_batch_confirm(gravity_id: &Vec<u8>, batch: &BatchTx) -> (r: Vec<u8>)
    requires
        gravity_id@.len() <= 32,
    ensures
        r@ == spec_encode_batch_confirm(gravity_id@, batch@),
{
    let mut r = pad32(gravity_id);
    let tag = batch_tag_bytes();
    let tag_slot = pad32(&tag);
    push_all(&mut r, &tag_slot);
    let token_slot = address_word(&batch.token_contract);
    push_all(&mut r, &token_slot);
    let nonce_word = u64_word(batch.nonce);
    push_all(&mut r, &nonce_word);
    let timeout_word = u64_word(batch.batch_timeout);
    push_all(&mut r, &timeout_word);
    proof {
        assert(r@ =~= spec_encode_batch_confirm(gravity_id@, batch@));
    }
    r
}

/// Builds the canonical byte encoding of a logic-call confirmation.
pub fn encode_logic_call_confirm(gravity_id: &Vec<u8>, call: &ContractCallTx) -> (r: Vec<u8>)
    requires
        gravity_id@.len() <= 32,
        call.invalidation_scope@.len() == 32,
    ensures
        r@ == spec_encode_logic_call_confirm(gravity_id@, call@),
{
    let mut r = pad32(gravity_id);
    let tag = logic_call_tag_bytes();
    let tag_slot = pad32(&tag);
    push_all(&mut r, &tag_slot);
    push_all(&mut r, &call.invalidation_scope);
    let nonce_word = u64_word(call.invalidation_nonce);
    push_all(&mut r, &nonce_word);
    proof {
        assert(r@ =~= spec_encode_logic_call_confirm(gravity_id@, call@));
    }
    r
}

/// An unsigned artifact fetched from the destination chain, of any of the
/// three kinds the signer co-signs.
#[derive(Debug, PartialEq, Eq)]
pub enum UnsignedArtifact {
    SignerSet(SignerSetTx),
    Batch(BatchTx),
    ContractCall(ContractCallTx),
}

pub enum UnsignedArtifactV {
    SignerSet(SignerSetTxV),
    Batch(BatchTxV),
    ContractCall(ContractCallTxV),
}

impl View for UnsignedArtifact {
    type V = UnsignedArtifactV;

    open spec fn view(&self) -> UnsignedArtifactV {
        match self {
            UnsignedArtifact::SignerSet(v) => UnsignedArtifactV::SignerSet(v@),
            UnsignedArtifact::Batch(b) => UnsignedArtifactV::Batch(b@),
            UnsignedArtifact::ContractCall(c) => UnsignedArtifactV::ContractCall(c@),
        }
    }
}

/// Which artifact a confirmation attests to.
#[derive(Debug, PartialEq, Eq)]
pub enum ConfirmationTarget {
    SignerSet { nonce: u64 },
    Batch { token_contract: EthAddr, nonce: u64 },
    ContractCall { invalidation_scope: Vec<u8>, invalidation_nonce: u64 },
}

pub enum ConfirmationTargetV {
    SignerSet { nonce: u64 },
    Batch { token_contract: Seq<u8>, nonce: u64 },
    ContractCall { invalidation_scope: Seq<u8>, invalidation_nonce: u64 },
}

impl View for ConfirmationTarget {
    type V = ConfirmationTargetV;

    open spec fn view(&self) -> ConfirmationTargetV {
        match self {
            ConfirmationTarget::SignerSet { nonce } => ConfirmationTargetV::SignerSet {
                nonce: *nonce,
            },
            ConfirmationTarget::Batch { token_contract, nonce } => ConfirmationTargetV::Batch {
                token_contract: token_contract@,
                nonce: *nonce,
            },
            ConfirmationTarget::ContractCall {
                invalidation_scope,
                invalidation_nonce,
            } => ConfirmationTargetV::ContractCall {
                invalidation_scope: invalidation_scope@,
                invalidation_nonce: *invalidation_nonce,
            },
        }
    }
}

/// A validator's signed attestation to one outbound artifact: the artifact
/// it targets, the validator's external-chain address, and the signature
/// over the artifact's canonical encoding.
#[derive(Debug, PartialEq, Eq)]
pub struct Confirmation {
    pub target: ConfirmationTarget,
    pub signer: EthAddr,
    pub signature: Vec<u8>,
}

pub struct ConfirmationV {
    pub target: ConfirmationTargetV,
    pub signer: Seq<u8>,
    pub signature: Seq<u8>,
}

impl View for Confirmation {
    type V = ConfirmationV;

    open spec fn view(&self) -> ConfirmationV {
        ConfirmationV {
            target: self.target@,
            signer: self.signer@,
            signature: self.signature@,
        }
    }
}

impl DeepView for Confirmation {
    type V = ConfirmationV;

    open spec fn deep_view(&self) -> ConfirmationV {
        self@
    }
}

/// The confirmation a valid key produces for a validator-set checkpoint.
pub open spec fn spec_confirm_valset(v: SignerSetTxV, key: Seq<u8>, gid: Seq<u8>) -> ConfirmationV {
    ConfirmationV {
        target: ConfirmationTargetV::SignerSet { nonce: v.nonce },
        signer: signer_address_of(key),
        signature: sig_of(key, spec_encode_valset_confirm(gid, v)),
    }
}

/// The confirmation a valid key produces for a transaction batch.
pub open spec fn spec_confirm_batch(b: BatchTxV, key: Seq<u8>, gid: Seq<u8>) -> ConfirmationV {
    ConfirmationV {
        target: ConfirmationTargetV::Batch { token_contract: b.token_contract, nonce: b.nonce },
        signer: signer_address_of(key),
        signature: sig_of(key, spec_encode_batch_confirm(gid, b)),
    }
}

/// The confirmation a valid key produces for a logic call.
pub open spec fn spec_confirm_logic_call(c: ContractCallTxV, key: Seq<u8>, gid: Seq<u8>) -> ConfirmationV {
    ConfirmationV {
        target: ConfirmationTargetV::ContractCall {
            invalidation_scope: c.invalidation_scope,
            invalidation_nonce: c.invalidation_nonce,
        },
        signer: signer_address_of(key),
        signature: sig_of(key, spec_encode_logic_call_confirm(gid, c)),
    }
}

/// What `confirm` yields: the signed confirmation when the identifier, the
/// artifact and the key are well formed, else the distinct fatal error.
pub open spec fn spec_confirm(a: UnsignedArtifactV, key: Seq<u8>, gid: Seq<u8>) -> Result<
    ConfirmationV,
    GravityError,
> {
    if gid.len() > 32 {
        Err(GravityError::MalformedGravityId)
    } else if (a matches UnsignedArtifactV::ContractCall(c) && c.invalidation_scope.len() != 32) {
        Err(GravityError::MalformedInvalidationScope)
    } else if !valid_signing_key(key) {
        Err(GravityError::InvalidSigningKey)
    } else {
        match a {
            UnsignedArtifactV::SignerSet(v) => Ok(spec_confirm_valset(v, key, gid)),
            UnsignedArtifactV::Batch(b) => Ok(spec_confirm_batch(b, key, gid)),
            UnsignedArtifactV::ContractCall(c) => Ok(spec_confirm_logic_call(c, key, gid)),
        }
    }
}

/// Signs one unsigned artifact with the validator's key under the given
/// domain-separation identifier.  No network I/O: a pure function of its
/// arguments.  A malformed identifier, scope or key is the fatal condition
/// the signer cannot proceed past.
pub fn confirm(artifact: &UnsignedArtifact, key: &[u8; 32], gravity_id: &Vec<u8>) -> (r: Result<
    Confirmation,
    GravityError,
>)
    ensures
        res_view(r) == spec_confirm(artifact@, key@, gravity_id@),
{
    if gravity_id.len() > 32 {
        return Err(GravityError::MalformedGravityId);
    }
    if let UnsignedArtifact::ContractCall(c) = artifact {
        if c.invalidation_scope.len() != 32 {
            return Err(GravityError::MalformedInvalidationScope);
        }
    }
    if !key_in_range(key) {
        return Err(GravityError::InvalidSigningKey);
    }
    let signer_bytes = match eth_signer_address(key) {
        Some(a) => a,
        None => {
            proof {
                assert(false);
            }
            return Err(GravityError::InvalidSigningKey);
        },
    };
    let signer = EthAddr { bytes: signer_bytes };
    let (target, msg) = match artifact {
        UnsignedArtifact::SignerSet(v) => (
            ConfirmationTarget::SignerSet { nonce: v.nonce },
            encode_valset_confirm(gravity_id, v),
        ),
        UnsignedArtifact::Batch(b) => (
            ConfirmationTarget::Batch {
                token_contract: b.token_contract.duplicate(),
                nonce: b.nonce,
            },
            encode_tx_batch_confirm(gravity_id, b),
        ),
        UnsignedArtifact::ContractCall(c) => (
            ConfirmationTarget::ContractCall {
                invalidation_scope: copy_bytes(&c.invalidation_scope),
                invalidation_nonce: c.invalidation_nonce,
            },
            encode_logic_call_confirm(gravity_id, c),
        ),
    };
    let signature = match eth_sign(key, &msg) {
        Some(s) => s,
        None => {
            proof {
                assert(false);
            }
            return Err(GravityError::InvalidSigningKey);
        },
    };
    Ok(Confirmation { target, signer, signature })
}

/// What a batch of signer-set confirmations yields: empty input signs
/// nothing, else each set is signed in order, under the shared identifier
/// and key checks.
pub open spec fn spec_confirm_valsets(vs: Seq<SignerSetTxV>, key: Seq<u8>, gid: Seq<u8>) -> Result<
    Seq<ConfirmationV>,
    GravityError,
> {
    if vs.len() == 0 {
        Ok(Seq::empty())
    } else if gid.len() > 32 {
        Err(GravityError::MalformedGravityId)
    } else if !valid_signing_key(key) {
        Err(GravityError::InvalidSigningKey)
    } else {
        Ok(vs.map_values(|v: SignerSetTxV| spec_confirm_valset(v, key, gid)))
    }
}

/// Builds one confirmation per unsigned validator set, in order.
#[verifier::loop_isolation(false)]
pub fn signer_set_tx_confirmation_messages(
    valsets: &Vec<SignerSetTx>,
    key: &[u8; 32],
    gravity_id: &Vec<u8>,
) -> (r: Result<Vec<Confirmation>, GravityError>)
    ensures
        res_seq_view(r) == spec_confirm_valsets(valsets.deep_view(), key@, gravity_id@),
{
    let mut out: Vec<Confirmation> = Vec::new();
    let mut i: usize = 0;
    let ghost vs = valsets.deep_view();
    let ghost f = |v: SignerSetTxV| spec_confirm_valset(v, key@, gravity_id@);
    while i < valsets.len()
        invariant
            i <= valsets.len(),
            i > 0 ==> gravity_id@.len() <= 32 && valid_signing_key(key@),
            out.deep_view() =~= vs.take(i as int).map_values(f),
        decreases valsets.len() - i,
    {
        let v: &SignerSetTx = &valsets[i];
        proof {
            assert(v@ == vs[i as int]);
        }
        let artifact = UnsignedArtifact::SignerSet(
            SignerSetTx { nonce: v.nonce, members: copy_members(&v.members) },
        );
        match confirm(&artifact, key, gravity_id) {
            Ok(c) => {
                let ghost pre = out.deep_view();
                out.push(c);
                proof {
                    assert(out.deep_view() =~= pre.push(c@));
                    assert(out.deep_view() =~= vs.take(i + 1).map_values(f));
                }
            },
            Err(e) => {
                return Err(e);
            },
        }
        i += 1;
    }
    proof {
        assert(vs.take(valsets.len() as int) =~= vs);
        if valsets.len() > 0 {
            assert(out.deep_view() =~= vs.map_values(
                |v: SignerSetTxV| spec_confirm_valset(v, key@, gravity_id@),
            ));
        } else {
            assert(out.deep_view() =~= Seq::<ConfirmationV>::empty());
        }
    }
    Ok(out)
}

/// What a batch confirmation yields for the oldest unsigned batch, if the
/// destination chain reported one.
pub open spec fn spec_confirm_batches(bs: Seq<BatchTxV>, key: Seq<u8>, gid: Seq<u8>) -> Result<
    Seq<ConfirmationV>,
    GravityError,
> {
    if bs.len() == 0 {
        Ok(Seq::empty())
    } else if gid.len() > 32 {
        Err(GravityError::MalformedGravityId)
    } else if !valid_signing_key(key) {
        Err(GravityError::InvalidSigningKey)
    } else {
        Ok(bs.map_values(|b: BatchTxV| spec_confirm_batch(b, key, gid)))
    }
}

/// Builds one confirmation per unsigned transaction batch, in order.
#[verifier::loop_isolation(false)]
pub fn batch_tx_confirmation_messages(
    batches: &Vec<BatchTx>,
    key: &[u8; 32],
    gravity_id: &Vec<u8>,
) -> (r: Result<Vec<Confirmation>, GravityError>)
    ensures
        res_seq_view(r) == spec_confirm_batches(batches.deep_view(), key@, gravity_id@),
{
    let mut out: Vec<Confirmation> = Vec::new();
    let mut i: usize = 0;
    let ghost bs = batches.deep_view();
    let ghost f = |b: BatchTxV| spec_confirm_batch(b, key@, gravity_id@);
    while i < batches.len()
        invariant
            i <= batches.len(),
            i > 0 ==> gravity_id@.len() <= 32 && valid_signing_key(key@),
            out.deep_view() =~= bs.take(i as int).map_values(f),
        decreases batches.len() - i,
    {
        let b: &BatchTx = &batches[i];
        proof {
            assert(b@ == bs[i as int]);
        }
        let artifact = UnsignedArtifact::Batch(
            BatchTx {
                nonce: b.nonce,
                token_contract: b.token_contract.duplicate(),
                batch_timeout: b.batch_timeout,
            },
        );
        match confirm(&artifact, key, gravity_id) {
            Ok(c) => {
                let ghost pre = out.deep_view();
                out.push(c);
                proof {
                    assert(out.deep_view() =~= pre.push(c@));
                    assert(out.deep_view() =~= bs.take(i + 1).map_values(f));
                }
            },
            Err(e) => {
                return Err(e);
            },
        }
        i += 1;
    }
    proof {
        assert(bs.take(batches.len() as int) =~= bs);
        if batches.len() > 0 {
            assert(out.deep_view() =~= bs.map_values(
                |b: BatchTxV| spec_confirm_batch(b, key@, gravity_id@),
            ));
        } else {
            assert(out.deep_view() =~= Seq::<ConfirmationV>::empty());
        }
    }
    Ok(out)
}

/// What a batch of logic-call confirmations yields: each call signed in
/// order, the first failing call's error rejecting the batch.
pub open spec fn spec_confirm_logic_calls(
    cs: Seq<ContractCallTxV>,
    key: Seq<u8>,
    gid: Seq<u8>,
) -> Result<Seq<ConfirmationV>, GravityError>
    decreases cs.len(),
{
    if cs.len() == 0 {
        Ok(Seq::empty())
    } else {
        match spec_confirm_logic_calls(cs.drop_last(), key, gid) {
            Ok(s) => match spec_confirm(UnsignedArtifactV::ContractCall(cs.last()), key, gid) {
                Ok(c) => Ok(s.push(c)),
                Err(e) => Err(e),
            },
            Err(e) => Err(e),
        }
    }
}

pub proof fn lemma_confirm_logic_calls_err_extends(
    cs: Seq<ContractCallTxV>,
    key: Seq<u8>,
    gid: Seq<u8>,
    k: int,
)
    requires
        0 <= k <= cs.len(),
        spec_confirm_logic_calls(cs.take(k), key, gid) is Err,
    ensures
        spec_confirm_logic_calls(cs, key, gid) == spec_confirm_logic_calls(cs.take(k), key, gid),
    decreases cs.len() - k,
{
    if k < cs.len() {
        assert(cs.take(k + 1).drop_last() =~= cs.take(k));
        lemma_confirm_logic_calls_err_extends(cs, key, gid, k + 1);
    } else {
        assert(cs.take(k) =~= cs);
    }
}

/// Builds one confirmation per unsigned logic call, in order, stopping at
/// the first call that cannot be signed.
#[verifier::loop_isolation(false)]
pub fn contract_call_tx_confirmation_messages(
    logic_calls: &Vec<ContractCallTx>,
    key: &[u8; 32],
    gravity_id: &Vec<u8>,
) -> (r: Result<Vec<Confirmation>, GravityError>)
    ensures
        res_seq_view(r) == spec_confirm_logic_calls(logic_calls.deep_view(), key@, gravity_id@),
{
    let ghost cs = logic_calls.deep_view();
    let mut out: Vec<Confirmation> = Vec::new();
    let mut i: usize = 0;
    proof {
        assert(cs.take(0) =~= Seq::<ContractCallTxV>::empty());
        assert(out.deep_view() =~= Seq::<ConfirmationV>::empty());
    }
    while i < logic_calls.len()
        invariant
            i <= logic_calls.len(),
            spec_confirm_logic_calls(cs.take(i as int), key@, gravity_id@) == Ok::<
                Seq<ConfirmationV>,
                GravityError,
            >(out.deep_view()),
        decreases logic_calls.len() - i,
    {
        let c: &ContractCallTx = &logic_calls[i];
        proof {
            assert(c@ == cs[i as int]);
            assert(cs.take(i + 1).drop_last() =~= cs.take(i as int));
            assert(cs.take(i + 1).last() == cs[i as int]);
        }
        let artifact = UnsignedArtifact::ContractCall(
            ContractCallTx {
                invalidation_scope: copy_bytes(&c.invalidation_scope),
                invalidation_nonce: c.invalidation_nonce,
            },
        );
        match confirm(&artifact, key, gravity_id) {
            Ok(cf) => {
                let ghost pre = out.deep_view();
                out.push(cf);
                proof {
                    assert(out.deep_view() =~= pre.push(cf@));
                }
            },
            Err(e) => {
                proof {
                    assert(spec_confirm_logic_calls(cs.take(i + 1), key@, gravity_id@) is Err);
                    lemma_confirm_logic_calls_err_extends(cs, key@, gravity_id@, i + 1);
                }
                return Err(e);
            },
        }
        i += 1;
    }
    proof {
        assert(cs.take(logic_calls.len() as int) =~= cs);
    }
    Ok(out)
}

/// An equal, independently owned copy of a member list.
fn copy_members(ms: &Vec<crate::types::ValsetMember>) -> (r: Vec<crate::types::ValsetMember>)
    ensures
        r.deep_view() == ms.deep_view(),
{
    let mut r: Vec<crate::types::ValsetMember> = Vec::new();
    let mut j: usize = 0;
    proof {
        assert(r.deep_view() =~= ms.deep_view().take(0));
    }
    while j < ms.len()
        invariant
            j <= ms.len(),
            r.deep_view() == ms.deep_view().take(j as int),
        decreases ms.len() - j,
    {
        let m: &crate::types::ValsetMember = &ms[j];
        let ghost pre = r.deep_view();
        r.push(m.duplicate());
        proof {
            assert(m@ == ms.deep_view()[j as int]);
            assert(r.deep_view() =~= pre.push(m@));
            assert(ms.deep_view().take(j + 1) =~= pre.push(ms.deep_view()[j as int]));
        }
        j += 1;
    }
    proof {
        assert(ms.deep_view().take(ms.len() as int) =~= ms.deep_view());
    }
    r
}

} // verus!
