//! Shared data model: addresses, raw logs, artifacts fetched from the
//! destination chain, and view helpers.

use vstd::prelude::*;
use crate::bytesutil::copy_bytes;
use crate::error::GravityError;

verus! {

/// A `Result` seen at the specification level: the payload replaced by its
/// view, the error kept as is.
pub open spec fn res_view<T: View, E>(r: Result<T, E>) -> Result<T::V, E> {
    match r {
        Ok(t) => Ok(t@),
        Err(e) => Err(e),
    }
}

/// A `Result` over a vector, seen at the specification level element by
/// element.
pub open spec fn res_seq_view<T: DeepView, E>(r: Result<Vec<T>, E>) -> Result<
    Seq<T::V>,
    E,
> {
    match r {
        Ok(t) => Ok(t.deep_view()),
        Err(e) => Err(e),
    }
}

/// A 20-byte account address of the external chain.
#[derive(Debug, Clone, PartialEq, Eq)]
pub struct EthAddr {
    pub bytes: Vec<u8>,
}

impl View for EthAddr {
    type V = Seq<u8>;

    open spec fn view(&self) -> Seq<u8> {
        self.bytes@
    }
}

impl DeepView for EthAddr {
    type V = Seq<u8>;

    open spec fn deep_view(&self) -> Seq<u8> {
        self.bytes@
    }
}

impl EthAddr {
    /// A well-formed address holds exactly 20 bytes.
    pub open spec fn wf(&self) -> bool {
        self@.len() == 20
    }

    /// The address stored in the last 20 bytes of the 32-byte word starting
    /// at `word_start`, with the 12-byte left pad stripped.
    pub fn from_word(data: &Vec<u8>, word_start: usize) -> (r: EthAddr)
        requires
            word_start + 32 <= data@.len(),
        ensures
            r@ == data@.subrange(word_start + 12, word_start + 32),
            r.wf(),
    {
        let n = data.len();
        assert(word_start + 32 <= n);
        EthAddr { bytes: crate::bytesutil::copy_range(data, word_start + 12, word_start + 32) }
    }

    /// An equal, independently owned copy.
    pub fn duplicate(&self) -> (r: EthAddr)
        ensures
            r@ == self@,
    {
        EthAddr { bytes: copy_bytes(&self.bytes) }
    }
}

/// One member of a validator set: a voting power and a signing address.
#[derive(Debug, Clone, PartialEq, Eq)]
pub struct ValsetMember {
    pub power: u64,
    pub eth_address: EthAddr,
}

pub struct ValsetMemberV {
    pub power: u64,
    pub eth_address: Seq<u8>,
}

impl View for ValsetMember {
    type V = ValsetMemberV;

    open spec fn view(&self) -> ValsetMemberV {
        ValsetMemberV { power: self.power, eth_address: self.eth_address@ }
    }
}

impl DeepView for ValsetMember {
    type V = ValsetMemberV;

    open spec fn deep_view(&self) -> ValsetMemberV {
        self@
    }
}

impl ValsetMember {
    pub fn duplicate(&self) -> (r: ValsetMember)
        ensures
            r@ == self@,
    {
        ValsetMember { power: self.power, eth_address: self.eth_address.duplicate() }
    }
}

/// A raw log record as the external chain's RPC surface reports it: the
/// ordered 32-byte indexed topics, the opaque data payload, and the block
/// and transaction it was found in.
#[derive(Debug, Clone, PartialEq, Eq)]
pub struct RawLog {
    pub topics: Vec<Vec<u8>>,
    pub data: Vec<u8>,
    pub block_number: Option<u64>,
    pub transaction_hash: Option<Vec<u8>>,
}

pub struct RawLogV {
    pub topics: Seq<Seq<u8>>,
    pub data: Seq<u8>,
    pub block_number: Option<u64>,
    pub transaction_hash: Option<Seq<u8>>,
}

impl View for RawLog {
    type V = RawLogV;

    open spec fn view(&self) -> RawLogV {
        RawLogV {
            topics: self.topics.deep_view(),
            data: self.data@,
            block_number: self.block_number,
            transaction_hash: self.transaction_hash.deep_view(),
        }
    }
}

impl DeepView for RawLog {
    type V = RawLogV;

    open spec fn deep_view(&self) -> RawLogV {
        self@
    }
}

/// What the two extra transaction-level queries recover for a batch
/// execution: the gas price and gas used, whose product is the fee paid,
/// and the sending address that paid it.
#[derive(Debug, Clone, PartialEq, Eq)]
pub struct BatchTxInfo {
    pub gas_price: u64,
    pub gas_used: u64,
    pub fee_payer: EthAddr,
}

pub struct BatchTxInfoV {
    pub gas_price: u64,
    pub gas_used: u64,
    pub fee_payer: Seq<u8>,
}

impl View for BatchTxInfo {
    type V = BatchTxInfoV;

    open spec fn view(&self) -> BatchTxInfoV {
        BatchTxInfoV {
            gas_price: self.gas_price,
            gas_used: self.gas_used,
            fee_payer: self.fee_payer@,
        }
    }
}

impl DeepView for BatchTxInfo {
    type V = BatchTxInfoV;

    open spec fn deep_view(&self) -> BatchTxInfoV {
        self@
    }
}

/// Whether every character is a decimal digit.
pub open spec fn is_dec_digits(s: Seq<char>) -> bool {
    forall|i: int| 0 <= i < s.len() ==> '0' <= #[trigger] s[i] <= '9'
}

/// The value of a decimal digit string.
pub open spec fn dec_nat(s: Seq<char>) -> nat
    recommends
        is_dec_digits(s),
    decreases s.len(),
{
    if s.len() == 0 {
        0
    } else {
        (dec_nat(s.drop_last()) * 10 + (s.last() as int - '0' as int)) as nat
    }
}

/// Relies on `num256::Uint256`: a decimal string (or a `0x`-prefixed
/// hexadecimal one) parsed into a 256-bit integer and returned as its 32
/// big-endian bytes through `to_be_bytes`.  A non-empty all-digit string
/// whose value fits 256 bits always parses to that value.
#[verifier::external_body]
fn parse_u256_str(s: &str) -> (r: Option<Vec<u8>>)
    ensures
        r matches Some(v) ==> v@.len() == 32,
        r is None ==> !(s@.len() > 0 && is_dec_digits(s@) && dec_nat(s@)
            < crate::bytesutil::pow256(32)),
        r matches Some(v) ==> ((s@.len() > 0 && is_dec_digits(s@) && dec_nat(s@)
            < crate::bytesutil::pow256(32)) ==> crate::bytesutil::be_nat(v@) == dec_nat(s@)),
{
    match s.parse::<num256::Uint256>() {
        Ok(u) => Some(u.to_be_bytes().to_vec()),
        Err(_) => None,
    }
}

/// Relies on `clarity::Address::parse_and_validate`: a hexadecimal
/// address string accepted only with a correct mixed-case checksum, its 20
/// address bytes returned through `as_bytes`.
#[verifier::external_body]
fn parse_checksummed_address(s: &str) -> (r: Option<Vec<u8>>)
    ensures
        r matches Some(v) ==> v@.len() == 20,
{
    match clarity::Address::parse_and_validate(s) {
        Ok(a) => Some(a.as_bytes().to_vec()),
        Err(_) => None,
    }
}

/// A token amount paired with the token contract it lives in, as the
/// destination chain's records describe an external token.
#[derive(Debug, Clone, PartialEq, Eq)]
pub struct Erc20Token {
    pub amount: Vec<u8>,
    pub token_contract_address: EthAddr,
}

pub struct Erc20TokenV {
    pub amount: Seq<u8>,
    pub token_contract_address: Seq<u8>,
}

impl View for Erc20Token {
    type V = Erc20TokenV;

    open spec fn view(&self) -> Erc20TokenV {
        Erc20TokenV {
            amount: self.amount@,
            token_contract_address: self.token_contract_address@,
        }
    }
}

impl Erc20Token {
    /// Parses a token record off the wire: a decimal amount and a
    /// checksummed hexadecimal contract identifier.
    pub fn from_proto(amount: &str, external_token_id: &str) -> (r: Result<
        Erc20Token,
        GravityError,
    >)
        ensures
            r matches Ok(t) ==> t.amount@.len() == 32 && t.token_contract_address.wf(),
            r matches Ok(t) ==> ((amount@.len() > 0 && is_dec_digits(amount@) && dec_nat(
                amount@,
            ) < crate::bytesutil::pow256(32)) ==> crate::bytesutil::be_nat(t.amount@) == dec_nat(
                amount@,
            )),
            r matches Err(e) ==> e == GravityError::MalformedTokenData,
    {
        let amount_bytes = match parse_u256_str(amount) {
            Some(v) => v,
            None => {
                return Err(GravityError::MalformedTokenData);
            },
        };
        let addr_bytes = match parse_checksummed_address(external_token_id) {
            Some(v) => v,
            None => {
                return Err(GravityError::MalformedTokenData);
            },
        };
        Ok(
            Erc20Token {
                amount: amount_bytes,
                token_contract_address: EthAddr { bytes: addr_bytes },
            },
        )
    }
}

/// Liveness of the destination chain, as its status query reports it.
#[derive(Clone, Copy, Debug, PartialEq, Eq, Structural)]
pub enum ChainStatus {
    Moving { block_height: u64 },
    Syncing,
    WaitingToStart,
}

/// An unsigned validator-set update the destination chain asks this
/// validator to co-sign.
#[derive(Debug, Clone, PartialEq, Eq)]
pub struct SignerSetTx {
    pub nonce: u64,
    pub members: Vec<ValsetMember>,
}

pub struct SignerSetTxV {
    pub nonce: u64,
    pub members: Seq<ValsetMemberV>,
}

impl View for SignerSetTx {
    type V = SignerSetTxV;

    open spec fn view(&self) -> SignerSetTxV {
        SignerSetTxV { nonce: self.nonce, members: self.members.deep_view() }
    }
}

impl DeepView for SignerSetTx {
    type V = SignerSetTxV;

    open spec fn deep_view(&self) -> SignerSetTxV {
        self@
    }
}

/// An unsigned batch of outbound transfers, identified by its nonce and the
/// token contract it pays out.
#[derive(Debug, Clone, PartialEq, Eq)]
pub struct BatchTx {
    pub nonce: u64,
    pub token_contract: EthAddr,
    pub batch_timeout: u64,
}

pub struct BatchTxV {
    pub nonce: u64,
    pub token_contract: Seq<u8>,
    pub batch_timeout: u64,
}

impl View for BatchTx {
    type V = BatchTxV;

    open spec fn view(&self) -> BatchTxV {
        BatchTxV {
            nonce: self.nonce,
            token_contract: self.token_contract@,
            batch_timeout: self.batch_timeout,
        }
    }
}

impl DeepView for BatchTx {
    type V = BatchTxV;

    open spec fn deep_view(&self) -> BatchTxV {
        self@
    }
}

/// An unsigned arbitrary contract call, identified by its invalidation
/// scope and invalidation nonce.
#[derive(Debug, Clone, PartialEq, Eq)]
pub struct ContractCallTx {
    pub invalidation_scope: Vec<u8>,
    pub invalidation_nonce: u64,
}

pub struct ContractCallTxV {
    pub invalidation_scope: Seq<u8>,
    pub invalidation_nonce: u64,
}

impl View for ContractCallTx {
    type V = ContractCallTxV;

    open spec fn view(&self) -> ContractCallTxV {
        ContractCallTxV {
            invalidation_scope: self.invalidation_scope@,
            invalidation_nonce: self.invalidation_nonce,
        }
    }
}

impl DeepView for ContractCallTx {
    type V = ContractCallTxV;

    open spec fn deep_view(&self) -> ContractCallTxV {
        self@
    }
}

} // verus!
