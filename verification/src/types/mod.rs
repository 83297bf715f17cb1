//! Identifiers, instants and the events that flow through the engine.

pub mod event;
pub mod order;
pub mod request;
pub mod trade;

pub use event::{
    BlockEvents, EventContext, ExchangeEvent, OrderContext, OrderEvent, RawBlockEvents, RawEvent,
    StateBlockEvents, StateEvent, StateEvents,
};
pub use order::{OrderSide, OrderType};
pub use request::{OrderDesc, OrderRequest, RequestType};
pub use trade::{MakerFill, Trade};

use vstd::prelude::*;

verus! {

/// ID of perpetual contract.
pub type PerpetualId = u32;

/// ID of exchange account.
pub type AccountId = u32;

/// Exchange internal ID of an order, unique only within one perpetual
/// contract at one point in time. Zero is the exchange's null order and never
/// names an order.
pub type OrderId = u16;

/// Order request ID, assigned by the client.
pub type RequestId = u64;

/// Hash of a transaction, as two halves of sixteen bytes each.
#[derive(Clone, Copy, Debug, PartialEq, Eq, Structural, Hash)]
pub struct TxHash {
    pub high: u128,
    pub low: u128,
}

impl TxHash {
    pub fn new(high: u128, low: u128) -> (r: TxHash)
        ensures
            r == (TxHash { high, low }),
    {
        TxHash { high, low }
    }

    /// The hash of all zero bytes.
    pub fn zero() -> (r: TxHash)
        ensures
            r == (TxHash { high: 0, low: 0 }),
    {
        TxHash { high: 0, low: 0 }
    }
}

/// Address of an account or a contract: its leading four bytes and the
/// sixteen bytes that follow.
#[derive(Clone, Copy, Debug, PartialEq, Eq, Structural, Hash)]
pub struct Address {
    pub high: u32,
    pub low: u128,
}

impl Address {
    pub fn new(high: u32, low: u128) -> (r: Address)
        ensures
            r == (Address { high, low }),
    {
        Address { high, low }
    }

    /// The address of all zero bytes, which stands for "not known".
    pub open spec fn spec_zero() -> Address {
        Address { high: 0, low: 0 }
    }

    /// The address of all zero bytes, which stands for "not known".
    #[verifier::when_used_as_spec(spec_zero)]
    pub fn zero() -> (r: Address)
        ensures
            r == Address::spec_zero(),
    {
        Address { high: 0, low: 0 }
    }

    pub fn is_zero(&self) -> (r: bool)
        ensures
            r == (*self == Address::spec_zero()),
    {
        self.high == 0 && self.low == 0
    }
}

/// Account address or ID.
#[derive(Clone, Copy, Debug, PartialEq, Eq, Structural)]
pub enum AccountAddressOrID {
    Address(Address),
    ID(AccountId),
}

/// The address that `alloy` reads from a text, if it reads one.
pub uninterp spec fn alloy_address(text: Seq<char>) -> Option<Address>;

/// Calls `alloy::primitives::Address::from_str`, which reads an address
/// from forty hexadecimal digits with or without a leading `0x`, and splits
/// the twenty bytes into the leading four and the sixteen that follow. The
/// contract claims only that the result depends on nothing but the text.
#[verifier::external_body]
fn address_from_text(text: &str) -> (r: Option<Address>)
    ensures
        r == alloy_address(text@),
{
    match <alloy::primitives::Address as std::str::FromStr>::from_str(text) {
        Ok(address) => {
            let bytes = address.into_array();
            let (high, low) = bytes.split_at(4);
            Some(
                Address {
                    high: u32::from_be_bytes(high.try_into().unwrap_or([0; 4])),
                    low: u128::from_be_bytes(low.try_into().unwrap_or([0; 16])),
                },
            )
        },
        Err(_) => None,
    }
}

/// The value of a decimal digit.
pub open spec fn digit_value(c: char) -> Option<nat> {
    if '0' <= c <= '9' {
        Some((c as u32 - '0' as u32) as nat)
    } else {
        None
    }
}

/// The number that a text of decimal digits writes; none for a text that is
/// empty or holds anything but digits.
pub open spec fn decimal_value(text: Seq<char>) -> Option<nat>
    decreases text.len(),
{
    if text.len() == 0 {
        None
    } else if text.len() == 1 {
        digit_value(text[0])
    } else {
        match (decimal_value(text.drop_last()), digit_value(text.last())) {
            (Some(v), Some(d)) => Some(10 * v + d),
            _ => None,
        }
    }
}

/// The account ID that a text writes: one to ten decimal digits whose
/// number fits into 32 bits.
pub open spec fn spec_account_id(text: Seq<char>) -> Option<u32> {
    if 1 <= text.len() <= 10 {
        match decimal_value(text) {
            Some(v) => if v <= u32::MAX {
                Some(v as u32)
            } else {
                None
            },
            None => None,
        }
    } else {
        None
    }
}

/// A text writes no number if a part of it from the start writes none.
pub proof fn lemma_decimal_value_none(text: Seq<char>, i: int)
    requires
        1 <= i <= text.len(),
        decimal_value(text.take(i)) is None,
    ensures
        decimal_value(text) is None,
    decreases text.len() - i,
{
    if i < text.len() {
        assert(text.take(i + 1).drop_last() =~= text.take(i));
        lemma_decimal_value_none(text, i + 1);
    } else {
        assert(text.take(i) =~= text);
    }
}

/// The account ID that a text writes: one to ten decimal digits whose
/// number fits into 32 bits.
pub fn account_id_from_text(text: &str) -> (r: Option<u32>)
    ensures
        r == spec_account_id(text@),
{
    let n = text.unicode_len();
    if n == 0 || n > 10 {
        return None;
    }
    let mut value: u64 = 0;
    let mut i: usize = 0;
    while i < n
        invariant
            0 <= i <= n <= 10,
            n == text@.len(),
            i == 0 ==> value == 0,
            i > 0 ==> decimal_value(text@.take(i as int)) == Some(value as nat),
            value < crate::num::pow10(i as nat),
        decreases n - i,
    {
        let c = text.get_char(i);
        proof {
            assert(text@.take(i + 1).drop_last() =~= text@.take(i as int));
            assert(text@.take(i + 1).last() == text@[i as int]);
            crate::num::lemma_pow10_monotonic((i + 1) as nat, 10);
            assert(crate::num::pow10(10) == 10000000000) by {
                reveal_with_fuel(crate::num::pow10, 11);
            }
            if i == 0 {
                assert(text@.take(1)[0] == text@[0]);
                assert(crate::num::pow10(1) == 10) by {
                    reveal_with_fuel(crate::num::pow10, 2);
                }
            }
        }
        if !(c >= '0' && c <= '9') {
            proof {
                lemma_decimal_value_none(text@, i + 1);
            }
            return None;
        }
        value = value * 10 + ((c as u32 - '0' as u32) as u64);
        i = i + 1;
    }
    proof {
        assert(text@.take(n as int) =~= text@);
    }
    if value <= 4294967295u64 {
        Some(value as u32)
    } else {
        None
    }
}

impl AccountAddressOrID {
    /// What a text names: an address if `address` was read from it, else an
    /// ID if `id` was read from it, else nothing.
    pub open spec fn spec_of_parts(address: Option<Address>, id: Option<u32>) -> Result<
        AccountAddressOrID,
        crate::error::DexError,
    > {
        match address {
            Some(a) => Ok(AccountAddressOrID::Address(a)),
            None => match id {
                Some(i) => Ok(AccountAddressOrID::ID(i)),
                None => Err(crate::error::DexError::InvalidArgument),
            },
        }
    }

    /// What a text names, given what was read from it as an address and as
    /// an ID: the address comes first.
    pub fn of_parts(address: Option<Address>, id: Option<u32>) -> (r: Result<
        AccountAddressOrID,
        crate::error::DexError,
    >)
        ensures
            r == AccountAddressOrID::spec_of_parts(address, id),
    {
        match address {
            Some(a) => Ok(AccountAddressOrID::Address(a)),
            None => match id {
                Some(i) => Ok(AccountAddressOrID::ID(i)),
                None => Err(crate::error::DexError::InvalidArgument),
            },
        }
    }

    /// The account that a text names: by its address if the text is one,
    /// else by its ID if the text is a number of one to ten decimal digits
    /// that fits into 32 bits; any other text is an invalid argument.
    pub fn from_text(text: &str) -> (r: Result<AccountAddressOrID, crate::error::DexError>)
        ensures
            r == AccountAddressOrID::spec_of_parts(alloy_address(text@), spec_account_id(text@)),
    {
        AccountAddressOrID::of_parts(address_from_text(text), account_id_from_text(text))
    }
}

/// Instant in chain history the state/event is up to date with.
#[derive(Clone, Copy, Debug, PartialEq, PartialOrd, Eq, Ord, Hash, Structural)]
pub struct StateInstant {
    pub block_number: u64,
    pub block_timestamp: u64,
}

impl StateInstant {
    pub fn new(block_number: u64, block_timestamp: u64) -> (r: StateInstant)
        ensures
            r.block_number == block_number,
            r.block_timestamp == block_timestamp,
    {
        StateInstant { block_number, block_timestamp }
    }

    pub fn block_number(&self) -> (r: u64)
        ensures
            r == self.block_number,
    {
        self.block_number
    }

    pub fn block_timestamp(&self) -> (r: u64)
        ensures
            r == self.block_timestamp,
    {
        self.block_timestamp
    }

    /// The instant of the following block: one block later, with the
    /// timestamp left as it is.
    pub open spec fn spec_next(&self) -> StateInstant {
        StateInstant {
            block_number: (self.block_number + 1) as u64,
            block_timestamp: self.block_timestamp,
        }
    }

    /// The instant of the following block: one block later, with the
    /// timestamp left as it is.
    pub fn next(&self) -> (r: StateInstant)
        requires
            self.block_number < u64::MAX,
        ensures
            r == self.spec_next(),
            r.block_number == self.block_number + 1,
            r.block_timestamp == self.block_timestamp,
    {
        StateInstant { block_number: self.block_number + 1, block_timestamp: self.block_timestamp }
    }

    /// Whether this instant lies in an earlier block than `other`.
    pub fn is_before(&self, other: &StateInstant) -> (r: bool)
        ensures
            r == (self.block_number < other.block_number),
    {
        self.block_number < other.block_number
    }
}

impl Default for StateInstant {
    fn default() -> (r: StateInstant)
        ensures
            r == (StateInstant { block_number: 0, block_timestamp: 0 }),
    {
        StateInstant { block_number: 0, block_timestamp: 0 }
    }
}

} // verus!
