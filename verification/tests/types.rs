use perpl_sdk::error::DexError;
use perpl_sdk::num::Decimal;
use perpl_sdk::state::{Order, OrderBook};
use perpl_sdk::types::{AccountAddressOrID, Address, OrderSide, OrderType, StateInstant};

#[test]
fn order_type_sides() {
    assert_eq!(OrderType::OpenLong.side(), OrderSide::Bid);
    assert_eq!(OrderType::CloseShort.side(), OrderSide::Bid);
    assert_eq!(OrderType::OpenShort.side(), OrderSide::Ask);
    assert_eq!(OrderType::CloseLong.side(), OrderSide::Ask);
}

#[test]
fn order_side_opposite() {
    assert_eq!(OrderSide::Ask.opposite(), OrderSide::Bid);
    assert_eq!(OrderSide::Bid.opposite(), OrderSide::Ask);
}

#[test]
fn state_instant_next_keeps_timestamp() {
    let instant = StateInstant::new(41, 1_700_000_000);
    let next = instant.next();
    assert_eq!(next.block_number(), 42);
    assert_eq!(next.block_timestamp(), 1_700_000_000);
    assert!(instant < next);
}

#[test]
fn account_is_named_by_address_or_id() {
    assert_eq!(
        AccountAddressOrID::from_text("0xa9012a055bd4e0eDfF8Ce09f960291C09D5322dC"),
        Ok(AccountAddressOrID::Address(Address::new(0xa9012a05, 0x5bd4e0edff8ce09f960291c09d5322dc)))
    );
    assert_eq!(AccountAddressOrID::from_text("42"), Ok(AccountAddressOrID::ID(42)));
    assert_eq!(AccountAddressOrID::from_text("0"), Ok(AccountAddressOrID::ID(0)));
    assert_eq!(AccountAddressOrID::from_text("forty-two"), Err(DexError::InvalidArgument));
    assert_eq!(AccountAddressOrID::from_text(""), Err(DexError::InvalidArgument));
    assert_eq!(AccountAddressOrID::from_text("4294967296"), Err(DexError::InvalidArgument));
    assert_eq!(AccountAddressOrID::from_text("0x12"), Err(DexError::InvalidArgument));
    assert_eq!(AccountAddressOrID::from_text("4294967295"), Ok(AccountAddressOrID::ID(u32::MAX)));
    assert_eq!(AccountAddressOrID::from_text("0000000007"), Ok(AccountAddressOrID::ID(7)));
    assert_eq!(AccountAddressOrID::from_text("00000000007"), Err(DexError::InvalidArgument));
    assert_eq!(AccountAddressOrID::from_text("+7"), Err(DexError::InvalidArgument));
    assert_eq!(AccountAddressOrID::from_text("7 "), Err(DexError::InvalidArgument));
    assert_eq!(AccountAddressOrID::from_text("١٢"), Err(DexError::InvalidArgument));
    // the address comes first, the number second
    assert_eq!(
        AccountAddressOrID::of_parts(Some(Address::zero()), Some(1)),
        Ok(AccountAddressOrID::Address(Address::zero()))
    );
    assert_eq!(AccountAddressOrID::of_parts(None, Some(1)), Ok(AccountAddressOrID::ID(1)));
    assert_eq!(AccountAddressOrID::of_parts(None, None), Err(DexError::InvalidArgument));
}

#[test]
fn order_listing_by_id() {
    let mut book = OrderBook::new();
    for id in [9u16, 2, 5] {
        book.add_order(Order::for_l3_testing(OrderType::OpenLong, Decimal::from_integer(id as u64), Decimal::from_integer(1), 1, id, 0)).unwrap();
    }
    let ids: Vec<u16> = book.orders().iter().map(|o| o.order_id()).collect();
    assert_eq!(ids, vec![2, 5, 9]);
    assert_eq!(book.capacity(), 10);
}
