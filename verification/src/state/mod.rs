//! The replica's state: orders, books, positions, accounts, perpetual
//! contracts and the exchange that holds them.

pub mod account;
pub mod apply;
pub mod block;
pub mod exchange;
pub mod keyed;
pub mod l3_book;
pub mod order;
pub mod perpetual;
pub mod position;
pub mod sizes;
pub mod snapshot;
pub mod transition;
pub mod watch;

pub use account::{Account, AccountInfo, AccountModel};
pub use exchange::{Exchange, TxScratch};
pub use l3_book::{
    BookError, BookLevel, BookModel, BookOrder, LevelView, OrderBook, OrderBookView,
};
pub use order::{Order, OrderParseError, SnapshotOrder};
pub use perpetual::{PerpModel, Perpetual, PerpetualInfo, PerpetualState};
pub use position::{Position, PositionInfo, PositionType};
pub use snapshot::{perpetuals_with_position, Bank, PositionBitMap};
pub use transition::{ExchangeModel, ExchangeState, PendingFill};
