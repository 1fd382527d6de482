//! Order books rebuilt from Moscow Exchange order logs.
//!
//! The library parses the comma-separated lines of equity and derivative
//! order logs, keeps the resting limit orders of one instrument in price
//! levels ordered by price, and applies additions, cancellations and trades.

mod action;
mod asset_class;
mod decimal;
mod derivative_order_log;
mod derivative_type;
mod equity_order_log;
mod levels;
mod market;
mod order_book;
mod order_book_id;
mod order_log;
mod order_log_trait;
mod parse;
mod price;
mod side;
mod text;
mod time;
mod trade_log;

pub use action::Action;
pub use asset_class::AssetClass;
pub use decimal::{Decimal, DecimalOrder};
pub use derivative_order_log::DerivativeOrderLog;
pub use derivative_type::DerivativeType;
pub use equity_order_log::EquityOrderLog;
pub use market::{Market, OrderBook};
pub use order_book::{MoexOrderBook, OrderStack};
pub use order_book_id::OrderBookId;
pub use order_log::OrderLog;
pub use order_log_trait::MoexOrderLog;
pub use parse::ParseOutcome;
pub use price::Price;
pub use side::Side;
pub use time::{DateTime, TimeOfDay};
pub use trade_log::TradeLog;
