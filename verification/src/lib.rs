pub mod assoc;
pub mod binance;
pub mod bybit;
pub mod calendar;
pub mod error;
pub mod gap;
pub mod hyperliquid;
pub mod json;
pub mod normalize;
pub mod record;
pub mod rotate;
pub mod session;
pub mod subscribe;
pub mod text;
