//! Tracks active bazaar orders, the cost lots of collected buys and the profit
//! that sells realize from them.

pub mod cooldown_laws;
pub mod item_key;
pub mod key_laws;
pub mod lot_laws;
pub mod lots;
pub mod order_laws;
pub mod orders;
pub mod performance;
pub mod planned;
pub mod profit_laws;
pub mod reconcile;
pub mod reconcile_laws;
pub mod records;
pub mod restore;
pub mod sell_laws;
pub mod selling;
pub mod snapshot;
pub mod snapshot_laws;
pub mod state;

pub use state::{BazaarOrderTracker, PlannedSell};
pub use item_key::{normalize_for_match, normalize_for_match_pub};
pub use records::{
    BazaarProfitAuditSnapshot, BuyCostLot, BuyCostLotUsage, CostBasisStatus, ItemPerformance,
    SellBlockReason, SellProfitAudit, SellProfitCheck, TrackedBazaarOrder,
};
