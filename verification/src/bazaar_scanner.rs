//! Local bazaar flip scanner: ranks live bazaar products by risk-adjusted
//! coins per hour.

pub mod config;
pub mod flip_laws;
pub mod flips;
pub mod history;
pub mod item_tags;
pub mod limit_laws;
pub mod limits;
pub mod market;
pub mod market_laws;
pub mod risk;
pub mod scan;
pub mod scan_laws;
pub mod scoring;
pub mod scoring_laws;
pub mod screening;
pub mod screening_laws;

pub use config::LocalBazaarScanConfig;
pub use flips::LocalBazaarFlip;
pub use history::{history_factors, relative_deviation, MarketHistory, MarketSnapshot};
pub use item_tags::{
    gemstone_tag_to_name, is_local_order_search_supported, item_tag_to_name, title_case_tag,
};
pub use limits::{
    evaluate_position_limits, should_reprice, should_reprice_sell, CandidateDecision,
    RepriceDecision,
};
pub use market::{
    depth_metrics, product_quote, product_quotes, BazaarProduct, BazaarProductQuote,
    BazaarResponse, DepthMetrics, MarketUnavailable, OrderBookLevel, QuickStatus,
};
pub use risk::{
    bump, recommendation_for, risk_level_for, tally_reasons, Recommendation, RejectReason, RiskLevel,
};
pub use scan::{
    active_capital, best_flips, blocked_scan, fit_budget, has_usable_reserve, rank_flips,
    summarize_scan, ScanReport, ScanSummary,
};
pub use scoring::{practical_score, PracticalItemMetrics, PracticalScoreBreakdown};
pub use screening::{product_figures, screen_product, ProductFigures};
