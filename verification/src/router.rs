pub mod amount_alert_router;
pub mod stock_router;
