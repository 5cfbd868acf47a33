//! Bitcoin Lightning bridge: invoices, BTC-denominated payment channels and
//! source-routed multi-hop payments.

pub mod invoice;
pub mod channel;
pub mod router;
pub mod swap;
