pub mod correlation;
pub mod lifecycle;
pub mod monitor;
pub mod polling;
pub mod record;
pub mod table;
