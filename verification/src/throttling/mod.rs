pub mod rate_limiting;
pub mod utils;
