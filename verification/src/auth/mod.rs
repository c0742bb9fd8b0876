pub mod authenticator;
pub mod utils;
