//! What the middleware shipped with the framework decides; the host runs
//! it around `next`.

pub mod body_limit;
pub mod catch_panic;
pub mod cookie;
pub mod csrf;
pub mod logging;
pub mod session;
