//! What the operations are for, said of their inputs and results.

pub mod authority;
pub mod bits;
pub mod cluster;
pub mod dispatch;
pub mod placement;
pub mod routing;
pub mod sessions;
pub mod stream;
pub mod views;
pub mod wire;
