//! A minimal, single-owner state container.
//!
//! A [`Store`] holds one state value. The value changes only when an action is
//! dispatched through the store's reducer, and every registered observer is
//! notified with the new value before `dispatch` returns.

pub mod store;
pub mod subscription;
pub mod laws;

pub use store::Store;
pub use subscription::{SubscriptionToken, UnsubscribeError};
