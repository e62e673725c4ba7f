//! A pool of reusable items that blocks a taker until an item is free.
//!
//! A [`Pool`] is built from a fixed stock of items. [`Pool::take`] hands out the
//! item that has waited longest and blocks while none is free; the
//! [`Returnable`] it returns gives the item back when it goes out of scope.
//!
//! The crate has four parts:
//!
//! * [`queue`]: the first-in, first-out queue of free items, as it stands
//!   under the pool's lock;
//! * [`custody`]: a model of where every item of a pool is at any moment, and
//!   the laws that hold of it however takers and handles interleave;
//! * [`sync`]: what is taken on trust from `std::sync`;
//! * [`pool`]: the pool and its handles.

pub mod custody;
pub mod pool;
pub mod queue;
pub mod sync;

pub use pool::{Pool, Returnable};
pub use queue::Queue;
