//! A message relay between many end users and one staff space: the mapping of users to
//! their dedicated threads, the correlation of relayed messages, per-user notes and the
//! info card that shows them.

pub mod text;
pub mod entities;
pub mod store;
pub mod localization;
pub mod relay;
pub mod staff;
pub mod builder;
