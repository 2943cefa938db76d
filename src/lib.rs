//! Feed subscriptions, a ledger of seen entries, and the polling logic that
//! decides which entries are new and what notification each one gets.
pub mod fetch;
pub mod laws;
pub mod model;
pub mod page;
pub mod store;

pub use fetch::{parse_channel, read_response, FetchError};
pub use model::{Channel, Feed, Item, MalformedEntry, RawEntry};
pub use page::render;
pub use store::{AlreadyExists, Store, SubscribeResult};
