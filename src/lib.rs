//! Plain-value core of the Android binding of the resource index: the resource
//! metadata model and its managed-object layout, the in-memory index table,
//! preview bitmap packing, link records and the error-to-exception policy.

pub mod time;
pub mod text;
pub mod meta;
pub mod index;
pub mod preview;
pub mod errors;
pub mod link;
