//! Verified core of an asynchronous task toolkit built on Tokio channels:
//! identified channels, a publish/subscribe dispatch center, and the
//! bookkeeping of task forges and task pools.

pub mod mpsc;
pub mod smart_channel;
pub mod channel_table;
pub mod error;
pub mod message_interface;
pub mod dispatch_center;
pub mod task_book;
pub mod forge_error;
pub mod task_forge;
pub mod task_pool;
pub mod writing_handler;
