//! Self-updating loader core: the lifecycle of the cooperative task
//! dispatcher, the update decisions for each target, the staged swap
//! protocol over a model of the file tree, and archive path safety.

pub mod paths;
pub mod swap;
pub mod release;
pub mod archive;
pub mod scheduler;
pub mod platform;
pub mod loader;
pub mod session;
pub mod target;
