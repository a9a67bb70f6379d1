//! A memory-window abstraction for one-sided (remote-memory-access)
//! communication between cooperating processes: window lifecycle and
//! ownership, remote get/put transfers with explicit range checking, and
//! the three epoch protocols (collective fence, generalized active-target
//! post/start/complete/wait, and passive-target per-rank locking) as
//! verified state machines.

pub mod errors;
pub mod model;
pub mod laws;
mod state;
pub mod window;

pub use errors::RmaError;
pub use window::AllocatedWindow;
pub use window::Communication;
pub use window::CreatedWindow;
pub use window::Group;
pub use window::Rank;
pub use window::Synchronization;
