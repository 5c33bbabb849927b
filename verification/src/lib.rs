//! Dispatch and movement scheduling for elevator cars serving a fixed set of
//! floors, built around a two-queue directional-sweep policy: each car keeps
//! an active queue, sorted for its direction of travel and drained one floor
//! per step, and a return queue for the opposite direction, swapped in and
//! sorted when the active sweep completes. Every operation carries a
//! contract; the worker loop and process glue around the library stay
//! outside it.

pub mod queue;
pub mod scheduler;
pub mod types;

pub use queue::add_to_queue;
pub use queue::sort_queue;
pub use scheduler::Elevator;
pub use types::ElevatorDirection;
pub use types::Floor;
pub use types::Message;
pub use types::Order;
