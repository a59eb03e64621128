//! Raw generic block-device (SCSI generic) pass-through commands.
//!
//! A [`Task`] describes one device command: its command-descriptor-block
//! bytes, an optional transfer buffer with a direction, an optional sense
//! buffer, a timeout, flags and an opaque user tag.  A [`Device`] is an open
//! handle to a device node through which tasks are dispatched, either in
//! asynchronous batches (`send` / `receive`) or, with the help of unverified
//! glue around the blocking control call, one at a time.
//!
//! While a task is in flight the kernel holds the raw addresses of its
//! buffers, so those buffers must stay at stable addresses and untouched
//! until the completion is reaped.  The device therefore takes ownership of
//! each submitted task and hands it back only when its completion arrives.

pub mod device;
pub mod sys;
pub mod task;
pub mod wire;

pub use device::Device;
pub use device::SgError;
pub use task::Direction;
pub use task::Task;
