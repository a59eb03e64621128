//! Constants of the Linux SCSI-generic driver ABI.
//!
//! The values are fixed by the kernel's device-driver interface: the layout
//! of its request/response header, the control-call code, the transfer
//! direction codes and the queue depth.  They are reproduced here so that
//! the wire header can be laid out byte for byte.

use vstd::prelude::*;

verus! {

/// Control-call code of the synchronous single-command path.
pub const SG_IO: u32 = 0x2285;

/// The queue depth of the driver: the most commands one batched
/// submission or reap can carry.
pub const SG_MAX_QUEUE: u32 = 16;

/// Flag asking the driver to queue the command at the tail of its queue.
pub const SG_FLAG_Q_AT_TAIL: u32 = 0x10;

/// Transfer direction code: no transfer.
pub const SG_DXFER_NONE: i32 = -1;

/// Transfer direction code: host to device.
pub const SG_DXFER_TO_DEV: i32 = -2;

/// Transfer direction code: device to host.
pub const SG_DXFER_FROM_DEV: i32 = -3;

/// Transfer direction code: both directions.
pub const SG_DXFER_TO_FROM_DEV: i32 = -4;

/// Mask selecting the outcome sub-field of the completion info word.
pub const SG_INFO_OK_MASK: u32 = 0x1;

/// Outcome code of a command that completed normally.
pub const SG_INFO_OK: u32 = 0x0;

/// Size in bytes of the fixed-layout wire header on 64-bit platforms.
pub const HEADER_SIZE: usize = 88;

/// The interface-identifier tag every header must carry; the byte value of
/// the letter `S`.
pub const SG_INTERFACE_ID: i32 = 83;

} // verus!
