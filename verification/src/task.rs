//! One device command: its request fields, its buffers and, after
//! completion, the result fields the kernel wrote back.

use vstd::prelude::*;

use crate::sys;
use crate::wire::{
    push_u16_le, push_u32_le, push_u64_le, read_u16_le, read_u32_le, u16_from_le, u16_le,
    u32_from_le, u32_le, u64_le,
};

verus! {

/// Transfer direction of a command's data buffer.
#[derive(Clone, Copy, Debug, PartialEq, Eq, Structural)]
pub enum Direction {
    /// No data transfer.
    NoTransfer,
    /// Host-to-device transfer.
    ToDevice,
    /// Device-to-host transfer.
    FromDevice,
    /// Transfer in both directions.
    ToFromDevice,
}

/// The driver's signed code for a direction.
pub open spec fn direction_int(d: Direction) -> i32 {
    match d {
        Direction::NoTransfer => sys::SG_DXFER_NONE,
        Direction::ToDevice => sys::SG_DXFER_TO_DEV,
        Direction::FromDevice => sys::SG_DXFER_FROM_DEV,
        Direction::ToFromDevice => sys::SG_DXFER_TO_FROM_DEV,
    }
}

/// The direction code as the unsigned word that stands in the wire header;
/// the two's-complement image of [`direction_int`].
pub open spec fn direction_code(d: Direction) -> u32 {
    match d {
        Direction::NoTransfer => 0xffff_ffffu32,
        Direction::ToDevice => 0xffff_fffeu32,
        Direction::FromDevice => 0xffff_fffdu32,
        Direction::ToFromDevice => 0xffff_fffcu32,
    }
}

impl Direction {
    /// The driver's signed code for this direction.
    fn to_underlying(self) -> (r: i32)
        ensures
            r == direction_int(self),
    {
        match self {
            Direction::NoTransfer => sys::SG_DXFER_NONE,
            Direction::ToDevice => sys::SG_DXFER_TO_DEV,
            Direction::FromDevice => sys::SG_DXFER_FROM_DEV,
            Direction::ToFromDevice => sys::SG_DXFER_TO_FROM_DEV,
        }
    }

    /// The unsigned wire image of this direction's code.
    fn code(self) -> (r: u32)
        ensures
            r == direction_code(self),
    {
        let i = self.to_underlying();
        proof {
            lemma_direction_code_agrees(self);
        }
        #[verifier::truncate] (i as u32)
    }
}

/// The unsigned wire image of a direction is the two's-complement image of
/// its signed code.
pub proof fn lemma_direction_code_agrees(d: Direction)
    ensures
        direction_code(d) == direction_int(d) as u32,
{
    let i = direction_int(d);
    assert(i == -1 ==> i as u32 == 0xffff_ffffu32) by (bit_vector);
    assert(i == -2 ==> i as u32 == 0xffff_fffeu32) by (bit_vector);
    assert(i == -3 ==> i as u32 == 0xffff_fffdu32) by (bit_vector);
    assert(i == -4 ==> i as u32 == 0xffff_fffcu32) by (bit_vector);
}

/// The mathematical image of a [`Task`]: every field of the command, with
/// byte buffers as sequences.
pub ghost struct TaskView {
    /// Interface-identifier tag of the wire header.
    pub interface_id: i32,
    /// Transfer direction of the data buffer.
    pub direction: Direction,
    /// Command-descriptor-block bytes.
    pub cmd: Seq<u8>,
    /// Transfer buffer bytes.
    pub data: Seq<u8>,
    /// Sense buffer storage.
    pub sense: Seq<u8>,
    /// Timeout in whole milliseconds.
    pub timeout_ms: u32,
    /// Driver flags word.
    pub flags: u32,
    /// Opaque caller tag, round-tripped unchanged by the kernel.
    pub user_tag: usize,
    /// Completion: device status byte.
    pub status: u8,
    /// Completion: masked device status byte.
    pub masked_status: u8,
    /// Completion: message status byte.
    pub msg_status: u8,
    /// Completion: how many sense bytes the kernel wrote.
    pub sense_len_wr: u8,
    /// Completion: host adapter status.
    pub host_status: u16,
    /// Completion: driver status.
    pub driver_status: u16,
    /// Completion: residual byte count of the transfer.
    pub resid: i32,
    /// Completion: elapsed time in milliseconds.
    pub duration: u32,
    /// Completion: info word whose outcome sub-field decides [`Task::ok`].
    pub info: u32,
}

/// One pending or completed device command.
///
/// A task owns stable copies of its command bytes, transfer buffer and
/// sense buffer; while it is in flight the kernel reads and writes those
/// buffers through raw addresses, so the task must not be touched or moved
/// piecemeal until its completion is reaped.  [`crate::Device`] enforces
/// that by taking ownership of each submitted task.
#[derive(Debug)]
pub struct Task {
    interface_id: i32,
    direction: Direction,
    cmd: Vec<u8>,
    data: Vec<u8>,
    sense: Vec<u8>,
    timeout_ms: u32,
    flags: u32,
    user_tag: usize,
    status: u8,
    masked_status: u8,
    msg_status: u8,
    sense_len_wr: u8,
    host_status: u16,
    driver_status: u16,
    resid: i32,
    duration: u32,
    info: u32,
}

impl View for Task {
    type V = TaskView;

    closed spec fn view(&self) -> TaskView {
        TaskView {
            interface_id: self.interface_id,
            direction: self.direction,
            cmd: self.cmd@,
            data: self.data@,
            sense: self.sense@,
            timeout_ms: self.timeout_ms,
            flags: self.flags,
            user_tag: self.user_tag,
            status: self.status,
            masked_status: self.masked_status,
            msg_status: self.msg_status,
            sense_len_wr: self.sense_len_wr,
            host_status: self.host_status,
            driver_status: self.driver_status,
            resid: self.resid,
            duration: self.duration,
            info: self.info,
        }
    }
}

/// The buffer lengths every task keeps: each length field of the wire
/// header must hold the length of its buffer.
pub open spec fn task_lengths_fit(v: TaskView) -> bool {
    &&& v.cmd.len() <= 255
    &&& v.sense.len() <= 255
    &&& v.data.len() <= u32::MAX
}

impl Task {
    #[verifier::type_invariant]
    spec fn wf(self) -> bool {
        task_lengths_fit(self@)
    }
}

/// The whole milliseconds a duration contains, a pure function of the
/// duration value; named so that contracts can speak of it.
pub uninterp spec fn duration_as_millis(d: core::time::Duration) -> u128;

/// Relies on core::time::Duration::as_millis: returns the total number of
/// whole milliseconds contained by the duration, a function of the
/// duration value alone.
pub assume_specification[ core::time::Duration::as_millis ](d: &core::time::Duration) -> (r:
    u128)
    ensures
        r == duration_as_millis(*d),
;

/// Relies on core::time::Duration::from_millis: builds the duration of
/// exactly the given number of whole milliseconds.
pub assume_specification[ core::time::Duration::from_millis ](ms: u64) -> (r:
    core::time::Duration)
    ensures
        duration_as_millis(r) == ms as u128,
;

/// Relies on Vec::as_mut_slice: a mutable slice over the vector's
/// elements.  A slice cannot change length, and the call cannot unwind;
/// the latter lets the borrow cross this type's invariant soundly.
#[verifier::external_body]
fn vec_bytes_mut(v: &mut Vec<u8>) -> (r: &mut [u8])
    ensures
        r@ == old(v)@,
        final(v)@ == final(r)@,
        final(r)@.len() == old(v)@.len(),
    no_unwind
{
    v.as_mut_slice()
}

/// A fresh vector holding a copy of the given bytes.
fn copy_bytes(buf: &[u8]) -> (r: Vec<u8>)
    ensures
        r@ == buf@,
{
    let n = buf.len();
    let mut out: Vec<u8> = Vec::new();
    let mut i: usize = 0;
    while i < n
        invariant
            i <= n,
            n == buf@.len(),
            out@ == buf@.take(i as int),
        decreases n - i,
    {
        out.push(buf[i]);
        i = i + 1;
        assert(out@ =~= buf@.take(i as int));
    }
    assert(out@ =~= buf@);
    out
}

/// The view after `set_cdb` stores new command bytes.
pub open spec fn with_cdb(v: TaskView, bytes: Seq<u8>) -> TaskView {
    TaskView { cmd: bytes, ..v }
}

/// The view after `set_timeout` stores a new timeout.
pub open spec fn with_timeout(v: TaskView, ms: u32) -> TaskView {
    TaskView { timeout_ms: ms, ..v }
}

/// The view after `set_data` stores a new transfer buffer and direction.
pub open spec fn with_data(v: TaskView, bytes: Seq<u8>, d: Direction) -> TaskView {
    TaskView { data: bytes, direction: d, ..v }
}

/// The view after `set_sense_buffer` stores new sense storage.
pub open spec fn with_sense(v: TaskView, bytes: Seq<u8>) -> TaskView {
    TaskView { sense: bytes, ..v }
}

/// The view after `set_flags` stores a new flags word.
pub open spec fn with_flags(v: TaskView, flags: u32) -> TaskView {
    TaskView { flags, ..v }
}

/// The view after `set_user_tag` stores a new user tag.
pub open spec fn with_user_tag(v: TaskView, tag: usize) -> TaskView {
    TaskView { user_tag: tag, ..v }
}

/// The view of a freshly constructed task: the fixed interface tag, no
/// transfer, and every other field zero.
pub open spec fn fresh_task_view() -> TaskView {
    TaskView {
        interface_id: sys::SG_INTERFACE_ID,
        direction: Direction::NoTransfer,
        cmd: Seq::empty(),
        data: Seq::empty(),
        sense: Seq::empty(),
        timeout_ms: 0,
        flags: 0,
        user_tag: 0,
        status: 0,
        masked_status: 0,
        msg_status: 0,
        sense_len_wr: 0,
        host_status: 0,
        driver_status: 0,
        resid: 0,
        duration: 0,
        info: 0,
    }
}

/// Whether a completion's outcome sub-field says the command completed
/// normally.
pub open spec fn spec_ok(v: TaskView) -> bool {
    v.info & sys::SG_INFO_OK_MASK == sys::SG_INFO_OK
}

/// The sense bytes a task exposes: the prefix its storage holds up to the
/// kernel-reported written length, never anything beyond it.
pub open spec fn exposed_sense(v: TaskView) -> Seq<u8> {
    v.sense.take(
        if v.sense_len_wr as int <= v.sense.len() as int {
            v.sense_len_wr as int
        } else {
            v.sense.len() as int
        },
    )
}

/// The 88 bytes of the wire header describing a task, with the given batch
/// correlation number and the raw addresses of its three buffers, laid out
/// exactly as the 64-bit driver ABI fixes them.
pub open spec fn header_bytes(
    v: TaskView,
    pack_id: u32,
    cmd_addr: usize,
    data_addr: usize,
    sense_addr: usize,
) -> Seq<u8> {
    u32_le(v.interface_id as u32) + u32_le(direction_code(v.direction)) + seq![
        v.cmd.len() as u8,
        v.sense.len() as u8,
    ] + u16_le(0) + u32_le(v.data.len() as u32) + u64_le(data_addr as u64) + u64_le(
        cmd_addr as u64,
    ) + u64_le(sense_addr as u64) + u32_le(v.timeout_ms) + u32_le(v.flags) + u32_le(pack_id)
        + u32_le(0) + u64_le(v.user_tag as u64) + seq![
        v.status,
        v.masked_status,
        v.msg_status,
        v.sense_len_wr,
    ] + u16_le(v.host_status) + u16_le(v.driver_status) + u32_le(v.resid as u32) + u32_le(
        v.duration,
    ) + u32_le(v.info) + u32_le(0)
}

/// The batch correlation number stored in a wire header.
pub open spec fn parsed_pack_id(h: Seq<u8>) -> u32 {
    u32_from_le(h[48], h[49], h[50], h[51])
}

/// The view of a task after the completion fields of a returned wire
/// header have been written into it; everything else keeps its value.
pub open spec fn completed(v: TaskView, h: Seq<u8>) -> TaskView {
    TaskView {
        status: h[64],
        masked_status: h[65],
        msg_status: h[66],
        sense_len_wr: h[67],
        host_status: u16_from_le(h[68], h[69]),
        driver_status: u16_from_le(h[70], h[71]),
        resid: u32_from_le(h[72], h[73], h[74], h[75]) as i32,
        duration: u32_from_le(h[76], h[77], h[78], h[79]),
        info: u32_from_le(h[80], h[81], h[82], h[83]),
        ..v
    }
}

impl Task {
    /// A zero-initialized command with the fixed interface tag and no
    /// transfer; no buffers are attached.
    pub fn new() -> (r: Task)
        ensures
            r@ == fresh_task_view(),
    {
        let r = Task {
            interface_id: sys::SG_INTERFACE_ID,
            direction: Direction::NoTransfer,
            cmd: Vec::new(),
            data: Vec::new(),
            sense: Vec::new(),
            timeout_ms: 0,
            flags: 0,
            user_tag: 0,
            status: 0,
            masked_status: 0,
            msg_status: 0,
            sense_len_wr: 0,
            host_status: 0,
            driver_status: 0,
            resid: 0,
            duration: 0,
            info: 0,
        };
        assert(r@ =~= fresh_task_view());
        r
    }

    /// Stores a copy of the command-descriptor-block bytes; their length
    /// is kept as a single byte of the wire header, so at most 255 fit.
    pub fn set_cdb(&mut self, buf: &[u8]) -> (r: &mut Task)
        requires
            buf@.len() <= 255,
        ensures
            r@ == with_cdb(old(self)@, buf@),
            *final(self) == *final(r),
    {
        proof {
            use_type_invariant(&*self);
        }
        self.cmd = copy_bytes(buf);
        assert(self@ =~= with_cdb(old(self)@, buf@));
        self
    }

    /// The stored command-descriptor-block bytes.
    pub fn cdb(&self) -> (r: &[u8])
        ensures
            r@ == self@.cmd,
    {
        self.cmd.as_slice()
    }

    /// Stores the timeout as whole milliseconds, rounded down; a count
    /// beyond the header field's 32-bit width keeps only the low bits.
    pub fn set_timeout(&mut self, timeout: core::time::Duration) -> (r: &mut Task)
        ensures
            r@ == with_timeout(old(self)@, duration_as_millis(timeout) as u32),
            *final(self) == *final(r),
    {
        proof {
            use_type_invariant(&*self);
        }
        self.timeout_ms = #[verifier::truncate] (timeout.as_millis() as u32);
        assert(self@ =~= with_timeout(old(self)@, duration_as_millis(timeout) as u32));
        self
    }

    /// The stored timeout as a duration of whole milliseconds.
    pub fn timeout(&self) -> (r: core::time::Duration)
        ensures
            duration_as_millis(r) == self@.timeout_ms as u128,
    {
        core::time::Duration::from_millis(self.timeout_ms as u64)
    }

    /// Stores a copy of the transfer buffer and its direction; the wire
    /// header keeps the length as a 32-bit word.
    pub fn set_data(&mut self, buf: &[u8], direction: Direction) -> (r: &mut Task)
        requires
            buf@.len() <= u32::MAX,
        ensures
            r@ == with_data(old(self)@, buf@, direction),
            *final(self) == *final(r),
    {
        proof {
            use_type_invariant(&*self);
        }
        self.data = copy_bytes(buf);
        self.direction = direction;
        assert(self@ =~= with_data(old(self)@, buf@, direction));
        self
    }

    /// The transfer buffer; after a device-to-host command completes it
    /// holds whatever the kernel wrote.
    pub fn data(&self) -> (r: &[u8])
        ensures
            r@ == self@.data,
    {
        self.data.as_slice()
    }

    /// Mutable access to the transfer buffer.
    pub fn data_mut(&mut self) -> (r: &mut [u8])
        ensures
            r@ == old(self)@.data,
            final(self)@ == (TaskView { data: final(r)@, ..old(self)@ }),
            final(r)@.len() == old(self)@.data.len(),
    {
        proof {
            use_type_invariant(&*self);
        }
        vec_bytes_mut(&mut self.data)
    }

    /// Attaches storage for kernel-reported sense data; its length is kept
    /// as a single byte of the wire header, so at most 255 bytes fit.
    pub fn set_sense_buffer(&mut self, buf: &[u8]) -> (r: &mut Task)
        requires
            buf@.len() <= 255,
        ensures
            r@ == with_sense(old(self)@, buf@),
            *final(self) == *final(r),
    {
        proof {
            use_type_invariant(&*self);
        }
        self.sense = copy_bytes(buf);
        assert(self@ =~= with_sense(old(self)@, buf@));
        self
    }

    /// The meaningful sense bytes: only the prefix up to the
    /// kernel-reported written length is exposed, never the stale rest of
    /// the storage.
    pub fn sense_buffer(&self) -> (r: &[u8])
        ensures
            r@ == exposed_sense(self@),
    {
        let n = if (self.sense_len_wr as usize) <= self.sense.len() {
            self.sense_len_wr as usize
        } else {
            self.sense.len()
        };
        let r = vstd::slice::slice_subrange(self.sense.as_slice(), 0, n);
        assert(r@ =~= exposed_sense(self@));
        r
    }

    /// Stores the driver flags word.
    pub fn set_flags(&mut self, flags: u32) -> (r: &mut Task)
        ensures
            r@ == with_flags(old(self)@, flags),
            *final(self) == *final(r),
    {
        proof {
            use_type_invariant(&*self);
        }
        self.flags = flags;
        assert(self@ =~= with_flags(old(self)@, flags));
        self
    }

    /// The stored flags word.
    pub fn flags(&self) -> (r: u32)
        ensures
            r == self@.flags,
    {
        self.flags
    }

    /// Stores the opaque user tag; the kernel round-trips it unchanged and
    /// this crate never interprets it.
    pub fn set_user_tag(&mut self, tag: usize) -> (r: &mut Task)
        ensures
            r@ == with_user_tag(old(self)@, tag),
            *final(self) == *final(r),
    {
        proof {
            use_type_invariant(&*self);
        }
        self.user_tag = tag;
        assert(self@ =~= with_user_tag(old(self)@, tag));
        self
    }

    /// The stored user tag.
    pub fn user_tag(&self) -> (r: usize)
        ensures
            r == self@.user_tag,
    {
        self.user_tag
    }

    /// Completion: elapsed time in milliseconds.
    pub fn duration(&self) -> (r: u32)
        ensures
            r == self@.duration,
    {
        self.duration
    }

    /// Completion: residual byte count of the transfer.
    pub fn residual_data(&self) -> (r: i32)
        ensures
            r == self@.resid,
    {
        self.resid
    }

    /// Completion: device status byte.
    pub fn status(&self) -> (r: u8)
        ensures
            r == self@.status,
    {
        self.status
    }

    /// Completion: host adapter status.
    pub fn host_status(&self) -> (r: u16)
        ensures
            r == self@.host_status,
    {
        self.host_status
    }

    /// Completion: driver status.
    pub fn driver_status(&self) -> (r: u16)
        ensures
            r == self@.driver_status,
    {
        self.driver_status
    }

    /// Whether the completion's outcome sub-field equals the "completed
    /// normally" value; meaningful only after the task completed.
    pub fn ok(&self) -> (r: bool)
        ensures
            r == spec_ok(self@),
    {
        (self.info & sys::SG_INFO_OK_MASK) == sys::SG_INFO_OK
    }

    /// The wire header of this command, with the given batch correlation
    /// number and buffer addresses.
    pub fn to_header_bytes(
        &self,
        pack_id: u32,
        cmd_addr: usize,
        data_addr: usize,
        sense_addr: usize,
    ) -> (r: Vec<u8>)
        ensures
            r@ == header_bytes(self@, pack_id, cmd_addr, data_addr, sense_addr),
            r@.len() == sys::HEADER_SIZE,
    {
        proof {
            use_type_invariant(self);
        }
        let mut out: Vec<u8> = Vec::new();
        push_u32_le(&mut out, #[verifier::truncate] (self.interface_id as u32));
        push_u32_le(&mut out, self.direction.code());
        out.push(self.cmd.len() as u8);
        out.push(self.sense.len() as u8);
        push_u16_le(&mut out, 0);
        push_u32_le(&mut out, self.data.len() as u32);
        push_u64_le(&mut out, data_addr as u64);
        push_u64_le(&mut out, cmd_addr as u64);
        push_u64_le(&mut out, sense_addr as u64);
        push_u32_le(&mut out, self.timeout_ms);
        push_u32_le(&mut out, self.flags);
        push_u32_le(&mut out, pack_id);
        push_u32_le(&mut out, 0);
        push_u64_le(&mut out, self.user_tag as u64);
        out.push(self.status);
        out.push(self.masked_status);
        out.push(self.msg_status);
        out.push(self.sense_len_wr);
        push_u16_le(&mut out, self.host_status);
        push_u16_le(&mut out, self.driver_status);
        push_u32_le(&mut out, #[verifier::truncate] (self.resid as u32));
        push_u32_le(&mut out, self.duration);
        push_u32_le(&mut out, self.info);
        push_u32_le(&mut out, 0);
        assert(out@ =~= header_bytes(self@, pack_id, cmd_addr, data_addr, sense_addr));
        out
    }

    /// Writes the completion fields of a returned wire header into this
    /// task; the request fields and the buffers keep their values.
    pub fn complete_from_header(&mut self, hdr: &Vec<u8>)
        requires
            hdr@.len() == sys::HEADER_SIZE,
        ensures
            final(self)@ == completed(old(self)@, hdr@),
    {
        proof {
            use_type_invariant(&*self);
        }
        self.status = hdr[64];
        self.masked_status = hdr[65];
        self.msg_status = hdr[66];
        self.sense_len_wr = hdr[67];
        self.host_status = read_u16_le(hdr, 68);
        self.driver_status = read_u16_le(hdr, 70);
        self.resid = #[verifier::truncate] (read_u32_le(hdr, 72) as i32);
        self.duration = read_u32_le(hdr, 76);
        self.info = read_u32_le(hdr, 80);
        assert(self@ =~= completed(old(self)@, hdr@));
    }
}

/// Relies on the slice pointer accessor as_ptr: the address of the
/// vector's storage at this moment; stale once the vector reallocates or
/// is dropped.
#[verifier::external_body]
fn vec_addr(v: &Vec<u8>) -> usize {
    v.as_ptr() as usize
}

impl Task {
    /// The current address of the command bytes, or zero when none are
    /// attached; valid only while the task stays where it is.
    pub fn cmd_addr(&self) -> usize {
        if self.cmd.len() == 0 {
            0
        } else {
            vec_addr(&self.cmd)
        }
    }

    /// The current address of the transfer buffer, or zero when none is
    /// attached; valid only while the task stays where it is.
    pub fn data_addr(&self) -> usize {
        if self.data.len() == 0 {
            0
        } else {
            vec_addr(&self.data)
        }
    }

    /// The current address of the sense storage, or zero when none is
    /// attached; valid only while the task stays where it is.
    pub fn sense_addr(&self) -> usize {
        if self.sense.len() == 0 {
            0
        } else {
            vec_addr(&self.sense)
        }
    }
}

/// The batch correlation number of a returned wire header.
pub fn header_pack_id(hdr: &Vec<u8>) -> (r: u32)
    requires
        hdr@.len() == sys::HEADER_SIZE,
    ensures
        r == parsed_pack_id(hdr@),
{
    read_u32_le(hdr, 48)
}

/// Law: storing command bytes of length at most 255 and reading them back
/// yields the identical bytes and length.
pub proof fn lemma_cdb_round_trip(v: TaskView, bytes: Seq<u8>)
    requires
        bytes.len() <= 255,
    ensures
        with_cdb(v, bytes).cmd == bytes,
        with_cdb(v, bytes).cmd.len() == bytes.len(),
{
}

/// Law: a whole-millisecond count below the header field's width is stored
/// and read back exactly by `set_timeout` and `timeout`.
pub proof fn lemma_timeout_round_trip(v: TaskView, ms: u128)
    requires
        ms < 0x1_0000_0000,
    ensures
        with_timeout(v, ms as u32).timeout_ms as u128 == ms,
{
}

/// Law: a wire header handed back byte for byte carries the batch
/// correlation number it was built with, and absorbing its completion
/// fields leaves the command exactly as it was.
pub proof fn lemma_header_round_trip(
    v: TaskView,
    pack_id: u32,
    cmd_addr: usize,
    data_addr: usize,
    sense_addr: usize,
)
    ensures
        parsed_pack_id(header_bytes(v, pack_id, cmd_addr, data_addr, sense_addr)) == pack_id,
        completed(v, header_bytes(v, pack_id, cmd_addr, data_addr, sense_addr)) == v,
{
    let h = header_bytes(v, pack_id, cmd_addr, data_addr, sense_addr);
    assert(h[48] == u32_le(pack_id)[0] && h[49] == u32_le(pack_id)[1] && h[50] == u32_le(
        pack_id,
    )[2] && h[51] == u32_le(pack_id)[3]);
    crate::wire::lemma_u32_le_round_trip(pack_id);
    assert(h[64] == v.status && h[65] == v.masked_status && h[66] == v.msg_status && h[67]
        == v.sense_len_wr);
    assert(h[68] == u16_le(v.host_status)[0] && h[69] == u16_le(v.host_status)[1]);
    crate::wire::lemma_u16_le_round_trip(v.host_status);
    assert(h[70] == u16_le(v.driver_status)[0] && h[71] == u16_le(v.driver_status)[1]);
    crate::wire::lemma_u16_le_round_trip(v.driver_status);
    let ru = v.resid as u32;
    assert(h[72] == u32_le(ru)[0] && h[73] == u32_le(ru)[1] && h[74] == u32_le(ru)[2] && h[75]
        == u32_le(ru)[3]);
    crate::wire::lemma_u32_le_round_trip(ru);
    let rv = v.resid;
    assert((rv as u32) as i32 == rv) by (bit_vector);
    assert(h[76] == u32_le(v.duration)[0] && h[77] == u32_le(v.duration)[1] && h[78] == u32_le(
        v.duration,
    )[2] && h[79] == u32_le(v.duration)[3]);
    crate::wire::lemma_u32_le_round_trip(v.duration);
    assert(h[80] == u32_le(v.info)[0] && h[81] == u32_le(v.info)[1] && h[82] == u32_le(v.info)[2]
        && h[83] == u32_le(v.info)[3]);
    crate::wire::lemma_u32_le_round_trip(v.info);
}

/// Law: the sense bytes a task exposes never reach beyond the
/// kernel-reported written length, nor beyond the attached storage, and
/// agree with the storage where they are exposed.
pub proof fn lemma_sense_exposure_bounded(v: TaskView)
    ensures
        exposed_sense(v).len() <= v.sense_len_wr,
        exposed_sense(v).len() <= v.sense.len(),
        forall|i: int|
            0 <= i < exposed_sense(v).len() ==> #[trigger] exposed_sense(v)[i] == v.sense[i],
{
}

} // verus!
