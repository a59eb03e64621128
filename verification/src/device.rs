//! An open handle to a device node, with batched asynchronous submission
//! and reaping of commands.
//!
//! While a command is in flight the kernel holds the raw addresses of its
//! buffers, so those buffers must stay alive and in place until the
//! completion is reaped.  The device enforces that by owning every
//! submitted task in a fixed table of slots: `send` moves tasks in,
//! `receive` hands them back once their completions arrive, and the slot
//! index rides along in the wire header to correlate the two.

use vstd::prelude::*;

use crate::sys;
use vstd::multiset::Multiset;

use crate::task::{header_pack_id, Task, TaskView};

verus! {

broadcast use vstd::seq_lib::group_to_multiset_ensures, vstd::multiset::group_multiset_axioms;

/// Errno value of a call interrupted by a signal.
const ERRNO_EINTR: i32 = 4;

/// Errno value of a non-blocking call that would have to wait.
const ERRNO_EAGAIN: i32 = 11;

/// How often an interrupted or would-block call is retried before the
/// last error is surfaced; large enough that the bound is never the
/// reason a caller sees an error in practice.
const RETRY_LIMIT: u64 = 0xffff_ffff;

/// Why a device call failed.
#[derive(Clone, Copy, Debug, PartialEq, Eq, Structural)]
pub enum SgError {
    /// The operating system refused a call; the payload is its errno
    /// value.
    Os(i32),
    /// The kernel answered a reap with fewer bytes than one wire header,
    /// which the channel's contract rules out.
    Protocol,
}

/// Relies on nix::fcntl::open with O_RDWR | O_NONBLOCK: opens the path
/// read+write and non-blocking, returning a non-negative descriptor on
/// success and the OS errno value on failure.
#[verifier::external_body]
fn open_rw_nonblock(path: &str) -> (r: Result<i32, i32>)
    ensures
        (r matches Ok(fd) ==> fd >= 0),
{
    let flags = nix::fcntl::OFlag::O_RDWR | nix::fcntl::OFlag::O_NONBLOCK;
    match nix::fcntl::open(path, flags, nix::sys::stat::Mode::empty()) {
        Ok(fd) => Ok(fd),
        Err(e) => Err(e as i32),
    }
}

/// The total number of bytes the given buffers hold.
pub open spec fn total_len(bufs: Seq<Vec<u8>>) -> int
    decreases bufs.len(),
{
    if bufs.len() == 0 {
        0
    } else {
        total_len(bufs.drop_last()) + bufs.last()@.len()
    }
}

/// Appending one buffer grows the total by that buffer's length.
proof fn lemma_total_len_push(bufs: Seq<Vec<u8>>, b: Vec<u8>)
    ensures
        total_len(bufs.push(b)) == total_len(bufs) + b@.len(),
{
    assert(bufs.push(b).drop_last() =~= bufs);
}

/// Relies on nix::sys::uio::writev: hands the buffers to the descriptor
/// in order as one vectored write and returns how many bytes the kernel
/// accepted, at most their total length; the OS errno value on failure.
#[verifier::external_body]
fn writev_fd(fd: i32, bufs: &Vec<Vec<u8>>) -> (r: Result<usize, i32>)
    ensures
        (r matches Ok(n) ==> n <= total_len(bufs@)),
{
    let iovecs: Vec<std::io::IoSlice> = bufs.iter().map(|b| std::io::IoSlice::new(b)).collect();
    match nix::sys::uio::writev(fd, &iovecs) {
        Ok(n) => Ok(n),
        Err(e) => Err(e as i32),
    }
}

/// Relies on nix::sys::uio::readv: fills the buffers from the descriptor
/// in order as one vectored read and returns how many bytes the kernel
/// placed, at most their total length; the OS errno value on failure.
/// The buffers keep their count and their lengths; what the read bytes
/// hold is whatever the kernel wrote.
#[verifier::external_body]
fn readv_fd(fd: i32, bufs: &mut Vec<Vec<u8>>) -> (r: Result<usize, i32>)
    ensures
        final(bufs)@.len() == old(bufs)@.len(),
        forall|i: int|
            0 <= i < final(bufs)@.len() ==> #[trigger] final(bufs)@[i]@.len() == old(
                bufs,
            )@[i]@.len(),
        (r matches Ok(n) ==> n <= total_len(old(bufs)@)),
{
    let mut iovecs: Vec<std::io::IoSliceMut> =
        bufs.iter_mut().map(|b| std::io::IoSliceMut::new(b)).collect();
    match nix::sys::uio::readv(fd, &mut iovecs) {
        Ok(n) => Ok(n),
        Err(e) => Err(e as i32),
    }
}

/// What identifies a submitted command when its completion comes back:
/// every request field, with the two kernel-writable buffers reduced to
/// their lengths.
pub ghost struct TaskCore {
    /// Command-descriptor-block bytes.
    pub cmd: Seq<u8>,
    /// Length of the transfer buffer.
    pub data_len: nat,
    /// Length of the sense storage.
    pub sense_len: nat,
    /// Timeout in whole milliseconds.
    pub timeout_ms: u32,
    /// Driver flags word.
    pub flags: u32,
    /// Opaque caller tag.
    pub user_tag: usize,
    /// Transfer direction.
    pub direction: crate::task::Direction,
}

/// The submission identity of a task view.
pub open spec fn core_view(v: TaskView) -> TaskCore {
    TaskCore {
        cmd: v.cmd,
        data_len: v.data.len(),
        sense_len: v.sense.len(),
        timeout_ms: v.timeout_ms,
        flags: v.flags,
        user_tag: v.user_tag,
        direction: v.direction,
    }
}

/// The submission identities a single slot holds: one or none.
pub open spec fn slot_core(s: Option<Task>) -> Multiset<TaskCore> {
    match s {
        Some(t) => Multiset::empty().insert(core_view(t@)),
        None => Multiset::empty(),
    }
}

/// The submission identities a whole slot table holds.
pub open spec fn slots_cores(s: Seq<Option<Task>>) -> Multiset<TaskCore>
    decreases s.len(),
{
    if s.len() == 0 {
        Multiset::empty()
    } else {
        slots_cores(s.drop_last()).add(slot_core(s.last()))
    }
}

/// The submission identities of a sequence of tasks.
pub open spec fn seq_cores(s: Seq<Task>) -> Multiset<TaskCore> {
    s.map_values(|t: Task| core_view(t@)).to_multiset()
}

/// A table never holds more identities than it has slots.
proof fn lemma_slots_cores_len(s: Seq<Option<Task>>)
    ensures
        slots_cores(s).len() <= s.len(),
    decreases s.len(),
{
    if s.len() > 0 {
        lemma_slots_cores_len(s.drop_last());
    }
}

/// A table of empty slots holds no identities.
proof fn lemma_slots_cores_all_none(s: Seq<Option<Task>>)
    requires
        forall|i: int| 0 <= i < s.len() ==> s[i] is None,
    ensures
        slots_cores(s) =~= Multiset::empty(),
    decreases s.len(),
{
    if s.len() > 0 {
        lemma_slots_cores_all_none(s.drop_last());
    }
}

/// Filling an empty slot adds exactly that task's identity.
proof fn lemma_fill_slot(s: Seq<Option<Task>>, i: int, t: Task)
    requires
        0 <= i < s.len(),
        s[i] is None,
    ensures
        slots_cores(s.update(i, Some(t))) =~= slots_cores(s).insert(core_view(t@)),
    decreases s.len(),
{
    let s2 = s.update(i, Some(t));
    if i == s.len() - 1 {
        assert(s2.drop_last() =~= s.drop_last());
    } else {
        assert(s2.drop_last() =~= s.drop_last().update(i, Some(t)));
        assert(s2.last() == s.last());
        lemma_fill_slot(s.drop_last(), i, t);
    }
}

/// No tasks carry no identities.
proof fn lemma_seq_cores_empty(s: Seq<Task>)
    requires
        s.len() == 0,
    ensures
        seq_cores(s) =~= Multiset::<TaskCore>::empty(),
{
    let mapped = s.map_values(|t: Task| core_view(t@));
    assert(mapped.len() == 0);
    vstd::multiset::lemma_multiset_empty_len(mapped.to_multiset());
}

/// Appending one task adds exactly its identity.
proof fn lemma_seq_cores_push(s: Seq<Task>, t: Task)
    ensures
        seq_cores(s.push(t)) =~= seq_cores(s).insert(core_view(t@)),
{
    let f = |x: Task| core_view(x@);
    assert(s.push(t).map_values(f) =~= s.map_values(f).push(core_view(t@)));
}

/// Buffers of one uniform length total to their count times that length.
proof fn lemma_total_len_uniform(s: Seq<Vec<u8>>, w: int)
    requires
        forall|i: int| 0 <= i < s.len() ==> #[trigger] s[i]@.len() == w,
    ensures
        total_len(s) == s.len() * w,
    decreases s.len(),
{
    if s.len() > 0 {
        lemma_total_len_uniform(s.drop_last(), w);
        assert((s.len() - 1) * w + w == s.len() * w) by (nonlinear_arith);
    }
}

/// Whether the vector holds the given value.
fn contains_usize(v: &Vec<usize>, x: usize) -> (b: bool)
    ensures
        b == v@.contains(x),
{
    let n = v.len();
    let mut i: usize = 0;
    while i < n
        invariant
            i <= n,
            n == v@.len(),
            forall|k: int| 0 <= k < i ==> v@[k] != x,
        decreases n - i,
    {
        if v[i] == x {
            return true;
        }
        i = i + 1;
    }
    false
}

/// Whether a vectored call was interrupted by a signal and should be
/// retried.
fn is_eintr(r: &Result<usize, i32>) -> (b: bool)
    ensures
        b == (*r matches Err(e) && e == ERRNO_EINTR),
{
    match r {
        Err(e) => *e == ERRNO_EINTR,
        _ => false,
    }
}

/// Whether a vectored read hit a transient condition — a signal or a
/// not-yet-ready non-blocking descriptor — and should be retried.
fn is_read_retry(r: &Result<usize, i32>) -> (b: bool)
    ensures
        b == (*r matches Err(e) && (e == ERRNO_EINTR || e == ERRNO_EAGAIN)),
{
    match r {
        Err(e) => *e == ERRNO_EINTR || *e == ERRNO_EAGAIN,
        _ => false,
    }
}

/// Relies on core::mem::replace: moves the element at `i` out of the
/// vector, leaving `x` in its place; within bounds the call cannot
/// unwind, which lets it cross the device's type invariant soundly.
#[verifier::external_body]
fn slot_replace(v: &mut Vec<Option<Task>>, i: usize, x: Option<Task>) -> (r: Option<Task>)
    requires
        i < old(v)@.len(),
    ensures
        final(v)@ == old(v)@.update(i as int, x),
        r == old(v)@[i as int],
    no_unwind
{
    core::mem::replace(&mut v[i], x)
}

/// An open, non-blocking handle to a device node, together with the
/// table of tasks whose commands are in flight through it.
///
/// The handle does not serialize access: concurrent calls through one
/// device need external mutual exclusion, and closing it while commands
/// are outstanding is unsupported.
pub struct Device {
    fd: i32,
    slots: Vec<Option<Task>>,
}

impl Device {
    #[verifier::type_invariant]
    spec fn wf(self) -> bool {
        self.slots@.len() == sys::SG_MAX_QUEUE as int
    }

    /// The underlying descriptor value.
    pub closed spec fn raw_fd_spec(self) -> i32 {
        self.fd
    }

    /// The submission identities of the commands in flight through this
    /// device.
    pub closed spec fn inflight(self) -> Multiset<TaskCore> {
        slots_cores(self.slots@)
    }

    /// Opens the device node read+write and non-blocking; nothing is in
    /// flight through a fresh handle.
    pub fn open(path: &str) -> (r: Result<Device, SgError>)
        ensures
            (r matches Ok(d) ==> d.inflight() == Multiset::<TaskCore>::empty() && d.raw_fd_spec()
                >= 0),
            (r matches Err(e) ==> e matches SgError::Os(_)),
    {
        match open_rw_nonblock(path) {
            Ok(fd) => {
                let mut slots: Vec<Option<Task>> = Vec::new();
                let mut i: usize = 0;
                while i < sys::SG_MAX_QUEUE as usize
                    invariant
                        i <= sys::SG_MAX_QUEUE as usize,
                        slots@.len() == i,
                        forall|j: int| 0 <= j < slots@.len() ==> slots@[j] is None,
                    decreases sys::SG_MAX_QUEUE as usize - i,
                {
                    slots.push(None);
                    i = i + 1;
                }
                proof {
                    lemma_slots_cores_all_none(slots@);
                }
                let d = Device { fd, slots };
                assert(d.inflight() =~= Multiset::<TaskCore>::empty());
                Ok(d)
            },
            Err(e) => Err(SgError::Os(e)),
        }
    }

    /// The underlying descriptor, for integration into an external
    /// readiness-polling mechanism: read-readiness means at least one
    /// completion may be reapable.
    pub fn as_raw_fd(&self) -> (r: i32)
        ensures
            r == self.raw_fd_spec(),
    {
        self.fd
    }

    /// Submits a batch of commands asynchronously.
    ///
    /// The first `n` tasks, where `n` is the returned count, move into
    /// the device's in-flight table and stay owned by it until
    /// [`Device::receive`] hands them back; the rest remain in `tasks`.
    /// A count below the batch size is normal: the kernel accepted only
    /// a prefix and the caller resubmits the remainder later.  At most
    /// the driver's queue depth is ever accepted in one call, and an
    /// empty batch returns zero without touching the descriptor.  An
    /// interrupted write is retried; any other failure leaves the device
    /// and the batch unchanged.
    #[verifier::loop_isolation(false)]
    #[verifier::rlimit(60)]
    pub fn send(&mut self, tasks: &mut Vec<Task>) -> (r: Result<usize, SgError>)
        ensures
            (r matches Ok(n) ==> {
                &&& n <= old(tasks)@.len()
                &&& n as int <= sys::SG_MAX_QUEUE as int
                &&& final(tasks)@ == old(tasks)@.skip(n as int)
                &&& final(self).inflight() == old(self).inflight().add(
                    seq_cores(old(tasks)@.take(n as int)),
                )
                &&& final(self).inflight().len() <= sys::SG_MAX_QUEUE as int
            }),
            (old(tasks)@.len() == 0 ==> r == Ok::<usize, SgError>(0)),
            (r matches Err(e) ==> {
                &&& final(tasks)@ == old(tasks)@
                &&& final(self).inflight() == old(self).inflight()
                &&& (e matches SgError::Os(_))
            }),
            final(self).raw_fd_spec() == old(self).raw_fd_spec(),
    {
        proof {
            use_type_invariant(&*self);
        }
        let ghost init_slots = self.slots@;
        let ghost init_tasks = tasks@;
        if tasks.len() == 0 {
            proof {
                lemma_seq_cores_empty(init_tasks.take(0));
                assert(tasks@ =~= old(tasks)@.skip(0));
                assert(self.inflight().add(seq_cores(init_tasks.take(0))) =~= self.inflight());
                lemma_slots_cores_len(self.slots@);
            }
            return Ok(0);
        }
        // choose free slots, at most one per waiting task
        let mut free: Vec<usize> = Vec::new();
        let mut i: usize = 0;
        while i < sys::SG_MAX_QUEUE as usize
            invariant
                i <= sys::SG_MAX_QUEUE as usize,
                free@.len() <= i,
                free@.len() <= tasks@.len(),
                forall|k: int| 0 <= k < free@.len() ==> #[trigger] free@[k] < i,
                forall|k: int|
                    0 <= k < free@.len() ==> self.slots@[#[trigger] free@[k] as int] is None,
                forall|k1: int, k2: int|
                    0 <= k1 < k2 < free@.len() ==> #[trigger] free@[k1] < #[trigger] free@[k2],
            decreases sys::SG_MAX_QUEUE as usize - i,
        {
            if free.len() < tasks.len() && self.slots[i].is_none() {
                free.push(i);
            }
            i = i + 1;
        }
        let m = free.len();
        if m == 0 {
            // the queue is full: nothing can be submitted
            proof {
                lemma_seq_cores_empty(init_tasks.take(0));
                assert(tasks@ =~= old(tasks)@.skip(0));
                assert(self.inflight().add(seq_cores(init_tasks.take(0))) =~= self.inflight());
                lemma_slots_cores_len(self.slots@);
            }
            return Ok(0);
        }
        // move the first m tasks into those slots
        let mut j: usize = 0;
        while j < m
            invariant
                j <= m,
                tasks@ == init_tasks.skip(j as int),
                self.slots@.len() == sys::SG_MAX_QUEUE as int,
                slots_cores(self.slots@) == slots_cores(init_slots).add(
                    seq_cores(init_tasks.take(j as int)),
                ),
                forall|k: int|
                    j <= k < m ==> self.slots@[#[trigger] free@[k] as int] is None,
                forall|k: int|
                    0 <= k < j ==> self.slots@[#[trigger] free@[k] as int] == Some(init_tasks[k]),
                forall|idx: int|
                    0 <= idx < self.slots@.len() && (forall|k: int|
                        0 <= k < j ==> #[trigger] free@[k] != idx) ==> self.slots@[idx]
                        == init_slots[idx],
                self.fd == old(self).fd,
            decreases m - j,
        {
            let t = tasks.remove(0);
            let idx = free[j];
            proof {
                lemma_fill_slot(self.slots@, idx as int, t);
                assert(init_tasks.take(j + 1) =~= init_tasks.take(j as int).push(t));
                lemma_seq_cores_push(init_tasks.take(j as int), t);
                assert(slots_cores(init_slots).add(seq_cores(init_tasks.take(j as int))).insert(
                    core_view(t@),
                ) =~= slots_cores(init_slots).add(seq_cores(init_tasks.take(j + 1))));
                assert(tasks@ =~= init_tasks.skip(j + 1));
            }
            let _ = slot_replace(&mut self.slots, idx, Some(t));
            assert(slots_cores(self.slots@) == slots_cores(init_slots).add(
                seq_cores(init_tasks.take(j + 1)),
            ));
            j = j + 1;
        }
        // one wire header per filled slot
        let mut hdrs: Vec<Vec<u8>> = Vec::new();
        let mut j2: usize = 0;
        while j2 < m
            invariant
                j2 <= m,
                hdrs@.len() == j2 as int,
                total_len(hdrs@) == j2 as int * sys::HEADER_SIZE as int,
            decreases m - j2,
        {
            let idx = free[j2];
            let t = self.slots[idx].as_ref().unwrap();
            let ca = t.cmd_addr();
            let da = t.data_addr();
            let sa = t.sense_addr();
            let hdr = t.to_header_bytes(idx as u32, ca, da, sa);
            proof {
                lemma_total_len_push(hdrs@, hdr);
            }
            hdrs.push(hdr);
            j2 = j2 + 1;
        }
        // the vectored write, retried while a signal interrupts it
        let mut res = writev_fd(self.fd, &hdrs);
        let mut attempts: u64 = 0;
        while is_eintr(&res) && attempts < RETRY_LIMIT
            invariant
                (res matches Ok(nb) ==> nb <= total_len(hdrs@)),
            decreases RETRY_LIMIT - attempts,
        {
            res = writev_fd(self.fd, &hdrs);
            attempts = attempts + 1;
        }
        // how many whole headers the kernel accepted
        let accepted: usize = match &res {
            Ok(nb) => {
                let a = *nb / sys::HEADER_SIZE;
                proof {
                    vstd::arithmetic::div_mod::lemma_div_is_ordered(
                        *nb as int,
                        m as int * sys::HEADER_SIZE as int,
                        sys::HEADER_SIZE as int,
                    );
                    vstd::arithmetic::div_mod::lemma_div_multiples_vanish(
                        m as int,
                        sys::HEADER_SIZE as int,
                    );
                }
                assert(a <= m);
                a
            },
            Err(_) => 0,
        };
        // roll the slots beyond the accepted prefix back into the batch
        let mut k = m;
        while k > accepted
            invariant
                accepted <= k <= m,
                tasks@ == init_tasks.skip(k as int),
                self.slots@.len() == sys::SG_MAX_QUEUE as int,
                slots_cores(self.slots@) == slots_cores(init_slots).add(
                    seq_cores(init_tasks.take(k as int)),
                ),
                forall|kk: int|
                    0 <= kk < k ==> self.slots@[#[trigger] free@[kk] as int] == Some(
                        init_tasks[kk],
                    ),
                self.fd == old(self).fd,
            decreases k,
        {
            k = k - 1;
            let idx = free[k];
            let ghost before = self.slots@;
            let taken = slot_replace(&mut self.slots, idx, None);
            let t = taken.unwrap();
            tasks.insert(0, t);
            proof {
                lemma_fill_slot(self.slots@, idx as int, t);
                assert(self.slots@.update(idx as int, Some(t)) =~= before);
                assert(slots_cores(self.slots@).insert(core_view(t@)) =~= slots_cores(before));
                assert(init_tasks.take(k + 1) =~= init_tasks.take(k as int).push(t));
                lemma_seq_cores_push(init_tasks.take(k as int), t);
                assert(slots_cores(init_slots).add(seq_cores(init_tasks.take(k as int))).insert(
                    core_view(t@),
                ) =~= slots_cores(init_slots).add(seq_cores(init_tasks.take(k + 1))));
                assert forall|c: TaskCore|
                    slots_cores(self.slots@).count(c) == slots_cores(init_slots).add(
                        seq_cores(init_tasks.take(k as int)),
                    ).count(c) by {
                    let lhs = slots_cores(self.slots@);
                    let rhs = slots_cores(init_slots).add(seq_cores(init_tasks.take(k as int)));
                    assert(lhs.insert(core_view(t@)).count(c) == rhs.insert(
                        core_view(t@),
                    ).count(c));
                }
                assert(slots_cores(self.slots@) =~= slots_cores(init_slots).add(
                    seq_cores(init_tasks.take(k as int)),
                ));
                assert(tasks@ =~= init_tasks.skip(k as int));
            }
        }
        proof {
            lemma_slots_cores_len(self.slots@);
            if accepted == 0 {
                lemma_seq_cores_empty(init_tasks.take(0));
                assert(slots_cores(self.slots@) =~= slots_cores(init_slots));
                assert(tasks@ =~= init_tasks);
            }
        }
        match res {
            Ok(_) => Ok(accepted),
            Err(e) => Err(SgError::Os(e)),
        }
    }

    /// Reaps a batch of completions asynchronously.
    ///
    /// One vectored read collects up to the driver's queue depth of
    /// returned wire headers; each is matched back to the in-flight task
    /// it belongs to, the task absorbs the completion fields, and the
    /// tasks are appended to `tasks` in the order the kernel returned
    /// them — which need not be submission order; correlate by user tag.
    /// What the kernel wrote into a reaped task's transfer and sense
    /// buffers is its to report and is not specified here.
    ///
    /// An interrupted or would-block read is retried, so without an
    /// external readiness wait this call busy-polls; call it when the
    /// descriptor reports read-readiness.  A read of fewer bytes than one
    /// whole header, or a header that matches no in-flight command,
    /// breaks the channel's contract and is reported as
    /// [`SgError::Protocol`] with the device left unchanged.
    #[verifier::loop_isolation(false)]
    #[verifier::rlimit(60)]
    pub fn receive(&mut self, tasks: &mut Vec<Task>) -> (r: Result<usize, SgError>)
        ensures
            (r matches Ok(k) ==> {
                &&& 1 <= k
                &&& k as int <= sys::SG_MAX_QUEUE as int
                &&& final(tasks)@.len() == old(tasks)@.len() + k
                &&& final(tasks)@.take(old(tasks)@.len() as int) == old(tasks)@
                &&& old(self).inflight() == final(self).inflight().add(
                    seq_cores(final(tasks)@.skip(old(tasks)@.len() as int)),
                )
            }),
            (r matches Err(_) ==> final(tasks)@ == old(tasks)@ && final(self).inflight() == old(
                self,
            ).inflight()),
            final(self).raw_fd_spec() == old(self).raw_fd_spec(),
    {
        proof {
            use_type_invariant(&*self);
        }
        let ghost init_slots = self.slots@;
        let ghost init_tasks = tasks@;
        // one empty header's worth of space per queue slot
        let mut bufs: Vec<Vec<u8>> = Vec::new();
        let mut i: usize = 0;
        while i < sys::SG_MAX_QUEUE as usize
            invariant
                i <= sys::SG_MAX_QUEUE as usize,
                bufs@.len() == i as int,
                forall|k: int|
                    0 <= k < bufs@.len() ==> #[trigger] bufs@[k]@.len() == sys::HEADER_SIZE as int,
            decreases sys::SG_MAX_QUEUE as usize - i,
        {
            let b: Vec<u8> = vec![0u8; sys::HEADER_SIZE];
            bufs.push(b);
            i = i + 1;
        }
        // the vectored read, retried on a signal or while nothing is ready
        proof {
            lemma_total_len_uniform(bufs@, sys::HEADER_SIZE as int);
        }
        let mut res = readv_fd(self.fd, &mut bufs);
        let mut attempts: u64 = 0;
        while is_read_retry(&res) && attempts < RETRY_LIMIT
            invariant
                bufs@.len() == sys::SG_MAX_QUEUE as int,
                forall|k: int|
                    0 <= k < bufs@.len() ==> #[trigger] bufs@[k]@.len() == sys::HEADER_SIZE as int,
                (res matches Ok(nb) ==> nb as int <= sys::SG_MAX_QUEUE as int
                    * sys::HEADER_SIZE as int),
            decreases RETRY_LIMIT - attempts,
        {
            proof {
                lemma_total_len_uniform(bufs@, sys::HEADER_SIZE as int);
            }
            res = readv_fd(self.fd, &mut bufs);
            attempts = attempts + 1;
        }
        proof {
            lemma_total_len_uniform(bufs@, sys::HEADER_SIZE as int);
        }
        let nb = match res {
            Ok(nb) => nb,
            Err(e) => {
                return Err(SgError::Os(e));
            },
        };
        // how many whole headers came back; fewer than one breaks the
        // channel's contract
        let got = nb / sys::HEADER_SIZE;
        proof {
            vstd::arithmetic::div_mod::lemma_div_is_ordered(
                nb as int,
                sys::SG_MAX_QUEUE as int * sys::HEADER_SIZE as int,
                sys::HEADER_SIZE as int,
            );
            vstd::arithmetic::div_mod::lemma_div_multiples_vanish(
                sys::SG_MAX_QUEUE as int,
                sys::HEADER_SIZE as int,
            );
        }
        if got == 0 {
            return Err(SgError::Protocol);
        }
        // first pass: every returned header must name a distinct, filled
        // slot
        let mut pids: Vec<usize> = Vec::new();
        let mut j: usize = 0;
        while j < got
            invariant
                j <= got,
                pids@.len() == j as int,
                forall|k: int|
                    0 <= k < pids@.len() ==> #[trigger] pids@[k] < sys::SG_MAX_QUEUE as usize,
                forall|k: int|
                    0 <= k < pids@.len() ==> self.slots@[#[trigger] pids@[k] as int] is Some,
                forall|k1: int, k2: int|
                    0 <= k1 < k2 < pids@.len() ==> #[trigger] pids@[k1] != #[trigger] pids@[k2],
            decreases got - j,
        {
            let pid32 = header_pack_id(&bufs[j]);
            if pid32 >= sys::SG_MAX_QUEUE {
                return Err(SgError::Protocol);
            }
            let pid = pid32 as usize;
            if self.slots[pid].is_none() {
                return Err(SgError::Protocol);
            }
            if contains_usize(&pids, pid) {
                return Err(SgError::Protocol);
            }
            pids.push(pid);
            j = j + 1;
        }
        // second pass: hand each completed task back
        let mut j2: usize = 0;
        while j2 < got
            invariant
                j2 <= got,
                self.slots@.len() == sys::SG_MAX_QUEUE as int,
                tasks@.len() == init_tasks.len() + j2,
                tasks@.take(init_tasks.len() as int) == init_tasks,
                slots_cores(init_slots) == slots_cores(self.slots@).add(
                    seq_cores(tasks@.skip(init_tasks.len() as int)),
                ),
                forall|k: int|
                    j2 <= k < pids@.len() ==> self.slots@[#[trigger] pids@[k] as int] is Some,
                self.fd == old(self).fd,
            decreases got - j2,
        {
            let idx = pids[j2];
            let ghost before = self.slots@;
            let ghost appended_before = tasks@.skip(init_tasks.len() as int);
            let taken = slot_replace(&mut self.slots, idx, None);
            let mut t = taken.unwrap();
            let ghost t_old = t;
            t.complete_from_header(&bufs[j2]);
            tasks.push(t);
            proof {
                lemma_fill_slot(self.slots@, idx as int, t_old);
                assert(self.slots@.update(idx as int, Some(t_old)) =~= before);
                assert(slots_cores(self.slots@).insert(core_view(t_old@)) =~= slots_cores(
                    before,
                ));
                assert(core_view(t@) == core_view(t_old@));
                assert(tasks@.skip(init_tasks.len() as int) =~= appended_before.push(t));
                lemma_seq_cores_push(appended_before, t);
                assert(tasks@.take(init_tasks.len() as int) =~= init_tasks);
                assert forall|c: TaskCore|
                    slots_cores(init_slots).count(c) == slots_cores(self.slots@).add(
                        seq_cores(tasks@.skip(init_tasks.len() as int)),
                    ).count(c) by {
                    assert(slots_cores(before).count(c) == slots_cores(self.slots@).insert(
                        core_view(t_old@),
                    ).count(c));
                    assert(seq_cores(tasks@.skip(init_tasks.len() as int)).count(c) == seq_cores(
                        appended_before,
                    ).insert(core_view(t_old@)).count(c));
                }
                assert(slots_cores(init_slots) =~= slots_cores(self.slots@).add(
                    seq_cores(tasks@.skip(init_tasks.len() as int)),
                ));
            }
            j2 = j2 + 1;
        }
        Ok(got)
    }
}

} // verus!
