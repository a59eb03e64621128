use sg::{Device, SgError, Task};

/// A fifo in the temporary directory stands in for a device node: the
/// kernel hands every submitted wire header straight back, which looks
/// like a device completing each command with all-clear status.
fn fifo_path(name: &str) -> String {
    let path = format!("/tmp/sg_loopback_{}", name);
    let _ = nix::unistd::unlink(path.as_str());
    nix::unistd::mkfifo(
        path.as_str(),
        nix::sys::stat::Mode::S_IRUSR | nix::sys::stat::Mode::S_IWUSR,
    )
    .expect("mkfifo");
    path
}

#[test]
fn open_missing_node_fails_with_errno() {
    let r = Device::open("/tmp/sg_no_such_device_node");
    match r {
        Err(SgError::Os(errno)) => assert_eq!(errno, 2), // ENOENT
        _ => panic!("open of a missing node must fail with the OS errno"),
    }
}

#[test]
fn send_empty_batch_is_a_no_op() {
    let mut device = Device::open("/dev/null").expect("open");
    let mut batch: Vec<Task> = Vec::new();
    assert_eq!(device.send(&mut batch), Ok(0));
    assert!(batch.is_empty());
}

#[test]
fn receive_on_silent_channel_is_a_protocol_violation() {
    // reading the null device yields zero bytes: less than one header
    let mut device = Device::open("/dev/null").expect("open");
    let mut done: Vec<Task> = Vec::new();
    assert_eq!(device.receive(&mut done), Err(SgError::Protocol));
    assert!(done.is_empty());
}

#[test]
fn batched_round_trip_matches_tags() {
    let path = fifo_path("tags");
    let mut device = Device::open(&path).expect("open fifo");
    let tags: [usize; 3] = [11, 22, 33];
    let mut batch: Vec<Task> = Vec::new();
    for (i, &tag) in tags.iter().enumerate() {
        let mut task = Task::new();
        task.set_cdb(&[i as u8; 6]);
        task.set_user_tag(tag);
        batch.push(task);
    }
    let sent = device.send(&mut batch).expect("send");
    assert!(sent <= 3);
    assert_eq!(sent, 3);
    assert!(batch.is_empty());

    let mut done: Vec<Task> = Vec::new();
    while done.len() < 3 {
        let got = device.receive(&mut done).expect("receive");
        assert!(got >= 1);
    }
    assert_eq!(done.len(), 3);
    // every submitted tag is reaped exactly once
    let mut seen: Vec<usize> = done.iter().map(|t| t.user_tag()).collect();
    seen.sort();
    assert_eq!(seen, vec![11, 22, 33]);
    for task in &done {
        assert!(task.ok());
        assert_eq!(task.cdb().len(), 6);
    }
    let _ = nix::unistd::unlink(path.as_str());
}

#[test]
fn oversized_batch_reports_at_most_queue_depth() {
    let path = fifo_path("depth");
    let mut device = Device::open(&path).expect("open fifo");
    let requested = 20;
    let mut batch: Vec<Task> = Vec::new();
    for i in 0..requested {
        let mut task = Task::new();
        task.set_cdb(&[0; 6]);
        task.set_user_tag(1000 + i);
        batch.push(task);
    }
    let sent = device.send(&mut batch).expect("send");
    assert!(sent <= sg::sys::SG_MAX_QUEUE as usize);
    assert!(sent <= requested);
    assert_eq!(sent, sg::sys::SG_MAX_QUEUE as usize);
    assert_eq!(batch.len(), requested - sent);
    // the untouched remainder keeps its order
    assert_eq!(batch[0].user_tag(), 1000 + sent);

    // drain the queue so a second send could proceed
    let mut done: Vec<Task> = Vec::new();
    while done.len() < sent {
        device.receive(&mut done).expect("receive");
    }
    assert_eq!(done.len(), sent);
    let _ = nix::unistd::unlink(path.as_str());
}

#[test]
fn send_on_full_queue_accepts_nothing() {
    let path = fifo_path("full");
    let mut device = Device::open(&path).expect("open fifo");
    let mut batch: Vec<Task> = Vec::new();
    for i in 0..sg::sys::SG_MAX_QUEUE as usize {
        let mut task = Task::new();
        task.set_user_tag(i);
        batch.push(task);
    }
    assert_eq!(device.send(&mut batch), Ok(sg::sys::SG_MAX_QUEUE as usize));
    let mut extra: Vec<Task> = Vec::new();
    extra.push(Task::new());
    extra.push(Task::new());
    // every slot is occupied, so nothing can be accepted
    assert_eq!(device.send(&mut extra), Ok(0));
    assert_eq!(extra.len(), 2);
    let mut done: Vec<Task> = Vec::new();
    while done.len() < sg::sys::SG_MAX_QUEUE as usize {
        device.receive(&mut done).expect("receive");
    }
    let _ = nix::unistd::unlink(path.as_str());
}

#[test]
fn short_submission_resubmits_remainder() {
    let path = fifo_path("resubmit");
    let mut device = Device::open(&path).expect("open fifo");
    let mut batch: Vec<Task> = Vec::new();
    for i in 0..20 {
        let mut task = Task::new();
        task.set_user_tag(i);
        batch.push(task);
    }
    let first = device.send(&mut batch).expect("send");
    let mut done: Vec<Task> = Vec::new();
    while done.len() < first {
        device.receive(&mut done).expect("receive");
    }
    // with the queue drained the rest goes through
    let second = device.send(&mut batch).expect("send again");
    assert_eq!(first + second, 20);
    assert!(batch.is_empty());
    while done.len() < 20 {
        device.receive(&mut done).expect("receive rest");
    }
    let mut seen: Vec<usize> = done.iter().map(|t| t.user_tag()).collect();
    seen.sort();
    let all: Vec<usize> = (0..20).collect();
    assert_eq!(seen, all);
    let _ = nix::unistd::unlink(path.as_str());
}
