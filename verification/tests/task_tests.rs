use std::time::Duration;

use sg::sys;
use sg::{Direction, Task};

#[test]
fn test_sys() {
    assert_eq!(sys::SG_IO, 0x2285);
}

#[test]
fn test_cdb() {
    let cdb = [0; 6];
    let mut task = Task::new();
    task.set_cdb(&cdb);
}

#[test]
fn cdb_round_trip() {
    let mut task = Task::new();
    task.set_cdb(&[0x12, 0x00, 0x00, 0x00, 0x24, 0x00]);
    assert_eq!(task.cdb(), &[0x12, 0x00, 0x00, 0x00, 0x24, 0x00]);
    assert_eq!(task.cdb().len(), 6);
}

#[test]
fn cdb_round_trip_max_length() {
    let bytes: Vec<u8> = (0..255u8).map(|i| i.wrapping_mul(3)).collect();
    let mut task = Task::new();
    task.set_cdb(&bytes);
    assert_eq!(task.cdb(), bytes.as_slice());
    assert_eq!(task.cdb().len(), 255);
}

#[test]
fn timeout_round_trip() {
    let mut task = Task::new();
    task.set_timeout(Duration::from_millis(1500));
    assert_eq!(task.timeout(), Duration::from_millis(1500));
}

#[test]
fn timeout_truncates_sub_milliseconds() {
    let mut task = Task::new();
    task.set_timeout(Duration::new(1, 999_999));
    assert_eq!(task.timeout(), Duration::from_millis(1000));
    task.set_timeout(Duration::from_micros(2500));
    assert_eq!(task.timeout(), Duration::from_millis(2));
}

#[test]
fn timeout_truncates_beyond_field_width() {
    let mut task = Task::new();
    task.set_timeout(Duration::from_millis(0x1_0000_0005));
    assert_eq!(task.timeout(), Duration::from_millis(5));
}

#[test]
fn builder_chains() {
    let mut task = Task::new();
    task.set_cdb(&[1, 2])
        .set_timeout(Duration::from_millis(10))
        .set_flags(sys::SG_FLAG_Q_AT_TAIL)
        .set_user_tag(42);
    assert_eq!(task.cdb(), &[1, 2]);
    assert_eq!(task.timeout(), Duration::from_millis(10));
    assert_eq!(task.flags(), sys::SG_FLAG_Q_AT_TAIL);
    assert_eq!(task.user_tag(), 42);
}

#[test]
fn data_round_trip() {
    let mut task = Task::new();
    task.set_data(&[7, 8, 9], Direction::ToDevice);
    assert_eq!(task.data(), &[7, 8, 9]);
    task.data_mut()[1] = 80;
    assert_eq!(task.data(), &[7, 80, 9]);
}

#[test]
fn new_task_header_tag_and_direction() {
    let task = Task::new();
    let hdr = task.to_header_bytes(0, 0, 0, 0);
    assert_eq!(hdr.len(), sys::HEADER_SIZE);
    // interface tag: the byte value of 'S' as a little-endian word
    assert_eq!(&hdr[0..4], &[83, 0, 0, 0]);
    // direction "none": -1 in two's complement
    assert_eq!(&hdr[4..8], &[0xff, 0xff, 0xff, 0xff]);
    // no buffers, no timeout, no flags
    assert!(hdr[8..52].iter().all(|&b| b == 0));
}

#[test]
fn header_layout_exact() {
    let mut task = Task::new();
    task.set_cdb(&[1, 2, 3, 4, 5, 6]);
    task.set_data(&[0xaa, 0xbb], Direction::ToDevice);
    task.set_sense_buffer(&[0, 0, 0, 0]);
    task.set_timeout(Duration::from_millis(0x04d2));
    task.set_flags(sys::SG_FLAG_Q_AT_TAIL);
    task.set_user_tag(0xdead_beef);
    let hdr = task.to_header_bytes(7, 0x1111, 0x2222, 0x3333);
    assert_eq!(hdr.len(), 88);
    assert_eq!(&hdr[0..4], &[83, 0, 0, 0]); // interface tag
    assert_eq!(&hdr[4..8], &[0xfe, 0xff, 0xff, 0xff]); // host-to-device
    assert_eq!(hdr[8], 6); // command length
    assert_eq!(hdr[9], 4); // sense storage length
    assert_eq!(&hdr[10..12], &[0, 0]); // no caller-side scattering
    assert_eq!(&hdr[12..16], &[2, 0, 0, 0]); // transfer length
    assert_eq!(&hdr[16..24], &[0x22, 0x22, 0, 0, 0, 0, 0, 0]); // transfer address
    assert_eq!(&hdr[24..32], &[0x11, 0x11, 0, 0, 0, 0, 0, 0]); // command address
    assert_eq!(&hdr[32..40], &[0x33, 0x33, 0, 0, 0, 0, 0, 0]); // sense address
    assert_eq!(&hdr[40..44], &[0xd2, 0x04, 0, 0]); // timeout in milliseconds
    assert_eq!(&hdr[44..48], &[0x10, 0, 0, 0]); // flags
    assert_eq!(&hdr[48..52], &[7, 0, 0, 0]); // correlation number
    assert_eq!(&hdr[52..56], &[0, 0, 0, 0]); // padding
    assert_eq!(&hdr[56..64], &[0xef, 0xbe, 0xad, 0xde, 0, 0, 0, 0]); // user tag
    assert!(hdr[64..88].iter().all(|&b| b == 0)); // completion fields
}

#[test]
fn completion_fields_read_back() {
    let mut task = Task::new();
    task.set_cdb(&[0; 6]);
    let mut reply = task.to_header_bytes(0, 0, 0, 0);
    reply[64] = 2; // status
    reply[67] = 0; // sense bytes written
    reply[68] = 0x01; // host status, low byte
    reply[70] = 0x08; // driver status, low byte
    reply[72] = 5; // residual count
    reply[76] = 0x2c;
    reply[77] = 0x01; // duration 300 ms
    task.complete_from_header(&reply);
    assert_eq!(task.status(), 2);
    assert_eq!(task.host_status(), 1);
    assert_eq!(task.driver_status(), 8);
    assert_eq!(task.residual_data(), 5);
    assert_eq!(task.duration(), 300);
    assert!(task.ok()); // info word untouched: completed normally
}

#[test]
fn ok_false_when_outcome_flag_set() {
    let mut task = Task::new();
    let mut reply = task.to_header_bytes(0, 0, 0, 0);
    reply[80] = sys::SG_INFO_OK_MASK as u8 | 0x02;
    task.complete_from_header(&reply);
    assert!(!task.ok());
}

#[test]
fn sense_exposed_only_up_to_written_length() {
    let mut task = Task::new();
    task.set_sense_buffer(&[0x70, 0x11, 0x22, 0x33]);
    // before any completion nothing meaningful was written
    assert_eq!(task.sense_buffer(), &[] as &[u8]);
    let mut reply = task.to_header_bytes(0, 0, 0, 0);
    reply[67] = 2; // the kernel wrote two sense bytes
    task.complete_from_header(&reply);
    assert_eq!(task.sense_buffer(), &[0x70, 0x11]);
}

#[test]
fn sense_exposed_never_beyond_storage() {
    let mut task = Task::new();
    task.set_sense_buffer(&[9, 9, 9]);
    let mut reply = task.to_header_bytes(0, 0, 0, 0);
    reply[67] = 200; // a written length larger than the storage
    task.complete_from_header(&reply);
    assert_eq!(task.sense_buffer(), &[9, 9, 9]);
}
