use anyplug::batcher::{default_batch_timeout, UrbBatcher, DEFAULT_BATCH_SIZE, MAX_BATCH_CAPACITY};
use anyplug::protocol::URB_DIR_IN;
use anyplug::reply::serialize_reply;
use anyplug::urb::UsbIpCmdSubmit;
use anyplug::urb_executor::UrbResult;
use std::time::Duration;

fn make_cmd(seqnum: u32, ep: u32, len: u32) -> UsbIpCmdSubmit {
    UsbIpCmdSubmit {
        seqnum,
        devid: 1,
        direction: 1,
        ep,
        transfer_flags: URB_DIR_IN,
        transfer_buffer_length: len,
        start_frame: 0,
        number_of_packets: 0,
        interval: 0,
        setup: [0u8; 8],
    }
}

fn make_result(len: u32) -> UrbResult {
    UrbResult { status: 0, actual_length: len, data: vec![0xAB; len as usize] }
}

#[test]
fn test_new_batcher_is_empty() {
    let b = UrbBatcher::new();
    assert!(b.is_empty());
    assert_eq!(b.len(), 0);
}

#[test]
fn test_push_first_urb_does_not_flush() {
    let mut b = UrbBatcher::new();
    let cmd = make_cmd(1, 0x81, 8);
    let result = make_result(8);
    assert!(!b.push(&cmd, &result), "first URB should not trigger flush");
    assert_eq!(b.len(), 1);
}

#[test]
fn test_push_up_to_batch_size() {
    let mut b = UrbBatcher::with_config(4, Duration::from_secs(60));
    for i in 1..=4 {
        let cmd = make_cmd(i, 0x81, 4);
        let result = make_result(4);
        let should_flush = b.push(&cmd, &result);
        if i < 4 {
            assert!(!should_flush, "URB {} should not flush", i);
        } else {
            assert!(should_flush, "URB 4 (batch full) should flush");
        }
    }
    assert_eq!(b.len(), 4);
}

#[test]
fn test_flush_returns_data_and_resets() {
    let mut b = UrbBatcher::new();
    let cmd = make_cmd(1, 0x81, 8);
    let result = make_result(8);
    b.push(&cmd, &result);

    let data = b.flush();
    assert!(!data.is_empty(), "flush should return data");
    assert!(b.is_empty(), "batcher should be empty after flush");
    assert_eq!(b.len(), 0);
}

#[test]
fn test_flush_empty_returns_empty() {
    let mut b = UrbBatcher::new();
    let data = b.flush();
    assert!(data.is_empty(), "flush on empty batcher should return empty vec");
}

#[test]
fn test_push_non_sequential_triggers_flush() {
    let mut b = UrbBatcher::new();
    let cmd1 = make_cmd(1, 0x81, 4);
    let result1 = make_result(4);
    b.push(&cmd1, &result1);

    let cmd5 = make_cmd(5, 0x81, 4);
    let result5 = make_result(4);
    let should_flush = b.push(&cmd5, &result5);
    assert!(should_flush, "non-sequential seqnum should trigger flush");
}

#[test]
fn test_sequential_seqnus_stay_in_batch() {
    let mut b = UrbBatcher::new();
    for i in 1..=5 {
        let cmd = make_cmd(i, 0x81, 4);
        let result = make_result(4);
        let _ = b.push(&cmd, &result);
    }
    assert!(!b.is_empty());
}

#[test]
fn test_seqnum_wraparound_is_sequential() {
    let mut b = UrbBatcher::new();
    let cmd_max = make_cmd(u32::MAX, 0x81, 4);
    let result_max = make_result(4);
    b.push(&cmd_max, &result_max);

    let cmd_wrap = make_cmd(0, 0x81, 4);
    let result_wrap = make_result(4);
    let should_flush = b.push(&cmd_wrap, &result_wrap);
    assert!(!should_flush, "u32 wraparound should be treated as sequential");
}

#[test]
fn test_large_urb_triggers_capacity_flush() {
    let mut b = UrbBatcher::new();
    let cmd = make_cmd(1, 0x81, 65536);
    let result = UrbResult { status: 0, actual_length: 65536, data: vec![0; 65536] };
    let should_flush = b.push(&cmd, &result);
    assert!(should_flush);
}

#[test]
fn test_timeout_check() {
    let mut b = UrbBatcher::new();
    assert!(!b.should_timeout(), "empty batcher should not timeout");

    let cmd = make_cmd(1, 0x81, 4);
    let result = make_result(4);
    b.push(&cmd, &result);

    assert!(!b.should_timeout(), "timeout should not trigger immediately");
}

#[test]
fn test_push_after_flush_resumes_batching() {
    let mut b = UrbBatcher::new();
    let cmd1 = make_cmd(1, 0x81, 4);
    let result1 = make_result(4);
    b.push(&cmd1, &result1);
    let _ = b.flush();

    assert!(b.is_empty());
    assert_eq!(b.len(), 0);

    let cmd2 = make_cmd(2, 0x81, 4);
    let result2 = make_result(4);
    b.push(&cmd2, &result2);
    assert_eq!(b.len(), 1);
}

#[test]
fn test_mixed_in_out_urbs() {
    let mut b = UrbBatcher::new();
    let cmd_in = make_cmd(1, 0x81, 8);
    let result_in = make_result(8);
    b.push(&cmd_in, &result_in);

    let cmd_out = UsbIpCmdSubmit {
        seqnum: 2,
        devid: 1,
        direction: 0,
        ep: 0x02,
        transfer_flags: 0,
        transfer_buffer_length: 0,
        start_frame: 0,
        number_of_packets: 0,
        interval: 0,
        setup: [0u8; 8],
    };
    let result_out = UrbResult { status: 0, actual_length: 4, data: Vec::new() };
    let should_flush = b.push(&cmd_out, &result_out);
    assert!(!should_flush, "mix of IN/OUT should batch normally");
    assert_eq!(b.len(), 2);
}

#[test]
fn batch_bytes_are_the_serialized_replies_in_order() {
    let mut b = UrbBatcher::new();
    let c1 = make_cmd(7, 0x81, 3);
    let r1 = make_result(3);
    let c2 = make_cmd(8, 0x81, 0);
    let r2 = UrbResult { status: -5, actual_length: 0, data: Vec::new() };
    assert!(!b.push(&c1, &r1));
    assert!(!b.push(&c2, &r2));
    let mut expected = serialize_reply(&c1, 0, 3, &r1.data);
    expected.extend_from_slice(&serialize_reply(&c2, -5, 0, &[]));
    assert_eq!(b.flush(), expected);
}

#[test]
fn refused_push_leaves_batch_unchanged() {
    let mut b = UrbBatcher::new();
    let c1 = make_cmd(1, 0x81, 4);
    b.push(&c1, &make_result(4));
    let c9 = make_cmd(9, 0x81, 4);
    assert!(b.push(&c9, &make_result(4)));
    assert_eq!(b.len(), 1);
    assert_eq!(b.flush().len(), 52 + 4);
}

#[test]
fn capacity_budget_counts_52_bytes_per_reply() {
    // 65536 - 52 bytes of data exactly fit an empty batch; one more does not.
    let mut b = UrbBatcher::new();
    let n = (MAX_BATCH_CAPACITY - 52) as u32;
    let cmd = make_cmd(1, 0x81, n);
    let result = UrbResult { status: 0, actual_length: n, data: vec![0; n as usize] };
    assert!(!b.push(&cmd, &result));
    assert_eq!(b.len(), 1);
    assert_eq!(b.flush().len(), MAX_BATCH_CAPACITY);
    let m = n + 1;
    let big = UrbResult { status: 0, actual_length: m, data: vec![0; m as usize] };
    assert!(b.push(&make_cmd(2, 0x81, m), &big));
    assert_eq!(b.len(), 0);
}

#[test]
fn submit_keeps_every_reply_in_order() {
    let mut b = UrbBatcher::with_config(2, Duration::from_secs(60));
    let mut sent: Vec<u8> = Vec::new();
    let mut expected: Vec<u8> = Vec::new();
    for (seq, n) in [(1u32, 4u32), (2, 8), (7, 16), (8, 1)] {
        let cmd = make_cmd(seq, 0x81, n);
        let result = make_result(n);
        expected.extend(anyplug::reply::serialize_reply(&cmd, result.status, result.actual_length, &result.data));
        for frame in b.submit(&cmd, &result) {
            assert!(!frame.is_empty());
            sent.extend(frame);
        }
    }
    sent.extend(b.flush());
    assert_eq!(sent, expected);
}

#[test]
fn submit_sends_an_oversized_reply_alone() {
    let mut b = UrbBatcher::new();
    let n = MAX_BATCH_CAPACITY as u32;
    let cmd = make_cmd(1, 0x81, n);
    let result = UrbResult { status: 0, actual_length: n, data: vec![1; n as usize] };
    let frames = b.submit(&cmd, &result);
    assert_eq!(frames.len(), 1);
    assert_eq!(frames[0].len(), 52 + MAX_BATCH_CAPACITY);
    assert!(b.is_empty());
    assert!(b.flush_if_due().is_none());
}

#[test]
fn out_of_sequence_after_flush_is_accepted() {
    let mut b = UrbBatcher::new();
    b.push(&make_cmd(1, 0x81, 1), &make_result(1));
    let _ = b.flush();
    assert!(!b.push(&make_cmd(40, 0x81, 1), &make_result(1)));
    assert_eq!(b.len(), 1);
}

#[test]
fn default_batch_settings() {
    assert_eq!(DEFAULT_BATCH_SIZE, 8);
    assert_eq!(default_batch_timeout(), Duration::from_micros(200));
}
