use x870e_lcd::protocol::upload::{step1_prep, step5_size_header, step6_finalize, step7_exit};
use x870e_lcd::protocol::{packet_announce_stream_frame, packet_set_mode, packet_sync, DisplayMode};
use x870e_lcd::session::{
    pad_to_chunks, DeviceAction, DeviceFailure, DeviceSession, HidAck, Procedure, StepOutcome,
};

/// Runs a procedure to its end with every step succeeding; returns every step handed out.
fn run_ok(p: Procedure, bulk_ok: impl Fn(&DeviceAction) -> usize) -> Vec<DeviceAction> {
    let (mut session, mut action) = DeviceSession::start(p);
    let mut steps = vec![action];
    for _ in 0..10_000 {
        if matches!(action, DeviceAction::Finish | DeviceAction::Abort(_)) {
            return steps;
        }
        let outcome = match action {
            DeviceAction::Await { .. } => StepOutcome::Acked,
            DeviceAction::WriteChunk { .. } | DeviceAction::WriteFrame { .. } => {
                StepOutcome::Transferred(bulk_ok(&action))
            }
            _ => StepOutcome::Completed,
        };
        action = session.advance(outcome);
        steps.push(action);
    }
    panic!("procedure did not end");
}

fn full(a: &DeviceAction) -> usize {
    match a {
        DeviceAction::WriteChunk { .. } => 4096,
        DeviceAction::WriteFrame { len, .. } => *len,
        _ => 0,
    }
}

#[test]
fn upload_runs_handshake_blocks_and_commit() {
    let steps = run_ok(Procedure::UploadImage { len: 5000, slot: 2 }, full);
    assert_eq!(steps.len(), 24 + 2 * 2);
    assert_eq!(steps[0], DeviceAction::Drain);
    assert_eq!(steps[1], DeviceAction::Send(step1_prep()));
    assert_eq!(
        steps[2],
        DeviceAction::Await { ack: HidAck::UploadReady, timeout_millis: 1000, required: false }
    );
    assert_eq!(steps[11], DeviceAction::Send(step5_size_header(5000)));
    assert_eq!(steps[14], DeviceAction::WriteChunk { offset: 0, timeout_millis: 5000 });
    assert_eq!(
        steps[15],
        DeviceAction::Await { ack: HidAck::ChunkStored, timeout_millis: 2000, required: true }
    );
    assert_eq!(steps[16], DeviceAction::WriteChunk { offset: 4096, timeout_millis: 5000 });
    assert_eq!(steps[19], DeviceAction::Send(step6_finalize()));
    assert_eq!(
        steps[20],
        DeviceAction::Await { ack: HidAck::FlashDone, timeout_millis: 5000, required: true }
    );
    assert_eq!(steps[21], DeviceAction::Send(step7_exit()));
    assert_eq!(steps[26], DeviceAction::Send(packet_set_mode(DisplayMode::CustomSlot(2))));
    assert_eq!(steps[27], DeviceAction::Finish);
    let chunks: Vec<usize> = steps
        .iter()
        .filter_map(|a| match a {
            DeviceAction::WriteChunk { offset, .. } => Some(*offset),
            _ => None,
        })
        .collect();
    assert_eq!(chunks, vec![0, 4096]);
}

#[test]
fn upload_of_empty_image_sends_no_block() {
    let steps = run_ok(Procedure::UploadImage { len: 0, slot: 0 }, full);
    assert_eq!(steps.len(), 24);
    assert!(!steps.iter().any(|a| matches!(a, DeviceAction::WriteChunk { .. })));
    assert_eq!(*steps.last().unwrap(), DeviceAction::Finish);
}

#[test]
fn optional_ack_timeout_goes_on_required_one_stops() {
    let (mut s, _) = DeviceSession::start(Procedure::UploadImage { len: 10, slot: 1 });
    s.advance(StepOutcome::Completed); // drained -> send prep
    let wait = s.advance(StepOutcome::Completed); // prep sent -> await ready
    assert!(matches!(wait, DeviceAction::Await { required: false, .. }));
    let next = s.advance(StepOutcome::TimedOut); // optional wait timed out: go on
    assert!(matches!(next, DeviceAction::Send(_)));

    let mut t = DeviceSession { procedure: Procedure::UploadImage { len: 10, slot: 1 }, next: 16, failure: None };
    // step 15 is the required acknowledgement of block 0
    let stop = t.advance(StepOutcome::TimedOut);
    assert_eq!(stop, DeviceAction::Abort(DeviceFailure::UploadTimeout));
    assert_eq!(t.advance(StepOutcome::Acked), stop);
}

#[test]
fn short_block_write_stops_upload() {
    let (mut s, _) = DeviceSession::start(Procedure::UploadImage { len: 9000, slot: 0 });
    let mut action = DeviceAction::Drain;
    while !matches!(action, DeviceAction::WriteChunk { .. }) {
        action = s.advance(StepOutcome::Completed);
    }
    let stop = s.advance(StepOutcome::Transferred(100));
    assert_eq!(
        stop,
        DeviceAction::Abort(DeviceFailure::BulkTransferFailed { transferred: 100, expected: 4096 })
    );
}

#[test]
fn erase_ends_on_default_wallpaper() {
    let steps = run_ok(Procedure::EraseSlot { slot: 4 }, full);
    assert_eq!(steps.len(), 12);
    assert!(matches!(steps[1], DeviceAction::Send(p) if p[1] == 0x72 && p[4] == 4));
    assert_eq!(
        steps[4],
        DeviceAction::Await { ack: HidAck::EraseDone, timeout_millis: 4000, required: false }
    );
    assert_eq!(steps[9], DeviceAction::Send(packet_sync()));
    assert_eq!(steps[10], DeviceAction::Send(packet_set_mode(DisplayMode::DefaultWallpaper(0))));
    assert_eq!(steps[11], DeviceAction::Finish);
}

#[test]
fn stream_frame_checks_size_then_announces_and_writes() {
    let bad = run_ok(Procedure::StreamFrame { len: 100 }, full);
    assert_eq!(
        bad,
        vec![DeviceAction::Abort(DeviceFailure::BulkTransferFailed {
            transferred: 100,
            expected: 3_686_400
        })]
    );
    let good = run_ok(Procedure::StreamFrame { len: 3_686_400 }, full);
    assert_eq!(good[0], DeviceAction::Drain);
    assert_eq!(good[1], DeviceAction::Send(packet_announce_stream_frame(3_686_400)));
    assert_eq!(
        good[2],
        DeviceAction::Await { ack: HidAck::FrameReady, timeout_millis: 500, required: true }
    );
    assert_eq!(good[3], DeviceAction::WriteFrame { len: 3_686_400, timeout_millis: 2000 });
    assert_eq!(good[4], DeviceAction::Finish);

    let short = run_ok(Procedure::StreamFrame { len: 3_686_400 }, |_| 1000);
    assert_eq!(
        *short.last().unwrap(),
        DeviceAction::Abort(DeviceFailure::BulkTransferFailed { transferred: 1000, expected: 3_686_400 })
    );
}

#[test]
fn acks_recognise_controller_reports() {
    assert!(HidAck::UploadReady.accepts(&[0xee, 0x12]));
    assert!(!HidAck::UploadReady.accepts(&[0xee]));
    assert!(HidAck::FlashStarted.accepts(&[0xee, 0x13, 0x00, 0x01]));
    assert!(!HidAck::FlashStarted.accepts(&[0xee, 0x13, 0x00, 0xff]));
    assert!(HidAck::ChunkStored.accepts(&[0xee, 0x14, 0x99]));
    assert!(HidAck::FlashDone.accepts(&[0xee, 0x13, 0x00, 0xff]));
    assert!(HidAck::EraseDone.accepts(&[0xee, 0x13, 0x00, 0x03]));
    assert!(HidAck::FrameReady.accepts(&[0xec, 0x7f, 0x00, 0x10]));
    assert!(!HidAck::FrameReady.accepts(&[0xec, 0x7f, 0x01]));
}

#[test]
fn padding_fills_whole_blocks_with_zeros() {
    let data = vec![7u8; 5000];
    let padded = pad_to_chunks(&data);
    assert_eq!(padded.len(), 8192);
    assert!(padded[..5000].iter().all(|b| *b == 7));
    assert!(padded[5000..].iter().all(|b| *b == 0));
    assert_eq!(pad_to_chunks(&[]).len(), 0);
    assert_eq!(pad_to_chunks(&vec![1u8; 4096]).len(), 4096);
}

#[test]
fn refused_frame_session_starts_stopped() {
    let (mut session, first) = DeviceSession::start(Procedure::StreamFrame { len: 100 });
    let abort = DeviceAction::Abort(DeviceFailure::BulkTransferFailed { transferred: 100, expected: 3_686_400 });
    assert_eq!(first, abort);
    assert_eq!(session.failure, Some(DeviceFailure::BulkTransferFailed { transferred: 100, expected: 3_686_400 }));
    assert_eq!(session.advance(StepOutcome::Completed), abort);
    assert_eq!(session.advance(StepOutcome::Completed), abort);
}
