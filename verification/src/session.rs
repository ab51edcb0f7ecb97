//! The panel's multi-step procedures (custom image upload, slot erase, live frame) as
//! sessions: each step says what to send, wait for or write next, and what the answer of
//! the controller to the previous step means.
use vstd::prelude::*;
use crate::flash::chunk_count;
use crate::protocol::upload::{
    erase_slot_packet, exit_packet, finalize_packet, flash_slot_packet, prep_packet,
    size_header_packet, start_packet, step0_delete_slot, step1_prep, step2_sync, step3_enable,
    step4_start, step5_size_header, step6_finalize, step7_exit, upload_sync_packet,
};
use crate::protocol::{
    announce_stream_frame_packet, packet_announce_stream_frame, packet_set_mode, packet_sync,
    set_mode_packet, sync_packet, DisplayMode, BULK_CHUNK_SIZE, FRAME_RAW_SIZE, PACKET_LEN,
};

verus! {

/// A report of the controller that a procedure waits for.
#[derive(Debug, Clone, Copy, PartialEq, Eq, Structural)]
pub enum HidAck {
    /// `ee 12`: ready for an upload.
    UploadReady,
    /// `ee 13 .. 01`: flash programming started.
    FlashStarted,
    /// `ee 14`: a 4096-byte block was written to SPI flash.
    ChunkStored,
    /// `ee 13 .. ff`: the upload was committed to flash.
    FlashDone,
    /// `ee 13 .. 03`: the slot was erased.
    EraseDone,
    /// `ec 7f 00`: ready for a live frame.
    FrameReady,
}

/// Whether the report `r` (the bytes that were read) is the acknowledgement `ack`.
pub open spec fn ack_accepts(ack: HidAck, r: Seq<u8>) -> bool {
    match ack {
        HidAck::UploadReady => r.len() >= 2 && r[0] == 0xee && r[1] == 0x12,
        HidAck::FlashStarted => r.len() >= 4 && r[0] == 0xee && r[1] == 0x13 && r[3] == 0x01,
        HidAck::ChunkStored => r.len() >= 2 && r[0] == 0xee && r[1] == 0x14,
        HidAck::FlashDone => r.len() >= 4 && r[0] == 0xee && r[1] == 0x13 && r[3] == 0xff,
        HidAck::EraseDone => r.len() >= 4 && r[0] == 0xee && r[1] == 0x13 && r[3] == 0x03,
        HidAck::FrameReady => r.len() >= 3 && r[0] == 0xec && r[1] == 0x7f && r[2] == 0x00,
    }
}

impl HidAck {
    /// Whether the report bytes read from the controller are this acknowledgement.
    pub fn accepts(&self, report: &[u8]) -> (b: bool)
        ensures
            b == ack_accepts(*self, report@),
    {
        let n = report.len();
        match self {
            HidAck::UploadReady => n >= 2 && report[0] == 0xee && report[1] == 0x12,
            HidAck::FlashStarted => n >= 4 && report[0] == 0xee && report[1] == 0x13 && report[3]
                == 0x01,
            HidAck::ChunkStored => n >= 2 && report[0] == 0xee && report[1] == 0x14,
            HidAck::FlashDone => n >= 4 && report[0] == 0xee && report[1] == 0x13 && report[3]
                == 0xff,
            HidAck::EraseDone => n >= 4 && report[0] == 0xee && report[1] == 0x13 && report[3]
                == 0x03,
            HidAck::FrameReady => n >= 3 && report[0] == 0xec && report[1] == 0x7f && report[2]
                == 0x00,
        }
    }
}

/// Why a procedure stopped.
#[derive(Debug, Clone, Copy, PartialEq, Eq, Structural)]
pub enum DeviceFailure {
    /// A bulk write moved another number of bytes than it was given.
    BulkTransferFailed { transferred: usize, expected: usize },
    /// A required acknowledgement did not come in time.
    UploadTimeout,
}

/// One step of a procedure, for the caller to perform.
#[derive(Debug, Clone, Copy, PartialEq, Eq)]
pub enum DeviceAction {
    /// Read and discard pending HID reports.
    Drain,
    /// Write this report on the HID channel.
    Send([u8; PACKET_LEN]),
    /// Wait this many milliseconds.
    Pause { millis: u64 },
    /// Read HID reports until `ack` comes or the time is up.
    Await { ack: HidAck, timeout_millis: u64, required: bool },
    /// Bulk-write the 4096 bytes at `offset` of the padded image.
    WriteChunk { offset: usize, timeout_millis: u64 },
    /// Bulk-write the whole frame of `len` bytes.
    WriteFrame { len: usize, timeout_millis: u64 },
    /// The procedure succeeded.
    Finish,
    /// The procedure failed.
    Abort(DeviceFailure),
}

/// What came of the step that was performed last.
#[derive(Debug, Clone, Copy, PartialEq, Eq, Structural)]
pub enum StepOutcome {
    /// A drain, write of a report or pause is over.
    Completed,
    /// The awaited acknowledgement came.
    Acked,
    /// The awaited acknowledgement did not come in time.
    TimedOut,
    /// A bulk write moved this many bytes.
    Transferred(usize),
}

/// A procedure of the panel.
#[derive(Debug, Clone, Copy, PartialEq, Eq, Structural)]
pub enum Procedure {
    /// Upload a JPEG of `len` bytes to custom slot `slot` and show it.
    UploadImage { len: usize, slot: u8 },
    /// Erase custom slot `slot` and go back to the default wallpaper.
    EraseSlot { slot: u8 },
    /// Send one live frame of `len` bytes.
    StreamFrame { len: usize },
}

/// `a` writes the report `bytes`.
pub open spec fn sends(a: DeviceAction, bytes: Seq<u8>) -> bool {
    a matches DeviceAction::Send(p) && p@ == bytes
}

pub open spec fn pause(millis: u64) -> DeviceAction {
    DeviceAction::Pause { millis }
}

pub open spec fn waits(ack: HidAck, timeout_millis: u64, required: bool) -> DeviceAction {
    DeviceAction::Await { ack, timeout_millis, required }
}

/// The handshake that opens an upload of `len` bytes to `slot`, step `k` of it.
pub open spec fn upload_opening(a: DeviceAction, len: nat, slot: u8, k: int) -> bool {
    if k == 0 {
        a == DeviceAction::Drain
    } else if k == 1 {
        sends(a, prep_packet())
    } else if k == 2 {
        a == waits(HidAck::UploadReady, 1000, false)
    } else if k == 3 {
        sends(a, upload_sync_packet())
    } else if k == 4 {
        a == pause(50)
    } else if k == 5 {
        a == DeviceAction::Drain
    } else if k == 6 {
        sends(a, flash_slot_packet(slot))
    } else if k == 7 {
        a == pause(50)
    } else if k == 8 {
        a == DeviceAction::Drain
    } else if k == 9 {
        sends(a, start_packet())
    } else if k == 10 {
        a == waits(HidAck::FlashStarted, 1000, false)
    } else if k == 11 {
        sends(a, size_header_packet((len % 0x1_0000_0000) as u32))
    } else if k == 12 {
        a == pause(50)
    } else {
        a == DeviceAction::Drain
    }
}

/// The steps that commit an upload to `slot` and show it, step `k` of them.
pub open spec fn upload_closing(a: DeviceAction, slot: u8, k: int) -> bool {
    if k == 0 {
        a == pause(50)
    } else if k == 1 {
        sends(a, finalize_packet())
    } else if k == 2 {
        a == waits(HidAck::FlashDone, 5000, true)
    } else if k == 3 {
        sends(a, exit_packet())
    } else if k == 4 {
        a == pause(50)
    } else if k == 5 {
        sends(a, sync_packet())
    } else if k == 6 {
        a == pause(50)
    } else if k == 7 {
        sends(a, sync_packet())
    } else if k == 8 {
        sends(a, set_mode_packet(DisplayMode::CustomSlot(slot)))
    } else {
        a == DeviceAction::Finish
    }
}

/// Step `k` of the upload of `len` bytes to `slot`: the handshake, then each 4096-byte block
/// of the zero-padded image followed by its acknowledgement, then the commit.
pub open spec fn upload_action(a: DeviceAction, len: nat, slot: u8, k: int) -> bool {
    let n = chunk_count(len);
    if k < 14 {
        upload_opening(a, len, slot, k)
    } else if k < 14 + 2 * n {
        if (k - 14) % 2 == 0 {
            a == (DeviceAction::WriteChunk {
                offset: (((k - 14) / 2) * 4096) as usize,
                timeout_millis: 5000,
            })
        } else {
            a == waits(HidAck::ChunkStored, 2000, true)
        }
    } else {
        upload_closing(a, slot, k - 14 - 2 * n)
    }
}

/// Step `k` of erasing `slot`.
pub open spec fn erase_action(a: DeviceAction, slot: u8, k: int) -> bool {
    if k == 0 {
        a == DeviceAction::Drain
    } else if k == 1 {
        sends(a, flash_slot_packet(slot))
    } else if k == 2 {
        a == pause(50)
    } else if k == 3 {
        sends(a, erase_slot_packet())
    } else if k == 4 {
        a == waits(HidAck::EraseDone, 4000, false)
    } else if k == 5 {
        sends(a, exit_packet())
    } else if k == 6 {
        a == pause(50)
    } else if k == 7 {
        sends(a, sync_packet())
    } else if k == 8 {
        a == pause(50)
    } else if k == 9 {
        sends(a, sync_packet())
    } else if k == 10 {
        sends(a, set_mode_packet(DisplayMode::DefaultWallpaper(0)))
    } else {
        a == DeviceAction::Finish
    }
}

/// Step `k` of sending a live frame of `len` bytes: refused at once unless it is a whole
/// 720x1280 BGRA frame.
pub open spec fn frame_action(a: DeviceAction, len: usize, k: int) -> bool {
    if len != FRAME_RAW_SIZE {
        a == DeviceAction::Abort(
            DeviceFailure::BulkTransferFailed { transferred: len, expected: FRAME_RAW_SIZE },
        )
    } else if k == 0 {
        a == DeviceAction::Drain
    } else if k == 1 {
        sends(a, announce_stream_frame_packet(FRAME_RAW_SIZE as u32))
    } else if k == 2 {
        a == waits(HidAck::FrameReady, 500, true)
    } else if k == 3 {
        a == (DeviceAction::WriteFrame { len, timeout_millis: 2000 })
    } else {
        a == DeviceAction::Finish
    }
}

/// The number of steps of a procedure that runs to its end.
pub open spec fn script_len(p: Procedure) -> nat {
    match p {
        Procedure::UploadImage { len, .. } => 24 + 2 * chunk_count(len as nat),
        Procedure::EraseSlot { .. } => 12,
        Procedure::StreamFrame { len } => if len == FRAME_RAW_SIZE {
            5
        } else {
            1
        },
    }
}

/// `a` is step `k` of procedure `p` when every earlier step succeeded.
pub open spec fn script_action(a: DeviceAction, p: Procedure, k: int) -> bool {
    &&& 0 <= k < script_len(p)
    &&& match p {
        Procedure::UploadImage { len, slot } => upload_action(a, len as nat, slot, k),
        Procedure::EraseSlot { slot } => erase_action(a, slot, k),
        Procedure::StreamFrame { len } => frame_action(a, len, k),
    }
}

/// What the outcome of step `prev` means: the failure that stops the procedure, if any.
pub open spec fn judged(prev: DeviceAction, outcome: StepOutcome) -> Option<DeviceFailure> {
    match prev {
        DeviceAction::Await { required, .. } => if required && outcome == StepOutcome::TimedOut {
            Some(DeviceFailure::UploadTimeout)
        } else {
            None
        },
        DeviceAction::WriteChunk { .. } => match outcome {
            StepOutcome::Transferred(t) => if t != 4096 {
                Some(DeviceFailure::BulkTransferFailed { transferred: t, expected: 4096 })
            } else {
                None
            },
            _ => None,
        },
        DeviceAction::WriteFrame { len, .. } => match outcome {
            StepOutcome::Transferred(t) => if t != len {
                Some(DeviceFailure::BulkTransferFailed { transferred: t, expected: len })
            } else {
                None
            },
            _ => None,
        },
        _ => None,
    }
}

/// Step `k` of `p` is an acknowledgement that must come.
pub open spec fn required_ack_at(p: Procedure, k: int) -> bool {
    match p {
        Procedure::UploadImage { len, .. } => {
            let n = chunk_count(len as nat);
            (14 <= k < 14 + 2 * n && (k - 14) % 2 == 1) || k == 14 + 2 * n + 2
        },
        Procedure::EraseSlot { .. } => false,
        Procedure::StreamFrame { len } => len == FRAME_RAW_SIZE && k == 2,
    }
}

/// The number of bytes that step `k` of `p` bulk-writes, if it is a bulk write.
pub open spec fn transfer_at(p: Procedure, k: int) -> Option<usize> {
    match p {
        Procedure::UploadImage { len, .. } => {
            let n = chunk_count(len as nat);
            if 14 <= k < 14 + 2 * n && (k - 14) % 2 == 0 {
                Some(4096usize)
            } else {
                None
            }
        },
        Procedure::EraseSlot { .. } => None,
        Procedure::StreamFrame { len } => if len == FRAME_RAW_SIZE && k == 3 {
            Some(len)
        } else {
            None
        },
    }
}

/// The failure that `outcome` of step `k` of `p` means, if any: a required acknowledgement
/// that timed out, or a bulk write that moved another number of bytes than it was given.
pub open spec fn failure_after(p: Procedure, k: int, outcome: StepOutcome) -> Option<DeviceFailure> {
    if required_ack_at(p, k) && outcome == StepOutcome::TimedOut {
        Some(DeviceFailure::UploadTimeout)
    } else {
        match (transfer_at(p, k), outcome) {
            (Some(n), StepOutcome::Transferred(t)) => if t != n {
                Some(DeviceFailure::BulkTransferFailed { transferred: t, expected: n })
            } else {
                None
            },
            _ => None,
        }
    }
}

/// A procedure under way: the step to hand out next, and the failure that stopped it.
#[derive(Debug, Clone, Copy, PartialEq, Eq)]
pub struct DeviceSession {
    pub procedure: Procedure,
    pub next: usize,
    pub failure: Option<DeviceFailure>,
}

/// The number of 4096-byte blocks of an upload of `len` bytes.
fn upload_chunks(len: usize) -> (n: usize)
    ensures
        n == chunk_count(len as nat),
        n <= len / 4096 + 1,
{
    len / BULK_CHUNK_SIZE + if len % BULK_CHUNK_SIZE != 0 {
        1
    } else {
        0
    }
}

/// The number of steps of `p`, as `script_len`.
fn steps_of(p: Procedure) -> (n: usize)
    ensures
        n == script_len(p),
{
    match p {
        Procedure::UploadImage { len, .. } => 24 + 2 * upload_chunks(len),
        Procedure::EraseSlot { .. } => 12,
        Procedure::StreamFrame { len } => if len == FRAME_RAW_SIZE {
            5
        } else {
            1
        },
    }
}

/// A report to write, as a step.
fn send(pkt: [u8; PACKET_LEN]) -> (a: DeviceAction)
    ensures
        sends(a, pkt@),
{
    DeviceAction::Send(pkt)
}

/// Step `k` of the upload handshake.
fn upload_opening_at(len: usize, slot: u8, k: usize) -> (a: DeviceAction)
    requires
        k < 14,
    ensures
        upload_opening(a, len as nat, slot, k as int),
{
    if k == 0 {
        DeviceAction::Drain
    } else if k == 1 {
        send(step1_prep())
    } else if k == 2 {
        DeviceAction::Await { ack: HidAck::UploadReady, timeout_millis: 1000, required: false }
    } else if k == 3 {
        send(step2_sync())
    } else if k == 4 {
        DeviceAction::Pause { millis: 50 }
    } else if k == 5 {
        DeviceAction::Drain
    } else if k == 6 {
        send(step3_enable(slot))
    } else if k == 7 {
        DeviceAction::Pause { millis: 50 }
    } else if k == 8 {
        DeviceAction::Drain
    } else if k == 9 {
        send(step4_start())
    } else if k == 10 {
        DeviceAction::Await { ack: HidAck::FlashStarted, timeout_millis: 1000, required: false }
    } else if k == 11 {
        let size = len as u32;
        let wide = len as u64;
        assert(size == (wide % 0x1_0000_0000u64) as u32) by (bit_vector)
            requires
                wide == len,
                size == len as u32,
        ;
        send(step5_size_header(size))
    } else if k == 12 {
        DeviceAction::Pause { millis: 50 }
    } else {
        DeviceAction::Drain
    }
}

/// Step `k` of the upload commit.
fn upload_closing_at(slot: u8, k: usize) -> (a: DeviceAction)
    requires
        k < 10,
    ensures
        upload_closing(a, slot, k as int),
{
    if k == 0 {
        DeviceAction::Pause { millis: 50 }
    } else if k == 1 {
        send(step6_finalize())
    } else if k == 2 {
        DeviceAction::Await { ack: HidAck::FlashDone, timeout_millis: 5000, required: true }
    } else if k == 3 {
        send(step7_exit())
    } else if k == 4 {
        DeviceAction::Pause { millis: 50 }
    } else if k == 5 {
        send(packet_sync())
    } else if k == 6 {
        DeviceAction::Pause { millis: 50 }
    } else if k == 7 {
        send(packet_sync())
    } else if k == 8 {
        send(packet_set_mode(DisplayMode::CustomSlot(slot)))
    } else {
        DeviceAction::Finish
    }
}

/// Step `k` of erasing `slot`.
fn erase_at(slot: u8, k: usize) -> (a: DeviceAction)
    requires
        k < 12,
    ensures
        erase_action(a, slot, k as int),
{
    if k == 0 {
        DeviceAction::Drain
    } else if k == 1 {
        let (p1, _p2) = step0_delete_slot(slot);
        send(p1)
    } else if k == 2 {
        DeviceAction::Pause { millis: 50 }
    } else if k == 3 {
        let (_p1, p2) = step0_delete_slot(slot);
        send(p2)
    } else if k == 4 {
        DeviceAction::Await { ack: HidAck::EraseDone, timeout_millis: 4000, required: false }
    } else if k == 5 {
        send(step7_exit())
    } else if k == 6 {
        DeviceAction::Pause { millis: 50 }
    } else if k == 7 {
        send(packet_sync())
    } else if k == 8 {
        DeviceAction::Pause { millis: 50 }
    } else if k == 9 {
        send(packet_sync())
    } else if k == 10 {
        send(packet_set_mode(DisplayMode::DefaultWallpaper(0)))
    } else {
        DeviceAction::Finish
    }
}

/// Step `k` of sending a live frame of `len` bytes.
fn frame_at(len: usize, k: usize) -> (a: DeviceAction)
    requires
        len == FRAME_RAW_SIZE ==> k < 5,
    ensures
        frame_action(a, len, k as int),
{
    if len != FRAME_RAW_SIZE {
        DeviceAction::Abort(
            DeviceFailure::BulkTransferFailed { transferred: len, expected: FRAME_RAW_SIZE },
        )
    } else if k == 0 {
        DeviceAction::Drain
    } else if k == 1 {
        send(packet_announce_stream_frame(3_686_400))
    } else if k == 2 {
        DeviceAction::Await { ack: HidAck::FrameReady, timeout_millis: 500, required: true }
    } else if k == 3 {
        DeviceAction::WriteFrame { len, timeout_millis: 2000 }
    } else {
        DeviceAction::Finish
    }
}

/// Step `k` of procedure `p`.
fn action_at(p: Procedure, k: usize) -> (a: DeviceAction)
    requires
        k < script_len(p),
    ensures
        script_action(a, p, k as int),
{
    match p {
        Procedure::UploadImage { len, slot } => {
            let n = upload_chunks(len);
            if k < 14 {
                upload_opening_at(len, slot, k)
            } else if k < 14 + 2 * n {
                let c = (k - 14) / 2;
                if (k - 14) % 2 == 0 {
                    assert(c * 4096 <= len) by (nonlinear_arith)
                        requires
                            c < n,
                            n == chunk_count(len as nat),
                    {
                    }
                    DeviceAction::WriteChunk { offset: c * BULK_CHUNK_SIZE, timeout_millis: 5000 }
                } else {
                    DeviceAction::Await {
                        ack: HidAck::ChunkStored,
                        timeout_millis: 2000,
                        required: true,
                    }
                }
            } else {
                upload_closing_at(slot, k - 14 - 2 * n)
            }
        },
        Procedure::EraseSlot { slot } => erase_at(slot, k),
        Procedure::StreamFrame { len } => frame_at(len, k),
    }
}

/// What the outcome of step `prev` means, as `judged`.
fn judge(prev: DeviceAction, outcome: StepOutcome) -> (r: Option<DeviceFailure>)
    ensures
        r == judged(prev, outcome),
{
    match prev {
        DeviceAction::Await { required, .. } => {
            if required && outcome == StepOutcome::TimedOut {
                Some(DeviceFailure::UploadTimeout)
            } else {
                None
            }
        },
        DeviceAction::WriteChunk { .. } => match outcome {
            StepOutcome::Transferred(t) => if t != BULK_CHUNK_SIZE {
                Some(DeviceFailure::BulkTransferFailed { transferred: t, expected: 4096 })
            } else {
                None
            },
            _ => None,
        },
        DeviceAction::WriteFrame { len, .. } => match outcome {
            StepOutcome::Transferred(t) => if t != len {
                Some(DeviceFailure::BulkTransferFailed { transferred: t, expected: len })
            } else {
                None
            },
            _ => None,
        },
        _ => None,
    }
}

/// What the outcome of a step of a script means depends only on its place in the script.
proof fn lemma_judged_by_place(a: DeviceAction, p: Procedure, k: int, o: StepOutcome)
    requires
        script_action(a, p, k),
    ensures
        judged(a, o) == failure_after(p, k, o),
{
}

impl DeviceSession {
    /// Starts procedure `p`: the session and its first step.
    /// A procedure refused before its first step (a live frame of the wrong size) starts
    /// stopped: its first step is the abort, and every later one repeats it.
    pub fn start(p: Procedure) -> (r: (DeviceSession, DeviceAction))
        ensures
            r.0.procedure == p,
            r.0.next == 1,
            r.0.failure == (match r.1 {
                DeviceAction::Abort(f) => Some(f),
                _ => None,
            }),
            script_action(r.1, p, 0),
    {
        let first = action_at(p, 0);
        let failure = match first {
            DeviceAction::Abort(f) => Some(f),
            _ => None,
        };
        (DeviceSession { procedure: p, next: 1, failure }, first)
    }

    /// Hands out the next step, given what came of the step handed out last.
    ///
    /// A required acknowledgement that timed out, or a bulk write that moved another number of
    /// bytes than it was given, stops the procedure; otherwise the next step of the script
    /// follows. A stopped or finished session keeps answering the same way.
    pub fn advance(&mut self, outcome: StepOutcome) -> (r: DeviceAction)
        ensures
            final(self).procedure == old(self).procedure,
            ({
                let p = old(self).procedure;
                let k = old(self).next as int;
                match old(self).failure {
                    Some(f) => r == DeviceAction::Abort(f) && *final(self) == *old(self),
                    None => if k == 0 || k > script_len(p) {
                        r == DeviceAction::Finish && *final(self) == *old(self)
                    } else {
                        match failure_after(p, k - 1, outcome) {
                            Some(f) => r == DeviceAction::Abort(f) && final(self).failure == Some(
                                f,
                            ) && final(self).next == k,
                            None => if k < script_len(p) {
                                script_action(r, p, k) && final(self).next == k + 1
                                    && final(self).failure is None
                            } else {
                                r == DeviceAction::Finish && *final(self) == *old(self)
                            },
                        }
                    },
                }
            }),
    {
        if let Some(f) = self.failure {
            return DeviceAction::Abort(f);
        }
        let p = self.procedure;
        let k = self.next;
        let total = steps_of(p);
        if k == 0 || k > total {
            return DeviceAction::Finish;
        }
        let prev = action_at(p, k - 1);
        proof {
            lemma_judged_by_place(prev, p, k - 1, outcome);
        }
        match judge(prev, outcome) {
            Some(f) => {
                self.failure = Some(f);
                DeviceAction::Abort(f)
            },
            None => {
                if k < total {
                    let a = action_at(p, k);
                    self.next = k + 1;
                    a
                } else {
                    DeviceAction::Finish
                }
            },
        }
    }
}

/// The image zero-padded to whole 4096-byte blocks for the bulk endpoint.
pub fn pad_to_chunks(data: &[u8]) -> (r: Vec<u8>)
    requires
        data@.len() + 4096 <= usize::MAX,
    ensures
        r@.len() == chunk_count(data@.len()) * 4096,
        r@.take(data@.len() as int) == data@,
        forall|i: int| data@.len() <= i < r@.len() ==> r@[i] == 0,
{
    let n = upload_chunks(data.len());
    assert(n * 4096 <= data@.len() + 4095) by (nonlinear_arith)
        requires
            n == chunk_count(data@.len()),
    {
    }
    let padded_len = n * BULK_CHUNK_SIZE;
    let mut out: Vec<u8> = Vec::new();
    let mut i: usize = 0;
    while i < padded_len
        invariant
            padded_len == chunk_count(data@.len()) * 4096,
            i <= padded_len,
            out@.len() == i,
            forall|j: int| 0 <= j < i ==> #[trigger] out@[j] == (if j < data@.len() {
                data@[j]
            } else {
                0u8
            }),
        decreases padded_len - i,
    {
        if i < data.len() {
            out.push(data[i]);
        } else {
            out.push(0);
        }
        i = i + 1;
    }
    assert(out@.take(data@.len() as int) =~= data@);
    out
}

/// Block `c` of a `len`-byte image starts inside the image and ends inside its padding.
proof fn lemma_block_in_image(len: nat, c: int)
    requires
        0 <= c < chunk_count(len),
    ensures
        c * 4096 < len,
        c * 4096 + 4096 <= chunk_count(len) * 4096,
{
    assert(c * 4096 < len) by (nonlinear_arith)
        requires
            0 <= c < chunk_count(len),
            chunk_count(len) == (len + 4095) / 4096,
    {
    }
    assert(c * 4096 + 4096 <= chunk_count(len) * 4096) by (nonlinear_arith)
        requires
            0 <= c < chunk_count(len),
    {
    }
}

/// Law: an upload writes each 4096-byte block of the padded image at one place of its script
/// only, the block starts inside the image and ends inside the padding, and the step after it
/// waits for that block's acknowledgement before anything else is written.
pub proof fn law_upload_writes_each_block_once(len: usize, slot: u8, a: DeviceAction, k: int)
    requires
        script_action(a, Procedure::UploadImage { len, slot }, k),
        a is WriteChunk,
    ensures
        a->offset % 4096 == 0,
        a->offset < len,
        a->offset + 4096 <= chunk_count(len as nat) * 4096,
        k == 14 + 2 * (a->offset / 4096),
        required_ack_at(Procedure::UploadImage { len, slot }, k + 1),
{
    let n = chunk_count(len as nat);
    assert(14 <= k < 14 + 2 * n && (k - 14) % 2 == 0);
    let c = (k - 14) / 2;
    lemma_block_in_image(len as nat, c);
    assert(a->offset == c * 4096);
}

/// Law: an upload that runs to its end shows the uploaded slot: its last report selects that
/// custom slot, and the step after it finishes the procedure.
pub proof fn law_upload_shows_uploaded_slot(len: usize, slot: u8, a: DeviceAction, b: DeviceAction)
    requires
        script_action(a, Procedure::UploadImage { len, slot }, script_len(Procedure::UploadImage { len, slot }) - 2),
        script_action(b, Procedure::UploadImage { len, slot }, script_len(Procedure::UploadImage { len, slot }) - 1),
    ensures
        sends(a, set_mode_packet(DisplayMode::CustomSlot(slot))),
        b == DeviceAction::Finish,
{
}

/// Law: an upload is committed only after every block: the finalize report follows the last
/// block's acknowledgement, and its confirmation (`ee 13 .. ff`) must come.
pub proof fn law_upload_finalize_confirmed(len: usize, slot: u8, a: DeviceAction, b: DeviceAction)
    requires
        script_action(a, Procedure::UploadImage { len, slot }, 14 + 2 * chunk_count(len as nat) as int + 1),
        script_action(b, Procedure::UploadImage { len, slot }, 14 + 2 * chunk_count(len as nat) as int + 2),
    ensures
        sends(a, finalize_packet()),
        b == waits(HidAck::FlashDone, 5000, true),
        required_ack_at(Procedure::UploadImage { len, slot }, 14 + 2 * chunk_count(len as nat) as int + 2),
        forall|k: int|
            14 + 2 * chunk_count(len as nat) <= k < script_len(Procedure::UploadImage { len, slot })
                ==> transfer_at(Procedure::UploadImage { len, slot }, k) is None,
{
}

/// Law: an upload announces the true size of the image (modulo 2^32) before its first block.
pub proof fn law_upload_announces_size(len: usize, slot: u8, a: DeviceAction)
    requires
        script_action(a, Procedure::UploadImage { len, slot }, 11),
    ensures
        sends(a, size_header_packet((len as nat % 0x1_0000_0000) as u32)),
{
}

/// Law: erasing a slot ends on the default wallpaper, and no step of it can fail.
pub proof fn law_erase_ends_on_default_wallpaper(slot: u8, a: DeviceAction, k: int, o: StepOutcome)
    requires
        script_action(a, Procedure::EraseSlot { slot }, 10),
    ensures
        sends(a, set_mode_packet(DisplayMode::DefaultWallpaper(0))),
        failure_after(Procedure::EraseSlot { slot }, k, o) is None,
{
}

/// Law: a live frame of any size but a whole 720x1280 BGRA frame is refused before anything is
/// sent: its one step stops the procedure with the size that was given; a whole frame is
/// announced with its size and written only after the controller is ready.
pub proof fn law_stream_frame_size_checked(len: usize, a: DeviceAction, k: int)
    requires
        script_action(a, Procedure::StreamFrame { len }, k),
    ensures
        len != FRAME_RAW_SIZE ==> k == 0 && a == DeviceAction::Abort(
            DeviceFailure::BulkTransferFailed { transferred: len, expected: FRAME_RAW_SIZE },
        ),
        len == FRAME_RAW_SIZE && a is WriteFrame ==> k == 3 && required_ack_at(
            Procedure::StreamFrame { len },
            2,
        ),
{
}

} // verus!
