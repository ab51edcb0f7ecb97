//! The firmware flashing protocol of the panel's USB bootloader: its command packets,
//! the checks made on an image before it is flashed, and the address rule.
//!
//!   0. `ec 10 aa 41 53 55 53 aa`          -> ACK `ec 10 00` (enter bootloader; the device
//!                                            re-enumerates as 0x1c82, "Update Mode")
//!   1. `ec 8c` info probe                 -> ACK `ec 0c 00` + SPI NOR info
//!   2. `ec 20 02 01 01 <addr> <size>`     -> ACK `ec 20 00` (erase/prepare)
//!   3. `ec 7f 01 <size>`                  -> ACK `ec 7f 00 <chunk_le32>`
//!   4. N x 4096 B bulk EP 0x02 writes     -> per-packet ACK `ee 01`
//!   5. `ec 2f "DevRst"`                   -> ACK `ec 2f 00` (verify + reboot)
use vstd::prelude::*;
use vstd::string::StringExecFns;
use crate::patches::{
    calculate_sum32, splice, stored_sum32, sum32, sum32_accepts, u32_le_bytes, with_checksum,
    EXPECTED_FW_SIZE,
};
use crate::protocol::{command_packet, new_packet, PACKET_LEN};
use crate::text::{
    chars_of, hex_lower_padded, number_error_text, parse_u32_in, parse_u32_radix,
    push_hex_lower_padded,
};

verus! {

/// Destination address of the firmware region in SPI NOR (the bootloader occupies 0..1 MB).
pub const DEFAULT_FLASH_ADDR: u32 = 0x0010_0000;

/// Size of one bulk packet of the firmware transfer.
pub const FLASH_CHUNK_SIZE: usize = 4096;

/// Whether the text starts with a `0x` or `0X` hexadecimal prefix.
pub open spec fn has_hex_prefix(s: Seq<char>) -> bool {
    s.len() >= 2 && s[0] == '0' && (s[1] == 'x' || s[1] == 'X')
}

/// The address that `validate_flash_addr` accepts for the text `s`, or the message with
/// which it refuses it.
pub open spec fn flash_addr_result(s: Seq<char>) -> Result<u32, Seq<char>> {
    let parsed = if has_hex_prefix(s) {
        parse_u32_radix(s.skip(2), 16)
    } else {
        parse_u32_radix(s, 10)
    };
    match parsed {
        Err(e) => Err(
            (if has_hex_prefix(s) {
                "Invalid hex address: "@
            } else {
                "Invalid address: "@
            }) + number_error_text(e),
        ),
        Ok(a) => if a < DEFAULT_FLASH_ADDR {
            Err(
                "Address 0x"@ + hex_lower_padded(a as nat, 8)
                    + " is below minimum allowed address 0x00100000 (bootloader region is protected)"@,
            )
        } else {
            Ok(a)
        },
    }
}

/// Validates that the flash address is at or above `DEFAULT_FLASH_ADDR`; the address is
/// decimal, or hexadecimal after a `0x` / `0X` prefix.
pub fn validate_flash_addr(s: &str) -> (r: Result<u32, String>)
    ensures
        r matches Ok(a) ==> flash_addr_result(s@) == Ok::<u32, Seq<char>>(a),
        r matches Err(m) ==> flash_addr_result(s@) == Err::<u32, Seq<char>>(m@),
{
    let v = chars_of(s);
    let hex = v.len() >= 2 && v[0] == '0' && (v[1] == 'x' || v[1] == 'X');
    let parsed = if hex {
        assert(v@.subrange(2, v@.len() as int) =~= s@.skip(2));
        parse_u32_in(&v, 2, v.len(), true)
    } else {
        assert(v@.subrange(0, v@.len() as int) =~= s@);
        parse_u32_in(&v, 0, v.len(), false)
    };
    match parsed {
        Err(e) => {
            let mut msg = String::new();
            if hex {
                msg.append("Invalid hex address: ");
            } else {
                msg.append("Invalid address: ");
            }
            msg.append(e.text());
            Err(msg)
        },
        Ok(addr) => {
            if addr < DEFAULT_FLASH_ADDR {
                let mut msg = String::new();
                msg.append("Address 0x");
                push_hex_lower_padded(&mut msg, addr, 8);
                msg.append(
                    " is below minimum allowed address 0x00100000 (bootloader region is protected)",
                );
                return Err(msg);
            }
            Ok(addr)
        },
    }
}

/// The magic bootloader-entry command (ec 10 aa "ASUS" aa).
pub open spec fn enter_bootloader_packet() -> Seq<u8> {
    command_packet(0x10).update(2, 0xaa).update(3, 0x41).update(4, 0x53).update(5, 0x55).update(
        6,
        0x53,
    ).update(7, 0xaa)
}

/// Builds the magic bootloader-entry command packet (ec 10 aa "ASUS" aa).
pub fn rep_enter_bootloader() -> (p: [u8; PACKET_LEN])
    ensures
        p@ == enter_bootloader_packet(),
{
    let mut p = new_packet();
    p[1] = 0x10;
    p[2] = 0xaa;
    p[3] = 0x41;  // 'A'
    p[4] = 0x53;  // 'S'
    p[5] = 0x55;  // 'U'
    p[6] = 0x53;  // 'S'
    p[7] = 0xaa;
    assert(p@ =~= enter_bootloader_packet());
    p
}

/// Builds the flash info probe packet (ec 8c).
pub fn rep_info() -> (p: [u8; PACKET_LEN])
    ensures
        p@ == command_packet(0x8c),
{
    let mut p = new_packet();
    p[1] = 0x8c;
    assert(p@ =~= command_packet(0x8c));
    p
}

/// The erase / preparation command for `size` bytes at `addr`.
pub open spec fn erase_packet(addr: u32, size: u32) -> Seq<u8> {
    splice(
        splice(command_packet(0x20).update(2, 0x02).update(3, 0x01).update(4, 0x01), 5, u32_le_bytes(addr)),
        10,
        u32_le_bytes(size),
    )
}

/// Writes the four little-endian bytes of `x` into `p` from position `at` on.
fn put_u32_le(p: &mut [u8; PACKET_LEN], at: usize, x: u32)
    requires
        at + 4 <= PACKET_LEN,
    ensures
        final(p)@ == splice(old(p)@, at as int, u32_le_bytes(x)),
{
    p[at] = (x % 256) as u8;
    p[at + 1] = ((x / 256) % 256) as u8;
    p[at + 2] = ((x / 65536) % 256) as u8;
    p[at + 3] = (x / 16777216) as u8;
    assert(p@ =~= splice(old(p)@, at as int, u32_le_bytes(x)));
}

/// Builds the flash erase / preparation command packet (ec 20 02 01 01 <addr> <size>).
pub fn rep_erase(addr: u32, size: u32) -> (p: [u8; PACKET_LEN])
    ensures
        p@ == erase_packet(addr, size),
{
    let mut p = new_packet();
    p[1] = 0x20;
    p[2] = 0x02;  // action: erase/prepare
    p[3] = 0x01;
    p[4] = 0x01;
    put_u32_le(&mut p, 5, addr);
    // p[9] = 0x00 separator
    put_u32_le(&mut p, 10, size);
    p
}

/// The bulk transfer size announcement for `size` bytes.
pub open spec fn announce_packet(size: u32) -> Seq<u8> {
    splice(command_packet(0x7f).update(2, 0x01), 3, u32_le_bytes(size))
}

/// Builds the bulk transfer size announcement packet (ec 7f 01 <size>).
pub fn rep_announce(size: u32) -> (p: [u8; PACKET_LEN])
    ensures
        p@ == announce_packet(size),
{
    let mut p = new_packet();
    p[1] = 0x7f;
    p[2] = 0x01;  // subcommand: flash announce (0x03 is frame streaming, 0x02 is image upload)
    put_u32_le(&mut p, 3, size);
    p
}

/// The device reset / reboot command (ec 2f "DevRst").
pub open spec fn devrst_packet() -> Seq<u8> {
    command_packet(0x2f).update(2, 0x44).update(3, 0x65).update(4, 0x76).update(5, 0x52).update(
        6,
        0x73,
    ).update(7, 0x74)
}

/// Builds the device reset / reboot packet (ec 2f "DevRst").
pub fn rep_devrst() -> (p: [u8; PACKET_LEN])
    ensures
        p@ == devrst_packet(),
{
    let mut p = new_packet();
    p[1] = 0x2f;
    p[2] = 0x44;  // 'D'
    p[3] = 0x65;  // 'e'
    p[4] = 0x76;  // 'v'
    p[5] = 0x52;  // 'R'
    p[6] = 0x73;  // 's'
    p[7] = 0x74;  // 't'
    assert(p@ =~= devrst_packet());
    p
}

/// Why an image cannot be flashed.
#[derive(Debug, Clone, Copy, PartialEq, Eq, Structural)]
pub enum FlashImageError {
    /// The image is shorter than two words or not made of whole 32-bit words.
    NotWordAligned { len: usize },
    /// The image is not exactly the size of the stock firmware (4096-byte aligned).
    InvalidSize { len: usize },
}

/// What the trailing Sum32 of an accepted image turned out to be.
#[derive(Debug, Clone, Copy, PartialEq, Eq, Structural)]
pub enum ChecksumStatus {
    /// The stored checksum was right.
    Valid { sum: u32 },
    /// The stored checksum was wrong and was kept, as asked.
    Invalid { calculated: u32, stored: u32 },
    /// The stored checksum was wrong and was replaced by the right one.
    Fixed { stored: u32, calculated: u32 },
}

/// Validates a firmware image before it is flashed and, unless `no_fix_checksum`, rewrites
/// a wrong trailing Sum32 in place.
pub fn check_firmware_image(image: &mut Vec<u8>, no_fix_checksum: bool) -> (r: Result<
    ChecksumStatus,
    FlashImageError,
>)
    ensures
        !sum32_accepts(old(image)@) ==> r == Err::<ChecksumStatus, FlashImageError>(
            FlashImageError::NotWordAligned { len: old(image)@.len() as usize },
        ) && final(image)@ == old(image)@,
        sum32_accepts(old(image)@) && (old(image)@.len() != EXPECTED_FW_SIZE || old(image)@.len()
            % 4096 != 0) ==> r == Err::<ChecksumStatus, FlashImageError>(
            FlashImageError::InvalidSize { len: old(image)@.len() as usize },
        ) && final(image)@ == old(image)@,
        sum32_accepts(old(image)@) && old(image)@.len() == EXPECTED_FW_SIZE && old(image)@.len()
            % 4096 == 0 ==> ({
            let calc = sum32(old(image)@);
            let stored = stored_sum32(old(image)@);
            if calc == stored {
                r == Ok::<ChecksumStatus, FlashImageError>(ChecksumStatus::Valid { sum: calc })
                    && final(image)@ == old(image)@
            } else if no_fix_checksum {
                r == Ok::<ChecksumStatus, FlashImageError>(
                    ChecksumStatus::Invalid { calculated: calc, stored },
                ) && final(image)@ == old(image)@
            } else {
                r == Ok::<ChecksumStatus, FlashImageError>(
                    ChecksumStatus::Fixed { stored, calculated: calc },
                ) && final(image)@ == with_checksum(old(image)@)
            }
        }),
{
    let len = image.len();
    if len < 8 || len % 4 != 0 {
        return Err(FlashImageError::NotWordAligned { len });
    }
    if len != EXPECTED_FW_SIZE || len % FLASH_CHUNK_SIZE != 0 {
        return Err(FlashImageError::InvalidSize { len });
    }
    let calc = match calculate_sum32(image.as_slice()) {
        Ok(s) => s,
        Err(_) => {
            return Err(FlashImageError::NotWordAligned { len });
        },
    };
    let stored = image[len - 4] as u32 + (image[len - 3] as u32) * 256 + (image[len - 2] as u32)
        * 65536 + (image[len - 1] as u32) * 16777216;
    if calc == stored {
        Ok(ChecksumStatus::Valid { sum: calc })
    } else if no_fix_checksum {
        Ok(ChecksumStatus::Invalid { calculated: calc, stored })
    } else {
        let ghost before = image@;
        image.set(len - 4, (calc % 256) as u8);
        image.set(len - 3, ((calc / 256) % 256) as u8);
        image.set(len - 2, ((calc / 65536) % 256) as u8);
        image.set(len - 1, (calc / 16777216) as u8);
        assert(image@ =~= with_checksum(before));
        Ok(ChecksumStatus::Fixed { stored, calculated: calc })
    }
}

/// The number of 4096-byte bulk packets that carry `len` bytes.
pub open spec fn chunk_count(len: nat) -> nat {
    ((len + 4095) / 4096) as nat
}

/// The number of 4096-byte bulk packets needed for `len` bytes (the last may be partial).
pub fn flash_packet_count(len: usize) -> (n: usize)
    ensures
        n == chunk_count(len as nat),
{
    len / FLASH_CHUNK_SIZE + if len % FLASH_CHUNK_SIZE != 0 {
        1
    } else {
        0
    }
}

/// Whether a report of `n` bytes in `buf` starts with the acknowledgement `ack`.
pub fn ack_matches(buf: &[u8; PACKET_LEN], n: usize, ack: &[u8]) -> (r: bool)
    ensures
        r == (n >= ack@.len() && ack@.len() <= PACKET_LEN && buf@.take(ack@.len() as int) == ack@),
{
    if n < ack.len() || ack.len() > PACKET_LEN {
        return false;
    }
    let mut k: usize = 0;
    while k < ack.len()
        invariant
            ack@.len() <= PACKET_LEN,
            k <= ack@.len(),
            forall|j: int| 0 <= j < k ==> buf@[j] == ack@[j],
        decreases ack@.len() - k,
    {
        if buf[k] != ack[k] {
            assert(buf@.take(ack@.len() as int)[k as int] != ack@[k as int]);
            return false;
        }
        k = k + 1;
    }
    assert(buf@.take(ack@.len() as int) =~= ack@);
    true
}

/// What a report read while waiting for a bulk packet acknowledgement means.
#[derive(Debug, Clone, Copy, PartialEq, Eq, Structural)]
pub enum BulkAck {
    /// `ee 01`: the packet was written.
    Acked,
    /// Another report came: the transfer must stop.
    Unexpected,
    /// Nothing came yet: keep waiting.
    Nothing,
}

/// Classifies a report of `n` bytes read while waiting for the per-packet ACK (`ee 01`).
pub fn classify_bulk_ack(buf: &[u8; PACKET_LEN], n: usize) -> (r: BulkAck)
    ensures
        n >= 2 && buf@[0] == 0xee && buf@[1] == 0x01 ==> r == BulkAck::Acked,
        !(n >= 2 && buf@[0] == 0xee && buf@[1] == 0x01) && n > 0 ==> r == BulkAck::Unexpected,
        n == 0 ==> r == BulkAck::Nothing,
{
    if n >= 2 && buf[0] == 0xee && buf[1] == 0x01 {
        BulkAck::Acked
    } else if n > 0 {
        BulkAck::Unexpected
    } else {
        BulkAck::Nothing
    }
}

/// The chunk size that the announce acknowledgement (`ec 7f 00 <chunk_le32>`) reports.
pub fn ack_chunk_size(ack: &[u8; PACKET_LEN]) -> (c: u32)
    ensures
        c as int == crate::patches::le_word(ack@, 3),
{
    ack[3] as u32 + (ack[4] as u32) * 256 + (ack[5] as u32) * 65536 + (ack[6] as u32) * 16777216
}

/// Law: an image that `check_firmware_image` accepted, and was allowed to fix, carries a valid
/// trailing Sum32 afterwards.
pub proof fn law_fixed_image_checksum_is_valid(image: Seq<u8>)
    requires
        sum32_accepts(image),
    ensures
        sum32(with_checksum(image)) == stored_sum32(with_checksum(image)),
        sum32(with_checksum(image)) == sum32(image),
{
    let out = with_checksum(image);
    crate::patches::lemma_le_bytes_roundtrip(sum32(image));
    assert(out.take(out.len() - 4) =~= image.take(image.len() - 4));
    crate::patches::lemma_sum32_ignores_trailer(image, out);
    assert(crate::patches::le_word(out, out.len() - 4) == crate::patches::le_word(
        u32_le_bytes(sum32(image)),
        0,
    )) by {
        assert(out[out.len() - 4] == u32_le_bytes(sum32(image))[0]);
        assert(out[out.len() - 3] == u32_le_bytes(sum32(image))[1]);
        assert(out[out.len() - 2] == u32_le_bytes(sum32(image))[2]);
        assert(out[out.len() - 1] == u32_le_bytes(sum32(image))[3]);
    }
}

/// Why a flashing session stopped.
#[derive(Debug, Clone, Copy, PartialEq, Eq, Structural)]
pub enum FlashFailure {
    /// The destination lies in the protected bootloader region.
    ProtectedAddress { addr: u32 },
    /// The bootloader asked for another bulk packet size than 4096 bytes.
    UnexpectedChunkSize { chunk: u32 },
    /// A bulk packet was not written whole.
    ShortWrite { index: usize, transferred: usize, expected: usize },
}

/// One step of flashing an image, for the caller to perform.
#[derive(Debug, Clone, Copy, PartialEq, Eq)]
pub enum FlashStep {
    /// Switch the panel into its bootloader and wait for it to come back as Update Mode.
    EnterBootloader,
    /// Write `packet` and wait up to `timeout_secs` for a report that starts with `ack`.
    Command { packet: [u8; PACKET_LEN], ack: [u8; 3], timeout_secs: u64 },
    /// Bulk-write the 4096 bytes of the image at `offset` (packet `index`).
    WriteBlock { index: usize, offset: usize },
    /// Wait for the `ee 01` acknowledgement of packet `index`; report progress after it
    /// when `report_progress`.
    AwaitBlockAck { index: usize, report_progress: bool },
    /// A dry run: the image would go in `packets` bulk packets; nothing was sent.
    DryRunDone { packets: usize },
    /// The panel accepted the image and is rebooting into it.
    Done,
    /// Flashing stopped.
    Fail(FlashFailure),
}

/// What came of the step performed last.
#[derive(Debug, Clone, Copy, PartialEq, Eq)]
pub enum FlashEvent {
    /// The step is over (bootloader entry, packet acknowledgement).
    Completed,
    /// The command was acknowledged with this report.
    Acked([u8; PACKET_LEN]),
    /// The bulk write moved this many bytes.
    Transferred(usize),
}

/// What is to be flashed, and how.
#[derive(Debug, Clone, Copy, PartialEq, Eq, Structural)]
pub struct FlashPlan {
    pub addr: u32,
    pub len: usize,
    pub dry_run: bool,
    pub no_reboot: bool,
}

/// `a` is the command `packet`, acknowledged by `ack`, with a timeout of `secs`.
pub open spec fn commands(a: FlashStep, packet: Seq<u8>, ack: Seq<u8>, secs: u64) -> bool {
    a matches FlashStep::Command { packet: p, ack: k, timeout_secs: t } && p@ == packet && k@
        == ack && t == secs
}

/// Where the device steps of `plan` start: after the bootloader entry, when there is one.
pub open spec fn device_base(plan: FlashPlan) -> int {
    if plan.no_reboot {
        0
    } else {
        1
    }
}

/// The number of steps of `plan` when every step succeeds.
pub open spec fn flash_script_len(plan: FlashPlan) -> nat {
    if plan.addr < DEFAULT_FLASH_ADDR || plan.dry_run {
        1
    } else {
        (device_base(plan) + 5 + 2 * chunk_count(plan.len as nat)) as nat
    }
}

/// The image length as the 32-bit size field of the commands carries it.
pub open spec fn size_field(len: usize) -> u32 {
    (len as nat % 0x1_0000_0000) as u32
}

/// Step `k` of flashing per `plan` when every earlier step succeeded: refused below the
/// protected region, a dry run, or the bootloader protocol of the module documentation.
pub open spec fn flash_action(a: FlashStep, plan: FlashPlan, k: int) -> bool {
    let n = chunk_count(plan.len as nat);
    let j = k - device_base(plan);
    &&& 0 <= k < flash_script_len(plan)
    &&& if plan.addr < DEFAULT_FLASH_ADDR {
        a == FlashStep::Fail(FlashFailure::ProtectedAddress { addr: plan.addr })
    } else if plan.dry_run {
        a == FlashStep::DryRunDone { packets: n as usize }
    } else if j < 0 {
        a == FlashStep::EnterBootloader
    } else if j == 0 {
        commands(a, command_packet(0x8c), seq![0xecu8, 0x0c, 0x00], 5)
    } else if j == 1 {
        commands(a, erase_packet(plan.addr, size_field(plan.len)), seq![0xecu8, 0x20, 0x00], 10)
    } else if j == 2 {
        commands(a, announce_packet(size_field(plan.len)), seq![0xecu8, 0x7f, 0x00], 10)
    } else if j < 3 + 2 * n {
        let i = (j - 3) / 2;
        if (j - 3) % 2 == 0 {
            a == FlashStep::WriteBlock { index: i as usize, offset: (i * 4096) as usize }
        } else {
            a == FlashStep::AwaitBlockAck {
                index: i as usize,
                report_progress: i % 64 == 0 || i == n - 1,
            }
        }
    } else if j == 3 + 2 * n {
        commands(a, devrst_packet(), seq![0xecu8, 0x2f, 0x00], 5)
    } else {
        a == FlashStep::Done
    }
}

/// What `event`, the outcome of step `k` of `plan`, means: the failure that stops flashing,
/// if any.
pub open spec fn flash_failure_after(plan: FlashPlan, k: int, event: FlashEvent) -> Option<
    FlashFailure,
> {
    let n = chunk_count(plan.len as nat);
    let j = k - device_base(plan);
    if plan.addr < DEFAULT_FLASH_ADDR || plan.dry_run {
        None
    } else if j == 2 {
        match event {
            FlashEvent::Acked(report) => {
                let chunk = crate::patches::le_word(report@, 3);
                if chunk != 4096 {
                    Some(FlashFailure::UnexpectedChunkSize { chunk: chunk as u32 })
                } else {
                    None
                }
            },
            _ => None,
        }
    } else if 3 <= j < 3 + 2 * n && (j - 3) % 2 == 0 {
        match event {
            FlashEvent::Transferred(t) => if t != 4096 {
                Some(
                    FlashFailure::ShortWrite {
                        index: ((j - 3) / 2) as usize,
                        transferred: t,
                        expected: 4096,
                    },
                )
            } else {
                None
            },
            _ => None,
        }
    } else {
        None
    }
}

/// A flashing session under way.
#[derive(Debug, Clone, Copy, PartialEq, Eq)]
pub struct FlashSession {
    pub plan: FlashPlan,
    pub next: usize,
    pub failure: Option<FlashFailure>,
}

/// The acknowledgement prefix `ec <code> 00`.
fn ack_prefix(code: u8) -> (r: [u8; 3])
    ensures
        r@ == seq![0xecu8, code, 0x00],
{
    let r = [0xecu8, code, 0x00];
    assert(r@ =~= seq![0xecu8, code, 0x00]);
    r
}

/// The number of steps of `plan`, as `flash_script_len`.
fn flash_steps_of(plan: FlashPlan) -> (n: usize)
    requires
        plan.len % 4096 == 0,
    ensures
        n == flash_script_len(plan),
{
    if plan.addr < DEFAULT_FLASH_ADDR || plan.dry_run {
        1
    } else {
        let base: usize = if plan.no_reboot {
            0
        } else {
            1
        };
        base + 5 + 2 * flash_packet_count(plan.len)
    }
}

/// Step `k` of `plan`.
fn flash_action_at(plan: FlashPlan, k: usize) -> (a: FlashStep)
    requires
        plan.len % 4096 == 0,
        k < flash_script_len(plan),
    ensures
        flash_action(a, plan, k as int),
{
    if plan.addr < DEFAULT_FLASH_ADDR {
        return FlashStep::Fail(FlashFailure::ProtectedAddress { addr: plan.addr });
    }
    let n = flash_packet_count(plan.len);
    if plan.dry_run {
        return FlashStep::DryRunDone { packets: n };
    }
    if !plan.no_reboot && k == 0 {
        return FlashStep::EnterBootloader;
    }
    let j: usize = if plan.no_reboot {
        k
    } else {
        k - 1
    };
    let len = plan.len;
    let size = len as u32;
    let wide = len as u64;
    assert(size == (wide % 0x1_0000_0000u64) as u32) by (bit_vector)
        requires
            wide == len,
            size == len as u32,
    ;
    if j == 0 {
        FlashStep::Command { packet: rep_info(), ack: ack_prefix(0x0c), timeout_secs: 5 }
    } else if j == 1 {
        FlashStep::Command {
            packet: rep_erase(plan.addr, size),
            ack: ack_prefix(0x20),
            timeout_secs: 10,
        }
    } else if j == 2 {
        FlashStep::Command { packet: rep_announce(size), ack: ack_prefix(0x7f), timeout_secs: 10 }
    } else if j < 3 + 2 * n {
        let i = (j - 3) / 2;
        if (j - 3) % 2 == 0 {
            assert(i * 4096 < plan.len) by (nonlinear_arith)
                requires
                    i < n,
                    n == chunk_count(plan.len as nat),
            {
            }
            FlashStep::WriteBlock { index: i, offset: i * FLASH_CHUNK_SIZE }
        } else {
            FlashStep::AwaitBlockAck { index: i, report_progress: i % 64 == 0 || i == n - 1 }
        }
    } else if j == 3 + 2 * n {
        FlashStep::Command { packet: rep_devrst(), ack: ack_prefix(0x2f), timeout_secs: 5 }
    } else {
        FlashStep::Done
    }
}

/// What the outcome of step `k` of `plan` means, as `flash_failure_after`.
fn flash_judge(plan: FlashPlan, k: usize, event: FlashEvent) -> (r: Option<FlashFailure>)
    requires
        plan.len % 4096 == 0,
    ensures
        r == flash_failure_after(plan, k as int, event),
{
    if plan.addr < DEFAULT_FLASH_ADDR || plan.dry_run {
        return None;
    }
    if !plan.no_reboot && k == 0 {
        return None;
    }
    let n = flash_packet_count(plan.len);
    let j: usize = if plan.no_reboot {
        k
    } else {
        k - 1
    };
    if j == 2 {
        match event {
            FlashEvent::Acked(report) => {
                let chunk = ack_chunk_size(&report);
                if chunk != 4096 {
                    Some(FlashFailure::UnexpectedChunkSize { chunk })
                } else {
                    None
                }
            },
            _ => None,
        }
    } else if 3 <= j && j < 3 + 2 * n && (j - 3) % 2 == 0 {
        match event {
            FlashEvent::Transferred(t) => if t != FLASH_CHUNK_SIZE {
                Some(
                    FlashFailure::ShortWrite { index: (j - 3) / 2, transferred: t, expected: 4096 },
                )
            } else {
                None
            },
            _ => None,
        }
    } else {
        None
    }
}

impl FlashSession {
    /// Starts flashing an image of `plan.len` bytes: the session and its first step.
    pub fn start(plan: FlashPlan) -> (r: (FlashSession, FlashStep))
        requires
            plan.len % 4096 == 0,
        ensures
            r.0.plan == plan,
            r.0.next == 1,
            r.0.failure is None,
            flash_action(r.1, plan, 0),
    {
        let first = flash_action_at(plan, 0);
        (FlashSession { plan, next: 1, failure: None }, first)
    }

    /// Hands out the next step, given what came of the step handed out last. A device that asks
    /// for another packet size than 4096 bytes, or a short bulk write, stops flashing; a stopped
    /// or finished session keeps answering the same way.
    pub fn advance(&mut self, event: FlashEvent) -> (r: FlashStep)
        requires
            old(self).plan.len % 4096 == 0,
        ensures
            final(self).plan == old(self).plan,
            ({
                let plan = old(self).plan;
                let k = old(self).next as int;
                match old(self).failure {
                    Some(f) => r == FlashStep::Fail(f) && *final(self) == *old(self),
                    None => if k == 0 || k >= flash_script_len(plan) {
                        r == (if plan.addr < DEFAULT_FLASH_ADDR {
                            FlashStep::Fail(FlashFailure::ProtectedAddress { addr: plan.addr })
                        } else if plan.dry_run {
                            FlashStep::DryRunDone {
                                packets: chunk_count(plan.len as nat) as usize,
                            }
                        } else {
                            FlashStep::Done
                        }) && *final(self) == *old(self)
                    } else {
                        match flash_failure_after(plan, k - 1, event) {
                            Some(f) => r == FlashStep::Fail(f) && final(self).failure == Some(f)
                                && final(self).next == k,
                            None => flash_action(r, plan, k) && final(self).next == k + 1
                                && final(self).failure is None,
                        }
                    },
                }
            }),
    {
        if let Some(f) = self.failure {
            return FlashStep::Fail(f);
        }
        let plan = self.plan;
        let k = self.next;
        let total = flash_steps_of(plan);
        if k == 0 || k >= total {
            if plan.addr < DEFAULT_FLASH_ADDR {
                return FlashStep::Fail(FlashFailure::ProtectedAddress { addr: plan.addr });
            } else if plan.dry_run {
                return FlashStep::DryRunDone { packets: flash_packet_count(plan.len) };
            } else {
                return FlashStep::Done;
            }
        }
        match flash_judge(plan, k - 1, event) {
            Some(f) => {
                self.failure = Some(f);
                FlashStep::Fail(f)
            },
            None => {
                let a = flash_action_at(plan, k);
                self.next = k + 1;
                a
            },
        }
    }
}

/// Law: flashing writes every 4096-byte packet of the image once, in order, each acknowledged
/// before the next one is written, and asks the panel to verify and reboot only after the last.
pub proof fn law_flash_writes_each_packet_once(plan: FlashPlan, a: FlashStep, k: int)
    requires
        flash_action(a, plan, k),
        a is WriteBlock,
    ensures
        a->offset == a->WriteBlock_index * 4096,
        a->offset < plan.len,
        k == device_base(plan) + 3 + 2 * a->WriteBlock_index,
        flash_action(
            FlashStep::AwaitBlockAck {
                index: a->WriteBlock_index,
                report_progress: a->WriteBlock_index % 64 == 0 || a->WriteBlock_index == chunk_count(plan.len as nat) - 1,
            },
            plan,
            k + 1,
        ),
        k + 2 < flash_script_len(plan),
{
    let n = chunk_count(plan.len as nat);
    let j = k - device_base(plan);
    let i = (j - 3) / 2;
    assert(i * 4096 < plan.len) by (nonlinear_arith)
        requires
            0 <= i < n,
            n == (plan.len + 4095) / 4096,
    {
    }
}

/// Law: nothing is written to the device below the protected bootloader region, and a dry run
/// writes nothing at all.
pub proof fn law_flash_guards(plan: FlashPlan, a: FlashStep, k: int)
    requires
        flash_action(a, plan, k),
        plan.addr < DEFAULT_FLASH_ADDR || plan.dry_run,
    ensures
        k == 0,
        a is Fail || a is DryRunDone,
{
}

} // verus!
