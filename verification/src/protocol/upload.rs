//! Custom image upload handshake packets.
use vstd::prelude::*;
use crate::patches::{splice, u32_le_bytes};
use crate::protocol::{command_packet, new_packet, PACKET_LEN};

verus! {

/// The Cmd 0x72 packet that selects custom slot `slot` for flash programming.
pub open spec fn flash_slot_packet(slot: u8) -> Seq<u8> {
    command_packet(0x72).update(2, 0x01).update(3, 0x01).update(4, slot)
}

/// The Cmd 0x73 0x03 packet that erases the selected slot.
pub open spec fn erase_slot_packet() -> Seq<u8> {
    command_packet(0x73).update(2, 0x03).update(3, 0x00)
}

/// The Cmd 0x71 0x01 0x01 upload preparation packet.
pub open spec fn prep_packet() -> Seq<u8> {
    command_packet(0x71).update(2, 0x01).update(3, 0x01)
}

/// The Cmd 0xf1 upload sync packet.
pub open spec fn upload_sync_packet() -> Seq<u8> {
    command_packet(0xf1)
}

/// The Cmd 0x73 0x01 upload start packet.
pub open spec fn start_packet() -> Seq<u8> {
    command_packet(0x73).update(2, 0x01)
}

/// The Cmd 0x7f 0x02 packet announcing a JPEG of `size` bytes.
pub open spec fn size_header_packet(size: u32) -> Seq<u8> {
    splice(command_packet(0x7f).update(2, 0x02), 3, u32_le_bytes(size))
}

/// The Cmd 0x73 0xff upload finalize packet.
pub open spec fn finalize_packet() -> Seq<u8> {
    command_packet(0x73).update(2, 0xff)
}

/// The Cmd 0x72 0x01 0x00 packet that leaves flash programming mode.
pub open spec fn exit_packet() -> Seq<u8> {
    command_packet(0x72).update(2, 0x01).update(3, 0x00)
}

/// Delete existing custom image from flash memory for a specific slot.
pub fn step0_delete_slot(slot: u8) -> (r: ([u8; PACKET_LEN], [u8; PACKET_LEN]))
    ensures
        r.0@ == flash_slot_packet(slot),
        r.1@ == erase_slot_packet(),
{
    let mut p1 = new_packet();
    p1[1] = 0x72;
    p1[2] = 0x01;
    p1[3] = 0x01;
    p1[4] = slot;  // Specific custom slot
    let mut p2 = new_packet();
    p2[1] = 0x73;
    p2[2] = 0x03;
    p2[3] = 0x00;
    assert(p1@ =~= flash_slot_packet(slot));
    assert(p2@ =~= command_packet(0x73).update(2, 0x03).update(3, 0x00));
    (p1, p2)
}

/// Upload preparation (Cmd 0x71 0x01 0x01).
pub fn step1_prep() -> (pkt: [u8; PACKET_LEN])
    ensures
        pkt@ == prep_packet(),
{
    let mut pkt = new_packet();
    pkt[1] = 0x71;
    pkt[2] = 0x01;
    pkt[3] = 0x01;
    assert(pkt@ =~= command_packet(0x71).update(2, 0x01).update(3, 0x01));
    pkt
}

/// Upload sync (Cmd 0xf1).
pub fn step2_sync() -> (pkt: [u8; PACKET_LEN])
    ensures
        pkt@ == upload_sync_packet(),
{
    let mut pkt = new_packet();
    pkt[1] = 0xf1;
    assert(pkt@ =~= command_packet(0xf1));
    pkt
}

/// Enable flash write mode for a specific custom slot (Cmd 0x72 0x01 0x01 [slot]).
pub fn step3_enable(slot: u8) -> (pkt: [u8; PACKET_LEN])
    ensures
        pkt@ == flash_slot_packet(slot),
{
    let mut pkt = new_packet();
    pkt[1] = 0x72;
    pkt[2] = 0x01;
    pkt[3] = 0x01;
    pkt[4] = slot;
    assert(pkt@ =~= flash_slot_packet(slot));
    pkt
}

/// Upload start (Cmd 0x73 0x01).
pub fn step4_start() -> (pkt: [u8; PACKET_LEN])
    ensures
        pkt@ == start_packet(),
{
    let mut pkt = new_packet();
    pkt[1] = 0x73;
    pkt[2] = 0x01;
    assert(pkt@ =~= command_packet(0x73).update(2, 0x01));
    pkt
}

/// Announces the size of the JPEG that follows (Cmd 0x7f 0x02 [size LE]).
pub fn step5_size_header(jpeg_size: u32) -> (pkt: [u8; PACKET_LEN])
    ensures
        pkt@ == size_header_packet(jpeg_size),
{
    let mut pkt = new_packet();
    pkt[1] = 0x7f;
    pkt[2] = 0x02;
    let x = jpeg_size;
    pkt[3] = (x % 256) as u8;
    pkt[4] = ((x / 256) % 256) as u8;
    pkt[5] = ((x / 65536) % 256) as u8;
    pkt[6] = (x / 16777216) as u8;
    assert(pkt@ =~= splice(command_packet(0x7f).update(2, 0x02), 3, u32_le_bytes(jpeg_size)));
    pkt
}

/// Upload finalize (Cmd 0x73 0xff).
pub fn step6_finalize() -> (pkt: [u8; PACKET_LEN])
    ensures
        pkt@ == finalize_packet(),
{
    let mut pkt = new_packet();
    pkt[1] = 0x73;
    pkt[2] = 0xff;
    assert(pkt@ =~= command_packet(0x73).update(2, 0xff));
    pkt
}

/// Flash write disable / safe exit (Cmd 0x72 0x01 0x00).
pub fn step7_exit() -> (pkt: [u8; PACKET_LEN])
    ensures
        pkt@ == exit_packet(),
{
    let mut pkt = new_packet();
    pkt[1] = 0x72;
    pkt[2] = 0x01;
    pkt[3] = 0x00;
    assert(pkt@ =~= command_packet(0x72).update(2, 0x01).update(3, 0x00));
    pkt
}

} // verus!
