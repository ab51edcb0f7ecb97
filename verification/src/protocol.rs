//! Protocol definitions and packet builders for the ASUS ROG Crosshair X870E LCD panels
//! (Extreme 0b05:1c83, Glacial 0b05:1d93).
use vstd::prelude::*;
use vstd::string::StringSliceAdditionalSpecFns;
use crate::patches::{splice, u32_le_bytes};

pub mod upload;

verus! {

pub const ASUS_VENDOR_ID: u16 = 0x0b05;

pub const LCD_PRODUCT_ID: u16 = 0x1c83;

/// ROG Crosshair X870E Extreme panel.
pub const LCD_PRODUCT_ID_EXTREME: u16 = 0x1c83;

/// ROG Crosshair X870E Glacial panel.
pub const LCD_PRODUCT_ID_GLACIAL: u16 = 0x1d93;

/// Product IDs of every supported panel.
pub const SUPPORTED_PRODUCT_IDS: [u16; 2] = [0x1c83, 0x1d93];

/// Motherboard models whose panel this tool drives.
#[derive(Debug, Clone, Copy, PartialEq, Eq, Structural)]
pub enum LcdModel {
    Extreme,
    Glacial,
}

/// The USB product ID of a model's panel.
pub open spec fn model_product_id(model: LcdModel) -> u16 {
    match model {
        LcdModel::Extreme => LCD_PRODUCT_ID_EXTREME,
        LcdModel::Glacial => LCD_PRODUCT_ID_GLACIAL,
    }
}

/// The model whose panel enumerates with USB product ID `pid`, if any.
pub open spec fn model_for_product_id(pid: u16) -> Option<LcdModel> {
    if pid == LCD_PRODUCT_ID_EXTREME {
        Some(LcdModel::Extreme)
    } else if pid == LCD_PRODUCT_ID_GLACIAL {
        Some(LcdModel::Glacial)
    } else {
        None
    }
}

impl LcdModel {
    /// The model whose panel enumerates with USB product ID `pid`, if any.
    pub fn from_product_id(pid: u16) -> (r: Option<LcdModel>)
        ensures
            r == model_for_product_id(pid),
    {
        if pid == LCD_PRODUCT_ID_EXTREME {
            Some(LcdModel::Extreme)
        } else if pid == LCD_PRODUCT_ID_GLACIAL {
            Some(LcdModel::Glacial)
        } else {
            None
        }
    }

    /// The model's board name, as the documentation spells it.
    pub fn display_name(&self) -> (r: &'static str)
        ensures
            r@ == match *self {
                LcdModel::Extreme => "ROG Crosshair X870E Extreme"@,
                LcdModel::Glacial => "ROG Crosshair X870E Glacial"@,
            },
    {
        match self {
            LcdModel::Extreme => "ROG Crosshair X870E Extreme",
            LcdModel::Glacial => "ROG Crosshair X870E Glacial",
        }
    }

    /// The USB product ID of the model's panel.
    pub fn product_id(&self) -> (r: u16)
        ensures
            r == model_product_id(*self),
    {
        match self {
            LcdModel::Extreme => LCD_PRODUCT_ID_EXTREME,
            LcdModel::Glacial => LCD_PRODUCT_ID_GLACIAL,
        }
    }
}

/// Law: a panel is recognised by its product ID exactly when the ID is one of the supported
/// models' own, and the model found is the one with that ID.
pub proof fn law_model_product_ids(model: LcdModel, pid: u16)
    ensures
        model_for_product_id(model_product_id(model)) == Some(model),
        model_for_product_id(pid) matches Some(m) ==> model_product_id(m) == pid,
        model_for_product_id(pid) is None ==> pid != LCD_PRODUCT_ID_EXTREME && pid
            != LCD_PRODUCT_ID_GLACIAL,
{
}

pub const REPORT_ID: u8 = 0xec;

/// Report ID + 64 bytes.
pub const PACKET_LEN: usize = 65;

pub const PANEL_WIDTH: u32 = 720;

pub const PANEL_HEIGHT: u32 = 1280;

pub const BULK_EP_OUT: u8 = 0x02;

pub const BULK_CHUNK_SIZE: usize = 4096;

pub const FRAME_WIDTH: u32 = PANEL_WIDTH;

pub const FRAME_HEIGHT: u32 = PANEL_HEIGHT;

pub const FRAME_BYTES_PER_PIXEL: usize = 4;

/// One raw 720x1280 BGRA8888 frame: 3,686,400 bytes.
pub const FRAME_RAW_SIZE: usize = 3_686_400;

/// Hardware monitor layout type.
#[derive(Debug, Clone, Copy, PartialEq, Eq, Structural, Default)]
pub enum HwLayout {
    /// Single Info (1 large sensor gauge)
    Single,
    /// Dual Info (2 sensors)
    Dual,
    /// Triple Info (3 sensors)
    #[default]
    Triple,
    /// Multi Info (5 sensors)
    Multi,
}

/// The wire code of each layout: Single 0, Dual 1, Triple 2, Multi 4.
pub open spec fn layout_code(layout: HwLayout) -> u8 {
    match layout {
        HwLayout::Single => 0,
        HwLayout::Dual => 1,
        HwLayout::Triple => 2,
        HwLayout::Multi => 4,
    }
}

/// The number of sensor slots that each layout shows.
pub open spec fn layout_slots(layout: HwLayout) -> usize {
    match layout {
        HwLayout::Single => 1,
        HwLayout::Dual => 2,
        HwLayout::Triple => 3,
        HwLayout::Multi => 5,
    }
}

impl HwLayout {
    /// The wire code of this layout in the Cmd 0x52 packet.
    pub fn code(&self) -> (c: u8)
        ensures
            c == layout_code(*self),
    {
        match self {
            HwLayout::Single => 0,
            HwLayout::Dual => 1,
            HwLayout::Triple => 2,
            HwLayout::Multi => 4,
        }
    }

    /// The number of sensor slots shown by this layout.
    pub fn slot_count(&self) -> (n: usize)
        ensures
            n == layout_slots(*self),
    {
        match self {
            HwLayout::Single => 1,
            HwLayout::Dual => 2,
            HwLayout::Triple => 3,
            HwLayout::Multi => 5,
        }
    }
}

/// Display operating modes.
#[derive(Debug, Clone, Copy, PartialEq, Eq, Structural)]
pub enum DisplayMode {
    /// Screen turned off / standby
    Off,
    /// Factory built-in default wallpaper (Presets 0..=5)
    DefaultWallpaper(u8),
    /// Custom static image from SPI flash memory (Slots 0..=N)
    CustomSlot(u8),
    /// Backward-compatible alias for CustomSlot
    StaticImage(u8),
    /// Built-in animation (preset index: 0 or 1)
    Animation(u8),
    /// Real-time hardware telemetry dashboard
    HardwareMonitor,
    /// Live high-speed uncompressed frame streaming (720x1280 BGRA8888, 3.68MB)
    FrameStream,
}

/// A zeroed 65-byte report that carries the 0xEC report ID.
pub open spec fn blank_packet() -> Seq<u8> {
    Seq::new(65, |i: int| if i == 0 { 0xecu8 } else { 0u8 })
}

/// A blank report whose command byte is `cmd`.
pub open spec fn command_packet(cmd: u8) -> Seq<u8> {
    blank_packet().update(1, cmd)
}

/// Helper to create a zeroed 65-byte HID packet with the 0xEC report ID.
pub fn new_packet() -> (pkt: [u8; PACKET_LEN])
    ensures
        pkt@ == blank_packet(),
{
    let mut pkt = [0u8; PACKET_LEN];
    pkt[0] = REPORT_ID;
    assert(pkt@ =~= blank_packet());
    pkt
}

/// The announce packet of a live stream frame of `len` bytes.
pub open spec fn announce_stream_frame_packet(len: u32) -> Seq<u8> {
    splice(command_packet(0x7f).update(2, 0x03), 3, u32_le_bytes(len))
}

/// Writes the four little-endian bytes of `x` at positions 3..7 of `pkt`.
fn put_u32_le_at_3(pkt: &mut [u8; PACKET_LEN], x: u32)
    ensures
        final(pkt)@ == splice(old(pkt)@, 3, u32_le_bytes(x)),
{
    pkt[3] = (x % 256) as u8;
    pkt[4] = ((x / 256) % 256) as u8;
    pkt[5] = ((x / 65536) % 256) as u8;
    pkt[6] = (x / 16777216) as u8;
    assert(pkt@ =~= splice(old(pkt)@, 3, u32_le_bytes(x)));
}

/// Packet for announcing an incoming live stream frame (Cmd 0x7F, Subcmd 0x03).
pub fn packet_announce_stream_frame(len: u32) -> (pkt: [u8; PACKET_LEN])
    ensures
        pkt@ == announce_stream_frame_packet(len),
{
    let mut pkt = new_packet();
    pkt[1] = 0x7f;
    pkt[2] = 0x03;
    put_u32_le_at_3(&mut pkt, len);
    pkt
}

/// The Cmd 0x51 packet that selects `mode`.
pub open spec fn set_mode_packet(mode: DisplayMode) -> Seq<u8> {
    let base = command_packet(0x51);
    match mode {
        DisplayMode::Off => base.update(2, 0x00),
        DisplayMode::DefaultWallpaper(preset) => base.update(2, 0x11).update(3, 0x00).update(
            4,
            preset,
        ),
        DisplayMode::CustomSlot(slot) => base.update(2, 0x11).update(3, 0x01).update(4, slot),
        DisplayMode::StaticImage(slot) => base.update(2, 0x11).update(3, 0x01).update(4, slot),
        DisplayMode::Animation(index) => base.update(2, 0x14).update(3, 0x00).update(4, index),
        DisplayMode::HardwareMonitor => base.update(2, 0x21),
        DisplayMode::FrameStream => base.update(2, 0x20),
    }
}

/// Packet for turning display on/off or changing mode (Cmd 0x51).
pub fn packet_set_mode(mode: DisplayMode) -> (pkt: [u8; PACKET_LEN])
    ensures
        pkt@ == set_mode_packet(mode),
{
    let mut pkt = new_packet();
    pkt[1] = 0x51;
    match mode {
        DisplayMode::Off => {
            pkt[2] = 0x00;
        },
        DisplayMode::DefaultWallpaper(preset) => {
            pkt[2] = 0x11;
            pkt[3] = 0x00;  // 0x00 = Default/ROM wallpaper
            pkt[4] = preset;
        },
        DisplayMode::CustomSlot(slot) | DisplayMode::StaticImage(slot) => {
            pkt[2] = 0x11;
            pkt[3] = 0x01;  // 0x01 = Custom/SPI Flash wallpaper
            pkt[4] = slot;
        },
        DisplayMode::Animation(index) => {
            pkt[2] = 0x14;
            pkt[3] = 0x00;
            pkt[4] = index;
        },
        DisplayMode::HardwareMonitor => {
            pkt[2] = 0x21;
        },
        DisplayMode::FrameStream => {
            pkt[2] = 0x20;
        },
    }
    assert(pkt@ =~= set_mode_packet(mode));
    pkt
}

/// The brightness actually sent: `level` capped at 100.
pub open spec fn clamped_brightness(level: u8) -> u8 {
    if level > 100 {
        100
    } else {
        level
    }
}

/// The Cmd 0x5c packet for a brightness level and the standby wallpaper flag.
pub open spec fn set_brightness_packet(level: u8, standby_wallpaper: bool) -> Seq<u8> {
    let val = clamped_brightness(level);
    command_packet(0x5c).update(2, 0x01).update(5, val).update(9, val).update(10, 0x14).update(
        15,
        val,
    ).update(16, if standby_wallpaper { 0x14u8 } else { 0x00u8 })
}

/// Packet for setting backlight brightness (0..=100%) and standby wallpaper state (Cmd 0x5c).
///
/// `standby_wallpaper`: If true (0x14), keeps Default Wallpaper visible on standby power
/// when system enters sleep, hibernate, or soft-off states. If false (0x00), turns off display.
pub fn packet_set_brightness(level: u8, standby_wallpaper: bool) -> (pkt: [u8; PACKET_LEN])
    ensures
        pkt@ == set_brightness_packet(level, standby_wallpaper),
{
    let mut pkt = new_packet();
    let val = if level < 100 {
        level
    } else {
        100
    };
    pkt[1] = 0x5c;
    pkt[2] = 0x01;
    pkt[5] = val;
    pkt[9] = val;
    pkt[10] = 0x14;  // Backlight enable flag
    pkt[15] = val;
    pkt[16] = if standby_wallpaper {
        0x14
    } else {
        0x00
    };
    assert(pkt@ =~= set_brightness_packet(level, standby_wallpaper));
    pkt
}

/// The Cmd 0xdc sync / state query packet.
pub open spec fn sync_packet() -> Seq<u8> {
    command_packet(0xdc)
}

/// Sync / state query packet (Cmd 0xdc).
pub fn packet_sync() -> (pkt: [u8; PACKET_LEN])
    ensures
        pkt@ == sync_packet(),
{
    let mut pkt = new_packet();
    pkt[1] = 0xdc;
    assert(pkt@ =~= command_packet(0xdc));
    pkt
}

/// The Cmd 0x52 packet for a hardware monitor layout and theme.
pub open spec fn hw_layout_packet(layout: HwLayout, theme: u8) -> Seq<u8> {
    command_packet(0x52).update(2, 0x00).update(3, layout_code(layout)).update(4, 0x00).update(
        5,
        theme,
    )
}

/// Configure hardware monitor layout and theme (Cmd 0x52).
///
/// layout: Single (0), Dual (1), Triple (2), Multi (4)
/// theme: 1, 2, 3 (visual background styles)
pub fn packet_hw_layout(layout: HwLayout, theme: u8) -> (pkt: [u8; PACKET_LEN])
    ensures
        pkt@ == hw_layout_packet(layout, theme),
{
    let mut pkt = new_packet();
    pkt[1] = 0x52;
    pkt[2] = 0x00;
    pkt[3] = layout.code();
    pkt[4] = 0x00;
    pkt[5] = theme;
    assert(pkt@ =~= hw_layout_packet(layout, theme));
    pkt
}

/// The first `max` bytes of `bytes` (all of them when there are fewer).
pub open spec fn capped(bytes: Seq<u8>, max: nat) -> Seq<u8> {
    if bytes.len() > max {
        bytes.take(max as int)
    } else {
        bytes
    }
}

/// The Cmd 0x53 packet that writes a label and a value into a telemetry slot: the label's
/// UTF-8 bytes (at most 17) from offset 3, the value's (at most 43) from offset 21.
pub open spec fn telemetry_packet(slot: u8, label: Seq<u8>, value: Seq<u8>) -> Seq<u8> {
    splice(
        splice(command_packet(0x53).update(2, slot), 3, capped(label, 17)),
        21,
        capped(value, 43),
    )
}

/// Copies the first `n` bytes of `src` into `pkt` from position `at` on.
fn copy_into_packet(pkt: &mut [u8; PACKET_LEN], at: usize, src: &[u8], n: usize)
    requires
        n <= src@.len(),
        at + n <= PACKET_LEN,
    ensures
        final(pkt)@ == splice(old(pkt)@, at as int, src@.take(n as int)),
{
    let ghost before = pkt@;
    let mut j: usize = 0;
    while j < n
        invariant
            n <= src@.len(),
            at + n <= PACKET_LEN,
            j <= n,
            pkt@.len() == PACKET_LEN,
            forall|k: int| 0 <= k < PACKET_LEN ==> #[trigger] pkt@[k] == (if at <= k < at + j {
                src@[k - at]
            } else {
                before[k]
            }),
        decreases n - j,
    {
        pkt[at + j] = src[j];
        j = j + 1;
    }
    assert(pkt@ =~= splice(before, at as int, src@.take(n as int)));
}

/// Update a text slot in hardware monitor mode (Cmd 0x53).
///
/// Offset 3..20: Label (e.g. "CPU", "GPU", "Processor", "RAM", "FAN #1")
/// Offset 21..: Value (e.g. "45.0\u{2103}", "15%", "1250 RPM")
pub fn packet_telemetry(slot: u8, label: &str, value: &str) -> (pkt: [u8; PACKET_LEN])
    ensures
        pkt@ == telemetry_packet(slot, label.spec_bytes(), value.spec_bytes()),
{
    let mut pkt = new_packet();
    pkt[1] = 0x53;
    pkt[2] = slot;
    // Label: bytes 3..20 (max 17 bytes null-terminated)
    let label_bytes = label.as_bytes();
    let max_label: usize = 17;
    let l_len = if label_bytes.len() < max_label {
        label_bytes.len()
    } else {
        max_label
    };
    copy_into_packet(&mut pkt, 3, label_bytes, l_len);
    // Value: bytes 21..64 (max 43 bytes null-terminated)
    let val_bytes = value.as_bytes();
    let max_val: usize = 43;
    let v_len = if val_bytes.len() < max_val {
        val_bytes.len()
    } else {
        max_val
    };
    copy_into_packet(&mut pkt, 21, val_bytes, v_len);
    proof {
        assert(label_bytes@.take(l_len as int) =~= capped(label.spec_bytes(), 17));
        assert(val_bytes@.take(v_len as int) =~= capped(value.spec_bytes(), 43));
    }
    pkt
}

/// Law: every brightness level above 100 is sent exactly as 100.
pub proof fn law_brightness_saturates(level: u8, standby_wallpaper: bool)
    requires
        level >= 100,
    ensures
        set_brightness_packet(level, standby_wallpaper) == set_brightness_packet(
            100,
            standby_wallpaper,
        ),
{
}

/// Law: the brightness report carries the requested level, capped at 100, in each of its three
/// brightness fields (bytes 5, 9 and 15), the backlight-enable flag 0x14 in byte 10, and the
/// standby-wallpaper choice (0x14 or 0x00) in byte 16, after report ID 0xec and command 0x5c;
/// every other byte is zero.
pub proof fn law_brightness_fields(level: u8, standby_wallpaper: bool)
    ensures
        ({
            let p = set_brightness_packet(level, standby_wallpaper);
            let v: u8 = if level <= 100 { level } else { 100 };
            &&& p.len() == 65
            &&& p[0] == 0xec && p[1] == 0x5c && p[2] == 0x01
            &&& p[5] == v && p[9] == v && p[15] == v
            &&& v <= 100 && (level <= 100 ==> v == level)
            &&& p[10] == 0x14
            &&& p[16] == (if standby_wallpaper { 0x14u8 } else { 0x00u8 })
            &&& forall|i: int|
                3 <= i < 65 && i != 5 && i != 9 && i != 10 && i != 15 && i != 16 ==> p[i] == 0
        }),
{
}

/// Law: the layout report names the layout by its wire code in byte 3 — Single 0, Dual 1,
/// Triple 2, Multi 4, so different layouts get different codes — and the theme in byte 5,
/// after report ID 0xec and command 0x52; every other byte is zero.
pub proof fn law_layout_packet_fields(layout: HwLayout, other: HwLayout, theme: u8)
    ensures
        ({
            let p = hw_layout_packet(layout, theme);
            &&& p.len() == 65
            &&& p[0] == 0xec && p[1] == 0x52
            &&& p[3] == (match layout {
                HwLayout::Single => 0u8,
                HwLayout::Dual => 1u8,
                HwLayout::Triple => 2u8,
                HwLayout::Multi => 4u8,
            })
            &&& p[5] == theme
            &&& forall|i: int| 2 <= i < 65 && i != 3 && i != 5 ==> p[i] == 0
        }),
        layout != other ==> hw_layout_packet(layout, theme)[3] != hw_layout_packet(other, theme)[3],
{
}

/// Law: a custom-slot selection and its backward-compatible alias produce the same packet.
pub proof fn law_static_image_is_custom_slot(slot: u8)
    ensures
        set_mode_packet(DisplayMode::StaticImage(slot)) == set_mode_packet(
            DisplayMode::CustomSlot(slot),
        ),
{
}

/// The theme style that a hardware monitor layout is shown with: Multi always uses style 3;
/// the others take the asked style kept within 1..=4.
pub open spec fn monitor_theme_for(layout: HwLayout, theme: u8) -> u8 {
    if layout == HwLayout::Multi {
        3
    } else if theme < 1 {
        1
    } else if theme > 4 {
        4
    } else {
        theme
    }
}

/// The theme style to show `layout` with, as `monitor_theme_for`.
pub fn monitor_theme(layout: HwLayout, theme: u8) -> (r: u8)
    ensures
        r == monitor_theme_for(layout, theme),
{
    if layout == HwLayout::Multi {
        3
    } else if theme < 1 {
        1
    } else if theme > 4 {
        4
    } else {
        theme
    }
}

/// The built-in animation preset `index`, kept to the two presets 0 and 1.
pub fn animation_mode(index: u8) -> (r: DisplayMode)
    ensures
        r == DisplayMode::Animation(if index < 1 { index } else { 1 }),
{
    DisplayMode::Animation(if index < 1 {
        index
    } else {
        1
    })
}

/// The factory wallpaper preset `index`, kept to the six presets 0..=5.
pub fn default_wallpaper_mode(index: u8) -> (r: DisplayMode)
    ensures
        r == DisplayMode::DefaultWallpaper(if index < 5 { index } else { 5 }),
{
    DisplayMode::DefaultWallpaper(if index < 5 {
        index
    } else {
        5
    })
}

} // verus!
