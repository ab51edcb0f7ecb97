//! Firmware patch definitions and the Sum32 checksum of the LCD panel firmware image.
use vstd::prelude::*;
use vstd::slice::slice_to_vec;
use vstd::arithmetic::div_mod::lemma_add_mod_noop;

verus! {

/// Size in bytes of the official firmware 0109 image (0x7FF000).
pub const EXPECTED_FW_SIZE: usize = 8_384_512;

/// Sum32 checksum of the official stock firmware 0109.
pub const STOCK_FW_SUM32: u32 = 0x0383db44;

/// The modulus of 32-bit wrapping arithmetic.
pub open spec fn word_modulus() -> int {
    0x1_0000_0000
}

/// Why a firmware operation was refused.
#[allow(inconsistent_fields)]
#[derive(Debug)]
pub enum PatchError {
    /// The buffer (or a patch) has the wrong size.
    InvalidSize { expected: usize, actual: usize },
    /// The bytes at a patch site are not the ones the patch expects.
    SafetyAssertionFailed { name: &'static str, offset: usize, expected: Vec<u8>, found: Vec<u8> },
    /// A patch reaches past the end of the firmware buffer.
    OutOfBounds { offset: usize, len: usize, size: usize },
    /// The trailing Sum32 does not match the computed one.
    ChecksumMismatch { calculated: u32, stored: u32 },
}

/// The little-endian 32-bit word whose first byte is at `at`.
pub open spec fn le_word(data: Seq<u8>, at: int) -> int {
    data[at] as int + 256 * (data[at + 1] as int) + 65536 * (data[at + 2] as int) + 16777216 * (
    data[at + 3] as int)
}

/// The (unbounded) sum of the first `n` little-endian words of `data`.
pub open spec fn word_sum(data: Seq<u8>, n: nat) -> int
    decreases n,
{
    if n == 0 {
        0
    } else {
        word_sum(data, (n - 1) as nat) + le_word(data, 4 * (n - 1))
    }
}

/// Number of words that the checksum covers: all but the trailing one.
pub open spec fn covered_words(data: Seq<u8>) -> nat {
    ((data.len() - 4) / 4) as nat
}

/// The buffers on which Sum32 is defined: at least two words, whole words only.
pub open spec fn sum32_accepts(data: Seq<u8>) -> bool {
    data.len() >= 8 && data.len() % 4 == 0
}

/// Sum32: the sum, modulo 2^32, of every little-endian word but the trailing one.
pub open spec fn sum32(data: Seq<u8>) -> u32 {
    (word_sum(data, covered_words(data)) % word_modulus()) as u32
}

/// The checksum stored in the trailing four bytes.
pub open spec fn stored_sum32(data: Seq<u8>) -> u32 {
    le_word(data, data.len() - 4) as u32
}

/// The four little-endian bytes of `x`.
pub open spec fn u32_le_bytes(x: u32) -> Seq<u8> {
    seq![
        (x % 256) as u8,
        ((x / 256) % 256) as u8,
        ((x / 65536) % 256) as u8,
        (x / 16777216) as u8,
    ]
}

/// `data` with its trailing four bytes replaced by its own Sum32.
pub open spec fn with_checksum(data: Seq<u8>) -> Seq<u8> {
    data.take(data.len() - 4) + u32_le_bytes(sum32(data))
}

/// The word sum over a prefix only reads the bytes of that prefix.
proof fn lemma_word_sum_prefix(a: Seq<u8>, b: Seq<u8>, n: nat)
    requires
        4 * n <= a.len(),
        4 * n <= b.len(),
        forall|k: int| 0 <= k < 4 * n ==> a[k] == b[k],
    ensures
        word_sum(a, n) == word_sum(b, n),
    decreases n,
{
    if n > 0 {
        lemma_word_sum_prefix(a, b, (n - 1) as nat);
        assert(a[4 * (n - 1)] == b[4 * (n - 1)]);
        assert(a[4 * (n - 1) + 1] == b[4 * (n - 1) + 1]);
        assert(a[4 * (n - 1) + 2] == b[4 * (n - 1) + 2]);
        assert(a[4 * (n - 1) + 3] == b[4 * (n - 1) + 3]);
    }
}

/// Sum32 does not read the trailing four bytes.
pub proof fn lemma_sum32_ignores_trailer(a: Seq<u8>, b: Seq<u8>)
    requires
        sum32_accepts(a),
        a.len() == b.len(),
        a.take(a.len() - 4) == b.take(b.len() - 4),
    ensures
        sum32(a) == sum32(b),
{
    assert forall|k: int| 0 <= k < 4 * covered_words(a) implies a[k] == b[k] by {
        assert(a.take(a.len() - 4)[k] == b.take(b.len() - 4)[k]);
    }
    lemma_word_sum_prefix(a, b, covered_words(a));
}

/// Reading back the four little-endian bytes of `x` gives `x`.
pub proof fn lemma_le_bytes_roundtrip(x: u32)
    ensures
        u32_le_bytes(x).len() == 4,
        le_word(u32_le_bytes(x), 0) == x,
{
    let s = u32_le_bytes(x);
    assert(s[0] as int == x % 256);
    assert(s[1] as int == (x / 256) % 256);
    assert(s[2] as int == (x / 65536) % 256);
    assert(s[3] as int == x / 16777216);
    assert(x % 256 + 256 * ((x / 256) % 256) + 65536 * ((x / 65536) % 256) + 16777216 * (x
        / 16777216) == x) by (nonlinear_arith);
}

/// Computes the little-endian word that starts at byte `at`.
pub fn read_le_word(data: &[u8], at: usize) -> (w: u32)
    requires
        at + 4 <= data@.len(),
    ensures
        w as int == le_word(data@, at as int),
{
    data[at] as u32 + (data[at + 1] as u32) * 256 + (data[at + 2] as u32) * 65536 + (data[at
        + 3] as u32) * 16777216
}

/// Calculates the 32-bit addition sum (Sum32) over all little-endian 32-bit words,
/// excluding the trailing 4 bytes.
pub fn calculate_sum32(data: &[u8]) -> (r: Result<u32, PatchError>)
    ensures
        sum32_accepts(data@) ==> r == Ok::<u32, PatchError>(sum32(data@)),
        !sum32_accepts(data@) ==> (r matches Err(PatchError::InvalidSize { expected, actual })
            && expected == 8 && actual == data@.len()),
{
    if data.len() < 8 || data.len() % 4 != 0 {
        return Err(PatchError::InvalidSize { expected: 8, actual: data.len() });
    }
    let word_count = (data.len() - 4) / 4;
    let mut sum: u32 = 0;
    let mut i: usize = 0;
    while i < word_count
        invariant
            data@.len() >= 8,
            word_count == covered_words(data@),
            i <= word_count,
            sum as int == word_sum(data@, i as nat) % word_modulus(),
        decreases word_count - i,
    {
        let len = data.len();
        assert(i * 4 + 4 <= len) by (nonlinear_arith)
            requires
                i < word_count,
                word_count == (len - 4) / 4,
                len >= 8,
        ;
        let word = read_le_word(data, i * 4);
        proof {
            lemma_add_mod_noop(word_sum(data@, i as nat), word as int, word_modulus());
            assert(word as int % word_modulus() == word as int);
            assert((sum as int % word_modulus()) == sum as int);
        }
        sum = sum.wrapping_add(word);
        i = i + 1;
    }
    Ok(sum)
}

/// Verifies whether the trailing 4-byte checksum in the firmware matches the calculated Sum32.
pub fn verify_checksum(data: &[u8]) -> (r: Result<(u32, u32), PatchError>)
    ensures
        !sum32_accepts(data@) ==> (r matches Err(PatchError::InvalidSize { expected, actual })
            && expected == 8 && actual == data@.len()),
        sum32_accepts(data@) && sum32(data@) == stored_sum32(data@) ==> r == Ok::<
            (u32, u32),
            PatchError,
        >((sum32(data@), stored_sum32(data@))),
        sum32_accepts(data@) && sum32(data@) != stored_sum32(data@) ==> (r matches Err(
            PatchError::ChecksumMismatch { calculated, stored },
        ) && calculated == sum32(data@) && stored == stored_sum32(data@)),
{
    let calculated = match calculate_sum32(data) {
        Ok(s) => s,
        Err(e) => return Err(e),
    };
    let stored = read_le_word(data, data.len() - 4);
    if calculated == stored {
        Ok((calculated, stored))
    } else {
        Err(PatchError::ChecksumMismatch { calculated, stored })
    }
}


/// Description of a single binary patch.
#[derive(Debug, Clone, Copy)]
pub struct Patch {
    pub id: &'static str,
    pub name: &'static str,
    pub description: &'static str,
    pub offset: usize,
    pub expected: &'static [u8],
    pub replacement: &'static [u8],
}

/// Sub-patch 1: switches the TouchGFX framebuffer swap from an immediate LTDC shadow reload
/// to a vertical-blanking reload.
pub fn patch_vsync_reload() -> (p: Patch)
    ensures
        is_vsync_patch(p),
{
    Patch {
        id: "vsync-reload",
        name: "Vsync framebuffer reload",
        description: "setTFTFrameBuffer shadow reload IMMEDIATE -> VBLANK (01 22 -> 02 22 at 0x801a)",
        offset: 0x801a,
        expected: &[0x01, 0x22],
        replacement: &[0x02, 0x22],
    }
}


/// Sub-patch 2: registers the USB staging buffer directly with zero TouchGFX heap usage.
pub fn patch_zero_heap_setup() -> (p: Patch)
    ensures
        is_zero_heap_patch(p),
{
    Patch {
        id: "zero-heap-setup",
        name: "Zero-Heap Dynamic Bitmap Setup",
        description: "Registers TouchGFX dynamic bitmap directly to USB staging buffer (0x90E00000) with zero heap allocation",
        offset: 0xcf46,
        expected: &[
            0x00, 0x23, 0x02, 0x22, 0x4f, 0xf4, 0xa0, 0x61, 0x4f, 0xf4, 0x34, 0x70, 0x04, 0xf1,
            0x6c, 0x05, 0x18, 0xf0, 0x5b, 0xfc, 0xa4, 0xf8, 0x98, 0x00, 0x17, 0xf0, 0x93, 0xfe,
            0x4f, 0xf4, 0x61, 0x12, 0x00, 0x21, 0x3c, 0xf0, 0x9c, 0xfc, 0xb4, 0xf8, 0x98, 0x00,
            0x17, 0xf0, 0x8a, 0xfe, 0xc4, 0xf8, 0x9c, 0x00, 0xf8, 0xf7, 0xcc, 0xfa, 0xd4, 0xf8,
            0x9c, 0x00, 0xf8, 0xf7, 0xd0, 0xfa,
        ],
        replacement: &[
            0x04, 0xf1, 0x6c, 0x05, 0x18, 0xf0, 0xe5, 0xfb, 0x4e, 0xf2, 0xcc, 0x53, 0xc2, 0xf2,
            0x00, 0x43, 0x5a, 0x68, 0x0e, 0x21, 0x01, 0xfb, 0x00, 0x22, 0x0f, 0x30, 0xa4, 0xf8,
            0x98, 0x00, 0x40, 0xf2, 0xd0, 0x21, 0xc0, 0xf2, 0x00, 0x51, 0x91, 0x60, 0x22, 0x21,
            0x11, 0x73, 0x40, 0xf2, 0x00, 0x02, 0xc9, 0xf2, 0xe0, 0x02, 0x19, 0x68, 0x41, 0xf8,
            0x20, 0x20, 0xc4, 0xf8, 0x9c, 0x20,
        ],
    }
}

/// Sub-patch 3: NOPs the 3.68MB memcpy in handleTickEvent to eliminate external RAM bus
/// contention.
pub fn patch_memcpy_nop() -> (p: Patch)
    ensures
        is_memcpy_patch(p),
{
    Patch {
        id: "memcpy-nop",
        name: "Memcpy NOP",
        description: "NOPs the 3.68MB CPU memcpy in handleTickEvent, eliminating external RAM bus contention",
        offset: 0xcfd8,
        expected: &[0xf8, 0xf7, 0xa4, 0xfa],
        replacement: &[0x00, 0xbf, 0x00, 0xbf],
    }
}

/// The stock code bytes at 0xcf46 that the zero-heap patch replaces.
pub open spec fn zero_heap_expected() -> Seq<u8> {
    seq![
            0x00, 0x23, 0x02, 0x22, 0x4f, 0xf4, 0xa0, 0x61, 0x4f, 0xf4, 0x34, 0x70, 0x04, 0xf1,
            0x6c, 0x05, 0x18, 0xf0, 0x5b, 0xfc, 0xa4, 0xf8, 0x98, 0x00, 0x17, 0xf0, 0x93, 0xfe,
            0x4f, 0xf4, 0x61, 0x12, 0x00, 0x21, 0x3c, 0xf0, 0x9c, 0xfc, 0xb4, 0xf8, 0x98, 0x00,
            0x17, 0xf0, 0x8a, 0xfe, 0xc4, 0xf8, 0x9c, 0x00, 0xf8, 0xf7, 0xcc, 0xfa, 0xd4, 0xf8,
            0x9c, 0x00, 0xf8, 0xf7, 0xd0, 0xfa,
    ]
}

/// The code bytes that the zero-heap patch writes at 0xcf46.
pub open spec fn zero_heap_replacement() -> Seq<u8> {
    seq![
            0x04, 0xf1, 0x6c, 0x05, 0x18, 0xf0, 0xe5, 0xfb, 0x4e, 0xf2, 0xcc, 0x53, 0xc2, 0xf2,
            0x00, 0x43, 0x5a, 0x68, 0x0e, 0x21, 0x01, 0xfb, 0x00, 0x22, 0x0f, 0x30, 0xa4, 0xf8,
            0x98, 0x00, 0x40, 0xf2, 0xd0, 0x21, 0xc0, 0xf2, 0x00, 0x51, 0x91, 0x60, 0x22, 0x21,
            0x11, 0x73, 0x40, 0xf2, 0x00, 0x02, 0xc9, 0xf2, 0xe0, 0x02, 0x19, 0x68, 0x41, 0xf8,
            0x20, 0x20, 0xc4, 0xf8, 0x9c, 0x20,
    ]
}


/// How a patch relates to a firmware buffer, in the order in which the checks are made.
#[derive(Debug, Clone, Copy, PartialEq, Eq)]
pub enum PatchFit {
    /// The patch can be applied.
    Fits,
    /// The expected and replacement byte strings differ in length.
    LengthMismatch,
    /// The patch reaches past the end of the buffer.
    OutOfBounds,
    /// The buffer does not hold the expected bytes at the patch site.
    BytesDiffer,
}

/// The outcome of the safety checks of `p` against `data`.
pub open spec fn check_patch(p: Patch, data: Seq<u8>) -> PatchFit {
    if p.expected@.len() != p.replacement@.len() {
        PatchFit::LengthMismatch
    } else if p.offset + p.expected@.len() > data.len() {
        PatchFit::OutOfBounds
    } else if data.subrange(p.offset as int, p.offset + p.expected@.len()) != p.expected@ {
        PatchFit::BytesDiffer
    } else {
        PatchFit::Fits
    }
}

/// Every patch of `ps` passes its safety checks against `data`.
pub open spec fn all_fit(ps: Seq<Patch>, data: Seq<u8>) -> bool {
    forall|j: int| 0 <= j < ps.len() ==> #[trigger] check_patch(ps[j], data) == PatchFit::Fits
}

/// `e` is the error that the failed check of `p` against `data` is reported with.
pub open spec fn reports(e: PatchError, p: Patch, data: Seq<u8>) -> bool {
    match check_patch(p, data) {
        PatchFit::LengthMismatch => (e matches PatchError::InvalidSize { expected, actual }
            && expected == p.expected@.len() && actual == p.replacement@.len()),
        PatchFit::OutOfBounds => (e matches PatchError::OutOfBounds { offset, len, size }
            && offset == p.offset && len == p.expected@.len() && size == data.len()),
        PatchFit::BytesDiffer => (e matches PatchError::SafetyAssertionFailed {
            name,
            offset,
            expected,
            found,
        } && name == p.name && offset == p.offset && expected@ == p.expected@ && found@
            == data.subrange(p.offset as int, p.offset + p.expected@.len())),
        PatchFit::Fits => false,
    }
}

/// `data` with `bytes` written over it from position `off` on.
pub open spec fn splice(data: Seq<u8>, off: int, bytes: Seq<u8>) -> Seq<u8> {
    data.take(off) + bytes + data.skip(off + bytes.len())
}

/// `data` with the replacement bytes of every patch of `ps` written in order.
pub open spec fn apply_all(data: Seq<u8>, ps: Seq<Patch>) -> Seq<u8>
    decreases ps.len(),
{
    if ps.len() == 0 {
        data
    } else {
        splice(apply_all(data, ps.drop_last()), ps.last().offset as int, ps.last().replacement@)
    }
}

/// Whether `data` holds `bytes` from position `off` on.
fn bytes_equal_at(data: &[u8], off: usize, bytes: &[u8]) -> (r: bool)
    requires
        off + bytes@.len() <= data@.len(),
    ensures
        r == (data@.subrange(off as int, off + bytes@.len()) == bytes@),
{
    let dl = data.len();
    let mut j: usize = 0;
    while j < bytes.len()
        invariant
            dl == data@.len(),
            off + bytes@.len() <= data@.len(),
            j <= bytes@.len(),
            forall|k: int| 0 <= k < j ==> data@[off + k] == bytes@[k],
        decreases bytes@.len() - j,
    {
        if data[off + j] != bytes[j] {
            assert(data@.subrange(off as int, off + bytes@.len())[j as int] != bytes@[j as int]);
            return false;
        }
        j = j + 1;
    }
    assert(data@.subrange(off as int, off + bytes@.len()) =~= bytes@);
    true
}

/// Copies `data[start..end]` into a new vector.
fn copy_range(data: &[u8], start: usize, end: usize) -> (r: Vec<u8>)
    requires
        start <= end <= data@.len(),
    ensures
        r@ == data@.subrange(start as int, end as int),
{
    let mut r: Vec<u8> = Vec::new();
    let mut k: usize = start;
    while k < end
        invariant
            start <= k <= end <= data@.len(),
            r@ == data@.subrange(start as int, k as int),
        decreases end - k,
    {
        r.push(data[k]);
        assert(r@ =~= data@.subrange(start as int, k + 1));
        k = k + 1;
    }
    r
}

/// Writes `bytes` into `data` from position `off` on.
fn write_bytes(data: &mut [u8], off: usize, bytes: &[u8])
    requires
        off + bytes@.len() <= old(data)@.len(),
    ensures
        final(data)@ == splice(old(data)@, off as int, bytes@),
{
    let ghost before = data@;
    let dl = data.len();
    let mut j: usize = 0;
    while j < bytes.len()
        invariant
            dl == before.len(),
            off + bytes@.len() <= before.len(),
            data@.len() == before.len(),
            j <= bytes@.len(),
            forall|k: int| 0 <= k < data@.len() ==> #[trigger] data@[k] == (if off <= k < off + j {
                bytes@[k - off]
            } else {
                before[k]
            }),
        decreases bytes@.len() - j,
    {
        data[off + j] = bytes[j];
        j = j + 1;
    }
    assert(data@ =~= splice(before, off as int, bytes@));
}

/// The four little-endian bytes of `x`.
fn u32_to_le_bytes(x: u32) -> (r: [u8; 4])
    ensures
        r@ == u32_le_bytes(x),
{
    let r = [(x % 256) as u8, ((x / 256) % 256) as u8, ((x / 65536) % 256) as u8, (x / 16777216) as u8];
    assert(r@ =~= u32_le_bytes(x));
    r
}

/// Runs the safety checks of one patch against `data`.
fn check_one(data: &[u8], p: &Patch) -> (r: Result<(), PatchError>)
    ensures
        r is Ok <==> check_patch(*p, data@) == PatchFit::Fits,
        r matches Err(e) ==> reports(e, *p, data@),
{
    if p.expected.len() != p.replacement.len() {
        return Err(PatchError::InvalidSize { expected: p.expected.len(), actual: p.replacement.len() });
    }
    let exp_end = match p.offset.checked_add(p.expected.len()) {
        Some(e) => e,
        None => {
            return Err(
                PatchError::OutOfBounds { offset: p.offset, len: p.expected.len(), size: data.len() },
            )
        },
    };
    if exp_end > data.len() {
        return Err(
            PatchError::OutOfBounds { offset: p.offset, len: p.expected.len(), size: data.len() },
        );
    }
    let rep_end = match p.offset.checked_add(p.replacement.len()) {
        Some(e) => e,
        None => {
            return Err(
                PatchError::OutOfBounds {
                    offset: p.offset,
                    len: p.replacement.len(),
                    size: data.len(),
                },
            )
        },
    };
    if rep_end > data.len() {
        return Err(
            PatchError::OutOfBounds { offset: p.offset, len: p.replacement.len(), size: data.len() },
        );
    }
    if !bytes_equal_at(data, p.offset, p.expected) {
        let expected = slice_to_vec(p.expected);
        let found = copy_range(data, p.offset, exp_end);
        return Err(
            PatchError::SafetyAssertionFailed { name: p.name, offset: p.offset, expected, found },
        );
    }
    Ok(())
}

/// Applies a list of patches to a mutable firmware buffer with strict safety checks,
/// then recalculates and updates the Sum32 checksum at `data[data.len() - 4..]`.
///
/// Every check is made before any byte is written: a refused patch leaves `data` as it was.
pub fn apply_patches(data: &mut [u8], patches: &[Patch]) -> (r: Result<u32, PatchError>)
    ensures
        old(data)@.len() < EXPECTED_FW_SIZE ==> final(data)@ == old(data)@ && (r matches Err(
            PatchError::InvalidSize { expected, actual },
        ) && expected == EXPECTED_FW_SIZE && actual == old(data)@.len()),
        old(data)@.len() >= EXPECTED_FW_SIZE && !all_fit(patches@, old(data)@) ==> final(data)@
            == old(data)@ && (r matches Err(e) && exists|k: int|
            0 <= k < patches@.len() && all_fit(patches@.take(k), old(data)@) && #[trigger] reports(
                e,
                patches@[k],
                old(data)@,
            )),
        old(data)@.len() >= EXPECTED_FW_SIZE && all_fit(patches@, old(data)@) && old(data)@.len()
            % 4 != 0 ==> final(data)@ == apply_all(old(data)@, patches@) && (r matches Err(
            PatchError::InvalidSize { expected, actual },
        ) && expected == 8 && actual == old(data)@.len()),
        old(data)@.len() >= EXPECTED_FW_SIZE && all_fit(patches@, old(data)@) && old(data)@.len()
            % 4 == 0 ==> final(data)@ == with_checksum(apply_all(old(data)@, patches@)) && r == Ok::<
            u32,
            PatchError,
        >(sum32(apply_all(old(data)@, patches@))),
{
    if data.len() < EXPECTED_FW_SIZE {
        return Err(PatchError::InvalidSize { expected: EXPECTED_FW_SIZE, actual: data.len() });
    }
    let ghost original = data@;
    // Step 1: verify all safety assertions before modifying anything
    let mut i: usize = 0;
    while i < patches.len()
        invariant
            data@ == original,
            original == old(data)@,
            original.len() >= EXPECTED_FW_SIZE,
            i <= patches@.len(),
            all_fit(patches@.take(i as int), original),
        decreases patches@.len() - i,
    {
        match check_one(data, &patches[i]) {
            Ok(()) => {},
            Err(e) => {
                assert(reports(e, patches@[i as int], original));
                assert(!all_fit(patches@, original));
                return Err(e);
            },
        }
        assert forall|j: int| 0 <= j < i + 1 implies #[trigger] check_patch(
            patches@.take(i + 1)[j],
            original,
        ) == PatchFit::Fits by {
            if j < i {
                assert(patches@.take(i + 1)[j] == patches@.take(i as int)[j]);
            }
        }
        i = i + 1;
    }
    assert(patches@.take(patches@.len() as int) =~= patches@);
    // Step 2: apply all replacement bytes
    let mut i: usize = 0;
    while i < patches.len()
        invariant
            data@.len() == original.len(),
            original == old(data)@,
            original.len() >= EXPECTED_FW_SIZE,
            i <= patches@.len(),
            all_fit(patches@, original),
            data@ == apply_all(original, patches@.take(i as int)),
        decreases patches@.len() - i,
    {
        let p = patches[i];
        assert(check_patch(patches@[i as int], original) == PatchFit::Fits);
        write_bytes(data, p.offset, p.replacement);
        assert(patches@.take(i + 1).drop_last() =~= patches@.take(i as int));
        i = i + 1;
    }
    // Step 3: recalculate and write the new Sum32 checksum
    let new_sum = match calculate_sum32(data) {
        Ok(s) => s,
        Err(e) => return Err(e),
    };
    let len = data.len();
    let bytes = u32_to_le_bytes(new_sum);
    let ghost applied = data@;
    write_bytes(data, len - 4, &bytes);
    assert(data@ =~= with_checksum(applied));
    Ok(new_sum)
}


/// The two code bytes that the vsync patch expects at 0x801a.
pub open spec fn vsync_expected() -> Seq<u8> {
    seq![0x01u8, 0x22u8]
}

/// The two code bytes that the vsync patch writes at 0x801a.
pub open spec fn vsync_replacement() -> Seq<u8> {
    seq![0x02u8, 0x22u8]
}

/// The four code bytes that the memcpy patch expects at 0xcfd8.
pub open spec fn memcpy_expected() -> Seq<u8> {
    seq![0xf8u8, 0xf7u8, 0xa4u8, 0xfau8]
}

/// The four code bytes (two Thumb NOPs) that the memcpy patch writes at 0xcfd8.
pub open spec fn memcpy_replacement() -> Seq<u8> {
    seq![0x00u8, 0xbfu8, 0x00u8, 0xbfu8]
}

/// `data` holds `bytes` from position `off` on.
pub open spec fn site_holds(data: Seq<u8>, off: int, bytes: Seq<u8>) -> bool {
    off + bytes.len() <= data.len() && data.subrange(off, off + bytes.len()) == bytes
}

/// The three sub-patches of the video streaming patch, in the order in which they are applied.
pub open spec fn is_streaming_set(ps: Seq<Patch>) -> bool {
    &&& ps.len() == 3
    &&& is_vsync_patch(ps[0])
    &&& is_zero_heap_patch(ps[1])
    &&& is_memcpy_patch(ps[2])
}

/// Sub-patch 1, field by field.
pub open spec fn is_vsync_patch(p: Patch) -> bool {
    &&& p.id@ == "vsync-reload"@
    &&& p.name@ == "Vsync framebuffer reload"@
    &&& p.description@ == "setTFTFrameBuffer shadow reload IMMEDIATE -> VBLANK (01 22 -> 02 22 at 0x801a)"@
    &&& p.offset == 0x801a
    &&& p.expected@ == vsync_expected()
    &&& p.replacement@ == vsync_replacement()
}

/// Sub-patch 2, field by field.
pub open spec fn is_zero_heap_patch(p: Patch) -> bool {
    &&& p.id@ == "zero-heap-setup"@
    &&& p.name@ == "Zero-Heap Dynamic Bitmap Setup"@
    &&& p.description@
        == "Registers TouchGFX dynamic bitmap directly to USB staging buffer (0x90E00000) with zero heap allocation"@
    &&& p.offset == 0xcf46
    &&& p.expected@ == zero_heap_expected()
    &&& p.replacement@ == zero_heap_replacement()
}

/// Sub-patch 3, field by field.
pub open spec fn is_memcpy_patch(p: Patch) -> bool {
    &&& p.id@ == "memcpy-nop"@
    &&& p.name@ == "Memcpy NOP"@
    &&& p.description@
        == "NOPs the 3.68MB CPU memcpy in handleTickEvent, eliminating external RAM bus contention"@
    &&& p.offset == 0xcfd8
    &&& p.expected@ == memcpy_expected()
    &&& p.replacement@ == memcpy_replacement()
}

/// A firmware image of at least the stock size that carries the whole streaming patch.
pub open spec fn streaming_patched(data: Seq<u8>) -> bool {
    &&& data.len() >= EXPECTED_FW_SIZE
    &&& site_holds(data, 0x801a, vsync_replacement())
    &&& site_holds(data, 0xcf46, zero_heap_replacement())
    &&& site_holds(data, 0xcfd8, memcpy_replacement())
}

/// A firmware image of at least the stock size that holds the stock code at all three sites.
pub open spec fn streaming_fits(data: Seq<u8>) -> bool {
    &&& data.len() >= EXPECTED_FW_SIZE
    &&& site_holds(data, 0x801a, vsync_expected())
    &&& site_holds(data, 0xcf46, zero_heap_expected())
    &&& site_holds(data, 0xcfd8, memcpy_expected())
}

/// `data` with the three streaming replacements written, in order.
pub open spec fn apply_streaming(data: Seq<u8>) -> Seq<u8> {
    splice(
        splice(splice(data, 0x801a, vsync_replacement()), 0xcf46, zero_heap_replacement()),
        0xcfd8,
        memcpy_replacement(),
    )
}

/// The complete video streaming patch:
/// 1. Vsync shadow reload (0x0000801a): switches immediate reload to VBLANK reload,
///    eliminating horizontal boundary tearing on frame swap.
/// 2. Zero-heap dynamic bitmap registration (0x0000cf46): points the TouchGFX dynamic bitmap
///    directly to the USB staging buffer (0x90E00000) with zero heap allocation.
/// 3. Zero-copy tick NOP (0x0000cfd8): NOPs the 3.68MB CPU memcpy in handleTickEvent.
pub fn streaming_patches() -> (r: [Patch; 3])
    ensures
        is_streaming_set(r@),
{
    [patch_vsync_reload(), patch_zero_heap_setup(), patch_memcpy_nop()]
}

/// Relates the three streaming sub-patches to the streaming site predicates.
proof fn lemma_streaming_set(ps: Seq<Patch>, data: Seq<u8>)
    requires
        is_streaming_set(ps),
        data.len() >= EXPECTED_FW_SIZE,
    ensures
        all_fit(ps, data) <==> streaming_fits(data),
        apply_all(data, ps) == apply_streaming(data),
{
    reveal_with_fuel(apply_all, 4);
    assert(ps.drop_last().drop_last().drop_last() =~= Seq::<Patch>::empty());
    assert(ps.drop_last().drop_last().last() == ps[0]);
    assert(ps.drop_last().last() == ps[1]);
    if streaming_fits(data) {
        assert(check_patch(ps[0], data) == PatchFit::Fits);
        assert(check_patch(ps[1], data) == PatchFit::Fits);
        assert(check_patch(ps[2], data) == PatchFit::Fits);
    }
    if all_fit(ps, data) {
        assert(check_patch(ps[0], data) == PatchFit::Fits);
        assert(check_patch(ps[1], data) == PatchFit::Fits);
        assert(check_patch(ps[2], data) == PatchFit::Fits);
    }
}

/// `e` reports a safety failure of the patch `name` at `off`, whose stock bytes `expected`
/// `data` does not hold there.
pub open spec fn safety_failure(e: PatchError, name: Seq<char>, off: int, expected: Seq<u8>, data: Seq<u8>) -> bool {
    e matches PatchError::SafetyAssertionFailed { name: n, offset, expected: x, found } && n@ == name
        && offset == off && x@ == expected && found@ == data.subrange(off, off + expected.len())
}

/// The error with which the streaming patch refuses `data`: the safety failure of the first
/// sub-patch, in order, whose site does not hold its stock bytes.
pub open spec fn streaming_refusal(e: PatchError, data: Seq<u8>) -> bool {
    if !site_holds(data, 0x801a, vsync_expected()) {
        safety_failure(e, "Vsync framebuffer reload"@, 0x801a, vsync_expected(), data)
    } else if !site_holds(data, 0xcf46, zero_heap_expected()) {
        safety_failure(e, "Zero-Heap Dynamic Bitmap Setup"@, 0xcf46, zero_heap_expected(), data)
    } else {
        safety_failure(e, "Memcpy NOP"@, 0xcfd8, memcpy_expected(), data)
    }
}

/// Applies the complete video streaming patch to stock firmware and updates Sum32.
pub fn apply_streaming_patch(data: &mut [u8]) -> (r: Result<u32, PatchError>)
    ensures
        old(data)@.len() < EXPECTED_FW_SIZE ==> final(data)@ == old(data)@ && (r matches Err(
            PatchError::InvalidSize { expected, actual },
        ) && expected == EXPECTED_FW_SIZE && actual == old(data)@.len()),
        old(data)@.len() >= EXPECTED_FW_SIZE && !streaming_fits(old(data)@) ==> final(data)@
            == old(data)@ && (r matches Err(e) && streaming_refusal(e, old(data)@)),
        streaming_fits(old(data)@) && old(data)@.len() % 4 != 0 ==> final(data)@
            == apply_streaming(old(data)@) && (r matches Err(
            PatchError::InvalidSize { expected, actual },
        ) && expected == 8 && actual == old(data)@.len()),
        streaming_fits(old(data)@) && old(data)@.len() % 4 == 0 ==> final(data)@
            == with_checksum(apply_streaming(old(data)@)) && r == Ok::<u32, PatchError>(
            sum32(apply_streaming(old(data)@)),
        ),
{
    let ps = streaming_patches();
    proof {
        if old(data)@.len() >= EXPECTED_FW_SIZE {
            lemma_streaming_set(ps@, old(data)@);
        }
    }
    let r = apply_patches(data, &ps);
    proof {
        if old(data)@.len() >= EXPECTED_FW_SIZE && !streaming_fits(old(data)@) {
            let e = r->Err_0;
            let k = choose|k: int|
                0 <= k < ps@.len() && all_fit(ps@.take(k), old(data)@) && #[trigger] reports(
                    e,
                    ps@[k],
                    old(data)@,
                );
            assert(check_patch(ps@[k], old(data)@) == PatchFit::BytesDiffer);
            let d = old(data)@;
            if k >= 1 {
                assert(ps@.take(k)[0] == ps@[0]);
                assert(check_patch(ps@.take(k)[0], d) == PatchFit::Fits);
                assert(site_holds(d, 0x801a, vsync_expected()));
            }
            if k >= 2 {
                assert(ps@.take(k)[1] == ps@[1]);
                assert(check_patch(ps@.take(k)[1], d) == PatchFit::Fits);
                assert(site_holds(d, 0xcf46, zero_heap_expected()));
            }
            if k == 0 {
                assert(!site_holds(d, 0x801a, vsync_expected()));
                assert(safety_failure(e, "Vsync framebuffer reload"@, 0x801a, vsync_expected(), d));
            } else if k == 1 {
                assert(!site_holds(d, 0xcf46, zero_heap_expected()));
                assert(safety_failure(e, "Zero-Heap Dynamic Bitmap Setup"@, 0xcf46, zero_heap_expected(), d));
            } else {
                assert(safety_failure(e, "Memcpy NOP"@, 0xcfd8, memcpy_expected(), d));
            }
            assert(streaming_refusal(e, d));
        }
    }
    r
}

/// Checks if firmware already has the complete video streaming patch applied.
pub fn is_streaming_patched(data: &[u8]) -> (r: bool)
    ensures
        r == streaming_patched(data@),
{
    if data.len() < EXPECTED_FW_SIZE {
        return false;
    }
    let ps = streaming_patches();
    let mut i: usize = 0;
    while i < 3
        invariant
            is_streaming_set(ps@),
            data@.len() >= EXPECTED_FW_SIZE,
            i <= 3,
            forall|j: int| 0 <= j < i ==> site_holds(data@, ps@[j].offset as int, #[trigger] ps@[j].replacement@),
        decreases 3 - i,
    {
        let p = ps[i];
        let end = p.offset + p.replacement.len();
        if !(end <= data.len() && bytes_equal_at(data, p.offset, p.replacement)) {
            return false;
        }
        i = i + 1;
    }
    assert(site_holds(data@, ps@[0].offset as int, ps@[0].replacement@));
    assert(site_holds(data@, ps@[1].offset as int, ps@[1].replacement@));
    assert(site_holds(data@, ps@[2].offset as int, ps@[2].replacement@));
    true
}

/// Summary of a byte difference between original and patched firmware.
#[derive(Debug, Clone, Copy, PartialEq, Eq)]
pub struct ByteDiff {
    pub offset: usize,
    pub original: u8,
    pub patched: u8,
}

/// `ds` lists, in increasing order of offset, exactly the positions below `n` at which `a`
/// and `b` differ, with the byte of each.
pub open spec fn lists_differences(ds: Seq<ByteDiff>, a: Seq<u8>, b: Seq<u8>, n: int) -> bool {
    &&& forall|k: int|
        0 <= k < ds.len() ==> {
            let d = #[trigger] ds[k];
            &&& d.offset < n
            &&& d.original == a[d.offset as int]
            &&& d.patched == b[d.offset as int]
            &&& a[d.offset as int] != b[d.offset as int]
        }
    &&& forall|k1: int, k2: int| 0 <= k1 < k2 < ds.len() ==> ds[k1].offset < ds[k2].offset
    &&& forall|i: int|
        0 <= i < n && a[i] != b[i] ==> exists|k: int| 0 <= k < ds.len() && #[trigger] ds[k].offset
            == i
}

/// Compares two firmware buffers and returns all changed bytes.
/// Returns an error if the buffers have different lengths.
pub fn diff_firmware(orig: &[u8], patched: &[u8]) -> (r: Result<Vec<ByteDiff>, PatchError>)
    ensures
        orig@.len() != patched@.len() ==> (r matches Err(PatchError::InvalidSize { expected, actual })
            && expected == orig@.len() && actual == patched@.len()),
        orig@.len() == patched@.len() ==> (r matches Ok(ds) && lists_differences(
            ds@,
            orig@,
            patched@,
            orig@.len() as int,
        )),
{
    if orig.len() != patched.len() {
        return Err(PatchError::InvalidSize { expected: orig.len(), actual: patched.len() });
    }
    let mut diffs: Vec<ByteDiff> = Vec::new();
    let mut i: usize = 0;
    while i < orig.len()
        invariant
            orig@.len() == patched@.len(),
            i <= orig@.len(),
            lists_differences(diffs@, orig@, patched@, i as int),
        decreases orig@.len() - i,
    {
        if orig[i] != patched[i] {
            let ghost before = diffs@;
            diffs.push(ByteDiff { offset: i, original: orig[i], patched: patched[i] });
            assert forall|j: int| 0 <= j < i + 1 && orig@[j] != patched@[j] implies exists|k: int|
                0 <= k < diffs@.len() && #[trigger] diffs@[k].offset == j by {
                if j < i {
                    let k = choose|k: int| 0 <= k < before.len() && #[trigger] before[k].offset == j;
                    assert(diffs@[k] == before[k]);
                } else {
                    assert(diffs@[diffs@.len() - 1].offset == j);
                }
            }
        } else {
            assert forall|j: int| 0 <= j < i + 1 && orig@[j] != patched@[j] implies exists|k: int|
                0 <= k < diffs@.len() && #[trigger] diffs@[k].offset == j by {
                assert(j < i);
            }
        }
        i = i + 1;
    }
    Ok(diffs)
}


/// Writing in-bounds patches keeps the length of the buffer.
proof fn lemma_apply_all_len(data: Seq<u8>, ps: Seq<Patch>)
    requires
        forall|j: int|
            0 <= j < ps.len() ==> ps[j].offset + (#[trigger] ps[j]).replacement@.len() <= data.len(),
    ensures
        apply_all(data, ps).len() == data.len(),
    decreases ps.len(),
{
    if ps.len() > 0 {
        assert forall|j: int| 0 <= j < ps.drop_last().len() implies ps.drop_last()[j].offset
            + (#[trigger] ps.drop_last()[j]).replacement@.len() <= data.len() by {
            assert(ps.drop_last()[j] == ps[j]);
        }
        lemma_apply_all_len(data, ps.drop_last());
        assert(ps.last() == ps[ps.len() - 1]);
    }
}

/// Law: a firmware image that `apply_patches` accepted carries a valid trailing Sum32, and
/// that Sum32 is the value `apply_patches` returned: `verify_checksum` on the result gives
/// `Ok((sum, sum))`.
pub proof fn law_patched_firmware_checksum_is_valid(original: Seq<u8>, patches: Seq<Patch>)
    requires
        original.len() >= EXPECTED_FW_SIZE,
        original.len() % 4 == 0,
        all_fit(patches, original),
    ensures
        ({
            let applied = apply_all(original, patches);
            let out = with_checksum(applied);
            &&& sum32_accepts(out)
            &&& sum32(out) == sum32(applied)
            &&& stored_sum32(out) == sum32(applied)
        }),
{
    assert forall|j: int| 0 <= j < patches.len() implies patches[j].offset + (
    #[trigger] patches[j]).replacement@.len() <= original.len() by {
        assert(check_patch(patches[j], original) == PatchFit::Fits);
    }
    lemma_apply_all_len(original, patches);
    let applied = apply_all(original, patches);
    let out = with_checksum(applied);
    lemma_le_bytes_roundtrip(sum32(applied));
    assert(out.take(out.len() - 4) =~= applied.take(applied.len() - 4));
    lemma_sum32_ignores_trailer(applied, out);
    assert(out.subrange(out.len() - 4, out.len() as int) =~= u32_le_bytes(sum32(applied)));
    assert(le_word(out, out.len() - 4) == le_word(u32_le_bytes(sum32(applied)), 0)) by {
        assert(out[out.len() - 4] == u32_le_bytes(sum32(applied))[0]);
        assert(out[out.len() - 3] == u32_le_bytes(sum32(applied))[1]);
        assert(out[out.len() - 2] == u32_le_bytes(sum32(applied))[2]);
        assert(out[out.len() - 1] == u32_le_bytes(sum32(applied))[3]);
    }
}

/// Law: after `apply_streaming_patch` succeeds, `is_streaming_patched` recognises the result.
pub proof fn law_streaming_patch_is_detected(original: Seq<u8>)
    requires
        streaming_fits(original),
        original.len() % 4 == 0,
    ensures
        streaming_patched(with_checksum(apply_streaming(original))),
{
    let a1 = splice(original, 0x801a, vsync_replacement());
    let a2 = splice(a1, 0xcf46, zero_heap_replacement());
    let a3 = splice(a2, 0xcfd8, memcpy_replacement());
    assert(a1.len() == original.len());
    assert(a2.len() == original.len());
    assert(a3.len() == original.len());
    let out = with_checksum(a3);
    assert(out.len() == original.len());
    assert(out.subrange(0x801a, 0x801c) =~= vsync_replacement()) by {
        assert forall|k: int| 0x801a <= k < 0x801c implies out[k] == a1[k] by {
            assert(out[k] == a3[k]);
            assert(a3[k] == a2[k]);
            assert(a2[k] == a1[k]);
        }
    }
    assert(out.subrange(0xcf46, 0xcf84) =~= zero_heap_replacement()) by {
        assert forall|k: int| 0xcf46 <= k < 0xcf84 implies out[k] == a2[k] by {
            assert(out[k] == a3[k]);
            assert(a3[k] == a2[k]);
        }
    }
    assert(out.subrange(0xcfd8, 0xcfdc) =~= memcpy_replacement()) by {
        assert forall|k: int| 0xcfd8 <= k < 0xcfdc implies out[k] == a3[k] by {
            assert(out[k] == a3[k]);
        }
    }
}

/// Law: stock firmware, on which the streaming patch can be applied, is never reported as
/// already patched.
pub proof fn law_stock_firmware_is_not_streaming_patched(data: Seq<u8>)
    requires
        streaming_fits(data),
    ensures
        !streaming_patched(data),
{
    assert(data.subrange(0x801a, 0x801c)[0] == vsync_expected()[0]);
}

/// Law: comparing a firmware image with itself reports no difference.
pub proof fn law_diff_of_identical_is_empty(ds: Seq<ByteDiff>, a: Seq<u8>)
    requires
        lists_differences(ds, a, a, a.len() as int),
    ensures
        ds.len() == 0,
{
    if ds.len() > 0 {
        let d = ds[0];
        assert(a[d.offset as int] != a[d.offset as int]);
    }
}

} // verus!
