//! What the firmware patcher decides: the report on an image, whether and how the streaming
//! patch is applied to it, and how the byte differences of two images are grouped.
use vstd::prelude::*;
use crate::patches::{
    apply_streaming, apply_streaming_patch, calculate_sum32, is_memcpy_patch, is_streaming_patched,
    is_streaming_set, is_vsync_patch, is_zero_heap_patch, le_word,
    read_le_word, streaming_fits, streaming_patched, streaming_patches, stored_sum32, sum32,
    sum32_accepts, verify_checksum, with_checksum, ByteDiff, Patch, PatchError, EXPECTED_FW_SIZE,
    STOCK_FW_SUM32,
};

verus! {

/// The checksum and patch status of a firmware image.
#[derive(Debug)]
pub struct FirmwareInfo {
    /// The calculated Sum32 (0 when the image size allows none).
    pub calculated: u32,
    /// The trailing stored word (0 when the image is shorter than a word).
    pub stored: u32,
    /// Why the checksum is not valid, when it is not.
    pub checksum_error: Option<PatchError>,
    /// The calculated Sum32 is that of the official stock firmware 0109.
    pub is_stock: bool,
    /// The video streaming patch is applied.
    pub streaming_patched: bool,
}

/// The Sum32 that the report shows: the calculated one, or 0 when the size allows none.
pub open spec fn reported_sum(data: Seq<u8>) -> u32 {
    if sum32_accepts(data) {
        sum32(data)
    } else {
        0
    }
}

/// The stored word that the report shows: the trailing one, or 0 in an image shorter than a word.
pub open spec fn reported_stored(data: Seq<u8>) -> u32 {
    if data.len() >= 4 {
        le_word(data, data.len() - 4) as u32
    } else {
        0
    }
}

/// Inspects a firmware image: its Sum32 (valid or not, and why not), whether it is the stock
/// 0109 image, and whether the video streaming patch is applied.
pub fn inspect_firmware(data: &[u8]) -> (r: FirmwareInfo)
    ensures
        r.calculated == reported_sum(data@),
        r.stored == reported_stored(data@),
        r.checksum_error is None <==> (sum32_accepts(data@) && sum32(data@) == stored_sum32(data@)),
        r.checksum_error matches Some(e) ==> (if sum32_accepts(data@) {
            e matches PatchError::ChecksumMismatch { calculated, stored } && calculated == sum32(data@)
                && stored == stored_sum32(data@)
        } else {
            e matches PatchError::InvalidSize { expected, actual } && expected == 8 && actual
                == data@.len()
        }),
        r.is_stock == (reported_sum(data@) == STOCK_FW_SUM32),
        r.streaming_patched == streaming_patched(data@),
{
    let patched = is_streaming_patched(data);
    match verify_checksum(data) {
        Ok((calc, stored)) => FirmwareInfo {
            calculated: calc,
            stored,
            checksum_error: None,
            is_stock: calc == STOCK_FW_SUM32,
            streaming_patched: patched,
        },
        Err(e) => {
            let calc = match calculate_sum32(data) {
                Ok(s) => s,
                Err(_) => 0,
            };
            let stored = if data.len() >= 4 {
                read_le_word(data, data.len() - 4)
            } else {
                0
            };
            FirmwareInfo {
                calculated: calc,
                stored,
                checksum_error: Some(e),
                is_stock: calc == STOCK_FW_SUM32,
                streaming_patched: patched,
            }
        },
    }
}

/// What patching did.
#[derive(Debug, Clone, Copy, PartialEq, Eq, Structural)]
pub enum PatchOutcome {
    /// The image already carried the streaming patch and was left as it was.
    AlreadyPatched,
    /// The patch was applied; the new Sum32 is `checksum`.
    Applied { checksum: u32 },
}

/// Why an image was not patched.
#[derive(Debug)]
pub enum PatchRefusal {
    /// The image is smaller than the 0109 firmware.
    TooSmall { len: usize },
    /// The image is larger than the 0109 firmware.
    SizeMismatch { len: usize },
    /// The image's Sum32 is not valid.
    Checksum(PatchError),
    /// The image is neither the stock 0109 firmware nor already patched.
    NotStock { checksum: u32 },
    /// The patch sites do not hold the stock bytes.
    Patch(PatchError),
}

/// Applies the video streaming patch to the official stock firmware image, refusing images of
/// another size, with an invalid Sum32, or that are not stock 0109; an image that already
/// carries the patch is left as it is.
pub fn patch_stock_firmware(data: &mut Vec<u8>) -> (r: Result<PatchOutcome, PatchRefusal>)
    ensures
        old(data)@.len() < EXPECTED_FW_SIZE ==> (r matches Err(PatchRefusal::TooSmall { len })
            && len == old(data)@.len()) && final(data)@ == old(data)@,
        old(data)@.len() > EXPECTED_FW_SIZE ==> (r matches Err(PatchRefusal::SizeMismatch { len })
            && len == old(data)@.len()) && final(data)@ == old(data)@,
        old(data)@.len() == EXPECTED_FW_SIZE ==> ({
            let d = old(data)@;
            if sum32(d) != stored_sum32(d) {
                (r matches Err(PatchRefusal::Checksum(PatchError::ChecksumMismatch { calculated, stored }))
                    && calculated == sum32(d) && stored == stored_sum32(d)) && final(data)@ == d
            } else if sum32(d) != STOCK_FW_SUM32 && !streaming_patched(d) {
                r matches Err(PatchRefusal::NotStock { checksum }) && checksum == sum32(d)
                    && final(data)@ == d
            } else if streaming_patched(d) {
                r == Ok::<PatchOutcome, PatchRefusal>(PatchOutcome::AlreadyPatched) && final(data)@ == d
            } else if streaming_fits(d) {
                r == Ok::<PatchOutcome, PatchRefusal>(
                    PatchOutcome::Applied { checksum: sum32(apply_streaming(d)) },
                ) && final(data)@ == with_checksum(apply_streaming(d))
            } else {
                r matches Err(PatchRefusal::Patch(PatchError::SafetyAssertionFailed { .. }))
                    && final(data)@ == d
            }
        }),
{
    let len = data.len();
    if len < EXPECTED_FW_SIZE {
        return Err(PatchRefusal::TooSmall { len });
    }
    if len != EXPECTED_FW_SIZE {
        return Err(PatchRefusal::SizeMismatch { len });
    }
    let calc = match verify_checksum(data.as_slice()) {
        Ok((calc, _stored)) => calc,
        Err(e) => {
            return Err(PatchRefusal::Checksum(e));
        },
    };
    let patched = is_streaming_patched(data.as_slice());
    if calc != STOCK_FW_SUM32 && !patched {
        return Err(PatchRefusal::NotStock { checksum: calc });
    }
    if patched {
        return Ok(PatchOutcome::AlreadyPatched);
    }
    match apply_streaming_patch(data.as_mut_slice()) {
        Ok(checksum) => Ok(PatchOutcome::Applied { checksum }),
        Err(e) => Err(PatchRefusal::Patch(e)),
    }
}

/// A run of differing bytes at consecutive offsets from `start` on.
#[derive(Debug, Clone, PartialEq, Eq)]
pub struct DiffRun {
    pub start: usize,
    pub original: Vec<u8>,
    pub patched: Vec<u8>,
}

/// The byte differences that a run stands for.
pub open spec fn run_items(start: int, original: Seq<u8>, patched: Seq<u8>) -> Seq<ByteDiff> {
    Seq::new(
        original.len(),
        |i: int| ByteDiff { offset: (start + i) as usize, original: original[i], patched: patched[i] },
    )
}

/// The byte differences that the runs `rs` stand for, in order.
pub open spec fn flatten_runs(rs: Seq<DiffRun>) -> Seq<ByteDiff>
    decreases rs.len(),
{
    if rs.len() == 0 {
        Seq::empty()
    } else {
        flatten_runs(rs.drop_last()) + run_items(
            rs.last().start as int,
            rs.last().original@,
            rs.last().patched@,
        )
    }
}

/// `rs` groups the differences `ds` into maximal runs: together they stand for exactly `ds`,
/// in order; no run is empty; and no run starts right where the one before it ends.
pub open spec fn groups_into_runs(rs: Seq<DiffRun>, ds: Seq<ByteDiff>) -> bool {
    &&& flatten_runs(rs) == ds
    &&& forall|k: int|
        0 <= k < rs.len() ==> (#[trigger] rs[k]).original@.len() > 0 && rs[k].original@.len()
            == rs[k].patched@.len()
    &&& forall|k: int|
        0 < k < rs.len() ==> (#[trigger] rs[k]).start != rs[k - 1].start + rs[k - 1].original@.len()
}

/// Groups byte differences (in increasing offset order) into runs of consecutive offsets.
pub fn group_diffs(diffs: &[ByteDiff]) -> (r: Vec<DiffRun>)
    requires
        forall|k: int| 0 < k < diffs@.len() ==> diffs@[k - 1].offset < #[trigger] diffs@[k].offset,
    ensures
        groups_into_runs(r@, diffs@),
{
    let mut runs: Vec<DiffRun> = Vec::new();
    if diffs.len() == 0 {
        assert(runs@ =~= Seq::<DiffRun>::empty());
        assert(flatten_runs(runs@) =~= diffs@);
        return runs;
    }
    let mut start = diffs[0].offset;
    let mut orig: Vec<u8> = Vec::new();
    let mut mods: Vec<u8> = Vec::new();
    orig.push(diffs[0].original);
    mods.push(diffs[0].patched);
    let mut i: usize = 1;
    proof {
        assert(run_items(start as int, orig@, mods@) =~= diffs@.take(1));
        assert(flatten_runs(runs@) + run_items(start as int, orig@, mods@) =~= diffs@.take(1));
    }
    while i < diffs.len()
        invariant
            forall|k: int| 0 < k < diffs@.len() ==> diffs@[k - 1].offset < #[trigger] diffs@[k].offset,
            1 <= i <= diffs@.len(),
            orig@.len() == mods@.len(),
            orig@.len() > 0,
            start + orig@.len() == diffs@[i - 1].offset + 1,
            flatten_runs(runs@) + run_items(start as int, orig@, mods@) == diffs@.take(i as int),
            forall|k: int|
                0 <= k < runs@.len() ==> (#[trigger] runs@[k]).original@.len() > 0
                    && runs@[k].original@.len() == runs@[k].patched@.len(),
            forall|k: int|
                0 < k < runs@.len() ==> (#[trigger] runs@[k]).start != runs@[k - 1].start
                    + runs@[k - 1].original@.len(),
            runs@.len() > 0 ==> start != runs@.last().start + runs@.last().original@.len(),
        decreases diffs@.len() - i,
    {
        let d = diffs[i];
        let prev = diffs[i - 1];
        if d.offset == prev.offset + 1 {
            let ghost before = run_items(start as int, orig@, mods@);
            orig.push(d.original);
            mods.push(d.patched);
            proof {
                assert(run_items(start as int, orig@, mods@) =~= before.push(d));
                assert(diffs@.take(i + 1) =~= diffs@.take(i as int).push(d));
                assert(flatten_runs(runs@) + run_items(start as int, orig@, mods@) =~= (
                flatten_runs(runs@) + before).push(d));
            }
        } else {
            let ghost cur = run_items(start as int, orig@, mods@);
            let ghost old_runs = runs@;
            let finished = DiffRun { start, original: orig, patched: mods };
            runs.push(finished);
            proof {
                assert(runs@.drop_last() =~= old_runs);
                assert(flatten_runs(runs@) =~= flatten_runs(old_runs) + cur);
                assert forall|k: int|
                    0 < k < runs@.len() implies (#[trigger] runs@[k]).start != runs@[k - 1].start
                    + runs@[k - 1].original@.len() by {
                    if k < runs@.len() - 1 {
                        assert(runs@[k] == old_runs[k]);
                        assert(runs@[k - 1] == old_runs[k - 1]);
                    }
                }
            }
            start = d.offset;
            orig = Vec::new();
            mods = Vec::new();
            orig.push(d.original);
            mods.push(d.patched);
            proof {
                assert(run_items(start as int, orig@, mods@) =~= seq![d]);
                assert(diffs@.take(i + 1) =~= diffs@.take(i as int).push(d));
                assert(flatten_runs(runs@) + run_items(start as int, orig@, mods@) =~= diffs@.take(
                    i + 1,
                ));
            }
        }
        i = i + 1;
    }
    let ghost cur = run_items(start as int, orig@, mods@);
    let ghost old_runs = runs@;
    runs.push(DiffRun { start, original: orig, patched: mods });
    proof {
        assert(runs@.drop_last() =~= old_runs);
        assert(flatten_runs(runs@) =~= flatten_runs(old_runs) + cur);
        assert(diffs@.take(diffs@.len() as int) =~= diffs@);
        assert forall|k: int|
            0 < k < runs@.len() implies (#[trigger] runs@[k]).start != runs@[k - 1].start
            + runs@[k - 1].original@.len() by {
            if k < runs@.len() - 1 {
                assert(runs@[k] == old_runs[k]);
                assert(runs@[k - 1] == old_runs[k - 1]);
            }
        }
    }
    runs
}

/// What a run of differences at `start` in an image of `image_len` bytes is.
#[derive(Debug, Clone, Copy)]
pub enum RunNote {
    /// The trailing Sum32 checksum.
    Checksum,
    /// The site of this streaming sub-patch.
    Patch(Patch),
}

/// Names the run of differences that starts at `start`: the trailing checksum of an image of
/// `image_len` bytes, or the streaming sub-patch whose site starts there.
pub fn run_note(start: usize, image_len: usize) -> (r: Option<RunNote>)
    ensures
        image_len >= 4 && start == image_len - 4 ==> r matches Some(RunNote::Checksum),
        !(image_len >= 4 && start == image_len - 4) ==> match r {
            Some(RunNote::Patch(p)) => (start == 0x801a && is_vsync_patch(p)) || (start == 0xcf46
                && is_zero_heap_patch(p)) || (start == 0xcfd8 && is_memcpy_patch(p)),
            Some(RunNote::Checksum) => false,
            None => start != 0x801a && start != 0xcf46 && start != 0xcfd8,
        },
{
    if image_len >= 4 && start == image_len - 4 {
        return Some(RunNote::Checksum);
    }
    let ps = streaming_patches();
    let mut i: usize = 0;
    while i < 3
        invariant
            !(image_len >= 4 && start == image_len - 4),
            i <= 3,
            is_streaming_set(ps@),
            forall|j: int| 0 <= j < i ==> ps@[j].offset != start,
        decreases 3 - i,
    {
        if ps[i].offset == start {
            return Some(RunNote::Patch(ps[i]));
        }
        i = i + 1;
    }
    None
}

/// Whether the patched image's file name would make the official updater misread the
/// version: a `.bin` name that does not end in `-0109.bin`.
pub fn needs_version_note(file_name: &str) -> (r: bool)
    ensures
        r == (file_name@.len() >= 4 && file_name@.subrange(file_name@.len() - 4, file_name@.len() as int)
            == ".bin"@ && !(file_name@.len() >= 9 && file_name@.subrange(
            file_name@.len() - 9,
            file_name@.len() as int,
        ) == "-0109.bin"@)),
{
    let bin = crate::text::str_ends_with(file_name, ".bin");
    let version = crate::text::str_ends_with(file_name, "-0109.bin");
    proof {
        reveal_strlit(".bin");
        reveal_strlit("-0109.bin");
    }
    bin && !version
}

} // verus!
