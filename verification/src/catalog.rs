//! Catalog of the custom images flashed to the panel's SPI flash slots.
//!
//! The panel's controller offers no way to list what its flash holds, so the host keeps
//! the metadata and thumbnails of flashed slots itself.
use std::collections::BTreeMap;
use vstd::prelude::*;
use vstd::string::{StrSliceExecFns, StringExecFns};
use crate::text::{chars_of, decimal, push_decimal, trim, trim_bounds};

verus! {

broadcast use vstd::std_specs::btree::group_btree_axioms;

/// Metadata entry for a custom image flashed to an SPI flash slot.
#[derive(Debug, Clone)]
pub struct SlotEntry {
    /// Zero-based slot index on the SPI flash memory (0..=255)
    pub slot: u8,
    /// Display name or label for the image
    pub title: String,
    /// Original source filename (e.g. "cyberpunk_logo.png")
    pub original_filename: String,
    /// Epoch timestamp when the image was flashed
    pub timestamp: u64,
    /// JPEG file size in bytes
    pub file_size_bytes: usize,
    /// Relative filename of the cached preview thumbnail (e.g. "slot_0.png")
    pub thumbnail_filename: String,
}

/// Catalog holding all tracked custom flash slots.
#[derive(Debug, Clone)]
pub struct SlotCatalog {
    pub slots: BTreeMap<u8, SlotEntry>,
}

impl Default for SlotCatalog {
    fn default() -> (r: Self)
        ensures
            r.slots@ == Map::<u8, SlotEntry>::empty(),
    {
        SlotCatalog { slots: BTreeMap::new() }
    }
}

/// `base` joined with the relative or absolute path `rel`, as `Path::join` does on Unix:
/// an absolute `rel` replaces `base`; otherwise a `/` separates them unless `base` is empty
/// or already ends with one.
pub open spec fn path_join(base: Seq<char>, rel: Seq<char>) -> Seq<char> {
    if rel.len() > 0 && rel[0] == '/' {
        rel
    } else if base.len() == 0 || base.last() == '/' {
        base + rel
    } else {
        base + seq!['/'] + rel
    }
}

/// Where the path component that ends at `end` starts: just after the last `/` before `end`,
/// or 0.
pub open spec fn component_start(p: Seq<char>, end: int) -> int
    decreases end,
{
    if end <= 0 {
        0
    } else if p[end - 1] == '/' {
        end
    } else {
        component_start(p, end - 1)
    }
}

/// Where a component starts lies at or before its end, after a `/` (or at 0), with no `/` in
/// between.
pub proof fn lemma_component_start(p: Seq<char>, end: int)
    requires
        0 <= end <= p.len(),
    ensures
        0 <= component_start(p, end) <= end,
        end > 0 && p[end - 1] != '/' ==> component_start(p, end) < end,
        forall|i: int| component_start(p, end) <= i < end ==> p[i] != '/',
        component_start(p, end) > 0 ==> p[component_start(p, end) - 1] == '/',
    decreases end,
{
    if end > 0 && p[end - 1] != '/' {
        lemma_component_start(p, end - 1);
    }
}

/// The last component of `p[..end]` as `Path::components` reads a Unix path: separators
/// (runs of `/`, trailing ones too) are skipped, and so is a `.` component.
pub open spec fn last_component(p: Seq<char>, end: int) -> Option<Seq<char>>
    decreases end,
{
    if end <= 0 || end > p.len() {
        None
    } else if p[end - 1] == '/' {
        last_component(p, end - 1)
    } else {
        let k = component_start(p, end);
        proof {
            lemma_component_start(p, end);
        }
        if p.subrange(k, end) == "."@ {
            last_component(p, k)
        } else {
            Some(p.subrange(k, end))
        }
    }
}

/// The file name of a path, as `Path::file_name` gives it on Unix: its last component, unless
/// that is `..` or there is none (an empty path, `/`, `.`).
pub open spec fn path_file_name(p: Seq<char>) -> Option<Seq<char>> {
    match last_component(p, p.len() as int) {
        Some(c) => if c == ".."@ {
            None
        } else {
            Some(c)
        },
        None => None,
    }
}

/// The position of the last `.` in `n[..end]`, or -1.
pub open spec fn last_dot(n: Seq<char>, end: int) -> int
    decreases end,
{
    if end <= 0 {
        -1
    } else if n[end - 1] == '.' {
        end - 1
    } else {
        last_dot(n, end - 1)
    }
}

/// The stem of a file name: the part before its last `.`; the whole name when it has no dot
/// or its only leading part would be empty (`.bashrc`).
pub open spec fn name_stem(n: Seq<char>) -> Seq<char> {
    let d = last_dot(n, n.len() as int);
    if d <= 0 {
        n
    } else {
        n.take(d)
    }
}

/// The stem (file name without its last extension) that `Path::file_stem` gives for a Unix
/// path.
pub open spec fn path_file_stem(path: Seq<char>) -> Option<Seq<char>> {
    match path_file_name(path) {
        Some(n) => Some(name_stem(n)),
        None => None,
    }
}

/// The file stem of `path`, as `path_file_stem`.
pub fn file_stem_of(path: &str) -> (r: Option<String>)
    ensures
        match path_file_stem(path@) {
            Some(st) => r matches Some(x) && x@ == st,
            None => r is None,
        },
{
    let v = chars_of(path);
    let n = v.len();
    let ghost p = v@;
    let mut end = n;
    let mut start: usize = 0;
    loop
        invariant_except_break
            p == v@,
            p == path@,
            n == p.len(),
            end <= n,
            last_component(p, n as int) == last_component(p, end as int),
        ensures
            end == 0 ==> last_component(p, n as int) is None,
            end > 0 ==> start < end <= n && last_component(p, n as int) == Some(p.subrange(start as int, end as int)),
        decreases end,
    {
        let ghost e0 = end;
        while end > 0 && v[end - 1] == '/'
            invariant
                p == v@,
                end <= e0,
                end <= n,
                n == p.len(),
                last_component(p, n as int) == last_component(p, end as int),
            decreases end,
        {
            end = end - 1;
        }
        if end == 0 {
            break;
        }
        start = end;
        while start > 0 && v[start - 1] != '/'
            invariant
                p == v@,
                0 <= start <= end <= n,
                end <= e0,
                n == p.len(),
                end > 0,
                p[end - 1] != '/',
                component_start(p, end as int) == component_start(p, start as int),
                start == end || p[start as int] != '/',
            decreases start,
        {
            start = start - 1;
        }
        proof {
            lemma_component_start(p, end as int);
            if start > 0 {
                assert(component_start(p, start as int) == start);
            } else {
                assert(component_start(p, 0) == 0);
            }
        }
        if end - start == 1 && v[start] == '.' {
            proof {
                reveal_strlit(".");
                assert(p.subrange(start as int, end as int) =~= "."@);
            }
            assert(start < end);
            end = start;
        } else {
            proof {
                reveal_strlit(".");
                assert(p.subrange(start as int, end as int) != "."@) by {
                    if p.subrange(start as int, end as int) == "."@ {
                        assert("."@.len() == 1 && "."@[0] == '.');
                        assert(end - start == 1);
                        assert(p.subrange(start as int, end as int)[0] == p[start as int]);
                    }
                }
            }
            break;
        }
    }
    if end == 0 {
        return None;
    }
    proof {
        reveal_strlit("..");
    }
    if end - start == 2 && v[start] == '.' && v[start + 1] == '.' {
        proof {
            assert(p.subrange(start as int, end as int) =~= ".."@);
        }
        return None;
    }
    let ghost name = p.subrange(start as int, end as int);
    proof {
        assert(name != ".."@) by {
            if name == ".."@ {
                assert(".."@.len() == 2 && ".."@[0] == '.' && ".."@[1] == '.');
                assert(end - start == 2);
                assert(name[0] == p[start as int] && name[1] == p[start + 1]);
            }
        }
    }
    let mut d = end;
    while d > start && v[d - 1] != '.'
        invariant
            p == v@,
            n == p.len(),
            start <= d <= end <= n,
            name == p.subrange(start as int, end as int),
            last_dot(name, name.len() as int) == last_dot(name, d - start),
        decreases d,
    {
        assert(name[d - start - 1] == p[d - 1]);
        d = d - 1;
    }
    let stem_end = if d > start + 1 {
        d - 1
    } else {
        end
    };
    proof {
        if d > start {
            assert(name[d - start - 1] == p[d - 1]);
            assert(last_dot(name, d - start) == d - start - 1);
        } else {
            assert(last_dot(name, 0) == -1);
        }
        assert(name_stem(name) =~= p.subrange(start as int, stem_end as int));
    }
    Some(String::from_str(path.substring_char(start, stem_end)))
}

/// Calls `std::time::SystemTime::now` and gives the whole seconds since the Unix epoch
/// (0 for a clock before the epoch). Nothing is claimed of the value: it is the time.
#[verifier::external_body]
fn unix_time_secs() -> u64 {
    std::time::SystemTime::now().duration_since(std::time::UNIX_EPOCH).map(|d| d.as_secs()).unwrap_or(0)
}

/// Joins `rel` onto `base` as `Path::join` does on Unix.
pub fn join_path(base: &str, rel: &str) -> (r: String)
    ensures
        r@ == path_join(base@, rel@),
{
    let rel_len = rel.unicode_len();
    let base_len = base.unicode_len();
    let mut out = String::new();
    if rel_len > 0 && rel.get_char(0) == '/' {
        out.append(rel);
    } else if base_len == 0 || base.get_char(base_len - 1) == '/' {
        out.append(base);
        out.append(rel);
    } else {
        out.append(base);
        proof {
            reveal_strlit("/");
        }
        out.append("/");
        out.append(rel);
    }
    assert(out@ =~= path_join(base@, rel@));
    out
}

/// Whether `s` holds only whitespace (or nothing).
pub open spec fn blank(s: Seq<char>) -> bool {
    trim(s).len() == 0
}

/// Whether `s` is blank.
fn is_blank(s: &str) -> (r: bool)
    ensures
        r == blank(s@),
{
    let v = chars_of(s);
    let n = v.len();
    let (a, b) = trim_bounds(&v, 0, n);
    assert(v@.subrange(0, n as int) =~= s@);
    a == b
}

/// The application's configuration directory: `x870e-lcd` under `$XDG_CONFIG_HOME` when
/// that is set and not blank, else `.config/x870e-lcd` under `$HOME` when that is set and not
/// blank, else `x870e-lcd` in the temporary directory `temp_dir`.
pub fn config_dir_from(xdg_config_home: Option<&str>, home: Option<&str>, temp_dir: &str) -> (r: String)
    ensures
        r@ == (if xdg_config_home matches Some(x) && !blank(x@) {
            path_join(xdg_config_home->0@, "x870e-lcd"@)
        } else if home matches Some(h) && !blank(h@) {
            path_join(path_join(home->0@, ".config"@), "x870e-lcd"@)
        } else {
            path_join(temp_dir@, "x870e-lcd"@)
        }),
{
    if let Some(x) = xdg_config_home {
        if !is_blank(x) {
            return join_path(x, "x870e-lcd");
        }
    }
    if let Some(h) = home {
        if !is_blank(h) {
            let dot = join_path(h, ".config");
            return join_path(dot.as_str(), "x870e-lcd");
        }
    }
    join_path(temp_dir, "x870e-lcd")
}

/// The file name under which the thumbnail of `slot` is cached when the catalog names none.
pub open spec fn default_thumbnail_name(slot: u8) -> Seq<char> {
    "slot_"@ + decimal(slot as nat) + ".png"@
}

/// `slot_<slot>.png`.
fn thumbnail_name(slot: u8) -> (r: String)
    ensures
        r@ == default_thumbnail_name(slot),
{
    let mut out = String::new();
    out.append("slot_");
    push_decimal(&mut out, slot as u64);
    out.append(".png");
    assert(out@ =~= default_thumbnail_name(slot));
    out
}

/// Returns the directory where thumbnail images are cached, under the configuration
/// directory `config_dir`.
pub fn thumbnails_dir(config_dir: &str) -> (r: String)
    ensures
        r@ == path_join(config_dir@, "thumbnails"@),
{
    join_path(config_dir, "thumbnails")
}

/// Returns the path to the catalog JSON file, under the configuration directory `config_dir`.
pub fn catalog_file_path(config_dir: &str) -> (r: String)
    ensures
        r@ == path_join(config_dir@, "catalog.json"@),
{
    join_path(config_dir, "catalog.json")
}

/// The title of an image: the stem of its file name, or `Custom <slot>` when it has none.
pub open spec fn entry_title(slot: u8, orig_filename: Seq<char>) -> Seq<char> {
    match path_file_stem(orig_filename) {
        Some(stem) => stem,
        None => "Custom "@ + decimal(slot as nat),
    }
}

impl SlotEntry {
    /// Constructs a new `SlotEntry` from slot index, source filename, and file size in bytes,
    /// stamped with the current time.
    pub fn new(slot: u8, orig_filename: &str, file_size_bytes: usize) -> (r: Self)
        ensures
            r.slot == slot,
            r.title@ == entry_title(slot, orig_filename@),
            r.original_filename@ == orig_filename@,
            r.file_size_bytes == file_size_bytes,
            r.thumbnail_filename@ == default_thumbnail_name(slot),
    {
        let now = unix_time_secs();
        let title = match file_stem_of(orig_filename) {
            Some(stem) => stem,
            None => {
                let mut t = String::new();
                t.append("Custom ");
                push_decimal(&mut t, slot as u64);
                assert(t@ =~= "Custom "@ + decimal(slot as nat));
                t
            },
        };
        let mut original_filename = String::new();
        original_filename.append(orig_filename);
        assert(original_filename@ =~= orig_filename@);
        SlotEntry {
            slot,
            title,
            original_filename,
            timestamp: now,
            file_size_bytes,
            thumbnail_filename: thumbnail_name(slot),
        }
    }
}

/// Slot limit of a search: `max_slots`, but never more than the 256 slots a `u8` can name.
pub open spec fn slot_limit(max_slots: u16) -> int {
    if max_slots < 256 {
        max_slots as int
    } else {
        256
    }
}

/// The lowest slot in `from..limit` that `taken` does not hold.
pub open spec fn lowest_free_from(taken: Set<u8>, from: int, limit: int) -> Option<u8>
    decreases limit - from,
{
    if from >= limit || from < 0 {
        None
    } else if !taken.contains(from as u8) {
        Some(from as u8)
    } else {
        lowest_free_from(taken, from + 1, limit)
    }
}

impl SlotCatalog {
    /// The catalog to start with: the one read and parsed from the catalog file, or an empty
    /// one when there is no such file or it could not be read or parsed.
    pub fn load(stored: Option<SlotCatalog>) -> (r: SlotCatalog)
        ensures
            match stored {
                Some(c) => r.slots@ == c.slots@,
                None => r.slots@ == Map::<u8, SlotEntry>::empty(),
            },
    {
        let mut catalog = SlotCatalog::default();
        catalog.reload(stored);
        catalog
    }

    /// Takes over the slots of the catalog read and parsed from the catalog file; keeps the
    /// current ones when there was none.
    pub fn reload(&mut self, stored: Option<SlotCatalog>)
        ensures
            match stored {
                Some(c) => final(self).slots@ == c.slots@,
                None => final(self).slots@ == old(self).slots@,
            },
    {
        if let Some(loaded) = stored {
            self.slots = loaded.slots;
        }
    }

    /// Finds the lowest available free slot index within `0..max_slots` (e.g. 256 for slots
    /// 0..=255).
    pub fn next_free_slot(&self, max_slots: u16) -> (r: Option<u8>)
        ensures
            r == lowest_free_from(self.slots@.dom(), 0, slot_limit(max_slots)),
    {
        let limit: u16 = if max_slots < 256 {
            max_slots
        } else {
            256
        };
        let mut s: u16 = 0;
        while s < limit
            invariant
                limit as int == slot_limit(max_slots),
                s <= limit,
                lowest_free_from(self.slots@.dom(), 0, limit as int) == lowest_free_from(
                    self.slots@.dom(),
                    s as int,
                    limit as int,
                ),
            decreases limit - s,
        {
            let slot_u8 = s as u8;
            if !self.slots.contains_key(&slot_u8) {
                return Some(slot_u8);
            }
            s = s + 1;
        }
        None
    }

    /// Returns whether the given slot is currently occupied in the catalog.
    pub fn is_occupied(&self, slot: u8) -> (r: bool)
        ensures
            r == self.slots@.dom().contains(slot),
    {
        self.slots.contains_key(&slot)
    }

    /// Returns the number of occupied slots.
    pub fn occupied_count(&self) -> (r: usize)
        ensures
            r == self.slots@.len(),
    {
        self.slots.len()
    }

    /// Returns the path of a slot's thumbnail image under the configuration directory
    /// `config_dir`: the file the catalog names for the slot, else `slot_<slot>.png`.
    pub fn thumbnail_path(&self, config_dir: &str, slot: u8) -> (r: String)
        ensures
            self.slots@.dom().contains(slot) ==> r@ == path_join(
                path_join(config_dir@, "thumbnails"@),
                self.slots@[slot].thumbnail_filename@,
            ),
            !self.slots@.dom().contains(slot) ==> r@ == path_join(
                path_join(config_dir@, "thumbnails"@),
                default_thumbnail_name(slot),
            ),
    {
        let dir = thumbnails_dir(config_dir);
        match self.slots.get(&slot) {
            Some(entry) => join_path(dir.as_str(), entry.thumbnail_filename.as_str()),
            None => {
                let name = thumbnail_name(slot);
                join_path(dir.as_str(), name.as_str())
            },
        }
    }

    /// Records `entry` under its slot, replacing the entry the slot had; returns that one.
    pub fn insert_entry(&mut self, entry: SlotEntry) -> (r: Option<SlotEntry>)
        ensures
            final(self).slots@ == old(self).slots@.insert(entry.slot, entry),
            r == (if old(self).slots@.dom().contains(entry.slot) {
                Some(old(self).slots@[entry.slot])
            } else {
                None
            }),
    {
        self.slots.insert(entry.slot, entry)
    }

    /// Forgets the entry of `slot`; returns it, if there was one.
    pub fn remove_entry(&mut self, slot: u8) -> (r: Option<SlotEntry>)
        ensures
            final(self).slots@ == old(self).slots@.remove(slot),
            r == (if old(self).slots@.dom().contains(slot) {
                Some(old(self).slots@[slot])
            } else {
                None
            }),
    {
        self.slots.remove(&slot)
    }
}

/// The lowest free slot from `from` on is free, below `limit`, and every slot in between is
/// taken; when there is none, every slot from `from` to `limit` is taken.
pub proof fn lemma_lowest_free(taken: Set<u8>, from: int, limit: int)
    requires
        0 <= from,
        limit <= 256,
    ensures
        lowest_free_from(taken, from, limit) matches Some(s) ==> from <= s < limit
            && !taken.contains(s) && forall|t: u8| from <= t < s ==> #[trigger] taken.contains(t),
        lowest_free_from(taken, from, limit) is None ==> forall|t: u8|
            from <= t < limit ==> #[trigger] taken.contains(t),
    decreases limit - from,
{
    if from < limit && taken.contains(from as u8) {
        lemma_lowest_free(taken, from + 1, limit);
    }
}

/// Law: after a slot is removed from the catalog, the next free slot is that slot or a
/// lower one, so a freed slot is handed out again before any higher slot.
pub proof fn law_freed_slot_is_reused(taken: Set<u8>, slot: u8, max_slots: u16)
    requires
        (slot as int) < slot_limit(max_slots),
    ensures
        lowest_free_from(taken.remove(slot), 0, slot_limit(max_slots)) matches Some(s) && s
            <= slot,
{
    let limit = slot_limit(max_slots);
    lemma_lowest_free(taken.remove(slot), 0, limit);
    match lowest_free_from(taken.remove(slot), 0, limit) {
        None => {
            assert(taken.remove(slot).contains(slot));
        },
        Some(s) => {
            if s > slot {
                assert(taken.remove(slot).contains(slot));
            }
        },
    }
}

/// Law: recording an image in the slot that `next_free_slot` chose adds one entry, and the
/// next free slot then lies strictly above it.
pub proof fn law_filling_next_free_slot(taken: Set<u8>, max_slots: u16)
    requires
        taken.finite(),
        lowest_free_from(taken, 0, slot_limit(max_slots)) is Some,
    ensures
        ({
            let s = lowest_free_from(taken, 0, slot_limit(max_slots))->0;
            &&& taken.insert(s).len() == taken.len() + 1
            &&& lowest_free_from(taken.insert(s), 0, slot_limit(max_slots)) matches Some(n) ==> n > s
        }),
{
    let limit = slot_limit(max_slots);
    let s = lowest_free_from(taken, 0, limit)->0;
    lemma_lowest_free(taken, 0, limit);
    lemma_lowest_free(taken.insert(s), 0, limit);
    if let Some(n) = lowest_free_from(taken.insert(s), 0, limit) {
        if n <= s {
            assert(taken.insert(s).contains(n));
        }
    }
}

} // verus!
