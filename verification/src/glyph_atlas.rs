use vstd::prelude::*;
use crate::glyph_key::{WgpuTerminalGlyphKey, WgpuTerminalGlyphIdentity};

verus! {

/// Where one glyph lies in the atlas texture and how it is drawn in a cell.
/// Texture coordinates follow from the pixel rectangle and the atlas size:
/// `x_px / atlas width` to `(x_px + width_px) / atlas width`, and likewise
/// vertically.
#[derive(Debug, Clone, Copy, PartialEq, Eq)]
pub struct WgpuTerminalGlyphAtlasEntry {
    pub codepoint: u32,
    pub x_px: u32,
    pub y_px: u32,
    pub width_px: u32,
    pub height_px: u32,
    pub advance_px: i32,
    pub draw_offset_x_px: i32,
    pub draw_offset_y_px: i32,
    pub draw_width_px: u32,
    pub draw_height_px: u32,
    pub is_color: bool,
}

/// A glyph atlas: an image of `width_px` by `height_px` pixels and the
/// entry of each glyph key.
#[derive(Debug, Clone, PartialEq, Eq)]
pub struct WgpuTerminalGlyphAtlas {
    pub width_px: u32,
    pub height_px: u32,
    pub pixels: Vec<u8>,
    pub entries: Vec<(WgpuTerminalGlyphKey, WgpuTerminalGlyphAtlasEntry)>,
}

/// The entry that `entries` gives `key`: the first pair with that key.
pub open spec fn lookup_entry(
    entries: Seq<(WgpuTerminalGlyphKey, WgpuTerminalGlyphAtlasEntry)>,
    key: WgpuTerminalGlyphKey,
) -> Option<WgpuTerminalGlyphAtlasEntry>
    decreases entries.len(),
{
    if entries.len() == 0 {
        None
    } else if entries[0].0 == key {
        Some(entries[0].1)
    } else {
        lookup_entry(entries.drop_first(), key)
    }
}

/// No key occurs twice among the entries.
pub open spec fn keys_unique(entries: Seq<(WgpuTerminalGlyphKey, WgpuTerminalGlyphAtlasEntry)>) -> bool {
    forall|i: int, j: int|
        0 <= i < j < entries.len() ==> #[trigger] entries[i].0 != #[trigger] entries[j].0
}

pub open spec fn has_key(
    entries: Seq<(WgpuTerminalGlyphKey, WgpuTerminalGlyphAtlasEntry)>,
    key: WgpuTerminalGlyphKey,
) -> bool {
    exists|i: int| 0 <= i < entries.len() && #[trigger] entries[i].0 == key
}

/// The number of bytes of `s` that are not zero.
pub open spec fn count_non_zero(s: Seq<u8>) -> nat
    decreases s.len(),
{
    if s.len() == 0 {
        0
    } else {
        count_non_zero(s.drop_last()) + if s.last() != 0 {
            1nat
        } else {
            0nat
        }
    }
}

pub proof fn lemma_lookup_found(
    entries: Seq<(WgpuTerminalGlyphKey, WgpuTerminalGlyphAtlasEntry)>,
    key: WgpuTerminalGlyphKey,
    i: int,
)
    requires
        0 <= i < entries.len(),
        entries[i].0 == key,
        forall|j: int| 0 <= j < i ==> entries[j].0 != key,
    ensures
        lookup_entry(entries, key) == Some(entries[i].1),
    decreases i,
{
    if i > 0 {
        lemma_lookup_found(entries.drop_first(), key, i - 1);
    }
}

pub proof fn lemma_lookup_absent(
    entries: Seq<(WgpuTerminalGlyphKey, WgpuTerminalGlyphAtlasEntry)>,
    key: WgpuTerminalGlyphKey,
)
    requires
        forall|j: int| 0 <= j < entries.len() ==> entries[j].0 != key,
    ensures
        lookup_entry(entries, key) is None,
    decreases entries.len(),
{
    if entries.len() > 0 {
        lemma_lookup_absent(entries.drop_first(), key);
    }
}

/// With unique keys, the entry of a key is the one at its position.
pub proof fn lemma_lookup_unique(
    entries: Seq<(WgpuTerminalGlyphKey, WgpuTerminalGlyphAtlasEntry)>,
    i: int,
)
    requires
        keys_unique(entries),
        0 <= i < entries.len(),
    ensures
        lookup_entry(entries, entries[i].0) == Some(entries[i].1),
{
    assert forall|j: int| 0 <= j < i implies entries[j].0 != entries[i].0 by {
        assert(entries[j].0 != entries[i].0);
    }
    lemma_lookup_found(entries, entries[i].0, i);
}

fn find_entry_index(
    entries: &Vec<(WgpuTerminalGlyphKey, WgpuTerminalGlyphAtlasEntry)>,
    key: WgpuTerminalGlyphKey,
) -> (r: Option<usize>)
    ensures
        r matches Some(i) ==> i < entries@.len() && entries@[i as int].0 == key && forall|j: int|
            0 <= j < i ==> entries@[j].0 != key,
        r is None ==> forall|j: int| 0 <= j < entries@.len() ==> entries@[j].0 != key,
{
    let mut i: usize = 0;
    while i < entries.len()
        invariant
            i <= entries@.len(),
            forall|j: int| 0 <= j < i ==> entries@[j].0 != key,
        decreases entries@.len() - i,
    {
        if entries[i].0 == key {
            return Some(i);
        }
        i = i + 1;
    }
    None
}

/// Sets the entry of `key`, replacing the one it had, as a map insert does.
pub fn insert_entry(
    entries: &mut Vec<(WgpuTerminalGlyphKey, WgpuTerminalGlyphAtlasEntry)>,
    key: WgpuTerminalGlyphKey,
    entry: WgpuTerminalGlyphAtlasEntry,
)
    requires
        keys_unique(old(entries)@),
    ensures
        keys_unique(final(entries)@),
        lookup_entry(final(entries)@, key) == Some(entry),
        forall|k: WgpuTerminalGlyphKey|
            k != key ==> lookup_entry(final(entries)@, k) == lookup_entry(old(entries)@, k),
        forall|k: WgpuTerminalGlyphKey|
            has_key(final(entries)@, k) <==> (has_key(old(entries)@, k) || k == key),
{
    let ghost before = entries@;
    match find_entry_index(entries, key) {
        Some(i) => {
            entries.set(i, (key, entry));
            proof {
                let after = entries@;
                assert(keys_unique(after)) by {
                    assert forall|a: int, b: int| 0 <= a < b < after.len() implies #[trigger] after[a].0
                        != #[trigger] after[b].0 by {
                        assert(before[a].0 != before[b].0);
                    }
                }
                lemma_lookup_unique(after, i as int);
                assert forall|k: WgpuTerminalGlyphKey| k != key implies lookup_entry(after, k)
                    == lookup_entry(before, k) by {
                    lemma_lookup_same_other_keys(before, after, k);
                }
                assert forall|k: WgpuTerminalGlyphKey| has_key(after, k) <==> (has_key(before, k) || k == key) by {
                    if has_key(before, k) {
                        let j = choose|j: int| 0 <= j < before.len() && #[trigger] before[j].0 == k;
                        assert(after[j].0 == k);
                    }
                    if has_key(after, k) {
                        let j = choose|j: int| 0 <= j < after.len() && #[trigger] after[j].0 == k;
                        assert(before[j].0 == k);
                    }
                    if k == key {
                        assert(after[i as int].0 == k);
                    }
                }
            }
        },
        None => {
            entries.push((key, entry));
            proof {
                let after = entries@;
                assert(keys_unique(after)) by {
                    assert forall|a: int, b: int| 0 <= a < b < after.len() implies #[trigger] after[a].0
                        != #[trigger] after[b].0 by {
                        if b < before.len() {
                            assert(before[a].0 != before[b].0);
                        }
                    }
                }
                lemma_lookup_unique(after, before.len() as int);
                assert forall|k: WgpuTerminalGlyphKey| k != key implies lookup_entry(after, k)
                    == lookup_entry(before, k) by {
                    lemma_lookup_same_other_keys(before, after, k);
                }
                assert forall|k: WgpuTerminalGlyphKey| has_key(after, k) <==> (has_key(before, k) || k == key) by {
                    if has_key(before, k) {
                        let j = choose|j: int| 0 <= j < before.len() && #[trigger] before[j].0 == k;
                        assert(after[j].0 == k);
                    }
                    if has_key(after, k) {
                        let j = choose|j: int| 0 <= j < after.len() && #[trigger] after[j].0 == k;
                        if j < before.len() {
                            assert(before[j].0 == k);
                        }
                    }
                    if k == key {
                        assert(after[before.len() as int].0 == k);
                    }
                }
            }
        },
    }
}

/// Two entry lists that agree on every position holding `k` and on which
/// positions hold `k` give `k` the same entry.
proof fn lemma_lookup_same_other_keys(
    before: Seq<(WgpuTerminalGlyphKey, WgpuTerminalGlyphAtlasEntry)>,
    after: Seq<(WgpuTerminalGlyphKey, WgpuTerminalGlyphAtlasEntry)>,
    k: WgpuTerminalGlyphKey,
)
    requires
        before.len() <= after.len(),
        forall|j: int| 0 <= j < before.len() ==> (before[j].0 == k) == (after[j].0 == k),
        forall|j: int| 0 <= j < before.len() && before[j].0 == k ==> before[j] == after[j],
        forall|j: int| before.len() <= j < after.len() ==> after[j].0 != k,
    ensures
        lookup_entry(after, k) == lookup_entry(before, k),
    decreases before.len(),
{
    if before.len() == 0 {
        lemma_lookup_absent(after, k);
    } else if before[0].0 == k {
    } else {
        lemma_lookup_same_other_keys(before.drop_first(), after.drop_first(), k);
    }
}

impl WgpuTerminalGlyphAtlas {
    /// A copy of the atlas, field for field.
    pub fn duplicate(&self) -> (copy: Self)
        ensures
            copy.width_px == self.width_px,
            copy.height_px == self.height_px,
            copy.pixels@ == self.pixels@,
            copy.entries@ == self.entries@,
    {
        let mut pixels: Vec<u8> = Vec::new();
        let mut i: usize = 0;
        while i < self.pixels.len()
            invariant
                i <= self.pixels@.len(),
                pixels@ == self.pixels@.subrange(0, i as int),
            decreases self.pixels@.len() - i,
        {
            pixels.push(self.pixels[i]);
            assert(pixels@ =~= self.pixels@.subrange(0, i as int + 1));
            i = i + 1;
        }
        let mut entries: Vec<(WgpuTerminalGlyphKey, WgpuTerminalGlyphAtlasEntry)> = Vec::new();
        let mut j: usize = 0;
        while j < self.entries.len()
            invariant
                j <= self.entries@.len(),
                entries@ == self.entries@.subrange(0, j as int),
            decreases self.entries@.len() - j,
        {
            entries.push(self.entries[j]);
            assert(entries@ =~= self.entries@.subrange(0, j as int + 1));
            j = j + 1;
        }
        assert(pixels@ =~= self.pixels@);
        assert(entries@ =~= self.entries@);
        WgpuTerminalGlyphAtlas { width_px: self.width_px, height_px: self.height_px, pixels, entries }
    }

    /// The atlas with no pixels and no glyphs.
    pub fn empty() -> (atlas: Self)
        ensures
            atlas.width_px == 0,
            atlas.height_px == 0,
            atlas.pixels@.len() == 0,
            atlas.entries@.len() == 0,
    {
        WgpuTerminalGlyphAtlas { width_px: 0, height_px: 0, pixels: Vec::new(), entries: Vec::new() }
    }

    pub fn entry_for_key(&self, key: WgpuTerminalGlyphKey) -> (r: Option<WgpuTerminalGlyphAtlasEntry>)
        ensures
            r == lookup_entry(self.entries@, key),
    {
        match find_entry_index(&self.entries, key) {
            Some(i) => {
                proof {
                    lemma_lookup_found(self.entries@, key, i as int);
                }
                Some(self.entries[i].1)
            },
            None => {
                proof {
                    lemma_lookup_absent(self.entries@, key);
                }
                None
            },
        }
    }

    pub fn entry(&self, c: char) -> (r: Option<WgpuTerminalGlyphAtlasEntry>)
        ensures
            r == lookup_entry(
                self.entries@,
                WgpuTerminalGlyphKey {
                    identity: WgpuTerminalGlyphIdentity::Character(c),
                    bold: false,
                    italic: false,
                },
            ),
    {
        self.entry_for_key(WgpuTerminalGlyphKey::plain(c))
    }

    pub fn has_glyph_key(&self, key: WgpuTerminalGlyphKey) -> (r: bool)
        ensures
            r == has_key(self.entries@, key),
    {
        match find_entry_index(&self.entries, key) {
            Some(i) => {
                assert(self.entries@[i as int].0 == key);
                true
            },
            None => false,
        }
    }

    pub fn has_glyph(&self, c: char) -> (r: bool)
        ensures
            r == has_key(
                self.entries@,
                WgpuTerminalGlyphKey {
                    identity: WgpuTerminalGlyphIdentity::Character(c),
                    bold: false,
                    italic: false,
                },
            ),
    {
        self.has_glyph_key(WgpuTerminalGlyphKey::plain(c))
    }

    /// The entry of the key that `packed_id` decodes to; failing that, an entry
    /// whose code point is `packed_id` (the first such entry).
    pub fn entry_for_packed_id(&self, packed_id: u32) -> (r: Option<WgpuTerminalGlyphAtlasEntry>)
        ensures
            ({
                let by_key = match crate::glyph_key::key_of_packed_id(packed_id) {
                    Some(key) => lookup_entry(self.entries@, key),
                    None => None,
                };
                if by_key is Some {
                    r == by_key
                } else {
                    &&& r is None <==> forall|j: int|
                        0 <= j < self.entries@.len() ==> self.entries@[j].1.codepoint != packed_id
                    &&& r matches Some(e) ==> exists|j: int|
                        0 <= j < self.entries@.len() && self.entries@[j].1 == e && e.codepoint
                            == packed_id
                }
            }),
    {
        if let Some(key) = WgpuTerminalGlyphKey::from_packed_id(packed_id) {
            if let Some(entry) = self.entry_for_key(key) {
                return Some(entry);
            }
        }
        let ghost by_key = match crate::glyph_key::key_of_packed_id(packed_id) {
            Some(key) => lookup_entry(self.entries@, key),
            None => None,
        };
        assert(by_key is None);
        let mut i: usize = 0;
        while i < self.entries.len()
            invariant
                i <= self.entries@.len(),
                by_key is None,
                by_key == match crate::glyph_key::key_of_packed_id(packed_id) {
                    Some(key) => lookup_entry(self.entries@, key),
                    None => None,
                },
                forall|j: int| 0 <= j < i ==> self.entries@[j].1.codepoint != packed_id,
            decreases self.entries@.len() - i,
        {
            if self.entries[i].1.codepoint == packed_id {
                let ghost e = self.entries@[i as int].1;
                assert(!(forall|j: int|
                    0 <= j < self.entries@.len() ==> self.entries@[j].1.codepoint != packed_id));
                assert(exists|j: int|
                    0 <= j < self.entries@.len() && self.entries@[j].1 == e && e.codepoint
                        == packed_id);
                return Some(self.entries[i].1);
            }
            i = i + 1;
        }
        None
    }

    pub fn pixel_count(&self) -> (r: usize)
        ensures
            r == self.pixels@.len(),
    {
        self.pixels.len()
    }

    pub fn non_zero_pixel_count(&self) -> (r: usize)
        ensures
            r == count_non_zero(self.pixels@),
    {
        let mut count: usize = 0;
        let mut i: usize = 0;
        while i < self.pixels.len()
            invariant
                i <= self.pixels@.len(),
                count == count_non_zero(self.pixels@.subrange(0, i as int)),
                count <= i,
            decreases self.pixels@.len() - i,
        {
            assert(self.pixels@.subrange(0, i as int + 1).drop_last() =~= self.pixels@.subrange(
                0,
                i as int,
            ));
            if self.pixels[i] != 0 {
                count = count + 1;
            }
            i = i + 1;
        }
        assert(self.pixels@.subrange(0, i as int) =~= self.pixels@);
        count
    }

    pub fn is_empty(&self) -> (r: bool)
        ensures
            r == (self.width_px == 0 || self.height_px == 0 || self.pixels@.len() == 0),
    {
        self.width_px == 0 || self.height_px == 0 || self.pixels.len() == 0
    }
}

} // verus!
