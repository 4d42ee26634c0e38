use vstd::prelude::*;
use crate::cartridge::{CartridgeHeader, MapperKind};
use crate::states::StateMeta;
use crate::error::joined;

verus! {

/// Text with every letter in lower case (what `str::to_lowercase` gives).
pub uninterp spec fn lowercase_text(text: Seq<char>) -> Seq<char>;

/// Calls `str::to_lowercase`; the result is named by `lowercase_text`.
#[verifier::external_body]
pub(crate) fn lowercase(text: &str) -> (lower: String)
    ensures
        lower@ == lowercase_text(text@),
{
    text.to_lowercase()
}

/// `a` comes before `b` in character-code order (how strings compare).
pub open spec fn text_lt(a: Seq<char>, b: Seq<char>) -> bool
    decreases a.len(),
{
    if b.len() == 0 {
        false
    } else if a.len() == 0 {
        true
    } else if a[0] != b[0] {
        a[0] < b[0]
    } else {
        text_lt(a.drop_first(), b.drop_first())
    }
}

/// Compares two texts in character-code order.
pub(crate) fn text_before(a: &str, b: &str) -> (before: bool)
    ensures
        before == text_lt(a@, b@),
{
    let a_len = a.unicode_len();
    let b_len = b.unicode_len();
    let mut i: usize = 0;
    assert(a@.skip(0) =~= a@ && b@.skip(0) =~= b@);
    while i < a_len && i < b_len
        invariant
            a_len == a@.len(),
            b_len == b@.len(),
            i <= a_len,
            i <= b_len,
            text_lt(a@, b@) == text_lt(a@.skip(i as int), b@.skip(i as int)),
        decreases a_len - i,
    {
        let x = a.get_char(i);
        let y = b.get_char(i);
        assert(a@.skip(i as int)[0] == x && b@.skip(i as int)[0] == y);
        if x != y {
            return x < y;
        }
        assert(a@.skip(i as int).drop_first() =~= a@.skip(i + 1));
        assert(b@.skip(i as int).drop_first() =~= b@.skip(i + 1));
        i += 1;
    }
    i < b_len
}

/// A ROM found while scanning a folder.
#[derive(Debug, Clone, PartialEq, Eq)]
pub struct RomEntry {
    pub path: String,
    pub file_name: String,
    pub title: String,
    pub color: bool,
    pub mapper: String,
}

/// The name a ROM is listed under: its header title, or the file name
/// when the title is empty.
pub open spec fn display_title_of(entry: RomEntry) -> Seq<char> {
    if entry.title@.len() == 0 {
        entry.file_name@
    } else {
        entry.title@
    }
}

/// The key the library is ordered by: the listed name in lower case.
pub open spec fn title_key(entry: RomEntry) -> Seq<char> {
    lowercase_text(display_title_of(entry))
}

/// How a cartridge controller is named in the library.
pub open spec fn mapper_label(kind: MapperKind) -> Seq<char> {
    match kind {
        MapperKind::NoMbc => "ROM only"@,
        MapperKind::Mbc1 => "MBC1"@,
        MapperKind::Mbc3 => "MBC3"@,
        MapperKind::Mbc5 => "MBC5"@,
    }
}

impl RomEntry {
    /// The name the ROM is listed under.
    pub fn display_title(&self) -> (title: &str)
        ensures
            title@ == display_title_of(*self),
    {
        if self.title.unicode_len() == 0 {
            self.file_name.as_str()
        } else {
            self.title.as_str()
        }
    }
}

/// How a cartridge controller is named in the library.
pub fn mapper_name(kind: MapperKind) -> (name: String)
    ensures
        name@ == mapper_label(kind),
{
    match kind {
        MapperKind::NoMbc => String::from_str("ROM only"),
        MapperKind::Mbc1 => String::from_str("MBC1"),
        MapperKind::Mbc3 => String::from_str("MBC3"),
        MapperKind::Mbc5 => String::from_str("MBC5"),
    }
}

/// The library entry of a ROM at `path`, whose file is named `file_name`
/// (without its extension) and whose header is `header`.
pub fn entry_for(path: String, file_name: String, header: &CartridgeHeader) -> (entry: RomEntry)
    ensures
        entry.path@ == path@,
        entry.file_name@ == file_name@,
        entry.title@ == header.spec_title(),
        entry.color == (header.spec_cgb_flag() == 0x80 || header.spec_cgb_flag() == 0xC0),
        entry.mapper@ == mapper_label(header.spec_mapper_kind()),
{
    RomEntry {
        path,
        file_name,
        title: String::from_str(header.title()),
        color: header.supports_cgb(),
        mapper: mapper_name(header.mapper_kind()),
    }
}

/// Where `entry` goes among `sorted` so that the order by key stays and
/// entries with the same key keep the order they came in: after every
/// entry whose key does not come after its own.
pub open spec fn title_insertion_index(sorted: Seq<RomEntry>, entry: RomEntry) -> int
    decreases sorted.len(),
{
    if sorted.len() == 0 {
        0
    } else if !text_lt(title_key(entry), title_key(sorted.last())) {
        sorted.len() as int
    } else {
        title_insertion_index(sorted.drop_last(), entry)
    }
}

/// `entries` ordered by key, entries with the same key in the order they
/// came in (a stable sort).
pub open spec fn sorted_by_title(entries: Seq<RomEntry>) -> Seq<RomEntry>
    decreases entries.len(),
{
    if entries.len() == 0 {
        entries
    } else {
        let sorted = sorted_by_title(entries.drop_last());
        sorted.insert(title_insertion_index(sorted, entries.last()), entries.last())
    }
}

proof fn lemma_sorted_len(entries: Seq<RomEntry>)
    ensures
        sorted_by_title(entries).len() == entries.len(),
    decreases entries.len(),
{
    if entries.len() > 0 {
        lemma_sorted_len(entries.drop_last());
        let sorted = sorted_by_title(entries.drop_last());
        lemma_insertion_index_bound(sorted, entries.last());
    }
}

proof fn lemma_insertion_index_bound(sorted: Seq<RomEntry>, entry: RomEntry)
    ensures
        0 <= title_insertion_index(sorted, entry) <= sorted.len(),
    decreases sorted.len(),
{
    if sorted.len() > 0 {
        lemma_insertion_index_bound(sorted.drop_last(), entry);
    }
}

/// Orders library entries by their listed names, ignoring case; entries
/// with the same name keep their order.
pub fn sort_by_title(entries: Vec<RomEntry>) -> (sorted: Vec<RomEntry>)
    ensures
        sorted@ == sorted_by_title(entries@),
{
    let ghost input = entries@;
    let mut sorted: Vec<RomEntry> = Vec::new();
    let mut rest = entries;
    let ghost mut done: int = 0;
    assert(sorted@ =~= sorted_by_title(input.take(0)));
    while rest.len() > 0
        invariant
            0 <= done <= input.len(),
            rest@ == input.skip(done),
            sorted@ == sorted_by_title(input.take(done)),
        decreases rest.len(),
    {
        let entry = rest.remove(0);
        proof {
            assert(input.take(done + 1).drop_last() =~= input.take(done));
            assert(input.take(done + 1).last() == input[done]);
            lemma_sorted_len(input.take(done));
        }
        let key = lowercase(entry.display_title());
        let mut index = sorted.len();
        let mut searching = true;
        assert(sorted@.take(index as int) =~= sorted@);
        while searching && index > 0
            invariant
                index <= sorted@.len(),
                key@ == title_key(entry),
                searching ==> title_insertion_index(sorted@, entry) == title_insertion_index(
                    sorted@.take(index as int),
                    entry,
                ),
                !searching ==> title_insertion_index(sorted@, entry) == index,
            decreases index + (if searching { 1int } else { 0 }),
        {
            let previous = lowercase(sorted[index - 1].display_title());
            if !text_before(key.as_str(), previous.as_str()) {
                assert(sorted@.take(index as int).last() == sorted@[index - 1]);
                searching = false;
            } else {
                assert(sorted@.take(index as int).drop_last() =~= sorted@.take(index - 1));
                index -= 1;
            }
        }
        proof {
            lemma_insertion_index_bound(sorted@, entry);
        }
        sorted.insert(index, entry);
        proof {
            assert(rest@ =~= input.skip(done + 1));
            done = done + 1;
        }
    }
    assert(input.take(done) =~= input);
    sorted
}

pub(crate) proof fn lemma_text_lt_irreflexive(a: Seq<char>)
    ensures
        !text_lt(a, a),
    decreases a.len(),
{
    if a.len() > 0 {
        lemma_text_lt_irreflexive(a.drop_first());
    }
}

pub(crate) proof fn lemma_text_lt_transitive(a: Seq<char>, b: Seq<char>, c: Seq<char>)
    requires
        text_lt(a, b),
        text_lt(b, c),
    ensures
        text_lt(a, c),
    decreases a.len(),
{
    if a.len() > 0 && a[0] == b[0] && b[0] == c[0] {
        lemma_text_lt_transitive(a.drop_first(), b.drop_first(), c.drop_first());
    }
}

pub(crate) proof fn lemma_text_lt_total(a: Seq<char>, b: Seq<char>)
    ensures
        text_lt(a, b) || text_lt(b, a) || a == b,
    decreases a.len(),
{
    if a.len() == 0 && b.len() == 0 {
        assert(a =~= b);
    } else if a.len() > 0 && b.len() > 0 && a[0] == b[0] {
        lemma_text_lt_total(a.drop_first(), b.drop_first());
        if a.drop_first() == b.drop_first() {
            assert(a =~= seq![a[0]] + a.drop_first());
            assert(b =~= seq![b[0]] + b.drop_first());
        }
    }
}

/// `a` does not come after `b` in character-code order.
pub open spec fn text_le(a: Seq<char>, b: Seq<char>) -> bool {
    !text_lt(b, a)
}

pub(crate) proof fn lemma_text_le_transitive(a: Seq<char>, b: Seq<char>, c: Seq<char>)
    requires
        text_le(a, b),
        text_le(b, c),
    ensures
        text_le(a, c),
{
    lemma_text_lt_total(a, b);
    lemma_text_lt_total(b, c);
    if text_lt(c, a) {
        if text_lt(a, b) {
            lemma_text_lt_transitive(c, a, b);
        }
        if text_lt(b, c) {
            lemma_text_lt_transitive(b, c, a);
        }
        if a == b && b == c {
            lemma_text_lt_irreflexive(a);
        }
    }
}

/// The entries are in order of their keys.
pub open spec fn titles_ordered(entries: Seq<RomEntry>) -> bool {
    forall|i: int, j: int|
        0 <= i < j < entries.len() ==> text_le(title_key(#[trigger] entries[i]), title_key(#[trigger] entries[j]))
}

proof fn lemma_title_insertion(sorted: Seq<RomEntry>, entry: RomEntry)
    ensures
        ({
            let at = title_insertion_index(sorted, entry);
            &&& 0 <= at <= sorted.len()
            &&& forall|k: int| at <= k < sorted.len() ==> text_lt(title_key(entry), title_key(#[trigger] sorted[k]))
            &&& at > 0 ==> text_le(title_key(sorted[at - 1]), title_key(entry))
        }),
    decreases sorted.len(),
{
    if sorted.len() > 0 {
        let front = sorted.drop_last();
        lemma_title_insertion(front, entry);
        let at = title_insertion_index(sorted, entry);
        if text_lt(title_key(entry), title_key(sorted.last())) {
            assert forall|k: int| at <= k < sorted.len() implies text_lt(title_key(entry), title_key(#[trigger] sorted[k])) by {
                if k < front.len() {
                    assert(sorted[k] == front[k]);
                }
            }
            if at > 0 {
                assert(sorted[at - 1] == front[at - 1]);
            }
        }
    }
}

/// Sorting by title gives the same entries, each as often, in order of
/// their keys.
pub proof fn lemma_sorted_by_title(entries: Seq<RomEntry>)
    ensures
        titles_ordered(sorted_by_title(entries)),
        sorted_by_title(entries).to_multiset() == entries.to_multiset(),
    decreases entries.len(),
{
    broadcast use vstd::seq_lib::to_multiset_build, vstd::seq_lib::to_multiset_insert;

    if entries.len() == 0 {
    } else {
        let front = entries.drop_last();
        let entry = entries.last();
        lemma_sorted_by_title(front);
        let sorted = sorted_by_title(front);
        lemma_title_insertion(sorted, entry);
        let at = title_insertion_index(sorted, entry);
        let result = sorted.insert(at, entry);
        assert(entries =~= front.push(entry));
        assert forall|i: int, j: int| 0 <= i < j < result.len() implies text_le(
            title_key(#[trigger] result[i]),
            title_key(#[trigger] result[j]),
        ) by {
            if j < at {
                assert(result[i] == sorted[i] && result[j] == sorted[j]);
            } else if j == at {
                assert(result[i] == sorted[i]);
                if i < at - 1 {
                    lemma_text_le_transitive(title_key(sorted[i]), title_key(sorted[at - 1]), title_key(entry));
                }
            } else if i == at {
                assert(result[j] == sorted[j - 1]);
                lemma_text_lt_total(title_key(entry), title_key(sorted[j - 1]));
                if text_lt(title_key(sorted[j - 1]), title_key(entry)) {
                    lemma_text_lt_transitive(title_key(entry), title_key(sorted[j - 1]), title_key(entry));
                    lemma_text_lt_irreflexive(title_key(entry));
                }
            } else if i < at {
                assert(result[i] == sorted[i] && result[j] == sorted[j - 1]);
            } else {
                assert(result[i] == sorted[i - 1] && result[j] == sorted[j - 1]);
            }
        }
    }
}

/// The extension of a ROM file (`gb` or `gbc`, in any case).
pub open spec fn is_rom_extension_text(extension: Seq<char>) -> bool {
    let lower = extension.map_values(|c: char| ascii_lower_char(c));
    lower == seq!['g', 'b'] || lower == seq!['g', 'b', 'c']
}

/// `c` with an ASCII capital letter made small.
pub open spec fn ascii_lower_char(c: char) -> char {
    if 'A' <= c <= 'Z' {
        ((c as u32) + 32) as char
    } else {
        c
    }
}

fn lower_is(c: char, small: char) -> (same: bool)
    requires
        'a' <= small <= 'z',
    ensures
        same == (ascii_lower_char(c) == small),
{
    c == small || (c as u32) + 32 == small as u32
}

/// Whether a file with this extension is listed as a ROM: `gb` or `gbc`,
/// ignoring the case of ASCII letters.
pub fn is_rom_extension(extension: &str) -> (rom: bool)
    ensures
        rom == is_rom_extension_text(extension@),
{
    let n = extension.unicode_len();
    let ghost lower = extension@.map_values(|c: char| ascii_lower_char(c));
    let ghost two = seq!['g', 'b'];
    let ghost three = seq!['g', 'b', 'c'];
    assert(lower.len() == n && two.len() == 2 && three.len() == 3);
    if n != 2 && n != 3 {
        return false;
    }
    let g = lower_is(extension.get_char(0), 'g');
    let b = lower_is(extension.get_char(1), 'b');
    assert(lower[0] == ascii_lower_char(extension@[0]) && lower[1] == ascii_lower_char(extension@[1]));
    assert(two[0] == 'g' && two[1] == 'b' && three[0] == 'g' && three[1] == 'b' && three[2] == 'c');
    if n == 2 {
        proof {
            if g && b {
                assert(lower =~= two);
            }
        }
        g && b
    } else {
        let c = lower_is(extension.get_char(2), 'c');
        assert(lower[2] == ascii_lower_char(extension@[2]));
        proof {
            if g && b && c {
                assert(lower =~= three);
            }
        }
        g && b && c
    }
}

/// Whether a directory of this name is skipped while scanning: its name
/// starts with a dot.
pub fn is_hidden_name(name: &str) -> (hidden: bool)
    ensures
        hidden == (name@.len() > 0 && name@[0] == '.'),
{
    name.unicode_len() > 0 && name.get_char(0) == '.'
}

/// The library entry of a suspended game whose ROM the folder lacks, from
/// its state; `file_name` is the ROM file's name without its extension.
pub fn entry_from_meta(meta: &StateMeta, file_name: String) -> (entry: RomEntry)
    ensures
        entry.path@ == meta.rom_path@,
        entry.file_name@ == file_name@,
        entry.title@ == meta.title@,
        entry.color == meta.color,
        entry.mapper@ == meta.mapper@,
{
    RomEntry {
        path: meta.rom_path.clone(),
        file_name,
        title: meta.title.clone(),
        color: meta.color,
        mapper: meta.mapper.clone(),
    }
}

/// `text` cut to its last `max - 1` characters behind an ellipsis when it
/// has more than `max` characters.
pub open spec fn shortened(text: Seq<char>, max: int) -> Seq<char> {
    if text.len() <= max {
        text
    } else {
        seq!['\u{2026}'] + text.skip(text.len() - (max - 1))
    }
}

/// Shortens `text` for display (see `shortened`).
pub fn shorten(text: &str, max: usize) -> (short: String)
    requires
        text@.len() > max ==> max > 0,
    ensures
        short@ == shortened(text@, max as int),
{
    let n = text.unicode_len();
    if n <= max {
        return text.to_string();
    }
    let tail = text.substring_char(n - (max - 1), n);
    let short = joined("\u{2026}", tail);
    proof {
        reveal_strlit("\u{2026}");
    }
    short
}

} // verus!
