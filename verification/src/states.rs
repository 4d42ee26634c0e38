use vstd::prelude::*;
use crate::error::{decimal, digit_char};

verus! {

/// The save-state format this store reads and writes.
pub const FORMAT_VERSION: u32 = 1;
/// The slot a game is suspended into when play stops.
pub const AUTO_SLOT: u32 = 0;
/// How many numbered save slots a game has.
pub const SAVE_SLOTS: usize = 4;

/// `c` is an ASCII decimal digit.
pub open spec fn is_digit(c: char) -> bool {
    '0' <= c <= '9'
}

/// The number ASCII decimal digits spell.
pub open spec fn digits_value(digits: Seq<char>) -> int
    decreases digits.len(),
{
    if digits.len() == 0 {
        0
    } else {
        digits_value(digits.drop_last()) * 10 + (digits.last() as int - '0' as int)
    }
}

/// `text` without a leading `+`.
pub open spec fn without_plus(text: Seq<char>) -> Seq<char> {
    if text.len() > 0 && text[0] == '+' {
        text.drop_first()
    } else {
        text
    }
}

/// Every character of `text` is a decimal digit.
pub open spec fn all_digits(text: Seq<char>) -> bool {
    forall|i: int| 0 <= i < text.len() ==> is_digit(#[trigger] text[i])
}

/// What `str::parse::<u32>` gives: an optional `+`, then one or more
/// decimal digits spelling a number that fits in 32 bits.
pub open spec fn parse_u32(text: Seq<char>) -> Option<u32> {
    let digits = without_plus(text);
    if digits.len() > 0 && all_digits(digits) && digits_value(digits) <= u32::MAX {
        Some(digits_value(digits) as u32)
    } else {
        None
    }
}

/// Where the last `_s` before position `end` of `text` starts.
pub open spec fn last_slot_marker(text: Seq<char>, end: int) -> Option<int>
    decreases end,
{
    if end < 2 {
        None
    } else if text[end - 2] == '_' && text[end - 1] == 's' {
        Some(end - 2)
    } else {
        last_slot_marker(text, end - 1)
    }
}

/// The slot a state file name ends in: the number after its last `_s`,
/// or the automatic slot when there is none.
pub open spec fn slot_of(slug: Seq<char>) -> u32 {
    match last_slot_marker(slug, slug.len() as int) {
        Some(i) => match parse_u32(slug.subrange(i + 2, slug.len() as int)) {
            Some(n) => n,
            None => AUTO_SLOT,
        },
        None => AUTO_SLOT,
    }
}

proof fn lemma_digits_value_bounds(digits: Seq<char>)
    requires
        forall|i: int| 0 <= i < digits.len() ==> is_digit(#[trigger] digits[i]),
    ensures
        digits_value(digits) >= 0,
        forall|k: int| 0 <= k <= digits.len() ==> digits_value(digits) >= #[trigger] digits_value(
            digits.take(k),
        ),
    decreases digits.len(),
{
    if digits.len() > 0 {
        let front = digits.drop_last();
        assert forall|i: int| 0 <= i < front.len() implies is_digit(#[trigger] front[i]) by {
            assert(front[i] == digits[i]);
        }
        lemma_digits_value_bounds(front);
        assert forall|k: int| 0 <= k <= digits.len() implies digits_value(digits) >= #[trigger] digits_value(
            digits.take(k),
        ) by {
            if k == digits.len() {
                assert(digits.take(k) =~= digits);
            } else {
                assert(digits.take(k) =~= front.take(k));
            }
        }
    }
}

/// Parses the characters `from..to` of `text` as `str::parse::<u32>` does.
pub(crate) fn parse_slot_number(text: &str, from: usize, to: usize) -> (value: Option<u32>)
    requires
        from <= to <= text@.len(),
    ensures
        value == parse_u32(text@.subrange(from as int, to as int)),
{
    let ghost whole = text@.subrange(from as int, to as int);
    let mut start = from;
    if from < to && text.get_char(from) == '+' {
        start = from + 1;
    }
    let ghost digits = text@.subrange(start as int, to as int);
    assert(digits =~= without_plus(whole));
    if start >= to {
        return None;
    }
    let mut value: u64 = 0;
    let mut i = start;
    while i < to
        invariant
            from <= start <= i <= to <= text@.len(),
            start < to,
            whole == text@.subrange(from as int, to as int),
            digits == text@.subrange(start as int, to as int),
            digits == without_plus(whole),
            forall|k: int| start <= k < i ==> is_digit(#[trigger] text@[k]),
            value == digits_value(text@.subrange(start as int, i as int)),
            value <= u32::MAX,
        decreases to - i,
    {
        let c = text.get_char(i);
        if !('0' <= c && c <= '9') {
            assert(!is_digit(digits[i - start]));
            assert(!all_digits(digits));
            return None;
        }
        let digit = (c as u32 - '0' as u32) as u64;
        assert(text@.subrange(start as int, i + 1).drop_last() =~= text@.subrange(start as int, i as int));
        assert(text@.subrange(start as int, i + 1).last() == c);
        let next = value * 10 + digit;
        if next > u32::MAX as u64 {
            proof {
                assert forall|k: int| 0 <= k < i + 1 - start implies is_digit(
                    #[trigger] text@.subrange(start as int, i + 1)[k],
                ) by {
                    assert(text@.subrange(start as int, i + 1)[k] == text@[start + k]);
                }
                if all_digits(digits) {
                    lemma_digits_value_bounds(digits);
                    assert(digits.take(i + 1 - start) =~= text@.subrange(start as int, i + 1));
                    assert(digits_value(text@.subrange(start as int, i + 1)) == value * 10 + digit);
                    assert(digits_value(digits.take(i + 1 - start)) == next);
                    assert(digits_value(digits) > u32::MAX);
                }
            }
            return None;
        }
        value = next;
        i += 1;
    }
    assert(text@.subrange(start as int, i as int) =~= digits);
    assert forall|k: int| 0 <= k < digits.len() implies is_digit(#[trigger] digits[k]) by {
        assert(digits[k] == text@[start + k]);
    }
    assert(all_digits(digits));
    Some(value as u32)
}

/// The slot a state file name ends in (see `slot_of`).
pub fn slot_from_slug(slug: &str) -> (slot: u32)
    ensures
        slot == slot_of(slug@),
{
    let n = slug.unicode_len();
    let mut end = n;
    while end >= 2
        invariant
            end <= n == slug@.len(),
            last_slot_marker(slug@, n as int) == last_slot_marker(slug@, end as int),
        decreases end,
    {
        if slug.get_char(end - 2) == '_' && slug.get_char(end - 1) == 's' {
            return match parse_slot_number(slug, end, n) {
                Some(number) => number,
                None => AUTO_SLOT,
            };
        }
        end -= 1;
    }
    AUTO_SLOT
}

/// The lower-case hexadecimal digit `d` (0 to 15).
pub open spec fn hex_lower(d: nat) -> char {
    if d < 10 {
        (48 + d) as char
    } else {
        (87 + d) as char
    }
}

/// The last `count` hexadecimal digits of `value`, in lower case, most
/// significant first.
pub open spec fn hex_digits(value: nat, count: nat) -> Seq<char>
    decreases count,
{
    if count == 0 {
        Seq::empty()
    } else {
        hex_digits(value / 16, (count - 1) as nat).push(hex_lower(value % 16))
    }
}

/// The name a game's state in `slot` is stored under, for a game whose path
/// hashes to `hash`: the hash in sixteen hexadecimal digits, `_s` and the
/// slot number.
pub open spec fn slug_of(hash: u64, slot: u32) -> Seq<char> {
    hex_digits(hash as nat, 16) + seq!['_', 's'] + decimal(slot as nat)
}

/// Formats `{hash:016x}_s{slot}` with `std::format!`.
#[verifier::external_body]
fn format_slug(hash: u64, slot: u32) -> (slug: String)
    ensures
        slug@ == slug_of(hash, slot),
{
    format!("{hash:016x}_s{slot}")
}

/// The name a game's state in `slot` is stored under, from the hash of the
/// game's path (see `slug_of`).
pub fn slug_for_hash(hash: u64, slot: u32) -> (slug: String)
    ensures
        slug@ == slug_of(hash, slot),
        slot_of(slug@) == slot,
{
    proof {
        lemma_slug_slot(hash, slot);
    }
    format_slug(hash, slot)
}

proof fn lemma_decimal_digits(n: nat)
    ensures
        decimal(n).len() > 0,
        all_digits(decimal(n)),
        digits_value(decimal(n)) == n,
    decreases n,
{
    if n < 10 {
        let d = decimal(n);
        assert(d.drop_last() =~= Seq::<char>::empty());
        assert(d.last() == digit_char(n));
        assert((digit_char(n) as int) == 48 + n);
        assert(digits_value(d) == digits_value(d.drop_last()) * 10 + (d.last() as int - '0' as int));
    } else {
        lemma_decimal_digits(n / 10);
        let front = decimal(n / 10);
        let d = decimal(n);
        assert(d.drop_last() =~= front);
        assert(d.last() == digit_char(n % 10));
        assert((digit_char(n % 10) as int) == 48 + n % 10);
        assert((n / 10) * 10 + n % 10 == n) by (nonlinear_arith);
        assert(digits_value(d) == digits_value(front) * 10 + (d.last() as int - '0' as int));
        assert forall|i: int| 0 <= i < d.len() implies is_digit(#[trigger] d[i]) by {
            if i < front.len() {
                assert(d[i] == front[i]);
            }
        }
    }
}

proof fn lemma_marker_skips_digits(text: Seq<char>, marker: int, end: int)
    requires
        0 <= marker,
        marker + 2 <= end <= text.len(),
        text[marker] == '_',
        text[marker + 1] == 's',
        forall|i: int| marker + 2 <= i < text.len() ==> is_digit(#[trigger] text[i]),
    ensures
        last_slot_marker(text, end) == Some(marker),
    decreases end,
{
    if end > marker + 2 {
        assert(is_digit(text[end - 1]));
        lemma_marker_skips_digits(text, marker, end - 1);
    }
}

/// A state's name gives back the slot it was made for: the slot read from
/// `slug_of(hash, slot)` is `slot`.
pub proof fn lemma_slug_slot(hash: u64, slot: u32)
    ensures
        slot_of(slug_of(hash, slot)) == slot,
{
    let digits = decimal(slot as nat);
    let head = hex_digits(hash as nat, 16) + seq!['_', 's'];
    let slug = slug_of(hash, slot);
    lemma_decimal_digits(slot as nat);
    let marker = head.len() - 2;
    assert(slug[marker] == '_' && slug[marker + 1] == 's');
    assert forall|i: int| marker + 2 <= i < slug.len() implies is_digit(#[trigger] slug[i]) by {
        assert(slug[i] == digits[i - head.len()]);
    }
    lemma_marker_skips_digits(slug, marker, slug.len() as int);
    assert(slug.subrange(marker + 2, slug.len() as int) =~= digits);
    assert(without_plus(digits) == digits);
}

/// What the store keeps about a save state.
#[derive(Debug, Clone, PartialEq, Eq)]
pub struct StateMeta {
    pub version: u32,
    pub rom_path: String,
    pub title: String,
    pub mapper: String,
    pub color: bool,
    pub playtime_secs: u64,
    pub saved_at_unix: u64,
    pub thumbnail: Vec<u8>,
    /// The name the state's files are stored under.
    pub slug: String,
    /// The slot the state was saved in.
    pub slot: u32,
}

impl StateMeta {
    /// The name the state's files are stored under.
    pub open spec fn spec_slug(&self) -> Seq<char> {
        self.slug@
    }

    /// The slot the state was saved in.
    pub open spec fn spec_slot(&self) -> u32 {
        self.slot
    }

    /// The public fields agree with `other`'s.
    pub open spec fn same_record(&self, other: &StateMeta) -> bool {
        &&& self.version == other.version
        &&& self.rom_path@ == other.rom_path@
        &&& self.title@ == other.title@
        &&& self.mapper@ == other.mapper@
        &&& self.color == other.color
        &&& self.playtime_secs == other.playtime_secs
        &&& self.saved_at_unix == other.saved_at_unix
        &&& self.thumbnail@ == other.thumbnail@
    }

    /// Metadata for a state of the game at `rom_path` saved in `slot` at
    /// `saved_at_unix`, stored under `slug` (the name derived from the
    /// game's path and the slot).
    pub fn new(
        rom_path: String,
        title: String,
        mapper: String,
        color: bool,
        playtime_secs: u64,
        thumbnail: Vec<u8>,
        slot: u32,
        slug: String,
        saved_at_unix: u64,
    ) -> (meta: Self)
        ensures
            meta.version == FORMAT_VERSION,
            meta.rom_path@ == rom_path@,
            meta.title@ == title@,
            meta.mapper@ == mapper@,
            meta.color == color,
            meta.playtime_secs == playtime_secs,
            meta.saved_at_unix == saved_at_unix,
            meta.thumbnail@ == thumbnail@,
            meta.spec_slug() == slug@,
            meta.spec_slot() == slot,
    {
        StateMeta {
            version: FORMAT_VERSION,
            rom_path,
            title,
            mapper,
            color,
            playtime_secs,
            saved_at_unix,
            thumbnail,
            slug,
            slot,
        }
    }

    pub fn slug(&self) -> (slug: &str)
        ensures
            slug@ == self.spec_slug(),
    {
        self.slug.as_str()
    }

    pub fn slot(&self) -> (slot: u32)
        ensures
            slot == self.spec_slot(),
    {
        self.slot
    }

    /// The metadata as read back from files named `slug`: the name is kept
    /// and the slot is the one the name ends in.
    pub fn restored_as(self, slug: String) -> (meta: Self)
        ensures
            meta.same_record(&self),
            meta.spec_slug() == slug@,
            meta.spec_slot() == slot_of(slug@),
    {
        let slot = slot_from_slug(slug.as_str());
        StateMeta { slug, slot, ..self }
    }
}

/// Where a state saved at `time` goes among `entries` (newest first):
/// after every entry at least as recent.
pub open spec fn insertion_index(entries: Seq<StateMeta>, time: u64) -> int
    decreases entries.len(),
{
    if entries.len() == 0 {
        0
    } else if entries.last().saved_at_unix >= time {
        entries.len() as int
    } else {
        insertion_index(entries.drop_last(), time)
    }
}

/// `entries` with the entries stored under `slug` left out.
pub open spec fn without_slug(entries: Seq<StateMeta>, slug: Seq<char>) -> Seq<StateMeta>
    decreases entries.len(),
{
    if entries.len() == 0 {
        entries
    } else if entries.last().spec_slug() == slug {
        without_slug(entries.drop_last(), slug)
    } else {
        without_slug(entries.drop_last(), slug).push(entries.last())
    }
}

/// The entries of the automatic slot, in order.
pub open spec fn automatic(entries: Seq<StateMeta>) -> Seq<StateMeta>
    decreases entries.len(),
{
    if entries.len() == 0 {
        entries
    } else if entries.last().spec_slot() == AUTO_SLOT {
        automatic(entries.drop_last()).push(entries.last())
    } else {
        automatic(entries.drop_last())
    }
}

/// The entries are ordered newest first.
pub open spec fn newest_first(entries: Seq<StateMeta>) -> bool {
    forall|i: int, j: int| 0 <= i < j < entries.len() ==> entries[i].saved_at_unix >= entries[j].saved_at_unix
}

/// `entries` after recording `meta`: the entries under its name are left
/// out and it goes after every remaining entry at least as recent.
pub open spec fn saved_entries(entries: Seq<StateMeta>, meta: StateMeta) -> Seq<StateMeta> {
    let kept = without_slug(entries, meta.spec_slug());
    kept.insert(insertion_index(kept, meta.saved_at_unix), meta)
}

/// The index of the first entry stored under `slug`, if any.
pub open spec fn first_with_slug(entries: Seq<StateMeta>, slug: Seq<char>) -> Option<int> {
    if exists|i: int| 0 <= i < entries.len() && entries[i].spec_slug() == slug {
        Some(
            choose|i: int|
                0 <= i < entries.len() && entries[i].spec_slug() == slug && forall|k: int|
                    0 <= k < i ==> entries[k].spec_slug() != slug,
        )
    } else {
        None
    }
}

proof fn lemma_without_slug_bound(entries: Seq<StateMeta>, slug: Seq<char>, time: u64)
    requires
        forall|j: int| 0 <= j < entries.len() ==> #[trigger] entries[j].saved_at_unix >= time,
    ensures
        forall|i: int| 0 <= i < without_slug(entries, slug).len() ==> #[trigger] without_slug(entries, slug)[i].saved_at_unix
            >= time,
    decreases entries.len(),
{
    if entries.len() > 0 {
        let front = entries.drop_last();
        assert forall|j: int| 0 <= j < front.len() implies #[trigger] front[j].saved_at_unix >= time by {
            assert(front[j] == entries[j]);
        }
        lemma_without_slug_bound(front, slug, time);
        let rest = without_slug(front, slug);
        if entries.last().spec_slug() != slug {
            let r = rest.push(entries.last());
            assert forall|i: int| 0 <= i < r.len() implies #[trigger] r[i].saved_at_unix >= time by {
                if i < rest.len() {
                    assert(r[i] == rest[i]);
                }
            }
        }
    }
}

proof fn lemma_without_slug(entries: Seq<StateMeta>, slug: Seq<char>)
    ensures
        without_slug(entries, slug).len() <= entries.len(),
        forall|i: int| 0 <= i < without_slug(entries, slug).len() ==> #[trigger] without_slug(entries, slug)[i].spec_slug() != slug,
        newest_first(entries) ==> newest_first(without_slug(entries, slug)),
    decreases entries.len(),
{
    if entries.len() > 0 {
        let front = entries.drop_last();
        lemma_without_slug(front, slug);
        let rest = without_slug(front, slug);
        if entries.last().spec_slug() != slug {
            let r = rest.push(entries.last());
            assert forall|i: int| 0 <= i < r.len() implies #[trigger] r[i].spec_slug() != slug by {
                if i < rest.len() {
                    assert(r[i] == rest[i]);
                }
            }
        }
        if newest_first(entries) {
            assert(newest_first(front)) by {
                assert forall|i: int, j: int| 0 <= i < j < front.len() implies front[i].saved_at_unix
                    >= front[j].saved_at_unix by {
                    assert(front[i] == entries[i] && front[j] == entries[j]);
                }
            }
            if entries.last().spec_slug() != slug {
                let last = entries.last();
                assert forall|j: int| 0 <= j < front.len() implies #[trigger] front[j].saved_at_unix
                    >= last.saved_at_unix by {
                    assert(front[j] == entries[j]);
                }
                lemma_without_slug_bound(front, slug, last.saved_at_unix);
                let r = rest.push(last);
                assert forall|i: int, j: int| 0 <= i < j < r.len() implies r[i].saved_at_unix
                    >= r[j].saved_at_unix by {
                    assert(r[i] == rest[i]);
                    if j < rest.len() {
                        assert(r[j] == rest[j]);
                    }
                }
            }
        }
    }
}

/// The save states on disk, newest first, as their metadata.
#[derive(Debug, Clone, PartialEq, Eq)]
pub struct StateStore {
    entries: Vec<StateMeta>,
}

impl StateStore {
    pub closed spec fn spec_entries(&self) -> Seq<StateMeta> {
        self.entries@
    }

    /// The entries are kept newest first.
    pub open spec fn inv(&self) -> bool {
        newest_first(self.spec_entries())
    }

    /// A store with no states.
    pub fn new() -> (store: Self)
        ensures
            store.inv(),
            store.spec_entries() == Seq::<StateMeta>::empty(),
    {
        StateStore { entries: Vec::new() }
    }

    /// All the states, newest first.
    pub fn entries(&self) -> (entries: &[StateMeta])
        ensures
            entries@ == self.spec_entries(),
    {
        self.entries.as_slice()
    }

    /// Inserts `meta` after every entry at least as recent.
    fn insert_by_time(&mut self, meta: StateMeta)
        requires
            old(self).inv(),
            old(self).spec_entries().len() < usize::MAX,
        ensures
            final(self).inv(),
            final(self).spec_entries() == old(self).spec_entries().insert(
                insertion_index(old(self).spec_entries(), meta.saved_at_unix),
                meta,
            ),
    {
        let time = meta.saved_at_unix;
        let mut index = self.entries.len();
        assert(self.entries@.take(index as int) =~= self.entries@);
        while index > 0 && self.entries[index - 1].saved_at_unix < time
            invariant
                index <= self.entries@.len(),
                newest_first(self.entries@),
                insertion_index(self.entries@, time) == insertion_index(self.entries@.take(index as int), time),
                forall|k: int| index <= k < self.entries@.len() ==> self.entries@[k].saved_at_unix < time,
            decreases index,
        {
            assert(self.entries@.take(index as int).drop_last() =~= self.entries@.take(index - 1));
            index -= 1;
        }
        let ghost before = self.entries@;
        proof {
            if index > 0 {
                assert(before.take(index as int).last() == before[index - 1]);
            }
            assert(insertion_index(before, time) == index);
        }
        self.entries.insert(index, meta);
        proof {
            let after = self.entries@;
            assert forall|i: int, j: int| 0 <= i < j < after.len() implies after[i].saved_at_unix
                >= after[j].saved_at_unix by {
                if j < index {
                } else if j == index {
                    assert(i < index);
                    assert(after[i] == before[i]);
                    assert(before[i].saved_at_unix >= before[index - 1].saved_at_unix);
                } else if i == index {
                    assert(after[j] == before[j - 1]);
                } else if i < index {
                    assert(after[i] == before[i] && after[j] == before[j - 1]);
                } else {
                    assert(after[i] == before[i - 1] && after[j] == before[j - 1]);
                }
            }
        }
    }

    /// Takes in a state read back from files named `slug`. A state of
    /// another format is skipped and `false` reported; otherwise it gets
    /// the slot its name ends in and joins the store by time.
    pub fn insert_loaded(&mut self, meta: StateMeta, slug: String) -> (accepted: bool)
        requires
            old(self).inv(),
            old(self).spec_entries().len() < usize::MAX,
        ensures
            final(self).inv(),
            accepted == (meta.version == FORMAT_VERSION),
            !accepted ==> final(self).spec_entries() == old(self).spec_entries(),
            accepted ==> exists|restored: StateMeta| {
                &&& restored.same_record(&meta)
                &&& restored.spec_slug() == slug@
                &&& restored.spec_slot() == slot_of(slug@)
                &&& final(self).spec_entries() == old(self).spec_entries().insert(
                    insertion_index(old(self).spec_entries(), meta.saved_at_unix),
                    restored,
                )
            },
    {
        if meta.version != FORMAT_VERSION {
            return false;
        }
        let restored = meta.restored_as(slug);
        self.insert_by_time(restored);
        true
    }

    /// The states of the automatic slot, newest first.
    pub fn auto_entries(&self) -> (found: Vec<&StateMeta>)
        ensures
            found@.len() == automatic(self.spec_entries()).len(),
            forall|i: int| 0 <= i < found@.len() ==> *found@[i] == #[trigger] automatic(self.spec_entries())[i],
    {
        let mut found: Vec<&StateMeta> = Vec::new();
        let mut i: usize = 0;
        while i < self.entries.len()
            invariant
                i <= self.entries@.len(),
                found@.len() == automatic(self.entries@.take(i as int)).len(),
                forall|k: int| 0 <= k < found@.len() ==> *found@[k] == #[trigger] automatic(self.entries@.take(i as int))[k],
            decreases self.entries.len() - i,
        {
            proof {
                assert(self.entries@.take(i + 1).drop_last() =~= self.entries@.take(i as int));
                assert(self.entries@.take(i + 1).last() == self.entries@[i as int]);
            }
            if self.entries[i].slot == AUTO_SLOT {
                found.push(&self.entries[i]);
            }
            i += 1;
        }
        assert(self.entries@.take(i as int) =~= self.entries@);
        found
    }

    /// The newest state stored under `slug`, if any.
    pub fn find_slot(&self, slug: &String) -> (found: Option<&StateMeta>)
        ensures
            match first_with_slug(self.spec_entries(), slug@) {
                Some(i) => found == Some(&self.spec_entries()[i]),
                None => found is None,
            },
    {
        let mut i: usize = 0;
        while i < self.entries.len()
            invariant
                i <= self.entries@.len(),
                forall|k: int| 0 <= k < i ==> self.entries@[k].spec_slug() != slug@,
            decreases self.entries.len() - i,
        {
            if self.entries[i].slug == *slug {
                let ghost entries = self.entries@;
                proof {
                    let c = choose|j: int|
                        0 <= j < entries.len() && entries[j].spec_slug() == slug@ && forall|k: int|
                            0 <= k < j ==> entries[k].spec_slug() != slug@;
                    assert(0 <= i < entries.len() && entries[i as int].spec_slug() == slug@);
                    if c < i {
                    } else if c > i {
                    }
                    assert(c == i);
                }
                return Some(&self.entries[i]);
            }
            i += 1;
        }
        None
    }

    /// The automatic-slot state of a game whose automatic slug is `slug`.
    pub fn find(&self, slug: &String) -> (found: Option<&StateMeta>)
        ensures
            match first_with_slug(self.spec_entries(), slug@) {
                Some(i) => found == Some(&self.spec_entries()[i]),
                None => found is None,
            },
    {
        self.find_slot(slug)
    }

    /// The states in a game's numbered slots, given the slug of each slot.
    pub fn slots_for(&self, slugs: &[String; 4]) -> (slots: Vec<Option<&StateMeta>>)
        ensures
            slots@.len() == SAVE_SLOTS,
            forall|n: int| 0 <= n < SAVE_SLOTS ==> match first_with_slug(self.spec_entries(), (#[trigger] slugs@[n])@) {
                Some(i) => slots@[n] == Some(&self.spec_entries()[i]),
                None => slots@[n] is None,
            },
    {
        let mut slots: Vec<Option<&StateMeta>> = Vec::new();
        let mut n: usize = 0;
        while n < SAVE_SLOTS
            invariant
                n <= SAVE_SLOTS,
                slots@.len() == n,
                forall|m: int| 0 <= m < n ==> match first_with_slug(self.spec_entries(), (#[trigger] slugs@[m])@) {
                    Some(i) => slots@[m] == Some(&self.spec_entries()[i]),
                    None => slots@[m] is None,
                },
            decreases SAVE_SLOTS - n,
        {
            let found = self.find_slot(&slugs[n]);
            slots.push(found);
            n += 1;
        }
        slots
    }

    /// Leaves out every state stored under `slug`.
    fn retain_other_slugs(&mut self, slug: &String)
        requires
            old(self).inv(),
        ensures
            final(self).inv(),
            final(self).spec_entries() == without_slug(old(self).spec_entries(), slug@),
    {
        let ghost before = self.entries@;
        let mut kept: Vec<StateMeta> = Vec::new();
        let mut rest: Vec<StateMeta> = Vec::new();
        std::mem::swap(&mut rest, &mut self.entries);
        let ghost mut taken: int = 0;
        while rest.len() > 0
            invariant
                0 <= taken <= before.len(),
                rest@ == before.skip(taken),
                kept@ == without_slug(before.take(taken), slug@),
            decreases rest.len(),
        {
            let meta = rest.remove(0);
            proof {
                assert(before.take(taken + 1).drop_last() =~= before.take(taken));
                assert(before.take(taken + 1).last() == meta);
                assert(rest@ =~= before.skip(taken + 1));
                taken = taken + 1;
            }
            if meta.slug != *slug {
                kept.push(meta);
            }
        }
        assert(before.take(taken) =~= before);
        proof {
            lemma_without_slug(before, slug@);
        }
        self.entries = kept;
    }

    /// Records a state: any state under the same slug is replaced and the
    /// new one joins the store by time.
    pub fn save(&mut self, meta: StateMeta)
        requires
            old(self).inv(),
            old(self).spec_entries().len() < usize::MAX,
        ensures
            final(self).inv(),
            final(self).spec_entries() == saved_entries(old(self).spec_entries(), meta),
    {
        let slug = meta.slug.clone();
        proof {
            lemma_without_slug(self.entries@, slug@);
        }
        self.retain_other_slugs(&slug);
        self.insert_by_time(meta);
    }

    /// Forgets every state stored under `slug`.
    pub fn remove(&mut self, slug: &String)
        requires
            old(self).inv(),
        ensures
            final(self).inv(),
            final(self).spec_entries() == without_slug(old(self).spec_entries(), slug@),
    {
        self.retain_other_slugs(slug);
    }
}


proof fn lemma_insertion_index_range(entries: Seq<StateMeta>, time: u64)
    ensures
        0 <= insertion_index(entries, time) <= entries.len(),
    decreases entries.len(),
{
    if entries.len() > 0 {
        lemma_insertion_index_range(entries.drop_last(), time);
    }
}

/// Once a state is recorded, it is the one state stored under its name,
/// so looking the name up finds exactly that state.
pub proof fn lemma_find_after_save(entries: Seq<StateMeta>, meta: StateMeta)
    ensures
        ({
            let saved = saved_entries(entries, meta);
            &&& found_with_slug(saved, meta.spec_slug()) == Some(meta)
            &&& forall|i: int, j: int|
                0 <= i < saved.len() && 0 <= j < saved.len() && saved[i].spec_slug() == meta.spec_slug()
                    && saved[j].spec_slug() == meta.spec_slug() ==> i == j
        }),
{
    let slug = meta.spec_slug();
    let kept = without_slug(entries, slug);
    lemma_without_slug(entries, slug);
    lemma_insertion_index_range(kept, meta.saved_at_unix);
    let at = insertion_index(kept, meta.saved_at_unix);
    let saved = kept.insert(at, meta);
    assert forall|i: int| 0 <= i < saved.len() && saved[i].spec_slug() == slug implies i == at by {
        if i < at {
            assert(saved[i] == kept[i]);
        } else if i > at {
            assert(saved[i] == kept[i - 1]);
        }
    }
    assert(saved[at] == meta);
    let c = choose|j: int|
        0 <= j < saved.len() && saved[j].spec_slug() == slug && forall|k: int|
            0 <= k < j ==> saved[k].spec_slug() != slug;
    assert(0 <= at < saved.len() && saved[at].spec_slug() == slug && forall|k: int|
        0 <= k < at ==> saved[k].spec_slug() != slug);
    assert(c == at);
}

/// Once a name is forgotten, looking it up finds nothing.
pub proof fn lemma_find_after_remove(entries: Seq<StateMeta>, slug: Seq<char>)
    ensures
        first_with_slug(without_slug(entries, slug), slug) is None,
{
    lemma_without_slug(entries, slug);
}

/// The state that looking up `slug` among `entries` finds, if any.
pub open spec fn found_with_slug(entries: Seq<StateMeta>, slug: Seq<char>) -> Option<StateMeta> {
    match first_with_slug(entries, slug) {
        Some(i) => Some(entries[i]),
        None => None,
    }
}

proof fn lemma_first_with_slug_exists(entries: Seq<StateMeta>, slug: Seq<char>, i: int)
    requires
        0 <= i < entries.len(),
        entries[i].spec_slug() == slug,
    ensures
        exists|j: int|
            0 <= j < entries.len() && entries[j].spec_slug() == slug && forall|k: int|
                0 <= k < j ==> entries[k].spec_slug() != slug,
    decreases i,
{
    if exists|k: int| 0 <= k < i && entries[k].spec_slug() == slug {
        let k = choose|k: int| 0 <= k < i && entries[k].spec_slug() == slug;
        lemma_first_with_slug_exists(entries, slug, k);
    } else {
        assert(forall|k: int| 0 <= k < i ==> entries[k].spec_slug() != slug);
    }
}

proof fn lemma_first_with_slug_is(entries: Seq<StateMeta>, slug: Seq<char>, i: int)
    requires
        0 <= i < entries.len(),
        entries[i].spec_slug() == slug,
        forall|k: int| 0 <= k < i ==> entries[k].spec_slug() != slug,
    ensures
        first_with_slug(entries, slug) == Some(i),
{
    let c = choose|j: int|
        0 <= j < entries.len() && entries[j].spec_slug() == slug && forall|k: int|
            0 <= k < j ==> entries[k].spec_slug() != slug;
    assert(0 <= i < entries.len() && entries[i].spec_slug() == slug && forall|k: int|
        0 <= k < i ==> entries[k].spec_slug() != slug);
    if c < i {
    } else if c > i {
    }
}

proof fn lemma_found_after_push(entries: Seq<StateMeta>, last: StateMeta, slug: Seq<char>)
    ensures
        found_with_slug(entries.push(last), slug) == (match found_with_slug(entries, slug) {
            Some(meta) => Some(meta),
            None => if last.spec_slug() == slug {
                Some(last)
            } else {
                None
            },
        }),
{
    let longer = entries.push(last);
    if exists|i: int| 0 <= i < entries.len() && entries[i].spec_slug() == slug {
        let i = choose|i: int| 0 <= i < entries.len() && entries[i].spec_slug() == slug;
        lemma_first_with_slug_exists(entries, slug, i);
        let j = first_with_slug(entries, slug)->0;
        assert(longer[j] == entries[j]);
        assert forall|k: int| 0 <= k < j implies longer[k].spec_slug() != slug by {
            assert(longer[k] == entries[k]);
        }
        lemma_first_with_slug_is(longer, slug, j);
    } else if last.spec_slug() == slug {
        let n = entries.len() as int;
        assert forall|k: int| 0 <= k < n implies longer[k].spec_slug() != slug by {
            assert(longer[k] == entries[k]);
        }
        lemma_first_with_slug_is(longer, slug, n);
    } else {
        assert forall|k: int| 0 <= k < longer.len() implies longer[k].spec_slug() != slug by {
            if k < entries.len() {
                assert(longer[k] == entries[k]);
            }
        }
    }
}

proof fn lemma_found_after_insert(entries: Seq<StateMeta>, at: int, meta: StateMeta, slug: Seq<char>)
    requires
        0 <= at <= entries.len(),
        meta.spec_slug() != slug,
    ensures
        found_with_slug(entries.insert(at, meta), slug) == found_with_slug(entries, slug),
{
    let longer = entries.insert(at, meta);
    if exists|i: int| 0 <= i < entries.len() && entries[i].spec_slug() == slug {
        let i = choose|i: int| 0 <= i < entries.len() && entries[i].spec_slug() == slug;
        lemma_first_with_slug_exists(entries, slug, i);
        let j = first_with_slug(entries, slug)->0;
        let moved = if j < at {
            j
        } else {
            j + 1
        };
        assert(longer[moved] == entries[j]);
        assert forall|k: int| 0 <= k < moved implies longer[k].spec_slug() != slug by {
            if k < at {
                assert(longer[k] == entries[k]);
            } else if k > at {
                assert(longer[k] == entries[k - 1]);
            }
        }
        lemma_first_with_slug_is(longer, slug, moved);
    } else {
        assert forall|k: int| 0 <= k < longer.len() implies longer[k].spec_slug() != slug by {
            if k < at {
                assert(longer[k] == entries[k]);
            } else if k > at {
                assert(longer[k] == entries[k - 1]);
            }
        }
    }
}

proof fn lemma_found_without_other(entries: Seq<StateMeta>, gone: Seq<char>, slug: Seq<char>)
    requires
        gone != slug,
    ensures
        found_with_slug(without_slug(entries, gone), slug) == found_with_slug(entries, slug),
    decreases entries.len(),
{
    if entries.len() > 0 {
        let front = entries.drop_last();
        let last = entries.last();
        assert(front.push(last) =~= entries);
        lemma_found_without_other(front, gone, slug);
        lemma_found_after_push(front, last, slug);
        if last.spec_slug() != gone {
            lemma_found_after_push(without_slug(front, gone), last, slug);
        }
    }
}

/// Forgetting one name leaves what every other name finds as it was.
pub proof fn lemma_remove_keeps_others(entries: Seq<StateMeta>, gone: Seq<char>, slug: Seq<char>)
    requires
        gone != slug,
    ensures
        found_with_slug(without_slug(entries, gone), slug) == found_with_slug(entries, slug),
{
    lemma_found_without_other(entries, gone, slug);
}

/// Recording a state leaves what every other name finds as it was.
pub proof fn lemma_save_keeps_others(entries: Seq<StateMeta>, meta: StateMeta, slug: Seq<char>)
    requires
        meta.spec_slug() != slug,
    ensures
        found_with_slug(saved_entries(entries, meta), slug) == found_with_slug(entries, slug),
{
    let kept = without_slug(entries, meta.spec_slug());
    lemma_found_without_other(entries, meta.spec_slug(), slug);
    lemma_insertion_index_range(kept, meta.saved_at_unix);
    lemma_found_after_insert(kept, insertion_index(kept, meta.saved_at_unix), meta, slug);
}

} // verus!
