//! What kind of synthesis backs a voicegroup slot, told by the slot's name.

use vstd::prelude::*;
use vstd::utf8::is_ascii_chars;
use crate::text::{begins_with, starts_with};
use crate::voicegroup::{slot_models, SlotModel, VoiceSlot};

verus! {

/// The kind of an instrument. The hardware channels only know three pan
/// positions; everything else has continuous pan.
#[derive(Debug, Copy, Clone, PartialEq, Eq, Structural)]
pub enum InstrumentKind {
    /// Square-wave hardware channel.
    Square,
    /// Noise hardware channel.
    Noise,
    /// Programmable-wave hardware channel.
    ProgWave,
    /// A sample, a container, or anything that is not recognized.
    Other,
}

impl InstrumentKind {
    /// Whether pan is a choice of left, center and right, and not a slider.
    pub fn is_enum_pan(&self) -> (r: bool)
        ensures
            r == (*self != InstrumentKind::Other),
    {
        matches!(self, InstrumentKind::Square | InstrumentKind::Noise | InstrumentKind::ProgWave)
    }
}

/// Unicode `White_Space`.
pub open spec fn is_white_space(c: char) -> bool {
    let u = c as u32;
    ||| 0x09 <= u <= 0x0D
    ||| u == 0x20
    ||| u == 0x85
    ||| u == 0xA0
    ||| u == 0x1680
    ||| 0x2000 <= u <= 0x200A
    ||| u == 0x2028
    ||| u == 0x2029
    ||| u == 0x202F
    ||| u == 0x205F
    ||| u == 0x3000
}

/// `s` without leading white space.
pub open spec fn trimmed_start(s: Seq<char>) -> Seq<char>
    decreases s.len(),
{
    if s.len() > 0 && is_white_space(s[0]) {
        trimmed_start(s.drop_first())
    } else {
        s
    }
}

/// `s` without trailing white space.
pub open spec fn trimmed_end(s: Seq<char>) -> Seq<char>
    decreases s.len(),
{
    if s.len() > 0 && is_white_space(s.last()) {
        trimmed_end(s.drop_last())
    } else {
        s
    }
}

/// `s` without leading and trailing white space.
pub open spec fn trimmed(s: Seq<char>) -> Seq<char> {
    trimmed_end(trimmed_start(s))
}

/// `str::trim` returns the text without leading and trailing white space, as
/// Unicode defines it.
pub assume_specification[ str::trim ](s: &str) -> (r: &str)
    ensures
        r@ == trimmed(s@),
;

/// The text that `str::to_lowercase` returns.
pub uninterp spec fn lowercase(s: Seq<char>) -> Seq<char>;

/// A character with the ASCII capitals `A` to `Z` replaced by `a` to `z`.
pub open spec fn ascii_lower(c: char) -> char {
    if 'A' <= c <= 'Z' {
        (c as u32 + 32) as char
    } else {
        c
    }
}

/// A text with its ASCII capitals replaced.
pub open spec fn ascii_lowercase(s: Seq<char>) -> Seq<char> {
    Seq::new(s.len(), |i: int| ascii_lower(s[i]))
}

/// The beginning of a text up to its first character that is not ASCII.
pub open spec fn ascii_start(s: Seq<char>) -> Seq<char>
    decreases s.len(),
{
    if s.len() > 0 && s[0] <= '\u{7f}' {
        seq![s[0]] + ascii_start(s.drop_first())
    } else {
        seq![]
    }
}

/// `str::to_lowercase` is a function of the text alone. On a text that is all
/// ASCII it replaces `A` to `Z` by `a` to `z` and keeps the rest. Where only the
/// beginning is ASCII, that becomes the beginning of the result in the same way;
/// what the Unicode mappings do to other characters is left unsaid.
pub assume_specification[ str::to_lowercase ](s: &str) -> (r: String)
    ensures
        r@ == lowercase(s@),
        is_ascii_chars(s@) ==> r@ == ascii_lowercase(s@),
        begins_with(r@, ascii_lowercase(ascii_start(s@))),
;

/// The kind that a trimmed lower-case name stands for.
pub open spec fn kind_of_normalized(n: Seq<char>) -> InstrumentKind {
    if begins_with(n, "square"@) || begins_with(n, "sq "@) {
        InstrumentKind::Square
    } else if begins_with(n, "noise"@) {
        InstrumentKind::Noise
    } else if begins_with(n, "progwave"@) || begins_with(n, "prog wave"@) || begins_with(
        n,
        "prog_wave"@,
    ) || begins_with(n, "programmable wave"@) || begins_with(n, "pwave"@) {
        InstrumentKind::ProgWave
    } else {
        InstrumentKind::Other
    }
}

/// The kind that a name stands for.
pub open spec fn kind_of_name(name: Seq<char>) -> InstrumentKind {
    kind_of_normalized(lowercase(trimmed(name)))
}

/// The kind that an ASCII name stands for.
pub open spec fn kind_of_ascii_name(name: Seq<char>) -> InstrumentKind {
    kind_of_normalized(ascii_lowercase(trimmed(name)))
}

/// `start` is too short to tell whether a text that begins with it begins with
/// `prefix`.
pub open spec fn is_cut(start: Seq<char>, prefix: Seq<char>) -> bool {
    start.len() < prefix.len() && begins_with(prefix, start)
}

/// The beginning `start` of a trimmed lower-case name settles what the name
/// stands for.
pub open spec fn settles(start: Seq<char>) -> bool {
    &&& !is_cut(start, "square"@)
    &&& !is_cut(start, "sq "@)
    &&& !is_cut(start, "noise"@)
    &&& !is_cut(start, "progwave"@)
    &&& !is_cut(start, "prog wave"@)
    &&& !is_cut(start, "prog_wave"@)
    &&& !is_cut(start, "programmable wave"@)
    &&& !is_cut(start, "pwave"@)
}

/// The ASCII beginning of a name, trimmed and in lower case.
pub open spec fn normalized_start(name: Seq<char>) -> Seq<char> {
    ascii_lowercase(ascii_start(trimmed(name)))
}

/// A beginning that is not cut tells whether a text begins with `prefix`.
proof fn lemma_start_tells(n: Seq<char>, start: Seq<char>, prefix: Seq<char>)
    requires
        begins_with(n, start),
        !is_cut(start, prefix),
    ensures
        begins_with(n, prefix) == begins_with(start, prefix),
{
    if prefix.len() <= start.len() {
        assert(start.take(prefix.len() as int) == n.take(prefix.len() as int));
    } else if begins_with(n, prefix) {
        assert(prefix.take(start.len() as int) == n.take(start.len() as int));
    }
}

/// A beginning that settles it stands for what the whole name stands for.
pub proof fn law_a_settling_beginning_counts(n: Seq<char>, start: Seq<char>)
    requires
        begins_with(n, start),
        settles(start),
    ensures
        kind_of_normalized(n) == kind_of_normalized(start),
{
    lemma_start_tells(n, start, "square"@);
    lemma_start_tells(n, start, "sq "@);
    lemma_start_tells(n, start, "noise"@);
    lemma_start_tells(n, start, "progwave"@);
    lemma_start_tells(n, start, "prog wave"@);
    lemma_start_tells(n, start, "prog_wave"@);
    lemma_start_tells(n, start, "programmable wave"@);
    lemma_start_tells(n, start, "pwave"@);
}

/// Classify a name that is trimmed and in lower case. Only the beginning of the
/// name counts.
pub fn classify_normalized(n: &str) -> (kind: InstrumentKind)
    ensures
        kind == kind_of_normalized(n@),
{
    if starts_with(n, "square") || starts_with(n, "sq ") {
        return InstrumentKind::Square;
    }
    if starts_with(n, "noise") {
        return InstrumentKind::Noise;
    }
    if starts_with(n, "progwave") || starts_with(n, "prog wave") || starts_with(n, "prog_wave")
        || starts_with(n, "programmable wave") || starts_with(n, "pwave") {
        return InstrumentKind::ProgWave;
    }
    InstrumentKind::Other
}

/// Classify a slot name, whatever its case and surrounding white space. A name
/// that does not look like a hardware channel is of kind `Other`. Where the name
/// is not all ASCII, its ASCII beginning still counts, if that settles the kind.
pub fn classify_name(name: &str) -> (kind: InstrumentKind)
    ensures
        kind == kind_of_name(name@),
        is_ascii_chars(name@) ==> kind == kind_of_ascii_name(name@),
        settles(normalized_start(name@)) ==> kind == kind_of_normalized(normalized_start(name@)),
{
    let trimmed_name = name.trim();
    proof {
        if is_ascii_chars(name@) {
            lemma_trimmed_is_ascii(name@);
        }
    }
    let n = trimmed_name.to_lowercase();
    proof {
        if settles(normalized_start(name@)) {
            law_a_settling_beginning_counts(n@, normalized_start(name@));
        }
    }
    classify_normalized(n.as_str())
}

/// The first slot for a program, if there is one.
pub open spec fn slot_for_program(slots: Seq<SlotModel>, program: u8) -> Option<SlotModel>
    decreases slots.len(),
{
    if slots.len() == 0 {
        None
    } else if slots[0].program == program {
        Some(slots[0])
    } else {
        slot_for_program(slots.drop_first(), program)
    }
}

/// The kind of the first slot for a program. A program without a slot is of kind
/// `Other`.
pub fn kind_for_program(slots: &[VoiceSlot], program: u8) -> (kind: InstrumentKind)
    ensures
        match slot_for_program(slot_models(slots@), program) {
            Some(slot) => {
                &&& kind == kind_of_name(slot.name)
                &&& is_ascii_chars(slot.name) ==> kind == kind_of_ascii_name(slot.name)
                &&& settles(normalized_start(slot.name)) ==> kind == kind_of_normalized(
                    normalized_start(slot.name),
                )
            },
            None => kind == InstrumentKind::Other,
        },
{
    let ghost models = slot_models(slots@);
    assert(models.skip(0) == models);
    let mut i: usize = 0;
    while i < slots.len()
        invariant
            i <= slots.len(),
            models == slot_models(slots@),
            slot_for_program(models, program) == slot_for_program(models.skip(i as int), program),
        decreases slots.len() - i,
    {
        assert(models.skip(i as int)[0] == slots@[i as int]@);
        if slots[i].program == program {
            return classify_name(slots[i].name.as_str());
        }
        assert(models.skip(i as int).drop_first() == models.skip(i + 1));
        i += 1;
    }
    InstrumentKind::Other
}

/// Trimming keeps ASCII texts ASCII.
proof fn lemma_trimmed_is_ascii(s: Seq<char>)
    requires
        is_ascii_chars(s),
    ensures
        is_ascii_chars(trimmed(s)),
{
    lemma_trimmed_start_is_ascii(s);
    lemma_trimmed_end_is_ascii(trimmed_start(s));
}

proof fn lemma_trimmed_start_is_ascii(s: Seq<char>)
    requires
        is_ascii_chars(s),
    ensures
        is_ascii_chars(trimmed_start(s)),
    decreases s.len(),
{
    if s.len() > 0 && is_white_space(s[0]) {
        lemma_trimmed_start_is_ascii(s.drop_first());
    }
}

proof fn lemma_trimmed_end_is_ascii(s: Seq<char>)
    requires
        is_ascii_chars(s),
    ensures
        is_ascii_chars(trimmed_end(s)),
    decreases s.len(),
{
    if s.len() > 0 && is_white_space(s.last()) {
        lemma_trimmed_end_is_ascii(s.drop_last());
    }
}

/// All characters are white space.
pub open spec fn is_blank(s: Seq<char>) -> bool {
    forall|i: int| 0 <= i < s.len() ==> is_white_space(#[trigger] s[i])
}

/// White space in front of a text is trimmed away.
proof fn lemma_leading_blank(blank: Seq<char>, s: Seq<char>)
    requires
        is_blank(blank),
    ensures
        trimmed_start(blank + s) == trimmed_start(s),
    decreases blank.len(),
{
    if blank.len() > 0 {
        assert((blank + s)[0] == blank[0]);
        assert((blank + s).drop_first() == blank.drop_first() + s);
        lemma_leading_blank(blank.drop_first(), s);
    } else {
        assert(blank + s == s);
    }
}

/// White space behind a text is trimmed away.
proof fn lemma_trailing_blank(s: Seq<char>, blank: Seq<char>)
    requires
        is_blank(blank),
    ensures
        trimmed_end(s + blank) == trimmed_end(s),
    decreases blank.len(),
{
    if blank.len() > 0 {
        assert((s + blank).last() == blank.last());
        assert((s + blank).drop_last() == s + blank.drop_last());
        lemma_trailing_blank(s, blank.drop_last());
    } else {
        assert(s + blank == s);
    }
}

/// White space behind a text stays out of the way of trimming its front.
proof fn lemma_trimmed_start_of_padded(s: Seq<char>, blank: Seq<char>)
    requires
        is_blank(blank),
    ensures
        trimmed(s + blank) == trimmed(s),
    decreases s.len(),
{
    if s.len() == 0 {
        assert(s + blank == blank + s);
        lemma_leading_blank(blank, s);
    } else if is_white_space(s[0]) {
        assert((s + blank)[0] == s[0]);
        assert((s + blank).drop_first() == s.drop_first() + blank);
        lemma_trimmed_start_of_padded(s.drop_first(), blank);
    } else {
        assert((s + blank)[0] == s[0]);
        lemma_trailing_blank(s, blank);
    }
}

/// White space around a name does not change what it stands for.
pub proof fn law_padding_does_not_matter(before: Seq<char>, name: Seq<char>, after: Seq<char>)
    requires
        is_blank(before),
        is_blank(after),
    ensures
        kind_of_name(before + name + after) == kind_of_name(name),
        kind_of_ascii_name(before + name + after) == kind_of_ascii_name(name),
{
    lemma_trimmed_start_of_padded(before + name, after);
    lemma_leading_blank(before, name);
}

/// ASCII case does not touch white space.
proof fn lemma_trimming_and_case_commute(s: Seq<char>)
    ensures
        trimmed(ascii_lowercase(s)) == ascii_lowercase(trimmed(s)),
{
    lemma_trimming_start_and_case_commute(s);
    lemma_trimming_end_and_case_commute(trimmed_start(s));
}

proof fn lemma_trimming_start_and_case_commute(s: Seq<char>)
    ensures
        trimmed_start(ascii_lowercase(s)) == ascii_lowercase(trimmed_start(s)),
    decreases s.len(),
{
    if s.len() > 0 && is_white_space(s[0]) {
        assert(ascii_lowercase(s).drop_first() == ascii_lowercase(s.drop_first()));
        lemma_trimming_start_and_case_commute(s.drop_first());
    }
}

proof fn lemma_trimming_end_and_case_commute(s: Seq<char>)
    ensures
        trimmed_end(ascii_lowercase(s)) == ascii_lowercase(trimmed_end(s)),
    decreases s.len(),
{
    if s.len() > 0 && is_white_space(s.last()) {
        assert(ascii_lowercase(s).drop_last() == ascii_lowercase(s.drop_last()));
        lemma_trimming_end_and_case_commute(s.drop_last());
    }
}

/// Two ASCII names that differ in case only stand for the same kind.
pub proof fn law_ascii_case_does_not_matter(a: Seq<char>, b: Seq<char>)
    requires
        ascii_lowercase(a) == ascii_lowercase(b),
    ensures
        kind_of_ascii_name(a) == kind_of_ascii_name(b),
{
    lemma_trimming_and_case_commute(a);
    lemma_trimming_and_case_commute(b);
}

/// A normalized name that begins with none of `s`, `n` and `p` is of kind
/// `Other`, whatever follows.
pub proof fn law_only_the_beginning_counts(n: Seq<char>)
    requires
        n.len() == 0 || (n[0] != 's' && n[0] != 'n' && n[0] != 'p'),
    ensures
        kind_of_normalized(n) == InstrumentKind::Other,
{
    reveal_strlit("square");
    reveal_strlit("sq ");
    reveal_strlit("noise");
    reveal_strlit("progwave");
    reveal_strlit("prog wave");
    reveal_strlit("prog_wave");
    reveal_strlit("programmable wave");
    reveal_strlit("pwave");
    assert forall|prefix: Seq<char>| #[trigger]
        begins_with(n, prefix) && prefix.len() > 0 implies n.len() > 0 && n[0] == prefix[0] by {
        assert(n.take(prefix.len() as int)[0] == n[0]);
    }
}

/// What a trimmed lower-case name stands for: each kind has its beginnings, and a
/// name that has none of them is of kind `Other`.
pub proof fn law_beginnings_of_the_kinds(n: Seq<char>)
    ensures
        kind_of_normalized(n) == InstrumentKind::Square <==> begins_with(n, "square"@)
            || begins_with(n, "sq "@),
        kind_of_normalized(n) == InstrumentKind::Noise <==> begins_with(n, "noise"@),
        kind_of_normalized(n) == InstrumentKind::ProgWave <==> begins_with(n, "progwave"@)
            || begins_with(n, "prog wave"@) || begins_with(n, "prog_wave"@) || begins_with(
            n,
            "programmable wave"@,
        ) || begins_with(n, "pwave"@),
{
    reveal_strlit("square");
    reveal_strlit("sq ");
    reveal_strlit("noise");
    reveal_strlit("progwave");
    reveal_strlit("prog wave");
    reveal_strlit("prog_wave");
    reveal_strlit("programmable wave");
    reveal_strlit("pwave");
    assert forall|prefix: Seq<char>| #[trigger]
        begins_with(n, prefix) && prefix.len() > 0 implies n[0] == prefix[0] by {
        assert(n.take(prefix.len() as int)[0] == n[0]);
    }
}

/// A name stands for what it stands for once white space is trimmed and capitals
/// are lowered, and nothing else is done to it.
pub proof fn law_names_are_normalized(name: Seq<char>)
    ensures
        kind_of_name(name) == kind_of_normalized(lowercase(trimmed(name))),
        kind_of_ascii_name(name) == kind_of_normalized(ascii_lowercase(trimmed(name))),
        normalized_start(name) == ascii_lowercase(ascii_start(trimmed(name))),
{
}

/// A text is its trimmed part with white space around it, and the trimmed part
/// neither begins nor ends with white space.
pub proof fn law_what_trimming_leaves(s: Seq<char>) -> (parts: (Seq<char>, Seq<char>))
    ensures
        s == parts.0 + trimmed(s) + parts.1,
        is_blank(parts.0),
        is_blank(parts.1),
        trimmed(s).len() > 0 ==> !is_white_space(trimmed(s)[0]) && !is_white_space(
            trimmed(s).last(),
        ),
{
    let front = lemma_trimmed_start_parts(s);
    let back = lemma_trimmed_end_parts(trimmed_start(s));
    assert(s == front + trimmed(s) + back);
    if trimmed(s).len() > 0 {
        assert(trimmed(s)[0] == trimmed_start(s)[0]);
    }
    (front, back)
}

proof fn lemma_trimmed_start_parts(s: Seq<char>) -> (front: Seq<char>)
    ensures
        s == front + trimmed_start(s),
        is_blank(front),
        trimmed_start(s).len() > 0 ==> !is_white_space(trimmed_start(s)[0]),
    decreases s.len(),
{
    if s.len() > 0 && is_white_space(s[0]) {
        let rest = lemma_trimmed_start_parts(s.drop_first());
        let front = seq![s[0]] + rest;
        assert(s == seq![s[0]] + s.drop_first());
        assert(s == front + trimmed_start(s));
        front
    } else {
        assert(s == Seq::<char>::empty() + s);
        Seq::empty()
    }
}

proof fn lemma_trimmed_end_parts(s: Seq<char>) -> (back: Seq<char>)
    ensures
        s == trimmed_end(s) + back,
        is_blank(back),
        trimmed_end(s).len() > 0 ==> !is_white_space(trimmed_end(s).last()),
    decreases s.len(),
{
    if s.len() > 0 && is_white_space(s.last()) {
        let rest = lemma_trimmed_end_parts(s.drop_last());
        let back = rest.push(s.last());
        assert(s == s.drop_last().push(s.last()));
        assert(s == trimmed_end(s) + back);
        back
    } else {
        assert(s == s + Seq::<char>::empty());
        Seq::empty()
    }
}

/// The slot for a program is the first one with that program; there is none
/// exactly if no slot has it.
pub proof fn law_the_first_slot_counts(slots: Seq<SlotModel>, program: u8, i: int)
    requires
        0 <= i <= slots.len(),
        forall|k: int| 0 <= k < i ==> (#[trigger] slots[k]).program != program,
    ensures
        i < slots.len() && slots[i].program == program ==> slot_for_program(slots, program) == Some(
            slots[i],
        ),
        i == slots.len() ==> slot_for_program(slots, program) is None,
    decreases i,
{
    if i > 0 {
        let rest = slots.drop_first();
        assert(slots[0].program != program);
        assert forall|k: int| 0 <= k < i - 1 implies (#[trigger] rest[k]).program != program by {
            assert(rest[k] == slots[k + 1]);
        }
        law_the_first_slot_counts(rest, program, i - 1);
    }
}

} // verus!
