//! UTF-16: what text is as 16-bit units, and what text units stand for.

use vstd::prelude::*;

verus! {

/// Whether a unit is the first half of a surrogate pair.
pub open spec fn is_high_surrogate(unit: u16) -> bool {
    0xD800 <= unit <= 0xDBFF
}

/// Whether a unit is the second half of a surrogate pair.
pub open spec fn is_low_surrogate(unit: u16) -> bool {
    0xDC00 <= unit <= 0xDFFF
}

/// The units of one character: the code point itself below U+10000, else a surrogate pair.
pub open spec fn utf16_char(c: char) -> Seq<u16> {
    let v = c as int;
    if v < 0x1_0000 {
        seq![v as u16]
    } else {
        seq![(0xD800 + (v - 0x1_0000) / 0x400) as u16, (0xDC00 + (v - 0x1_0000) % 0x400) as u16]
    }
}

/// The units of a text.
pub open spec fn utf16(text: Seq<char>) -> Seq<u16>
    decreases text.len(),
{
    if text.len() == 0 {
        Seq::empty()
    } else {
        utf16_char(text[0]) + utf16(text.skip(1))
    }
}

/// The character that a surrogate pair stands for.
pub open spec fn surrogate_pair(high: u16, low: u16) -> char {
    (0x1_0000 + 0x400 * (high - 0xD800) + (low - 0xDC00)) as char
}

/// The text that units stand for, with U+FFFD for each unpaired surrogate.
pub open spec fn utf16_lossy(units: Seq<u16>) -> Seq<char>
    decreases units.len(),
{
    if units.len() == 0 {
        Seq::empty()
    } else if units.len() > 1 && is_high_surrogate(units[0]) && is_low_surrogate(units[1]) {
        seq![surrogate_pair(units[0], units[1])] + utf16_lossy(units.skip(2))
    } else if is_high_surrogate(units[0]) || is_low_surrogate(units[0]) {
        seq!['\u{FFFD}'] + utf16_lossy(units.skip(1))
    } else {
        seq![units[0] as char] + utf16_lossy(units.skip(1))
    }
}

/// `String::from_utf16_lossy`: decodes UTF-16, with U+FFFD in place of each unpaired surrogate.
#[verifier::external_body]
pub(crate) fn string_from_utf16_lossy(units: &[u16]) -> (text: String)
    ensures
        text@ == utf16_lossy(units@),
{
    String::from_utf16_lossy(units)
}

/// Appends the units of `text` to `out`.
pub fn push_utf16(out: &mut Vec<u16>, text: &str)
    ensures
        final(out)@ == old(out)@ + utf16(text@),
{
    let ghost start = out@;
    proof {
        assert(text@.take(0) =~= Seq::<char>::empty());
    }
    for c in it: text.chars()
        invariant
            it.seq() == text@,
            out@ =~= start + utf16(text@.take(it.index() as int)),
    {
        let ghost i = it.index() as int;
        proof {
            lemma_char_range(c);
        }
        let v: u32 = c as u32;
        if v < 0x1_0000 {
            out.push(v as u16);
        } else {
            out.push((0xD800 + (v - 0x1_0000) / 0x400) as u16);
            out.push((0xDC00 + (v - 0x1_0000) % 0x400) as u16);
        }
        proof {
            lemma_utf16_push(text@.take(i), c);
            assert(text@.take(i + 1) =~= text@.take(i).push(c));
        }
    }
    proof {
        assert(text@.take(text@.len() as int) =~= text@);
    }
}

/// The numbers that characters have.
pub proof fn lemma_char_range(c: char)
    ensures
        0 <= c as int <= 0x10_FFFF,
        !(0xD800 <= c as int <= 0xDFFF),
        (c as int) as char == c,
{
}

/// Appending a character appends its units.
pub proof fn lemma_utf16_push(text: Seq<char>, c: char)
    ensures
        utf16(text.push(c)) == utf16(text) + utf16_char(c),
    decreases text.len(),
{
    let more = text.push(c);
    if text.len() == 0 {
        assert(more.skip(1) =~= Seq::<char>::empty());
        assert(utf16(more.skip(1)) =~= Seq::<u16>::empty());
        assert(utf16(more) =~= utf16_char(c));
        assert(utf16(text) + utf16_char(c) =~= utf16_char(c));
    } else {
        lemma_utf16_push(text.skip(1), c);
        assert(more.skip(1) =~= text.skip(1).push(c));
        assert(utf16(more) =~= utf16(text) + utf16_char(c));
    }
}

/// Text reads back from its UTF-16 units as it was.
pub proof fn law_utf16_reads_back(text: Seq<char>)
    ensures
        utf16_lossy(utf16(text)) == text,
    decreases text.len(),
{
    let units = utf16(text);
    if text.len() > 0 {
        let rest = utf16(text.skip(1));
        law_utf16_reads_back(text.skip(1));
        let v = text[0] as int;
        lemma_char_range(text[0]);
        if v < 0x1_0000 {
            assert(units.skip(1) =~= rest);
            assert(units[0] as char == text[0]);
        } else {
            assert(units.skip(2) =~= rest);
            assert(surrogate_pair(units[0], units[1]) == text[0]);
        }
        assert(seq![text[0]] + text.skip(1) =~= text);
    } else {
        assert(text =~= Seq::<char>::empty());
    }
}

/// A character below U+10000 is one unit, its code point. Any other is a surrogate pair, whose
/// halves hold the code point less 0x10000 in ten bits each.
pub proof fn law_units_of_a_character(c: char)
    ensures
        (c as int) < 0x1_0000 ==> utf16_char(c).len() == 1 && utf16_char(c)[0] == c as int,
        c as int >= 0x1_0000 ==> {
            &&& utf16_char(c).len() == 2
            &&& 0xD800 <= utf16_char(c)[0] < 0xDC00
            &&& 0xDC00 <= utf16_char(c)[1] < 0xE000
            &&& c as int - 0x1_0000 == 0x400 * (utf16_char(c)[0] - 0xD800) + (utf16_char(c)[1]
                - 0xDC00)
        },
{
    lemma_char_range(c);
}

/// The units of texts that follow one another are those of the one, then those of the other. No
/// text has no units, and a single character has its own.
pub proof fn law_utf16_goes_character_by_character(a: Seq<char>, b: Seq<char>, c: char)
    ensures
        utf16(a + b) == utf16(a) + utf16(b),
        utf16(Seq::empty()).len() == 0,
        utf16(seq![c]) == utf16_char(c),
    decreases b.len(),
{
    assert(Seq::<char>::empty().push(c) =~= seq![c]);
    lemma_utf16_push(Seq::empty(), c);
    assert(utf16(Seq::empty()) + utf16_char(c) =~= utf16_char(c));
    if b.len() == 0 {
        assert(a + b =~= a);
        assert(utf16(a) + utf16(b) =~= utf16(a));
    } else {
        let front = b.drop_last();
        law_utf16_goes_character_by_character(a, front, c);
        lemma_utf16_push(a + front, b.last());
        lemma_utf16_push(front, b.last());
        assert(a + b =~= (a + front).push(b.last()));
        assert(b =~= front.push(b.last()));
        assert(utf16(a + b) =~= utf16(a) + utf16(b));
    }
}

/// Units are read from the left. A unit outside the surrogates is the character of its number, a
/// high surrogate before a low one is the character of the pair, and any other surrogate is
/// U+FFFD, after which reading goes on at the next unit.
pub proof fn law_units_are_read_from_the_left(unit: u16, rest: Seq<u16>)
    ensures
        utf16_lossy(Seq::empty()).len() == 0,
        ({
            let text = utf16_lossy(seq![unit] + rest);
            let pair = 0xD800 <= unit < 0xDC00 && rest.len() > 0 && 0xDC00 <= rest[0] < 0xE000;
            &&& text.len() > 0
            &&& !(0xD800 <= unit < 0xE000) ==> text[0] as int == unit && text.skip(1)
                == utf16_lossy(rest)
            &&& pair ==> text[0] as int == 0x1_0000 + 0x400 * (unit - 0xD800) + (rest[0] - 0xDC00)
                && text.skip(1) == utf16_lossy(rest.skip(1))
            &&& 0xD800 <= unit < 0xE000 && !pair ==> text[0] as int == 0xFFFD && text.skip(1)
                == utf16_lossy(rest)
        }),
{
    let units = seq![unit] + rest;
    let text = utf16_lossy(units);
    assert(units.skip(1) =~= rest);
    if rest.len() > 0 {
        assert(units[1] == rest[0]);
        assert(units.skip(2) =~= rest.skip(1));
    }
    if 0xD800 <= unit < 0xDC00 && rest.len() > 0 && 0xDC00 <= rest[0] < 0xE000 {
        assert(text.skip(1) =~= utf16_lossy(rest.skip(1)));
    } else {
        assert(text.skip(1) =~= utf16_lossy(rest));
    }
}

/// Text without NUL has no zero unit.
pub proof fn lemma_utf16_has_no_zero(text: Seq<char>)
    requires
        !text.contains('\0'),
    ensures
        !utf16(text).contains(0),
    decreases text.len(),
{
    if text.len() > 0 {
        let rest = text.skip(1);
        assert forall|i: int| 0 <= i < rest.len() implies rest[i] != '\0' by {
            assert(rest[i] == text[i + 1]);
        }
        lemma_utf16_has_no_zero(rest);
        let head = utf16_char(text[0]);
        assert(text[0] != '\0');
        lemma_char_range(text[0]);
        assert forall|i: int| 0 <= i < utf16(text).len() implies utf16(text)[i] != 0 by {
            if i >= head.len() {
                assert(utf16(text)[i] == utf16(rest)[i - head.len()]);
            }
        }
    }
}

/// Units without zero stand for text without NUL.
pub proof fn lemma_utf16_lossy_has_no_nul(units: Seq<u16>)
    requires
        !units.contains(0),
    ensures
        !utf16_lossy(units).contains('\0'),
    decreases units.len(),
{
    if units.len() > 0 {
        let pair = units.len() > 1 && is_high_surrogate(units[0]) && is_low_surrogate(units[1]);
        let n: int = if pair { 2 } else { 1 };
        let rest = units.skip(n);
        assert forall|i: int| 0 <= i < rest.len() implies rest[i] != 0 by {
            assert(rest[i] == units[i + n]);
        }
        lemma_utf16_lossy_has_no_nul(rest);
        assert(units[0] != 0);
        let text = utf16_lossy(units);
        assert forall|i: int| 0 <= i < text.len() implies text[i] != '\0' by {
            if i > 0 {
                assert(text[i] == utf16_lossy(rest)[i - 1]);
            } else if !pair && !is_high_surrogate(units[0]) && !is_low_surrogate(units[0]) {
                assert(text[0] as int == units[0]);
            }
        }
    }
}

} // verus!
