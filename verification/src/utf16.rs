//! UTF-16, as Windows writes names.

use vstd::prelude::*;

verus! {

/// `char::from_u32` gives the character with the given scalar value, and `None` for a number that
/// is no scalar value: a surrogate, or one above 0x10ffff.
pub assume_specification[ char::from_u32 ](n: u32) -> (r: Option<char>)
    ensures
        r == (if vstd::utf8::is_scalar(n) {
            Some(n as char)
        } else {
            None
        }),
;

/// The replacement character, which stands for what could not be read.
pub const REPLACEMENT: char = '\u{fffd}';

pub open spec fn is_high_surrogate(unit: u16) -> bool {
    0xd800 <= unit < 0xdc00
}

pub open spec fn is_low_surrogate(unit: u16) -> bool {
    0xdc00 <= unit < 0xe000
}

/// The units that stand for one character: one unit, or a high and a low surrogate.
pub open spec fn char_units(c: char) -> Seq<u16> {
    let n = c as u32;
    if n < 0x1_0000 {
        seq![n as u16]
    } else {
        seq![
            (0xd800 + (n - 0x1_0000) / 0x400) as u16,
            (0xdc00 + (n - 0x1_0000) % 0x400) as u16,
        ]
    }
}

/// The units that stand for a text.
pub open spec fn encoded(s: Seq<char>) -> Seq<u16>
    decreases s.len(),
{
    if s.len() == 0 {
        Seq::empty()
    } else {
        char_units(s[0]) + encoded(s.skip(1))
    }
}

/// The text that units stand for; a surrogate without its partner stands for the replacement
/// character.
pub open spec fn decoded(units: Seq<u16>) -> Seq<char>
    decreases units.len(),
{
    if units.len() == 0 {
        Seq::empty()
    } else if units.len() >= 2 && is_high_surrogate(units[0]) && is_low_surrogate(units[1]) {
        let n = 0x1_0000 + (units[0] - 0xd800) * 0x400 + (units[1] - 0xdc00);
        seq![(n as u32) as char] + decoded(units.skip(2))
    } else if is_high_surrogate(units[0]) || is_low_surrogate(units[0]) {
        seq![REPLACEMENT] + decoded(units.skip(1))
    } else {
        seq![(units[0] as u32) as char] + decoded(units.skip(1))
    }
}

/// Reading back the units of a text gives the text.
pub proof fn law_utf16_read_back(s: Seq<char>)
    ensures
        decoded(encoded(s)) == s,
    decreases s.len(),
{
    if s.len() > 0 {
        law_utf16_read_back(s.skip(1));
        let c: char = s[0];
        let n: u32 = c as u32;
        let units = encoded(s);
        vstd::utf8::char_u32_cast(c, n);
        vstd::utf8::char_is_scalar(c);
        assert(units =~= char_units(c) + encoded(s.skip(1)));
        assert(s =~= seq![c] + s.skip(1));
        if n < 0x1_0000 {
            assert(units[0] == n as u16);
            assert(units.skip(1) =~= encoded(s.skip(1)));
        } else {
            assert(units[0] == 0xd800 + (n - 0x1_0000) / 0x400);
            assert(units[1] == 0xdc00 + (n - 0x1_0000) % 0x400);
            assert(units.skip(2) =~= encoded(s.skip(1)));
        }
    }
}

/// The units that stand for a text.
pub fn encode(s: &[char]) -> (r: Vec<u16>)
    ensures
        r@ == encoded(s@),
{
    let mut out: Vec<u16> = Vec::new();
    let mut i: usize = 0;
    assert(s@.skip(0) =~= s@);
    while i < s.len()
        invariant
            i <= s@.len(),
            out@ + encoded(s@.skip(i as int)) == encoded(s@),
        decreases s.len() - i,
    {
        let ghost before = out@;
        let c: char = s[i];
        let n: u32 = c as u32;
        proof {
            vstd::utf8::char_is_scalar(c);
            assert(s@.skip(i as int).skip(1) =~= s@.skip(i + 1));
        }
        if n < 0x1_0000 {
            out.push(n as u16);
        } else {
            out.push((0xd800 + (n - 0x1_0000) / 0x400) as u16);
            out.push((0xdc00 + (n - 0x1_0000) % 0x400) as u16);
        }
        proof {
            let rest = encoded(s@.skip(i + 1));
            assert(out@ =~= before + char_units(c));
            assert(before + (char_units(c) + rest) =~= out@ + rest);
        }
        i += 1;
    }
    assert(out@ + Seq::<u16>::empty() =~= out@);
    out
}

/// The text that units stand for; a surrogate without its partner stands for the replacement
/// character.
pub fn decode(units: &[u16]) -> (r: Vec<char>)
    ensures
        r@ == decoded(units@),
{
    let mut out: Vec<char> = Vec::new();
    let mut i: usize = 0;
    assert(units@.skip(0) =~= units@);
    while i < units.len()
        invariant
            i <= units@.len(),
            out@ + decoded(units@.skip(i as int)) == decoded(units@),
        decreases units.len() - i,
    {
        let ghost before = out@;
        let ghost rest = units@.skip(i as int);
        let first: u16 = units[i];
        let paired: bool = i + 1 < units.len() && 0xd800 <= first && first < 0xdc00 && 0xdc00
            <= units[i + 1] && units[i + 1] < 0xe000;
        let n: u32 = if paired {
            0x1_0000 + (first as u32 - 0xd800) * 0x400 + (units[i + 1] as u32 - 0xdc00)
        } else {
            first as u32
        };
        let c: char = match char::from_u32(n) {
            Some(c) => c,
            None => REPLACEMENT,
        };
        out.push(c);
        if paired {
            assert(rest.skip(2) =~= units@.skip(i + 2));
            assert(decoded(rest) == seq![c] + decoded(units@.skip(i + 2)));
            assert(before + (seq![c] + decoded(units@.skip(i + 2))) =~= out@ + decoded(
                units@.skip(i + 2),
            ));
            i += 2;
        } else {
            assert(rest.skip(1) =~= units@.skip(i + 1));
            assert(decoded(rest) == seq![c] + decoded(units@.skip(i + 1)));
            assert(before + (seq![c] + decoded(units@.skip(i + 1))) =~= out@ + decoded(
                units@.skip(i + 1),
            ));
            i += 1;
        }
    }
    assert(out@ + Seq::<char>::empty() =~= out@);
    out
}

/// A character of the first plane is one unit of its own number, and any other is two: the upper and
/// the lower ten bits of what its number is above that plane. A unit that should have a partner and
/// has none stands for the replacement character.
pub proof fn law_units_are_those_of_utf16(c: char, unit: u16, rest: Seq<u16>)
    ensures
        (c as u32) < 0x1_0000 ==> char_units(c).len() == 1 && char_units(c)[0] == c as u32,
        c as u32 >= 0x1_0000 ==> char_units(c).len() == 2 && 0xd800 <= char_units(c)[0] < 0xdc00
            <= char_units(c)[1] < 0xe000 && (char_units(c)[0] - 0xd800) * 0x400 + (char_units(c)[1]
            - 0xdc00) + 0x1_0000 == c as u32,
        0xdc00 <= unit < 0xe000 ==> decoded(seq![unit] + rest) == seq!['\u{fffd}'] + decoded(rest),
        0xd800 <= unit < 0xdc00 && (rest.len() == 0 || !(0xdc00 <= rest[0] < 0xe000)) ==> decoded(
            seq![unit] + rest,
        ) == seq!['\u{fffd}'] + decoded(rest),
        !(0xd800 <= unit < 0xe000) ==> decoded(seq![unit] + rest) == seq![(unit as u32) as char]
            + decoded(rest),
{
    let all = seq![unit] + rest;
    assert(all[0] == unit);
    assert(all.skip(1) =~= rest);
    if rest.len() > 0 {
        assert(all[1] == rest[0]);
    }
}

/// The units of a text are those of its characters, one behind the other, and a pair of units is read
/// as the character that it stands for.
pub proof fn law_texts_are_encoded_character_by_character(
    c: char,
    s: Seq<char>,
    high: u16,
    low: u16,
    rest: Seq<u16>,
)
    ensures
        encoded(Seq::empty()) == Seq::<u16>::empty(),
        encoded(seq![c] + s) == char_units(c) + encoded(s),
        0xd800 <= high < 0xdc00 <= low < 0xe000 ==> decoded(seq![high, low] + rest) == seq![
            (((high - 0xd800) * 0x400 + (low - 0xdc00) + 0x1_0000) as u32) as char,
        ] + decoded(rest),
{
    assert((seq![c] + s).skip(1) =~= s);
    assert((seq![c] + s)[0] == c);
    let all = seq![high, low] + rest;
    assert(all[0] == high && all[1] == low);
    assert(all.skip(2) =~= rest);
}

} // verus!
