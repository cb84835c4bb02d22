//! UTF-16, the strings of the Windows API.

use crate::text::chars_of;
use vstd::prelude::*;

verus! {

/// The character of a number that is one: up to `0x10FFFF`, and no surrogate.
pub open spec fn char_numbered(n: u32) -> Option<char> {
    if n <= 0x10_ffff && !(0xd800 <= n <= 0xdfff) {
        Some(n as char)
    } else {
        None
    }
}

/// `char::from_u32` gives the character of a number that is one, up to `0x10FFFF`
/// and no surrogate, and `None` for any other number.
pub assume_specification[ char::from_u32 ](n: u32) -> (r: Option<char>)
    ensures
        r == char_numbered(n),
;

/// The units of one character: itself, or a pair of surrogates.
pub open spec fn units_of(c: char) -> Seq<u16> {
    let n = c as int;
    if n < 0x1_0000 {
        seq![n as u16]
    } else {
        seq![
            (0xd800 + (n - 0x1_0000) / 0x400) as u16,
            (0xdc00 + (n - 0x1_0000) % 0x400) as u16,
        ]
    }
}

/// The units of a string.
pub open spec fn encoded(s: Seq<char>) -> Seq<u16>
    decreases s.len(),
{
    if s.len() == 0 {
        Seq::empty()
    } else {
        encoded(s.drop_last()) + units_of(s.last())
    }
}

/// Appends the units of `c`.
fn push_units(w: &mut Vec<u16>, c: char)
    ensures
        final(w)@ == old(w)@ + units_of(c),
{
    let n: u32 = c as u32;
    if n < 0x1_0000 {
        w.push(n as u16);
    } else {
        w.push((0xd800 + (n - 0x1_0000) / 0x400) as u16);
        w.push((0xdc00 + (n - 0x1_0000) % 0x400) as u16);
    }
    assert(w@ =~= old(w)@ + units_of(c));
}

/// `s` as UTF-16, with a null at the end.
pub fn wide(s: &str) -> (w: Vec<u16>)
    ensures
        w@ == encoded(s@).push(0),
{
    let chars = chars_of(s);
    let mut w: Vec<u16> = Vec::new();
    let mut i: usize = 0;
    assert(s@.take(0) =~= Seq::<char>::empty());
    while i < chars.len()
        invariant
            chars@ == s@,
            i <= chars@.len(),
            w@ == encoded(s@.take(i as int)),
        decreases chars@.len() - i,
    {
        push_units(&mut w, chars[i]);
        assert(s@.take(i + 1).drop_last() =~= s@.take(i as int));
        i = i + 1;
    }
    assert(s@.take(i as int) =~= s@);
    w.push(0);
    w
}

/// The first half of a surrogate pair.
pub open spec fn is_high(u: u16) -> bool {
    0xd800 <= u < 0xdc00
}

/// The second half of a surrogate pair.
pub open spec fn is_low(u: u16) -> bool {
    0xdc00 <= u < 0xe000
}

/// The character that stands for a unit that is none.
pub open spec fn replacement() -> char {
    0xfffd as char
}

/// The first character that these units hold, and how many units it takes: a
/// surrogate without its other half is replaced.
pub open spec fn first_char(u: Seq<u16>) -> (char, int) {
    if !is_high(u[0]) && !is_low(u[0]) {
        (u[0] as char, 1)
    } else if is_high(u[0]) && u.len() > 1 && is_low(u[1]) {
        (((u[0] - 0xd800) * 0x400 + (u[1] - 0xdc00) + 0x1_0000) as char, 2)
    } else {
        (replacement(), 1)
    }
}

/// The string that these units hold, with what is no character replaced.
pub open spec fn decoded(u: Seq<u16>) -> Seq<char>
    decreases u.len(),
{
    if u.len() == 0 {
        Seq::empty()
    } else {
        let (c, n) = first_char(u);
        seq![c] + decoded(u.skip(n))
    }
}

/// The character of a number that is one.
fn char_of(n: u32) -> (c: char)
    requires
        n <= 0x10_ffff,
        !(0xd800 <= n <= 0xdfff),
    ensures
        c == n as char,
{
    match char::from_u32(n) {
        Some(c) => c,
        None => '\u{fffd}',
    }
}

/// The first character that these units hold, and how many units it takes.
fn decode_first(u: u16, v: Option<u16>) -> (r: (char, usize))
    ensures
        ({
            let units = match v {
                Some(v) => seq![u, v],
                None => seq![u],
            };
            (r.0, r.1 as int) == first_char(units)
        }),
{
    if u < 0xd800 || u >= 0xe000 {
        return (char_of(u as u32), 1);
    }
    match v {
        Some(v) => if u < 0xdc00 && 0xdc00 <= v && v < 0xe000 {
            let m: u32 = (u as u32 - 0xd800) * 0x400 + (v as u32 - 0xdc00) + 0x1_0000;
            return (char_of(m), 2);
        },
        None => {},
    }
    ('\u{fffd}', 1)
}

/// The string that `units` hold, with what is no character replaced.
pub fn from_wide_lossy(units: &[u16]) -> (s: String)
    ensures
        s@ == decoded(units@),
{
    let mut s = String::new();
    let mut i: usize = 0;
    assert(units@.skip(0) =~= units@);
    while i < units.len()
        invariant
            i <= units@.len(),
            s@ + decoded(units@.skip(i as int)) == decoded(units@),
        decreases units@.len() - i,
    {
        let ghost rest = units@.skip(i as int);
        let ghost before = s@;
        let next: Option<u16> = if i + 1 < units.len() {
            Some(units[i + 1])
        } else {
            None
        };
        let (c, n) = decode_first(units[i], next);
        s.push(c);
        proof {
            assert(rest[0] == units@[i as int]);
            if i + 1 < units@.len() {
                assert(rest[1] == units@[i + 1]);
            }
            assert(first_char(rest) == (c, n as int));
            assert(rest.skip(n as int) =~= units@.skip(i + n));
            assert(s@ + decoded(units@.skip(i + n)) =~= before + decoded(rest));
        }
        i = i + n;
    }
    assert(units@.skip(i as int) =~= Seq::<u16>::empty());
    assert(s@ + decoded(units@.skip(i as int)) =~= s@);
    s
}

proof fn lemma_decode_first(c: char, rest: Seq<u16>)
    ensures
        decoded(units_of(c) + rest) == seq![c] + decoded(rest),
{
    let u = units_of(c) + rest;
    let n = units_of(c).len() as int;
    assert(u.skip(n) =~= rest);
    assert(first_char(u) == (c, n));
}

proof fn lemma_encoded_front(c: char, s: Seq<char>)
    ensures
        encoded(seq![c] + s) == units_of(c) + encoded(s),
    decreases s.len(),
{
    let t = seq![c] + s;
    if s.len() == 0 {
        assert(t.drop_last() =~= Seq::<char>::empty());
        assert(t.last() == c);
        assert(encoded(t.drop_last()) =~= Seq::<u16>::empty());
        assert(encoded(t) =~= units_of(c) + encoded(s));
    } else {
        assert(t.drop_last() =~= seq![c] + s.drop_last());
        lemma_encoded_front(c, s.drop_last());
        assert(encoded(t) =~= units_of(c) + encoded(s));
    }
}

/// Decoding what was encoded gives the string back.
pub proof fn law_utf16_round_trip(s: Seq<char>)
    ensures
        decoded(encoded(s)) == s,
    decreases s.len(),
{
    if s.len() > 0 {
        let c = s[0];
        let t = s.drop_first();
        assert(seq![c] + t =~= s);
        lemma_encoded_front(c, t);
        lemma_decode_first(c, encoded(t));
        law_utf16_round_trip(t);
    }
}

proof fn lemma_units_are_not_null(c: char)
    requires
        c != '\0',
    ensures
        forall|k: int| 0 <= k < units_of(c).len() ==> #[trigger] units_of(c)[k] != 0,
{
}

/// The null at the end of a wide string is its only one, where the string holds
/// none.
pub proof fn law_wide_ends_at_its_only_null(s: Seq<char>)
    requires
        !s.contains('\0'),
    ensures
        !encoded(s).contains(0),
    decreases s.len(),
{
    if s.len() > 0 {
        let t = s.drop_last();
        assert forall|c: char| t.contains(c) implies s.contains(c) by {
            let k = choose|k: int| 0 <= k < t.len() && t[k] == c;
            assert(s[k] == c);
        }
        assert(s[s.len() - 1] != '\0') by {
            assert(s.contains(s[s.len() - 1]));
        }
        law_wide_ends_at_its_only_null(t);
        lemma_units_are_not_null(s.last());
        let e = encoded(s);
        if e.contains(0) {
            let k = choose|k: int| 0 <= k < e.len() && e[k] == 0;
            if k < encoded(t).len() {
                assert(encoded(t)[k] == 0);
                assert(encoded(t).contains(0));
            } else {
                assert(units_of(s.last())[k - encoded(t).len()] == 0);
            }
        }
    }
}

/// A character below 0x10000 is one unit, its own number; any other is a pair, from
/// which its number comes back.
proof fn lemma_units(c: char)
    ensures
        (c as int) < 0x1_0000 ==> units_of(c).len() == 1 && units_of(c)[0] == c as int,
        (c as int) >= 0x1_0000 ==> {
            let u = units_of(c);
            &&& u.len() == 2
            &&& 0xd800 <= u[0] <= 0xdbff
            &&& 0xdc00 <= u[1] <= 0xdfff
            &&& 0x1_0000 + (u[0] - 0xd800) * 0x400 + (u[1] - 0xdc00) == c as int
        },
{
}

/// A string is written character by character, with a null at the end: a character
/// below 0x10000 as its own number, and any other as a high and a low surrogate, with
/// the upper ten bits of what is above 0x10000 in the first.
pub proof fn law_wide_holds_each_character(s: &str, w: Vec<u16>)
    requires
        call_ensures(wide, (s,), w),
        s@.len() == 1,
    ensures
        ({
            let n = s@[0] as int;
            &&& n < 0x1_0000 ==> w@.len() == 2 && w@[0] == n && w@[1] == 0
            &&& n >= 0x1_0000 ==> {
                &&& w@.len() == 3 && w@[2] == 0
                &&& 0xd800 <= w@[0] <= 0xdbff
                &&& 0xdc00 <= w@[1] <= 0xdfff
                &&& 0x1_0000 + (w@[0] - 0xd800) * 0x400 + (w@[1] - 0xdc00) == n
            }
        }),
{
    let c = s@[0];
    lemma_units(c);
    assert(s@ =~= seq![c] + Seq::<char>::empty());
    lemma_encoded_front(c, Seq::empty());
    assert(units_of(c) + encoded(Seq::empty()) =~= units_of(c));
}

/// What is written of a string is what is written of its front, and then of the rest.
pub proof fn law_wide_goes_piece_by_piece(a: &str, b: &str, s: &str, x: Vec<u16>, y: Vec<u16>, w: Vec<u16>)
    requires
        call_ensures(wide, (a,), x),
        call_ensures(wide, (b,), y),
        call_ensures(wide, (s,), w),
        s@ == a@ + b@,
    ensures
        w@ == x@.drop_last() + y@,
        x@.last() == 0 && y@.last() == 0 && w@.last() == 0,
{
    lemma_encoded_concat(a@, b@);
    assert(x@.drop_last() =~= encoded(a@));
    assert(w@ =~= x@.drop_last() + y@);
}

proof fn lemma_encoded_concat(a: Seq<char>, b: Seq<char>)
    ensures
        encoded(a + b) == encoded(a) + encoded(b),
    decreases b.len(),
{
    if b.len() == 0 {
        assert(a + b =~= a);
        assert(encoded(a) + encoded(b) =~= encoded(a));
    } else {
        lemma_encoded_concat(a, b.drop_last());
        assert((a + b).drop_last() =~= a + b.drop_last());
        assert(encoded(a + b) =~= encoded(a) + encoded(b));
    }
}

/// Units are read from the front: one that is no surrogate is the character of that
/// number; a high and a low one are the character of the pair; any other surrogate is
/// the replacement character, and what follows it is read as if it stood alone.
pub proof fn law_units_are_read_from_the_front(units: &[u16], rest: &[u16], s: String, t: String)
    requires
        call_ensures(from_wide_lossy, (units,), s),
        call_ensures(from_wide_lossy, (rest,), t),
        units@.len() > 0,
    ensures
        ({
            let u = units@[0] as int;
            let pair = 0xd800 <= u <= 0xdbff && units@.len() > 1 && 0xdc00 <= units@[1] <= 0xdfff;
            &&& s@.len() > 0
            &&& u < 0xd800 || u > 0xdfff ==> s@[0] as int == u
            &&& pair ==> s@[0] as int == 0x1_0000 + (u - 0xd800) * 0x400 + (units@[1] - 0xdc00)
            &&& 0xd800 <= u <= 0xdfff && !pair ==> s@[0] as int == 0xfffd
            &&& rest@ == units@.skip(if pair {
                2
            } else {
                1
            }) ==> s@ == seq![s@[0]] + t@
        }),
{
    let (c, n) = first_char(units@);
    assert(s@ == seq![c] + decoded(units@.skip(n)));
    assert(s@[0] == c);
}

/// Nothing is read of nothing.
pub proof fn law_no_units_are_no_text(units: &[u16], s: String)
    requires
        call_ensures(from_wide_lossy, (units,), s),
        units@.len() == 0,
    ensures
        s@.len() == 0,
{
}

} // verus!
