//! GUIDs as text: the canonical `8-4-4-4-12` form that the HCS schema uses, and
//! the forms that are accepted for it.

use vstd::prelude::*;
use crate::sys::GUID;
use crate::text::{chars_of, push_hex, trim};

verus! {

// ---------------------------------------------------------------------------
// The canonical form
// ---------------------------------------------------------------------------

/// Two hexadecimal digits for each of the bytes `d[from..to]`.
pub open spec fn hex_bytes(d: Seq<u8>, from: int, to: int) -> Seq<char>
    decreases to - from,
{
    if from >= to {
        Seq::empty()
    } else {
        hex_bytes(d, from, to - 1) + crate::text::hex_fixed(d[to - 1] as nat, 2)
    }
}

/// The canonical form of `g`: lower case, no braces.
pub open spec fn guid_text(g: GUID) -> Seq<char> {
    crate::text::hex_fixed(g.Data1 as nat, 8).push('-') + crate::text::hex_fixed(
        g.Data2 as nat,
        4,
    ).push('-') + crate::text::hex_fixed(g.Data3 as nat, 4).push('-') + hex_bytes(
        g.Data4@,
        0,
        2,
    ).push('-') + hex_bytes(g.Data4@, 2, 8)
}

/// Appends two hexadecimal digits for each of the bytes `d[from..to]`.
fn push_hex_bytes(out: &mut String, d: &[u8; 8], from: usize, to: usize)
    requires
        from <= to <= 8,
    ensures
        final(out)@ == old(out)@ + hex_bytes(d@, from as int, to as int),
{
    let mut i: usize = from;
    while i < to
        invariant
            from <= i <= to <= 8,
            out@ == old(out)@ + hex_bytes(d@, from as int, i as int),
        decreases to - i,
    {
        push_hex(out, d[i] as u64, 2);
        i = i + 1;
        assert(out@ =~= old(out)@ + hex_bytes(d@, from as int, i as int));
    }
}

/// The canonical form of `g`.
pub fn guid_to_string(g: &GUID) -> (s: String)
    ensures
        s@ == guid_text(*g),
{
    let mut s = String::new();
    push_hex(&mut s, g.Data1 as u64, 8);
    s.push('-');
    push_hex(&mut s, g.Data2 as u64, 4);
    s.push('-');
    push_hex(&mut s, g.Data3 as u64, 4);
    s.push('-');
    push_hex_bytes(&mut s, &g.Data4, 0, 2);
    s.push('-');
    push_hex_bytes(&mut s, &g.Data4, 2, 8);
    assert(s@ =~= guid_text(*g));
    s
}

// ---------------------------------------------------------------------------
// Reading
// ---------------------------------------------------------------------------

/// A hexadecimal digit, of either case.
pub open spec fn is_hex(c: char) -> bool {
    ||| '0' <= c <= '9'
    ||| 'a' <= c <= 'f'
    ||| 'A' <= c <= 'F'
}

/// The value of a hexadecimal digit.
pub open spec fn hex_value(c: char) -> nat {
    if c <= '9' {
        (c as int - '0' as int) as nat
    } else if c <= 'F' {
        (c as int - 'A' as int + 10) as nat
    } else {
        (c as int - 'a' as int + 10) as nat
    }
}

/// The number that these hexadecimal digits write.
pub open spec fn hex_number(s: Seq<char>) -> nat
    decreases s.len(),
{
    if s.len() == 0 {
        0
    } else {
        hex_number(s.drop_last()) * 16 + hex_value(s.last())
    }
}

/// `s` without its braces, where it has both.
pub open spec fn unbraced(s: Seq<char>) -> Seq<char> {
    if s.len() >= 2 && s[0] == '{' && s.last() == '}' {
        s.subrange(1, s.len() - 1)
    } else {
        s
    }
}

/// Where the dashes stand.
pub open spec fn dash_at(i: int) -> bool {
    i == 8 || i == 13 || i == 18 || i == 23
}

/// `s` is made of hexadecimal digits in groups of 8, 4, 4, 4 and 12, with a dash
/// between the groups.
pub open spec fn is_guid(s: Seq<char>) -> bool {
    &&& s.len() == 36
    &&& forall|i: int|
        0 <= i < 36 ==> if dash_at(i) {
            #[trigger] s[i] == '-'
        } else {
            is_hex(s[i])
        }
}

/// Where the two digits of byte `k` of `Data4` stand.
pub open spec fn byte_at(k: int) -> int {
    if k < 2 {
        19 + 2 * k
    } else {
        24 + 2 * (k - 2)
    }
}

/// How many numbers a GUID is written as: `Data1`, `Data2`, `Data3`, and the bytes of
/// `Data4`.
pub open spec fn parts() -> int {
    11
}

/// Where the digits of the number `k` start.
pub open spec fn part_from(k: int) -> int {
    if k == 0 {
        0
    } else if k == 1 {
        9
    } else if k == 2 {
        14
    } else {
        byte_at(k - 3)
    }
}

/// How many digits the number `k` has.
pub open spec fn part_len(k: int) -> nat {
    if k == 0 {
        8
    } else if k == 1 || k == 2 {
        4
    } else {
        2
    }
}

/// The digits of the number `k`.
pub open spec fn part(s: Seq<char>, k: int) -> Seq<char> {
    s.subrange(part_from(k), part_from(k) + part_len(k))
}

/// The number `k` of `g`.
pub open spec fn part_value(g: GUID, k: int) -> nat {
    if k == 0 {
        g.Data1 as nat
    } else if k == 1 {
        g.Data2 as nat
    } else if k == 2 {
        g.Data3 as nat
    } else {
        g.Data4@[k - 3] as nat
    }
}

/// Byte `k` of `Data4` was read from its two digits in `s`.
spec fn byte_read(s: Seq<char>, d: Seq<u8>, k: int) -> bool {
    &&& is_hex(s[byte_at(k)])
    &&& is_hex(s[byte_at(k) + 1])
    &&& d[k] == hex_number(part(s, k + 3))
}

/// The GUID that `s` writes, where `s` writes one.
pub open spec fn guid_value(s: Seq<char>) -> GUID {
    GUID {
        Data1: hex_number(part(s, 0)) as u32,
        Data2: hex_number(part(s, 1)) as u16,
        Data3: hex_number(part(s, 2)) as u16,
        Data4: [
            hex_number(part(s, 3)) as u8,
            hex_number(part(s, 4)) as u8,
            hex_number(part(s, 5)) as u8,
            hex_number(part(s, 6)) as u8,
            hex_number(part(s, 7)) as u8,
            hex_number(part(s, 8)) as u8,
            hex_number(part(s, 9)) as u8,
            hex_number(part(s, 10)) as u8,
        ],
    }
}

/// What is left of `s` once white space and braces are gone.
pub open spec fn guid_body(s: Seq<char>) -> Seq<char> {
    unbraced(crate::text::trimmed(s))
}

/// The GUID that `s` stands for, of either case, in braces or not, with white
/// space around it or not; `None` where it is malformed.
pub open spec fn parsed_guid(s: Seq<char>) -> Option<GUID> {
    if is_guid(guid_body(s)) {
        Some(guid_value(guid_body(s)))
    } else {
        None
    }
}

/// The value of the hexadecimal digit `c`.
fn digit(c: char) -> (r: Option<u8>)
    ensures
        match r {
            Some(v) => is_hex(c) && v == hex_value(c) && v < 16,
            None => !is_hex(c),
        },
{
    if '0' <= c && c <= '9' {
        Some((c as u32 - '0' as u32) as u8)
    } else if 'a' <= c && c <= 'f' {
        Some((c as u32 - 'a' as u32 + 10) as u8)
    } else if 'A' <= c && c <= 'F' {
        Some((c as u32 - 'A' as u32 + 10) as u8)
    } else {
        None
    }
}

/// `16` to the `n`.
pub open spec fn pow16(n: nat) -> nat
    decreases n,
{
    if n == 0 {
        1
    } else {
        16 * pow16((n - 1) as nat)
    }
}

proof fn lemma_hex_number_bound(s: Seq<char>)
    requires
        forall|i: int| 0 <= i < s.len() ==> is_hex(#[trigger] s[i]),
    ensures
        hex_number(s) < pow16(s.len()),
    decreases s.len(),
{
    if s.len() > 0 {
        assert(is_hex(s[s.len() - 1]));
        lemma_hex_number_bound(s.drop_last());
    }
}

proof fn lemma_pow16()
    ensures
        pow16(2) == 0x100,
        pow16(4) == 0x1_0000,
        pow16(8) == 0x1_0000_0000,
{
    reveal_with_fuel(pow16, 9);
}

/// The number in the `len` digits of `chars` at `from`.
fn number(chars: &Vec<char>, from: usize, len: usize) -> (r: Option<u32>)
    requires
        from + len <= chars@.len(),
        len <= 8,
    ensures
        ({
            let s = chars@.subrange(from as int, from + len);
            let hex = forall|i: int| 0 <= i < s.len() ==> is_hex(#[trigger] s[i]);
            match r {
                Some(n) => hex && n == hex_number(s) && n < pow16(len as nat),
                None => !hex,
            }
        }),
{
    let ghost s = chars@.subrange(from as int, from + len);
    let mut n: u32 = 0;
    let mut i: usize = 0;
    assert(s.take(0) =~= Seq::<char>::empty());
    assert(from + len <= chars.len());
    while i < len
        invariant
            i <= len <= 8,
            from + len <= usize::MAX,
            from + len <= chars@.len(),
            s == chars@.subrange(from as int, from + len),
            forall|j: int| 0 <= j < i ==> is_hex(#[trigger] s[j]),
            n == hex_number(s.take(i as int)),
        decreases len - i,
    {
        assert(s[i as int] == chars@[from + i]);
        match digit(chars[from + i]) {
            None => return None,
            Some(v) => {
                proof {
                    assert(s.take(i + 1).drop_last() =~= s.take(i as int));
                    lemma_hex_number_bound(s.take(i + 1));
                    lemma_pow16_grows((i + 1) as nat, 8);
                    lemma_pow16();
                }
                n = n * 16 + v as u32;
            },
        }
        i = i + 1;
    }
    assert(s.take(i as int) =~= s);
    proof {
        lemma_hex_number_bound(s);
    }
    Some(n)
}

proof fn lemma_pow16_grows(a: nat, b: nat)
    requires
        a <= b,
    ensures
        pow16(a) <= pow16(b),
    decreases b,
{
    if a < b {
        lemma_pow16_grows(a, (b - 1) as nat);
    }
}

/// The GUID that `s` stands for: the inverse of [`guid_to_string`], which also
/// takes upper case, surrounding braces and surrounding white space. `None` on
/// anything else.
#[verifier::rlimit(50)]
pub fn guid_from_string(s: &str) -> (r: Option<GUID>)
    ensures
        r == parsed_guid(s@),
{
    let chars = chars_of(s);
    let (lo, hi) = trim(&chars);
    let ghost t = crate::text::trimmed(s@);
    let braced = hi - lo >= 2 && chars[lo] == '{' && chars[hi - 1] == '}';
    let from: usize = if braced {
        lo + 1
    } else {
        lo
    };
    let to: usize = if braced {
        hi - 1
    } else {
        hi
    };
    let ghost b = guid_body(s@);
    assert(b =~= chars@.subrange(from as int, to as int));
    if to - from != 36 {
        return None;
    }
    assert(b[8] == chars@[from + 8] && b[13] == chars@[from + 13] && b[18] == chars@[from + 18]
        && b[23] == chars@[from + 23]);
    if chars[from + 8] != '-' || chars[from + 13] != '-' || chars[from + 18] != '-' || chars[from
        + 23] != '-' {
        return None;
    }
    proof {
        lemma_pow16();
    }
    let mut d: [u8; 8] = [0; 8];
    let mut k: usize = 0;
    while k < 8
        invariant
            k <= 8,
            from + 36 == to,
            to <= chars@.len(),
            b == chars@.subrange(from as int, to as int),
            b == guid_body(s@),
            pow16(2) == 0x100,
            forall|j: int| 0 <= j < k ==> #[trigger] byte_read(b, d@, j),
        decreases 8 - k,
    {
        let at: usize = if k < 2 {
            19 + 2 * k
        } else {
            24 + 2 * (k - 2)
        };
        let ghost w = chars@.subrange(from + at, from + at + 2);
        proof {
            assert(w =~= part(b, k + 3));
            assert(w[0] == b[byte_at(k as int)]);
            assert(w[1] == b[byte_at(k as int) + 1]);
        }
        match number(&chars, from + at, 2) {
            None => {
                assert(!is_guid(b));
                return None;
            },
            Some(n) => {
                assert(is_hex(w[0]) && is_hex(w[1]));
                let ghost before = d@;
                d[k] = n as u8;
                proof {
                    assert(d@ =~= before.update(k as int, n as u8));
                    assert forall|j: int| 0 <= j < k + 1 implies #[trigger] byte_read(b, d@, j) by {
                        assert(j < k ==> byte_read(b, before, j));
                    }
                }
            },
        }
        k = k + 1;
    }
    let ghost (s1, s2, s3) = (b.subrange(0, 8), b.subrange(9, 13), b.subrange(14, 18));
    assert(chars@.subrange(from + 0, from + 8) =~= s1);
    assert(chars@.subrange(from + 9, from + 13) =~= s2);
    assert(chars@.subrange(from + 14, from + 18) =~= s3);
    assert(forall|i: int| 0 <= i < 8 ==> #[trigger] s1[i] == b[i]);
    assert(forall|i: int| 0 <= i < 4 ==> #[trigger] s2[i] == b[9 + i]);
    assert(forall|i: int| 0 <= i < 4 ==> #[trigger] s3[i] == b[14 + i]);
    let d1: u32 = match number(&chars, from, 8) {
        None => return None,
        Some(n) => n,
    };
    let d2: u32 = match number(&chars, from + 9, 4) {
        None => return None,
        Some(n) => n,
    };
    let d3: u32 = match number(&chars, from + 14, 4) {
        None => return None,
        Some(n) => n,
    };
    let g = GUID { Data1: d1, Data2: d2 as u16, Data3: d3 as u16, Data4: d };
    proof {
        assert forall|i: int| 0 <= i < 36 implies if dash_at(i) {
            #[trigger] b[i] == '-'
        } else {
            is_hex(b[i])
        } by {
            if i < 8 {
                assert(is_hex(s1[i]));
            } else if 9 <= i < 13 {
                assert(is_hex(s2[i - 9]));
            } else if 14 <= i < 18 {
                assert(is_hex(s3[i - 14]));
            } else if 19 <= i < 23 {
                assert(byte_read(b, d@, (i - 19) / 2));
            } else if 24 <= i {
                assert(byte_read(b, d@, (i - 24) / 2 + 2));
            }
        }
        lemma_value_of_parts(b);
        assert forall|j: int| 0 <= j < 8 implies d@[j] == #[trigger] guid_value(b).Data4@[j] by {
            assert(byte_read(b, d@, j));
            assert(part_value(guid_value(b), j + 3) == hex_number(part(b, j + 3)));
        }
        assert(g.Data4 =~= guid_value(b).Data4);
    }
    Some(g)
}

// ---------------------------------------------------------------------------
// Laws
// ---------------------------------------------------------------------------

/// `c` in lower case, where it is an ASCII letter.
pub open spec fn lower(c: char) -> char {
    if 'A' <= c <= 'Z' {
        (c as int - 'A' as int + 'a' as int) as char
    } else {
        c
    }
}

/// `s` with its ASCII letters in lower case.
pub open spec fn lowered(s: Seq<char>) -> Seq<char> {
    Seq::new(s.len(), |i: int| lower(s[i]))
}

proof fn lemma_hex_fixed(v: nat, width: nat)
    ensures
        crate::text::hex_fixed(v, width).len() == width,
        forall|i: int|
            0 <= i < width ==> {
                let c = #[trigger] crate::text::hex_fixed(v, width)[i];
                is_hex(c) && lower(c) == c
            },
        v < pow16(width) ==> hex_number(crate::text::hex_fixed(v, width)) == v,
    decreases width,
{
    if width > 0 {
        let w = (width - 1) as nat;
        let t = crate::text::hex_fixed(v / 16, w);
        lemma_hex_fixed(v / 16, w);
        assert(crate::text::hex_fixed(v, width).drop_last() =~= t);
        let d = crate::text::hex_char(v % 16);
        assert(is_hex(d) && lower(d) == d && hex_value(d) == v % 16);
    }
}

proof fn lemma_hex_fixed_of_number(s: Seq<char>)
    requires
        forall|i: int| 0 <= i < s.len() ==> is_hex(#[trigger] s[i]),
    ensures
        crate::text::hex_fixed(hex_number(s), s.len()) == lowered(s),
    decreases s.len(),
{
    if s.len() == 0 {
        assert(lowered(s) =~= Seq::<char>::empty());
    } else {
        let t = s.drop_last();
        let c = s.last();
        lemma_hex_fixed_of_number(t);
        assert(is_hex(s[s.len() - 1]));
        let n = hex_number(t) * 16 + hex_value(c);
        assert(n / 16 == hex_number(t) && n % 16 == hex_value(c));
        assert(crate::text::hex_char(hex_value(c)) == lower(c));
        assert(lowered(s) =~= lowered(t).push(lower(c)));
    }
}

/// The number to which the character at `i` belongs, where it is no dash.
spec fn part_of(i: int) -> int {
    if i < 8 {
        0
    } else if i < 13 {
        1
    } else if i < 18 {
        2
    } else if i < 23 {
        3 + (i - 19) / 2
    } else {
        5 + (i - 24) / 2
    }
}

/// The numbers of `g` stand in `t` where the reader looks for them.
spec fn pieces_of(t: Seq<char>, g: GUID) -> bool {
    &&& t.len() == 36
    &&& forall|i: int| 0 <= i < 36 && dash_at(i) ==> #[trigger] t[i] == '-'
    &&& forall|k: int|
        0 <= k < parts() ==> #[trigger] part(t, k) == crate::text::hex_fixed(
            part_value(g, k),
            part_len(k),
        )
}

/// The digits of a byte stand where its index says.
proof fn lemma_hex_bytes(d: Seq<u8>, from: int, to: int, i: int)
    requires
        from <= i < to,
    ensures
        hex_bytes(d, from, to).len() == 2 * (to - from),
        hex_bytes(d, from, to).subrange(2 * (i - from), 2 * (i - from) + 2)
            == crate::text::hex_fixed(d[i] as nat, 2),
    decreases to - from,
{
    lemma_hex_fixed(d[to - 1] as nat, 2);
    if from < to - 1 {
        lemma_hex_bytes(d, from, to - 1, if i < to - 1 {
            i
        } else {
            from
        });
    } else {
        assert(hex_bytes(d, from, to - 1) =~= Seq::<char>::empty());
    }
    assert(hex_bytes(d, from, to).subrange(2 * (i - from), 2 * (i - from) + 2)
        =~= crate::text::hex_fixed(d[i] as nat, 2)) by {
        if i < to - 1 {
            assert(hex_bytes(d, from, to).subrange(2 * (i - from), 2 * (i - from) + 2)
                =~= hex_bytes(d, from, to - 1).subrange(2 * (i - from), 2 * (i - from) + 2));
        }
    }
}

proof fn lemma_guid_text(g: GUID)
    ensures
        pieces_of(guid_text(g), g),
{
    let t = guid_text(g);
    let d = g.Data4@;
    lemma_hex_fixed(g.Data1 as nat, 8);
    lemma_hex_fixed(g.Data2 as nat, 4);
    lemma_hex_fixed(g.Data3 as nat, 4);
    lemma_hex_bytes(d, 0, 2, 0);
    lemma_hex_bytes(d, 2, 8, 2);
    assert forall|k: int| 0 <= k < parts() implies #[trigger] part(t, k) == crate::text::hex_fixed(
        part_value(g, k),
        part_len(k),
    ) by {
        if 3 <= k < 5 {
            lemma_hex_bytes(d, 0, 2, k - 3);
            assert(part(t, k) =~= hex_bytes(d, 0, 2).subrange(2 * (k - 3), 2 * (k - 3) + 2));
        } else if 5 <= k {
            lemma_hex_bytes(d, 2, 8, k - 3);
            assert(part(t, k) =~= hex_bytes(d, 2, 8).subrange(2 * (k - 5), 2 * (k - 5) + 2));
        } else {
            assert(part(t, k) =~= crate::text::hex_fixed(part_value(g, k), part_len(k)));
        }
    }
}

/// The numbers of a GUID that was read are the numbers that its digits write.
proof fn lemma_value_of_parts(b: Seq<char>)
    requires
        is_guid(b),
    ensures
        forall|k: int|
            0 <= k < parts() ==> part_value(guid_value(b), k) == hex_number(#[trigger] part(b, k)),
{
    lemma_pow16();
    assert forall|k: int| 0 <= k < parts() implies part_value(guid_value(b), k) == hex_number(
        #[trigger] part(b, k),
    ) by {
        lemma_part(b, part_from(k), part_from(k) + part_len(k));
        assert(k == 0 || k == 1 || k == 2 || k == 3 || k == 4 || k == 5 || k == 6 || k == 7 || k
            == 8 || k == 9 || k == 10);
    }
}

proof fn lemma_piece(t: Seq<char>, from: int, to: int, v: nat)
    requires
        0 <= from <= to <= t.len(),
        t.subrange(from, to) == crate::text::hex_fixed(v, (to - from) as nat),
    ensures
        forall|i: int| from <= i < to ==> is_hex(#[trigger] t[i]) && lower(t[i]) == t[i],
{
    lemma_hex_fixed(v, (to - from) as nat);
    assert forall|i: int| from <= i < to implies is_hex(#[trigger] t[i]) && lower(t[i]) == t[i] by {
        assert(t.subrange(from, to)[i - from] == t[i]);
    }
}

/// What has the pieces of a GUID is a GUID, with letters in lower case.
proof fn lemma_pieces_shape(t: Seq<char>, g: GUID)
    requires
        pieces_of(t, g),
    ensures
        is_guid(t),
        lowered(t) == t,
        guid_body(t) == t,
{
    assert forall|i: int| 0 <= i < 36 && !dash_at(i) implies is_hex(#[trigger] t[i]) && lower(t[i])
        == t[i] by {
        let k = part_of(i);
        assert(part(t, k) == crate::text::hex_fixed(part_value(g, k), part_len(k)));
        lemma_piece(t, part_from(k), part_from(k) + part_len(k), part_value(g, k));
    }
    assert(lowered(t) =~= t);
    assert(is_hex(t[0]) && is_hex(t[35]));
    assert(t.last() == t[35]);
}

/// Reading the canonical form of a GUID gives that GUID back.
pub proof fn law_guid_round_trip(g: GUID)
    ensures
        parsed_guid(guid_text(g)) == Some(g),
{
    let t = guid_text(g);
    let h = guid_value(t);
    lemma_guid_text(g);
    lemma_pieces_shape(t, g);
    lemma_value_of_parts(t);
    lemma_pow16();
    assert forall|k: int| 0 <= k < parts() implies #[trigger] part_value(h, k) == part_value(
        g,
        k,
    ) by {
        lemma_hex_fixed(part_value(g, k), part_len(k));
        assert(hex_number(part(t, k)) == part_value(h, k));
    }
    assert(part_value(h, 0) == part_value(g, 0) && part_value(h, 1) == part_value(g, 1)
        && part_value(h, 2) == part_value(g, 2));
    assert forall|j: int| 0 <= j < 8 implies #[trigger] h.Data4@[j] == g.Data4@[j] by {
        assert(part_value(h, j + 3) == part_value(g, j + 3));
    }
    assert(h.Data4 =~= g.Data4);
}

proof fn lemma_part(b: Seq<char>, from: int, to: int)
    requires
        is_guid(b),
        0 <= from <= to <= 36,
        forall|i: int| from <= i < to ==> !dash_at(i),
    ensures
        hex_number(b.subrange(from, to)) < pow16((to - from) as nat),
        crate::text::hex_fixed(hex_number(b.subrange(from, to)), (to - from) as nat) == lowered(
            b,
        ).subrange(from, to),
{
    let p = b.subrange(from, to);
    assert forall|i: int| 0 <= i < p.len() implies is_hex(#[trigger] p[i]) by {
        assert(p[i] == b[from + i]);
    }
    lemma_hex_number_bound(p);
    lemma_hex_fixed_of_number(p);
    assert(lowered(p) =~= lowered(b).subrange(from, to));
}

/// Writing a GUID that was read gives the canonical form of what was read: the
/// same digits, in lower case, without white space and braces.
pub proof fn law_guid_is_written_canonically(s: Seq<char>)
    requires
        parsed_guid(s) is Some,
    ensures
        guid_text(parsed_guid(s)->0) == lowered(guid_body(s)),
{
    let b = guid_body(s);
    let g = guid_value(b);
    let l = lowered(b);
    let t = guid_text(g);
    lemma_guid_text(g);
    lemma_value_of_parts(b);
    assert forall|i: int| 0 <= i < 36 implies t[i] == l[i] by {
        if dash_at(i) {
            assert(b[i] == '-');
        } else {
            let k = part_of(i);
            lemma_part(b, part_from(k), part_from(k) + part_len(k));
            assert(part_value(g, k) == hex_number(part(b, k)));
            assert(part(t, k) == part(l, k));
            assert(part(t, k)[i - part_from(k)] == part(l, k)[i - part_from(k)]);
        }
    }
    assert(t =~= l);
}

/// Braces around a GUID do not matter.
pub proof fn law_guid_braces_do_not_matter(b: Seq<char>)
    requires
        is_guid(b),
    ensures
        parsed_guid(b) == Some(guid_value(b)),
        parsed_guid(seq!['{'] + b + seq!['}']) == Some(guid_value(b)),
{
    let braced = seq!['{'] + b + seq!['}'];
    assert(is_hex(b[0]) && is_hex(b[35]));
    assert(b.last() == b[35]);
    assert(braced[0] == '{' && braced.last() == '}');
    assert(crate::text::trimmed(braced) == braced);
    assert(unbraced(braced) =~= b);
}

/// White space around a text does not matter.
pub proof fn law_guid_white_space_does_not_matter(a: Seq<char>, s: Seq<char>, z: Seq<char>)
    requires
        forall|i: int| 0 <= i < a.len() ==> crate::text::is_white(#[trigger] a[i]),
        forall|i: int| 0 <= i < z.len() ==> crate::text::is_white(#[trigger] z[i]),
    ensures
        parsed_guid(a + s + z) == parsed_guid(s),
{
    lemma_trim_start(a, s + z);
    assert(a + s + z =~= a + (s + z));
    lemma_trim_around(s, z);
}

proof fn lemma_trim_start(a: Seq<char>, s: Seq<char>)
    requires
        forall|i: int| 0 <= i < a.len() ==> crate::text::is_white(#[trigger] a[i]),
    ensures
        crate::text::trim_start(a + s) == crate::text::trim_start(s),
    decreases a.len(),
{
    if a.len() == 0 {
        assert(a + s =~= s);
    } else {
        assert(crate::text::is_white(a[0]));
        assert((a + s).drop_first() =~= a.drop_first() + s);
        lemma_trim_start(a.drop_first(), s);
    }
}

proof fn lemma_trim_end(s: Seq<char>, z: Seq<char>)
    requires
        forall|i: int| 0 <= i < z.len() ==> crate::text::is_white(#[trigger] z[i]),
    ensures
        crate::text::trim_end(s + z) == crate::text::trim_end(s),
    decreases z.len(),
{
    if z.len() == 0 {
        assert(s + z =~= s);
    } else {
        assert(crate::text::is_white(z[z.len() - 1]));
        assert((s + z).drop_last() =~= s + z.drop_last());
        lemma_trim_end(s, z.drop_last());
    }
}

/// White space behind a text does not change what is left of it.
proof fn lemma_trim_around(s: Seq<char>, z: Seq<char>)
    requires
        forall|i: int| 0 <= i < z.len() ==> crate::text::is_white(#[trigger] z[i]),
    ensures
        crate::text::trimmed(s + z) == crate::text::trimmed(s),
    decreases s.len(),
{
    if s.len() == 0 {
        assert(s + z =~= z + Seq::<char>::empty());
        lemma_trim_start(z, Seq::empty());
        assert(s =~= Seq::<char>::empty());
    } else if crate::text::is_white(s[0]) {
        assert((s + z).drop_first() =~= s.drop_first() + z);
        lemma_trim_around(s.drop_first(), z);
    } else {
        assert((s + z)[0] == s[0]);
        lemma_trim_end(s, z);
    }
}

/// Case does not matter.
pub proof fn law_guid_case_does_not_matter(s: Seq<char>)
    ensures
        parsed_guid(lowered(s)) == parsed_guid(s),
{
    let b = guid_body(s);
    lemma_lowered_trim_start(s);
    lemma_lowered_trim_end(crate::text::trim_start(s));
    let t = crate::text::trimmed(s);
    assert(crate::text::trimmed(lowered(s)) == lowered(t));
    assert(unbraced(lowered(t)) =~= lowered(unbraced(t)));
    let l = lowered(b);
    assert(guid_body(lowered(s)) == l);
    assert forall|c: char| is_hex(lower(c)) == is_hex(c) by {}
    assert forall|c: char| is_hex(c) implies hex_value(lower(c)) == hex_value(c) by {}
    if is_guid(b) {
        assert forall|i: int| 0 <= i < 36 implies if dash_at(i) {
            #[trigger] l[i] == '-'
        } else {
            is_hex(l[i])
        } by {
            assert(l[i] == lower(b[i]));
        }
        assert forall|k: int| 0 <= k < parts() implies hex_number(#[trigger] part(l, k))
            == hex_number(part(b, k)) by {
            lemma_lowered_number(b, part_from(k), part_from(k) + part_len(k));
        }
    } else if is_guid(l) {
        assert forall|i: int| 0 <= i < 36 implies if dash_at(i) {
            #[trigger] b[i] == '-'
        } else {
            is_hex(b[i])
        } by {
            assert(l[i] == lower(b[i]));
        }
    }
}

proof fn lemma_lowered_trim_start(s: Seq<char>)
    ensures
        crate::text::trim_start(lowered(s)) == lowered(crate::text::trim_start(s)),
    decreases s.len(),
{
    if s.len() > 0 && crate::text::is_white(s[0]) {
        assert(lowered(s).drop_first() =~= lowered(s.drop_first()));
        lemma_lowered_trim_start(s.drop_first());
    }
}

proof fn lemma_lowered_trim_end(s: Seq<char>)
    ensures
        crate::text::trim_end(lowered(s)) == lowered(crate::text::trim_end(s)),
    decreases s.len(),
{
    if s.len() > 0 && crate::text::is_white(s.last()) {
        assert(lowered(s).drop_last() =~= lowered(s.drop_last()));
        lemma_lowered_trim_end(s.drop_last());
    }
}

proof fn lemma_lowered_number(b: Seq<char>, from: int, to: int)
    requires
        is_guid(b),
        0 <= from <= to <= 36,
        forall|i: int| from <= i < to ==> !dash_at(i),
    ensures
        hex_number(lowered(b).subrange(from, to)) == hex_number(b.subrange(from, to)),
    decreases to - from,
{
    if from < to {
        let p = b.subrange(from, to);
        let q = lowered(b).subrange(from, to);
        assert(p.drop_last() =~= b.subrange(from, to - 1));
        assert(q.drop_last() =~= lowered(b).subrange(from, to - 1));
        lemma_lowered_number(b, from, to - 1);
        assert(!dash_at(to - 1));
        assert(is_hex(b[to - 1]));
    }
}

/// A GUID is written as five groups with a dash between them: eight digits of
/// `Data1`, four of `Data2`, four of `Data3`, two for each of the first two bytes of
/// `Data4`, and two for each of the other six. In each number the most significant
/// digit stands first.
pub proof fn law_guid_is_written_in_groups(g: &GUID, s: String)
    requires
        call_ensures(guid_to_string, (g,), s),
    ensures
        s@.len() == 36,
        s@[8] == '-' && s@[13] == '-' && s@[18] == '-' && s@[23] == '-',
        forall|i: int|
            0 <= i < 8 ==> #[trigger] s@[i] == "0123456789abcdef"@[g.Data1 as int
                / vstd::arithmetic::power::pow(16, (7 - i) as nat) % 16],
        forall|i: int|
            9 <= i < 13 ==> #[trigger] s@[i] == "0123456789abcdef"@[g.Data2 as int
                / vstd::arithmetic::power::pow(16, (12 - i) as nat) % 16],
        forall|i: int|
            14 <= i < 18 ==> #[trigger] s@[i] == "0123456789abcdef"@[g.Data3 as int
                / vstd::arithmetic::power::pow(16, (17 - i) as nat) % 16],
        forall|k: int|
            0 <= k < 2 ==> s@[19 + 2 * k] == "0123456789abcdef"@[#[trigger] g.Data4@[k] as int / 16
                % 16] && s@[20 + 2 * k] == "0123456789abcdef"@[g.Data4@[k] as int % 16],
        forall|k: int|
            2 <= k < 8 ==> s@[20 + 2 * k] == "0123456789abcdef"@[#[trigger] g.Data4@[k] as int / 16
                % 16] && s@[21 + 2 * k] == "0123456789abcdef"@[g.Data4@[k] as int % 16],
{
    let t = s@;
    lemma_guid_text(*g);
    assert(dash_at(8) && dash_at(13) && dash_at(18) && dash_at(23));
    assert(part(t, 0) == crate::text::hex_fixed(part_value(*g, 0), part_len(0)));
    assert(part(t, 1) == crate::text::hex_fixed(part_value(*g, 1), part_len(1)));
    assert(part(t, 2) == crate::text::hex_fixed(part_value(*g, 2), part_len(2)));
    assert forall|i: int| 0 <= i < 8 implies #[trigger] s@[i] == "0123456789abcdef"@[g.Data1 as int
        / vstd::arithmetic::power::pow(16, (7 - i) as nat) % 16] by {
        assert(part(t, 0)[i] == t[i]);
        crate::text::lemma_hex_digit_at(g.Data1 as nat, 8, i);
    }
    assert forall|i: int| 9 <= i < 13 implies #[trigger] s@[i] == "0123456789abcdef"@[g.Data2 as int
        / vstd::arithmetic::power::pow(16, (12 - i) as nat) % 16] by {
        assert(part(t, 1)[i - 9] == t[i]);
        crate::text::lemma_hex_digit_at(g.Data2 as nat, 4, i - 9);
    }
    assert forall|i: int| 14 <= i < 18 implies #[trigger] s@[i] == "0123456789abcdef"@[
    g.Data3 as int / vstd::arithmetic::power::pow(16, (17 - i) as nat) % 16] by {
        assert(part(t, 2)[i - 14] == t[i]);
        crate::text::lemma_hex_digit_at(g.Data3 as nat, 4, i - 14);
    }
    vstd::arithmetic::power::lemma_pow0(16);
    vstd::arithmetic::power::lemma_pow1(16);
    assert forall|k: int| 0 <= k < 8 implies {
        let at = if k < 2 {
            19 + 2 * k
        } else {
            20 + 2 * k
        };
        &&& s@[at] == "0123456789abcdef"@[#[trigger] g.Data4@[k] as int / 16 % 16]
        &&& s@[at + 1] == "0123456789abcdef"@[g.Data4@[k] as int % 16]
    } by {
        assert(part(t, k + 3) == crate::text::hex_fixed(part_value(*g, k + 3), part_len(k + 3)));
        crate::text::lemma_hex_digit_at(g.Data4@[k] as nat, 2, 0);
        crate::text::lemma_hex_digit_at(g.Data4@[k] as nat, 2, 1);
        assert(part(t, k + 3)[0] == t[part_from(k + 3)]);
        assert(part(t, k + 3)[1] == t[part_from(k + 3) + 1]);
        assert(g.Data4@[k] as int / 1 == g.Data4@[k]);
    }
}

/// What was written is read back.
pub proof fn law_written_guid_is_read_back(g: &GUID, t: String, s: &str, r: Option<GUID>)
    requires
        call_ensures(guid_to_string, (g,), t),
        s@ == t@,
        call_ensures(guid_from_string, (s,), r),
    ensures
        r == Some(*g),
{
    law_guid_round_trip(*g);
}

/// A text of thirty-six characters that writes a GUID has nothing around it.
proof fn lemma_nothing_around(s: Seq<char>)
    requires
        s.len() == 36,
        is_guid(s) || is_guid(guid_body(s)),
    ensures
        guid_body(s) == s,
{
    let w = crate::text::trimmed(s);
    crate::text::law_trimming_takes_exactly_the_white_space_around(s);
    let (a, b) = choose|a: int, b: int|
        0 <= a <= b <= s.len() && #[trigger] s.subrange(a, b) == w && (forall|i: int|
            0 <= i < a || b <= i < s.len() ==> crate::text::is_white(#[trigger] s[i]));
    assert(w.len() == b - a);
    if is_guid(s) {
        assert(is_hex(s[0]) && is_hex(s[35]));
        assert(!crate::text::is_white(s[0]) && !crate::text::is_white(s[35]));
        assert(a == 0);
        assert(b == 36);
        assert(w =~= s);
        assert(w.last() == s[35]);
    } else {
        assert(w.len() >= 36);
        assert(w =~= s);
    }
}

/// Of the texts of thirty-six characters, exactly those with a dash at the four places
/// and a hexadecimal digit of either case at every other are read.
pub proof fn law_guid_is_a_text_of_digits_and_dashes(s: &str, r: Option<GUID>)
    requires
        call_ensures(guid_from_string, (s,), r),
        s@.len() == 36,
    ensures
        r is Some <==> forall|i: int|
            0 <= i < 36 ==> if i == 8 || i == 13 || i == 18 || i == 23 {
                #[trigger] s@[i] == '-'
            } else {
                '0' <= s@[i] <= '9' || 'a' <= s@[i] <= 'f' || 'A' <= s@[i] <= 'F'
            },
{
    let b = s@;
    if r is Some {
        lemma_nothing_around(b);
        assert(is_guid(b));
        assert forall|i: int| 0 <= i < 36 implies if i == 8 || i == 13 || i == 18 || i == 23 {
            #[trigger] b[i] == '-'
        } else {
            '0' <= b[i] <= '9' || 'a' <= b[i] <= 'f' || 'A' <= b[i] <= 'F'
        } by {
            assert(if dash_at(i) {
                b[i] == '-'
            } else {
                is_hex(b[i])
            });
        }
    } else if forall|i: int|
        0 <= i < 36 ==> if i == 8 || i == 13 || i == 18 || i == 23 {
            #[trigger] b[i] == '-'
        } else {
            '0' <= b[i] <= '9' || 'a' <= b[i] <= 'f' || 'A' <= b[i] <= 'F'
        } {
        assert forall|i: int| 0 <= i < 36 implies if dash_at(i) {
            #[trigger] b[i] == '-'
        } else {
            is_hex(b[i])
        } by {}
        lemma_nothing_around(b);
    }
}

/// What is read is written with the same digits, in lower case.
pub proof fn law_guid_is_read_digit_by_digit(s: &str, r: Option<GUID>, g: &GUID, t: String)
    requires
        call_ensures(guid_from_string, (s,), r),
        s@.len() == 36,
        r == Some(*g),
        call_ensures(guid_to_string, (g,), t),
    ensures
        t@.len() == 36,
        forall|i: int|
            0 <= i < 36 ==> #[trigger] t@[i] == s@[i] || ('A' <= s@[i] <= 'F' && t@[i] as int
                == s@[i] as int + 32),
{
    let b = s@;
    lemma_nothing_around(b);
    law_guid_is_written_canonically(b);
    assert(t@ == lowered(b));
    assert forall|i: int| 0 <= i < 36 implies #[trigger] t@[i] == b[i] || ('A' <= b[i] <= 'F'
        && t@[i] as int == b[i] as int + 32) by {
        assert(t@[i] == lower(b[i]));
        assert(if dash_at(i) {
            b[i] == '-'
        } else {
            is_hex(b[i])
        });
    }
}

/// White space around a text, and braces around a GUID, make no difference to what is
/// read; nothing shorter than a GUID is one.
pub proof fn law_guid_is_read_through_its_wrapping(
    s: &str,
    t: &str,
    u: &str,
    r: Option<GUID>,
    q: Option<GUID>,
    p: Option<GUID>,
    a: Seq<char>,
    z: Seq<char>,
)
    requires
        call_ensures(guid_from_string, (s,), r),
        call_ensures(guid_from_string, (t,), q),
        call_ensures(guid_from_string, (u,), p),
        t@ == a + s@ + z,
        u@ == seq!['{'] + s@ + seq!['}'],
        forall|i: int| 0 <= i < a.len() ==> crate::text::is_white(#[trigger] a[i]),
        forall|i: int| 0 <= i < z.len() ==> crate::text::is_white(#[trigger] z[i]),
    ensures
        q == r,
        r is Some && s@.len() == 36 ==> p == r,
        r is Some ==> s@.len() >= 36,
{
    law_guid_white_space_does_not_matter(a, s@, z);
    crate::text::law_trimming_takes_exactly_the_white_space_around(s@);
    if r is Some {
        let w = crate::text::trimmed(s@);
        assert(w.len() >= 36);
        if s@.len() == 36 {
            let (x, y) = choose|x: int, y: int|
                0 <= x <= y <= s@.len() && #[trigger] s@.subrange(x, y) == w && (forall|i: int|
                    0 <= i < x || y <= i < s@.len() ==> crate::text::is_white(#[trigger] s@[i]));
            assert(x == 0 && y == 36);
            assert(w =~= s@);
            assert(guid_body(s@) == s@);
            law_guid_braces_do_not_matter(s@);
        }
    }
}

/// A text without white space around it is a GUID only if it has thirty-six characters,
/// or thirty-eight with braces around them; with the braces it is read as without.
pub proof fn law_guid_has_thirty_six_characters(
    s: &str,
    r: Option<GUID>,
    inner: &str,
    q: Option<GUID>,
)
    requires
        call_ensures(guid_from_string, (s,), r),
        call_ensures(guid_from_string, (inner,), q),
        s@.len() > 0,
        !crate::text::is_white(s@[0]) && !crate::text::is_white(s@.last()),
    ensures
        r is Some ==> s@.len() == 36 || (s@.len() == 38 && s@[0] == '{' && s@[37] == '}'),
        inner@.len() == 36 && s@ == seq!['{'] + inner@ + seq!['}'] ==> r == q,
{
    let t = s@;
    assert(crate::text::trim_start(t) == t);
    assert(crate::text::trim_end(t) == t);
    assert(crate::text::trimmed(t) == t);
    if inner@.len() == 36 && t == seq!['{'] + inner@ + seq!['}'] {
        assert(unbraced(t) =~= inner@);
        if q is Some {
            lemma_nothing_around(inner@);
        } else if is_guid(inner@) {
            lemma_nothing_around(inner@);
        }
    }
}

} // verus!
