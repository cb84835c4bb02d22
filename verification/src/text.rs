//! Characters and strings: the digits, the fixed-width numbers and the white
//! space that the textual formats of this library are made of.

use vstd::prelude::*;
use vstd::string::*;

verus! {

/// `String::push` appends one character.
pub assume_specification[ String::push ](s: &mut String, c: char)
    ensures
        final(s)@ == old(s)@.push(c),
;

/// The lower-case hexadecimal digit of a value below sixteen.
pub open spec fn hex_char(d: nat) -> char {
    if d < 10 {
        ('0' as int + d) as char
    } else {
        ('a' as int + (d - 10)) as char
    }
}

/// The `width` low hexadecimal digits of `v`, most significant first.
pub open spec fn hex_fixed(v: nat, width: nat) -> Seq<char>
    decreases width,
{
    if width == 0 {
        Seq::empty()
    } else {
        hex_fixed(v / 16, (width - 1) as nat).push(hex_char(v % 16))
    }
}

/// The lower-case hexadecimal digit of `d`.
pub fn hex_digit(d: u8) -> (c: char)
    requires
        d < 16,
    ensures
        c == hex_char(d as nat),
{
    if d < 10 {
        (48u8 + d) as char
    } else {
        (97u8 + (d - 10)) as char
    }
}

/// Appends the `width` low hexadecimal digits of `v`.
pub fn push_hex(out: &mut String, v: u64, width: usize)
    ensures
        final(out)@ == old(out)@ + hex_fixed(v as nat, width as nat),
    decreases width,
{
    if width > 0 {
        push_hex(out, v / 16, width - 1);
        out.push(hex_digit((v % 16) as u8));
    }
}

/// The decimal digits of `n`, most significant first.
pub open spec fn decimal(n: nat) -> Seq<char>
    decreases n,
{
    if n < 10 {
        seq![hex_char(n)]
    } else {
        decimal(n / 10).push(hex_char(n % 10))
    }
}

/// Appends `n` in decimal.
pub fn push_decimal(out: &mut String, n: u64)
    ensures
        final(out)@ == old(out)@ + decimal(n as nat),
    decreases n,
{
    if n < 10 {
        out.push(hex_digit(n as u8));
        assert(out@ =~= old(out)@ + decimal(n as nat));
    } else {
        push_decimal(out, n / 10);
        out.push(hex_digit((n % 10) as u8));
        assert(out@ =~= old(out)@ + decimal(n as nat));
    }
}

/// The characters of `s`.
pub fn chars_of(s: &str) -> (v: Vec<char>)
    ensures
        v@ == s@,
{
    let mut v: Vec<char> = Vec::new();
    for c in it: s.chars()
        invariant
            v@ == it.seq().take(it.index() as int),
            it.seq() == s@,
    {
        v.push(c);
        assert(it.seq().take(it.index() + 1) =~= it.seq().take(it.index() as int).push(c));
    }
    assert(s@.take(s@.len() as int) =~= s@);
    v
}

/// The characters with the Unicode property `White_Space`.
pub open spec fn is_white(c: char) -> bool {
    let n = c as int;
    ||| 0x9 <= n <= 0xd
    ||| n == 0x20
    ||| n == 0x85
    ||| n == 0xa0
    ||| n == 0x1680
    ||| 0x2000 <= n <= 0x200a
    ||| n == 0x2028
    ||| n == 0x2029
    ||| n == 0x202f
    ||| n == 0x205f
    ||| n == 0x3000
}

/// Whether `c` is white space.
pub fn white(c: char) -> (b: bool)
    ensures
        b == is_white(c),
{
    let n: u32 = c as u32;
    (0x9 <= n && n <= 0xd) || n == 0x20 || n == 0x85 || n == 0xa0 || n == 0x1680 || (0x2000 <= n
        && n <= 0x200a) || n == 0x2028 || n == 0x2029 || n == 0x202f || n == 0x205f || n == 0x3000
}

/// `s` without the white space that it starts with.
pub open spec fn trim_start(s: Seq<char>) -> Seq<char>
    decreases s.len(),
{
    if s.len() > 0 && is_white(s[0]) {
        trim_start(s.drop_first())
    } else {
        s
    }
}

/// `s` without the white space that it ends with.
pub open spec fn trim_end(s: Seq<char>) -> Seq<char>
    decreases s.len(),
{
    if s.len() > 0 && is_white(s.last()) {
        trim_end(s.drop_last())
    } else {
        s
    }
}

/// `s` without the white space around it.
pub open spec fn trimmed(s: Seq<char>) -> Seq<char> {
    trim_end(trim_start(s))
}

/// The range of `chars` that is left without the white space around it.
pub fn trim(chars: &Vec<char>) -> (r: (usize, usize))
    ensures
        r.0 <= r.1 <= chars@.len(),
        chars@.subrange(r.0 as int, r.1 as int) == trimmed(chars@),
{
    let n: usize = chars.len();
    let mut from: usize = 0;
    assert(chars@.subrange(0, n as int) =~= chars@);
    while from < n && white(chars[from])
        invariant
            n == chars@.len(),
            from <= n,
            trim_start(chars@.subrange(from as int, n as int)) == trim_start(chars@),
        decreases n - from,
    {
        assert(chars@.subrange(from as int, n as int).drop_first() =~= chars@.subrange(
            from + 1,
            n as int,
        ));
        from = from + 1;
    }
    let mut to: usize = n;
    while from < to && white(chars[to - 1])
        invariant
            from <= to <= n,
            n == chars@.len(),
            trim_end(chars@.subrange(from as int, to as int)) == trimmed(chars@),
        decreases to - from,
    {
        assert(chars@.subrange(from as int, to as int).drop_last() =~= chars@.subrange(
            from as int,
            to - 1,
        ));
        to = to - 1;
    }
    (from, to)
}

/// A decimal digit.
pub open spec fn is_digit(c: char) -> bool {
    '0' <= c <= '9'
}

/// The number that these decimal digits write.
pub open spec fn digits_value(s: Seq<char>) -> nat
    decreases s.len(),
{
    if s.len() == 0 {
        0
    } else {
        digits_value(s.drop_last()) * 10 + (s.last() as int - '0' as int) as nat
    }
}

/// At least one digit, and nothing else.
pub open spec fn all_digits(s: Seq<char>) -> bool {
    s.len() > 0 && forall|i: int| 0 <= i < s.len() ==> is_digit(#[trigger] s[i])
}

/// `s` without a plus sign in front.
pub open spec fn without_plus(s: Seq<char>) -> Seq<char> {
    if s.len() > 0 && s[0] == '+' {
        s.drop_first()
    } else {
        s
    }
}

/// The number that `s` writes: an optional plus sign and at least one digit,
/// nothing else.
pub open spec fn written_number(s: Seq<char>) -> Option<nat> {
    if all_digits(without_plus(s)) {
        Some(digits_value(without_plus(s)))
    } else {
        None
    }
}

proof fn lemma_digits_grow(s: Seq<char>, a: int, b: int)
    requires
        0 <= a <= b <= s.len(),
        all_digits(s),
    ensures
        digits_value(s.take(a)) <= digits_value(s.take(b)),
    decreases b - a,
{
    if a < b {
        lemma_digits_grow(s, a, b - 1);
        assert(s.take(b).drop_last() =~= s.take(b - 1));
    }
}

/// The number that `chars[from..to]` writes, if it writes one that fits.
pub fn parse_usize(chars: &Vec<char>, from: usize, to: usize) -> (r: Option<usize>)
    requires
        from <= to <= chars@.len(),
    ensures
        ({
            let w = written_number(chars@.subrange(from as int, to as int));
            match r {
                Some(n) => w == Some(n as nat),
                None => w is None || w->0 > usize::MAX,
            }
        }),
{
    let ghost s = chars@.subrange(from as int, to as int);
    let start: usize = if from < to && chars[from] == '+' {
        from + 1
    } else {
        from
    };
    let ghost d = chars@.subrange(start as int, to as int);
    assert(start > from ==> d =~= s.drop_first());
    if start == to {
        return None;
    }
    let mut n: usize = 0;
    let mut i: usize = start;
    while i < to
        invariant
            from <= start <= i <= to <= chars@.len(),
            s == chars@.subrange(from as int, to as int),
            d == chars@.subrange(start as int, to as int),
            d == without_plus(s),
            d.len() > 0,
            forall|j: int| 0 <= j < i - start ==> is_digit(#[trigger] d[j]),
            n == digits_value(d.take(i - start)),
        decreases to - i,
    {
        let c = chars[i];
        proof {
            assert(d[i - start] == c);
            assert(d.take(i + 1 - start).drop_last() =~= d.take(i - start));
            if written_number(s) is Some {
                lemma_digits_grow(d, i + 1 - start, d.len() as int);
                assert(d.take(d.len() as int) =~= d);
            }
        }
        if c < '0' || c > '9' {
            return None;
        }
        let v: usize = (c as u32 - '0' as u32) as usize;
        match n.checked_mul(10) {
            None => return None,
            Some(m) => match m.checked_add(v) {
                None => return None,
                Some(k) => n = k,
            },
        }
        i = i + 1;
    }
    assert(d.take(i - start) =~= d);
    Some(n)
}

/// Whether two strings hold the same characters.
pub fn same_text(a: &str, b: &str) -> (r: bool)
    ensures
        r == (a@ == b@),
{
    let x = chars_of(a);
    let y = chars_of(b);
    if x.len() != y.len() {
        return false;
    }
    let mut i: usize = 0;
    while i < x.len()
        invariant
            i <= x@.len(),
            x@ == a@,
            y@ == b@,
            x@.len() == y@.len(),
            forall|j: int| 0 <= j < i ==> x@[j] == y@[j],
        decreases x@.len() - i,
    {
        if x[i] != y[i] {
            return false;
        }
        i = i + 1;
    }
    assert(x@ =~= y@);
    true
}

// ---------------------------------------------------------------------------
// Laws
// ---------------------------------------------------------------------------

/// The digits below sixteen, in their order.
proof fn lemma_digit(d: nat)
    requires
        d < 16,
    ensures
        hex_char(d) == "0123456789abcdef"@[d as int],
        "0123456789abcdef"@.len() == 16,
{
    reveal_strlit("0123456789abcdef");
    assert(d == 0 || d == 1 || d == 2 || d == 3 || d == 4 || d == 5 || d == 6 || d == 7 || d == 8
        || d == 9 || d == 10 || d == 11 || d == 12 || d == 13 || d == 14 || d == 15);
}

proof fn lemma_hex_place(v: nat, width: nat, i: int)
    requires
        0 <= i < width,
    ensures
        hex_fixed(v, width).len() == width,
        hex_fixed(v, width)[i] == hex_char(
            (v as int / vstd::arithmetic::power::pow(16, (width - 1 - i) as nat) % 16) as nat,
        ),
    decreases width,
{
    let w = (width - 1) as nat;
    if w > 0 {
        lemma_hex_place(v / 16, w, if i < w {
            i
        } else {
            0
        });
    }
    assert(hex_fixed(v / 16, 0).len() == 0);
    assert(hex_fixed(v, width) == hex_fixed(v / 16, w).push(hex_char(v % 16)));
    vstd::arithmetic::power::lemma_pow0(16);
    if i < w {
        let p = vstd::arithmetic::power::pow(16, (w - 1 - i) as nat);
        vstd::arithmetic::power::lemma_pow_positive(16, (w - 1 - i) as nat);
        vstd::arithmetic::power::lemma_pow1(16);
        vstd::arithmetic::power::lemma_pow_adds(16, 1, (w - 1 - i) as nat);
        vstd::arithmetic::div_mod::lemma_div_denominator(v as int, 16, p);
    }
}

/// Digit `i` of a number in hexadecimal is the one of its place.
pub proof fn lemma_hex_digit_at(v: nat, width: nat, i: int)
    requires
        0 <= i < width,
    ensures
        hex_fixed(v, width).len() == width,
        hex_fixed(v, width)[i] == "0123456789abcdef"@[v as int / vstd::arithmetic::power::pow(
            16,
            (width - 1 - i) as nat,
        ) % 16],
{
    lemma_hex_place(v, width, i);
    let p = vstd::arithmetic::power::pow(16, (width - 1 - i) as nat);
    vstd::arithmetic::power::lemma_pow_positive(16, (width - 1 - i) as nat);
    assert(v as int / p >= 0) by (nonlinear_arith)
        requires
            v >= 0,
            p > 0,
    ;
    lemma_digit((v as int / p % 16) as nat);
}

/// A number is written in hexadecimal digit by digit: the digit at place `i` of
/// `width` is the one that counts the powers of sixteen of that place. What stood
/// there before stays.
pub proof fn law_hexadecimal_digits_stand_by_place(
    out: &mut String,
    v: u64,
    width: usize,
    u: (),
    i: int,
)
    requires
        call_ensures(push_hex, (out, v, width), u),
        0 <= i < width,
    ensures
        final(out)@.len() == old(out)@.len() + width,
        final(out)@.take(old(out)@.len() as int) == old(out)@,
        final(out)@[old(out)@.len() + i] == "0123456789abcdef"@[v as int
            / vstd::arithmetic::power::pow(16, (width - 1 - i) as nat) % 16],
{
    lemma_hex_digit_at(v as nat, width as nat, i);
    assert(final(out)@.take(out@.len() as int) =~= out@);
}

/// A digit is the character at its place among the sixteen.
pub proof fn law_digit_is_its_character(d: u8, c: char)
    requires
        call_ensures(hex_digit, (d,), c),
        d < 16,
    ensures
        c == "0123456789abcdef"@[d as int],
{
    lemma_digit(d as nat);
}

proof fn lemma_decimal_place(n: nat, i: int)
    requires
        0 <= i < decimal(n).len(),
    ensures
        decimal(n)[i] == hex_char(
            (n as int / vstd::arithmetic::power::pow(10, (decimal(n).len() - 1 - i) as nat) % 10)
                as nat,
        ),
    decreases n,
{
    vstd::arithmetic::power::lemma_pow0(10);
    if n >= 10 {
        let t = decimal(n / 10);
        if i < t.len() {
            lemma_decimal_place(n / 10, i);
            let e = (t.len() - 1 - i) as nat;
            vstd::arithmetic::power::lemma_pow_positive(10, e);
            vstd::arithmetic::power::lemma_pow1(10);
            vstd::arithmetic::power::lemma_pow_adds(10, 1, e);
            vstd::arithmetic::div_mod::lemma_div_denominator(
                n as int,
                10,
                vstd::arithmetic::power::pow(10, e),
            );
        }
    }
}

proof fn lemma_decimal_len(n: nat)
    ensures
        decimal(n).len() > 0,
        n < vstd::arithmetic::power::pow(10, decimal(n).len()),
        n > 0 ==> n >= vstd::arithmetic::power::pow(10, (decimal(n).len() - 1) as nat),
        n < 10 ==> decimal(n).len() == 1,
    decreases n,
{
    vstd::arithmetic::power::lemma_pow0(10);
    vstd::arithmetic::power::lemma_pow1(10);
    if n >= 10 {
        let t = decimal(n / 10);
        lemma_decimal_len(n / 10);
        vstd::arithmetic::power::lemma_pow_adds(10, 1, t.len());
        vstd::arithmetic::power::lemma_pow_adds(10, 1, (t.len() - 1) as nat);
    }
}

/// A number is written in decimal with as many digits as it needs, and no more, each
/// the one that counts the powers of ten of its place.
pub proof fn law_decimal_digits_stand_by_place(out: &mut String, n: u64, u: ())
    requires
        call_ensures(push_decimal, (out, n), u),
    ensures
        ({
            let len = final(out)@.len() - old(out)@.len();
            &&& len >= 1
            &&& final(out)@.take(old(out)@.len() as int) == old(out)@
            &&& n < vstd::arithmetic::power::pow(10, len as nat)
            &&& n > 0 ==> n >= vstd::arithmetic::power::pow(10, (len - 1) as nat)
            &&& n == 0 ==> len == 1
            &&& forall|i: int|
                0 <= i < len ==> #[trigger] final(out)@[old(out)@.len() + i]
                    == "0123456789abcdef"@[n as int / vstd::arithmetic::power::pow(
                    10,
                    (len - 1 - i) as nat,
                ) % 10]
        }),
{
    let t = decimal(n as nat);
    lemma_decimal_len(n as nat);
    assert(final(out)@.take(out@.len() as int) =~= out@);
    assert forall|i: int| 0 <= i < t.len() implies #[trigger] final(out)@[out@.len() + i]
        == "0123456789abcdef"@[n as int / vstd::arithmetic::power::pow(
        10,
        (t.len() - 1 - i) as nat,
    ) % 10] by {
        lemma_decimal_place(n as nat, i);
        let p = vstd::arithmetic::power::pow(10, (t.len() - 1 - i) as nat);
        vstd::arithmetic::power::lemma_pow_positive(10, (t.len() - 1 - i) as nat);
        assert(n as int / p >= 0) by (nonlinear_arith)
            requires
                n >= 0,
                p > 0,
        ;
        lemma_digit((n as int / p % 10) as nat);
        assert(final(out)@[out@.len() + i] == t[i]);
    }
}

/// The number that digits write is made up of its parts: of one digit it is that
/// digit, and of two pieces it is the first, moved to the left by the length of the
/// second, and the second.
pub proof fn law_number_is_made_up_of_its_digits(a: Seq<char>, b: Seq<char>, c: char)
    ensures
        digits_value(seq![c]) == (c as int - 48) as nat,
        digits_value(a + b) == digits_value(a) * vstd::arithmetic::power::pow(10, b.len())
            + digits_value(b),
    decreases b.len(),
{
    assert(seq![c].drop_last() =~= Seq::<char>::empty());
    assert(digits_value(seq![c].drop_last()) == 0);
    vstd::arithmetic::power::lemma_pow0(10);
    if b.len() == 0 {
        assert(a + b =~= a);
        assert(digits_value(a) * 1 == digits_value(a));
    } else {
        let t = b.drop_last();
        law_number_is_made_up_of_its_digits(a, t, c);
        assert((a + b).drop_last() =~= a + t);
        assert((a + b).last() == b.last());
        vstd::arithmetic::power::lemma_pow1(10);
        vstd::arithmetic::power::lemma_pow_adds(10, 1, t.len());
        let x = digits_value(a) as int;
        let p = vstd::arithmetic::power::pow(10, t.len());
        assert(x * (10 * p) == x * p * 10) by (nonlinear_arith);
        assert((x * p + digits_value(t)) * 10 == x * p * 10 + digits_value(t) * 10)
            by (nonlinear_arith);
    }
}

/// A number is read exactly where there are digits and nothing else, behind a plus
/// sign or not, and they write a number that fits.
pub proof fn law_number_is_read_exactly_where_one_is_written(
    chars: &Vec<char>,
    from: usize,
    to: usize,
    r: Option<usize>,
    d: Seq<char>,
)
    requires
        call_ensures(parse_usize, (chars, from, to), r),
        from <= to <= chars@.len(),
        d == if from < to && chars@[from as int] == '+' {
            chars@.subrange(from + 1, to as int)
        } else {
            chars@.subrange(from as int, to as int)
        },
    ensures
        r is Some <==> d.len() > 0 && digits_value(d) <= usize::MAX && forall|i: int|
            0 <= i < d.len() ==> '0' <= #[trigger] d[i] <= '9',
        r matches Some(n) ==> n == digits_value(d),
{
    let s = chars@.subrange(from as int, to as int);
    assert(d =~= without_plus(s));
    if forall|i: int| 0 <= i < d.len() ==> '0' <= #[trigger] d[i] <= '9' {
        assert forall|i: int| 0 <= i < d.len() implies is_digit(#[trigger] d[i]) by {}
    }
    if all_digits(d) {
        assert forall|i: int| 0 <= i < d.len() implies '0' <= #[trigger] d[i] <= '9' by {
            assert(is_digit(d[i]));
        }
    }
}

/// The characters that count as white space are these twenty-five.
pub proof fn law_white_space_is_these_characters(c: char, b: bool)
    requires
        call_ensures(white, (c,), b),
    ensures
        b <==> seq![
            0x9int, 0xa, 0xb, 0xc, 0xd, 0x20, 0x85, 0xa0, 0x1680, 0x2000, 0x2001, 0x2002, 0x2003,
            0x2004, 0x2005, 0x2006, 0x2007, 0x2008, 0x2009, 0x200a, 0x2028, 0x2029, 0x202f, 0x205f,
            0x3000,
        ].contains(c as int),
{
    let all = seq![
        0x9int, 0xa, 0xb, 0xc, 0xd, 0x20, 0x85, 0xa0, 0x1680, 0x2000, 0x2001, 0x2002, 0x2003,
        0x2004, 0x2005, 0x2006, 0x2007, 0x2008, 0x2009, 0x200a, 0x2028, 0x2029, 0x202f, 0x205f,
        0x3000,
    ];
    let n = c as int;
    if 0x9 <= n <= 0xd {
        assert(all[n - 0x9] == n);
    } else if 0x2000 <= n <= 0x200a {
        assert(all[9 + n - 0x2000] == n);
    } else {
        assert(all[5] == 0x20 && all[6] == 0x85 && all[7] == 0xa0 && all[8] == 0x1680);
        assert(all[20] == 0x2028 && all[21] == 0x2029 && all[22] == 0x202f && all[23] == 0x205f
            && all[24] == 0x3000);
    }
}

proof fn lemma_trim_start_cut(s: Seq<char>) -> (k: int)
    ensures
        0 <= k <= s.len(),
        trim_start(s) == s.subrange(k, s.len() as int),
        forall|i: int| 0 <= i < k ==> is_white(#[trigger] s[i]),
        k < s.len() ==> !is_white(s[k]),
    decreases s.len(),
{
    if s.len() > 0 && is_white(s[0]) {
        let t = s.drop_first();
        let k = lemma_trim_start_cut(t);
        assert(t.subrange(k, t.len() as int) =~= s.subrange(k + 1, s.len() as int));
        assert forall|i: int| 0 <= i < k + 1 implies is_white(#[trigger] s[i]) by {
            if i > 0 {
                assert(t[i - 1] == s[i]);
            }
        }
        k + 1
    } else {
        assert(s.subrange(0, s.len() as int) =~= s);
        0
    }
}

proof fn lemma_trim_end_cut(s: Seq<char>) -> (k: int)
    ensures
        0 <= k <= s.len(),
        trim_end(s) == s.subrange(0, k),
        forall|i: int| k <= i < s.len() ==> is_white(#[trigger] s[i]),
        k > 0 ==> !is_white(s[k - 1]),
    decreases s.len(),
{
    if s.len() > 0 && is_white(s.last()) {
        let t = s.drop_last();
        let k = lemma_trim_end_cut(t);
        assert(t.subrange(0, k) =~= s.subrange(0, k));
        assert forall|i: int| k <= i < s.len() implies is_white(#[trigger] s[i]) by {
            if i < t.len() {
                assert(t[i] == s[i]);
            }
        }
        k
    } else {
        assert(s.subrange(0, s.len() as int) =~= s);
        s.len() as int
    }
}

/// Trimming takes white space away at both ends, all of it, and nothing else.
pub proof fn law_trimming_takes_exactly_the_white_space_around(s: Seq<char>)
    ensures
        exists|a: int, b: int|
            0 <= a <= b <= s.len() && #[trigger] s.subrange(a, b) == trimmed(s) && (forall|i: int|
                0 <= i < a || b <= i < s.len() ==> is_white(#[trigger] s[i])),
        trimmed(s).len() > 0 ==> !is_white(trimmed(s)[0]) && !is_white(trimmed(s).last()),
{
    let a = lemma_trim_start_cut(s);
    let t = trim_start(s);
    let k = lemma_trim_end_cut(t);
    assert(t.subrange(0, k) =~= s.subrange(a, a + k));
    assert forall|i: int| 0 <= i < a || a + k <= i < s.len() implies is_white(#[trigger] s[i]) by {
        if i >= a + k {
            assert(t[i - a] == s[i]);
        }
    }
    if k > 0 {
        assert(t[0] == s[a]);
    }
}

/// Two texts are the same exactly if they hold the same characters.
pub proof fn law_same_text_is_equality(a: &str, b: &str, r: bool)
    requires
        call_ensures(same_text, (a, b), r),
    ensures
        r <==> a@.len() == b@.len() && forall|i: int| 0 <= i < a@.len() ==> #[trigger] a@[i] == b@[i],
{
    if a@.len() == b@.len() && forall|i: int| 0 <= i < a@.len() ==> #[trigger] a@[i] == b@[i] {
        assert(a@ =~= b@);
    }
}

/// The characters of a string, one by one.
pub proof fn law_characters_are_those_of_the_string(s: &str, v: Vec<char>)
    requires
        call_ensures(chars_of, (s,), v),
    ensures
        v@.len() == s@.len(),
        forall|i: int| 0 <= i < v@.len() ==> #[trigger] v@[i] == s@[i],
{
}

/// Trimming a text keeps the range from its first character that is no white space to
/// its last one; of white space alone nothing is left.
pub proof fn law_trim_keeps_from_the_first_to_the_last(
    chars: &Vec<char>,
    r: (usize, usize),
    first: int,
    last: int,
)
    requires
        call_ensures(trim, (chars,), r),
        0 <= first <= last < chars@.len(),
        !is_white(chars@[first]) && !is_white(chars@[last]),
        forall|i: int|
            0 <= i < first || last < i < chars@.len() ==> is_white(#[trigger] chars@[i]),
    ensures
        chars@.subrange(r.0 as int, r.1 as int) == chars@.subrange(first, last + 1),
{
    let s = chars@;
    law_trimming_takes_exactly_the_white_space_around(s);
    let (a, b) = choose|a: int, b: int|
        0 <= a <= b <= s.len() && #[trigger] s.subrange(a, b) == trimmed(s) && (forall|i: int|
            0 <= i < a || b <= i < s.len() ==> is_white(#[trigger] s[i]));
    assert(a <= first && last < b);
    assert(trimmed(s).len() == b - a);
    assert(trimmed(s)[0] == s[a]);
    assert(trimmed(s).last() == s[b - 1]);
    assert(a == first) by {
        if a < first {
            assert(is_white(s[a]));
        }
    }
    assert(b == last + 1) by {
        if b - 1 > last {
            assert(is_white(s[b - 1]));
        }
    }
}

/// Of white space alone nothing is left.
pub proof fn law_white_space_is_trimmed_away(chars: &Vec<char>, r: (usize, usize))
    requires
        call_ensures(trim, (chars,), r),
        forall|i: int| 0 <= i < chars@.len() ==> is_white(#[trigger] chars@[i]),
    ensures
        r.0 == r.1,
{
    let s = chars@;
    law_trimming_takes_exactly_the_white_space_around(s);
    let t = trimmed(s);
    let (a, b) = choose|a: int, b: int|
        0 <= a <= b <= s.len() && #[trigger] s.subrange(a, b) == t && (forall|i: int|
            0 <= i < a || b <= i < s.len() ==> is_white(#[trigger] s[i]));
    if t.len() > 0 {
        assert(t[0] == s[a]);
    }
    assert(t.len() == r.1 - r.0);
}

} // verus!
