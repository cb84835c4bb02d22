//! HRESULT values: the codes this library gives and reads, and how one is
//! written in a message.

use vstd::prelude::*;
use vstd::string::*;
use crate::text::push_hex;

verus! {

/// A COM / Win32 result code; negative means failure.
pub type HRESULT = i32;

/// The bit pattern of `hr`, as an unsigned number.
pub open spec fn code_of(hr: HRESULT) -> int {
    if hr < 0 {
        hr + 0x1_0000_0000
    } else {
        hr as int
    }
}

/// The bit pattern of `hr` (`hr as u32`).
pub fn hresult_code(hr: HRESULT) -> (code: u32)
    ensures
        code == code_of(hr),
{
    let code: u32 = #[verifier::truncate] (hr as u32);
    assert(hr < 0 ==> code == hr + 0x1_0000_0000) by (bit_vector)
        requires
            code == hr as u32,
    ;
    assert(hr >= 0 ==> code == hr) by (bit_vector)
        requires
            code == hr as u32,
    ;
    code
}

/// How `hr` is written: `0x` and eight hexadecimal digits.
pub open spec fn hresult_text(hr: HRESULT) -> Seq<char> {
    "0x"@ + crate::text::hex_fixed(code_of(hr) as nat, 8)
}

/// `prefix`, followed by `hr` as `0x` and eight hexadecimal digits.
pub fn with_hresult(prefix: &str, hr: HRESULT) -> (s: String)
    ensures
        s@ == prefix@ + hresult_text(hr),
{
    let mut s = prefix.to_owned();
    s.append("0x");
    push_hex(&mut s, hresult_code(hr) as u64, 8);
    assert(s@ =~= prefix@ + hresult_text(hr));
    s
}

/// The code of a result is its 32 bits as an unsigned number: a failure is at least
/// 2^31.
pub proof fn law_code_is_the_bit_pattern(hr: HRESULT, code: u32)
    requires
        call_ensures(hresult_code, (hr,), code),
    ensures
        hr >= 0 ==> code == hr,
        hr < 0 ==> code == hr + 0x1_0000_0000 && code >= 0x8000_0000,
{
}

/// A result is written behind the prefix as `0x` and the eight hexadecimal digits of
/// its code, most significant first.
pub proof fn law_result_is_written_in_hexadecimal(prefix: &str, hr: HRESULT, s: String)
    requires
        call_ensures(with_hresult, (prefix, hr), s),
    ensures
        s@.len() == prefix@.len() + 10,
        s@.take(prefix@.len() as int) == prefix@,
        s@[prefix@.len() as int] == '0' && s@[prefix@.len() as int + 1] == 'x',
        forall|i: int|
            0 <= i < 8 ==> #[trigger] s@[prefix@.len() as int + 2 + i] == "0123456789abcdef"@[(
            if hr < 0 {
                hr + 0x1_0000_0000
            } else {
                hr as int
            }) / vstd::arithmetic::power::pow(16, (7 - i) as nat) % 16],
{
    reveal_strlit("0x");
    assert forall|i: int| 0 <= i < 8 implies #[trigger] s@[prefix@.len() as int + 2 + i]
        == "0123456789abcdef"@[(if hr < 0 {
        hr + 0x1_0000_0000
    } else {
        hr as int
    }) / vstd::arithmetic::power::pow(16, (7 - i) as nat) % 16] by {
        crate::text::lemma_hex_digit_at(code_of(hr) as nat, 8, i);
    }
    crate::text::lemma_hex_digit_at(code_of(hr) as nat, 8, 0);
    assert(s@.take(prefix@.len() as int) =~= prefix@);
}

} // verus!
