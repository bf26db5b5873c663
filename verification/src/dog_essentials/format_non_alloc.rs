//! Numbers written out as text, into buffers of fixed size.

use vstd::arithmetic::div_mod::{
    lemma_div_decreases, lemma_div_pos_is_pos, lemma_mod_pos_bound, lemma_multiply_divide_lt,
    lemma_small_mod,
};
use vstd::prelude::*;
use vstd::slice::slice_subrange;
use vstd::string::{StrSliceExecFns, StringSliceAdditionalSpecFns};
use vstd::utf8::{
    decode_utf8, encode_utf8, encode_utf8_decode_utf8, encode_utf8_valid_utf8, is_ascii_chars,
    is_ascii_chars_encode_utf8, valid_utf8,
};

verus! {

/// The lowest base that a number can be written in.
pub const MIN_BASE: u64 = 2;

/// The highest base that a number can be written in: the ten digits and the
/// 26 capital letters.
pub const MAX_BASE: u64 = 36;

/// The character that stands for the digit `digit`: `0` to `9`, then `A` to
/// `Z`.
pub open spec fn digit_byte(digit: int) -> u8 {
    if digit < 10 {
        (48 + digit) as u8
    } else {
        (55 + digit) as u8
    }
}

/// The digits of `value` in base `base`, the highest first.
pub open spec fn digits(value: nat, base: nat) -> Seq<u8>
    decreases value,
{
    if base < 2 {
        Seq::empty()
    } else if value < base {
        seq![digit_byte(value as int)]
    } else {
        proof {
            lemma_div_decreases(value as int, base as int);
            lemma_div_pos_is_pos(value as int, base as int);
        }
        digits(value / base, base).push(digit_byte((value % base) as int))
    }
}

/// `value` in base 10 with a minus sign before the digits of a negative
/// number.
pub open spec fn signed_digits(value: int) -> Seq<u8> {
    if value < 0 {
        seq![45u8] + digits((-value) as nat, 10)
    } else {
        digits(value as nat, 10)
    }
}

/// The `exponent`-th power of `base`.
pub open spec fn power(base: nat, exponent: nat) -> nat
    decreases exponent,
{
    if exponent == 0 {
        1
    } else {
        base * power(base, (exponent - 1) as nat)
    }
}

/// A number below the `count`-th power of the base has at most `count`
/// digits, and at least one.
pub proof fn lemma_digits_len(value: nat, base: nat, count: nat)
    requires
        base >= 2,
        count >= 1,
        value < power(base, count),
    ensures
        1 <= digits(value, base).len() <= count,
    decreases value,
{
    if value >= base {
        assert(power(base, 1) == base) by {
            reveal_with_fuel(power, 2);
            assert(base * 1 == base);
        }
        assert(count >= 2);
        assert(power(base, count) == base * power(base, (count - 1) as nat));
        lemma_multiply_divide_lt(value as int, base as int, power(base, (count - 1) as nat) as int);
        lemma_div_decreases(value as int, base as int);
        lemma_div_pos_is_pos(value as int, base as int);
        lemma_digits_len(value / base, base, (count - 1) as nat);
    }
}

/// Powers grow with the base.
proof fn lemma_power_monotonic(small: nat, large: nat, exponent: nat)
    requires
        small <= large,
    ensures
        power(small, exponent) <= power(large, exponent),
    decreases exponent,
{
    if exponent > 0 {
        lemma_power_monotonic(small, large, (exponent - 1) as nat);
        assert(small * power(small, (exponent - 1) as nat) <= large * power(
            large,
            (exponent - 1) as nat,
        )) by (nonlinear_arith)
            requires
                small <= large,
                power(small, (exponent - 1) as nat) <= power(large, (exponent - 1) as nat),
        {}
    }
}

/// The power of a sum is the product of the powers.
proof fn lemma_power_add(base: nat, left: nat, right: nat)
    ensures
        power(base, left + right) == power(base, left) * power(base, right),
    decreases left,
{
    if left == 0 {
        assert(power(base, 0) == 1);
        assert(1 * power(base, right) == power(base, right));
    } else {
        lemma_power_add(base, (left - 1) as nat, right);
        assert(power(base, left + right) == base * power(base, (left - 1 + right) as nat));
        assert(base * (power(base, (left - 1) as nat) * power(base, right)) == (base * power(
            base,
            (left - 1) as nat,
        )) * power(base, right)) by (nonlinear_arith);
    }
}

/// A 64-bit number has at most 20 digits in base 10, and at most 64 in any
/// base.
pub proof fn lemma_u64_digits(value: u64, base: nat)
    requires
        base >= 2,
    ensures
        1 <= digits(value as nat, base).len() <= 64,
        base == 10 ==> digits(value as nat, base).len() <= 20,
{
    assert(power(2, 64) == 0x1_0000_0000_0000_0000) by {
        assert(power(2, 4) == 16) by {
            reveal_with_fuel(power, 5);
        }
        lemma_power_add(2, 4, 4);
        assert(power(2, 8) == 256);
        lemma_power_add(2, 8, 8);
        assert(power(2, 16) == 65536);
        lemma_power_add(2, 16, 16);
        assert(power(2, 32) == 0x1_0000_0000);
        lemma_power_add(2, 32, 32);
    }
    lemma_power_monotonic(2, base, 64);
    lemma_digits_len(value as nat, base, 64);
    if base == 10 {
        assert(power(10, 20) == 100_000_000_000_000_000_000) by {
            assert(power(10, 5) == 100_000) by {
                reveal_with_fuel(power, 6);
            }
            lemma_power_add(10, 5, 5);
            assert(power(10, 10) == 10_000_000_000);
            lemma_power_add(10, 10, 10);
        }
        lemma_digits_len(value as nat, base, 20);
    }
}

/// Whether every byte of `bytes` is an ASCII character.
pub open spec fn is_ascii_bytes(bytes: Seq<u8>) -> bool {
    forall|i: int| 0 <= i < bytes.len() ==> #[trigger] bytes[i] < 128
}

/// The characters that the ASCII bytes `bytes` stand for.
pub open spec fn ascii_text(bytes: Seq<u8>) -> Seq<char> {
    Seq::new(bytes.len(), |i: int| bytes[i] as char)
}

/// ASCII bytes are valid UTF-8, and the text that they encode has one
/// character for each byte.
pub proof fn lemma_ascii_text(bytes: Seq<u8>)
    requires
        is_ascii_bytes(bytes),
    ensures
        valid_utf8(bytes),
        encode_utf8(ascii_text(bytes)) == bytes,
        decode_utf8(bytes) == ascii_text(bytes),
{
    let chars = ascii_text(bytes);
    assert(is_ascii_chars(chars)) by {
        assert forall|i: int| 0 <= i < chars.len() implies '\0' <= #[trigger] chars[i]
            <= '\u{7f}' by {
            assert(bytes[i] < 128);
        }
    }
    is_ascii_chars_encode_utf8(chars);
    assert(encode_utf8(chars) =~= bytes) by {
        assert forall|i: int| 0 <= i < bytes.len() implies encode_utf8(chars)[i] == bytes[i] by {
            assert(chars[i] as u8 == encode_utf8(chars)[i]);
            assert(bytes[i] < 128);
        }
    }
    encode_utf8_valid_utf8(chars);
    encode_utf8_decode_utf8(chars);
}

/// The digits of a number in a base up to 36 are ASCII characters.
pub proof fn lemma_digits_ascii(value: nat, base: nat)
    requires
        2 <= base <= 36,
    ensures
        is_ascii_bytes(digits(value, base)),
    decreases value,
{
    if value >= base {
        lemma_div_decreases(value as int, base as int);
        lemma_div_pos_is_pos(value as int, base as int);
        lemma_digits_ascii(value / base, base);
        lemma_mod_pos_bound(value as int, base as int);
    }
}

/// Text of up to 21 bytes, built from its end: room for a 64-bit number in
/// base 10 with its sign.
pub struct FmtResult {
    buffer: [u8; 21],
    len: u32,
}

impl View for FmtResult {
    type V = Seq<u8>;

    /// The bytes of the text.
    closed spec fn view(&self) -> Seq<u8> {
        if self.len <= 21 {
            self.buffer@.subrange(21 - self.len, 21)
        } else {
            Seq::empty()
        }
    }
}

impl FmtResult {
    /// The buffer holds no more bytes than it has room for.
    pub closed spec fn wf(&self) -> bool {
        self.len <= 21
    }

    /// The empty text.
    pub fn new() -> (result: Self)
        ensures
            result.wf(),
            result@ == Seq::<u8>::empty(),
    {
        FmtResult { buffer: [0; 21], len: 0 }
    }

    /// The text as a string; the empty string when the bytes are no valid
    /// UTF-8.
    pub fn to_str(&self) -> (text: &str)
        ensures
            valid_utf8(self@) ==> text.spec_bytes() == self@,
            !valid_utf8(self@) ==> text@ == Seq::<char>::empty(),
            is_ascii_bytes(self@) ==> text@ == ascii_text(self@),
    {
        proof {
            if is_ascii_bytes(self@) {
                lemma_ascii_text(self@);
            }
        }
        if self.len > 21 {
            proof {
                reveal_strlit("");
                assert(valid_utf8(Seq::<u8>::empty())) by {
                    reveal_with_fuel(valid_utf8, 1);
                }
                assert("".spec_bytes() == Seq::<u8>::empty()) by {
                    reveal_with_fuel(vstd::utf8::encode_utf8, 1);
                }
            }
            return "";
        }
        let bytes = slice_subrange(self.buffer.as_slice(), (21 - self.len) as usize, 21);
        let result: Option<&str> = str_from_utf8(bytes);
        match result {
            Some(text) => {
                proof {
                    encode_utf8_decode_utf8(text@);
                }
                text
            },
            None => {
                proof {
                    reveal_strlit("");
                }
                ""
            },
        }
    }

    /// Puts `c` before the text. A full buffer stays as it is.
    pub fn push(&mut self, c: u8)
        requires
            old(self).wf(),
        ensures
            final(self).wf(),
            old(self)@.len() < 21 ==> final(self)@ == seq![c] + old(self)@,
            old(self)@.len() >= 21 ==> final(self)@ == old(self)@,
    {
        if self.len >= 21 {
            return ;
        }
        self.len = self.len + 1;
        self.buffer[(21 - self.len) as usize] = c;
        proof {
            assert(self@ =~= seq![c] + old(self)@);
        }
    }

    /// Number of bytes of the text.
    pub fn len(&self) -> (len: u32)
        requires
            self.wf(),
        ensures
            len == self@.len(),
    {
        self.len
    }
}

/// Text of up to 65 bytes, built from its end: room for a 64-bit number in
/// base 2 with its sign.
pub struct FmtResultBase {
    buffer: [u8; 65],
    len: u32,
}

impl View for FmtResultBase {
    type V = Seq<u8>;

    /// The bytes of the text.
    closed spec fn view(&self) -> Seq<u8> {
        if self.len <= 65 {
            self.buffer@.subrange(65 - self.len, 65)
        } else {
            Seq::empty()
        }
    }
}

impl FmtResultBase {
    /// The buffer holds no more bytes than it has room for.
    pub closed spec fn wf(&self) -> bool {
        self.len <= 65
    }

    /// The empty text.
    pub fn new() -> (result: Self)
        ensures
            result.wf(),
            result@ == Seq::<u8>::empty(),
    {
        FmtResultBase { buffer: [0; 65], len: 0 }
    }

    /// The text as a string; the empty string when the bytes are no valid
    /// UTF-8.
    pub fn to_str(&self) -> (text: &str)
        ensures
            valid_utf8(self@) ==> text.spec_bytes() == self@,
            !valid_utf8(self@) ==> text@ == Seq::<char>::empty(),
            is_ascii_bytes(self@) ==> text@ == ascii_text(self@),
    {
        proof {
            if is_ascii_bytes(self@) {
                lemma_ascii_text(self@);
            }
        }
        if self.len > 65 {
            proof {
                reveal_strlit("");
                assert(valid_utf8(Seq::<u8>::empty())) by {
                    reveal_with_fuel(valid_utf8, 1);
                }
                assert("".spec_bytes() == Seq::<u8>::empty()) by {
                    reveal_with_fuel(vstd::utf8::encode_utf8, 1);
                }
            }
            return "";
        }
        let bytes = slice_subrange(self.buffer.as_slice(), (65 - self.len) as usize, 65);
        let result: Option<&str> = str_from_utf8(bytes);
        match result {
            Some(text) => {
                proof {
                    encode_utf8_decode_utf8(text@);
                }
                text
            },
            None => {
                proof {
                    reveal_strlit("");
                }
                ""
            },
        }
    }

    /// Puts `c` before the text. A full buffer stays as it is.
    pub fn push(&mut self, c: u8)
        requires
            old(self).wf(),
        ensures
            final(self).wf(),
            old(self)@.len() < 65 ==> final(self)@ == seq![c] + old(self)@,
            old(self)@.len() >= 65 ==> final(self)@ == old(self)@,
    {
        if self.len >= 65 {
            return ;
        }
        self.len = self.len + 1;
        self.buffer[(65 - self.len) as usize] = c;
        proof {
            assert(self@ =~= seq![c] + old(self)@);
        }
    }

    /// Number of bytes of the text.
    pub fn len(&self) -> (len: u32)
        requires
            self.wf(),
        ensures
            len == self@.len(),
    {
        self.len
    }
}

/// Reads `bytes` as a string.
///
/// Calls `core::str::from_utf8`. The contract claims what the standard
/// library documents: the result is a string exactly when the bytes are
/// valid UTF-8, and the string then has these bytes.
#[verifier::external_body]
fn str_from_utf8(bytes: &[u8]) -> (text: Option<&str>)
    ensures
        text is Some <==> valid_utf8(bytes@),
        text is Some ==> text->0.spec_bytes() == bytes@,
{
    core::str::from_utf8(bytes).ok()
}

/// The character that stands for the digit `digit`.
fn digit_char(digit: u64) -> (c: u8)
    requires
        digit < 36,
    ensures
        c == digit_byte(digit as int),
{
    if digit < 10 {
        (48 + digit) as u8
    } else {
        (55 + digit) as u8
    }
}

/// How far a negative `value` is from zero.
fn magnitude(value: i64) -> (distance: u64)
    requires
        value < 0,
    ensures
        distance == -value,
{
    (-(value + 1)) as u64 + 1
}

/// Writes `value` in base 10, with a minus sign before a negative number.
pub fn i64_to_str(value: i64) -> (result: FmtResult)
    ensures
        result.wf(),
        result@ == signed_digits(value as int),
        is_ascii_bytes(result@),
{
    if value < 0 {
        let mut result: FmtResult = u64_to_str(magnitude(value));
        proof {
            lemma_u64_digits((-value) as u64, 10);
        }
        result.push(45);
        result
    } else {
        u64_to_str(value as u64)
    }
}

/// Writes `value` in base 10.
pub fn u64_to_str(value: u64) -> (result: FmtResult)
    ensures
        result.wf(),
        result@ == digits(value as nat, 10),
        is_ascii_bytes(result@),
{
    let mut result = FmtResult::new();
    let ghost whole = value;
    let mut value: u64 = value;
    proof {
        lemma_u64_digits(whole, 10);
        lemma_digits_ascii(whole as nat, 10);
    }
    loop
        invariant_except_break
            digits(whole as nat, 10) == digits(value as nat, 10) + result@,
        invariant
            result.wf(),
            digits(whole as nat, 10).len() <= 20,
        ensures
            result@ == digits(whole as nat, 10),
        decreases value,
    {
        proof {
            lemma_u64_digits(value, 10);
        }
        let ghost rest = result@;
        result.push(48 + (value % 10) as u8);
        let ghost digit = digit_byte(value as int % 10);
        if value < 10 {
            proof {
                assert(digits(value as nat, 10) == seq![digit]);
            }
            break ;
        }
        proof {
            assert(digits(value as nat, 10) == digits(value as nat / 10, 10).push(digit));
            assert(digits(value as nat / 10, 10).push(digit) + rest =~= digits(
                value as nat / 10,
                10,
            ) + (seq![digit] + rest));
        }
        value = value / 10;
    }
    result
}

/// Writes `value` in base 10, with a minus sign before a negative number.
pub fn i32_to_str(value: i32) -> (result: FmtResult)
    ensures
        result.wf(),
        result@ == signed_digits(value as int),
        is_ascii_bytes(result@),
{
    i64_to_str(value as i64)
}

/// Writes `value` in base 10.
pub fn u32_to_str(value: u32) -> (result: FmtResult)
    ensures
        result.wf(),
        result@ == digits(value as nat, 10),
        is_ascii_bytes(result@),
{
    u64_to_str(value as u64)
}

/// Writes `value` in base 10, with a minus sign before a negative number.
pub fn i16_to_str(value: i16) -> (result: FmtResult)
    ensures
        result.wf(),
        result@ == signed_digits(value as int),
        is_ascii_bytes(result@),
{
    i64_to_str(value as i64)
}

/// Writes `value` in base 10.
pub fn u16_to_str(value: u16) -> (result: FmtResult)
    ensures
        result.wf(),
        result@ == digits(value as nat, 10),
        is_ascii_bytes(result@),
{
    u64_to_str(value as u64)
}

/// Writes `value` in base 10, with a minus sign before a negative number.
pub fn i8_to_str(value: i8) -> (result: FmtResult)
    ensures
        result.wf(),
        result@ == signed_digits(value as int),
        is_ascii_bytes(result@),
{
    i64_to_str(value as i64)
}

/// Writes `value` in base 10.
pub fn u8_to_str(value: u8) -> (result: FmtResult)
    ensures
        result.wf(),
        result@ == digits(value as nat, 10),
        is_ascii_bytes(result@),
{
    u64_to_str(value as u64)
}

/// Writes `value` in base `base` with the digits `0` to `9` and `A` to
/// `Z`. A base below 2 or above 36 gives the empty text, and so does a
/// negative number: only what is not below zero has digits here.
pub fn i64_to_str_base(value: i64, base: u32) -> (result: FmtResultBase)
    ensures
        result.wf(),
        MIN_BASE <= base <= MAX_BASE && value >= 0 ==> result@ == digits(value as nat, base as nat),
        !(MIN_BASE <= base <= MAX_BASE && value >= 0) ==> result@ == Seq::<u8>::empty(),
        is_ascii_bytes(result@),
{
    if value < 0 {
        return FmtResultBase::new();
    }
    u64_to_str_base(value as u64, base)
}

/// Writes `value` in base `base` with the digits `0` to `9` and `A` to
/// `Z`. A base below 2 or above 36 gives the empty text.
pub fn u64_to_str_base(value: u64, base: u32) -> (result: FmtResultBase)
    ensures
        result.wf(),
        MIN_BASE <= base <= MAX_BASE ==> result@ == digits(value as nat, base as nat),
        !(MIN_BASE <= base <= MAX_BASE) ==> result@ == Seq::<u8>::empty(),
        is_ascii_bytes(result@),
{
    let mut result = FmtResultBase::new();
    let ghost whole = value;
    let mut value: u64 = value;
    let base: u64 = base as u64;
    if base < MIN_BASE || base > MAX_BASE {
        return FmtResultBase::new();
    }
    proof {
        lemma_u64_digits(whole, base as nat);
        lemma_digits_ascii(whole as nat, base as nat);
    }
    loop
        invariant_except_break
            digits(whole as nat, base as nat) == digits(value as nat, base as nat) + result@,
        invariant
            result.wf(),
            MIN_BASE <= base <= MAX_BASE,
            digits(whole as nat, base as nat).len() <= 64,
        ensures
            result@ == digits(whole as nat, base as nat),
        decreases value,
    {
        proof {
            lemma_u64_digits(value, base as nat);
            if value >= base {
                lemma_div_decreases(value as int, base as int);
            } else {
                lemma_small_mod(value as nat, base as nat);
            }
        }
        let ghost rest = result@;
        let idx: u64 = value % base;
        result.push(digit_char(idx));
        let ghost digit = digit_byte(idx as int);
        if value < base {
            proof {
                assert(digits(value as nat, base as nat) == seq![digit]);
            }
            break ;
        }
        proof {
            assert(digits(value as nat, base as nat) == digits(
                value as nat / base as nat,
                base as nat,
            ).push(digit));
            assert(digits(value as nat / base as nat, base as nat).push(digit) + rest =~= digits(
                value as nat / base as nat,
                base as nat,
            ) + (seq![digit] + rest));
        }
        value = value / base;
    }
    result
}

/// Whether `c` is one of the digits `0` to `9`.
pub open spec fn is_decimal_digit(c: char) -> bool {
    '0' <= c <= '9'
}

/// Whether every character of `text` but the first is a decimal digit.
pub open spec fn digits_follow(text: Seq<char>) -> bool {
    forall|i: int| 1 <= i < text.len() ==> is_decimal_digit(#[trigger] text[i])
}

/// Checks that `string` has the form of a whole number: one character,
/// which may be a minus sign, and then decimal digits only. The digits are
/// checked, and carry no weight: the value read is 0 for every text of that
/// form, and for the empty text. Any other text, one with a decimal point
/// too, gives `None`.
pub fn str_to_int(string: &str) -> (value: Option<i64>)
    ensures
        digits_follow(string@) ==> value == Some(0i64),
        !digits_follow(string@) ==> value is None,
{
    let len: usize = string.unicode_len();
    let mut i: usize = 1;
    while i < len
        invariant
            1 <= i,
            len == string@.len(),
            forall|k: int| 1 <= k < i && k < len ==> is_decimal_digit(#[trigger] string@[k]),
        decreases len - i,
    {
        let c: char = string.get_char(i);
        if !(c >= '0' && c <= '9') {
            return None;
        }
        i = i + 1;
    }
    Some(0)
}

} // verus!
