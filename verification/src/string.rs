//! Godot string-to-number conversions and character classes.
use vstd::prelude::*;
use vstd::string::StringSliceAdditionalSpecFns;
use crate::util::{NPeekable, str_chars};

verus! {

/// `c` is an ASCII decimal digit.
pub open spec fn is_digit_char(c: char) -> bool {
    '0' <= c && c <= '9'
}

/// The value of an ASCII decimal digit.
pub open spec fn digit_value(c: char) -> int {
    c as int - '0' as int
}

/// Value of a hexadecimal digit as Godot's `hex_to_int` reads it (letters in either case), or -1
/// when it rejects the character. Note that `a`/`A` is rejected: only `b`..`f` count as letter
/// digits.
pub open spec fn hex_digit_value(c: char) -> int {
    if is_digit_char(c) {
        digit_value(c)
    } else if 'b' <= c && c <= 'f' {
        c as int - 'a' as int + 10
    } else if 'B' <= c && c <= 'F' {
        c as int - 'A' as int + 10
    } else {
        -1
    }
}

/// Value of a binary digit, or -1 for any other character.
pub open spec fn bin_digit_value(c: char) -> int {
    if c == '0' { 0 } else if c == '1' { 1 } else { -1 }
}

/// Value of a sequence of digits in `base`, most significant first, with `dv` giving each
/// digit's value.
pub open spec fn digits_value(ds: Seq<char>, base: int, dv: spec_fn(char) -> int) -> int
    decreases ds.len(),
{
    if ds.len() == 0 {
        0
    } else {
        digits_value(ds.drop_last(), base, dv) * base + dv(ds.last())
    }
}

/// Every character of `ds` is a digit for `dv`.
pub open spec fn all_digits(ds: Seq<char>, dv: spec_fn(char) -> int) -> bool {
    forall|i: int| 0 <= i < ds.len() ==> #[trigger] dv(ds[i]) >= 0
}

/// The input with a leading `-` removed, if there is one.
pub open spec fn strip_minus(s: Seq<char>) -> Seq<char> {
    if s.len() > 0 && s[0] == '-' { s.skip(1) } else { s }
}

/// -1 if the input starts with `-`, else 1.
pub open spec fn minus_sign(s: Seq<char>) -> int {
    if s.len() > 0 && s[0] == '-' { -1 } else { 1 }
}

/// The digits that `hex_to_int` reads: after an optional `-` and an optional `0x`/`0X`.
pub open spec fn hex_body(s: Seq<char>) -> Seq<char> {
    let a = strip_minus(s);
    if a.len() >= 2 && a[0] == '0' && (a[1] == 'x' || a[1] == 'X') { a.skip(2) } else { a }
}

/// The digits that `bin_to_int` reads: after an optional `-` and an optional `0b`/`0B` (the prefix
/// is only skipped when the whole string is longer than two bytes).
pub open spec fn bin_body(s: Seq<char>, byte_len: nat) -> Seq<char> {
    let a = strip_minus(s);
    if byte_len > 2 && a.len() >= 2 && a[0] == '0' && (a[1] == 'b' || a[1] == 'B') { a.skip(2) } else { a }
}

/// Index of the first character of `ds` that is not a digit for `dv` (or its length).
pub open spec fn first_non_digit(ds: Seq<char>, dv: spec_fn(char) -> int) -> int
    decreases ds.len(),
{
    if ds.len() == 0 {
        0
    } else if dv(ds[0]) < 0 {
        0
    } else {
        1 + first_non_digit(ds.skip(1), dv)
    }
}

pub open spec fn hex_dv() -> spec_fn(char) -> int {
    |c: char| hex_digit_value(c)
}

pub open spec fn bin_dv() -> spec_fn(char) -> int {
    |c: char| bin_digit_value(c)
}

pub open spec fn dec_dv() -> spec_fn(char) -> int {
    |c: char| if is_digit_char(c) { digit_value(c) } else { -1 }
}

/// Result of Godot's `String::hex_to_int` on the characters `s`.
pub open spec fn spec_hex_to_int(s: Seq<char>) -> int {
    minus_sign(s) * digits_value(hex_body(s), 16, hex_dv())
}

/// Inputs on which `hex_to_int` returns (rather than failing on a bad digit or overflow).
pub open spec fn hex_to_int_accepts(s: Seq<char>) -> bool {
    &&& all_digits(hex_body(s), hex_dv())
    &&& digits_value(hex_body(s), 16, hex_dv()) <= i64::MAX
}

/// Result of Godot's `String::bin_to_int` on the characters `s` (of `byte_len` UTF-8 bytes):
/// 0 as soon as a non-binary character is met.
pub open spec fn spec_bin_to_int(s: Seq<char>, byte_len: nat) -> int {
    let body = bin_body(s, byte_len);
    if all_digits(body, bin_dv()) {
        minus_sign(s) * digits_value(body, 2, bin_dv())
    } else {
        0
    }
}

/// Inputs on which `bin_to_int` returns: the digits read before any bad character fit in an `i64`.
pub open spec fn bin_to_int_accepts(s: Seq<char>, byte_len: nat) -> bool {
    let body = bin_body(s, byte_len);
    digits_value(body.take(first_non_digit(body, bin_dv())), 2, bin_dv()) <= i64::MAX
}

/// A character `to_int` reacts to before it has seen a sign or a digit.
pub open spec fn is_number_start(c: char) -> bool {
    is_digit_char(c) || c == '-' || c == '+'
}

/// Index of the first digit, `-` or `+` in `s` (or its length).
pub open spec fn first_number_start(s: Seq<char>) -> int
    decreases s.len(),
{
    if s.len() == 0 {
        0
    } else if is_number_start(s[0]) {
        0
    } else {
        1 + first_number_start(s.skip(1))
    }
}

/// The sign `to_int` uses.
pub open spec fn to_int_sign(s: Seq<char>) -> int {
    let i = first_number_start(s);
    if i < s.len() && s[i] == '-' { -1 } else { 1 }
}

/// The run of digits `to_int` reads: after skipping characters that are neither digits nor signs,
/// and one sign character, the digits up to the first non-digit.
pub open spec fn to_int_digits(s: Seq<char>) -> Seq<char> {
    let i = first_number_start(s);
    let rest = if i < s.len() && !is_digit_char(s[i]) { s.skip(i + 1) } else { s.skip(i) };
    rest.take(first_non_digit(rest, dec_dv()))
}

/// Result of Godot's `String::to_int` on the characters `s`.
pub open spec fn spec_to_int(s: Seq<char>) -> int {
    to_int_sign(s) * digits_value(to_int_digits(s), 10, dec_dv())
}

/// Inputs on which `to_int` returns (the digits read fit in an `i64`).
pub open spec fn to_int_accepts(s: Seq<char>) -> bool {
    digits_value(to_int_digits(s), 10, dec_dv()) <= i64::MAX
}

/// Prefixes of a digit string never have a larger value than the whole string.
pub proof fn lemma_digits_value_prefix(ds: Seq<char>, i: int, base: int, dv: spec_fn(char) -> int)
    requires
        0 <= i <= ds.len(),
        base >= 1,
        all_digits(ds, dv),
    ensures
        0 <= digits_value(ds.take(i), base, dv) <= digits_value(ds, base, dv),
    decreases ds.len(),
{
    if ds.len() == 0 {
        assert(ds.take(i) =~= ds);
    } else if i == ds.len() {
        assert(ds.take(i) =~= ds);
        lemma_digits_value_prefix(ds.drop_last(), i - 1, base, dv);
        assert(ds.drop_last().take(i - 1) =~= ds.drop_last().take(i - 1));
        lemma_digits_value_nonneg(ds, base, dv);
    } else {
        assert(all_digits(ds.drop_last(), dv)) by {
            assert forall|k: int| 0 <= k < ds.drop_last().len() implies #[trigger] dv(ds.drop_last()[k]) >= 0 by {
                assert(ds.drop_last()[k] == ds[k]);
            }
        }
        lemma_digits_value_prefix(ds.drop_last(), i, base, dv);
        assert(ds.drop_last().take(i) =~= ds.take(i));
        lemma_digits_value_nonneg(ds.drop_last(), base, dv);
        assert(dv(ds[ds.len() - 1]) >= 0);
        let v = digits_value(ds.drop_last(), base, dv);
        assert(v * base >= v) by (nonlinear_arith)
            requires v >= 0, base >= 1;
    }
}

/// Digit strings have non-negative values.
pub proof fn lemma_digits_value_nonneg(ds: Seq<char>, base: int, dv: spec_fn(char) -> int)
    requires
        base >= 1,
        all_digits(ds, dv),
    ensures
        digits_value(ds, base, dv) >= 0,
    decreases ds.len(),
{
    if ds.len() > 0 {
        assert(all_digits(ds.drop_last(), dv)) by {
            assert forall|k: int| 0 <= k < ds.drop_last().len() implies #[trigger] dv(ds.drop_last()[k]) >= 0 by {
                assert(ds.drop_last()[k] == ds[k]);
            }
        }
        lemma_digits_value_nonneg(ds.drop_last(), base, dv);
        assert(dv(ds[ds.len() - 1]) >= 0);
        let v = digits_value(ds.drop_last(), base, dv);
        assert(v * base >= 0) by (nonlinear_arith)
            requires v >= 0, base >= 1;
    }
}

/// Whether the item `offset` places ahead is `c`.
fn peek_is(chars: &mut NPeekable<char>, offset: usize, c: char) -> (r: bool)
    ensures
        final(chars)@ == old(chars)@,
        r == (offset < old(chars)@.len() && old(chars)@[offset as int] == c),
{
    match chars.peek(offset) {
        Some(x) => x == c,
        None => false,
    }
}

/// Whether the item `offset` places ahead is `a` or `b`.
fn peek_is_either(chars: &mut NPeekable<char>, offset: usize, a: char, b: char) -> (r: bool)
    ensures
        final(chars)@ == old(chars)@,
        r == (offset < old(chars)@.len() && (old(chars)@[offset as int] == a || old(chars)@[offset as int] == b)),
{
    match chars.peek(offset) {
        Some(x) => x == a || x == b,
        None => false,
    }
}

/// Parses a hexadecimal integer the way Godot's `String::hex_to_int` does: an optional `-`, an
/// optional `0x`/`0X` prefix, then digits.
pub fn hex_to_int(s: &str) -> (r: i64)
    requires
        hex_to_int_accepts(s@),
    ensures
        r == spec_hex_to_int(s@),
{
    match hex_to_int_checked(s) {
        Some(v) => v,
        None => {
            proof { assert(false); }
            0
        },
    }
}

/// `hex_to_int`, or `None` on the inputs it rejects (a character that is not a digit it reads, or
/// a value beyond `i64`).
pub fn hex_to_int_checked(s: &str) -> (r: Option<i64>)
    ensures
        r is Some <==> hex_to_int_accepts(s@),
        r matches Some(v) ==> v == spec_hex_to_int(s@),
{
    if s.is_empty() {
        proof {
            assert(hex_body(s@).len() == 0);
            assert(digits_value(hex_body(s@), 16, hex_dv()) == 0);
        }
        return Some(0);
    }
    let ghost body = hex_body(s@);
    let mut chars = NPeekable::new(str_chars(s));
    let sign: i64 = if peek_is(&mut chars, 0, '-') {
        chars.next();
        -1
    } else {
        1
    };
    assert(chars@ == strip_minus(s@));
    if peek_is(&mut chars, 0, '0') && peek_is_either(&mut chars, 1, 'x', 'X') {
        chars.next();
        chars.next();
    }
    assert(chars@ =~= body);
    let mut result: i64 = 0;
    let ghost mut k: int = 0;
    proof {
        assert(body.take(0) =~= Seq::<char>::empty());
    }
    while chars.remaining() > 0
        invariant
            0 <= k <= body.len(),
            chars@ == body.skip(k),
            result == digits_value(body.take(k), 16, hex_dv()),
            0 <= result,
            all_digits(body.take(k), hex_dv()),
            body == hex_body(s@),
        decreases body.len() - k,
    {
        let ch = match chars.next() {
            Some(c) => c,
            None => { proof { assert(false); } '0' }
        };
        assert(ch == body[k]);
        let n: i64 = if '0' <= ch && ch <= '9' {
            (ch as u32 - '0' as u32) as i64
        } else if 'b' <= ch && ch <= 'f' {
            (ch as u32 - 'a' as u32 + 10) as i64
        } else if 'B' <= ch && ch <= 'F' {
            (ch as u32 - 'A' as u32 + 10) as i64
        } else {
            proof {
                assert(hex_dv()(body[k]) < 0);
                assert(!all_digits(body, hex_dv()));
            }
            return None;
        };
        assert(n == hex_digit_value(ch));
        proof {
            assert(body.take(k + 1).drop_last() =~= body.take(k));
            assert(body.take(k + 1).last() == body[k]);
            assert(body.skip(k).drop_first() =~= body.skip(k + 1));
            assert(all_digits(body.take(k + 1), hex_dv())) by {
                assert forall|i: int| 0 <= i < k + 1 implies #[trigger] hex_dv()(body.take(k + 1)[i]) >= 0 by {
                    if i < k {
                        assert(body.take(k + 1)[i] == body.take(k)[i]);
                    }
                }
            }
        }
        if result > (i64::MAX - n) / 16 {
            proof {
                let ni = n as int;
                let ri = result as int;
                assert(ri * 16 + ni > i64::MAX) by (nonlinear_arith)
                    requires ri > (i64::MAX - ni) / 16, 0 <= ni < 16;
                assert(digits_value(body.take(k + 1), 16, hex_dv()) > i64::MAX);
                if all_digits(body, hex_dv()) {
                    lemma_digits_value_prefix(body, k + 1, 16, hex_dv());
                }
            }
            return None;
        }
        result = result * 16 + n;
        proof { k = k + 1; }
    }
    assert(body.take(k) =~= body);
    assert(sign == minus_sign(s@));
    Some(result * sign)
}

/// Parses a binary integer the way Godot's `String::bin_to_int` does: an optional `-`, an
/// optional `0b`/`0B` prefix (only when the string is longer than two bytes), then digits; any
/// non-binary character makes the result 0.
pub fn bin_to_int(s: &str) -> (r: i64)
    requires
        bin_to_int_accepts(s@, s.spec_bytes().len()),
    ensures
        r == spec_bin_to_int(s@, s.spec_bytes().len()),
{
    match bin_to_int_checked(s) {
        Some(v) => v,
        None => {
            proof { assert(false); }
            0
        },
    }
}

/// `bin_to_int`, or `None` on the inputs it rejects (a value beyond `i64` in the digits it reads).
pub fn bin_to_int_checked(s: &str) -> (r: Option<i64>)
    ensures
        r is Some <==> bin_to_int_accepts(s@, s.spec_bytes().len()),
        r matches Some(v) ==> v == spec_bin_to_int(s@, s.spec_bytes().len()),
{
    if s.is_empty() {
        proof {
            let body = bin_body(s@, s.spec_bytes().len());
            assert(body.len() == 0);
            assert(body.take(first_non_digit(body, bin_dv())) =~= body);
        }
        return Some(0);
    }
    let ghost body = bin_body(s@, s.spec_bytes().len());
    let ghost stop = first_non_digit(body, bin_dv());
    let mut chars = NPeekable::new(str_chars(s));
    let sign: i64 = if peek_is(&mut chars, 0, '-') {
        chars.next();
        -1
    } else {
        1
    };
    assert(chars@ == strip_minus(s@));
    if s.as_bytes().len() > 2 && peek_is(&mut chars, 0, '0') && peek_is_either(&mut chars, 1, 'b', 'B') {
        chars.next();
        chars.next();
    }
    assert(chars@ =~= body);
    proof { lemma_first_non_digit(body, bin_dv()); }
    let mut result: i64 = 0;
    let ghost mut k: int = 0;
    proof {
        assert(body.take(0) =~= Seq::<char>::empty());
    }
    while chars.remaining() > 0
        invariant
            0 <= k <= stop,
            stop <= body.len(),
            stop == first_non_digit(body, bin_dv()),
            forall|i: int| 0 <= i < stop ==> #[trigger] bin_dv()(body[i]) >= 0,
            stop < body.len() ==> bin_dv()(body[stop]) < 0,
            chars@ == body.skip(k),
            result == digits_value(body.take(k), 2, bin_dv()),
            0 <= result,
            body == bin_body(s@, s.spec_bytes().len()),
        decreases body.len() - k,
    {
        let ch = match chars.next() {
            Some(c) => c,
            None => { proof { assert(false); } '0' }
        };
        assert(ch == body[k]);
        if ch != '0' && ch != '1' {
            proof {
                assert(bin_dv()(body[k]) < 0);
                assert(k == stop);
                assert(!all_digits(body, bin_dv())) by {
                    assert(bin_dv()(body[k]) < 0);
                }
            }
            proof {
                assert(body.take(k) =~= body.take(stop));
            }
            return Some(0);
        }
        let n: i64 = (ch as u32 - '0' as u32) as i64;
        proof {
            assert(k < stop);
            assert(body.take(k + 1).drop_last() =~= body.take(k));
            assert(body.take(k + 1).last() == body[k]);
            let pre = body.take(stop);
            assert(all_digits(pre, bin_dv())) by {
                assert forall|i: int| 0 <= i < pre.len() implies #[trigger] bin_dv()(pre[i]) >= 0 by {
                    assert(pre[i] == body[i]);
                }
            }
            lemma_digits_value_prefix(pre, k + 1, 2, bin_dv());
            assert(pre.take(k + 1) =~= body.take(k + 1));
            assert(body.skip(k).drop_first() =~= body.skip(k + 1));
        }
        if result > (i64::MAX - n) / 2 {
            proof {
                let ni = n as int;
                let ri = result as int;
                assert(ri * 2 + ni > i64::MAX) by (nonlinear_arith)
                    requires ri > (i64::MAX - ni) / 2, 0 <= ni < 2;
            }
            return None;
        }
        result = result * 2 + n;
        proof { k = k + 1; }
    }
    proof {
        assert(k == body.len());
        assert(body.take(k) =~= body);
        assert(all_digits(body, bin_dv())) by {
            assert forall|i: int| 0 <= i < body.len() implies #[trigger] bin_dv()(body[i]) >= 0 by {
                assert(bin_dv()(body[i]) >= 0);
            }
        }
        lemma_digits_value_nonneg(body, 2, bin_dv());
    }
    proof {
        assert(body.take(stop) =~= body);
    }
    assert(sign == minus_sign(s@));
    Some(result * sign)
}

/// `first_non_digit` is the length of the longest prefix of digits.
pub proof fn lemma_first_non_digit(ds: Seq<char>, dv: spec_fn(char) -> int)
    ensures
        0 <= first_non_digit(ds, dv) <= ds.len(),
        forall|i: int| 0 <= i < first_non_digit(ds, dv) ==> #[trigger] dv(ds[i]) >= 0,
        first_non_digit(ds, dv) < ds.len() ==> dv(ds[first_non_digit(ds, dv)]) < 0,
    decreases ds.len(),
{
    if ds.len() > 0 && dv(ds[0]) >= 0 {
        lemma_first_non_digit(ds.skip(1), dv);
        assert forall|i: int| 0 <= i < first_non_digit(ds, dv) implies #[trigger] dv(ds[i]) >= 0 by {
            if i > 0 {
                assert(ds[i] == ds.skip(1)[i - 1]);
            }
        }
        if first_non_digit(ds, dv) < ds.len() {
            assert(ds[first_non_digit(ds, dv)] == ds.skip(1)[first_non_digit(ds.skip(1), dv)]);
        }
    }
}

/// `first_number_start` finds the first digit or sign character.
pub proof fn lemma_first_number_start(s: Seq<char>)
    ensures
        0 <= first_number_start(s) <= s.len(),
        forall|i: int| 0 <= i < first_number_start(s) ==> !is_number_start(#[trigger] s[i]),
        first_number_start(s) < s.len() ==> is_number_start(s[first_number_start(s)]),
    decreases s.len(),
{
    if s.len() > 0 && !is_number_start(s[0]) {
        lemma_first_number_start(s.skip(1));
        assert forall|i: int| 0 <= i < first_number_start(s) implies !is_number_start(#[trigger] s[i]) by {
            if i > 0 {
                assert(s[i] == s.skip(1)[i - 1]);
            }
        }
        if first_number_start(s) < s.len() {
            assert(s[first_number_start(s)] == s.skip(1)[first_number_start(s.skip(1))]);
        }
    }
}

/// States of the `to_int` scanner.
enum Reading {
    Sign,
    Int,
    Done,
}

/// Parses a decimal integer the way Godot's `String::to_int` does: characters before the first
/// digit or sign are skipped, one sign is read, then digits up to the first non-digit.
pub fn to_int(s: &str) -> (r: i64)
    requires
        to_int_accepts(s@),
    ensures
        r == spec_to_int(s@),
{
    match to_int_checked(s) {
        Some(v) => v,
        None => {
            proof { assert(false); }
            0
        },
    }
}

/// `to_int`, or `None` on the inputs it rejects (a value beyond `i64`).
pub fn to_int_checked(s: &str) -> (r: Option<i64>)
    ensures
        r is Some <==> to_int_accepts(s@),
        r matches Some(v) ==> v == spec_to_int(s@),
{
    if s.is_empty() {
        proof {
            lemma_first_number_start(s@);
            lemma_first_non_digit(s@, dec_dv());
            assert(to_int_digits(s@).len() == 0);
        }
        return Some(0);
    }
    let ghost cs = s@;
    let ghost i0 = first_number_start(cs);
    let ghost st: int = if i0 < cs.len() && !is_digit_char(cs[i0]) { i0 + 1 } else { i0 };
    let ghost rest = cs.skip(st);
    let ghost stop = first_non_digit(rest, dec_dv());
    proof {
        lemma_first_number_start(cs);
        lemma_first_non_digit(rest, dec_dv());
    }
    let mut integer: i64 = 0;
    let mut sign: i64 = 1;
    let mut reading = Reading::Sign;
    let mut chars = NPeekable::new(str_chars(s));
    let ghost mut j: int = 0;
    while chars.remaining() > 0
        invariant
            0 <= j <= cs.len(),
            chars@ == cs.skip(j),
            i0 == first_number_start(cs),
            0 <= i0 <= cs.len(),
            forall|i: int| 0 <= i < i0 ==> !is_number_start(#[trigger] cs[i]),
            i0 < cs.len() ==> is_number_start(cs[i0]),
            st == (if i0 < cs.len() && !is_digit_char(cs[i0]) { i0 + 1 } else { i0 }),
            rest == cs.skip(st),
            stop == first_non_digit(rest, dec_dv()),
            0 <= stop <= rest.len(),
            forall|i: int| 0 <= i < stop ==> #[trigger] dec_dv()(rest[i]) >= 0,
            stop < rest.len() ==> dec_dv()(rest[stop]) < 0,
            rest.take(stop) == to_int_digits(cs),
            cs == s@,
            reading is Sign ==> j <= i0 && integer == 0 && sign == 1,
            0 <= integer <= i64::MAX,
            sign == 1 || sign == -1,
            reading is Int ==> st <= j <= st + stop && sign == to_int_sign(cs)
                && integer == digits_value(rest.take(j - st), 10, dec_dv()),
            reading is Done ==> sign == to_int_sign(cs)
                && integer == digits_value(rest.take(stop), 10, dec_dv()),
        decreases cs.len() - j, if reading is Sign { 1int } else { 0int },
    {
        let ch = match chars.peek(0) {
            Some(c) => c,
            None => { proof { assert(false); } '0' }
        };
        assert(ch == cs[j]);
        match reading {
            Reading::Sign => {
                if '0' <= ch && ch <= '9' {
                    proof {
                        assert(is_number_start(cs[j]));
                        assert(j == i0);
                        assert(rest.take(0) =~= Seq::<char>::empty());
                    }
                    reading = Reading::Int;
                    continue;
                } else if ch == '-' {
                    proof { assert(is_number_start(cs[j])); assert(j == i0); }
                    sign = -1;
                    reading = Reading::Int;
                    proof { assert(rest.take(0) =~= Seq::<char>::empty()); }
                } else if ch == '+' {
                    proof { assert(is_number_start(cs[j])); assert(j == i0); }
                    sign = 1;
                    reading = Reading::Int;
                    proof { assert(rest.take(0) =~= Seq::<char>::empty()); }
                } else {
                    proof {
                        assert(!is_number_start(cs[j]));
                        if j == i0 {
                            assert(i0 < cs.len());
                        }
                    }
                }
            }
            Reading::Int => {
                let k = Ghost(j - st);
                assert(rest[k@] == ch);
                if '0' <= ch && ch <= '9' {
                    proof {
                        assert(dec_dv()(rest[k@]) >= 0);
                        if k@ == stop { assert(false); }
                        assert(rest.take(k@ + 1).drop_last() =~= rest.take(k@));
                        assert(rest.take(k@ + 1).last() == rest[k@]);
                        let pre = rest.take(stop);
                        assert(all_digits(pre, dec_dv())) by {
                            assert forall|i: int| 0 <= i < pre.len() implies #[trigger] dec_dv()(pre[i]) >= 0 by {
                                assert(pre[i] == rest[i]);
                            }
                        }
                        lemma_digits_value_prefix(pre, k@ + 1, 10, dec_dv());
                        assert(pre.take(k@ + 1) =~= rest.take(k@ + 1));
                    }
                    let n: i64 = (ch as u32 - '0' as u32) as i64;
                    if integer > (i64::MAX - n) / 10 {
                        proof {
                            let ni = n as int;
                            let ri = integer as int;
                            assert(ri * 10 + ni > i64::MAX) by (nonlinear_arith)
                                requires ri > (i64::MAX - ni) / 10, 0 <= ni < 10;
                        }
                        return None;
                    }
                    integer = integer * 10 + n;
                } else {
                    proof {
                        assert(dec_dv()(rest[k@]) < 0);
                        assert(k@ == stop);
                    }
                    reading = Reading::Done;
                }
            }
            Reading::Done => {}
        }
        chars.next();
        proof {
            assert(cs.skip(j).drop_first() =~= cs.skip(j + 1));
            j = j + 1;
        }
    }
    proof {
        assert(j == cs.len());
        if reading is Sign {
            assert(i0 == cs.len());
            assert(st == cs.len());
            assert(rest.len() == 0);
            assert(rest.take(stop) =~= Seq::<char>::empty());
        }
        if reading is Int {
            assert(j - st == stop);
        }
    }
    let r: i64 = if sign == 1 { integer } else { -integer };
    Some(r)
}

/// Godot's whitespace test (`is_whitespace` in `char_utils.h`); zero-width space counts only
/// when `counts_zwsp_as_whitespace` is set.
pub open spec fn spec_is_godot_whitespace(c: char, counts_zwsp_as_whitespace: bool) -> bool {
    let ch = c as u32;
    ch == 0x20 || ch == 0x00a0 || ch == 0x1680 || (0x2000 <= ch && ch <= 0x200a) || ch == 0x202f
        || ch == 0x205f || ch == 0x3000 || ch == 0x2028 || ch == 0x2029 || (0x0009 <= ch && ch
        <= 0x000d) || ch == 0x0085 || (counts_zwsp_as_whitespace && ch == 0x200b)
}

/// Whether `ch` is whitespace by Godot's definition.
pub fn is_godot_whitespace(ch: char, counts_zwsp_as_whitespace: bool) -> (r: bool)
    ensures
        r == spec_is_godot_whitespace(ch, counts_zwsp_as_whitespace),
{
    let ch = ch as u32;
    ch == 0x20 || ch == 0x00a0 || ch == 0x1680 || (0x2000 <= ch && ch <= 0x200a) || ch == 0x202f
        || ch == 0x205f || ch == 0x3000 || ch == 0x2028 || ch == 0x2029 || (0x0009 <= ch && ch
        <= 0x000d) || ch == 0x0085 || (counts_zwsp_as_whitespace && ch == 0x200b)
}

/// The `XID_Start` range table of `unicode-xid`, consulted for characters above U+007F.
pub uninterp spec fn xid_start_table(c: char) -> bool;

/// The `XID_Continue` range table of `unicode-xid`, consulted for characters above U+007F.
pub uninterp spec fn xid_continue_table(c: char) -> bool;

/// Unicode `XID_Start`, with the ASCII fast path of `unicode-xid` spelled out.
pub open spec fn spec_is_xid_start(c: char) -> bool {
    ('a' <= c && c <= 'z') || ('A' <= c && c <= 'Z') || ((c as u32) > 0x7f && xid_start_table(c))
}

/// Unicode `XID_Continue`, with the ASCII fast path of `unicode-xid` spelled out.
pub open spec fn spec_is_xid_continue(c: char) -> bool {
    ('a' <= c && c <= 'z') || ('A' <= c && c <= 'Z') || ('0' <= c && c <= '9') || c == '_'
        || ((c as u32) > 0x7f && xid_continue_table(c))
}

/// Calls `unicode_xid::UnicodeXID::is_xid_start`. Trusted: ASCII letters are accepted, other
/// ASCII characters rejected, and characters above U+007F are looked up in the crate's
/// `XID_Start` table, which is only named here.
#[verifier::external_body]
pub(crate) fn is_xid_start(c: char) -> (r: bool)
    ensures
        r == (('a' <= c && c <= 'z') || ('A' <= c && c <= 'Z') || ((c as u32) > 0x7f
            && xid_start_table(c))),
{
    unicode_xid::UnicodeXID::is_xid_start(c)
}

/// Calls `unicode_xid::UnicodeXID::is_xid_continue`. Trusted: ASCII letters, digits and `_` are
/// accepted, other ASCII characters rejected, and characters above U+007F are looked up in the
/// crate's `XID_Continue` table, which is only named here.
#[verifier::external_body]
pub(crate) fn is_xid_continue(c: char) -> (r: bool)
    ensures
        r == (('a' <= c && c <= 'z') || ('A' <= c && c <= 'Z') || ('0' <= c && c <= '9') || c
            == '_' || ((c as u32) > 0x7f && xid_continue_table(c))),
{
    unicode_xid::UnicodeXID::is_xid_continue(c)
}

/// Godot's identifier-start test: `_` or `XID_Start`.
pub open spec fn spec_is_godot_xid_start(c: char) -> bool {
    c == '_' || spec_is_xid_start(c)
}

/// Characters that may start a GDScript identifier.
pub trait GodotUnicodeXID {
    fn is_godot_xid_start(&self) -> bool;
}

impl GodotUnicodeXID for char {
    fn is_godot_xid_start(&self) -> (r: bool)
        ensures
            r == spec_is_godot_xid_start(*self),
    {
        *self == '_' || is_xid_start(*self)
    }
}

} // verus!
