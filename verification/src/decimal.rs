//! Decimal text for the integer amounts that the ledger stores as strings.
use vstd::prelude::*;

verus! {

/// The ASCII digit for `d` (taken modulo ten).
pub open spec fn digit_char(d: nat) -> char {
    let r = d % 10;
    if r == 0 { '0' }
    else if r == 1 { '1' }
    else if r == 2 { '2' }
    else if r == 3 { '3' }
    else if r == 4 { '4' }
    else if r == 5 { '5' }
    else if r == 6 { '6' }
    else if r == 7 { '7' }
    else if r == 8 { '8' }
    else { '9' }
}

/// Canonical decimal text of a natural number: no sign, no leading zeros.
pub open spec fn decimal_nat(n: nat) -> Seq<char>
    decreases n,
{
    if n < 10 {
        seq![digit_char(n)]
    } else {
        decimal_nat(n / 10).push(digit_char(n % 10))
    }
}

/// Canonical decimal text of an integer, with a leading `-` when negative.
pub open spec fn decimal_int(i: int) -> Seq<char> {
    if i < 0 {
        seq!['-'] + decimal_nat((-i) as nat)
    } else {
        decimal_nat(i as nat)
    }
}

fn digit_str(d: u64) -> (s: &'static str)
    requires
        d < 10,
    ensures
        s@ == seq![digit_char(d as nat)],
{
    proof {
        reveal_strlit("0");
        reveal_strlit("1");
        reveal_strlit("2");
        reveal_strlit("3");
        reveal_strlit("4");
        reveal_strlit("5");
        reveal_strlit("6");
        reveal_strlit("7");
        reveal_strlit("8");
        reveal_strlit("9");
    }
    if d == 0 { "0" }
    else if d == 1 { "1" }
    else if d == 2 { "2" }
    else if d == 3 { "3" }
    else if d == 4 { "4" }
    else if d == 5 { "5" }
    else if d == 6 { "6" }
    else if d == 7 { "7" }
    else if d == 8 { "8" }
    else { "9" }
}

/// Decimal text of an unsigned amount, as `u128::to_string` writes it.
pub fn u128_to_string(n: u128) -> (s: String)
    ensures
        s@ == decimal_nat(n as nat),
    decreases n,
{
    if n < 10 {
        String::from_str(digit_str(n as u64))
    } else {
        let mut head = u128_to_string(n / 10);
        head.append(digit_str((n % 10) as u64));
        head
    }
}

/// Decimal text of an unsigned amount, as `u64::to_string` writes it.
pub fn u64_to_string(n: u64) -> (s: String)
    ensures
        s@ == decimal_nat(n as nat),
{
    u128_to_string(n as u128)
}


/// `c` is one of the ASCII digits `0`..`9`.
pub open spec fn is_digit(c: char) -> bool {
    '0' <= c && c <= '9'
}

/// Every character of `s` is an ASCII digit.
pub open spec fn all_digits(s: Seq<char>) -> bool {
    forall|i: int| 0 <= i < s.len() ==> is_digit(#[trigger] s[i])
}

/// The number that a run of ASCII digits spells, most significant first.
pub open spec fn digits_value(s: Seq<char>) -> nat
    decreases s.len(),
{
    if s.len() == 0 {
        0
    } else {
        digits_value(s.drop_last()) * 10 + ((s.last() as nat) - ('0' as nat)) as nat
    }
}

/// The digits after an optional leading `+`, as unsigned integer parsing reads them.
pub open spec fn unsigned_body(s: Seq<char>) -> Seq<char> {
    if s.len() > 0 && s[0] == '+' { s.skip(1) } else { s }
}

/// What `u64::from_str` gives back: an optional `+`, then at least one digit,
/// and a value that fits in 64 bits.
pub open spec fn spec_parse_u64(s: Seq<char>) -> Option<u64> {
    let body = unsigned_body(s);
    if body.len() > 0 && all_digits(body) && digits_value(body) <= u64::MAX {
        Some(digits_value(body) as u64)
    } else {
        None
    }
}

/// The sign-stripped digits of signed integer text.
pub open spec fn signed_body(s: Seq<char>) -> Seq<char> {
    if s.len() > 0 && (s[0] == '+' || s[0] == '-') { s.skip(1) } else { s }
}

/// The value of signed integer text whose body is all digits.
pub open spec fn signed_value(s: Seq<char>) -> int {
    if s.len() > 0 && s[0] == '-' {
        -(digits_value(signed_body(s)) as int)
    } else {
        digits_value(signed_body(s)) as int
    }
}

/// What `i64::from_str` gives back: an optional sign, then at least one digit,
/// and a value within the 64-bit signed range.
pub open spec fn spec_parse_i64(s: Seq<char>) -> Option<i64> {
    let body = signed_body(s);
    if body.len() > 0 && all_digits(body) && i64::MIN <= signed_value(s) <= i64::MAX {
        Some(signed_value(s) as i64)
    } else {
        None
    }
}

proof fn lemma_digits_value_prefix(s: Seq<char>, k: int)
    requires
        0 <= k <= s.len(),
        all_digits(s),
    ensures
        digits_value(s.take(k)) <= digits_value(s),
    decreases s.len() - k,
{
    if k < s.len() {
        lemma_digits_value_prefix(s, k + 1);
        assert(s.take(k + 1).drop_last() =~= s.take(k));
        assert(is_digit(s[k]));
    } else {
        assert(s.take(k) =~= s);
    }
}

/// Reads the digits of `s` from character `start` on. Gives `Some` exactly
/// when that tail is a non-empty run of digits whose value is at most `limit`.
fn parse_magnitude(s: &str, len: usize, start: usize, limit: u64) -> (r: Option<u64>)
    requires
        len == s@.len(),
        start <= len,
    ensures
        ({
            let body = s@.skip(start as int);
            match r {
                Some(v) => body.len() > 0 && all_digits(body) && v == digits_value(body)
                    && v <= limit,
                None => !(body.len() > 0 && all_digits(body) && digits_value(body) <= limit),
            }
        }),
{
    let ghost body = s@.skip(start as int);
    if start == len {
        return None;
    }
    let mut acc: u64 = 0;
    let mut i: usize = start;
    while i < len
        invariant
            len == s@.len(),
            start <= i <= len,
            body == s@.skip(start as int),
            all_digits(body.take(i - start)),
            acc == digits_value(body.take(i - start)),
            acc <= limit,
        decreases len - i,
    {
        let c = s.get_char(i);
        assert(c == body[i - start]);
        if !('0' <= c && c <= '9') {
            assert(!all_digits(body));
            return None;
        }
        let d = (c as u32 - '0' as u32) as u64;
        assert(body.take(i - start + 1).drop_last() =~= body.take(i - start));
        if d > limit || acc > (limit - d) / 10 {
            proof {
                assert(acc * 10 + d > limit) by (nonlinear_arith)
                    requires d > limit || acc > (limit - d) / 10, d <= 9, acc >= 0;
                if all_digits(body) {
                    lemma_digits_value_prefix(body, i - start + 1);
                }
            }
            return None;
        }
        proof {
            assert(acc * 10 + d <= limit) by (nonlinear_arith)
                requires acc <= (limit - d) / 10, d <= limit;
        }
        acc = acc * 10 + d;
        i = i + 1;
        assert(all_digits(body.take(i - start)));
    }
    assert(body.take(len - start) =~= body);
    Some(acc)
}

/// Parses unsigned decimal text exactly as `u64::from_str` does.
pub fn parse_u64(s: &str) -> (r: Option<u64>)
    ensures
        r == spec_parse_u64(s@),
{
    let len = s.unicode_len();
    let start: usize = if len > 0 && s.get_char(0) == '+' { 1 } else { 0 };
    assert(unsigned_body(s@) =~= s@.skip(start as int));
    parse_magnitude(s, len, start, u64::MAX)
}


/// The text of the error that `u64::from_str` reports for `s`: an empty
/// text; a lone `+`; else the first character of the digits that is no digit
/// or that takes the value past `u64::MAX`. Empty when `s` parses.
pub open spec fn u64_parse_error(s: Seq<char>) -> Seq<char> {
    if s.len() == 0 {
        "cannot parse integer from empty string"@
    } else if s == seq!['+'] {
        "invalid digit found in string"@
    } else {
        digit_fault(unsigned_body(s), 0, u64::MAX as int, too_large_text())
    }
}

/// The text of the error that `i64::from_str` reports for `s`, in the same
/// way: a value past `i64::MAX`, or below `i64::MIN` after a `-`, is too far.
pub open spec fn i64_parse_error(s: Seq<char>) -> Seq<char> {
    if s.len() == 0 {
        "cannot parse integer from empty string"@
    } else if s == seq!['+'] || s == seq!['-'] {
        "invalid digit found in string"@
    } else if s[0] == '-' {
        digit_fault(signed_body(s), 0, i64::MAX + 1, "number too small to fit in target type"@)
    } else {
        digit_fault(signed_body(s), 0, i64::MAX as int, too_large_text())
    }
}

/// The text of a value too large for its integer type.
pub open spec fn too_large_text() -> Seq<char> {
    "number too large to fit in target type"@
}

/// The fault that the digits of `body` meet first from position `i` on: a
/// character that is no digit, or a value past `limit`, told by `too_far`.
pub open spec fn digit_fault(body: Seq<char>, i: int, limit: int, too_far: Seq<char>) -> Seq<char>
    decreases body.len() - i,
{
    if i < 0 || i >= body.len() {
        Seq::empty()
    } else if !is_digit(body[i]) {
        "invalid digit found in string"@
    } else if digits_value(body.take(i + 1)) > limit {
        too_far
    } else {
        digit_fault(body, i + 1, limit, too_far)
    }
}

/// Scans the digits of `s` from character `start` on for the first fault,
/// with values up to `limit`.
fn digit_fault_text(s: &str, len: usize, start: usize, limit: u64, too_far: &str) -> (r: String)
    requires
        len == s@.len(),
        start <= len,
    ensures
        r@ == digit_fault(s@.skip(start as int), 0, limit as int, too_far@),
{
    let ghost body = s@.skip(start as int);
    let mut acc: u64 = 0;
    let mut i: usize = start;
    while i < len
        invariant
            len == s@.len(),
            start <= i <= len,
            body == s@.skip(start as int),
            all_digits(body.take(i - start)),
            acc == digits_value(body.take(i - start)),
            acc <= limit,
            digit_fault(body, 0, limit as int, too_far@) == digit_fault(body, i - start, limit as int, too_far@),
        decreases len - i,
    {
        let c = s.get_char(i);
        assert(c == body[i - start]);
        if !('0' <= c && c <= '9') {
            return String::from_str("invalid digit found in string");
        }
        let d = (c as u32 - '0' as u32) as u64;
        assert(body.take(i - start + 1).drop_last() =~= body.take(i - start));
        if d > limit || acc > (limit - d) / 10 {
            proof {
                assert(acc * 10 + d > limit) by (nonlinear_arith)
                    requires
                        d > limit || acc > (limit - d) / 10,
                        d <= 9,
                        acc >= 0,
                ;
            }
            return too_far.to_owned();
        }
        proof {
            assert(acc * 10 + d <= limit) by (nonlinear_arith)
                requires
                    acc <= (limit - d) / 10,
                    d <= limit,
            ;
        }
        acc = acc * 10 + d;
        i = i + 1;
        assert(all_digits(body.take(i - start)));
    }
    String::new()
}

/// Tells, in the words of `u64::from_str`, why `s` is no unsigned amount.
pub fn u64_parse_error_text(s: &str) -> (r: String)
    ensures
        r@ == u64_parse_error(s@),
{
    let len = s.unicode_len();
    if len == 0 {
        return String::from_str("cannot parse integer from empty string");
    }
    let first = s.get_char(0);
    if len == 1 && first == '+' {
        assert(s@ =~= seq!['+']);
        return String::from_str("invalid digit found in string");
    }
    assert(s@ != seq!['+']) by {
        if len == 1 {
            assert(s@[0] != seq!['+'][0]);
        }
    }
    let start: usize = if first == '+' { 1 } else { 0 };
    assert(unsigned_body(s@) =~= s@.skip(start as int));
    digit_fault_text(s, len, start, u64::MAX, "number too large to fit in target type")
}

/// Tells, in the words of `i64::from_str`, why `s` is no signed amount.
pub fn i64_parse_error_text(s: &str) -> (r: String)
    ensures
        r@ == i64_parse_error(s@),
{
    let len = s.unicode_len();
    if len == 0 {
        return String::from_str("cannot parse integer from empty string");
    }
    let first = s.get_char(0);
    if len == 1 && (first == '+' || first == '-') {
        assert(s@ =~= seq![first]);
        return String::from_str("invalid digit found in string");
    }
    assert(s@ != seq!['+'] && s@ != seq!['-']) by {
        if len == 1 {
            assert(s@[0] != seq!['+'][0] && s@[0] != seq!['-'][0]);
        }
    }
    let start: usize = if first == '+' || first == '-' { 1 } else { 0 };
    assert(signed_body(s@) =~= s@.skip(start as int));
    if first == '-' {
        digit_fault_text(s, len, start, 9_223_372_036_854_775_808, "number too small to fit in target type")
    } else {
        digit_fault_text(s, len, start, 9_223_372_036_854_775_807, "number too large to fit in target type")
    }
}

/// Parses signed decimal text exactly as `i64::from_str` does.
pub fn parse_i64(s: &str) -> (r: Option<i64>)
    ensures
        r == spec_parse_i64(s@),
{
    let len = s.unicode_len();
    let negative = len > 0 && s.get_char(0) == '-';
    let start: usize = if len > 0 && (s.get_char(0) == '+' || negative) { 1 } else { 0 };
    assert(signed_body(s@) =~= s@.skip(start as int));
    let limit: u64 = if negative { 0x8000_0000_0000_0000 } else { 0x7fff_ffff_ffff_ffff };
    match parse_magnitude(s, len, start, limit) {
        Some(m) => {
            if negative {
                if m == 0x8000_0000_0000_0000 {
                    Some(i64::MIN)
                } else {
                    Some(-(m as i64))
                }
            } else {
                Some(m as i64)
            }
        },
        None => None,
    }
}

/// Decimal text of a signed amount, as `i128::to_string` writes it.
pub fn i128_to_string(n: i128) -> (s: String)
    ensures
        s@ == decimal_int(n as int),
{
    if n < 0 {
        let magnitude: u128 = if n == i128::MIN {
            0x8000_0000_0000_0000_0000_0000_0000_0000
        } else {
            (-n) as u128
        };
        let digits = u128_to_string(magnitude);
        let mut out = String::from_str("-");
        proof {
            reveal_strlit("-");
        }
        out.append(digits.as_str());
        out
    } else {
        u128_to_string(n as u128)
    }
}

/// Decimal text of a signed amount, as `i64::to_string` writes it.
pub fn i64_to_string(n: i64) -> (s: String)
    ensures
        s@ == decimal_int(n as int),
{
    i128_to_string(n as i128)
}

proof fn lemma_digit_char_value(d: nat)
    ensures
        digit_char(d) as nat == '0' as nat + d % 10,
        is_digit(digit_char(d)),
{
}

/// The digits that `decimal_nat` writes read back as the same number.
pub proof fn lemma_decimal_nat_round_trip(n: nat)
    ensures
        all_digits(decimal_nat(n)),
        decimal_nat(n).len() > 0,
        digits_value(decimal_nat(n)) == n,
    decreases n,
{
    lemma_digit_char_value(n);
    if n < 10 {
        let s = decimal_nat(n);
        assert(s.drop_last() =~= Seq::<char>::empty());
        assert(digits_value(s.drop_last()) == 0);
    } else {
        lemma_decimal_nat_round_trip(n / 10);
        lemma_digit_char_value(n % 10);
        let s = decimal_nat(n);
        assert(s.drop_last() =~= decimal_nat(n / 10));
        assert(s.last() == digit_char(n % 10));
        assert((n % 10) % 10 == n % 10);
        assert(digits_value(s) == digits_value(s.drop_last()) * 10 + ((s.last() as nat) - ('0' as nat)) as nat);
        assert((n / 10) * 10 + n % 10 == n);
        assert forall|i: int| 0 <= i < s.len() implies is_digit(#[trigger] s[i]) by {
            if i < s.len() - 1 {
                assert(s[i] == decimal_nat(n / 10)[i]);
            }
        }
    }
}

/// Law: an amount written with `u64_to_string` parses back to itself.
pub proof fn lemma_u64_text_round_trip(n: u64)
    ensures
        spec_parse_u64(decimal_nat(n as nat)) == Some(n),
{
    lemma_decimal_nat_round_trip(n as nat);
    let s = decimal_nat(n as nat);
    assert(is_digit(s[0]));
    assert(unsigned_body(s) == s);
}

} // verus!
