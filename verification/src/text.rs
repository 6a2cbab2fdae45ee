use vstd::prelude::*;
use crate::fixed::{representable, SCALE};
use vstd::arithmetic::div_mod::{lemma_breakdown, lemma_fundamental_div_mod};
use vstd::string::{StrSliceExecFns, StringExecFns};

verus! {

/// The character of a decimal digit.
pub open spec fn digit_char(d: int) -> char {
    if d == 0 {
        '0'
    } else if d == 1 {
        '1'
    } else if d == 2 {
        '2'
    } else if d == 3 {
        '3'
    } else if d == 4 {
        '4'
    } else if d == 5 {
        '5'
    } else if d == 6 {
        '6'
    } else if d == 7 {
        '7'
    } else if d == 8 {
        '8'
    } else {
        '9'
    }
}

/// Decimal digits of a natural number, without leading zeros.
pub open spec fn natural_text(n: nat) -> Seq<char>
    decreases n,
{
    if n < 10 {
        seq![digit_char(n as int)]
    } else {
        natural_text(n / 10).push(digit_char((n % 10) as int))
    }
}

/// Decimal digits of an integer, with a minus sign when it is negative.
pub open spec fn integer_text(x: int) -> Seq<char> {
    if x < 0 {
        seq!['-'] + natural_text((-x) as nat)
    } else {
        natural_text(x as nat)
    }
}

/// One decimal digit as text.
pub fn digit_str(d: u8) -> (text: &'static str)
    requires
        d < 10,
    ensures
        text@ == seq![digit_char(d as int)],
{
    proof {
        reveal_strlit("0");
        reveal_strlit("1");
        reveal_strlit("2");
        reveal_strlit("3");
        reveal_strlit("4");
        reveal_strlit("5");
        reveal_strlit("6");
        reveal_strlit("7");
        reveal_strlit("8");
        reveal_strlit("9");
    }
    let text: &'static str = if d == 0 {
        "0"
    } else if d == 1 {
        "1"
    } else if d == 2 {
        "2"
    } else if d == 3 {
        "3"
    } else if d == 4 {
        "4"
    } else if d == 5 {
        "5"
    } else if d == 6 {
        "6"
    } else if d == 7 {
        "7"
    } else if d == 8 {
        "8"
    } else {
        "9"
    };
    assert(text@ =~= seq![digit_char(d as int)]);
    text
}

/// A natural number in decimal.
pub fn natural_to_string(n: u128) -> (text: String)
    ensures
        text@ == natural_text(n as nat),
{
    let mut rest: u128 = n / 10;
    let mut text: String = String::from_str(digit_str((n % 10) as u8));
    let ghost mut written: Seq<char> = seq![digit_char((n % 10) as int)];
    while rest > 0
        invariant
            text@ == written,
            natural_text(n as nat) == if rest == 0 {
                written
            } else {
                natural_text(rest as nat) + written
            },
        decreases rest,
    {
        let d: u8 = (rest % 10) as u8;
        let front: String = String::from_str(digit_str(d));
        proof {
            let shown = seq![digit_char(d as int)] + written;
            if rest < 10 {
                assert(natural_text(rest as nat) + written =~= shown);
            } else {
                assert(natural_text(rest as nat) + written =~= natural_text((rest / 10) as nat)
                    + shown);
            }
            written = shown;
        }
        text = front.concat(text.as_str());
        rest = rest / 10;
    }
    text
}

/// An integer in decimal.
pub fn integer_to_string(x: i64) -> (text: String)
    ensures
        text@ == integer_text(x as int),
{
    if x < 0 {
        proof {
            reveal_strlit("-");
        }
        let magnitude: u128 = (-(x as i128)) as u128;
        let digits: String = natural_to_string(magnitude);
        let text: String = String::from_str("-").concat(digits.as_str());
        assert(text@ =~= seq!['-'] + natural_text((-x) as nat));
        text
    } else {
        natural_to_string(x as u128)
    }
}

/// Digits of `f` in a field of `width` characters, with leading zeros; what
/// does not fit the field is cut off at the front.
pub open spec fn padded_text(f: nat, width: nat) -> Seq<char>
    decreases width,
{
    if width == 0 {
        Seq::empty()
    } else {
        padded_text(f / 10, (width - 1) as nat).push(digit_char((f % 10) as int))
    }
}

/// The decimals of `f` in a field of `width` characters, without the zeros
/// at the end; nothing is left of zero.
pub open spec fn trimmed_text(f: nat, width: nat) -> Seq<char>
    decreases width,
{
    if width == 0 || f == 0 {
        Seq::empty()
    } else if f % 10 == 0 {
        trimmed_text(f / 10, (width - 1) as nat)
    } else {
        padded_text(f, width)
    }
}

/// An amount in its shortest decimal: a minus sign when it is negative, the
/// whole part, and, unless the amount is whole, a point and the decimals
/// up to the last that is not zero.
pub open spec fn amount_text(raw: int) -> Seq<char> {
    let magnitude = if raw < 0 {
        (-raw) as nat
    } else {
        raw as nat
    };
    let whole = natural_text(magnitude / (SCALE as nat));
    let part = magnitude % (SCALE as nat);
    let shown = if part == 0 {
        whole
    } else {
        whole + seq!['.'] + trimmed_text(part, 8)
    };
    if raw < 0 {
        seq!['-'] + shown
    } else {
        shown
    }
}

/// A natural number in a field of `width` characters, with leading zeros.
pub fn padded_to_string(f: u64, width: u8) -> (text: String)
    ensures
        text@ == padded_text(f as nat, width as nat),
{
    let mut rest: u64 = f;
    let mut left: u8 = width;
    let mut text: String = String::new();
    while left > 0
        invariant
            padded_text(f as nat, width as nat) == padded_text(rest as nat, left as nat) + text@,
        decreases left,
    {
        let d: u8 = (rest % 10) as u8;
        let front: String = String::from_str(digit_str(d));
        proof {
            assert(padded_text(rest as nat, left as nat) + text@ =~= padded_text(
                (rest / 10) as nat,
                (left - 1) as nat,
            ) + (seq![digit_char(d as int)] + text@));
        }
        text = front.concat(text.as_str());
        rest = rest / 10;
        left = left - 1;
    }
    assert(padded_text(rest as nat, 0) + text@ =~= text@);
    text
}

/// The decimals of `f` without the zeros at the end.
pub fn trimmed_to_string(f: u64, width: u8) -> (text: String)
    ensures
        text@ == trimmed_text(f as nat, width as nat),
{
    let mut rest: u64 = f;
    let mut left: u8 = width;
    while left > 0 && rest != 0 && rest % 10 == 0
        invariant
            trimmed_text(f as nat, width as nat) == trimmed_text(rest as nat, left as nat),
        decreases left,
    {
        rest = rest / 10;
        left = left - 1;
    }
    if left == 0 || rest == 0 {
        String::new()
    } else {
        padded_to_string(rest, left)
    }
}

/// An amount in its shortest decimal.
pub fn amount_to_string(raw: i64) -> (text: String)
    ensures
        text@ == amount_text(raw as int),
{
    proof {
        reveal_strlit("-");
        reveal_strlit(".");
    }
    let magnitude: u128 = if raw < 0 {
        (-(raw as i128)) as u128
    } else {
        raw as u128
    };
    let whole: String = natural_to_string(magnitude / (SCALE as u128));
    let part: u64 = (magnitude % (SCALE as u128)) as u64;
    let shown: String = if part == 0 {
        whole
    } else {
        whole.concat(".").concat(trimmed_to_string(part, 8).as_str())
    };
    if raw < 0 {
        let text: String = String::from_str("-").concat(shown.as_str());
        assert(text@ =~= amount_text(raw as int));
        text
    } else {
        assert(shown@ =~= amount_text(raw as int));
        shown
    }
}

/// The value of a decimal digit, for a character that is one.
pub open spec fn digit_value(c: char) -> Option<nat> {
    if c == '0' {
        Some(0)
    } else if c == '1' {
        Some(1)
    } else if c == '2' {
        Some(2)
    } else if c == '3' {
        Some(3)
    } else if c == '4' {
        Some(4)
    } else if c == '5' {
        Some(5)
    } else if c == '6' {
        Some(6)
    } else if c == '7' {
        Some(7)
    } else if c == '8' {
        Some(8)
    } else if c == '9' {
        Some(9)
    } else {
        None
    }
}

/// The number that a run of digits denotes; `None` when a character is no
/// digit. The empty run denotes zero.
pub open spec fn digits_value(s: Seq<char>) -> Option<nat>
    decreases s.len(),
{
    if s.len() == 0 {
        Some(0)
    } else {
        match (digits_value(s.drop_last()), digit_value(s.last())) {
            (Some(v), Some(d)) => Some(10 * v + d),
            _ => None,
        }
    }
}

/// What a run of decimals adds, in raw steps, when its first digit weighs
/// `weight`: each further digit weighs a tenth, and a digit beyond the
/// eighth decimal weighs nothing. `None` when a character is no digit.
pub open spec fn decimals_value(s: Seq<char>, weight: nat) -> Option<nat>
    decreases s.len(),
{
    if s.len() == 0 {
        Some(0)
    } else {
        match (digit_value(s[0]), decimals_value(s.drop_first(), weight / 10)) {
            (Some(d), Some(rest)) => Some(d * weight + rest),
            _ => None,
        }
    }
}

/// Index of the first point in `s`, or the length of `s` when it has none.
pub open spec fn first_point(s: Seq<char>) -> int
    decreases s.len(),
{
    if s.len() == 0 || s[0] == '.' {
        0
    } else {
        1 + first_point(s.drop_first())
    }
}

/// The amount, in raw steps, that an unsigned decimal denotes: digits, a
/// point and digits, where the digits on one side of the point may be
/// missing, or digits alone. Decimals beyond the eighth are dropped.
pub open spec fn unsigned_amount(s: Seq<char>) -> Option<nat> {
    let p = first_point(s);
    let whole = s.take(p);
    let decimals = if p < s.len() {
        s.skip(p + 1)
    } else {
        Seq::empty()
    };
    if whole.len() == 0 && decimals.len() == 0 {
        None
    } else {
        match (digits_value(whole), decimals_value(decimals, 10_000_000)) {
            (Some(w), Some(f)) => Some(w * (SCALE as nat) + f),
            _ => None,
        }
    }
}

/// The amount within range that a magnitude and its sign denote.
pub open spec fn signed_amount(magnitude: Option<nat>, negative: bool) -> Option<i64> {
    match magnitude {
        Some(v) => {
            let exact = if negative {
                -(v as int)
            } else {
                v as int
            };
            if representable(exact) {
                Some(exact as i64)
            } else {
                None
            }
        },
        None => None,
    }
}

/// The amount, in raw steps, that a decimal denotes: an optional sign, then
/// an unsigned decimal. `None` when the text is no decimal or the amount
/// leaves the range.
pub open spec fn parsed_amount(s: Seq<char>) -> Option<i64> {
    if s.len() > 0 && s[0] == '-' {
        signed_amount(unsigned_amount(s.drop_first()), true)
    } else if s.len() > 0 && s[0] == '+' {
        signed_amount(unsigned_amount(s.drop_first()), false)
    } else {
        signed_amount(unsigned_amount(s), false)
    }
}

/// Executable form of [`digit_value`].
pub fn digit_of(c: char) -> (d: Option<u8>)
    ensures
        match d {
            Some(d) => digit_value(c) == Some(d as nat),
            None => digit_value(c) is None,
        },
{
    if c == '0' {
        Some(0)
    } else if c == '1' {
        Some(1)
    } else if c == '2' {
        Some(2)
    } else if c == '3' {
        Some(3)
    } else if c == '4' {
        Some(4)
    } else if c == '5' {
        Some(5)
    } else if c == '6' {
        Some(6)
    } else if c == '7' {
        Some(7)
    } else if c == '8' {
        Some(8)
    } else if c == '9' {
        Some(9)
    } else {
        None
    }
}

/// A bound above every whole part whose amount fits the range.
pub const WHOLE_CAP: u128 = 1_000_000_000_000;

/// `v`, or the cap when `v` lies above it.
pub open spec fn capped(v: nat) -> nat {
    if v > WHOLE_CAP {
        WHOLE_CAP as nat
    } else {
        v
    }
}

/// The first point stands at `k` when no point stands before `k` and either
/// one stands at `k` or the text ends there.
proof fn lemma_first_point_is(s: Seq<char>, k: int)
    requires
        0 <= k <= s.len(),
        forall|j: int| 0 <= j < k ==> s[j] != '.',
        k == s.len() || s[k] == '.',
    ensures
        first_point(s) == k,
    decreases k,
{
    if k > 0 {
        let rest = s.drop_first();
        assert forall|j: int| 0 <= j < k - 1 implies rest[j] != '.' by {
            assert(rest[j] == s[j + 1]);
        }
        lemma_first_point_is(rest, k - 1);
    }
}

/// The first point stands behind `k` when no point stands at `k` or before.
proof fn lemma_first_point_after(s: Seq<char>, k: int)
    requires
        0 <= k < s.len(),
        forall|j: int| 0 <= j <= k ==> s[j] != '.',
    ensures
        k < first_point(s) <= s.len(),
    decreases k,
{
    let rest = s.drop_first();
    if k > 0 {
        assert forall|j: int| 0 <= j <= k - 1 implies rest[j] != '.' by {
            assert(rest[j] == s[j + 1]);
        }
        lemma_first_point_after(rest, k - 1);
    } else {
        lemma_first_point_bound(rest);
    }
}

proof fn lemma_first_point_bound(s: Seq<char>)
    ensures
        0 <= first_point(s) <= s.len(),
    decreases s.len(),
{
    if !(s.len() == 0 || s[0] == '.') {
        lemma_first_point_bound(s.drop_first());
    }
}

/// A run that holds a character that is no digit denotes nothing.
proof fn lemma_digits_reject(s: Seq<char>, p: int, bad: int)
    requires
        0 <= bad < p <= s.len(),
        digit_value(s[bad]) is None,
    ensures
        digits_value(s.take(p)) is None,
    decreases p,
{
    let whole = s.take(p);
    if bad == p - 1 {
        assert(whole.last() == s[bad]);
    } else {
        assert(whole.drop_last() =~= s.take(p - 1));
        lemma_digits_reject(s, p - 1, bad);
    }
}

/// Reads an unsigned decimal from the characters of `text` at `start` and
/// after it. A whole part above the cap is reported as the cap.
fn parse_unsigned(text: &str, start: usize, len: usize) -> (amount: Option<u128>)
    requires
        start <= len,
        len == text@.len(),
    ensures
        match amount {
            Some(v) => unsigned_amount(text@.skip(start as int)) is Some && v == capped(
                unsigned_amount(text@.skip(start as int))->0 / (SCALE as nat),
            ) * SCALE + unsigned_amount(text@.skip(start as int))->0 % (SCALE as nat),
            None => unsigned_amount(text@.skip(start as int)) is None,
        },
{
    let ghost s = text@.skip(start as int);
    let mut i: usize = start;
    let mut whole: u128 = 0;
    while i < len && text.get_char(i) != '.'
        invariant
            start <= i <= len,
            len == text@.len(),
            s == text@.skip(start as int),
            forall|j: int| 0 <= j < i - start ==> s[j] != '.',
            digits_value(s.take(i - start)) is Some,
            whole == capped(digits_value(s.take(i - start))->0),
        decreases len - i,
    {
        let c: char = text.get_char(i);
        assert(s[i - start] == c);
        match digit_of(c) {
            Some(d) => {
                proof {
                    let upto = s.take(i - start + 1);
                    assert(upto.drop_last() =~= s.take(i - start));
                    assert(upto.last() == c);
                }
                whole = whole * 10 + d as u128;
                if whole > WHOLE_CAP {
                    whole = WHOLE_CAP;
                }
                i = i + 1;
            },
            None => {
                proof {
                    lemma_first_point_after(s, i - start);
                    lemma_digits_reject(s, first_point(s), i - start);
                }
                return None;
            },
        }
    }
    let ghost p: int = i - start;
    proof {
        if i < len {
            assert(s[p] == text@[i as int]);
        }
        lemma_first_point_is(s, p);
    }
    let ghost w: nat = digits_value(s.take(p))->0;
    assert(whole * SCALE <= 100_000_000_000_000_000_000) by (nonlinear_arith)
        requires
            whole <= 1_000_000_000_000,
            SCALE == 100_000_000,
    ;
    if i == len {
        if i == start {
            return None;
        }
        proof {
            assert(decimals_value(Seq::<char>::empty(), 10_000_000) == Some(0nat));
            let exact = w * (SCALE as nat);
            assert(exact / (SCALE as nat) == w && exact % (SCALE as nat) == 0) by (nonlinear_arith)
                requires
                    exact == w * (SCALE as nat),
                    SCALE == 100_000_000,
            ;
        }
        return Some(whole * (SCALE as u128));
    }
    let first: usize = i + 1;
    let ghost decimals = s.skip(p + 1);
    assert(decimals.len() == len - first);
    if first == len {
        if i == start {
            return None;
        }
        proof {
            assert(decimals_value(decimals, 10_000_000) == Some(0nat));
            let exact = w * (SCALE as nat);
            assert(exact / (SCALE as nat) == w && exact % (SCALE as nat) == 0) by (nonlinear_arith)
                requires
                    exact == w * (SCALE as nat),
                    SCALE == 100_000_000,
            ;
        }
        return Some(whole * (SCALE as u128));
    }
    let mut j: usize = first;
    let mut weight: u128 = 10_000_000;
    let mut part: u128 = 0;
    assert(decimals.skip(0) =~= decimals);
    while j < len
        invariant
            first <= j <= len,
            len == text@.len(),
            start <= i,
            first == i + 1,
            s == text@.skip(start as int),
            decimals == s.skip(i - start + 1),
            decimals.len() == len - first,
            first_point(s) == i - start,
            part + 10 * weight <= 100_000_000,
            weight == 0 ==> part < 100_000_000,
            decimals_value(decimals, 10_000_000) == match decimals_value(
                decimals.skip(j - first),
                weight as nat,
            ) {
                Some(rest) => Some(part as nat + rest),
                None => None,
            },
        decreases len - j,
    {
        let c: char = text.get_char(j);
        proof {
            let rest = decimals.skip(j - first);
            assert(rest[0] == c);
            assert(rest.drop_first() =~= decimals.skip(j - first + 1));
        }
        match digit_of(c) {
            Some(d) => {
                assert(d * weight <= 9 * weight) by (nonlinear_arith)
                    requires
                        d <= 9,
                        weight >= 0,
                ;
                part = part + (d as u128) * weight;
                weight = weight / 10;
                j = j + 1;
            },
            None => {
                assert(decimals_value(decimals.skip(j - first), weight as nat) is None);
                return None;
            },
        }
    }
    assert(decimals.skip(j - first).len() == 0);
    proof {
        let exact = w * (SCALE as nat) + part as nat;
        assert(unsigned_amount(s) == Some(exact));
        assert(exact / (SCALE as nat) == w && exact % (SCALE as nat) == part) by (nonlinear_arith)
            requires
                exact == w * (SCALE as nat) + part as nat,
                part < 100_000_000,
                SCALE == 100_000_000,
        ;
    }
    Some(whole * (SCALE as u128) + part)
}

/// Reads an amount from decimal text: an optional sign, then digits, a
/// point and digits, where the digits on one side of the point may be
/// missing, or digits alone. Decimals beyond the eighth are dropped. `None`
/// when the text is no such decimal or the amount leaves the range.
pub fn parse_amount(text: &str) -> (amount: Option<i64>)
    ensures
        amount == parsed_amount(text@),
{
    let len: usize = text.unicode_len();
    let negative: bool = len > 0 && text.get_char(0) == '-';
    let positive: bool = len > 0 && text.get_char(0) == '+';
    let start: usize = if negative || positive {
        1
    } else {
        0
    };
    proof {
        if negative || positive {
            assert(text@.skip(1) =~= text@.drop_first());
        } else {
            assert(text@.skip(0) =~= text@);
        }
    }
    match parse_unsigned(text, start, len) {
        None => None,
        Some(v) => {
            let ghost exact = unsigned_amount(text@.skip(start as int))->0;
            proof {
                let q = exact / (SCALE as nat);
                let r = exact % (SCALE as nat);
                assert(exact == q * (SCALE as nat) + r && r < SCALE) by (nonlinear_arith)
                    requires
                        q == exact / (SCALE as nat),
                        r == exact % (SCALE as nat),
                        SCALE == 100_000_000,
                ;
                if q > WHOLE_CAP {
                    assert(exact > 0x8000_0000_0000_0000 && v > 0x8000_0000_0000_0000)
                        by (nonlinear_arith)
                        requires
                            exact == q * (SCALE as nat) + r,
                            v == WHOLE_CAP * SCALE + r,
                            q > WHOLE_CAP,
                            WHOLE_CAP == 1_000_000_000_000,
                            SCALE == 100_000_000,
                            r >= 0,
                    ;
                } else {
                    assert(v == exact);
                }
            }
            if negative {
                if v > 0x8000_0000_0000_0000 {
                    None
                } else {
                    Some((-(v as i128)) as i64)
                }
            } else {
                if v > 0x7fff_ffff_ffff_ffff {
                    None
                } else {
                    Some(v as i64)
                }
            }
        },
    }
}

/// Ten to the power of `k`.
spec fn pow10(k: nat) -> nat
    decreases k,
{
    if k == 0 {
        1
    } else {
        10 * pow10((k - 1) as nat)
    }
}

/// The weight that is left of `weight` after `k` digits.
spec fn shifted(weight: nat, k: nat) -> nat
    decreases k,
{
    if k == 0 {
        weight
    } else {
        shifted(weight / 10, (k - 1) as nat)
    }
}

proof fn lemma_shifted_power(a: nat, k: nat)
    requires
        k <= a,
    ensures
        shifted(pow10(a), k) == pow10((a - k) as nat),
    decreases k,
{
    if k > 0 {
        assert(pow10(a) / 10 == pow10((a - 1) as nat));
        lemma_shifted_power((a - 1) as nat, (k - 1) as nat);
    }
}

/// The digits of a natural number denote it, and none of them is a sign
/// or a point.
proof fn lemma_natural_text(n: nat)
    ensures
        natural_text(n).len() >= 1,
        digits_value(natural_text(n)) == Some(n),
        forall|i: int|
            0 <= i < natural_text(n).len() ==> (#[trigger] natural_text(n)[i]) != '.'
                && natural_text(n)[i] != '-' && natural_text(n)[i] != '+',
    decreases n,
{
    let s = natural_text(n);
    if n < 10 {
        assert(s.drop_last() =~= Seq::<char>::empty());
        assert(digits_value(s.drop_last()) == Some(0nat));
    } else {
        lemma_natural_text(n / 10);
        assert(s.drop_last() =~= natural_text(n / 10));
        assert(s.last() == digit_char((n % 10) as int));
        assert forall|i: int| 0 <= i < s.len() implies (#[trigger] s[i]) != '.' && s[i] != '-'
            && s[i] != '+' by {
            if i < s.len() - 1 {
                assert(s[i] == natural_text(n / 10)[i]);
            }
        }
    }
}

/// What one more decimal at the end adds.
proof fn lemma_decimals_push(s: Seq<char>, c: char, weight: nat)
    ensures
        decimals_value(s.push(c), weight) == match (decimals_value(s, weight), digit_value(c)) {
            (Some(x), Some(d)) => Some(x + d * shifted(weight, s.len())),
            _ => None,
        },
    decreases s.len(),
{
    let t = s.push(c);
    if s.len() == 0 {
        assert(t.drop_first() =~= Seq::<char>::empty());
        assert(t[0] == c);
        assert(decimals_value(Seq::<char>::empty(), weight / 10) == Some(0nat));
        assert(decimals_value(s, weight) == Some(0nat));
    } else {
        assert(t[0] == s[0]);
        assert(t.drop_first() =~= s.drop_first().push(c));
        lemma_decimals_push(s.drop_first(), c, weight / 10);
        match (decimals_value(s, weight), digit_value(c)) {
            (Some(x), Some(d)) => {
                let first = digit_value(s[0])->0;
                let rest = decimals_value(s.drop_first(), weight / 10)->0;
                assert(x == first * weight + rest);
                assert(shifted(weight, s.len()) == shifted(weight / 10, (s.len() - 1) as nat));
            },
            _ => {},
        }
    }
}

/// A field of up to eight decimals, read with the weight of the first
/// decimal, gives back what was written into it.
proof fn lemma_padded_text(f: nat, width: nat)
    requires
        width <= 8,
    ensures
        padded_text(f, width).len() == width,
        decimals_value(padded_text(f, width), pow10(7)) == Some(
            (f % pow10(width)) * pow10((8 - width) as nat),
        ),
    decreases width,
{
    if width == 0 {
        assert(f % 1 == 0);
        assert(0 * pow10(8) == 0) by (nonlinear_arith);
    } else {
        let front = padded_text(f / 10, (width - 1) as nat);
        let c = digit_char((f % 10) as int);
        lemma_padded_text(f / 10, (width - 1) as nat);
        lemma_decimals_push(front, c, pow10(7));
        lemma_shifted_power(7, (width - 1) as nat);
        let m = pow10((width - 1) as nat);
        let unit = pow10((8 - width) as nat);
        assert(m > 0) by {
            lemma_pow10_positive((width - 1) as nat);
        }
        lemma_breakdown(f as int, 10, m as int);
        assert(pow10(width) == 10 * m);
        assert(pow10((9 - width) as nat) == 10 * unit);
        let high = (f / 10) % m;
        let low = f % 10;
        assert(f % pow10(width) == 10 * high + low);
        assert(high * (10 * unit) + low * unit == (10 * high + low) * unit) by (nonlinear_arith);
    }
}

proof fn lemma_pow10_positive(k: nat)
    ensures
        pow10(k) > 0,
    decreases k,
{
    if k > 0 {
        lemma_pow10_positive((k - 1) as nat);
    }
}

/// Decimals without the zeros at the end read like the full field, and
/// something is left of them unless they are all zero.
proof fn lemma_trimmed_text(f: nat, width: nat)
    requires
        width <= 8,
        f < pow10(width),
    ensures
        decimals_value(trimmed_text(f, width), pow10(7)) == Some(f * pow10((8 - width) as nat)),
        f > 0 ==> trimmed_text(f, width).len() > 0,
    decreases width,
{
    if width == 0 || f == 0 {
        assert(0 * pow10((8 - width) as nat) == 0) by (nonlinear_arith);
    } else if f % 10 == 0 {
        let less = f / 10;
        let unit = pow10((8 - width) as nat);
        assert(pow10(width) == 10 * pow10((width - 1) as nat));
        assert(pow10((9 - width) as nat) == 10 * unit);
        lemma_trimmed_text(less, (width - 1) as nat);
        assert(less * (10 * unit) == f * unit) by (nonlinear_arith)
            requires
                f == 10 * less,
        ;
    } else {
        lemma_padded_text(f, width);
        lemma_pow10_positive(width);
        assert(f % pow10(width) == f) by (nonlinear_arith)
            requires
                0 <= f < pow10(width),
        ;
    }
}

/// An amount that has been written out reads back as itself.
pub proof fn lemma_written_amount_reads_back(raw: i64)
    ensures
        parsed_amount(amount_text(raw as int)) == Some(raw),
{
    let magnitude: nat = if raw < 0 {
        (-raw) as nat
    } else {
        raw as nat
    };
    let whole = magnitude / (SCALE as nat);
    let part = magnitude % (SCALE as nat);
    let digits = natural_text(whole);
    let decimals = trimmed_text(part, 8);
    let shown = if part == 0 {
        digits
    } else {
        digits + seq!['.'] + decimals
    };
    lemma_natural_text(whole);
    assert(pow10(8) == 100_000_000 && pow10(7) == 10_000_000 && pow10(0) == 1) by {
        reveal_with_fuel(pow10, 9);
    }
    lemma_trimmed_text(part, 8);
    let p = digits.len() as int;
    assert forall|j: int| 0 <= j < p implies shown[j] != '.' by {
        assert(shown[j] == digits[j]);
    }
    lemma_first_point_is(shown, p);
    assert(shown.take(p) =~= digits);
    lemma_fundamental_div_mod(magnitude as int, SCALE as int);
    assert(whole * (SCALE as nat) + part == magnitude) by (nonlinear_arith)
        requires
            magnitude == (SCALE as int) * (magnitude as int / (SCALE as int)) + (magnitude as int % (
            SCALE as int)),
            whole == magnitude / (SCALE as nat),
            part == magnitude % (SCALE as nat),
    ;
    assert(digits_value(shown.take(p)) == Some(whole));
    assert(shown.take(p).len() > 0);
    assert(first_point(shown) == p);
    if part == 0 {
        assert(p == shown.len());
        assert(decimals_value(Seq::<char>::empty(), 10_000_000) == Some(0nat));
    }
    if part != 0 {
        assert(p < shown.len());
        assert(shown.skip(p + 1) =~= decimals);
        let read = part * pow10(0);
        assert(read == part) by (nonlinear_arith)
            requires
                read == part * pow10(0),
                pow10(0) == 1,
        ;
        assert(decimals_value(shown.skip(p + 1), 10_000_000) == Some(part));
    }
    assert(unsigned_amount(shown) == Some(magnitude));
    if raw < 0 {
        let text = seq!['-'] + shown;
        assert(text.drop_first() =~= shown);
        assert(text[0] == '-');
        assert(amount_text(raw as int) == text);
        assert(signed_amount(Some(magnitude), true) == Some(raw));
    } else {
        assert(shown[0] == digits[0]);
        assert(amount_text(raw as int) == shown);
    }
}

} // verus!
