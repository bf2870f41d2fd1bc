//! Decimal numerals: writing integers, reading them back, and grouping their digits.

use vstd::prelude::*;
use vstd::string::StrSliceExecFns;
use vstd::string::StringExecFns;

use crate::text;

verus! {

/// The character of a digit below ten.
pub open spec fn digit_char(d: nat) -> char {
    ('0' as u32 + d) as char
}

/// The value of a digit character.
pub open spec fn digit_value(c: char) -> nat {
    (c as u32 - '0' as u32) as nat
}

/// The decimal digits of a natural number, without leading zeros.
pub open spec fn digits(n: nat) -> Seq<char>
    decreases n,
{
    if n < 10 {
        seq![digit_char(n)]
    } else {
        digits(n / 10).push(digit_char(n % 10))
    }
}

/// The decimal numeral of an integer, with `-` before a negative one.
pub open spec fn decimal(v: int) -> Seq<char> {
    if v < 0 {
        seq!['-'] + digits((-v) as nat)
    } else {
        digits(v as nat)
    }
}

/// One digit or more, and nothing else.
pub open spec fn is_numeral(s: Seq<char>) -> bool {
    s.len() > 0 && forall|i: int| 0 <= i < s.len() ==> text::is_digit(#[trigger] s[i])
}

/// The number that a sequence of digits denotes.
pub open spec fn numeral_value(s: Seq<char>) -> nat
    decreases s.len(),
{
    if s.len() == 0 {
        0
    } else {
        numeral_value(s.drop_last()) * 10 + digit_value(s.last())
    }
}

/// The integer that a numeral with an optional sign denotes.
pub open spec fn signed_value(s: Seq<char>) -> Option<int> {
    if s.len() > 0 && s[0] == '-' {
        if is_numeral(s.skip(1)) {
            Some(-(numeral_value(s.skip(1)) as int))
        } else {
            None
        }
    } else {
        unsigned_value(s)
    }
}

/// The number that a numeral with an optional `+` denotes.
pub open spec fn unsigned_value(s: Seq<char>) -> Option<int> {
    let body = if s.len() > 0 && s[0] == '+' {
        s.skip(1)
    } else {
        s
    };
    if is_numeral(body) {
        Some(numeral_value(body) as int)
    } else {
        None
    }
}

/// What a text reads as, as an `i64`.
pub open spec fn parsed_i64(s: Seq<char>) -> Option<i64> {
    match signed_value(s) {
        Some(v) => if i64::MIN <= v <= i64::MAX {
            Some(v as i64)
        } else {
            None
        },
        None => None,
    }
}

/// What a text reads as, as a number no greater than `max`.
pub open spec fn parsed_up_to(s: Seq<char>, max: nat) -> Option<int> {
    match unsigned_value(s) {
        Some(v) => if v <= max {
            Some(v)
        } else {
            None
        },
        None => None,
    }
}

// ---------------------------------------------------------------------------
// Laws
// ---------------------------------------------------------------------------

/// The digits of a number are a numeral that denotes it.
pub proof fn digits_denote(n: nat)
    ensures
        is_numeral(digits(n)),
        numeral_value(digits(n)) == n,
    decreases n,
{
    if n < 10 {
        assert(digits(n).drop_last() =~= Seq::<char>::empty());
        assert(numeral_value(digits(n).drop_last()) == 0);
    } else {
        digits_denote(n / 10);
        let s = digits(n);
        assert(s.drop_last() =~= digits(n / 10));
        assert forall|i: int| 0 <= i < s.len() implies text::is_digit(#[trigger] s[i]) by {
            if i < s.len() - 1 {
                assert(s[i] == digits(n / 10)[i]);
            }
        }
    }
}

/// Reading back the numeral of an `i64` gives the number.
pub proof fn numerals_round_trip(v: i64)
    ensures
        parsed_i64(decimal(v as int)) == Some(v),
{
    if v < 0 {
        digits_denote((-v) as nat);
        assert(decimal(v as int).skip(1) =~= digits((-v) as nat));
    } else {
        digits_denote(v as nat);
        let s = decimal(v as int);
        assert(text::is_digit(s[0]));
    }
}

proof fn value_grows(s: Seq<char>, i: int)
    requires
        0 <= i <= s.len(),
    ensures
        numeral_value(s.take(i)) <= numeral_value(s),
    decreases s.len() - i,
{
    if i < s.len() {
        value_grows(s, i + 1);
        assert(s.take(i + 1).drop_last() =~= s.take(i));
    } else {
        assert(s.take(i) =~= s);
    }
}

// ---------------------------------------------------------------------------
// Writing
// ---------------------------------------------------------------------------

fn push_digits(out: &mut String, n: u64)
    ensures
        final(out)@ == old(out)@ + digits(n as nat),
    decreases n,
{
    if n >= 10 {
        push_digits(out, n / 10);
    }
    let ghost mid = out@;
    out.push((48 + (n % 10) as u8) as char);
    assert(out@ =~= old(out)@ + digits(n as nat)) by {
        if n < 10 {
            assert(mid == old(out)@);
        }
    }
}

/// The decimal numeral of an unsigned number.
pub fn natural_text(n: u64) -> (res: String)
    ensures
        res@ == decimal(n as int),
{
    let mut out: String = String::new();
    push_digits(&mut out, n);
    assert(out@ =~= digits(n as nat));
    out
}

/// The decimal numeral of a size.
pub fn size_text(n: usize) -> (res: String)
    ensures
        res@ == decimal(n as int),
{
    natural_text(n as u64)
}

/// The decimal numeral of an integer.
pub fn integer_text(v: i64) -> (res: String)
    ensures
        res@ == decimal(v as int),
{
    if v >= 0 {
        return natural_text(v as u64);
    }
    let mut out: String = String::new();
    out.push('-');
    let n: u64 = ((-(v + 1)) as u64) + 1;
    push_digits(&mut out, n);
    assert(out@ =~= seq!['-'] + digits((-v) as nat));
    out
}

// ---------------------------------------------------------------------------
// Reading
// ---------------------------------------------------------------------------

fn read_numeral(s: &str) -> (res: Option<u64>)
    ensures
        match res {
            Some(v) => is_numeral(s@) && numeral_value(s@) == v,
            None => !is_numeral(s@) || numeral_value(s@) > u64::MAX,
        },
{
    let chars = text::chars_of(s);
    if chars.len() == 0 {
        return None;
    }
    let mut value: u64 = 0;
    let mut fits: bool = true;
    let mut i: usize = 0;
    while i < chars.len()
        invariant
            i <= chars@.len(),
            chars@ == s@,
            forall|j: int| 0 <= j < i ==> text::is_digit(#[trigger] s@[j]),
            fits ==> numeral_value(s@.take(i as int)) == value,
            !fits ==> numeral_value(s@.take(i as int)) > u64::MAX,
        decreases chars.len() - i,
    {
        let c = chars[i];
        if c < '0' || c > '9' {
            assert(!text::is_digit(s@[i as int]));
            return None;
        }
        assert(s@.take(i + 1).drop_last() =~= s@.take(i as int));
        let d: u64 = (c as u64) - 48;
        if fits {
            if value > 1844674407370955161 || (value == 1844674407370955161 && d > 5) {
                fits = false;
            } else {
                value = value * 10 + d;
            }
        }
        i += 1;
    }
    assert(s@.take(i as int) =~= s@);
    if fits {
        Some(value)
    } else {
        None
    }
}

fn after_first<'a>(s: &'a str) -> (res: &'a str)
    requires
        s@.len() > 0,
    ensures
        res@ == s@.skip(1),
{
    let n = s.unicode_len();
    assert(s@.subrange(1, n as int) =~= s@.skip(1));
    s.substring_char(1, n)
}

/// The number that the text reads as, if it is no greater than `max`.
pub fn parse_natural(s: &str, max: u64) -> (res: Option<u64>)
    ensures
        match res {
            Some(v) => parsed_up_to(s@, max as nat) == Some(v as int) && v <= max,
            None => parsed_up_to(s@, max as nat) is None,
        },
{
    let body = if !s.is_empty() && s.get_char(0) == '+' {
        after_first(s)
    } else {
        s
    };
    match read_numeral(body) {
        Some(v) => if v <= max {
            Some(v)
        } else {
            None
        },
        None => None,
    }
}

/// The `i64` that the text reads as.
pub fn parse_integer(s: &str) -> (res: Option<i64>)
    ensures
        res == parsed_i64(s@),
{
    if !s.is_empty() && s.get_char(0) == '-' {
        match read_numeral(after_first(s)) {
            Some(v) => if v <= 9223372036854775807 {
                Some(-(v as i64))
            } else if v == 9223372036854775808 {
                Some(i64::MIN)
            } else {
                None
            },
            None => None,
        }
    } else {
        match parse_natural(s, 9223372036854775807) {
            Some(v) => Some(v as i64),
            None => None,
        }
    }
}

// ---------------------------------------------------------------------------
// Grouping
// ---------------------------------------------------------------------------

/// Digits in groups of three from the right, with commas between the groups.
pub open spec fn grouped(s: Seq<char>) -> Seq<char>
    decreases s.len(),
{
    if s.len() <= 3 {
        s
    } else {
        grouped(s.take(s.len() - 3)) + ","@ + s.skip(s.len() - 3)
    }
}

/// The numeral of an integer with its digits grouped.
pub open spec fn grouped_decimal(v: int) -> Seq<char> {
    if v < 0 {
        "-"@ + grouped(digits((-v) as nat))
    } else {
        grouped(digits(v as nat))
    }
}

fn group(s: &str) -> (res: String)
    ensures
        res@ == grouped(s@),
    decreases s@.len(),
{
    let n = s.unicode_len();
    if n <= 3 {
        return s.to_owned();
    }
    assert(s@.subrange(0, n - 3) =~= s@.take(n - 3));
    assert(s@.subrange(n - 3, n as int) =~= s@.skip(n - 3));
    let mut out = group(s.substring_char(0, n - 3));
    out.append(",");
    out.append(s.substring_char(n - 3, n));
    out
}

/// An integer with commas between its groups of three digits.
pub fn format_number(value: i64) -> (res: String)
    requires
        value != i64::MIN,
    ensures
        res@ == grouped_decimal(value as int),
{
    if value >= 0 {
        group(natural_text(value as u64).as_str())
    } else {
        let mut out = String::from_str("-");
        out.append(group(natural_text((-value) as u64).as_str()).as_str());
        out
    }
}

/// A text without its commas.
pub open spec fn ungrouped(s: Seq<char>) -> Seq<char>
    decreases s.len(),
{
    if s.len() == 0 {
        s
    } else if s.last() == ',' {
        ungrouped(s.drop_last())
    } else {
        ungrouped(s.drop_last()).push(s.last())
    }
}

proof fn ungrouped_append(a: Seq<char>, b: Seq<char>)
    ensures
        ungrouped(a + b) == ungrouped(a) + ungrouped(b),
    decreases b.len(),
{
    if b.len() == 0 {
        assert(a + b =~= a);
        assert(ungrouped(a) + ungrouped(b) =~= ungrouped(a));
    } else {
        ungrouped_append(a, b.drop_last());
        assert((a + b).drop_last() =~= a + b.drop_last());
        assert(ungrouped(a + b) =~= ungrouped(a) + ungrouped(b));
    }
}

proof fn ungrouped_keeps(s: Seq<char>)
    requires
        forall|i: int| 0 <= i < s.len() ==> #[trigger] s[i] != ',',
    ensures
        ungrouped(s) == s,
    decreases s.len(),
{
    if s.len() > 0 {
        ungrouped_keeps(s.drop_last());
        assert(s.drop_last().push(s.last()) =~= s);
    }
}

/// Grouping adds commas and changes nothing else.
pub proof fn grouping_only_adds_commas(s: Seq<char>)
    requires
        forall|i: int| 0 <= i < s.len() ==> #[trigger] s[i] != ',',
    ensures
        ungrouped(grouped(s)) == s,
    decreases s.len(),
{
    if s.len() <= 3 {
        ungrouped_keeps(s);
    } else {
        let head = s.take(s.len() - 3);
        let tail = s.skip(s.len() - 3);
        grouping_only_adds_commas(head);
        ungrouped_keeps(tail);
        reveal_strlit(",");
        assert(","@ =~= seq![',']);
        assert(ungrouped(","@) =~= Seq::<char>::empty()) by {
            reveal_with_fuel(ungrouped, 2);
            assert(","@.drop_last() =~= Seq::<char>::empty());
        }
        ungrouped_append(grouped(head) + ","@, tail);
        ungrouped_append(grouped(head), ","@);
        assert(head + Seq::<char>::empty() + tail =~= s);
    }
}

/// A number has no needless zero at its start, and a minus sign exactly where it
/// is negative.
pub proof fn numbers_start_with_no_zero(v: int)
    ensures
        v != 0 ==> decimal(v)[if v < 0 {
            1
        } else {
            0
        }] != '0',
        v < 0 <==> decimal(v)[0] == '-',
        v < 0 ==> decimal(v) == seq!['-'] + decimal(-v),
{
    let n: nat = if v < 0 {
        (-v) as nat
    } else {
        v as nat
    };
    digits_denote(n);
    first_digits(n);
    assert(text::is_digit(digits(n)[0]));
}

proof fn first_digits(n: nat)
    ensures
        n > 0 ==> digits(n)[0] != '0',
        digits(n).len() > 0,
    decreases n,
{
    if n >= 10 {
        first_digits(n / 10);
        assert(digits(n)[0] == digits(n / 10)[0]);
    }
}

/// What is read as a number is its own value: a numeral is read back, with or
/// without a plus sign before it, up to the largest number that is allowed, and
/// nothing with another character in it is read at all.
pub proof fn numerals_are_read_up_to_the_largest(n: nat, max: nat, s: Seq<char>, i: int)
    ensures
        n <= max ==> parsed_up_to(digits(n), max) == Some(n as int),
        n <= max ==> parsed_up_to(seq!['+'] + digits(n), max) == Some(n as int),
        n > max ==> parsed_up_to(digits(n), max) is None,
        parsed_up_to(seq!['-'] + digits(n), max) is None,
        parsed_up_to(Seq::empty(), max) is None,
        parsed_i64(Seq::empty()) is None,
        0 < i < s.len() && !('0' <= s[i] <= '9') ==> parsed_up_to(s, max) is None && parsed_i64(s)
            is None,
        s.len() > 0 && !('0' <= s[0] <= '9') && s[0] != '+' && s[0] != '-' ==> parsed_up_to(s, max)
            is None && parsed_i64(s) is None,
{
    digits_denote(n);
    let d = digits(n);
    assert(text::is_digit(d[0]));
    assert((seq!['+'] + d).skip(1) =~= d);
    assert((seq!['-'] + d)[0] == '-');
    if 0 < i < s.len() && !('0' <= s[i] <= '9') {
        assert(s.skip(1)[i - 1] == s[i]);
        assert(!is_numeral(s));
        assert(!is_numeral(s.skip(1)));
    }
    if s.len() > 0 && !('0' <= s[0] <= '9') && s[0] != '+' && s[0] != '-' {
        assert(!text::is_digit(s[0]));
        assert(!is_numeral(s));
    }
}

/// A comma stands before every third digit, counted from the end, and nowhere
/// else; none stands at the start.
pub proof fn commas_stand_between_groups_of_three(s: Seq<char>, k: int)
    requires
        s.len() > 0,
        forall|i: int| 0 <= i < s.len() ==> #[trigger] s[i] != ',',
        0 <= k < grouped(s).len(),
    ensures
        grouped(s).len() == s.len() + (s.len() - 1) / 3,
        grouped(s)[grouped(s).len() - 1 - k] == ',' <==> k % 4 == 3,
    decreases s.len(),
{
    reveal_strlit(",");
    if s.len() > 3 {
        let head = s.take(s.len() - 3);
        assert forall|i: int| 0 <= i < head.len() implies #[trigger] head[i] != ',' by {
            assert(head[i] == s[i]);
        }
        grouped_is_not_empty(head);
        if k >= 4 {
            commas_stand_between_groups_of_three(head, k - 4);
            assert(grouped(s)[grouped(s).len() - 1 - k] == grouped(head)[grouped(head).len() - 1 - (k
                - 4)]);
        } else {
            commas_stand_between_groups_of_three(head, 0);
            if k < 3 {
                assert(grouped(s)[grouped(s).len() - 1 - k] == s[s.len() - 1 - k]);
            }
        }
    } else {
        assert(grouped(s)[grouped(s).len() - 1 - k] == s[s.len() - 1 - k]);
    }
}

proof fn grouped_is_not_empty(s: Seq<char>)
    requires
        s.len() > 0,
    ensures
        grouped(s).len() > 0,
    decreases s.len(),
{
    reveal_strlit(",");
}

/// A grouped number is the number's digits with commas, after a minus sign where
/// it is negative.
pub proof fn grouped_numbers_keep_their_digits(v: int)
    ensures
        v >= 0 ==> ungrouped(grouped_decimal(v)) == decimal(v),
        v < 0 ==> grouped_decimal(v) == "-"@ + grouped_decimal(-v),
{
    if v >= 0 {
        digits_denote(v as nat);
        let s = digits(v as nat);
        assert forall|i: int| 0 <= i < s.len() implies #[trigger] s[i] != ',' by {
            assert(text::is_digit(s[i]));
        }
        grouping_only_adds_commas(s);
    }
}

} // verus!
