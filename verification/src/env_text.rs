//! Reading switches and numbers from the text of environment variables.
use crate::table::same_text;
use crate::text::decimal;
use vstd::prelude::*;

verus! {

/// The code of a character, that of an ASCII capital replaced by the small letter's.
pub open spec fn folded(c: char) -> int {
    if 65 <= c as int <= 90 {
        c as int + 32
    } else {
        c as int
    }
}

/// Whether two texts differ in the case of ASCII letters at most.
pub open spec fn same_folded(a: Seq<char>, b: Seq<char>) -> bool {
    a.len() == b.len() && forall|i: int| 0 <= i < a.len() ==> folded(#[trigger] a[i]) == folded(b[i])
}

fn fold(c: char) -> (code: u32)
    ensures
        code == folded(c),
{
    let code: u32 = c as u32;
    if 65 <= code && code <= 90 {
        code + 32
    } else {
        code
    }
}

/// Compares two texts without regard to the case of ASCII letters.
pub fn same_ignoring_case(a: &str, b: &str) -> (same: bool)
    ensures
        same == same_folded(a@, b@),
{
    let n: usize = a.unicode_len();
    if n != b.unicode_len() {
        return false;
    }
    let mut i: usize = 0;
    while i < n
        invariant
            i <= n,
            n == a@.len(),
            n == b@.len(),
            forall|k: int| 0 <= k < i ==> folded(#[trigger] a@[k]) == folded(b@[k]),
        decreases n - i,
    {
        if fold(a.get_char(i)) != fold(b.get_char(i)) {
            assert(folded(a@[i as int]) != folded(b@[i as int]));
            return false;
        }
        i += 1;
    }
    true
}

/// Whether a switch that is off by default is on: its text is neither `0` nor
/// `false`.
pub open spec fn switched_on(value: Option<Seq<char>>, default: bool) -> bool {
    match value {
        Some(v) => v != "0"@ && !same_folded(v, "false"@),
        None => default,
    }
}

/// Reads a switch that only `0` and `false` turn off.
pub fn switch_unless_off(value: Option<&str>, default: bool) -> (on: bool)
    ensures
        on == switched_on(crate::moe::text_view(value), default),
{
    match value {
        Some(v) => !same_text(v, "0") && !same_ignoring_case(v, "false"),
        None => default,
    }
}

/// Whether a switch that only `1` and `true` turn on is on.
pub open spec fn turned_on(value: Option<Seq<char>>) -> bool {
    match value {
        Some(v) => v == "1"@ || same_folded(v, "true"@),
        None => false,
    }
}

/// Reads a switch that only `1` and `true` turn on.
pub fn switch_if_on(value: Option<&str>) -> (on: bool)
    ensures
        on == turned_on(crate::moe::text_view(value)),
{
    match value {
        Some(v) => same_text(v, "1") || same_ignoring_case(v, "true"),
        None => false,
    }
}

/// Whether a character is a decimal digit.
pub open spec fn is_digit(c: char) -> bool {
    48 <= c as int <= 57
}

/// The value of decimal digits.
pub open spec fn digits_value(s: Seq<char>) -> nat
    decreases s.len(),
{
    if s.len() == 0 {
        0
    } else {
        digits_value(s.drop_last()) * 10 + (s.last() as int - 48) as nat
    }
}

/// Whether a text is a number: digits behind an optional plus sign.
pub open spec fn is_number(s: Seq<char>) -> bool {
    let body = number_body(s);
    body.len() > 0 && forall|i: int| 0 <= i < body.len() ==> is_digit(#[trigger] body[i])
}

/// A text without its plus sign.
pub open spec fn number_body(s: Seq<char>) -> Seq<char> {
    if s.len() > 0 && s[0] == '+' {
        s.skip(1)
    } else {
        s
    }
}

/// The number that a text stands for, where it is one that fits.
pub open spec fn parsed(s: Seq<char>) -> Option<usize> {
    if is_number(s) && digits_value(number_body(s)) <= usize::MAX {
        Some(digits_value(number_body(s)) as usize)
    } else {
        None
    }
}

proof fn lemma_prefix_value(s: Seq<char>, n: int)
    requires
        0 <= n <= s.len(),
        forall|i: int| 0 <= i < s.len() ==> is_digit(#[trigger] s[i]),
    ensures
        digits_value(s.take(n)) <= digits_value(s),
    decreases s.len(),
{
    if n < s.len() {
        assert forall|i: int| 0 <= i < s.drop_last().len() implies is_digit(
            #[trigger] s.drop_last()[i],
        ) by {
            assert(is_digit(s[i]));
        }
        lemma_prefix_value(s.drop_last(), n);
        assert(s.drop_last().take(n) =~= s.take(n));
        assert(is_digit(s.last())) by {
            assert(is_digit(s[s.len() - 1]));
        }
    } else {
        assert(s.take(n) =~= s);
    }
}

/// Reads a number.
pub fn parse_number(text: &str) -> (n: Option<usize>)
    ensures
        n == parsed(text@),
{
    let len: usize = text.unicode_len();
    let start: usize = if len > 0 && text.get_char(0) == '+' {
        1
    } else {
        0
    };
    let ghost body = number_body(text@);
    assert(body =~= text@.skip(start as int));
    if start == len {
        return None;
    }
    let mut value: usize = 0;
    let mut fits: bool = true;
    let mut i: usize = start;
    assert(body.take(0) =~= Seq::empty());
    while i < len
        invariant
            start <= i <= len == text@.len(),
            body == text@.skip(start as int),
            body == number_body(text@),
            forall|k: int| 0 <= k < i - start ==> is_digit(#[trigger] body[k]),
            fits ==> value == digits_value(body.take(i - start)),
            !fits ==> digits_value(body.take(i - start)) > usize::MAX,
        decreases len - i,
    {
        let c = text.get_char(i);
        assert(c == body[i - start]);
        let code: u32 = c as u32;
        if code < 48 || code > 57 {
            assert(!is_digit(body[i - start]));
            return None;
        }
        let digit: usize = (code - 48) as usize;
        let ghost before = body.take(i - start);
        let ghost after = body.take(i - start + 1);
        proof {
            assert(after.drop_last() =~= before);
            assert(after.last() == c);
        }
        if fits {
            match value.checked_mul(10) {
                Some(tens) => match tens.checked_add(digit) {
                    Some(next) => {
                        value = next;
                    },
                    None => {
                        fits = false;
                    },
                },
                None => {
                    fits = false;
                },
            }
        }
        i += 1;
    }
    assert(body.take(len - start) =~= body);
    if fits {
        Some(value)
    } else {
        None
    }
}

proof fn lemma_decimal_digits(n: nat)
    ensures
        decimal(n).len() > 0,
        forall|i: int| 0 <= i < decimal(n).len() ==> is_digit(#[trigger] decimal(n)[i]),
        digits_value(decimal(n)) == n,
        n > 0 ==> decimal(n)[0] != '0',
    decreases n,
{
    if n < 10 {
        assert(decimal(n).drop_last() =~= Seq::empty());
        assert(digits_value(Seq::<char>::empty()) == 0);
    } else {
        lemma_decimal_digits(n / 10);
        assert(decimal(n).drop_last() =~= decimal(n / 10));
    }
}

/// A number that is written out is read back as itself, with or without a sign in front,
/// and is written without leading zeros.
pub proof fn law_numbers_are_read_back(n: usize)
    ensures
        parsed(decimal(n as nat)) == Some(n),
        parsed(seq!['+'] + decimal(n as nat)) == Some(n),
        n > 0 ==> decimal(n as nat)[0] != '0',
        n == 0 ==> decimal(n as nat) == seq!['0'],
{
    lemma_decimal_digits(n as nat);
    let text = decimal(n as nat);
    assert(is_digit(text[0]));
    assert((seq!['+'] + text).skip(1) =~= text);
}

/// Two numbers that are written alike are the same.
pub proof fn law_numbers_are_written_apart(a: nat, b: nat)
    requires
        decimal(a) == decimal(b),
    ensures
        a == b,
{
    lemma_decimal_digits(a);
    lemma_decimal_digits(b);
}

/// Only digits make a number: nothing else is read, nor is the empty text.
pub proof fn law_other_texts_are_no_numbers(text: Seq<char>, i: int)
    requires
        0 <= i < text.len(),
        i > 0 || text[0] != '+',
        !('0' <= text[i] <= '9'),
    ensures
        parsed(text) is None,
        parsed(Seq::empty()) is None,
        parsed(seq!['+']) is None,
{
    if text[0] == '+' {
        assert(text.skip(1)[i - 1] == text[i]);
    }
    assert(number_body(text).len() > 0);
    assert(seq!['+'].skip(1) =~= Seq::empty());
    if is_number(text) {
        let body = number_body(text);
        let k = if text[0] == '+' {
            i - 1
        } else {
            i
        };
        assert(is_digit(body[k]));
    }
}

/// Case does not matter for letters, and nothing else is folded: a text equals itself, and
/// equals what differs from it in the case of letters alone.
pub proof fn law_only_case_is_ignored(a: Seq<char>, b: Seq<char>, i: int)
    ensures
        same_folded(a, a),
        same_folded(a, b) == same_folded(b, a),
        same_folded(a, b) && 0 <= i < a.len() ==> a.len() == b.len() && (a[i] == b[i] || (
        'A' <= a[i] <= 'Z' && b[i] as int == a[i] as int + 32) || ('A' <= b[i] <= 'Z' && a[i] as int
            == b[i] as int + 32)),
        a.len() == b.len() && (forall|k: int|
            0 <= k < a.len() ==> #[trigger] a[k] == b[k] || ('A' <= a[k] <= 'Z' && b[k] as int
                == a[k] as int + 32)) ==> same_folded(a, b),
{
}

/// A switch that is on by default is turned off by `0` or `false`, in whatever case, and by
/// nothing else. One that is off by default is turned on by `1` or `true`, and by nothing
/// else.
pub proof fn law_switches(value: Seq<char>, default: bool)
    ensures
        switched_on(None, default) == default,
        switched_on(Some(value), default) <==> !(value == "0"@ || same_folded(value, "false"@)),
        !turned_on(None),
        turned_on(Some(value)) <==> value == "1"@ || same_folded(value, "true"@),
        turned_on(Some(value)) ==> switched_on(Some(value), default),
{
    reveal_strlit("0");
    reveal_strlit("1");
    reveal_strlit("true");
    reveal_strlit("false");
    if value == "1"@ {
        assert("1"@[0] != "0"@[0]);
        assert("1"@.len() != "false"@.len());
    }
    if same_folded(value, "true"@) {
        assert("true"@.len() != "0"@.len());
        assert("true"@.len() != "false"@.len());
    }
}

} // verus!
