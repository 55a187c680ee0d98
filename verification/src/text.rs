//! Text building blocks for messages and names: decimal and hexadecimal
//! numbers, lists, and the order in which names are kept.
use vstd::prelude::*;
use vstd::string::*;

verus! {

/// The character of a decimal digit.
pub open spec fn digit_char(d: nat) -> char {
    if d == 0 {
        '0'
    } else if d == 1 {
        '1'
    } else if d == 2 {
        '2'
    } else if d == 3 {
        '3'
    } else if d == 4 {
        '4'
    } else if d == 5 {
        '5'
    } else if d == 6 {
        '6'
    } else if d == 7 {
        '7'
    } else if d == 8 {
        '8'
    } else if d == 9 {
        '9'
    } else if d == 10 {
        'a'
    } else if d == 11 {
        'b'
    } else if d == 12 {
        'c'
    } else if d == 13 {
        'd'
    } else if d == 14 {
        'e'
    } else {
        'f'
    }
}

/// The decimal notation of `n`, without leading zeros.
pub open spec fn decimal(n: nat) -> Seq<char>
    decreases n,
{
    if n < 10 {
        seq![digit_char(n)]
    } else {
        decimal(n / 10).push(digit_char(n % 10))
    }
}

/// The last `width` hexadecimal digits of `n`, with leading zeros.
pub open spec fn hex(n: nat, width: nat) -> Seq<char>
    decreases width,
{
    if width == 0 {
        Seq::empty()
    } else {
        hex(n / 16, (width - 1) as nat).push(digit_char(n % 16))
    }
}

/// The hexadecimal notation of `n` behind `0x`, without leading zeros.
pub open spec fn hexadecimal(n: nat) -> Seq<char> {
    "0x"@ + hex_digits(n)
}

/// The hexadecimal digits of `n`, without leading zeros.
pub open spec fn hex_digits(n: nat) -> Seq<char>
    decreases n,
{
    if n < 16 {
        seq![digit_char(n)]
    } else {
        hex_digits(n / 16).push(digit_char(n % 16))
    }
}

fn digit_text(d: u64) -> (s: &'static str)
    requires
        d < 16,
    ensures
        s@ == seq![digit_char(d as nat)],
{
    proof {
        reveal_strlit("0");
        reveal_strlit("1");
        reveal_strlit("2");
        reveal_strlit("3");
        reveal_strlit("4");
        reveal_strlit("5");
        reveal_strlit("6");
        reveal_strlit("7");
        reveal_strlit("8");
        reveal_strlit("9");
        reveal_strlit("a");
        reveal_strlit("b");
        reveal_strlit("c");
        reveal_strlit("d");
        reveal_strlit("e");
        reveal_strlit("f");
    }
    if d == 0 {
        "0"
    } else if d == 1 {
        "1"
    } else if d == 2 {
        "2"
    } else if d == 3 {
        "3"
    } else if d == 4 {
        "4"
    } else if d == 5 {
        "5"
    } else if d == 6 {
        "6"
    } else if d == 7 {
        "7"
    } else if d == 8 {
        "8"
    } else if d == 9 {
        "9"
    } else if d == 10 {
        "a"
    } else if d == 11 {
        "b"
    } else if d == 12 {
        "c"
    } else if d == 13 {
        "d"
    } else if d == 14 {
        "e"
    } else {
        "f"
    }
}

/// Appends the decimal notation of `n`.
pub fn push_decimal(out: &mut String, n: u64)
    ensures
        final(out)@ == old(out)@ + decimal(n as nat),
    decreases n,
{
    if n < 10 {
        out.append(digit_text(n));
    } else {
        push_decimal(out, n / 10);
        out.append(digit_text(n % 10));
    }
}

fn push_hex_digits(out: &mut String, n: u64)
    ensures
        final(out)@ == old(out)@ + hex_digits(n as nat),
    decreases n,
{
    if n < 16 {
        out.append(digit_text(n));
    } else {
        push_hex_digits(out, n / 16);
        out.append(digit_text(n % 16));
    }
}

/// Appends the hexadecimal notation of `n` behind `0x`.
pub fn push_hexadecimal(out: &mut String, n: u64)
    ensures
        final(out)@ == old(out)@ + hexadecimal(n as nat),
{
    out.append("0x");
    push_hex_digits(out, n);
    assert(out@ =~= old(out)@ + hexadecimal(n as nat));
}

/// Appends the last `width` hexadecimal digits of `n`.
pub fn push_hex(out: &mut String, n: u64, width: usize)
    ensures
        final(out)@ == old(out)@ + hex(n as nat, width as nat),
    decreases width,
{
    if width > 0 {
        push_hex(out, n / 16, width - 1);
        out.append(digit_text(n % 16));
    }
}

/// Concatenation is associative.
pub broadcast proof fn lemma_concat_assoc<A>(a: Seq<A>, b: Seq<A>, c: Seq<A>)
    ensures
        #[trigger] (a + (b + c)) == a + b + c,
{
    assert(a + (b + c) =~= a + b + c);
}

/// What a concatenation holds, one of its parts holds.
pub broadcast proof fn lemma_concat_contains<A>(a: Seq<A>, b: Seq<A>, x: A)
    ensures
        #[trigger] (a + b).contains(x) == (a.contains(x) || b.contains(x)),
{
    if a.contains(x) {
        let i = choose|i: int| 0 <= i < a.len() && a[i] == x;
        assert((a + b)[i] == x);
    }
    if b.contains(x) {
        let i = choose|i: int| 0 <= i < b.len() && b[i] == x;
        assert((a + b)[a.len() + i] == x);
    }
}

/// `items` in square brackets, separated by a comma and a space.
pub open spec fn bracketed(items: Seq<Seq<char>>) -> Seq<char> {
    seq!['['] + joined(items, seq![',', ' ']) + seq![']']
}

/// `items` one after the other with `sep` between them.
pub open spec fn joined(items: Seq<Seq<char>>, sep: Seq<char>) -> Seq<char>
    decreases items.len(),
{
    if items.len() == 0 {
        Seq::empty()
    } else if items.len() == 1 {
        items[0]
    } else {
        joined(items.drop_last(), sep) + sep + items.last()
    }
}

/// The decimal notations of `values`.
pub open spec fn decimals(values: Seq<usize>) -> Seq<Seq<char>> {
    Seq::new(values.len(), |i: int| decimal(values[i] as nat))
}

/// The views of `texts`.
pub open spec fn views(texts: Seq<String>) -> Seq<Seq<char>> {
    Seq::new(texts.len(), |i: int| texts[i]@)
}

/// Joins `texts` with `sep` between them.
pub fn join(texts: &Vec<String>, sep: &str) -> (out: String)
    ensures
        out@ == joined(views(texts@), sep@),
{
    let mut out = String::new();
    let mut i: usize = 0;
    while i < texts.len()
        invariant
            i <= texts.len(),
            out@ == joined(views(texts@.take(i as int)), sep@),
        decreases texts.len() - i,
    {
        let ghost before = views(texts@.take(i as int));
        let ghost after = views(texts@.take(i + 1));
        proof {
            assert(after.drop_last() =~= before);
            assert(after.last() == texts@[i as int]@);
        }
        if i > 0 {
            out.append(sep);
        }
        out.append(texts[i].as_str());
        proof {
            if i == 0 {
                assert(out@ =~= texts@[0]@);
            }
        }
        i += 1;
    }
    proof {
        assert(texts@.take(texts@.len() as int) =~= texts@);
    }
    out
}

/// Appends `values` in brackets, in the way a list is shown for debugging.
pub fn push_list(out: &mut String, values: &[usize])
    ensures
        final(out)@ == old(out)@ + bracketed(decimals(values@)),
{
    let ghost start = old(out)@;
    proof {
        reveal_strlit("[");
        reveal_strlit("]");
        reveal_strlit(", ");
        assert(", "@ =~= seq![',', ' ']);
        assert("["@ =~= seq!['[']);
        assert("]"@ =~= seq![']']);
    }
    out.append("[");
    let mut i: usize = 0;
    while i < values.len()
        invariant
            i <= values.len(),
            ", "@ == seq![',', ' '],
            out@ == start + seq!['['] + joined(decimals(values@.take(i as int)), seq![',', ' ']),
        decreases values.len() - i,
    {
        let ghost after = decimals(values@.take(i + 1));
        proof {
            assert(after.drop_last() =~= decimals(values@.take(i as int)));
            assert(after.last() == decimal(values@[i as int] as nat));
        }
        if i > 0 {
            out.append(", ");
        }
        push_decimal(out, values[i] as u64);
        proof {
            if i == 0 {
                assert(joined(after, seq![',', ' ']) =~= decimal(values@[0] as nat));
            }
            assert(out@ =~= start + seq!['['] + joined(after, seq![',', ' ']));
        }
        i += 1;
    }
    proof {
        assert(values@.take(values@.len() as int) =~= values@);
    }
    out.append("]");
    proof {
        assert(out@ =~= start + bracketed(decimals(values@)));
    }
}

/// How std shows a text for debugging: in quotes, with escapes.
pub uninterp spec fn debug_notation(text: Seq<char>) -> Seq<char>;

/// Formats a text with `{:?}`, that is with the `Debug` impl of `str`. The contract
/// says that the notation depends on the text alone; what it is, is not stated.
#[verifier::external_body]
pub(crate) fn debug_text(text: &str) -> (out: String)
    ensures
        out@ == debug_notation(text@),
{
    format!("{text:?}")
}

/// The number that a digit stands for, in bases up to sixteen.
pub open spec fn digit_number(c: char) -> int {
    if '0' <= c <= '9' {
        c as int - '0' as int
    } else {
        c as int - 'a' as int + 10
    }
}

/// The number that hexadecimal digits stand for.
pub open spec fn hex_number(digits: Seq<char>) -> int
    decreases digits.len(),
{
    if digits.len() == 0 {
        0
    } else {
        16 * hex_number(digits.drop_last()) + digit_number(digits.last())
    }
}

/// Every digit stands for its own number.
pub proof fn law_digits_stand_for_numbers(d: nat)
    requires
        d < 16,
    ensures
        digit_number(digit_char(d)) == d,
        d < 10 ==> '0' <= digit_char(d) <= '9',
        d >= 10 ==> 'a' <= digit_char(d) <= 'f',
{
}

/// A number written with `width` hexadecimal digits is found again from them, where it has
/// no more digits than that; leading places are zeros.
pub proof fn law_hex_is_read_back(n: nat, width: nat)
    requires
        n < vstd::arithmetic::power::pow(16, width),
    ensures
        hex(n, width).len() == width,
        hex_number(hex(n, width)) == n,
    decreases width,
{
    vstd::arithmetic::power::lemma_pow0(16);
    if width > 0 {
        let m = n / 16;
        reveal(vstd::arithmetic::power::pow);
        law_hex_is_read_back(m, (width - 1) as nat);
        law_digits_stand_for_numbers(n % 16);
        assert(hex(n, width).drop_last() =~= hex(m, (width - 1) as nat));
    }
}

/// A number in hexadecimal notation has a prefix and no leading zero, and is found again
/// from its digits.
pub proof fn law_hexadecimal_is_read_back(n: nat)
    ensures
        hexadecimal(n).len() > 2,
        hexadecimal(n)[0] == '0' && hexadecimal(n)[1] == 'x',
        hex_number(hexadecimal(n).skip(2)) == n,
        n > 0 ==> hexadecimal(n)[2] != '0',
{
    reveal_strlit("0x");
    lemma_hex_digits(n);
    assert(hexadecimal(n).skip(2) =~= hex_digits(n));
}

proof fn lemma_hex_digits(n: nat)
    ensures
        hex_digits(n).len() > 0,
        hex_number(hex_digits(n)) == n,
        n > 0 ==> hex_digits(n)[0] != '0',
    decreases n,
{
    if n < 16 {
        law_digits_stand_for_numbers(n);
        assert(hex_digits(n).drop_last() =~= Seq::empty());
        assert(hex_number(Seq::empty()) == 0);
    } else {
        lemma_hex_digits(n / 16);
        law_digits_stand_for_numbers(n % 16);
        assert(hex_digits(n).drop_last() =~= hex_digits(n / 16));
    }
}

/// Joining two lists one after the other is joining both with the separator between.
pub proof fn law_joined_lists_join(a: Seq<Seq<char>>, b: Seq<Seq<char>>, sep: Seq<char>)
    requires
        a.len() > 0,
        b.len() > 0,
    ensures
        joined(a + b, sep) == joined(a, sep) + sep + joined(b, sep),
        a.len() == 1 ==> joined(a, sep) == a[0],
        joined(Seq::empty(), sep).len() == 0,
    decreases b.len(),
{
    assert((a + b).drop_last() =~= a + b.drop_last());
    assert((a + b).last() == b.last());
    if b.len() == 1 {
        assert(a + b.drop_last() =~= a);
    } else {
        law_joined_lists_join(a, b.drop_last(), sep);
        assert(joined(a, sep) + sep + joined(b.drop_last(), sep) + sep + b.last() =~= joined(a, sep)
            + sep + (joined(b.drop_last(), sep) + sep + b.last()));
    }
}

} // verus!
