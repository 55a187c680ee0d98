//! The alignment that a GGUF file declares: a walk over its metadata, which tells whether
//! the alignment in effect is zero.
use vstd::prelude::*;

verus! {

/// How deeply arrays may be nested, counting the outermost.
pub const MAX_NESTING: u32 = 65;

/// The number in the `n` bytes from `p` on, least significant first.
pub open spec fn number(bytes: Seq<u8>, p: int, n: nat) -> nat
    decreases n,
{
    if n == 0 {
        0
    } else {
        bytes[p] as nat + 256 * number(bytes, p + 1, (n - 1) as nat)
    }
}

/// The same, where the bytes are there.
pub open spec fn number_at(bytes: Seq<u8>, p: nat, n: nat) -> Option<nat> {
    if p + n <= bytes.len() {
        Some(number(bytes, p as int, n))
    } else {
        None
    }
}

/// Where a text ends that starts at `p` with a length of `w` bytes.
pub open spec fn text_end(bytes: Seq<u8>, p: nat, w: nat) -> Option<nat> {
    match number_at(bytes, p, w) {
        Some(len) if p + w + len <= bytes.len() => Some(p + w + len),
        _ => None,
    }
}

/// Bytes of a number or truth value, by its type tag.
pub open spec fn scalar_size(tag: nat) -> Option<nat> {
    if tag == 0 || tag == 1 || tag == 7 {
        Some(1)
    } else if tag == 2 || tag == 3 {
        Some(2)
    } else if 4 <= tag <= 6 {
        Some(4)
    } else if 10 <= tag <= 12 {
        Some(8)
    } else {
        None
    }
}

/// Where a value ends that starts at `p`. `depth` more arrays may be nested in it.
pub open spec fn value_end(bytes: Seq<u8>, tag: nat, p: nat, w: nat, depth: nat) -> Option<nat>
    decreases depth, 0nat,
{
    match scalar_size(tag) {
        Some(size) => if p + size <= bytes.len() {
            Some(p + size)
        } else {
            None
        },
        None => if tag == 8 {
            text_end(bytes, p, w)
        } else if tag == 9 && depth > 0 {
            match (number_at(bytes, p, 4), number_at(bytes, p + 4, w)) {
                (Some(inner), Some(n)) => elements_end(
                    bytes,
                    inner,
                    n,
                    p + 4 + w,
                    w,
                    (depth - 1) as nat,
                ),
                _ => None,
            }
        } else {
            None
        },
    }
}

/// Where the last of `n` values ends, the first of which starts at `p`.
pub open spec fn elements_end(
    bytes: Seq<u8>,
    tag: nat,
    n: nat,
    p: nat,
    w: nat,
    depth: nat,
) -> Option<nat>
    decreases depth, n + 1,
{
    if n == 0 {
        Some(p)
    } else {
        match value_end(bytes, tag, p, w, depth) {
            Some(q) => elements_end(bytes, tag, (n - 1) as nat, q, w, depth),
            None => None,
        }
    }
}

/// The bytes of the key `general.alignment`.
pub open spec fn alignment_key() -> Seq<u8> {
    seq![
        103u8, 101u8, 110u8, 101u8, 114u8, 97u8, 108u8, 46u8, 97u8, 108u8, 105u8, 103u8, 110u8,
        109u8, 101u8, 110u8, 116u8,
    ]
}

/// Whether the bytes from `p` to `q` are the alignment key, with zero bytes behind it.
pub open spec fn is_alignment_key(bytes: Seq<u8>, p: int, q: int) -> bool {
    &&& p + 17 <= q
    &&& bytes.subrange(p, p + 17) == alignment_key()
    &&& forall|i: int| p + 17 <= i < q ==> #[trigger] bytes[i] == 0
}

/// Whether the last of `n` metadata entries that declares an alignment, the first of which
/// starts at `p`, declares zero as an integer. Where none does it is `zero`; where an entry
/// does not end in the file there is no answer.
pub open spec fn zero_declared(bytes: Seq<u8>, n: nat, p: nat, w: nat, zero: bool) -> Option<bool>
    decreases n,
{
    if n == 0 {
        Some(zero)
    } else {
        match text_end(bytes, p, w) {
            None => None,
            Some(k) => match number_at(bytes, k, 4) {
                None => None,
                Some(tag) => match value_end(bytes, tag, k + 4, w, MAX_NESTING as nat) {
                    None => None,
                    Some(q) => zero_declared(
                        bytes,
                        (n - 1) as nat,
                        q,
                        w,
                        if is_alignment_key(bytes, (p + w) as int, k as int) {
                            tag <= 5 && number(bytes, (k + 4) as int, (q - k - 4) as nat) == 0
                        } else {
                            zero
                        },
                    ),
                },
            },
        }
    }
}

/// Bytes of a length, by the version of the format.
pub open spec fn length_size(version: nat) -> nat {
    if version == 1 {
        4
    } else {
        8
    }
}

/// Whether the alignment in effect is zero: the metadata can be walked, and its last
/// alignment is an integer of zero.
pub open spec fn has_zero_alignment(bytes: Seq<u8>) -> bool {
    match number_at(bytes, 4, 4) {
        None => false,
        Some(version) => {
            let w = length_size(version);
            match number_at(bytes, 8 + w, w) {
                None => false,
                Some(n) => zero_declared(bytes, n, 8 + 2 * w, w, false) == Some(true),
            }
        },
    }
}

proof fn lemma_number_bound(bytes: Seq<u8>, p: int, n: nat)
    requires
        n <= 8,
    ensures
        n <= 7 ==> number(bytes, p, n) < 0x100_0000_0000_0000,
        n <= 8 ==> number(bytes, p, n) <= u64::MAX,
{
    reveal_with_fuel(number, 9);
}

/// Reads the number in the `n` bytes from `p` on, where they are there.
fn read_number(bytes: &[u8], p: usize, n: usize) -> (value: Option<u64>)
    requires
        n <= 8,
    ensures
        match value {
            Some(v) => number_at(bytes@, p as nat, n as nat) == Some(v as nat),
            None => number_at(bytes@, p as nat, n as nat) is None,
        },
{
    let len: usize = bytes.len();
    if p > len || n > len - p {
        return None;
    }
    let mut value: u64 = 0;
    let mut i: usize = n;
    while i > 0
        invariant
            i <= n <= 8,
            p + n <= bytes@.len() == len,
            value == number(bytes@, p + i, (n - i) as nat),
        decreases i,
    {
        proof {
            lemma_number_bound(bytes@, p + i, (n - i) as nat);
        }
        i -= 1;
        value = value * 256 + bytes[p + i] as u64;
    }
    Some(value)
}

/// Finds the end of a text.
fn skip_text(bytes: &[u8], p: usize, w: usize) -> (end: Option<usize>)
    requires
        w <= 8,
    ensures
        match end {
            Some(q) => text_end(bytes@, p as nat, w as nat) == Some(q as nat) && p + w <= q
                <= bytes@.len(),
            None => text_end(bytes@, p as nat, w as nat) is None,
        },
{
    match read_number(bytes, p, w) {
        None => None,
        Some(len) => {
            let room: usize = bytes.len() - p - w;
            if len <= room as u64 {
                Some(p + w + len as usize)
            } else {
                None
            }
        },
    }
}

/// Finds the size of a number or truth value.
fn find_scalar_size(tag: u64) -> (size: Option<usize>)
    ensures
        match size {
            Some(n) => scalar_size(tag as nat) == Some(n as nat) && n <= 8,
            None => scalar_size(tag as nat) is None,
        },
{
    if tag == 0 || tag == 1 || tag == 7 {
        Some(1)
    } else if tag == 2 || tag == 3 {
        Some(2)
    } else if 4 <= tag && tag <= 6 {
        Some(4)
    } else if 10 <= tag && tag <= 12 {
        Some(8)
    } else {
        None
    }
}

/// Finds the end of a value.
fn skip_value(bytes: &[u8], tag: u64, p: usize, w: usize, depth: u32) -> (end: Option<usize>)
    requires
        w <= 8,
        p <= bytes@.len(),
    ensures
        match end {
            Some(q) => value_end(bytes@, tag as nat, p as nat, w as nat, depth as nat) == Some(
                q as nat,
            ) && p <= q <= bytes@.len(),
            None => value_end(bytes@, tag as nat, p as nat, w as nat, depth as nat) is None,
        },
    decreases depth, 0nat,
{
    let len: usize = bytes.len();
    match find_scalar_size(tag) {
        Some(size) => {
            if size <= len - p {
                return Some(p + size);
            }
            return None;
        },
        None => {},
    }
    if tag == 8 {
        return skip_text(bytes, p, w);
    }
    if tag != 9 || depth == 0 {
        return None;
    }
    match read_number(bytes, p, 4) {
        None => None,
        Some(inner) => match read_number(bytes, p + 4, w) {
            None => None,
            Some(n) => skip_elements(bytes, inner, n, p + 4 + w, w, depth - 1),
        },
    }
}

/// Finds the end of the last of `n` values.
fn skip_elements(bytes: &[u8], tag: u64, n: u64, p: usize, w: usize, depth: u32) -> (end: Option<
    usize,
>)
    requires
        w <= 8,
        p <= bytes@.len(),
    ensures
        match end {
            Some(q) => elements_end(
                bytes@,
                tag as nat,
                n as nat,
                p as nat,
                w as nat,
                depth as nat,
            ) == Some(q as nat) && p <= q <= bytes@.len(),
            None => elements_end(
                bytes@,
                tag as nat,
                n as nat,
                p as nat,
                w as nat,
                depth as nat,
            ) is None,
        },
    decreases depth, 1nat,
{
    let mut left: u64 = n;
    let mut at: usize = p;
    while left > 0
        invariant
            w <= 8,
            left <= n,
            p <= at <= bytes@.len(),
            elements_end(bytes@, tag as nat, n as nat, p as nat, w as nat, depth as nat)
                == elements_end(
                bytes@,
                tag as nat,
                left as nat,
                at as nat,
                w as nat,
                depth as nat,
            ),
        decreases left,
    {
        match skip_value(bytes, tag, at, w, depth) {
            None => return None,
            Some(q) => at = q,
        }
        left -= 1;
    }
    Some(at)
}

/// Tests whether the bytes from `p` to `q` are the alignment key.
fn find_key(bytes: &[u8], p: usize, q: usize) -> (found: bool)
    requires
        p <= q <= bytes@.len(),
    ensures
        found == is_alignment_key(bytes@, p as int, q as int),
{
    let key: Vec<u8> = vec![
        103, 101, 110, 101, 114, 97, 108, 46, 97, 108, 105, 103, 110, 109, 101, 110, 116,
    ];
    assert(key@ =~= alignment_key());
    let len: usize = bytes.len();
    if q - p < 17 {
        return false;
    }
    let mut i: usize = 0;
    while i < 17
        invariant
            key@ == alignment_key(),
            key@.len() == 17,
            i <= 17,
            p + 17 <= q <= bytes@.len() == len,
            forall|k: int| 0 <= k < i ==> bytes@[p + k] == #[trigger] key@[k],
        decreases 17 - i,
    {
        if bytes[p + i] != key[i] {
            assert(bytes@.subrange(p as int, p + 17)[i as int] != alignment_key()[i as int]);
            return false;
        }
        i += 1;
    }
    assert(bytes@.subrange(p as int, p + 17) =~= alignment_key());
    let mut j: usize = p + 17;
    while j < q
        invariant
            p + 17 <= j <= q <= bytes@.len() == len,
            forall|k: int| p + 17 <= k < j ==> #[trigger] bytes@[k] == 0,
        decreases q - j,
    {
        if bytes[j] != 0 {
            assert(bytes@[j as int] != 0);
            return false;
        }
        j += 1;
    }
    true
}

/// Tests whether the alignment in effect is zero.
pub fn find_zero_alignment(bytes: &[u8]) -> (found: bool)
    ensures
        found == has_zero_alignment(bytes@),
{
    let len: usize = bytes.len();
    let version: u64 = match read_number(bytes, 4, 4) {
        None => return false,
        Some(v) => v,
    };
    let w: usize = if version == 1 {
        4
    } else {
        8
    };
    let n: u64 = match read_number(bytes, 8 + w, w) {
        None => return false,
        Some(n) => n,
    };
    let mut left: u64 = n;
    let mut at: usize = 8 + 2 * w;
    let mut zero: bool = false;
    while left > 0
        invariant
            w == 4 || w == 8,
            left <= n,
            at <= bytes@.len() == len,
            number_at(bytes@, 4, 4) == Some(version as nat),
            w == length_size(version as nat),
            number_at(bytes@, 8 + w as nat, w as nat) == Some(n as nat),
            zero_declared(bytes@, n as nat, 8 + 2 * w as nat, w as nat, false) == zero_declared(
                bytes@,
                left as nat,
                at as nat,
                w as nat,
                zero,
            ),
        decreases left,
    {
        let k: usize = match skip_text(bytes, at, w) {
            None => return false,
            Some(k) => k,
        };
        let tag: u64 = match read_number(bytes, k, 4) {
            None => return false,
            Some(tag) => tag,
        };
        let q: usize = match skip_value(bytes, tag, k + 4, w, MAX_NESTING) {
            None => return false,
            Some(q) => q,
        };
        if find_key(bytes, at + w, k) {
            zero = false;
            if tag <= 5 {
                match read_number(bytes, k + 4, q - k - 4) {
                    Some(value) => zero = value == 0,
                    None => {},
                }
            }
        }
        at = q;
        left -= 1;
    }
    zero
}

/// A number's first bytes are its low part, and its later bytes the high part.
pub proof fn law_numbers_are_little_endian(bytes: Seq<u8>, p: int, a: nat, b: nat)
    ensures
        number(bytes, p, a + b) == number(bytes, p, a) + vstd::arithmetic::power::pow(256, a)
            * number(bytes, p + a, b),
        number(bytes, p, 1) == bytes[p],
        0 <= number(bytes, p, a) < vstd::arithmetic::power::pow(256, a),
    decreases a,
{
    vstd::arithmetic::power::lemma_pow0(256);
    reveal_with_fuel(number, 2);
    if a > 0 {
        law_numbers_are_little_endian(bytes, p + 1, (a - 1) as nat, b);
        reveal(vstd::arithmetic::power::pow);
        let k = vstd::arithmetic::power::pow(256, (a - 1) as nat);
        let high = number(bytes, p + a, b);
        assert(p + 1 + (a - 1) == p + a);
        assert((256 * k) * high == 256 * (k * high)) by (nonlinear_arith);
    } else {
        assert(1 * number(bytes, p, b) == number(bytes, p, b));
    }
}

/// A list's items follow each other: it ends where its later items end that begin where
/// its earlier ones end.
pub proof fn law_items_follow_each_other(
    bytes: Seq<u8>,
    tag: nat,
    a: nat,
    b: nat,
    p: nat,
    w: nat,
    depth: nat,
)
    ensures
        elements_end(bytes, tag, a + b, p, w, depth) == match elements_end(
            bytes,
            tag,
            a,
            p,
            w,
            depth,
        ) {
            Some(q) => elements_end(bytes, tag, b, q, w, depth),
            None => None,
        },
        elements_end(bytes, tag, 0, p, w, depth) == Some(p),
    decreases a,
{
    if a > 0 {
        match value_end(bytes, tag, p, w, depth) {
            Some(q) => {
                law_items_follow_each_other(bytes, tag, (a - 1) as nat, b, q, w, depth);
                assert((a + b - 1) as nat == (a - 1) as nat + b);
            },
            None => {},
        }
    }
}

/// Numbers take as many bytes as their kind has: one for bytes and truth values, two for
/// short integers, four for integers and floats, eight for long ones. A text has its length
/// in front.
pub proof fn law_values_have_their_sizes(
    bytes: Seq<u8>,
    tag: nat,
    p: nat,
    w: nat,
    depth: nat,
    size: nat,
)
    requires
        p + 8 <= bytes.len(),
    ensures
        tag == 0 || tag == 1 || tag == 7 ==> value_end(bytes, tag, p, w, depth) == Some(p + 1),
        tag == 2 || tag == 3 ==> value_end(bytes, tag, p, w, depth) == Some(p + 2),
        tag == 4 || tag == 5 || tag == 6 ==> value_end(bytes, tag, p, w, depth) == Some(p + 4),
        tag == 10 || tag == 11 || tag == 12 ==> value_end(bytes, tag, p, w, depth) == Some(p + 8),
        tag > 12 ==> value_end(bytes, tag, p, w, depth) is None,
        tag == 8 && p + w <= bytes.len() && number(bytes, p as int, w) == size ==> value_end(
            bytes,
            tag,
            p,
            w,
            depth,
        ) == (if p + w + size <= bytes.len() {
            Some(p + w + size)
        } else {
            None
        }),
{
}

/// The key of the alignment is its name, letter by letter.
pub proof fn law_the_key_is_the_name(i: int)
    requires
        0 <= i < 17,
    ensures
        alignment_key().len() == "general.alignment"@.len(),
        alignment_key()[i] as int == "general.alignment"@[i] as int,
{
    reveal_strlit("general.alignment");
}

/// The last entry that names the alignment decides: where it is a small integer, by
/// whether that is zero. Other entries change nothing.
pub proof fn law_the_last_alignment_decides(
    bytes: Seq<u8>,
    n: nat,
    p: nat,
    w: nat,
    zero: bool,
    k: nat,
    tag: nat,
    q: nat,
)
    requires
        n > 0,
        text_end(bytes, p, w) == Some(k),
        number_at(bytes, k, 4) == Some(tag),
        value_end(bytes, tag, k + 4, w, 65) == Some(q),
    ensures
        !is_alignment_key(bytes, (p + w) as int, k as int) ==> zero_declared(bytes, n, p, w, zero)
            == zero_declared(bytes, (n - 1) as nat, q, w, zero),
        is_alignment_key(bytes, (p + w) as int, k as int) && tag == 4 ==> zero_declared(
            bytes,
            n,
            p,
            w,
            zero,
        ) == zero_declared(
            bytes,
            (n - 1) as nat,
            q,
            w,
            bytes[(k + 4) as int] == 0 && bytes[(k + 5) as int] == 0 && bytes[(k + 6) as int] == 0
                && bytes[(k + 7) as int] == 0,
        ),
        is_alignment_key(bytes, (p + w) as int, k as int) && tag > 5 ==> zero_declared(
            bytes,
            n,
            p,
            w,
            zero,
        ) == zero_declared(bytes, (n - 1) as nat, q, w, false),
        zero_declared(bytes, 0, p, w, zero) == Some(zero),
{
    if tag == 4 {
        reveal_with_fuel(number, 5);
    }
}

/// Entries begin behind the magic word, the version and the two counts, which have four
/// bytes each in the first version and eight in later ones. A file with no entries, or cut
/// short before them, declares nothing.
pub proof fn law_entries_follow_the_counts(bytes: Seq<u8>, version: nat, n: nat)
    requires
        number_at(bytes, 4, 4) == Some(version),
    ensures
        version == 1 && number_at(bytes, 12, 4) == Some(n) ==> has_zero_alignment(bytes) == (
        zero_declared(bytes, n, 16, 4, false) == Some(true)),
        version != 1 && number_at(bytes, 16, 8) == Some(n) ==> has_zero_alignment(bytes) == (
        zero_declared(bytes, n, 24, 8, false) == Some(true)),
        bytes.len() < 16 ==> !has_zero_alignment(bytes),
        version == 1 && number_at(bytes, 12, 4) == Some(0nat) ==> !has_zero_alignment(bytes),
        version != 1 && number_at(bytes, 16, 8) == Some(0nat) ==> !has_zero_alignment(bytes),
{
}

} // verus!
