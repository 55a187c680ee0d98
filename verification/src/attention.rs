//! Decisions of the gated attention layers: which kernel computes the scores, how a
//! prompt is cut into pieces, what each query may see, and how heads share keys.
use crate::moe::text_view;
use crate::table::same_text;
use crate::text::{bracketed, decimal, decimals, push_decimal, push_list};
use vstd::prelude::*;

verus! {

/// Queries per piece of a prompt.
pub const QUERY_CHUNK: usize = 256;

/// Cache length from which a split over keys is possible.
pub const SPLIT_MIN_KEYS: usize = 2048;

/// Where tensors live.
#[derive(Debug, Clone, Copy, PartialEq, Eq, Structural)]
pub enum DeviceKind {
    Cpu,
    Metal,
    Cuda,
}

/// Ways to compute attention.
#[derive(Debug, Clone, Copy, PartialEq, Eq, Structural)]
pub enum AttentionKernel {
    /// The fused kernel for a single query.
    Sdpa,
    /// Matrix products in single precision for a single query.
    SingleQuery,
    /// Flash attention over the whole prompt.
    Flash,
    /// Matrix products piece by piece, in half precision.
    ChunkedHalf,
    /// Matrix products piece by piece, in single precision.
    ChunkedSingle,
    /// Flash decoding, split over the keys.
    SplitKeys,
}

/// The kernel for a stream of `seq_len` queries.
pub open spec fn stream_kernel(
    seq_len: usize,
    device: DeviceKind,
    has_flash: bool,
    flash_disabled: bool,
) -> AttentionKernel {
    if seq_len == 1 {
        if device == DeviceKind::Cuda {
            AttentionKernel::SingleQuery
        } else {
            AttentionKernel::Sdpa
        }
    } else if device == DeviceKind::Cuda {
        if has_flash && !flash_disabled {
            AttentionKernel::Flash
        } else {
            AttentionKernel::ChunkedSingle
        }
    } else {
        AttentionKernel::ChunkedHalf
    }
}

/// Chooses the kernel for a stream of `seq_len` queries.
pub fn choose_stream_kernel(
    seq_len: usize,
    device: DeviceKind,
    has_flash: bool,
    flash_disabled: bool,
) -> (kernel: AttentionKernel)
    ensures
        kernel == stream_kernel(seq_len, device, has_flash, flash_disabled),
{
    if seq_len == 1 {
        return if device == DeviceKind::Cuda {
            AttentionKernel::SingleQuery
        } else {
            AttentionKernel::Sdpa
        };
    }
    if device != DeviceKind::Cuda {
        return AttentionKernel::ChunkedHalf;
    }
    if has_flash && !flash_disabled {
        AttentionKernel::Flash
    } else {
        AttentionKernel::ChunkedSingle
    }
}

/// The kernel for one slot of a decode batch, or what is said where there is none.
pub open spec fn slot_kernel(
    kv_len: usize,
    device: DeviceKind,
    has_flash: bool,
    split_request: Option<Seq<char>>,
) -> Result<AttentionKernel, Seq<char>> {
    if device != DeviceKind::Cuda {
        Ok(AttentionKernel::Sdpa)
    } else if !has_flash {
        Err("attention decode: no kernel for this backend"@)
    } else if kv_len >= SPLIT_MIN_KEYS && split_request == Some("1"@) {
        Ok(AttentionKernel::SplitKeys)
    } else {
        Ok(AttentionKernel::Flash)
    }
}

/// Chooses the kernel for one slot of a decode batch.
pub fn choose_slot_kernel(
    kv_len: usize,
    device: DeviceKind,
    has_flash: bool,
    split_request: Option<&str>,
) -> (kernel: Result<AttentionKernel, String>)
    ensures
        match kernel {
            Ok(k) => slot_kernel(kv_len, device, has_flash, text_view(split_request)) == Ok::<
                AttentionKernel,
                Seq<char>,
            >(k),
            Err(msg) => slot_kernel(kv_len, device, has_flash, text_view(split_request)) == Err::<
                AttentionKernel,
                Seq<char>,
            >(msg@),
        },
{
    if device != DeviceKind::Cuda {
        return Ok(AttentionKernel::Sdpa);
    }
    if !has_flash {
        return Err("attention decode: no kernel for this backend".to_owned());
    }
    let requested = match split_request {
        Some(text) => same_text(text, "1"),
        None => false,
    };
    if kv_len >= SPLIT_MIN_KEYS && requested {
        Ok(AttentionKernel::SplitKeys)
    } else {
        Ok(AttentionKernel::Flash)
    }
}

/// The last piece that starts at `i * QUERY_CHUNK`.
pub open spec fn piece(seq_len: nat, i: nat) -> (nat, nat) {
    let start = i * QUERY_CHUNK as nat;
    let left = (seq_len - start) as nat;
    (
        start,
        if left < QUERY_CHUNK {
            left
        } else {
            QUERY_CHUNK as nat
        },
    )
}

/// How many pieces a prompt has.
pub open spec fn piece_count(seq_len: nat) -> nat {
    (seq_len + QUERY_CHUNK as nat - 1) as nat / QUERY_CHUNK as nat
}

/// Cuts the queries of a prompt into pieces, each as its start and length. Only the
/// last piece may be short.
pub fn query_pieces(seq_len: usize) -> (pieces: Vec<(usize, usize)>)
    requires
        seq_len > 0,
    ensures
        pieces@.len() == piece_count(seq_len as nat),
        forall|i: int|
            0 <= i < pieces@.len() ==> (#[trigger] pieces@[i]).0 == piece(
                seq_len as nat,
                i as nat,
            ).0 && pieces@[i].1 == piece(seq_len as nat, i as nat).1,
{
    let mut pieces: Vec<(usize, usize)> = Vec::new();
    let mut start: usize = 0;
    while start < seq_len
        invariant
            start <= seq_len,
            start == seq_len || start == pieces@.len() * QUERY_CHUNK,
            start == seq_len ==> pieces@.len() == piece_count(seq_len as nat),
            seq_len > 0,
            forall|i: int|
                0 <= i < pieces@.len() ==> (#[trigger] pieces@[i]).0 == piece(
                    seq_len as nat,
                    i as nat,
                ).0 && pieces@[i].1 == piece(seq_len as nat, i as nat).1,
        decreases seq_len - start,
    {
        let left: usize = seq_len - start;
        let len: usize = if left < QUERY_CHUNK {
            left
        } else {
            QUERY_CHUNK
        };
        pieces.push((start, len));
        start = start + len;
    }
    pieces
}

/// The pieces cover every query once: each begins where the one before it ends, the
/// first at zero, and the last ends with the prompt.
pub proof fn law_pieces_partition(seq_len: nat, i: nat)
    requires
        seq_len > 0,
        i < piece_count(seq_len),
    ensures
        piece(seq_len, 0).0 == 0,
        piece(seq_len, i).1 > 0,
        i + 1 < piece_count(seq_len) ==> piece(seq_len, i + 1).0 == piece(seq_len, i).0 + piece(
            seq_len,
            i,
        ).1,
        i + 1 == piece_count(seq_len) ==> piece(seq_len, i).0 + piece(seq_len, i).1 == seq_len,
{
}

/// Whether the query at `row` of a stream sees the key at `column`: keys up to its
/// own position.
pub open spec fn sees(index_pos: nat, row: nat, column: nat) -> bool {
    column <= index_pos + row
}

/// What a run of queries sees, query by query.
pub open spec fn visibility(index_pos: nat, start: nat, rows: nat, kv_len: nat) -> Seq<bool> {
    Seq::new(
        rows * kv_len,
        |i: int|
            sees(index_pos, start + (i / kv_len as int) as nat, (i % kv_len as int) as nat),
    )
}

/// Computes what `rows` queries from `start` on see of `kv_len` keys.
pub fn causal_mask(index_pos: usize, start: usize, rows: usize, kv_len: usize) -> (mask: Vec<bool>)
    requires
        index_pos + start + rows <= usize::MAX,
        rows * kv_len <= usize::MAX,
    ensures
        mask@ == visibility(index_pos as nat, start as nat, rows as nat, kv_len as nat),
{
    let mut mask: Vec<bool> = Vec::new();
    let mut i: usize = 0;
    while i < rows
        invariant
            i <= rows,
            index_pos + start + rows <= usize::MAX,
            rows * kv_len <= usize::MAX,
            mask@.len() == i * kv_len,
            forall|k: int|
                0 <= k < mask@.len() ==> #[trigger] mask@[k] == sees(
                    index_pos as nat,
                    (start + k / kv_len as int) as nat,
                    (k % kv_len as int) as nat,
                ),
        decreases rows - i,
    {
        let last: usize = index_pos + start + i;
        let mut j: usize = 0;
        while j < kv_len
            invariant
                i < rows,
                j <= kv_len,
                last == index_pos + start + i,
                mask@.len() == i * kv_len + j,
                forall|k: int|
                    0 <= k < mask@.len() ==> #[trigger] mask@[k] == sees(
                        index_pos as nat,
                        (start + k / kv_len as int) as nat,
                        (k % kv_len as int) as nat,
                    ),
            decreases kv_len - j,
        {
            proof {
                vstd::arithmetic::div_mod::lemma_fundamental_div_mod_converse(
                    i * kv_len + j,
                    kv_len as int,
                    i as int,
                    j as int,
                );
            }
            mask.push(j <= last);
            j += 1;
        }
        proof {
            assert(i * kv_len + kv_len == (i + 1) * kv_len) by (nonlinear_arith);
        }
        i += 1;
    }
    assert(mask@ =~= visibility(index_pos as nat, start as nat, rows as nat, kv_len as nat));
    mask
}

/// Cutting a prompt into pieces changes nothing of what its queries see: the pieces'
/// masks are the parts of the whole mask.
pub proof fn law_pieces_see_the_same(index_pos: nat, seq_len: nat, start: nat, rows: nat, kv_len: nat)
    requires
        start + rows <= seq_len,
        kv_len > 0,
    ensures
        start * kv_len + rows * kv_len <= seq_len * kv_len,
        visibility(index_pos, start, rows, kv_len) == visibility(
            index_pos,
            0,
            seq_len,
            kv_len,
        ).subrange((start * kv_len) as int, (start * kv_len + rows * kv_len) as int),
{
    assert(start * kv_len + rows * kv_len <= seq_len * kv_len) by (nonlinear_arith)
        requires
            start + rows <= seq_len,
    ;
    let whole = visibility(index_pos, 0, seq_len, kv_len);
    let part = visibility(index_pos, start, rows, kv_len);
    assert(start * kv_len >= 0) by (nonlinear_arith);
    assert(rows * kv_len >= 0) by (nonlinear_arith);
    assert forall|i: int| 0 <= i < part.len() implies #[trigger] part[i] == whole[start * kv_len
        + i] by {
        let q = i / kv_len as int;
        let r = i % kv_len as int;
        vstd::arithmetic::div_mod::lemma_fundamental_div_mod(i, kv_len as int);
        vstd::arithmetic::div_mod::lemma_mod_bound(i, kv_len as int);
        assert(start * kv_len + i == (start + q) * kv_len + r) by (nonlinear_arith)
            requires
                i == kv_len * q + r,
        ;
        vstd::arithmetic::div_mod::lemma_fundamental_div_mod_converse(
            start * kv_len + i,
            kv_len as int,
            start + q,
            r,
        );
        vstd::arithmetic::div_mod::lemma_div_pos_is_pos(i, kv_len as int);
    }
    assert(part =~= whole.subrange(
        (start * kv_len) as int,
        (start * kv_len + rows * kv_len) as int,
    ));
}

/// A query sees itself and everything before it, and nothing that comes later.
pub proof fn law_attention_is_causal(index_pos: nat, row: nat, column: nat)
    ensures
        sees(index_pos, row, index_pos + row),
        column > index_pos + row ==> !sees(index_pos, row, column),
        column <= index_pos + row ==> sees(index_pos, row, column),
{
}

/// Why rotary tables do not fit: both must have a row per query and a column per
/// rotated pair of dimensions.
pub open spec fn rope_table_failure(
    cos: Seq<usize>,
    sin: Seq<usize>,
    seq_len: usize,
    rope_dim: usize,
) -> Option<Seq<char>> {
    let expected = seq![seq_len, (rope_dim / 2) as usize];
    if cos != expected || sin != expected {
        Some(
            "MRoPE table shape mismatch: cos="@ + bracketed(decimals(cos)) + ", sin="@ + bracketed(
                decimals(sin),
            ) + ", expected ["@ + decimal(seq_len as nat) + ", "@ + decimal((rope_dim / 2) as nat)
                + "]"@,
        )
    } else {
        None
    }
}

fn has_dims(dims: &[usize], rows: usize, columns: usize) -> (yes: bool)
    ensures
        yes == (dims@ == seq![rows, columns]),
{
    let yes = dims.len() == 2 && dims[0] == rows && dims[1] == columns;
    proof {
        if yes {
            assert(dims@ =~= seq![rows, columns]);
        } else if dims@ == seq![rows, columns] {
            assert(dims@.len() == 2);
            assert(dims@[0] == rows);
            assert(dims@[1] == columns);
        }
    }
    yes
}

/// Checks the shapes of rotary tables.
pub fn check_rope_tables(cos: &[usize], sin: &[usize], seq_len: usize, rope_dim: usize) -> (checked:
    Result<(), String>)
    ensures
        match checked {
            Ok(()) => rope_table_failure(cos@, sin@, seq_len, rope_dim) is None,
            Err(msg) => rope_table_failure(cos@, sin@, seq_len, rope_dim) == Some(msg@),
        },
{
    if !has_dims(cos, seq_len, rope_dim / 2) || !has_dims(sin, seq_len, rope_dim / 2) {
        let mut msg = "MRoPE table shape mismatch: cos=".to_owned();
        push_list(&mut msg, cos);
        msg.append(", sin=");
        push_list(&mut msg, sin);
        msg.append(", expected [");
        push_decimal(&mut msg, seq_len as u64);
        msg.append(", ");
        push_decimal(&mut msg, (rope_dim / 2) as u64);
        msg.append("]");
        return Err(msg);
    }
    Ok(())
}

/// How a head is divided: the width that is rotated, and the width that passes.
pub open spec fn rope_split(rope_dim: usize, head_dim: usize) -> (usize, usize) {
    if rope_dim >= head_dim {
        (head_dim, 0)
    } else {
        (rope_dim, (head_dim - rope_dim) as usize)
    }
}

/// Divides a head into its rotated and its passing part.
pub fn split_head(rope_dim: usize, head_dim: usize) -> (parts: (usize, usize))
    ensures
        parts == rope_split(rope_dim, head_dim),
        parts.0 + parts.1 == head_dim,
{
    if rope_dim >= head_dim {
        (head_dim, 0)
    } else {
        (rope_dim, head_dim - rope_dim)
    }
}

/// The key head that query head `head` reads, where `n_head` query heads share
/// `n_kv_head` key heads in consecutive groups.
pub open spec fn key_head(head: nat, n_head: nat, n_kv_head: nat) -> nat {
    head / (n_head / n_kv_head)
}

/// Finds the key head of a query head.
pub fn key_head_of(head: usize, n_head: usize, n_kv_head: usize) -> (k: usize)
    requires
        0 < n_kv_head <= n_head,
    ensures
        k == key_head(head as nat, n_head as nat, n_kv_head as nat),
{
    proof {
        vstd::arithmetic::div_mod::lemma_div_non_zero(n_head as int, n_kv_head as int);
    }
    head / (n_head / n_kv_head)
}

/// Every query head reads an existing key head, and every key head is read by equally
/// many, where the counts divide.
pub proof fn law_query_heads_share_keys(head: nat, n_head: nat, n_kv_head: nat)
    requires
        0 < n_kv_head <= n_head,
        n_head % n_kv_head == 0,
        head < n_head,
    ensures
        key_head(head, n_head, n_kv_head) < n_kv_head,
        key_head(head, n_head, n_kv_head) * (n_head / n_kv_head) <= head,
        head < (key_head(head, n_head, n_kv_head) + 1) * (n_head / n_kv_head),
{
    let g = (n_head / n_kv_head) as int;
    vstd::arithmetic::div_mod::lemma_div_non_zero(n_head as int, n_kv_head as int);
    vstd::arithmetic::div_mod::lemma_fundamental_div_mod(n_head as int, n_kv_head as int);
    vstd::arithmetic::div_mod::lemma_fundamental_div_mod(head as int, g);
    vstd::arithmetic::div_mod::lemma_mod_bound(head as int, g);
    let k = head as int / g;
    assert(k * g <= head) by (nonlinear_arith)
        requires
            head == g * k + head as int % g,
            0 <= head as int % g,
    ;
    assert(head < (k + 1) * g) by (nonlinear_arith)
        requires
            head == g * k + head as int % g,
            head as int % g < g,
    ;
    assert(k < n_kv_head) by (nonlinear_arith)
        requires
            k * g <= head,
            head < n_head,
            n_head == n_kv_head * g,
            g > 0,
    ;
}

/// The rotary position that a whole batch shares, where there is one.
pub open spec fn common_position(positions: Seq<usize>) -> Option<usize> {
    if positions.len() > 0 && forall|i: int|
        0 <= i < positions.len() ==> #[trigger] positions[i] == positions[0] {
        Some(positions[0])
    } else {
        None
    }
}

/// Finds the rotary position that a whole batch shares, where there is one.
pub fn shared_position(positions: &[usize]) -> (position: Option<usize>)
    ensures
        position == common_position(positions@),
{
    let n: usize = positions.len();
    if n == 0 {
        return None;
    }
    let first: usize = positions[0];
    let mut i: usize = 1;
    while i < n
        invariant
            1 <= i <= n,
            n == positions@.len(),
            first == positions@[0],
            forall|k: int| 0 <= k < i ==> #[trigger] positions@[k] == first,
        decreases n - i,
    {
        if positions[i] != first {
            return None;
        }
        i += 1;
    }
    Some(first)
}

/// Whether the parts of a decode batch belong together.
pub open spec fn decode_dims_agree(
    b: usize,
    seq_len: usize,
    cache_positions: nat,
    rope_positions: nat,
    slots: nat,
) -> bool {
    seq_len == 1 && cache_positions == b && rope_positions == b && slots == b
}

/// Checks that the parts of a decode batch belong together.
pub fn check_decode_dims(
    b: usize,
    seq_len: usize,
    cache_positions: &[usize],
    rope_positions: &[usize],
    slots: &[u32],
) -> (checked: Result<(), String>)
    ensures
        match checked {
            Ok(()) => decode_dims_agree(
                b,
                seq_len,
                cache_positions@.len(),
                rope_positions@.len(),
                slots@.len(),
            ),
            Err(msg) => !decode_dims_agree(
                b,
                seq_len,
                cache_positions@.len(),
                rope_positions@.len(),
                slots@.len(),
            ) && msg@ == "invalid batched decode dimensions"@,
        },
{
    if seq_len != 1 || cache_positions.len() != b || rope_positions.len() != b || slots.len() != b {
        return Err("invalid batched decode dimensions".to_owned());
    }
    Ok(())
}

/// A piece has at most 256 queries, and only the last may have fewer.
pub proof fn law_pieces_are_full(seq_len: nat, i: nat)
    requires
        seq_len > 0,
        i < piece_count(seq_len),
    ensures
        piece(seq_len, i).0 == 256 * i,
        piece(seq_len, i).1 <= 256,
        i + 1 < piece_count(seq_len) ==> piece(seq_len, i).1 == 256,
        256 * (piece_count(seq_len) - 1) < seq_len <= 256 * piece_count(seq_len),
{
}

/// Entry by entry, the mask of some queries lets each see the keys up to its own position.
pub proof fn law_masks_are_causal(
    index_pos: nat,
    start: nat,
    rows: nat,
    kv_len: nat,
    row: int,
    column: int,
)
    requires
        0 <= row < rows,
        0 <= column < kv_len,
    ensures
        visibility(index_pos, start, rows, kv_len).len() == rows * kv_len,
        0 <= row * kv_len + column < rows * kv_len,
        visibility(index_pos, start, rows, kv_len)[row * kv_len + column] <==> column <= index_pos
            + start + row,
{
    vstd::arithmetic::div_mod::lemma_fundamental_div_mod_converse(
        row * kv_len + column,
        kv_len as int,
        row,
        column,
    );
    assert(0 <= row * kv_len + column < rows * kv_len) by (nonlinear_arith)
        requires
            0 <= row,
            row + 1 <= rows,
            0 <= column < kv_len,
    ;
}

/// Which kernel a stream's pass takes: on CUDA one of its own for single tokens, and for
/// prompts flash attention unless it is missing or off; elsewhere never one of CUDA's.
pub proof fn law_stream_kernels_follow_the_device(
    seq_len: usize,
    device: DeviceKind,
    has_flash: bool,
    flash_disabled: bool,
)
    ensures
        ({
            let kernel = stream_kernel(seq_len, device, has_flash, flash_disabled);
            let on_cuda = device == DeviceKind::Cuda;
            &&& kernel == AttentionKernel::SingleQuery <==> on_cuda && seq_len == 1
            &&& kernel == AttentionKernel::Sdpa <==> !on_cuda && seq_len == 1
            &&& kernel == AttentionKernel::Flash <==> on_cuda && seq_len != 1 && has_flash
                && !flash_disabled
            &&& kernel == AttentionKernel::ChunkedSingle <==> on_cuda && seq_len != 1 && !(has_flash
                && !flash_disabled)
            &&& kernel == AttentionKernel::ChunkedHalf <==> !on_cuda && seq_len != 1
        }),
{
}

/// Which kernel a slot's token takes: off CUDA the general one; on CUDA flash attention,
/// which must be there, and by request split keys from 2048 keys on.
pub proof fn law_slot_kernels_follow_the_device(
    kv_len: usize,
    device: DeviceKind,
    has_flash: bool,
    split: Option<Seq<char>>,
)
    ensures
        ({
            let kernel = slot_kernel(kv_len, device, has_flash, split);
            let on_cuda = device == DeviceKind::Cuda;
            &&& kernel is Err <==> on_cuda && !has_flash
            &&& kernel == Ok::<AttentionKernel, Seq<char>>(AttentionKernel::Sdpa) <==> !on_cuda
            &&& kernel == Ok::<AttentionKernel, Seq<char>>(AttentionKernel::SplitKeys) <==> on_cuda
                && has_flash && kv_len >= 2048 && split == Some("1"@)
            &&& kernel == Ok::<AttentionKernel, Seq<char>>(AttentionKernel::Flash) <==> on_cuda
                && has_flash && !(kv_len >= 2048 && split == Some("1"@))
        }),
{
}

/// Rotary tables are accepted exactly where both have a row per token and a column per
/// rotated pair.
pub proof fn law_rotary_tables_fit_the_tokens(
    cos: Seq<usize>,
    sin: Seq<usize>,
    seq_len: usize,
    rope_dim: usize,
)
    ensures
        rope_table_failure(cos, sin, seq_len, rope_dim) is None <==> {
            &&& cos.len() == 2 && cos[0] == seq_len && cos[1] == rope_dim / 2
            &&& sin.len() == 2 && sin[0] == seq_len && sin[1] == rope_dim / 2
        },
{
    let expected = seq![seq_len, (rope_dim / 2) as usize];
    if cos.len() == 2 && cos[0] == seq_len && cos[1] == rope_dim / 2 {
        assert(cos =~= expected);
    }
    if sin.len() == 2 && sin[0] == seq_len && sin[1] == rope_dim / 2 {
        assert(sin =~= expected);
    }
}

/// A head is rotated in its first part and passed through in the rest: together they are
/// the head, and no more is rotated than asked for.
pub proof fn law_a_head_is_rotated_in_front(rope_dim: usize, head_dim: usize)
    ensures
        ({
            let (rotated, passed) = rope_split(rope_dim, head_dim);
            &&& rotated + passed == head_dim
            &&& rotated <= rope_dim
            &&& passed > 0 ==> rotated == rope_dim
        }),
{
}

/// Heads that read the same keys lie side by side: the key heads follow each other in the
/// order of the query heads, from the first to the last.
pub proof fn law_key_heads_follow_query_heads(a: nat, b: nat, n_head: nat, n_kv_head: nat)
    requires
        0 < n_kv_head <= n_head,
        n_head % n_kv_head == 0,
        a <= b < n_head,
    ensures
        key_head(0, n_head, n_kv_head) == 0,
        key_head((n_head - 1) as nat, n_head, n_kv_head) == n_kv_head - 1,
        key_head(a, n_head, n_kv_head) <= key_head(b, n_head, n_kv_head),
        key_head(a, n_head, n_kv_head) == key_head(b, n_head, n_kv_head) <==> a / (n_head
            / n_kv_head) == b / (n_head / n_kv_head),
{
    let group = n_head / n_kv_head;
    vstd::arithmetic::div_mod::lemma_fundamental_div_mod(n_head as int, n_kv_head as int);
    assert(n_head == n_kv_head * group);
    assert(group > 0) by (nonlinear_arith)
        requires
            n_head == n_kv_head * group,
            n_head > 0,
    ;
    vstd::arithmetic::div_mod::lemma_div_is_ordered(a as int, b as int, group as int);
    vstd::arithmetic::div_mod::lemma_div_of0(group as int);
    assert(n_head - 1 == (n_kv_head - 1) * group + (group - 1)) by (nonlinear_arith)
        requires
            n_head == n_kv_head * group,
    ;
    vstd::arithmetic::div_mod::lemma_fundamental_div_mod_converse(
        n_head - 1,
        group as int,
        n_kv_head - 1,
        group - 1,
    );
}

/// Positions are shared exactly where there are some and all are the same.
pub proof fn law_shared_positions_are_equal(positions: Seq<usize>, p: usize)
    ensures
        common_position(positions) == Some(p) <==> positions.len() > 0 && forall|i: int|
            0 <= i < positions.len() ==> #[trigger] positions[i] == p,
{
    if positions.len() > 0 {
        let first = positions[0];
        if forall|i: int| 0 <= i < positions.len() ==> #[trigger] positions[i] == p {
            assert(first == p);
        }
    }
}

} // verus!
