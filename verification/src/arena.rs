//! Sizes of the scratch memory and of the page-aligned view of a model file.
use crate::gguf::{GgufIndex, KindModel, MetaModel};
use crate::model_dims::{is_moe_file, key_prefix, moe_file};
use crate::profile::{routed_width, shared_width};
use crate::validation::{concat2, u32_at, value_or};
use vstd::arithmetic::power2::{lemma2_to64, lemma_pow2_unfold, pow2};
use vstd::prelude::*;

verus! {

/// Bytes of a megabyte.
pub const MEGABYTE: u64 = 1_048_576;

/// Tokens of a prefill chunk that the scratch memory is sized for.
pub const SCRATCH_CHUNK: u64 = 2048;

/// The first of `p`, `2 * p`, `4 * p`, ... that is at least `n`.
pub open spec fn doubled_until(n: nat, p: nat) -> nat
    decreases 2 * n - p,
{
    if p == 0 || p >= n {
        p
    } else {
        doubled_until(n, 2 * p)
    }
}

/// The least power of two that is at least `n`.
pub open spec fn power_at_least(n: nat) -> nat {
    doubled_until(n, 1)
}

/// Size of a slot for `bytes` bytes: a power of two in megabytes, at least eight.
pub open spec fn rounded_slot(bytes: nat) -> nat {
    let power = power_at_least((bytes + MEGABYTE as nat - 1) as nat / MEGABYTE as nat);
    (if power < 8 {
        8
    } else {
        power
    }) * MEGABYTE as nat
}

proof fn lemma_doubled(n: nat, p: nat, k: nat)
    requires
        p == pow2(k),
        p >= 1,
        k == 0 || pow2((k - 1) as nat) < n,
    ensures
        exists|j: nat|
            #![trigger pow2(j)]
            doubled_until(n, p) == pow2(j) && (j == 0 || pow2((j - 1) as nat) < n),
        doubled_until(n, p) >= n,
        doubled_until(n, p) >= p,
    decreases 2 * n - p,
{
    if p < n {
        lemma_pow2_unfold(k + 1);
        assert(pow2(k + 1) == 2 * pow2(k));
        assert(pow2(((k + 1) - 1) as nat) == pow2(k));
        lemma_doubled(n, 2 * p, k + 1);
    } else {
        assert(doubled_until(n, p) == pow2(k));
    }
}

/// The least power of two that is at least `n`.
pub fn next_power(n: u64) -> (power: u64)
    requires
        n <= 0x8000_0000_0000_0000,
    ensures
        power == power_at_least(n as nat),
        power < 2 * n || power == 1,
{
    let mut p: u64 = 1;
    while p < n
        invariant
            1 <= p,
            n <= 0x8000_0000_0000_0000,
            power_at_least(n as nat) == doubled_until(n as nat, p as nat),
            p < 2 * n || p == 1,
        decreases 2 * n - p,
    {
        p = p * 2;
    }
    p
}

/// Size of a slot for `bytes` bytes.
pub fn round_mb(bytes: u64) -> (size: u64)
    requires
        bytes <= 0x1000_0000_0000_0000,
    ensures
        size == rounded_slot(bytes as nat),
{
    let mb: u64 = (bytes + (MEGABYTE - 1)) / MEGABYTE;
    let power: u64 = next_power(mb);
    let slots: u64 = if power < 8 {
        8
    } else {
        power
    };
    slots * MEGABYTE
}

/// A slot holds the bytes it is for, wastes less than it holds unless it is the
/// smallest slot, and is a power of two in megabytes.
pub proof fn law_slot_is_tight(bytes: nat)
    ensures
        rounded_slot(bytes) >= bytes,
        rounded_slot(bytes) == 8 * MEGABYTE || rounded_slot(bytes) < 2 * (bytes + MEGABYTE),
        exists|k: nat| rounded_slot(bytes) == #[trigger] pow2(k) * MEGABYTE,
{
    let n = (bytes + MEGABYTE as nat - 1) as nat / MEGABYTE as nat;
    lemma2_to64();
    lemma_doubled(n, 1, 0);
    let power = power_at_least(n);
    let j = choose|j: nat|
        #![trigger pow2(j)]
        power == pow2(j) && (j == 0 || pow2((j - 1) as nat) < n);
    if j > 0 {
        lemma_pow2_unfold(j);
        assert(power < 2 * n);
    }
    assert(pow2(3) == 8);
    assert(n * MEGABYTE >= bytes);
    assert(n * MEGABYTE < bytes + MEGABYTE);
    if power < 8 {
        assert(rounded_slot(bytes) == pow2(3) * MEGABYTE);
    } else {
        assert(rounded_slot(bytes) == pow2(j) * MEGABYTE);
    }
}

/// The larger of two.
pub open spec fn larger(a: u32, b: u32) -> u32 {
    if a >= b {
        a
    } else {
        b
    }
}

/// The number under `key`, zero where there is none.
pub open spec fn width_at(md: Map<Seq<char>, MetaModel>, key: Seq<char>) -> u32 {
    if md.dom().contains(key) {
        value_or(md[key].as_u32(), 0)
    } else {
        0
    }
}

/// Width of the hidden states that the scratch memory is sized for.
pub open spec fn scratch_hidden(md: Map<Seq<char>, MetaModel>) -> u32 {
    width_at(md, key_prefix(moe_file(md)) + ".embedding_length"@)
}

/// Width of the feed-forward states that the scratch memory is sized for: the widest
/// that any key of a mixture-of-experts file names, or the dense width.
pub open spec fn scratch_ff(md: Map<Seq<char>, MetaModel>) -> u32 {
    if moe_file(md) {
        larger(
            larger(
                larger(
                    width_at(md, "qwen35moe.feed_forward_length.experts"@),
                    width_at(md, "qwen35moe.intermediate_size_experts"@),
                ),
                width_at(md, "qwen35moe.expert_feed_forward_length"@),
            ),
            larger(
                larger(
                    width_at(md, "qwen35moe.feed_forward_length.shared_expert"@),
                    width_at(md, "qwen35moe.intermediate_size_shared_expert"@),
                ),
                width_at(md, "qwen35moe.expert_shared_feed_forward_length"@),
            ),
        )
    } else {
        width_at(md, "qwen35.feed_forward_length"@)
    }
}

fn read_width(index: &GgufIndex, key: &str) -> (n: u32)
    requires
        index.wf(),
    ensures
        n == width_at(index@.metadata, key@),
{
    match index.meta(key) {
        None => 0,
        Some(value) => match value.to_u32() {
            None => 0,
            Some(n) => n,
        },
    }
}

fn max_width(a: u32, b: u32) -> (n: u32)
    ensures
        n == larger(a, b),
{
    if a >= b {
        a
    } else {
        b
    }
}

/// Reads the widths that the scratch memory is sized for.
pub fn scratch_widths(index: &GgufIndex) -> (widths: (u32, u32))
    requires
        index.wf(),
    ensures
        widths.0 == scratch_hidden(index@.metadata),
        widths.1 == scratch_ff(index@.metadata),
{
    if is_moe_file(index) {
        let hidden: u32 = read_width(index, concat2("qwen35moe", ".embedding_length").as_str());
        let routed: u32 = max_width(
            max_width(
                read_width(index, "qwen35moe.feed_forward_length.experts"),
                read_width(index, "qwen35moe.intermediate_size_experts"),
            ),
            read_width(index, "qwen35moe.expert_feed_forward_length"),
        );
        let shared: u32 = max_width(
            max_width(
                read_width(index, "qwen35moe.feed_forward_length.shared_expert"),
                read_width(index, "qwen35moe.intermediate_size_shared_expert"),
            ),
            read_width(index, "qwen35moe.expert_shared_feed_forward_length"),
        );
        (hidden, max_width(routed, shared))
    } else {
        let hidden: u32 = read_width(index, concat2("qwen35", ".embedding_length").as_str());
        (hidden, read_width(index, "qwen35.feed_forward_length"))
    }
}

/// Size of a slot for one chunk of states of the given width, four bytes each.
pub open spec fn state_slot(width: u32) -> nat {
    rounded_slot((SCRATCH_CHUNK * width * 4) as nat)
}

/// The slots of the scratch memory: eight small ones, six for hidden states, four
/// for feed-forward states.
pub open spec fn slot_list(hidden: u32, ff: u32) -> Seq<nat> {
    Seq::new(
        18,
        |i: int|
            if i < 8 {
                (8 * MEGABYTE) as nat
            } else if i < 14 {
                state_slot(hidden)
            } else {
                state_slot(ff)
            },
    )
}

fn state_bytes(width: u32) -> (size: u64)
    ensures
        size == state_slot(width),
        size <= 0x0000_8000_0000_0000,
{
    let bytes: u64 = SCRATCH_CHUNK * (width as u64) * 4;
    let size: u64 = round_mb(bytes);
    proof {
        law_slot_is_tight(bytes as nat);
    }
    size
}

/// Sizes of the slots of the scratch memory.
pub fn slot_sizes(hidden: u32, ff: u32) -> (sizes: Vec<u64>)
    ensures
        sizes@.len() == 18,
        forall|i: int| 0 <= i < 18 ==> #[trigger] sizes@[i] == slot_list(hidden, ff)[i],
{
    let hidden_slot: u64 = state_bytes(hidden);
    let mlp_slot: u64 = state_bytes(ff);
    let small_slot: u64 = 8 * MEGABYTE;
    let mut sizes: Vec<u64> = Vec::new();
    let mut i: usize = 0;
    while i < 18
        invariant
            i <= 18,
            hidden_slot == state_slot(hidden),
            mlp_slot == state_slot(ff),
            small_slot == 8 * MEGABYTE,
            sizes@.len() == i,
            forall|k: int| 0 <= k < i ==> #[trigger] sizes@[k] == slot_list(hidden, ff)[k],
        decreases 18 - i,
    {
        if i < 8 {
            sizes.push(small_slot);
        } else if i < 14 {
            sizes.push(hidden_slot);
        } else {
            sizes.push(mlp_slot);
        }
        i += 1;
    }
    sizes
}

/// Bytes of the single buffer that replaces the slots.
pub open spec fn unified_bytes(hidden: u32, ff: u32) -> nat {
    (64 * MEGABYTE) as nat + 6 * state_slot(hidden) + 4 * state_slot(ff)
}

/// Bytes of the single buffer that replaces the slots.
pub fn unified_capacity(hidden: u32, ff: u32) -> (bytes: u64)
    ensures
        bytes == unified_bytes(hidden, ff),
{
    64 * MEGABYTE + 6 * state_bytes(hidden) + 4 * state_bytes(ff)
}

/// The sum of the first `n` sizes.
pub open spec fn total(sizes: Seq<nat>, n: nat) -> nat
    decreases n,
{
    if n == 0 {
        0
    } else {
        total(sizes, (n - 1) as nat) + sizes[n - 1]
    }
}

/// The single buffer has exactly the room of all slots.
pub proof fn law_unified_buffer_holds_all_slots(hidden: u32, ff: u32)
    ensures
        unified_bytes(hidden, ff) == total(slot_list(hidden, ff), 18),
{
    reveal_with_fuel(total, 19);
}

/// `len` rounded up to whole pages.
pub open spec fn page_aligned(len: nat, page: nat) -> nat {
    (len + page - 1) as nat / page * page
}

/// Rounds a file's length up to whole pages.
pub fn align_to_pages(len: usize, page: usize) -> (aligned: usize)
    requires
        page > 0,
        len + page - 1 <= usize::MAX,
    ensures
        aligned == page_aligned(len as nat, page as nat),
        aligned % page == 0,
        len <= aligned < len + page,
{
    let pages: usize = (len + (page - 1)) / page;
    proof {
        let sum = (len + (page - 1)) as int;
        vstd::arithmetic::div_mod::lemma_fundamental_div_mod(sum, page as int);
        assert(page * (sum / page as int) == (sum / page as int) * page) by (nonlinear_arith);
        vstd::arithmetic::div_mod::lemma_mod_bound(sum, page as int);
        vstd::arithmetic::div_mod::lemma_mod_multiples_basic(pages as int, page as int);
    }
    pages * page
}

/// A slot has at least eight mebibytes, and only powers of two of them.
pub proof fn law_slots_have_whole_sizes(bytes: nat)
    ensures
        rounded_slot(bytes) >= 8388608,
        rounded_slot(bytes) % 1048576 == 0,
        bytes <= 8388608 ==> rounded_slot(bytes) == 8388608,
{
    let mb = (bytes + 1048575) as nat / 1048576;
    if bytes <= 8388608 {
        assert(mb <= 8);
        lemma_small_power(mb);
    }
    law_slot_is_tight(bytes);
    let power = power_at_least(mb);
    let size = if power < 8 {
        8
    } else {
        power as int
    };
    assert(rounded_slot(bytes) == size * 1048576);
    assert((size * 1048576) % 1048576 == 0);
}

proof fn lemma_small_power(n: nat)
    requires
        n <= 8,
    ensures
        power_at_least(n) <= 8,
{
    reveal_with_fuel(doubled_until, 5);
}

/// The scratch buffers are as wide as the widest part of the model that the file names.
pub proof fn law_scratch_holds_every_width(md: Map<Seq<char>, MetaModel>)
    ensures
        ({
            let all = seq![
                "qwen35moe.feed_forward_length.experts"@,
                "qwen35moe.intermediate_size_experts"@,
                "qwen35moe.expert_feed_forward_length"@,
                "qwen35moe.feed_forward_length.shared_expert"@,
                "qwen35moe.intermediate_size_shared_expert"@,
                "qwen35moe.expert_shared_feed_forward_length"@,
            ];
            let widest = scratch_ff(md);
            &&& moe_file(md) ==> (forall|i: int|
                0 <= i < all.len() ==> width_at(md, #[trigger] all[i]) <= widest)
            &&& moe_file(md) ==> exists|i: int|
                0 <= i < all.len() && width_at(md, #[trigger] all[i]) == widest
            &&& !moe_file(md) ==> widest == width_at(md, "qwen35.feed_forward_length"@)
        }),
{
    let all = seq![
        "qwen35moe.feed_forward_length.experts"@,
        "qwen35moe.intermediate_size_experts"@,
        "qwen35moe.expert_feed_forward_length"@,
        "qwen35moe.feed_forward_length.shared_expert"@,
        "qwen35moe.intermediate_size_shared_expert"@,
        "qwen35moe.expert_shared_feed_forward_length"@,
    ];
    assert(all[0] == "qwen35moe.feed_forward_length.experts"@);
    assert(all[1] == "qwen35moe.intermediate_size_experts"@);
    assert(all[2] == "qwen35moe.expert_feed_forward_length"@);
    assert(all[3] == "qwen35moe.feed_forward_length.shared_expert"@);
    assert(all[4] == "qwen35moe.intermediate_size_shared_expert"@);
    assert(all[5] == "qwen35moe.expert_shared_feed_forward_length"@);
}

/// A width is the number under its key, and zero where there is none.
pub proof fn law_widths_are_the_files(md: Map<Seq<char>, MetaModel>, key: Seq<char>, n: u32)
    ensures
        md.dom().contains(key) && md[key].kind == KindModel::U32(n) ==> width_at(md, key) == n,
        !md.dom().contains(key) || !(md[key].kind is U32) ==> width_at(md, key) == 0,
{
}

/// The model's own widths fit the scratch buffers, so that a chunk of 2048 tokens of
/// four-byte numbers has room in each of the buffers for its kind.
pub proof fn law_chunks_fit_their_slots(hidden: u32, ff: u32, i: int)
    requires
        0 <= i < 18,
    ensures
        slot_list(hidden, ff).len() == 18,
        i < 8 ==> slot_list(hidden, ff)[i] == 8388608,
        8 <= i < 14 ==> slot_list(hidden, ff)[i] >= 8192 * hidden,
        14 <= i ==> slot_list(hidden, ff)[i] >= 8192 * ff,
        8 <= i < 14 ==> slot_list(hidden, ff)[i] < 2 * (8192 * hidden + 1048576)
            || slot_list(hidden, ff)[i] == 8388608,
        14 <= i ==> slot_list(hidden, ff)[i] < 2 * (8192 * ff + 1048576) || slot_list(
            hidden,
            ff,
        )[i] == 8388608,
{
    law_slot_is_tight((SCRATCH_CHUNK * hidden * 4) as nat);
    law_slot_is_tight((SCRATCH_CHUNK * ff * 4) as nat);
    assert(SCRATCH_CHUNK * hidden * 4 == 8192 * hidden) by (nonlinear_arith)
        requires
            SCRATCH_CHUNK == 2048,
    ;
    assert(SCRATCH_CHUNK * ff * 4 == 8192 * ff) by (nonlinear_arith)
        requires
            SCRATCH_CHUNK == 2048,
    ;
}

/// The dense model's feed-forward width, and the experts' widths that a mixture uses, have
/// room in the scratch buffers.
pub proof fn law_scratch_serves_the_model(md: Map<Seq<char>, MetaModel>)
    ensures
        moe_file(md) && routed_width(md) is Some ==> routed_width(md)->0 <= scratch_ff(md),
        moe_file(md) && shared_width(md) is Some ==> shared_width(md)->0 <= scratch_ff(md),
        !moe_file(md) && u32_at(md, "qwen35.feed_forward_length"@) is Some ==> u32_at(
            md,
            "qwen35.feed_forward_length"@,
        )->0 == scratch_ff(md),
{
}

/// The scratch buffers' other width is the embedding length that the file names under its
/// architecture.
pub proof fn law_scratch_has_the_embedding_width(md: Map<Seq<char>, MetaModel>)
    ensures
        moe_file(md) ==> scratch_hidden(md) == width_at(md, "qwen35moe.embedding_length"@),
        !moe_file(md) ==> scratch_hidden(md) == width_at(md, "qwen35.embedding_length"@),
{
    reveal_strlit("qwen35");
    reveal_strlit("qwen35moe");
    reveal_strlit(".embedding_length");
    reveal_strlit("qwen35.embedding_length");
    reveal_strlit("qwen35moe.embedding_length");
    assert("qwen35"@ + ".embedding_length"@ =~= "qwen35.embedding_length"@);
    assert("qwen35moe"@ + ".embedding_length"@ =~= "qwen35moe.embedding_length"@);
}

} // verus!
