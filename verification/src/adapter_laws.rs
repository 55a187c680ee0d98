//! What the adapter's parts have to do with each other: loading, prefill, decode steps and
//! transactions.
use crate::adapter::{
    any_transaction, cleared, eos_of, graphs_wanted, install_failure, same_but_slot, vocab_of,
    AdapterSlot, Qwen35BatchAdapter,
};
use crate::adapter_decode::{item_failure, placing_failure, seeding_failure, DecodeItem};
use crate::adapter_keep::{
    hidden_for, position_after, rows_of, slot_advanced, slot_kept, step_kept,
};
use crate::adapter_load::{load_outcome, loaded, planned, profiled, LoadRequest};
use crate::adapter_prefill::{
    chunk_installed, head_fits, media_failure, open_outcome, opened_slot, slot_took_stream,
    PrefillChunk, PrefillPass,
};
use crate::architecture::{declared_architecture, Architecture};
use crate::delta_state::zero_bits;
use crate::gguf::{IndexModel, KindModel};
use crate::gguf_read::{gguf_content, unreadable};
use crate::graph::graph_kept;
use crate::head_load::{head_file_failure, head_load_outcome};
use crate::instance::seed_failure;
use crate::kv_cache::DECODE_BATCH_CAPACITY;
use crate::loader::{load_failure, plannable, ModelPlan};
use crate::model_laws::{same_slot, slot_holds_stream};
use crate::model_ops::stream_cleared;
use crate::model_state::{HybridLayerType, ModelWeights};
use crate::mtp::{saved_state, state_of};
use crate::multimodal::{payload_failure, InstalledMultimodal, MultimodalPrefill};
use crate::position::decode_position;
use crate::profile::{is_attention_layer, profile_errors};
use crate::size_laws::law_sizes_agree_with_the_profile;
use crate::speculative::{
    begin_failure, draft_failure, snap_position, speculative_ready, uncommittable, with_position,
};
use crate::vision_load::vision_load_outcome;
use crate::vision_profile::vision_errors;
use vstd::prelude::*;

verus! {

/// A fresh slot cannot be decoded or speculated on before it is prefilled, and its tokens
/// stand at their own positions.
pub proof fn law_fresh_slots_start_over(adapter: Qwen35BatchAdapter, item: DecodeItem)
    requires
        item.slot_idx < adapter.slots@.len(),
        adapter.slots@[item.slot_idx as int].is_fresh(),
    ensures
        item_failure(adapter, item) is Some,
        !speculative_ready(adapter, item.slot_idx as int),
        uncommittable(adapter, item.slot_idx) is Some,
        adapter.slots@[item.slot_idx as int].verified@ == Seq::<u64>::empty(),
        adapter.slots@[item.slot_idx as int].multimodal is None,
        adapter.slots@[item.slot_idx as int].snapshot_position is None,
        item.pos <= i64::MAX ==> decode_position(
            item.pos,
            adapter.slots@[item.slot_idx as int].rope_delta,
        ) == Ok::<usize, Seq<char>>(item.pos),
{
    assert(adapter.slots@[item.slot_idx as int].verified@ =~= Seq::<u64>::empty());
}

/// Where every slot is fresh, no transaction is open.
pub proof fn law_fresh_slots_hold_no_transaction(slots: Seq<AdapterSlot>)
    requires
        forall|i: int| 0 <= i < slots.len() ==> (#[trigger] slots[i]).is_fresh(),
    ensures
        !any_transaction(slots),
{
}

/// Media are installed exactly in a slot that there is, with a loaded vision tower and a
/// payload that has no fault.
pub proof fn law_sound_media_are_installed(
    adapter: Qwen35BatchAdapter,
    slot: nat,
    payload: MultimodalPrefill,
)
    ensures
        install_failure(adapter, slot, payload) is None <==> slot < adapter.slots@.len()
            && adapter.vision && payload_failure(payload) is None,
{
}

/// The token that ends a sequence is the one that the file names, or the usual one.
pub proof fn law_the_end_token_is_the_files(index: IndexModel, n: u32)
    ensures
        ({
            let md = index.metadata;
            let key = "tokenizer.ggml.eos_token_id"@;
            &&& md.dom().contains(key) && md[key].kind == KindModel::U32(n) ==> eos_of(index) == n
            &&& !md.dom().contains(key) || !(md[key].kind is U32) ==> eos_of(index) == 151645
        }),
{
}

/// The vocabulary is as large as the embedding table has rows; where the table names no
/// rows it has its usual size.
pub proof fn law_the_vocabulary_is_the_tables(adapter: Qwen35BatchAdapter, index: IndexModel)
    requires
        adapter.vocab == vocab_of(index),
    ensures
        ({
            let t = index.tensor_infos;
            let name = "token_embd.weight"@;
            &&& t.dom().contains(name) && t[name].dims.len() > 0 && t[name].dims[0] > 0
                ==> adapter.vocabulary() == t[name].dims[0]
            &&& !t.dom().contains(name) || t[name].dims.len() == 0 || t[name].dims[0] == 0
                ==> adapter.vocabulary() == 151943
        }),
{
}

/// Graphs are recorded only on request, and on a CUDA device only where at least one and a
/// quarter gibibytes are free.
pub proof fn law_graphs_need_a_request_and_room(
    request: Option<Seq<char>>,
    is_cuda: bool,
    free_bytes: u64,
)
    ensures
        graphs_wanted(request, is_cuda, free_bytes) <==> request == Some("1"@) && (is_cuda ==> 4
            * free_bytes >= 5 * 1024 * 1024 * 1024),
{
}

/// A file is loaded exactly where the slots fit, the file can be read, has no errors and
/// can be planned, and its weights load. Otherwise nothing is made of it.
pub proof fn law_sound_files_are_loaded(
    done: Result<Option<Qwen35BatchAdapter>, String>,
    bytes: Seq<u8>,
    request: LoadRequest<'_>,
)
    requires
        load_outcome(done, bytes, request),
        bytes.len() <= usize::MAX,
    ensures
        ({
            let index = gguf_content(bytes)->0;
            let len = bytes.len() as usize;
            &&& (done is Ok && done->Ok_0 is Some) <==> {
                &&& request.num_slots <= 4
                &&& !unreadable(bytes)
                &&& profile_errors(index).len() == 0
                &&& plannable(index, len, request.settings)
                &&& load_failure(index, len, request.settings) is None
            }
            &&& done is Ok && done->Ok_0 is None ==> !plannable(index, len, request.settings)
            &&& done matches Ok(Some(adapter)) ==> {
                &&& adapter.slots@.len() == request.num_slots
                &&& adapter.wf()
                &&& !any_transaction(adapter.slots@)
            }
        }),
{
}

/// The loaded model has the blocks that its profile counts, each of the kind that the
/// profile's interval says, and serves no more context than the profile allows. Its
/// vocabulary is that of the planned embedding table.
pub proof fn law_loaded_models_match_their_profiles(
    adapter: Qwen35BatchAdapter,
    index: IndexModel,
    len: usize,
    request: LoadRequest<'_>,
    i: int,
)
    requires
        loaded(adapter, index, len, request),
        profile_errors(index).len() == 0,
        declared_architecture(index.metadata) == Ok::<Architecture, Seq<char>>(
            adapter.profile.architecture,
        ),
        load_failure(index, len, request.settings) is None,
        adapter.profile.full_attention_interval > 0,
    ensures
        adapter.model.blocks@.len() == adapter.profile.block_count,
        adapter.model.context_length <= adapter.profile.context_length,
        0 <= i < adapter.model.blocks@.len() ==> (adapter.model.blocks@[i] is Attention
            <==> is_attention_layer(i as nat, adapter.profile.full_attention_interval as nat)),
        exists|plan: ModelPlan|
            {
                &&& #[trigger] planned(adapter.model, plan, index, len, request.settings)
                &&& plan.embedding.n_rows == adapter.vocab
                &&& plan.embedding.n_cols == adapter.model.hidden_size
            },
{
    let plan = choose|plan: ModelPlan|
        #[trigger] planned(adapter.model, plan, index, len, request.settings);
    let file = choose|file: crate::gguf::GgufIndex|
        #[trigger] profiled(adapter.profile, file, index, len);
    law_sizes_agree_with_the_profile(adapter.profile, file, len as u64);
    if 0 <= i < adapter.model.blocks@.len() {
        assert(crate::loader::starts_fresh(adapter.model.blocks@[i], plan, i));
        assert(plan.layers@[i].is_deltanet == plan.dims.deltanet_layer(i as nat));
    }
}

/// A vision tower that is refused changes nothing, and one that loads changes nothing else.
pub proof fn law_only_sound_vision_towers_load(
    done: Result<(), String>,
    after: Qwen35BatchAdapter,
    before: Qwen35BatchAdapter,
    bytes: Seq<u8>,
    refusal: Option<Seq<char>>,
    production_q8: bool,
    prefix: Seq<char>,
)
    requires
        vision_load_outcome(done, after, before, bytes, refusal, production_q8, prefix),
    ensures
        done is Ok <==> !unreadable(bytes) && vision_errors(
            gguf_content(bytes)->0,
            production_q8,
        ).len() == 0 && refusal is None,
        done is Err ==> after == before,
        done is Ok ==> after.vision && before == (Qwen35BatchAdapter {
            vision: before.vision,
            ..after
        }),
        done matches Err(msg) ==> msg@.len() >= prefix.len() && msg@.take(prefix.len() as int)
            == prefix,
{
    if let Err(msg) = done {
        assert(msg@.take(prefix.len() as int) =~= prefix);
    }
}

/// A drafting head that is refused changes nothing, and one that loads changes nothing
/// else: it has a slot for each of the adapter's, none of them in use.
pub proof fn law_only_sound_heads_load(
    done: Result<(), String>,
    after: Qwen35BatchAdapter,
    before: Qwen35BatchAdapter,
    bytes: Seq<u8>,
    refusal: Option<Seq<char>>,
    s: int,
)
    requires
        head_load_outcome(done, after, before, bytes, refusal),
    ensures
        done is Ok <==> !any_transaction(before.slots@) && !unreadable(bytes) && head_file_failure(
            gguf_content(bytes)->0,
            refusal,
        ) is None,
        done is Err ==> after == before,
        done is Ok ==> after.mtp is Some && before == (Qwen35BatchAdapter {
            mtp: before.mtp,
            ..after
        }) && after.mtp->0.slots@.len() == after.slots@.len(),
        done is Ok && 0 <= s < after.slots@.len() ==> saved_state(after.mtp->0, s) is None
            && state_of(after.mtp->0, s).pending is None,
{
}

/// A chunk belongs to an installed prompt exactly where each of its tokens is the prompt's
/// at its place.
pub proof fn law_chunks_are_parts_of_the_prompt(media: InstalledMultimodal, chunk: PrefillChunk)
    ensures
        chunk_installed(media, chunk) <==> chunk.start_pos + chunk.tokens@.len()
            <= media.token_ids@.len() && forall|i: int|
            0 <= i < chunk.tokens@.len() ==> #[trigger] chunk.tokens@[i]
                == media.token_ids@[chunk.start_pos + i],
{
    let from = chunk.start_pos as int;
    let to = from + chunk.tokens@.len();
    if to <= media.token_ids@.len() {
        let part = media.token_ids@.subrange(from, to);
        if forall|i: int|
            0 <= i < chunk.tokens@.len() ==> #[trigger] chunk.tokens@[i]
                == media.token_ids@[from + i] {
            assert(part =~= chunk.tokens@);
        }
        if part == chunk.tokens@ {
            assert forall|i: int| 0 <= i < chunk.tokens@.len() implies #[trigger] chunk.tokens@[i]
                == media.token_ids@[from + i] by {
                assert(part[i] == media.token_ids@[from + i]);
            }
        }
    }
}

/// A chunk with media is prefilled exactly where it is part of the prompt and its features
/// are there or can be made.
pub proof fn law_media_chunks_are_prefilled(
    media: InstalledMultimodal,
    chunk: PrefillChunk,
    vision: bool,
)
    requires
        media.token_ids@.len() <= usize::MAX,
    ensures
        media_failure(media, chunk, vision) is None <==> chunk_installed(media, chunk) && (
        media.has_features || vision),
{
}

/// A chunk that starts anew forgets the slot's state and keeps its open transaction and its
/// media; where it has no media, later tokens stand at their own positions. A chunk that
/// goes on changes nothing.
pub proof fn law_a_first_chunk_starts_anew(slot: AdapterSlot)
    ensures
        opened_slot(slot, false) == slot,
        ({
            let opened = opened_slot(slot, true);
            &&& opened.snap is None && !opened.seeded && opened.paged_dirty
            &&& opened.transaction == slot.transaction
            &&& opened.verified == slot.verified
            &&& opened.snapshot_position == slot.snapshot_position
            &&& opened.multimodal == slot.multimodal
            &&& slot.multimodal is Some ==> opened.rope_delta == slot.rope_delta
            &&& slot.multimodal is None ==> opened.rope_delta == 0
            &&& opened_slot(opened, true) == opened
        }),
{
}

/// The head follows a chunk exactly where it gets one hidden state per token, of the width
/// that it is built for.
pub proof fn law_the_head_takes_one_state_per_token(
    chunk: PrefillChunk,
    width: usize,
    target_width: usize,
    hidden: nat,
)
    ensures
        head_fits(chunk, width, target_width, hidden) <==> hidden == chunk.tokens@.len() && width
            == 2560 && target_width == 2560,
{
}

/// A slot gets the hidden states of its own items in their order: those of the first items
/// and behind them those of the rest. An item's state goes to its slot and to no other.
pub proof fn law_hidden_states_go_to_their_slots(
    items: Seq<DecodeItem>,
    hidden: Seq<u64>,
    m: nat,
    n: nat,
    s: int,
)
    requires
        m <= n <= items.len(),
        hidden.len() == items.len(),
    ensures
        hidden_for(items, hidden, n, s) == hidden_for(items, hidden, m, s) + hidden_for(
            items.skip(m as int),
            hidden.skip(m as int),
            (n - m) as nat,
            s,
        ),
        (forall|i: int| 0 <= i < n ==> (#[trigger] items[i]).slot_idx == s) ==> hidden_for(
            items,
            hidden,
            n,
            s,
        ) == hidden.take(n as int),
        (forall|i: int| 0 <= i < n ==> (#[trigger] items[i]).slot_idx != s) ==> hidden_for(
            items,
            hidden,
            n,
            s,
        ).len() == 0,
    decreases n,
{
    let late = items.skip(m as int);
    let late_hidden = hidden.skip(m as int);
    if m == n {
        assert(hidden_for(late, late_hidden, 0, s) =~= Seq::empty());
        assert(hidden_for(items, hidden, n, s) + Seq::empty() =~= hidden_for(items, hidden, n, s));
    } else {
        law_hidden_states_go_to_their_slots(items, hidden, m, (n - 1) as nat, s);
        assert(late[n - m - 1] == items[n - 1]);
        assert(late_hidden[n - m - 1] == hidden[n - 1]);
        let a = hidden_for(items, hidden, m, s);
        let b = hidden_for(late, late_hidden, (n - m - 1) as nat, s);
        assert((a + b).push(hidden[n - 1]) =~= a + b.push(hidden[n - 1]));
    }
    if n == 0 {
        assert(hidden.take(0) =~= Seq::empty());
    } else {
        if m == n {
            law_hidden_states_go_to_their_slots(items, hidden, 0, (n - 1) as nat, s);
        }
        assert(hidden.take(n as int) =~= hidden.take(n - 1).push(hidden[n - 1]));
        assert(items[n - 1].slot_idx == items[n - 1].slot_idx);
    }
}

/// A slot ends one place behind its last item, and where it was if it has none.
pub proof fn law_slots_end_behind_their_last_item(
    position: usize,
    items: Seq<DecodeItem>,
    n: nat,
    s: int,
    i: int,
)
    requires
        n <= items.len(),
    ensures
        (forall|k: int| 0 <= k < n ==> (#[trigger] items[k]).slot_idx != s) ==> position_after(
            position,
            items,
            n,
            s,
        ) == position,
        0 <= i < n && items[i].slot_idx == s && (forall|k: int|
            i < k < n ==> (#[trigger] items[k]).slot_idx != s) ==> position_after(
            position,
            items,
            n,
            s,
        ) == items[i].pos + 1,
    decreases n,
{
    if n > 0 {
        law_slots_end_behind_their_last_item(position, items, (n - 1) as nat, s, i);
        assert(items[n - 1].slot_idx == items[n - 1].slot_idx);
    }
}

/// Each item's logits are its own stretch of the flat list, one number per token of the
/// vocabulary.
pub proof fn law_logits_are_split_by_item(
    rows: Seq<Vec<u32>>,
    flat: Seq<u32>,
    vocab: nat,
    i: int,
    v: int,
)
    requires
        rows_of(rows, flat, vocab),
        0 <= i < rows.len(),
        0 <= v < vocab,
    ensures
        rows[i]@.len() == vocab,
        rows[i]@[v] == flat[i * vocab + v],
{
    assert((i + 1) * vocab == i * vocab + vocab) by (nonlinear_arith);
    assert((i + 1) * vocab <= rows.len() * vocab) by (nonlinear_arith)
        requires
            i + 1 <= rows.len(),
    ;
    assert(0 <= i * vocab) by (nonlinear_arith)
        requires
            0 <= i,
    ;
}

/// A decode step goes ahead exactly where each of its items can, and else says what the
/// first one lacks.
pub proof fn law_the_first_bad_item_is_named(
    adapter: Qwen35BatchAdapter,
    items: Seq<DecodeItem>,
    n: nat,
    i: int,
)
    requires
        0 <= i < n <= items.len(),
    ensures
        seeding_failure(adapter, items, n) is None ==> item_failure(adapter, items[i]) is None,
        seeding_failure(adapter, items, i as nat) is None && item_failure(adapter, items[i]) is Some
            ==> seeding_failure(adapter, items, n) == item_failure(adapter, items[i]),
        (forall|k: int| 0 <= k < n ==> item_failure(adapter, #[trigger] items[k]) is None)
            ==> seeding_failure(adapter, items, n) is None,
    decreases n,
{
    if i < n - 1 {
        law_the_first_bad_item_is_named(adapter, items, (n - 1) as nat, i);
    } else if n > 1 {
        law_the_first_bad_item_is_named(adapter, items, (n - 1) as nat, 0);
    }
}

/// A seeded slot is ready for decoding, and another one where it has a snapshot that the
/// model can take.
pub proof fn law_items_need_a_state(adapter: Qwen35BatchAdapter, item: DecodeItem)
    ensures
        ({
            let slot = adapter.slots@[item.slot_idx as int];
            item_failure(adapter, item) is None <==> slot.seeded || (slot.snap is Some
                && seed_failure(adapter.model, item.slot_idx, slot.snap->0) is None)
        }),
{
}

/// All items are placed exactly where each has a rotary position.
pub proof fn law_items_are_placed_together(
    slots: Seq<AdapterSlot>,
    items: Seq<DecodeItem>,
    n: nat,
    i: int,
)
    requires
        0 <= i < n <= items.len(),
    ensures
        placing_failure(slots, items, n) is None ==> decode_position(
            items[i].pos,
            slots[items[i].slot_idx as int].rope_delta,
        ) is Ok,
        (forall|k: int|
            0 <= k < n ==> decode_position(
                (#[trigger] items[k]).pos,
                slots[items[k].slot_idx as int].rope_delta,
            ) is Ok) ==> placing_failure(slots, items, n) is None,
        placing_failure(slots, items, i as nat) is None && decode_position(
            items[i].pos,
            slots[items[i].slot_idx as int].rope_delta,
        ) is Err ==> placing_failure(slots, items, n) == Some(
            decode_position(items[i].pos, slots[items[i].slot_idx as int].rope_delta)->Err_0,
        ),
    decreases n,
{
    if i < n - 1 {
        law_items_are_placed_together(slots, items, (n - 1) as nat, i);
    } else if n > 1 {
        law_items_are_placed_together(slots, items, (n - 1) as nat, 0);
    }
}

/// Cleared blocks hold nothing: no row is cached in the stream or in any slot, and every
/// recurrent state is zero.
pub proof fn law_cleared_blocks_hold_nothing(
    after: Seq<HybridLayerType>,
    before: Seq<HybridLayerType>,
    i: int,
    s: int,
)
    requires
        cleared(after, before),
        0 <= i < before.len(),
        0 <= s < DECODE_BATCH_CAPACITY,
    ensures
        after.len() == before.len(),
        match after[i] {
            HybridLayerType::Attention(a) => {
                &&& before[i] is Attention
                &&& a.stream().rows.len() == 0 && a.stream().capacity is None
                &&& a.slot(s).rows.len() == 0 && a.slot(s).capacity is None
            },
            HybridLayerType::DeltaNet(d) => {
                let b = before[i]->DeltaNet_0;
                &&& before[i] is DeltaNet
                &&& d.state@.conv == zero_bits(b.state.shape().conv_len())
                &&& d.state@.ssm == zero_bits(b.state.shape().ssm_len())
                &&& d.cpu_state_batched@[s]@ == d.state@
            },
        },
{
    assert(crate::adapter::block_cleared(after[i], before[i]));
}

/// A transaction begins exactly where the slot is seeded, a head is loaded and neither has
/// a transaction open.
pub proof fn law_transactions_begin_when_ready(adapter: Qwen35BatchAdapter, slot: usize)
    ensures
        begin_failure(adapter, slot) is None <==> {
            &&& slot < adapter.slots@.len()
            &&& adapter.mtp is Some
            &&& adapter.slots@[slot as int].seeded
            &&& adapter.slots@[slot as int].transaction is None
            &&& saved_state(adapter.mtp->0, slot as int) is None
        },
        uncommittable(adapter, slot) is None <==> adapter.slots@[slot as int].transaction is Some
            && adapter.mtp is Some,
{
}

/// Tokens are drafted exactly in an open transaction of the head, from a pending hidden
/// state. Positions of cache and rotation may differ only where media shifted the slot.
pub proof fn law_drafts_need_an_open_transaction(
    adapter: Qwen35BatchAdapter,
    slot: usize,
    cache_pos: usize,
    rope_pos: usize,
)
    requires
        slot < adapter.slots@.len(),
    ensures
        draft_failure(adapter, slot, cache_pos, rope_pos) is None <==> {
            &&& cache_pos == rope_pos || adapter.slots@[slot as int].rope_delta != 0
            &&& adapter.mtp is Some
            &&& saved_state(adapter.mtp->0, slot as int) is Some
            &&& state_of(adapter.mtp->0, slot as int).pending is Some
        },
{
}

/// A snapshot that is put back to its position keeps what it captured.
pub proof fn law_positions_alone_are_put_back(slot: AdapterSlot, position: Option<usize>)
    ensures
        match (slot.snap, with_position(slot, position)) {
            (Some(own), Some(put)) => {
                &&& put.blocks == own.blocks
                &&& put.model_nonce == own.model_nonce
                &&& position is Some ==> put.position == position->0
                &&& position is None ==> put.position == own.position
            },
            (None, put) => put is None,
            _ => false,
        },
        with_position(slot, snap_position(slot)) == slot.snap,
{
}

/// A chunk is opened for its own slot and leaves the others as they are. Where it is
/// refused at once nothing changes. Its pass is the one that suits the slot: with its media,
/// with the head, or plain.
pub proof fn law_opened_passes_suit_their_slot(
    done: Result<PrefillPass, String>,
    after: Qwen35BatchAdapter,
    before: Qwen35BatchAdapter,
    chunk: PrefillChunk,
    t: int,
)
    requires
        open_outcome(done, after, before, chunk),
    ensures
        ({
            let s = chunk.slot_idx as int;
            let n = before.slots@.len();
            let slot = before.slots@[s];
            &&& s >= n || chunk.tokens@.len() == 0 ==> done is Err && after == before
            &&& s < n && !chunk.reset_first && slot.snap is None ==> done is Err && after == before
            &&& 0 <= t < n && t != s ==> after.slots@[t] == before.slots@[t]
            &&& after.slots@.len() == n && after.mtp == before.mtp && after.vision == before.vision
            &&& after.vocab == before.vocab && after.eos == before.eos
            &&& done is Ok ==> {
                &&& slot.multimodal is Some <==> done->Ok_0 is Media
                &&& slot.multimodal is None && before.mtp is Some <==> done->Ok_0 is WithHidden
                &&& slot.multimodal is None && before.mtp is None <==> done->Ok_0 is Plain
            }
        }),
{
}

/// A pass that starts anew starts from nothing: no row is cached and every recurrent state
/// is zero.
pub proof fn law_first_passes_start_from_nothing(
    pass: PrefillPass,
    after: Qwen35BatchAdapter,
    before: Qwen35BatchAdapter,
    chunk: PrefillChunk,
    i: int,
)
    requires
        open_outcome(Ok(pass), after, before, chunk),
        chunk.reset_first,
        0 <= i < before.model.blocks@.len(),
    ensures
        after.model.blocks@.len() == before.model.blocks@.len(),
        match after.model.blocks@[i] {
            HybridLayerType::Attention(a) => a.stream().rows.len() == 0,
            HybridLayerType::DeltaNet(d) => {
                let shape = before.model.blocks@[i]->DeltaNet_0.state.shape();
                d.state@.conv == zero_bits(shape.conv_len()) && d.state@.ssm == zero_bits(
                    shape.ssm_len(),
                )
            },
        },
        chunk.slot_idx < after.slots@.len(),
        after.slots@[chunk.slot_idx as int].snap is None,
        !after.slots@[chunk.slot_idx as int].seeded,
{
    assert(stream_cleared(after.model.blocks@[i], before.model.blocks@[i]));
}

/// A pass with media goes over the prompt's own tokens, at the positions that the prompt's
/// plan gives them, and asks for features exactly where there are none yet.
pub proof fn law_media_passes_follow_the_prompt(
    pass: PrefillPass,
    after: Qwen35BatchAdapter,
    before: Qwen35BatchAdapter,
    chunk: PrefillChunk,
    k: int,
)
    requires
        open_outcome(Ok(pass), after, before, chunk),
        before.slots@[chunk.slot_idx as int].multimodal is Some,
        0 <= k < chunk.tokens@.len(),
        before.slots@[chunk.slot_idx as int].multimodal->0.wf(),
    ensures
        ({
            let media = before.slots@[chunk.slot_idx as int].multimodal->0;
            let at = chunk.start_pos + k;
            &&& pass is Media
            &&& at < media.token_ids@.len()
            &&& chunk.tokens@[k] == media.token_ids@[at]
            &&& pass->plan@.text.len() == chunk.tokens@.len()
            &&& pass->plan@.text[k] == media.plan@.text[at]
            &&& pass->plan@.time[k] == media.plan@.time[at]
            &&& pass->plan@.height[k] == media.plan@.height[at]
            &&& pass->plan@.width[k] == media.plan@.width[at]
            &&& pass->needs_vision <==> !media.has_features
        }),
{
    law_chunks_are_parts_of_the_prompt(
        before.slots@[chunk.slot_idx as int].multimodal->0,
        chunk,
    );
}

/// Behind its last chunk a slot holds what the stream held, and the other slots what they
/// held before.
pub proof fn law_prefilled_slots_hold_the_stream(
    after: ModelWeights,
    before: ModelWeights,
    s: int,
    i: int,
    t: int,
)
    requires
        slot_took_stream(after, before, s),
        0 <= i < before.blocks@.len(),
        0 <= t < DECODE_BATCH_CAPACITY,
    ensures
        match (after.blocks@[i], before.blocks@[i]) {
            (HybridLayerType::Attention(a), HybridLayerType::Attention(b)) => {
                &&& a.slot(s).rows == b.stream().rows
                &&& a.stream().rows == b.stream().rows
                &&& t != s ==> a.slot(t) == b.slot(t)
            },
            (HybridLayerType::DeltaNet(a), HybridLayerType::DeltaNet(b)) => {
                &&& a.cpu_state_batched@[s]@ == b.state@
                &&& a.state@ == b.state@
                &&& t != s ==> a.cpu_state_batched@[t]@ == b.cpu_state_batched@[t]@
            },
            _ => false,
        },
{
    assert(slot_holds_stream(after.blocks@[i], before.blocks@[i], s));
    if t != s {
        assert(same_slot(after.blocks@[i], before.blocks@[i], t));
    }
}

/// A step that runs as a graph leaves behind what an ordinary step does: the same logits
/// and the same positions.
pub proof fn law_graphed_steps_are_kept_like_plain_ones(
    graphed: Vec<Vec<u32>>,
    plain: Vec<Vec<u32>>,
    a: Qwen35BatchAdapter,
    b: Qwen35BatchAdapter,
    before: Qwen35BatchAdapter,
    items: Seq<DecodeItem>,
    hidden: Seq<u64>,
    flat: Seq<u32>,
    refusal: Seq<char>,
    s: int,
    i: int,
)
    requires
        graph_kept(Ok(graphed), a, before, items, flat, refusal),
        step_kept(Ok(plain), b, before, items, hidden, flat),
        0 <= s < before.slots@.len(),
        0 <= i < items.len(),
    ensures
        a.slots@[s].snap == b.slots@[s].snap,
        a.slots@[s].seeded == before.slots@[s].seeded,
        b.slots@[s].seeded == before.slots@[s].seeded,
        a.slots@[s].rope_delta == b.slots@[s].rope_delta,
        graphed@.len() == plain@.len(),
        graphed@[i]@ == plain@[i]@,
        a.model == before.model,
        a.mtp == before.mtp,
        before.slots@[s].transaction is None ==> b.slots@[s].verified@
            == before.slots@[s].verified@,
        a.slots@[s].verified == before.slots@[s].verified,
{
    assert(slot_kept(b.slots@[s], before.slots@[s], items, hidden, s));
    assert(slot_advanced(a.slots@[s], before.slots@[s], items, items.len(), s));
}

/// Logits of the wrong length end the use of graphs and move no slot.
pub proof fn law_bad_logits_end_graphs(
    msg: String,
    after: Qwen35BatchAdapter,
    before: Qwen35BatchAdapter,
    items: Seq<DecodeItem>,
    flat: Seq<u32>,
    refusal: Seq<char>,
)
    requires
        graph_kept(Err(msg), after, before, items, flat, refusal),
    ensures
        after.slots == before.slots,
        after.decode_graph is None,
        !after.graphs_enabled,
        flat.len() != items.len() * before.vocabulary(),
{
}

/// An operation on one slot leaves everything else as it is.
pub proof fn law_slot_operations_keep_the_rest(
    a: Qwen35BatchAdapter,
    b: Qwen35BatchAdapter,
    s: int,
    t: int,
)
    requires
        same_but_slot(a, b, s),
    ensures
        a == (Qwen35BatchAdapter { slots: a.slots, ..b }),
        a.slots@.len() == b.slots@.len(),
        0 <= t < b.slots@.len() && t != s ==> a.slots@[t] == b.slots@[t],
{
}

} // verus!
