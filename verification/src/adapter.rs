//! The batching adapter: per-slot bookkeeping around one model, from loading to reset.
use crate::gguf::{GgufIndex, IndexModel};
use crate::instance::{
    checkpoint_ok, lemma_clear_keeps_instance, lemma_clear_slots_keeps_instance,
    lemma_instance_keeps_captures, lemma_same_instance_trans, snap_ok,
};
use crate::kv_cache::DECODE_BATCH_CAPACITY;
use crate::model_laws::same_instance;
use crate::model_ops::stream_cleared;
use crate::model_slots::slots_cleared;
use crate::model_state::{
    block_models, BatchedStateCheckpoint, HybridLayerType, ModelWeights, StateSnapshot,
};
use crate::moe::text_view;
use crate::mtp::{fresh_slot, slot_became, Qwen35Mtp};
use crate::multimodal::{
    check_payload, installed_from, payload_failure, InstalledMultimodal, MultimodalPrefill,
};
use crate::profile::ModelProfile;
use crate::table::same_text;
use crate::text::{decimal, push_decimal};
use crate::validation::value_or;
use vstd::prelude::*;

verus! {

/// End-of-sequence token of a file that names none.
pub const DEFAULT_EOS: u32 = 151645;

/// Vocabulary size of a model whose embedding table names none.
pub const DEFAULT_VOCAB: usize = 151943;

/// Device memory that must be free for captured decode graphs, in bytes.
pub const GRAPH_HEADROOM: u64 = 1_342_177_280;

/// State of one slot.
#[derive(Debug)]
pub struct AdapterSlot {
    /// State after the slot's last prefill.
    pub snap: Option<StateSnapshot>,
    /// Whether the batched buffers hold the slot's state.
    pub seeded: bool,
    /// Whether the paged pool is behind the slot's cache.
    pub paged_dirty: bool,
    /// State when the open speculative transaction began.
    pub transaction: Option<BatchedStateCheckpoint>,
    /// Hidden states of the tokens that the open transaction verified.
    pub verified: Vec<u64>,
    /// Position of the snapshot when the open transaction began.
    pub snapshot_position: Option<usize>,
    pub multimodal: Option<InstalledMultimodal>,
    /// What decoding adds to a token index to get its rotary position.
    pub rope_delta: i64,
}

impl AdapterSlot {
    /// A slot that has seen nothing.
    pub open spec fn is_fresh(&self) -> bool {
        &&& self.snap is None
        &&& !self.seeded
        &&& self.transaction is None
        &&& self.verified@.len() == 0
        &&& self.snapshot_position is None
        &&& self.multimodal is None
        &&& self.rope_delta == 0
    }

    /// A slot that has seen nothing.
    pub fn new() -> (slot: Self)
        ensures
            slot.is_fresh(),
            slot.paged_dirty,
    {
        AdapterSlot {
            snap: None,
            seeded: false,
            paged_dirty: true,
            transaction: None,
            verified: Vec::new(),
            snapshot_position: None,
            multimodal: None,
            rope_delta: 0,
        }
    }
}

/// What a captured decode graph was captured for.
#[derive(Debug)]
pub struct GraphKey {
    pub slots: Vec<u32>,
}

/// The batching adapter over one model.
#[derive(Debug)]
pub struct Qwen35BatchAdapter {
    pub model: ModelWeights,
    pub profile: ModelProfile,
    pub slots: Vec<AdapterSlot>,
    /// The captured decode graph.
    pub decode_graph: Option<GraphKey>,
    pub graphs_enabled: bool,
    /// Whether the vision component is loaded.
    pub vision: bool,
    pub mtp: Option<Qwen35Mtp>,
    pub eos: u32,
    pub vocab: usize,
}

/// Whether slot `i` can be used with a model.
pub open spec fn slot_usable(model: ModelWeights, slot: AdapterSlot, i: int) -> bool {
    &&& slot.snap is Some ==> snap_ok(model, slot.snap->0)
    &&& slot.transaction is Some ==> checkpoint_ok(model, slot.transaction->0)
        && slot.transaction->0.slot == i
    &&& slot.multimodal is Some ==> slot.multimodal->0.wf()
}

/// Whether all slots can be used with a model.
pub open spec fn slots_usable(model: ModelWeights, slots: Seq<AdapterSlot>) -> bool {
    forall|i: int| 0 <= i < slots.len() ==> slot_usable(model, #[trigger] slots[i], i)
}

/// Whether a prediction head belongs to `n` slots.
pub open spec fn mtp_fits(mtp: Option<Qwen35Mtp>, n: nat) -> bool {
    mtp is Some ==> mtp->0.wf() && mtp->0.slots@.len() == n
}

/// Slots of an instance stay usable.
pub proof fn lemma_slots_stay_usable(
    before: ModelWeights,
    after: ModelWeights,
    slots: Seq<AdapterSlot>,
)
    requires
        slots_usable(before, slots),
        same_instance(before, after),
    ensures
        slots_usable(after, slots),
{
    assert forall|i: int| 0 <= i < slots.len() implies slot_usable(after, #[trigger] slots[i], i) by {
        let slot = slots[i];
        assert(slot_usable(before, slot, i));
        lemma_instance_keeps_captures(
            before,
            after,
            slot.snap->0,
            slot.transaction->0,
        );
    }
}

/// Whether two adapters differ in slot `s` only.
pub open spec fn same_but_slot(a: Qwen35BatchAdapter, b: Qwen35BatchAdapter, s: int) -> bool {
    &&& a.model == b.model
    &&& a.decode_graph == b.decode_graph
    &&& a.graphs_enabled == b.graphs_enabled
    &&& a.vision == b.vision
    &&& a.mtp == b.mtp
    &&& a.eos == b.eos
    &&& a.vocab == b.vocab
    &&& a.profile == b.profile
    &&& a.slots@.len() == b.slots@.len()
    &&& forall|t: int|
        0 <= t < b.slots@.len() && t != s ==> #[trigger] a.slots@[t] == b.slots@[t]
}

/// Whether some slot has an open transaction.
pub open spec fn any_transaction(slots: Seq<AdapterSlot>) -> bool {
    exists|i: int| 0 <= i < slots.len() && (#[trigger] slots[i]).transaction is Some
}

/// The message for more slots than there is room for.
pub open spec fn slot_count_text(num_slots: nat) -> Seq<char> {
    "num_slots "@ + decimal(num_slots) + " exceeds decode capacity 4"@
}

/// Checks the number of slots, before anything is opened.
pub fn check_slot_count(num_slots: usize) -> (checked: Result<(), String>)
    ensures
        match checked {
            Ok(()) => num_slots <= DECODE_BATCH_CAPACITY,
            Err(msg) => num_slots > DECODE_BATCH_CAPACITY && msg@ == slot_count_text(
                num_slots as nat,
            ),
        },
{
    if num_slots > DECODE_BATCH_CAPACITY as usize {
        let mut msg = "num_slots ".to_owned();
        push_decimal(&mut msg, num_slots as u64);
        msg.append(" exceeds decode capacity 4");
        return Err(msg);
    }
    Ok(())
}

/// The end-of-sequence token of a file.
pub open spec fn eos_of(index: IndexModel) -> u32 {
    let key = "tokenizer.ggml.eos_token_id"@;
    if index.metadata.dom().contains(key) {
        value_or(index.metadata[key].as_u32(), DEFAULT_EOS)
    } else {
        DEFAULT_EOS
    }
}

/// Reads the end-of-sequence token of a file.
pub fn read_eos(index: &GgufIndex) -> (eos: u32)
    requires
        index.wf(),
    ensures
        eos == eos_of(index@),
{
    match index.meta("tokenizer.ggml.eos_token_id") {
        None => DEFAULT_EOS,
        Some(value) => match value.to_u32() {
            None => DEFAULT_EOS,
            Some(n) => n,
        },
    }
}

/// The vocabulary size that a file's embedding table shows, zero where it shows none.
pub open spec fn vocab_of(index: IndexModel) -> usize {
    let name = "token_embd.weight"@;
    if index.tensor_infos.dom().contains(name) && index.tensor_infos[name].dims.len() > 0 {
        index.tensor_infos[name].dims[0]
    } else {
        0
    }
}

/// Reads the vocabulary size from a file's embedding table.
pub fn read_vocab(index: &GgufIndex) -> (vocab: usize)
    requires
        index.wf(),
    ensures
        vocab == vocab_of(index@),
{
    match index.tensor("token_embd.weight") {
        None => 0,
        Some(info) => {
            if info.dims.len() > 0 {
                info.dims[0]
            } else {
                0
            }
        },
    }
}

/// Whether decode graphs are captured: on request, and on a CUDA device only with
/// enough free memory.
pub open spec fn graphs_wanted(request: Option<Seq<char>>, is_cuda: bool, free_bytes: u64) -> bool {
    request == Some("1"@) && (is_cuda ==> free_bytes >= GRAPH_HEADROOM)
}

/// Decides whether decode graphs are captured.
pub fn choose_graphs(request: Option<&str>, is_cuda: bool, free_bytes: u64) -> (on: bool)
    ensures
        on == graphs_wanted(text_view(request), is_cuda, free_bytes),
{
    match request {
        None => false,
        Some(text) => same_text(text, "1") && (!is_cuda || free_bytes >= GRAPH_HEADROOM),
    }
}

impl Qwen35BatchAdapter {
    /// The model's state is in order, there are no more slots than there is room for,
    /// and what the slots hold can be used.
    pub open spec fn wf(&self) -> bool {
        &&& self.model.wf()
        &&& self.slots@.len() <= DECODE_BATCH_CAPACITY
        &&& slots_usable(self.model, self.slots@)
        &&& mtp_fits(self.mtp, self.slots@.len())
    }

    /// An adapter with `num_slots` empty slots.
    pub fn new(
        model: ModelWeights,
        profile: ModelProfile,
        num_slots: usize,
        eos: u32,
        vocab: usize,
        graphs_enabled: bool,
    ) -> (adapter: Result<Self, String>)
        requires
            model.wf(),
        ensures
            match adapter {
                Ok(a) => {
                    &&& num_slots <= DECODE_BATCH_CAPACITY
                    &&& a.wf()
                    &&& a.model == model
                    &&& a.profile == profile
                    &&& a.slots@.len() == num_slots
                    &&& forall|i: int|
                        0 <= i < num_slots ==> (#[trigger] a.slots@[i]).is_fresh()
                            && a.slots@[i].paged_dirty
                    &&& a.decode_graph is None
                    &&& a.graphs_enabled == graphs_enabled
                    &&& !a.vision
                    &&& a.mtp is None
                    &&& a.eos == eos
                    &&& a.vocab == vocab
                },
                Err(msg) => num_slots > DECODE_BATCH_CAPACITY && msg@ == slot_count_text(
                    num_slots as nat,
                ),
            },
    {
        match check_slot_count(num_slots) {
            Ok(()) => {},
            Err(msg) => return Err(msg),
        }
        let mut slots: Vec<AdapterSlot> = Vec::new();
        let mut i: usize = 0;
        while i < num_slots
            invariant
                i <= num_slots,
                slots@.len() == i,
                forall|k: int|
                    0 <= k < i ==> (#[trigger] slots@[k]).is_fresh() && slots@[k].paged_dirty,
            decreases num_slots - i,
        {
            slots.push(AdapterSlot::new());
            i += 1;
        }
        Ok(
            Qwen35BatchAdapter {
                model,
                profile,
                slots,
                decode_graph: None,
                graphs_enabled,
                vision: false,
                mtp: None,
                eos,
                vocab,
            },
        )
    }

    /// Replaces the vocabulary size that the file showed.
    pub fn set_vocab(&mut self, vocab: usize)
        ensures
            *final(self) == (Qwen35BatchAdapter { vocab, ..*old(self) }),
    {
        self.vocab = vocab;
    }

    /// The state after a slot's last prefill, for a prefix cache.
    pub fn slot_snapshot(&self, slot: usize) -> (snap: Option<StateSnapshot>)
        requires
            slot < self.slots@.len(),
        ensures
            match snap {
                None => self.slots@[slot as int].snap is None,
                Some(copy) => {
                    &&& self.slots@[slot as int].snap matches Some(own)
                    &&& copy.model_nonce == own.model_nonce
                    &&& copy.position == own.position
                    &&& block_models(copy.blocks@) == block_models(own.blocks@)
                    &&& own.wf() ==> copy.wf()
                },
            },
    {
        match &self.slots[slot].snap {
            None => None,
            Some(snap) => Some(snap.clone()),
        }
    }

    /// Gives a slot a snapshot, from which its next prefill continues.
    pub fn inject_slot_snapshot(&mut self, slot: usize, snap: StateSnapshot)
        requires
            old(self).wf(),
            slot < old(self).slots@.len(),
            snap_ok(old(self).model, snap),
        ensures
            final(self).wf(),
            same_but_slot(*final(self), *old(self), slot as int),
            final(self).slots@[slot as int] == (AdapterSlot {
                snap: Some(snap),
                seeded: false,
                ..old(self).slots@[slot as int]
            }),
    {
        let ghost before = self.slots@;
        self.slots[slot].snap = Some(snap);
        self.slots[slot].seeded = false;
        proof {
            assert forall|i: int| 0 <= i < self.slots@.len() implies slot_usable(
                self.model,
                #[trigger] self.slots@[i],
                i,
            ) by {
                assert(slot_usable(self.model, before[i], i));
            }
        }
    }

    /// The model.
    pub fn model(&self) -> (model: &ModelWeights)
        ensures
            *model == self.model,
    {
        &self.model
    }

    /// The model's profile.
    pub fn profile(&self) -> (profile: &ModelProfile)
        ensures
            *profile == self.profile,
    {
        &self.profile
    }

    /// The end-of-sequence token.
    pub fn eos(&self) -> (eos: u32)
        ensures
            eos == self.eos,
    {
        self.eos
    }

    /// The vocabulary size.
    pub open spec fn vocabulary(&self) -> usize {
        if self.vocab != 0 {
            self.vocab
        } else {
            DEFAULT_VOCAB
        }
    }

    /// The vocabulary size.
    pub fn vocab_size(&self) -> (n: usize)
        ensures
            n == self.vocabulary(),
            n > 0,
    {
        if self.vocab != 0 {
            self.vocab
        } else {
            DEFAULT_VOCAB
        }
    }

    /// Drops the vision component and every prompt that waits for it.
    pub fn unload_vision(&mut self)
        requires
            old(self).wf(),
        ensures
            final(self).wf(),
            *final(self) == (Qwen35BatchAdapter {
                vision: false,
                slots: final(self).slots,
                ..*old(self)
            }),
            final(self).slots@.len() == old(self).slots@.len(),
            forall|i: int|
                0 <= i < old(self).slots@.len() ==> #[trigger] final(self).slots@[i]
                    == (AdapterSlot { multimodal: None, ..old(self).slots@[i] }),
    {
        self.vision = false;
        let ghost before = self.slots@;
        let mut i: usize = 0;
        while i < self.slots.len()
            invariant
                i <= self.slots@.len(),
                self.slots@.len() == before.len(),
                *self == (Qwen35BatchAdapter { vision: false, slots: self.slots, ..*old(self) }),
                forall|k: int|
                    0 <= k < i ==> #[trigger] self.slots@[k] == (AdapterSlot {
                        multimodal: None,
                        ..before[k]
                    }),
                forall|k: int| i <= k < before.len() ==> #[trigger] self.slots@[k] == before[k],
            decreases self.slots@.len() - i,
        {
            self.slots[i].multimodal = None;
            i += 1;
        }
        proof {
            assert forall|k: int| 0 <= k < self.slots@.len() implies slot_usable(
                self.model,
                #[trigger] self.slots@[k],
                k,
            ) by {
                assert(slot_usable(old(self).model, before[k], k));
            }
        }
    }

    /// Tests whether a transaction is open in some slot.
    pub(crate) fn has_transaction(&self) -> (yes: bool)
        ensures
            yes == any_transaction(self.slots@),
    {
        let mut i: usize = 0;
        while i < self.slots.len()
            invariant
                i <= self.slots@.len(),
                forall|k: int| 0 <= k < i ==> (#[trigger] self.slots@[k]).transaction is None,
            decreases self.slots@.len() - i,
        {
            if self.slots[i].transaction.is_some() {
                assert(self.slots@[i as int].transaction is Some);
                return true;
            }
            i += 1;
        }
        false
    }

    /// Drops the prediction head, unless a transaction is open.
    pub fn unload_mtp(&mut self) -> (done: Result<(), String>)
        requires
            old(self).wf(),
        ensures
            final(self).wf(),
            match done {
                Ok(()) => !any_transaction(old(self).slots@) && *final(self) == (
                Qwen35BatchAdapter { mtp: None, ..*old(self) }),
                Err(msg) => any_transaction(old(self).slots@) && *final(self) == *old(self) && msg@
                    == "cannot unload MTP during active transaction"@,
            },
    {
        if self.has_transaction() {
            return Err("cannot unload MTP during active transaction".to_owned());
        }
        self.mtp = None;
        Ok(())
    }

    /// Forgets everything, in every slot. What the paged pool holds is not touched.
    pub fn clear_all_state(&mut self)
        requires
            old(self).wf(),
        ensures
            final(self).wf(),
            same_instance(old(self).model, final(self).model),
            cleared(final(self).model.blocks@, old(self).model.blocks@),
            *final(self) == (Qwen35BatchAdapter {
                model: final(self).model,
                slots: final(self).slots,
                mtp: None,
                ..*old(self)
            }),
            final(self).slots@.len() == old(self).slots@.len(),
            forall|i: int|
                0 <= i < old(self).slots@.len() ==> (#[trigger] final(self).slots@[i]).is_fresh()
                    && final(self).slots@[i].paged_dirty == old(self).slots@[i].paged_dirty,
    {
        let ghost start = self.model;
        self.model.clear_state();
        let ghost middle = self.model;
        self.model.clear_state_batched();
        proof {
            lemma_clear_keeps_instance(middle, start);
            lemma_clear_slots_keeps_instance(self.model, middle);
            lemma_same_instance_trans(start, middle, self.model);
            assert forall|i: int| 0 <= i < start.blocks@.len() implies block_cleared(
                #[trigger] self.model.blocks@[i],
                start.blocks@[i],
            ) by {
                assert(stream_cleared(middle.blocks@[i], start.blocks@[i]));
                assert(slots_cleared(self.model.blocks@[i], middle.blocks@[i]));
            }
        }
        self.mtp = None;
        let ghost before = self.slots@;
        let mut i: usize = 0;
        while i < self.slots.len()
            invariant
                i <= self.slots@.len(),
                self.model.wf(),
                *self == (Qwen35BatchAdapter {
                    model: self.model,
                    slots: self.slots,
                    mtp: None,
                    ..*old(self)
                }),
                self.slots@.len() == before.len(),
                before.len() <= DECODE_BATCH_CAPACITY,
                same_instance(start, self.model),
                start == old(self).model,
                cleared(self.model.blocks@, start.blocks@),
                forall|k: int|
                    0 <= k < i ==> (#[trigger] self.slots@[k]).is_fresh()
                        && self.slots@[k].paged_dirty == before[k].paged_dirty,
                forall|k: int|
                    i <= k < before.len() ==> (#[trigger] self.slots@[k]).paged_dirty
                        == before[k].paged_dirty,
            decreases self.slots@.len() - i,
        {
            let mut slot = AdapterSlot::new();
            slot.paged_dirty = self.slots[i].paged_dirty;
            self.slots.set(i, slot);
            i += 1;
        }
    }

    /// Installs a prompt with media for a slot's next prefill.
    pub fn install_multimodal(&mut self, slot: usize, payload: MultimodalPrefill) -> (done: Result<
        (),
        String,
    >)
        requires
            old(self).wf(),
        ensures
            final(self).wf(),
            match done {
                Ok(()) => {
                    &&& install_failure(*old(self), slot as nat, payload) is None
                    &&& same_but_slot(*final(self), *old(self), slot as int)
                    &&& final(self).slots@[slot as int] == (AdapterSlot {
                        multimodal: final(self).slots@[slot as int].multimodal,
                        rope_delta: payload.decode_rope_delta,
                        ..old(self).slots@[slot as int]
                    })
                    &&& final(self).slots@[slot as int].multimodal matches Some(media)
                    &&& installed_from(media, payload)
                },
                Err(msg) => install_failure(*old(self), slot as nat, payload) == Some(msg@)
                    && *final(self) == *old(self),
            },
    {
        if slot >= self.slots.len() {
            let mut msg = "multimodal slot ".to_owned();
            push_decimal(&mut msg, slot as u64);
            msg.append(" is out of range");
            return Err(msg);
        }
        if !self.vision {
            return Err("Vision component is not loaded".to_owned());
        }
        match check_payload(&payload) {
            Ok(()) => {},
            Err(msg) => return Err(msg),
        }
        let ghost before = self.slots@;
        let delta: i64 = payload.decode_rope_delta;
        let media = InstalledMultimodal::new(payload);
        self.slots[slot].multimodal = Some(media);
        self.slots[slot].rope_delta = delta;
        proof {
            assert forall|i: int| 0 <= i < self.slots@.len() implies slot_usable(
                self.model,
                #[trigger] self.slots@[i],
                i,
            ) by {
                assert(slot_usable(self.model, before[i], i));
            }
        }
        Ok(())
    }

    /// Forgets a slot. The batched buffers keep what they hold until it is seeded anew.
    pub fn reset_slot(&mut self, idx: usize) -> (done: Result<(), String>)
        requires
            old(self).wf(),
        ensures
            final(self).wf(),
            match done {
                Ok(()) => {
                    &&& idx < old(self).slots@.len()
                    &&& *final(self) == (Qwen35BatchAdapter {
                        slots: final(self).slots,
                        mtp: final(self).mtp,
                        ..*old(self)
                    })
                    &&& final(self).slots@.len() == old(self).slots@.len()
                    &&& final(self).slots@[idx as int].is_fresh()
                    &&& final(self).slots@[idx as int].paged_dirty == old(
                        self,
                    ).slots@[idx as int].paged_dirty
                    &&& forall|t: int|
                        0 <= t < old(self).slots@.len() && t != idx
                            ==> #[trigger] final(self).slots@[t] == old(self).slots@[t]
                    &&& match old(self).mtp {
                        None => final(self).mtp is None,
                        Some(m) => final(self).mtp is Some && slot_became(
                            final(self).mtp->0,
                            m,
                            idx as int,
                            fresh_slot(),
                            None,
                        ),
                    }
                },
                Err(msg) => idx >= old(self).slots@.len() && *final(self) == *old(self) && msg@
                    == "reset slot "@ + decimal(idx as nat) + " is out of range"@,
            },
    {
        if idx >= self.slots.len() {
            let mut msg = "reset slot ".to_owned();
            push_decimal(&mut msg, idx as u64);
            msg.append(" is out of range");
            return Err(msg);
        }
        let ghost before = self.slots@;
        let mut slot = AdapterSlot::new();
        slot.paged_dirty = self.slots[idx].paged_dirty;
        self.slots.set(idx, slot);
        match &mut self.mtp {
            Some(mtp) => match mtp.reset_slot(idx) {
                Ok(()) => {},
                Err(_) => {
                    assert(false);
                },
            },
            None => {},
        }
        proof {
            assert forall|i: int| 0 <= i < self.slots@.len() implies slot_usable(
                self.model,
                #[trigger] self.slots@[i],
                i,
            ) by {
                assert(slot_usable(self.model, before[i], i));
            }
        }
        Ok(())
    }
}

/// Whether a block forgot both its stream and its slots.
pub open spec fn block_cleared(after: HybridLayerType, before: HybridLayerType) -> bool {
    exists|middle: HybridLayerType|
        #![trigger stream_cleared(middle, before)]
        stream_cleared(middle, before) && slots_cleared(after, middle)
}

/// Whether every block forgot both its stream and its slots.
pub open spec fn cleared(after: Seq<HybridLayerType>, before: Seq<HybridLayerType>) -> bool {
    &&& after.len() == before.len()
    &&& forall|i: int| 0 <= i < before.len() ==> block_cleared(#[trigger] after[i], before[i])
}

/// Why a prompt with media cannot be installed.
pub open spec fn install_failure(
    adapter: Qwen35BatchAdapter,
    slot: nat,
    payload: MultimodalPrefill,
) -> Option<Seq<char>> {
    if slot >= adapter.slots@.len() {
        Some("multimodal slot "@ + decimal(slot) + " is out of range"@)
    } else if !adapter.vision {
        Some("Vision component is not loaded"@)
    } else {
        payload_failure(payload)
    }
}

} // verus!
