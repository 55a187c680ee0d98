//! Prefilling a slot, chunk by chunk: what happens before the model sees a chunk, and
//! what is kept of it afterwards.
use crate::adapter::{lemma_slots_stay_usable, slot_usable, AdapterSlot, Qwen35BatchAdapter};
use crate::instance::{
    lemma_clear_keeps_instance, lemma_own_snapshot_ok, lemma_restore_keeps_instance,
    lemma_same_instance_refl, lemma_seed_keeps_instance,
};
use crate::kv_cache::DECODE_BATCH_CAPACITY;
use crate::model_laws::{
    law_seeded_slot_continues_stream, same_instance, same_slot, same_stream, slot_holds_stream,
};
use crate::model_ops::{restore_outcome, same_but_blocks, snapshot_of, stream_cleared};
use crate::model_state::{ModelWeights, StateSnapshot};
use crate::mtp::{saved_state, shifted_inputs, slot_became, state_of, with_rows, SlotState, HIDDEN};
use crate::multimodal::{feature_runs, runs_right, FeatureRun, InstalledMultimodal};
use crate::position::{slice_position_plan, PositionPlan};
use crate::text::{decimal, push_decimal};
use crate::validation::concat2;
use vstd::prelude::*;

verus! {

/// A chunk of a prompt.
#[derive(Debug)]
pub struct PrefillChunk {
    pub slot_idx: usize,
    pub start_pos: usize,
    pub tokens: Vec<u32>,
    /// Whether the prompt begins here.
    pub reset_first: bool,
    /// Whether the prompt ends here.
    pub is_final: bool,
}

/// How the model is to be run on a chunk.
#[derive(Debug)]
pub enum PrefillPass {
    /// On the tokens, for their logits alone.
    Plain,
    /// On the tokens' embeddings, with the hidden states for the prediction head.
    WithHidden,
    /// On embeddings in which vision features replace media tokens, with three-axis
    /// positions.
    Media { runs: Vec<FeatureRun>, plan: PositionPlan, needs_vision: bool },
}

/// Whether `media` holds the tokens of a chunk.
pub open spec fn chunk_installed(media: InstalledMultimodal, chunk: PrefillChunk) -> bool {
    &&& chunk.start_pos + chunk.tokens@.len() <= media.token_ids@.len()
    &&& media.token_ids@.subrange(
        chunk.start_pos as int,
        chunk.start_pos + chunk.tokens@.len(),
    ) == chunk.tokens@
}

/// Why a chunk with media cannot be run.
pub open spec fn media_failure(media: InstalledMultimodal, chunk: PrefillChunk, vision: bool) -> Option<
    Seq<char>,
> {
    if chunk.start_pos + chunk.tokens@.len() > usize::MAX {
        Some("prefill range overflow"@)
    } else if !chunk_installed(media, chunk) {
        Some("multimodal prefill tokens differ from installed prompt"@)
    } else if !media.has_features && !vision {
        Some("Vision component is not loaded"@)
    } else {
        None
    }
}

/// Whether a pass is the one that a chunk calls for.
pub open spec fn pass_for(pass: PrefillPass, adapter: Qwen35BatchAdapter, chunk: PrefillChunk) -> bool {
    let slot = adapter.slots@[chunk.slot_idx as int];
    match slot.multimodal {
        Some(media) => {
            &&& media_failure(media, chunk, adapter.vision) is None
            &&& pass matches PrefillPass::Media { runs, plan, needs_vision }
            &&& runs_right(
                media.mm_token_types@,
                chunk.start_pos as nat,
                chunk.tokens@.len(),
                runs@,
            )
            &&& plan@ == media.plan@.slice(chunk.start_pos as int, chunk.tokens@.len() as int)
            &&& needs_vision == !media.has_features
        },
        None => if adapter.mtp is Some {
            pass is WithHidden
        } else {
            pass is Plain
        },
    }
}

/// The slot at the start of a chunk.
pub open spec fn opened_slot(slot: AdapterSlot, reset_first: bool) -> AdapterSlot {
    if reset_first {
        AdapterSlot {
            snap: None,
            seeded: false,
            paged_dirty: true,
            rope_delta: if slot.multimodal is None {
                0
            } else {
                slot.rope_delta
            },
            ..slot
        }
    } else {
        slot
    }
}

/// Whether every block's stream was cleared, and nothing else changed.
pub open spec fn streams_cleared(after: ModelWeights, before: ModelWeights) -> bool {
    &&& same_but_blocks(after, before)
    &&& after.blocks@.len() == before.blocks@.len()
    &&& forall|i: int|
        0 <= i < before.blocks@.len() ==> stream_cleared(
            #[trigger] after.blocks@[i],
            before.blocks@[i],
        )
}

/// Whether the model's stream is ready for a chunk: empty at the start of a prompt, and
/// otherwise as it was behind the chunk before.
pub open spec fn stream_ready(
    after: ModelWeights,
    before: ModelWeights,
    slot: AdapterSlot,
    reset_first: bool,
) -> bool {
    if reset_first {
        streams_cleared(after, before)
    } else {
        slot.snap matches Some(snap) && restore_outcome(Ok(()), after, before, snap)
    }
}

/// Whether only slot `s` and the model's state differ.
pub open spec fn same_but_slot_and_model(
    a: Qwen35BatchAdapter,
    b: Qwen35BatchAdapter,
    s: int,
) -> bool {
    &&& a == (Qwen35BatchAdapter { model: a.model, slots: a.slots, ..b })
    &&& same_instance(b.model, a.model)
    &&& a.slots@.len() == b.slots@.len()
    &&& forall|t: int|
        0 <= t < b.slots@.len() && t != s ==> #[trigger] a.slots@[t] == b.slots@[t]
}

/// What preparing a chunk does and returns.
pub open spec fn open_outcome(
    done: Result<PrefillPass, String>,
    after: Qwen35BatchAdapter,
    before: Qwen35BatchAdapter,
    chunk: PrefillChunk,
) -> bool {
    let s = chunk.slot_idx as int;
    let slot = before.slots@[s];
    if s >= before.slots@.len() || chunk.tokens@.len() == 0 {
        &&& after == before
        &&& done matches Err(msg)
        &&& msg@ == "prefill slot is out of range or chunk is empty"@
    } else if !chunk.reset_first && slot.snap is None {
        &&& after == before
        &&& done matches Err(msg)
        &&& msg@ == "prefill_chunk: slot "@ + decimal(s as nat) + " без snapshot и не reset"@
    } else {
        &&& same_but_slot_and_model(after, before, s)
        &&& after.slots@[s] == opened_slot(slot, chunk.reset_first)
        &&& match done {
            Ok(pass) => stream_ready(after.model, before.model, slot, chunk.reset_first)
                && pass_for(pass, after, chunk),
            Err(msg) => {
                ||| stream_ready(after.model, before.model, slot, chunk.reset_first)
                    && slot.multimodal is Some && media_failure(
                    slot.multimodal->0,
                    chunk,
                    before.vision,
                ) == Some(msg@)
                ||| !chunk.reset_first && restore_refused(
                    after.model,
                    before.model,
                    slot.snap->0,
                    msg@,
                )
            },
        }
    }
}

/// Whether restoring a snapshot was refused with the given message.
pub open spec fn restore_refused(
    after: ModelWeights,
    before: ModelWeights,
    snap: StateSnapshot,
    msg: Seq<char>,
) -> bool {
    exists|e: String|
        #![trigger e@]
        restore_outcome(Err(e), after, before, snap) && msg == "prefill restore: "@ + e@
}

impl Qwen35BatchAdapter {
    fn restore_for(&mut self, s: usize) -> (done: Result<(), String>)
        requires
            old(self).wf(),
            s < old(self).slots@.len(),
            old(self).slots@[s as int].snap is Some,
        ensures
            final(self).wf(),
            same_but_slot_and_model(*final(self), *old(self), s as int),
            final(self).slots@ == old(self).slots@,
            match done {
                Ok(()) => restore_outcome(
                    Ok(()),
                    final(self).model,
                    old(self).model,
                    old(self).slots@[s as int].snap->0,
                ),
                Err(msg) => restore_refused(
                    final(self).model,
                    old(self).model,
                    old(self).slots@[s as int].snap->0,
                    msg@,
                ),
            },
    {
        let ghost before = *self;
        proof {
            assert(slot_usable(self.model, self.slots@[s as int], s as int));
        }
        let outcome = match &self.slots[s].snap {
            Some(snap) => self.model.restore_state(snap),
            None => Ok(()),
        };
        proof {
            lemma_restore_keeps_instance(
                outcome,
                self.model,
                before.model,
                before.slots@[s as int].snap->0,
            );
            lemma_slots_stay_usable(before.model, self.model, before.slots@);
        }
        match outcome {
            Ok(()) => Ok(()),
            Err(e) => {
                let ghost text = e@;
                let msg = concat2("prefill restore: ", e.as_str());
                assert(restore_outcome(
                    Err(e),
                    self.model,
                    before.model,
                    before.slots@[s as int].snap->0,
                ));
                Err(msg)
            },
        }
    }

    fn clear_for(&mut self, s: usize)
        requires
            old(self).wf(),
            s < old(self).slots@.len(),
        ensures
            final(self).wf(),
            same_but_slot_and_model(*final(self), *old(self), s as int),
            final(self).slots@[s as int] == opened_slot(old(self).slots@[s as int], true),
            streams_cleared(final(self).model, old(self).model),
    {
        let ghost before = *self;
        self.model.clear_state();
        self.slots[s].snap = None;
        self.slots[s].seeded = false;
        self.slots[s].paged_dirty = true;
        if self.slots[s].multimodal.is_none() {
            self.slots[s].rope_delta = 0;
        }
        proof {
            lemma_clear_keeps_instance(self.model, before.model);
            lemma_slots_stay_usable(before.model, self.model, before.slots@);
            assert forall|i: int| 0 <= i < self.slots@.len() implies slot_usable(
                self.model,
                #[trigger] self.slots@[i],
                i,
            ) by {
                assert(slot_usable(self.model, before.slots@[i], i));
            }
        }
    }

    fn plan_pass(&self, chunk: &PrefillChunk) -> (pass: Result<PrefillPass, String>)
        requires
            self.wf(),
            chunk.slot_idx < self.slots@.len(),
        ensures
            match pass {
                Ok(p) => pass_for(p, *self, *chunk),
                Err(msg) => {
                    &&& self.slots@[chunk.slot_idx as int].multimodal matches Some(media)
                    &&& media_failure(media, *chunk, self.vision) == Some(msg@)
                },
            },
    {
        proof {
            assert(slot_usable(
                self.model,
                self.slots@[chunk.slot_idx as int],
                chunk.slot_idx as int,
            ));
        }
        match &self.slots[chunk.slot_idx].multimodal {
            None => {
                if self.mtp.is_some() {
                    Ok(PrefillPass::WithHidden)
                } else {
                    Ok(PrefillPass::Plain)
                }
            },
            Some(media) => {
                match media.holds_chunk(chunk.start_pos, &chunk.tokens) {
                    Err(msg) => return Err(msg),
                    Ok(holds) => {
                        if !holds {
                            return Err(
                                "multimodal prefill tokens differ from installed prompt".to_owned(),
                            );
                        }
                    },
                }
                if !media.has_features && !self.vision {
                    return Err("Vision component is not loaded".to_owned());
                }
                let runs = feature_runs(&media.mm_token_types, chunk.start_pos, chunk.tokens.len());
                match slice_position_plan(&media.plan, chunk.start_pos, chunk.tokens.len()) {
                    Ok(plan) => Ok(
                        PrefillPass::Media { runs, plan, needs_vision: !media.has_features },
                    ),
                    Err(msg) => {
                        assert(false);
                        Err(msg)
                    },
                }
            },
        }
    }

    /// Prepares the model's stream for a chunk and says how the model is to be run on
    /// it.
    pub fn prefill_open(&mut self, chunk: &PrefillChunk) -> (pass: Result<PrefillPass, String>)
        requires
            old(self).wf(),
        ensures
            final(self).wf(),
            open_outcome(pass, *final(self), *old(self), *chunk),
    {
        let s: usize = chunk.slot_idx;
        if s >= self.slots.len() || chunk.tokens.len() == 0 {
            return Err("prefill slot is out of range or chunk is empty".to_owned());
        }
        if chunk.reset_first {
            self.clear_for(s);
        } else if self.slots[s].snap.is_some() {
            match self.restore_for(s) {
                Ok(()) => {},
                Err(msg) => return Err(msg),
            }
        } else {
            let mut msg = "prefill_chunk: slot ".to_owned();
            push_decimal(&mut msg, s as u64);
            msg.append(" без snapshot и не reset");
            return Err(msg);
        }
        self.plan_pass(chunk)
    }

    /// Notes that the vision features of a slot's prompt are there.
    pub fn features_ready(&mut self, slot: usize)
        requires
            old(self).wf(),
            slot < old(self).slots@.len(),
            old(self).slots@[slot as int].multimodal is Some,
        ensures
            final(self).wf(),
            same_but_slot_and_model(*final(self), *old(self), slot as int),
            final(self).model == old(self).model,
            final(self).slots@[slot as int] == (AdapterSlot {
                multimodal: Some(
                    InstalledMultimodal {
                        has_features: true,
                        ..old(self).slots@[slot as int].multimodal->0
                    },
                ),
                ..old(self).slots@[slot as int]
            }),
    {
        let ghost before = *self;
        proof {
            assert(slot_usable(self.model, self.slots@[slot as int], slot as int));
            lemma_same_instance_refl(self.model);
        }
        match &mut self.slots[slot].multimodal {
            Some(media) => {
                media.has_features = true;
            },
            None => {},
        }
        proof {
            assert forall|i: int| 0 <= i < self.slots@.len() implies slot_usable(
                self.model,
                #[trigger] self.slots@[i],
                i,
            ) by {
                assert(slot_usable(self.model, before.slots@[i], i));
            }
        }
    }

    /// The hidden states that the prediction head reads a chunk with, where one is loaded:
    /// the head lags one token behind the target model.
    pub fn head_inputs(
        &self,
        chunk: &PrefillChunk,
        width: usize,
        target_width: usize,
        hidden: &Vec<u64>,
    ) -> (inputs: Result<Option<Vec<Option<u64>>>, String>)
        requires
            self.wf(),
            chunk.slot_idx < self.slots@.len(),
            chunk.tokens@.len() > 0,
        ensures
            match inputs {
                Ok(None) => self.mtp is None,
                Ok(Some(list)) => {
                    &&& self.mtp is Some
                    &&& head_fits(*chunk, width, target_width, hidden@.len())
                    &&& list@ == shifted_inputs(
                        state_of(self.mtp->0, chunk.slot_idx as int).pending,
                        hidden@,
                    )
                },
                Err(msg) => {
                    &&& self.mtp is Some
                    &&& !head_fits(*chunk, width, target_width, hidden@.len())
                    &&& msg@ == "MTP prefill catch-up: "@ + "MTP catch-up shape mismatch"@
                },
            },
    {
        match &self.mtp {
            None => Ok(None),
            Some(mtp) => match mtp.catch_up_inputs(
                chunk.slot_idx,
                width,
                target_width,
                chunk.tokens.len(),
                hidden,
            ) {
                Ok(list) => Ok(Some(list)),
                Err(msg) => Err(concat2("MTP prefill catch-up: ", msg.as_str())),
            },
        }
    }

    /// Keeps what the prediction head cached of a chunk, with the hidden state of the
    /// chunk's last token.
    pub fn head_caught_up(&mut self, slot: usize, rows: &Vec<u64>, hidden: &Vec<u64>)
        requires
            old(self).wf(),
            old(self).mtp is Some,
            slot < old(self).slots@.len(),
            hidden@.len() > 0,
        ensures
            final(self).wf(),
            *final(self) == (Qwen35BatchAdapter { mtp: final(self).mtp, ..*old(self) }),
            final(self).mtp is Some,
            slot_became(
                final(self).mtp->0,
                old(self).mtp->0,
                slot as int,
                SlotState {
                    pending: Some(hidden@.last()),
                    ..with_rows(state_of(old(self).mtp->0, slot as int), rows@)
                },
                saved_state(old(self).mtp->0, slot as int),
            ),
    {
        match &mut self.mtp {
            None => {},
            Some(mtp) => mtp.catch_up(slot, rows, hidden),
        }
    }

    /// Keeps what a chunk left: a snapshot of the stream, and behind the last chunk of a
    /// prompt the slot's own copy of it in the batched buffers.
    pub fn prefill_close(&mut self, chunk: &PrefillChunk)
        requires
            old(self).wf(),
            chunk.slot_idx < old(self).slots@.len(),
            chunk.start_pos + chunk.tokens@.len() <= usize::MAX,
        ensures
            final(self).wf(),
            same_but_slot_and_model(*final(self), *old(self), chunk.slot_idx as int),
            final(self).slots@[chunk.slot_idx as int] == (AdapterSlot {
                snap: final(self).slots@[chunk.slot_idx as int].snap,
                seeded: chunk.is_final,
                ..old(self).slots@[chunk.slot_idx as int]
            }),
            final(self).slots@[chunk.slot_idx as int].snap is Some,
            snapshot_of(
                final(self).slots@[chunk.slot_idx as int].snap->0,
                old(self).model,
                (chunk.start_pos + chunk.tokens@.len()) as usize,
            ),
            if chunk.is_final {
                slot_took_stream(final(self).model, old(self).model, chunk.slot_idx as int)
            } else {
                final(self).model == old(self).model
            },
    {
        let ghost before = *self;
        let s: usize = chunk.slot_idx;
        let position: usize = chunk.start_pos + chunk.tokens.len();
        let snap = self.model.snapshot_state(position);
        proof {
            lemma_own_snapshot_ok(self.model, snap, position);
            lemma_same_instance_refl(self.model);
        }
        if chunk.is_final {
            let done = self.model.seed_slot_batched(s, &snap);
            proof {
                lemma_seed_keeps_instance(done, self.model, before.model, s, snap);
                law_seeded_slot_continues_stream(
                    before.model,
                    snap,
                    position,
                    before.model,
                    self.model,
                    s,
                    done,
                );
                lemma_slots_stay_usable(before.model, self.model, before.slots@);
                crate::instance::lemma_instance_keeps_captures(
                    before.model,
                    self.model,
                    snap,
                    before.slots@[s as int].transaction->0,
                );
            }
        }
        self.slots[s].snap = Some(snap);
        self.slots[s].seeded = chunk.is_final;
        proof {
            assert forall|i: int| 0 <= i < self.slots@.len() implies slot_usable(
                self.model,
                #[trigger] self.slots@[i],
                i,
            ) by {
                assert(slot_usable(self.model, before.slots@[i], i));
            }
        }
    }
}

/// Whether embeddings and hidden states of a chunk have the head's width, and there is
/// a hidden state per token.
pub open spec fn head_fits(chunk: PrefillChunk, width: usize, target_width: usize, hidden: nat) -> bool {
    hidden == chunk.tokens@.len() && width == HIDDEN && target_width == HIDDEN
}

/// Whether slot `s` holds in every block what the stream held, while the stream and the
/// other slots are as they were.
pub open spec fn slot_took_stream(after: ModelWeights, before: ModelWeights, s: int) -> bool {
    &&& after.blocks@.len() == before.blocks@.len()
    &&& forall|i: int|
        0 <= i < before.blocks@.len() ==> slot_holds_stream(
            #[trigger] after.blocks@[i],
            before.blocks@[i],
            s,
        ) && same_stream(after.blocks@[i], before.blocks@[i])
    &&& forall|i: int, t: int|
        0 <= i < before.blocks@.len() && 0 <= t < DECODE_BATCH_CAPACITY && t != s
            ==> #[trigger] same_slot(after.blocks@[i], before.blocks@[i], t)
}

/// A chunk continues where the one before it ended: whatever happened to the model
/// since, the stream that the next chunk finds is the one that the last chunk left.
pub proof fn law_next_chunk_continues(
    left: ModelWeights,
    snap: StateSnapshot,
    position: usize,
    before: ModelWeights,
    after: ModelWeights,
    slot: AdapterSlot,
)
    requires
        left.wf(),
        before.wf(),
        same_instance(left, before),
        snapshot_of(snap, left, position),
        slot.snap == Some(snap),
        stream_ready(after, before, slot, false),
    ensures
        after.blocks@.len() == left.blocks@.len(),
        forall|i: int|
            0 <= i < left.blocks@.len() ==> same_stream(
                #[trigger] after.blocks@[i],
                left.blocks@[i],
            ),
{
    crate::model_laws::law_restore_brings_state_back(
        left,
        snap,
        position,
        before,
        after,
        Ok(()),
    );
}

} // verus!
