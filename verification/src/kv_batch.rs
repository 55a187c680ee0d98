//! One batched decode step over the slot caches of an attention layer.
use crate::kv_cache::{
    appended, grown, law_decode_stays_in_window, min2, slot_ok, BatchedKvCache,
    GatedAttentionLayer, KvFormat, KvStep, SlotModel, StreamModel, DECODE_BATCH_CAPACITY, GROWTH,
};
use crate::text::{decimal, push_decimal};
use vstd::prelude::*;

verus! {

/// What the tensor code does for one slot of a decode step.
#[derive(Debug, Clone, Copy, PartialEq, Eq, Structural)]
pub struct SlotStep {
    /// Room of the buffer to make first, where the slot had none.
    pub opened: Option<usize>,
    pub step: KvStep,
}

/// A slot's cache, made where there was none.
pub open spec fn opened(slot: SlotModel, window: nat) -> SlotModel {
    match slot.capacity {
        Some(_) => slot,
        None => SlotModel { rows: Seq::empty(), capacity: Some(min2(512, window)) },
    }
}

/// Whether a token at `position` can follow `len` cached rows: it is the next
/// one, or the window is full and the token lies beyond it.
pub open spec fn position_fits(len: nat, position: nat, window: nat) -> bool {
    !((len < window && position != len) || (len == window && position < len))
}

/// The message for a token that cannot follow.
pub open spec fn position_text(position: nat, slot: nat, len: nat) -> Seq<char> {
    "decode cache position "@ + decimal(position) + " is incompatible with slot "@ + decimal(slot)
        + " cache length "@ + decimal(len)
}

/// What one token does to a slot: the slot's new cache, and the step or why
/// there is none.
pub open spec fn slot_advanced(
    slot: SlotModel,
    row: u64,
    position: nat,
    id: nat,
    window: nat,
    limit: nat,
) -> (SlotModel, Result<KvStep, Seq<char>>) {
    let ready = opened(slot, window);
    let len = ready.rows.len();
    let cap = ready.capacity->0;
    if !position_fits(len, position, window) {
        (ready, Err(position_text(position, id, len)))
    } else if len + 1 > window {
        (
            SlotModel {
                rows: ready.rows.subrange(1, window as int).push(row),
                capacity: ready.capacity,
            },
            Ok(KvStep::Evict { keep: (window - 1) as usize }),
        )
    } else if len + 1 > cap {
        let new_cap = min2(grown(len + 1, limit), window);
        (
            SlotModel { rows: ready.rows.push(row), capacity: Some(new_cap) },
            Ok(KvStep::Grow { capacity: new_cap as usize, at: len as usize }),
        )
    } else {
        (
            SlotModel { rows: ready.rows.push(row), capacity: ready.capacity },
            Ok(KvStep::Append { at: len as usize }),
        )
    }
}

/// The room of the buffer that is made for a slot without one.
pub open spec fn opened_room(slot: SlotModel, window: nat) -> Option<usize> {
    match slot.capacity {
        Some(_) => None,
        None => Some(min2(512, window) as usize),
    }
}

/// The room of the buffer that was made last, after a token of a slot.
pub open spec fn last_room(
    slot: SlotModel,
    row: u64,
    position: nat,
    window: nat,
    limit: nat,
    before: nat,
) -> nat {
    match slot_advanced(slot, row, position, 0, window, limit).1 {
        Ok(KvStep::Grow { capacity, at }) => capacity as nat,
        _ => match slot.capacity {
            Some(_) => before,
            None => min2(512, window),
        },
    }
}

fn position_message(position: usize, slot: usize, len: usize) -> (msg: String)
    ensures
        msg@ == position_text(position as nat, slot as nat, len as nat),
{
    let mut msg = "decode cache position ".to_owned();
    push_decimal(&mut msg, position as u64);
    msg.append(" is incompatible with slot ");
    push_decimal(&mut msg, slot as u64);
    msg.append(" cache length ");
    push_decimal(&mut msg, len as u64);
    msg
}

impl GatedAttentionLayer {
    /// All slots.
    pub open spec fn slots(&self) -> Seq<SlotModel> {
        Seq::new(DECODE_BATCH_CAPACITY as nat, |s: int| self.slot(s))
    }

    /// Adds the row of one token to the cache of slot `slot`. A slot without a
    /// cache gets one first, and keeps it where the token is then refused.
    pub fn decode_slot(&mut self, slot: usize, row: u64, cache_position: usize) -> (step: Result<
        SlotStep,
        String,
    >)
        requires
            old(self).wf(),
            old(self).attn_window > 0,
            slot < DECODE_BATCH_CAPACITY,
        ensures
            final(self).wf(),
            final(self).same_but_slot(old(self), slot as int),
            ({
                let outcome = slot_advanced(
                    old(self).slot(slot as int),
                    row,
                    cache_position as nat,
                    slot as nat,
                    old(self).attn_window as nat,
                    old(self).max_cache_len as nat,
                );
                &&& final(self).slot(slot as int) == outcome.0
                &&& match step {
                    Ok(s) => outcome.1 == Ok::<KvStep, Seq<char>>(s.step) && s.opened
                        == opened_room(old(self).slot(slot as int), old(self).attn_window as nat),
                    Err(msg) => outcome.1 == Err::<KvStep, Seq<char>>(msg@),
                }
            }),
            final(self).kv_cache_cap_batched == last_room(
                old(self).slot(slot as int),
                row,
                cache_position as nat,
                old(self).attn_window as nat,
                old(self).max_cache_len as nat,
                old(self).kv_cache_cap_batched as nat,
            ),
    {
        let ghost before = self.slot(slot as int);
        let window: usize = self.attn_window;
        let format = if self.use_q8_f16_kv_cache {
            KvFormat::F16
        } else {
            KvFormat::Q8
        };
        assert(slot_ok(
            self.kv_cache_batched@[slot as int],
            self.kv_cache_len_batched@[slot as int],
            format,
        ));
        let mut made: Option<usize> = None;
        let taken = take_slot(&mut self.kv_cache_batched, slot);
        let mut cache = match taken {
            Some(cache) => cache,
            None => {
                let room: usize = if window < GROWTH {
                    window
                } else {
                    GROWTH
                };
                let empty = BatchedKvCache { format, rows: Vec::new() };
                made = Some(room);
                self.kv_cache_cap_batched = room;
                empty.empty_like(room)
            },
        };
        let len: usize = self.kv_cache_len_batched[slot];
        let ghost ready = opened(before, window as nat);
        let ghost held = cache@.rows;
        assert(ready.rows =~= held.take(len as int));
        if (len < window && cache_position != len) || (len == window && cache_position < len) {
            self.kv_cache_batched.set(slot, Some(cache));
            assert(self.slot(slot as int).rows =~= ready.rows);
            return Err(position_message(cache_position, slot, len));
        }
        let cap = cache.capacity();
        if len >= window {
            let keep: usize = window - 1;
            let _done = cache.shift_and_append(row, format, keep);
            self.kv_cache_len_batched.set(slot, window);
            self.kv_cache_batched.set(slot, Some(cache));
            proof {
                assert(self.slot(slot as int).rows =~= ready.rows.subrange(
                    1,
                    window as int,
                ).push(row));
            }
            Ok(SlotStep { opened: made, step: KvStep::Evict { keep } })
        } else if len + 1 > cap {
            let new_len: usize = len + 1;
            let by_limit: usize = if self.max_cache_len - new_len >= GROWTH {
                new_len + GROWTH
            } else {
                self.max_cache_len
            };
            let new_cap: usize = if by_limit <= window {
                by_limit
            } else {
                window
            };
            let mut next = cache.empty_like(new_cap);
            if len > 0 {
                let _done = cache.copy_prefix_to(&mut next, len);
            }
            let _done = next.set_row(row, format, len);
            self.kv_cache_len_batched.set(slot, new_len);
            self.kv_cache_batched.set(slot, Some(next));
            self.kv_cache_cap_batched = new_cap;
            proof {
                assert(self.slot(slot as int).rows =~= ready.rows.push(row));
            }
            Ok(SlotStep { opened: made, step: KvStep::Grow { capacity: new_cap, at: len } })
        } else {
            let _done = cache.set_row(row, format, len);
            self.kv_cache_len_batched.set(slot, len + 1);
            self.kv_cache_batched.set(slot, Some(cache));
            proof {
                assert(self.slot(slot as int).rows =~= ready.rows.push(row));
            }
            Ok(SlotStep { opened: made, step: KvStep::Append { at: len } })
        }
    }
}

/// The outcome of a batched decode step.
pub struct BatchOutcome {
    pub slots: Seq<SlotModel>,
    pub steps: Seq<SlotStep>,
    pub error: Option<Seq<char>>,
}

/// The message for a slot that does not exist.
pub open spec fn slot_range_text(slot: nat) -> Seq<char> {
    "decode slot "@ + decimal(slot) + " is out of range"@
}

/// What the first `n` tokens of a batch do, one slot after the other. The first
/// that is refused ends the step; what came before it stays done.
pub open spec fn batch_advanced(
    slots: Seq<SlotModel>,
    ids: Seq<u32>,
    positions: Seq<usize>,
    rows: Seq<u64>,
    window: nat,
    limit: nat,
    n: nat,
) -> BatchOutcome
    decreases n,
{
    if n == 0 {
        BatchOutcome { slots, steps: Seq::empty(), error: None }
    } else {
        let k = n - 1;
        let done = batch_advanced(slots, ids, positions, rows, window, limit, k as nat);
        let id = ids[k] as int;
        if done.error is Some {
            done
        } else if id >= DECODE_BATCH_CAPACITY {
            BatchOutcome { error: Some(slot_range_text(id as nat)), ..done }
        } else {
            let outcome = slot_advanced(
                done.slots[id],
                rows[k],
                positions[k] as nat,
                id as nat,
                window,
                limit,
            );
            match outcome.1 {
                Err(msg) => BatchOutcome {
                    slots: done.slots.update(id, outcome.0),
                    steps: done.steps,
                    error: Some(msg),
                },
                Ok(step) => BatchOutcome {
                    slots: done.slots.update(id, outcome.0),
                    steps: done.steps.push(
                        SlotStep { opened: opened_room(done.slots[id], window), step },
                    ),
                    error: None,
                },
            }
        }
    }
}

/// The room of the buffer that was made last, after the first `n` tokens of a batch.
pub open spec fn batch_room(
    slots: Seq<SlotModel>,
    ids: Seq<u32>,
    positions: Seq<usize>,
    rows: Seq<u64>,
    window: nat,
    limit: nat,
    before: nat,
    n: nat,
) -> nat
    decreases n,
{
    if n == 0 {
        before
    } else {
        let k = n - 1;
        let done = batch_advanced(slots, ids, positions, rows, window, limit, k as nat);
        let room = batch_room(slots, ids, positions, rows, window, limit, before, k as nat);
        let id = ids[k] as int;
        if done.error is Some || id >= DECODE_BATCH_CAPACITY {
            room
        } else {
            last_room(done.slots[id], rows[k], positions[k] as nat, window, limit, room)
        }
    }
}

/// Whether a window can take the tokens of a batch: it has room, or the first token is
/// refused before room is needed.
pub open spec fn window_serves(window: usize, ids: Seq<u32>) -> bool {
    window > 0 || ids.len() == 0 || ids[0] >= DECODE_BATCH_CAPACITY
}

/// An error ends the step: later tokens change nothing.
proof fn lemma_error_ends(
    slots: Seq<SlotModel>,
    ids: Seq<u32>,
    positions: Seq<usize>,
    rows: Seq<u64>,
    window: nat,
    limit: nat,
    before: nat,
    k: nat,
    n: nat,
)
    requires
        k <= n,
        batch_advanced(slots, ids, positions, rows, window, limit, k).error is Some,
    ensures
        batch_room(slots, ids, positions, rows, window, limit, before, n) == batch_room(
            slots,
            ids,
            positions,
            rows,
            window,
            limit,
            before,
            k,
        ),
        batch_advanced(slots, ids, positions, rows, window, limit, n) == batch_advanced(
            slots,
            ids,
            positions,
            rows,
            window,
            limit,
            k,
        ),
    decreases n,
{
    if k < n {
        lemma_error_ends(slots, ids, positions, rows, window, limit, before, k, (n - 1) as nat);
    }
}

impl GatedAttentionLayer {
    /// Adds one token per batch entry to the caches of their slots.
    pub fn decode_batch(
        &mut self,
        b_sz: usize,
        seq_len: usize,
        cache_positions: &[usize],
        rope_positions: &[usize],
        slots: &[u32],
        rows: &[u64],
    ) -> (steps: Result<Vec<SlotStep>, String>)
        requires
            old(self).wf(),
            rows@.len() == b_sz,
            seq_len == 1 && cache_positions@.len() == b_sz && rope_positions@.len() == b_sz
                && slots@.len() == b_sz ==> window_serves(old(self).attn_window, slots@),
        ensures
            final(self).wf(),
            final(self).same_but_slots(old(self)),
            seq_len != 1 || cache_positions@.len() != b_sz || rope_positions@.len() != b_sz
                || slots@.len() != b_sz ==> *final(self) == *old(self) && steps is Err
                && steps->Err_0@ == "invalid batched decode dimensions"@,
            seq_len == 1 && cache_positions@.len() == b_sz && rope_positions@.len() == b_sz
                && slots@.len() == b_sz ==> {
                let outcome = batch_advanced(
                    old(self).slots(),
                    slots@,
                    cache_positions@,
                    rows@,
                    old(self).attn_window as nat,
                    old(self).max_cache_len as nat,
                    b_sz as nat,
                );
                &&& final(self).slots() == outcome.slots
                &&& final(self).kv_cache_cap_batched == batch_room(
                    old(self).slots(),
                    slots@,
                    cache_positions@,
                    rows@,
                    old(self).attn_window as nat,
                    old(self).max_cache_len as nat,
                    old(self).kv_cache_cap_batched as nat,
                    b_sz as nat,
                )
                &&& match steps {
                    Ok(list) => outcome.error is None && list@ == outcome.steps,
                    Err(msg) => outcome.error == Some(msg@),
                }
            },
    {
        if seq_len != 1 || cache_positions.len() != b_sz || rope_positions.len() != b_sz
            || slots.len() != b_sz {
            return Err("invalid batched decode dimensions".to_owned());
        }
        let ghost window = self.attn_window as nat;
        let ghost limit = self.max_cache_len as nat;
        let ghost start = self.slots();
        let ghost room = self.kv_cache_cap_batched as nat;
        let mut steps: Vec<SlotStep> = Vec::new();
        let mut i: usize = 0;
        while i < slots.len()
            invariant
                i <= slots@.len() == b_sz,
                seq_len == 1,
                rope_positions@.len() == b_sz,
                slots@.len() == cache_positions@.len(),
                rows@.len() == slots@.len(),
                start == old(self).slots(),
                window == old(self).attn_window,
                limit == old(self).max_cache_len,
                room == old(self).kv_cache_cap_batched,
                window_serves(old(self).attn_window, slots@),
                window > 0 || i == 0,
                self.wf(),
                self.same_but_slots(old(self)),
                ({
                    let outcome = batch_advanced(
                        start,
                        slots@,
                        cache_positions@,
                        rows@,
                        window,
                        limit,
                        i as nat,
                    );
                    &&& self.slots() == outcome.slots
                    &&& outcome.error is None
                    &&& steps@ == outcome.steps
                }),
                self.kv_cache_cap_batched == batch_room(
                    start,
                    slots@,
                    cache_positions@,
                    rows@,
                    window,
                    limit,
                    room,
                    i as nat,
                ),
            decreases slots@.len() - i,
        {
            let ghost done = batch_advanced(
                start,
                slots@,
                cache_positions@,
                rows@,
                window,
                limit,
                i as nat,
            );
            let ghost next = batch_advanced(
                start,
                slots@,
                cache_positions@,
                rows@,
                window,
                limit,
                (i + 1) as nat,
            );
            let slot: usize = slots[i] as usize;
            if slot >= DECODE_BATCH_CAPACITY as usize {
                let mut msg = "decode slot ".to_owned();
                push_decimal(&mut msg, slot as u64);
                msg.append(" is out of range");
                proof {
                    lemma_error_ends(
                        start,
                        slots@,
                        cache_positions@,
                        rows@,
                        window,
                        limit,
                        room,
                        (i + 1) as nat,
                        b_sz as nat,
                    );
                }
                return Err(msg);
            }
            let ghost before = *self;
            proof {
                assert(done.slots[slot as int] == before.slot(slot as int));
            }
            match self.decode_slot(slot, rows[i], cache_positions[i]) {
                Ok(step) => {
                    steps.push(step);
                    proof {
                        lemma_slots_updated(*self, before, slot as int);
                        assert(steps@ =~= next.steps);
                    }
                },
                Err(msg) => {
                    proof {
                        lemma_slots_updated(*self, before, slot as int);
                        lemma_error_ends(
                            start,
                            slots@,
                            cache_positions@,
                            rows@,
                            window,
                            limit,
                            room,
                            (i + 1) as nat,
                            b_sz as nat,
                        );
                    }
                    return Err(msg);
                },
            }
            i += 1;
        }
        Ok(steps)
    }
}

proof fn lemma_slots_updated(after: GatedAttentionLayer, before: GatedAttentionLayer, s: int)
    requires
        after.same_but_slot(&before, s),
        0 <= s < DECODE_BATCH_CAPACITY,
    ensures
        after.slots() == before.slots().update(s, after.slot(s)),
{
    assert forall|t: int| 0 <= t < DECODE_BATCH_CAPACITY && t != s implies #[trigger] after.slot(t)
        == before.slot(t) by {
        assert(after.kv_cache_len_batched@[t] == before.kv_cache_len_batched@[t]);
    }
    assert(after.slots() =~= before.slots().update(s, after.slot(s)));
}

/// Slots that a batch does not name keep their caches.
pub proof fn law_other_slots_untouched(
    slots: Seq<SlotModel>,
    ids: Seq<u32>,
    positions: Seq<usize>,
    rows: Seq<u64>,
    window: nat,
    limit: nat,
    n: nat,
    s: int,
)
    requires
        slots.len() == DECODE_BATCH_CAPACITY,
        n <= ids.len(),
        0 <= s < slots.len(),
        forall|i: int| 0 <= i < n ==> #[trigger] ids[i] != s,
    ensures
        batch_advanced(slots, ids, positions, rows, window, limit, n).slots.len() == slots.len(),
        batch_advanced(slots, ids, positions, rows, window, limit, n).slots[s] == slots[s],
    decreases n,
{
    if n > 0 {
        law_other_slots_untouched(slots, ids, positions, rows, window, limit, (n - 1) as nat, s);
        assert(ids[n - 1] != s);
    }
}

proof fn lemma_batch_keeps_count(
    slots: Seq<SlotModel>,
    ids: Seq<u32>,
    positions: Seq<usize>,
    rows: Seq<u64>,
    window: nat,
    limit: nat,
    n: nat,
)
    requires
        slots.len() == DECODE_BATCH_CAPACITY,
    ensures
        batch_advanced(slots, ids, positions, rows, window, limit, n).slots.len() == slots.len(),
    decreases n,
{
    if n > 0 {
        lemma_batch_keeps_count(slots, ids, positions, rows, window, limit, (n - 1) as nat);
    }
}

/// Batched decode is per-slot decode: where each slot occurs once and nothing is
/// refused, every entry leaves its slot as if the slot had been decoded alone.
pub proof fn law_batch_matches_single(
    slots: Seq<SlotModel>,
    ids: Seq<u32>,
    positions: Seq<usize>,
    rows: Seq<u64>,
    window: nat,
    limit: nat,
    n: nat,
    b: int,
)
    requires
        slots.len() == DECODE_BATCH_CAPACITY,
        n <= ids.len(),
        0 <= b < n,
        forall|i: int, j: int| 0 <= i < j < n ==> #[trigger] ids[i] != #[trigger] ids[j],
        batch_advanced(slots, ids, positions, rows, window, limit, n).error is None,
    ensures
        ids[b] < DECODE_BATCH_CAPACITY,
        batch_advanced(slots, ids, positions, rows, window, limit, n).slots[ids[b] as int]
            == slot_advanced(
            slots[ids[b] as int],
            rows[b],
            positions[b] as nat,
            ids[b] as nat,
            window,
            limit,
        ).0,
        slot_advanced(
            slots[ids[b] as int],
            rows[b],
            positions[b] as nat,
            ids[b] as nat,
            window,
            limit,
        ).1 is Ok,
    decreases n,
{
    let k = (n - 1) as nat;
    let done = batch_advanced(slots, ids, positions, rows, window, limit, k);
    lemma_batch_keeps_count(slots, ids, positions, rows, window, limit, k);
    if b == k {
        assert(ids[b] < DECODE_BATCH_CAPACITY);
        law_other_slots_untouched(slots, ids, positions, rows, window, limit, k, ids[b] as int);
    } else {
        law_batch_matches_single(slots, ids, positions, rows, window, limit, k, b);
        assert(ids[b] != ids[k as int]);
    }
}

/// A decoded slot never holds more than a window of rows, and its newest row is
/// the token's.
pub proof fn law_window_bounds_slot(
    slot: SlotModel,
    row: u64,
    position: nat,
    id: nat,
    window: nat,
    limit: nat,
)
    requires
        window > 0,
        slot.capacity is None ==> slot.rows.len() == 0,
        slot_advanced(slot, row, position, id, window, limit).1 is Ok,
    ensures
        slot_advanced(slot, row, position, id, window, limit).0.rows.len() <= window,
        slot_advanced(slot, row, position, id, window, limit).0.rows.last() == row,
{
}

/// In a full window a new row drives out the oldest only: the last `window`
/// tokens remain.
pub proof fn law_eviction_keeps_newest(
    slot: SlotModel,
    row: u64,
    position: nat,
    id: nat,
    window: nat,
    limit: nat,
)
    requires
        window > 0,
        slot.capacity is Some,
        slot.rows.len() == window,
        position >= window,
    ensures
        slot_advanced(slot, row, position, id, window, limit).1 is Ok,
        slot_advanced(slot, row, position, id, window, limit).0.rows
            == slot.rows.drop_first().push(row),
{
    assert(slot.rows.subrange(1, window as int) =~= slot.rows.drop_first());
}

/// Takes a slot's cache out.
fn take_slot(caches: &mut Vec<Option<BatchedKvCache>>, slot: usize) -> (cache: Option<
    BatchedKvCache,
>)
    requires
        slot < old(caches)@.len(),
    ensures
        cache == old(caches)@[slot as int],
        final(caches)@ == old(caches)@.update(slot as int, None),
{
    let mut out: Option<BatchedKvCache> = None;
    std::mem::swap(&mut caches[slot], &mut out);
    assert(caches@ =~= old(caches)@.update(slot as int, None));
    out
}

/// A token that follows the cached rows leaves every one of them in place, whether or not
/// the slot's buffer has to grow: the new row goes behind them. The buffer grows only when
/// it is full, then by 512 rows more than it needs, as far as the window allows.
pub proof fn law_decode_keeps_cached_rows(
    slot: SlotModel,
    row: u64,
    position: nat,
    id: nat,
    window: nat,
    limit: nat,
)
    requires
        0 < window <= limit <= usize::MAX,
        slot.capacity is None ==> slot.rows.len() == 0,
        slot.capacity is Some ==> slot.rows.len() <= slot.capacity->0,
        slot.rows.len() < window,
    ensures
        ({
            let (next, step) = slot_advanced(slot, row, position, id, window, limit);
            let len = slot.rows.len();
            &&& step is Ok <==> position == len
            &&& position == len ==> {
                &&& next.rows.len() == len + 1
                &&& next.rows[len as int] == row
                &&& forall|i: int| 0 <= i < len ==> #[trigger] next.rows[i] == slot.rows[i]
                &&& next.capacity is Some
                &&& len < next.capacity->0
                &&& slot.capacity is Some && len < slot.capacity->0 ==> next.capacity
                    == slot.capacity
                &&& slot.capacity is Some && len == slot.capacity->0 ==> next.capacity->0 == (if len
                    + 513 <= window {
                    len + 513
                } else {
                    window
                })
                &&& slot.capacity is None ==> next.capacity->0 == (if window < 512 {
                    window
                } else {
                    512
                })
                &&& (step->Ok_0 matches KvStep::Append { at } ==> at == len && next.capacity->0
                    == opened(slot, window).capacity->0)
                &&& (step->Ok_0 matches KvStep::Grow { capacity, at } ==> at == len && capacity
                    == next.capacity->0 as usize && slot.capacity == Some(len))
                &&& !(step->Ok_0 is Evict) && !(step->Ok_0 is Fill)
            }
            &&& position != len ==> next.rows == slot.rows
        }),
{
    if slot.capacity is None {
        assert(slot.rows =~= Seq::empty());
    }
}

/// What a slot holds after some tokens were decoded into it one after the other.
pub open spec fn decoded_one_by_one(
    slot: SlotModel,
    rows: Seq<u64>,
    start: nat,
    id: nat,
    window: nat,
    limit: nat,
) -> SlotModel
    decreases rows.len(),
{
    if rows.len() == 0 {
        slot
    } else {
        let before = decoded_one_by_one(slot, rows.drop_last(), start, id, window, limit);
        slot_advanced(before, rows.last(), (start + rows.len() - 1) as nat, id, window, limit).0
    }
}

/// The last `n` rows, or all where there are fewer.
pub open spec fn last_rows(rows: Seq<u64>, n: nat) -> Seq<u64> {
    if rows.len() <= n {
        rows
    } else {
        rows.skip(rows.len() - n)
    }
}

/// However many tokens are decoded into a slot, it holds the rows of the last `window` of
/// all tokens it ever saw, oldest first, and none of them is refused.
pub proof fn law_decoding_keeps_the_last_window(
    slot: SlotModel,
    rows: Seq<u64>,
    id: nat,
    window: nat,
    limit: nat,
)
    requires
        0 < window <= limit <= usize::MAX,
        slot.rows.len() <= window,
        slot.capacity is None ==> slot.rows.len() == 0,
        slot.capacity is Some ==> slot.rows.len() <= slot.capacity->0,
    ensures
        rows.len() > 0 ==> decoded_one_by_one(
            slot,
            rows,
            slot.rows.len(),
            id,
            window,
            limit,
        ).rows == last_rows(slot.rows + rows, window),
        rows.len() > 0 ==> {
            let before = decoded_one_by_one(
                slot,
                rows.drop_last(),
                slot.rows.len(),
                id,
                window,
                limit,
            );
            slot_advanced(
                before,
                rows.last(),
                (slot.rows.len() + rows.len() - 1) as nat,
                id,
                window,
                limit,
            ).1 is Ok
        },
        ({
            let after = decoded_one_by_one(slot, rows, slot.rows.len(), id, window, limit);
            &&& after.rows.len() == (if slot.rows.len() + rows.len() <= window {
                slot.rows.len() + rows.len()
            } else {
                window
            })
            &&& after.capacity is Some ==> after.rows.len() <= after.capacity->0
            &&& after.capacity is None ==> after.rows.len() == 0
        }),
    decreases rows.len(),
{
    if rows.len() > 0 {
        let start = slot.rows.len();
        let fore = rows.drop_last();
        law_decoding_keeps_the_last_window(slot, fore, id, window, limit);
        let before = decoded_one_by_one(slot, fore, start, id, window, limit);
        let position = (start + rows.len() - 1) as nat;
        let all = slot.rows + rows;
        let seen = slot.rows + fore;
        assert(all =~= seen.push(rows.last()));
        if fore.len() == 0 {
            assert(seen =~= slot.rows);
            assert(before == slot);
        }
        assert(before.rows =~= last_rows(seen, window));
        let after = decoded_one_by_one(slot, rows, start, id, window, limit);
        if before.rows.len() < window {
            law_decode_keeps_cached_rows(before, rows.last(), position, id, window, limit);
            assert(after.rows =~= before.rows.push(rows.last()));
        } else {
            law_eviction_keeps_newest(before, rows.last(), position, id, window, limit);
            assert(after.rows =~= before.rows.drop_first().push(rows.last()));
        }
        assert(after.rows =~= last_rows(all, window));
    }
}

/// A slot that holds what the single stream holds decodes as the stream does: both take
/// the next token, and hold the same rows afterwards.
pub proof fn law_slot_decodes_like_stream(
    slot: SlotModel,
    stream: StreamModel,
    row: u64,
    position: nat,
    id: nat,
    window: nat,
    limit: nat,
)
    requires
        0 < window <= limit <= usize::MAX,
        slot.rows == stream.rows,
        slot.rows.len() <= window,
        slot.capacity is None ==> slot.rows.len() == 0,
        slot.capacity is Some ==> slot.rows.len() <= slot.capacity->0,
        stream.capacity is None ==> stream.rows.len() == 0,
        stream.capacity is Some ==> stream.rows.len() <= stream.capacity->0,
        slot.rows.len() < window ==> position == slot.rows.len(),
        slot.rows.len() == window ==> position >= window,
    ensures
        slot_advanced(slot, row, position, id, window, limit).1 is Ok,
        appended(stream, seq![row], window, limit) is Ok,
        slot_advanced(slot, row, position, id, window, limit).0.rows == appended(
            stream,
            seq![row],
            window,
            limit,
        )->Ok_0.0.rows,
{
    law_decode_stays_in_window(stream, row, window, limit);
    if slot.rows.len() < window {
        law_decode_keeps_cached_rows(slot, row, position, id, window, limit);
        assert(slot_advanced(slot, row, position, id, window, limit).0.rows =~= slot.rows.push(row));
    } else {
        law_eviction_keeps_newest(slot, row, position, id, window, limit);
    }
}

/// Which tokens a slot takes: the next one while the window is not full, and any at or
/// beyond the window once it is. A refusal names the position, the slot and how many rows
/// it has, and changes no row.
pub proof fn law_positions_follow_the_cache(
    slot: SlotModel,
    row: u64,
    position: nat,
    id: nat,
    window: nat,
    limit: nat,
)
    requires
        0 < window <= limit <= usize::MAX,
        slot.rows.len() <= window,
        slot.capacity is None ==> slot.rows.len() == 0,
    ensures
        ({
            let (next, step) = slot_advanced(slot, row, position, id, window, limit);
            let len = slot.rows.len();
            &&& step is Ok <==> (position == len || (len == window && position > len))
            &&& step is Err ==> next.rows == slot.rows && step->Err_0 == "decode cache position "@
                + decimal(position) + " is incompatible with slot "@ + decimal(id)
                + " cache length "@ + decimal(len)
        }),
{
}

/// A batch that names each slot once does to every slot what decoding its token alone
/// does: the rows that were there stay, the token's row follows, and the oldest row leaves
/// only where the window was full. One step is reported per token.
pub proof fn law_batch_appends_one_row_per_token(
    slots: Seq<SlotModel>,
    ids: Seq<u32>,
    positions: Seq<usize>,
    rows: Seq<u64>,
    window: nat,
    limit: nat,
    n: nat,
    b: int,
)
    requires
        slots.len() == DECODE_BATCH_CAPACITY,
        n <= ids.len(),
        0 <= b < n,
        forall|i: int, j: int| 0 <= i < j < n ==> #[trigger] ids[i] != #[trigger] ids[j],
        0 < window <= limit <= usize::MAX,
        forall|s: int|
            0 <= s < slots.len() ==> {
                &&& (#[trigger] slots[s]).rows.len() <= window
                &&& slots[s].capacity is None ==> slots[s].rows.len() == 0
                &&& slots[s].capacity is Some ==> slots[s].rows.len() <= slots[s].capacity->0
            },
        batch_advanced(slots, ids, positions, rows, window, limit, n).error is None,
    ensures
        ids[b] < 4,
        ({
            let before = slots[ids[b] as int].rows;
            let after = batch_advanced(
                slots,
                ids,
                positions,
                rows,
                window,
                limit,
                n,
            ).slots[ids[b] as int].rows;
            &&& before.len() < window ==> after == before.push(rows[b]) && positions[b]
                == before.len()
            &&& before.len() == window ==> after == before.drop_first().push(rows[b])
                && positions[b] >= window
        }),
        batch_advanced(slots, ids, positions, rows, window, limit, n).steps.len() == n,
{
    let s = ids[b] as int;
    law_batch_matches_single(slots, ids, positions, rows, window, limit, n, b);
    let slot = slots[s];
    law_positions_follow_the_cache(
        slot,
        rows[b],
        positions[b] as nat,
        s as nat,
        window,
        limit,
    );
    if slot.rows.len() < window {
        law_decode_keeps_cached_rows(slot, rows[b], positions[b] as nat, s as nat, window, limit);
        assert(slot_advanced(slot, rows[b], positions[b] as nat, s as nat, window, limit).0.rows
            =~= slot.rows.push(rows[b]));
    } else {
        law_eviction_keeps_newest(slot, rows[b], positions[b] as nat, s as nat, window, limit);
    }
    lemma_steps_counted(slots, ids, positions, rows, window, limit, n);
}

proof fn lemma_steps_counted(
    slots: Seq<SlotModel>,
    ids: Seq<u32>,
    positions: Seq<usize>,
    rows: Seq<u64>,
    window: nat,
    limit: nat,
    n: nat,
)
    requires
        batch_advanced(slots, ids, positions, rows, window, limit, n).error is None,
    ensures
        batch_advanced(slots, ids, positions, rows, window, limit, n).steps.len() == n,
    decreases n,
{
    if n > 0 {
        lemma_steps_counted(slots, ids, positions, rows, window, limit, (n - 1) as nat);
    }
}

/// The room that is noted as made last is that of the slot's buffer, where the token made
/// a new one, and otherwise stays.
pub proof fn law_last_room_is_the_new_buffers(
    slot: SlotModel,
    row: u64,
    position: nat,
    id: nat,
    window: nat,
    limit: nat,
    before: nat,
)
    requires
        0 < window <= limit <= usize::MAX,
        slot.rows.len() <= window,
        slot.capacity is None ==> slot.rows.len() == 0,
        slot.capacity is Some ==> slot.rows.len() <= slot.capacity->0,
    ensures
        ({
            let next = slot_advanced(slot, row, position, id, window, limit).0;
            let room = last_room(slot, row, position, window, limit, before);
            if next.capacity == slot.capacity {
                room == before
            } else {
                Some(room) == next.capacity
            }
        }),
{
}

} // verus!
