//! What a decode step leaves behind: hidden states for the open transactions, snapshot
//! positions, and the logits row by row.
use crate::adapter::{slot_usable, AdapterSlot, Qwen35BatchAdapter};
use crate::adapter_decode::{slots_exist, DecodeItem};
use crate::model_state::StateSnapshot;
use crate::text::{decimal, push_decimal};
use vstd::prelude::*;

verus! {

/// The hidden states of the first `n` items that are for slot `s`, in order.
pub open spec fn hidden_for(
    items: Seq<DecodeItem>,
    hidden: Seq<u64>,
    n: nat,
    s: int,
) -> Seq<u64>
    decreases n,
{
    if n == 0 {
        Seq::empty()
    } else {
        let earlier = hidden_for(items, hidden, (n - 1) as nat, s);
        if items[n - 1].slot_idx == s {
            earlier.push(hidden[n - 1])
        } else {
            earlier
        }
    }
}

/// The position of a snapshot of slot `s` after the first `n` items.
pub open spec fn position_after(
    position: usize,
    items: Seq<DecodeItem>,
    n: nat,
    s: int,
) -> int
    decreases n,
{
    if n == 0 {
        position as int
    } else if items[n - 1].slot_idx == s {
        items[n - 1].pos + 1
    } else {
        position_after(position, items, (n - 1) as nat, s)
    }
}

/// Whether a slot took the hidden states of the first `n` items: where a transaction is
/// open they are verified tokens of it.
pub open spec fn slot_verified(
    after: AdapterSlot,
    before: AdapterSlot,
    items: Seq<DecodeItem>,
    hidden: Seq<u64>,
    n: nat,
    s: int,
) -> bool {
    &&& after == (AdapterSlot { verified: after.verified, ..before })
    &&& after.verified@ == if before.transaction is Some {
        before.verified@ + hidden_for(items, hidden, n, s)
    } else {
        before.verified@
    }
}

/// Whether a slot's snapshot moved to where the first `n` items take it.
pub open spec fn slot_advanced(
    after: AdapterSlot,
    before: AdapterSlot,
    items: Seq<DecodeItem>,
    n: nat,
    s: int,
) -> bool {
    &&& after == (AdapterSlot { snap: after.snap, ..before })
    &&& match before.snap {
        None => after.snap is None,
        Some(own) => after.snap == Some(
            StateSnapshot {
                position: position_after(own.position, items, n, s) as usize,
                ..own
            },
        ),
    }
}

/// Whether all slots took the hidden states.
pub open spec fn all_verified(
    after: Seq<AdapterSlot>,
    before: Seq<AdapterSlot>,
    items: Seq<DecodeItem>,
    hidden: Seq<u64>,
) -> bool {
    &&& after.len() == before.len()
    &&& forall|s: int|
        0 <= s < before.len() ==> slot_verified(
            #[trigger] after[s],
            before[s],
            items,
            hidden,
            items.len(),
            s,
        )
}

/// Whether all snapshots moved.
pub open spec fn all_advanced(
    after: Seq<AdapterSlot>,
    before: Seq<AdapterSlot>,
    items: Seq<DecodeItem>,
) -> bool {
    &&& after.len() == before.len()
    &&& forall|s: int|
        0 <= s < before.len() ==> slot_advanced(
            #[trigger] after[s],
            before[s],
            items,
            items.len(),
            s,
        )
}

/// Whether the logits of a batch are laid out one row of the vocabulary per item.
pub open spec fn rows_of(rows: Seq<Vec<u32>>, flat: Seq<u32>, vocab: nat) -> bool {
    &&& rows.len() * vocab == flat.len()
    &&& forall|i: int|
        0 <= i < rows.len() ==> (#[trigger] rows[i])@ == flat.subrange(i * vocab, (i + 1) * vocab)
}

/// Whether there are as many logits as items and vocabulary ask for.
pub fn logits_fit(len: usize, batch: usize, vocab: usize) -> (fits: bool)
    ensures
        fits == (len == batch * vocab),
{
    match batch.checked_mul(vocab) {
        Some(total) => len == total,
        None => false,
    }
}

/// Splits the logits of a batch into rows.
pub fn split_logits(flat: &Vec<u32>, batch: usize, vocab: usize) -> (rows: Vec<Vec<u32>>)
    requires
        flat@.len() == batch * vocab,
    ensures
        rows@.len() == batch,
        rows_of(rows@, flat@, vocab as nat),
{
    let total: usize = flat.len();
    let mut rows: Vec<Vec<u32>> = Vec::new();
    let mut i: usize = 0;
    let mut start: usize = 0;
    while i < batch
        invariant
            i <= batch,
            total == batch * vocab,
            rows@.len() == i,
            start == i * vocab,
            flat@.len() == batch * vocab,
            forall|k: int|
                0 <= k < i ==> (#[trigger] rows@[k])@ == flat@.subrange(
                    k * vocab,
                    (k + 1) * vocab,
                ),
        decreases batch - i,
    {
        assert(i * vocab + vocab <= batch * vocab && i * vocab + vocab == (i + 1) * vocab)
            by (nonlinear_arith)
            requires
                i + 1 <= batch,
        ;
        let end: usize = start + vocab;
        let mut row: Vec<u32> = Vec::new();
        let mut j: usize = start;
        while j < end
            invariant
                start <= j <= end <= flat@.len(),
                row@ == flat@.subrange(start as int, j as int),
            decreases end - j,
        {
            row.push(flat[j]);
            assert(row@ =~= flat@.subrange(start as int, j + 1));
            j += 1;
        }
        rows.push(row);
        start = end;
        i += 1;
    }
    rows
}

/// The message for logits that do not fit the batch.
pub open spec fn logits_text(len: nat, batch: nat, vocab: nat) -> Seq<char> {
    "decode_batch logits length "@ + decimal(len) + " != batch "@ + decimal(batch) + " * vocab "@
        + decimal(vocab)
}

fn logits_message(len: usize, batch: usize, vocab: usize) -> (msg: String)
    ensures
        msg@ == logits_text(len as nat, batch as nat, vocab as nat),
{
    let mut msg = "decode_batch logits length ".to_owned();
    push_decimal(&mut msg, len as u64);
    msg.append(" != batch ");
    push_decimal(&mut msg, batch as u64);
    msg.append(" * vocab ");
    push_decimal(&mut msg, vocab as u64);
    msg
}

impl Qwen35BatchAdapter {
    /// Adds the hidden states of a step to the open transactions of its slots.
    fn take_hidden(&mut self, items: &Vec<DecodeItem>, hidden: &Vec<u64>)
        requires
            old(self).wf(),
            slots_exist(items@, old(self).slots@.len()),
            hidden@.len() == items@.len(),
        ensures
            final(self).wf(),
            *final(self) == (Qwen35BatchAdapter { slots: final(self).slots, ..*old(self) }),
            all_verified(final(self).slots@, old(self).slots@, items@, hidden@),
    {
        let ghost before = self.slots@;
        let mut i: usize = 0;
        assert forall|s: int| 0 <= s < before.len() implies slot_verified(
            #[trigger] self.slots@[s],
            before[s],
            items@,
            hidden@,
            0,
            s,
        ) by {
            assert(before[s].verified@ =~= before[s].verified@ + hidden_for(items@, hidden@, 0, s));
        }
        while i < items.len()
            invariant
                i <= items@.len(),
                hidden@.len() == items@.len(),
                before == old(self).slots@,
                slots_exist(items@, before.len()),
                *self == (Qwen35BatchAdapter { slots: self.slots, ..*old(self) }),
                self.slots@.len() == before.len(),
                forall|s: int|
                    0 <= s < before.len() ==> slot_verified(
                        #[trigger] self.slots@[s],
                        before[s],
                        items@,
                        hidden@,
                        i as nat,
                        s,
                    ),
            decreases items@.len() - i,
        {
            let s: usize = items[i].slot_idx;
            assert(items@[i as int].slot_idx < before.len());
            let ghost middle = self.slots@;
            assert(slot_verified(middle[s as int], before[s as int], items@, hidden@, i as nat, s as int));
            if self.slots[s].transaction.is_some() {
                self.slots[s].verified.push(hidden[i]);
            }
            proof {
                assert forall|t: int| 0 <= t < before.len() implies slot_verified(
                    #[trigger] self.slots@[t],
                    before[t],
                    items@,
                    hidden@,
                    (i + 1) as nat,
                    t,
                ) by {
                    assert(slot_verified(middle[t], before[t], items@, hidden@, i as nat, t));
                    if t == s {
                        assert(self.slots@[t].verified@ =~= if before[t].transaction is Some {
                            before[t].verified@ + hidden_for(items@, hidden@, (i + 1) as nat, t)
                        } else {
                            before[t].verified@
                        });
                    }
                }
            }
            i += 1;
        }
        proof {
            assert forall|s: int| 0 <= s < self.slots@.len() implies slot_usable(
                self.model,
                #[trigger] self.slots@[s],
                s,
            ) by {
                assert(slot_usable(self.model, before[s], s));
                assert(slot_verified(
                    self.slots@[s],
                    before[s],
                    items@,
                    hidden@,
                    items@.len(),
                    s,
                ));
            }
        }
    }

    /// Moves the snapshots of a step's slots behind their tokens.
    pub(crate) fn advance_positions(&mut self, items: &Vec<DecodeItem>)
        requires
            old(self).wf(),
            slots_exist(items@, old(self).slots@.len()),
            forall|i: int| 0 <= i < items@.len() ==> (#[trigger] items@[i]).pos < usize::MAX,
        ensures
            final(self).wf(),
            *final(self) == (Qwen35BatchAdapter { slots: final(self).slots, ..*old(self) }),
            all_advanced(final(self).slots@, old(self).slots@, items@),
    {
        let ghost before = self.slots@;
        let mut i: usize = 0;
        while i < items.len()
            invariant
                i <= items@.len(),
                before == old(self).slots@,
                slots_exist(items@, before.len()),
                forall|k: int| 0 <= k < items@.len() ==> (#[trigger] items@[k]).pos < usize::MAX,
                *self == (Qwen35BatchAdapter { slots: self.slots, ..*old(self) }),
                self.slots@.len() == before.len(),
                forall|s: int|
                    0 <= s < before.len() ==> slot_advanced(
                        #[trigger] self.slots@[s],
                        before[s],
                        items@,
                        i as nat,
                        s,
                    ),
            decreases items@.len() - i,
        {
            let s: usize = items[i].slot_idx;
            assert(items@[i as int].slot_idx < before.len());
            assert(items@[i as int].pos < usize::MAX);
            let ghost middle = self.slots@;
            assert(slot_advanced(middle[s as int], before[s as int], items@, i as nat, s as int));
            match &mut self.slots[s].snap {
                Some(snap) => {
                    snap.position = items[i].pos + 1;
                },
                None => {},
            }
            proof {
                assert forall|t: int| 0 <= t < before.len() implies slot_advanced(
                    #[trigger] self.slots@[t],
                    before[t],
                    items@,
                    (i + 1) as nat,
                    t,
                ) by {
                    assert(slot_advanced(middle[t], before[t], items@, i as nat, t));
                    if t != s {
                        assert(self.slots@[t] == middle[t]);
                    }
                }
            }
            i += 1;
        }
        proof {
            assert forall|s: int| 0 <= s < self.slots@.len() implies slot_usable(
                self.model,
                #[trigger] self.slots@[s],
                s,
            ) by {
                assert(slot_usable(self.model, before[s], s));
                assert(slot_advanced(self.slots@[s], before[s], items@, items@.len(), s));
            }
        }
    }

    /// Keeps what a step that ran block by block leaves: the hidden states go to the open
    /// transactions, the snapshots move behind the tokens, and the logits come back one
    /// row per item. Logits of another number are refused, with the hidden states kept.
    pub fn decode_close(
        &mut self,
        items: &Vec<DecodeItem>,
        hidden: &Vec<u64>,
        flat: &Vec<u32>,
    ) -> (rows: Result<Vec<Vec<u32>>, String>)
        requires
            old(self).wf(),
            slots_exist(items@, old(self).slots@.len()),
            hidden@.len() == items@.len(),
            forall|i: int| 0 <= i < items@.len() ==> (#[trigger] items@[i]).pos < usize::MAX,
        ensures
            final(self).wf(),
            *final(self) == (Qwen35BatchAdapter { slots: final(self).slots, ..*old(self) }),
            step_kept(rows, *final(self), *old(self), items@, hidden@, flat@),
    {
        self.take_hidden(items, hidden);
        let ghost middle = self.slots@;
        let vocab: usize = self.vocab_size();
        if !logits_fit(flat.len(), items.len(), vocab) {
            return Err(logits_message(flat.len(), items.len(), vocab));
        }
        let rows = split_logits(flat, items.len(), vocab);
        self.advance_positions(items);
        proof {
            assert forall|s: int| 0 <= s < self.slots@.len() implies slot_kept(
                #[trigger] self.slots@[s],
                old(self).slots@[s],
                items@,
                hidden@,
                s,
            ) by {
                assert(slot_verified(
                    middle[s],
                    old(self).slots@[s],
                    items@,
                    hidden@,
                    items@.len(),
                    s,
                ));
                assert(slot_advanced(self.slots@[s], middle[s], items@, items@.len(), s));
            }
        }
        Ok(rows)
    }
}

/// Whether slot `s` is as a decode step leaves it: its open transaction has the hidden
/// states of its tokens, and its snapshot stands behind the last of them.
pub open spec fn slot_kept(
    after: AdapterSlot,
    before: AdapterSlot,
    items: Seq<DecodeItem>,
    hidden: Seq<u64>,
    s: int,
) -> bool {
    &&& after == (AdapterSlot { snap: after.snap, verified: after.verified, ..before })
    &&& after.verified@ == if before.transaction is Some {
        before.verified@ + hidden_for(items, hidden, items.len(), s)
    } else {
        before.verified@
    }
    &&& match before.snap {
        None => after.snap is None,
        Some(own) => after.snap == Some(
            StateSnapshot {
                position: position_after(own.position, items, items.len(), s) as usize,
                ..own
            },
        ),
    }
}

/// What keeping a decode step does and returns.
pub open spec fn step_kept(
    rows: Result<Vec<Vec<u32>>, String>,
    after: Qwen35BatchAdapter,
    before: Qwen35BatchAdapter,
    items: Seq<DecodeItem>,
    hidden: Seq<u64>,
    flat: Seq<u32>,
) -> bool {
    let vocab = before.vocabulary();
    match rows {
        Ok(all) => {
            &&& all@.len() == items.len()
            &&& rows_of(all@, flat, vocab as nat)
            &&& after.slots@.len() == before.slots@.len()
            &&& forall|s: int|
                0 <= s < before.slots@.len() ==> slot_kept(
                    #[trigger] after.slots@[s],
                    before.slots@[s],
                    items,
                    hidden,
                    s,
                )
        },
        Err(msg) => {
            &&& flat.len() != items.len() * vocab
            &&& msg@ == logits_text(flat.len(), items.len(), vocab as nat)
            &&& all_verified(after.slots@, before.slots@, items, hidden)
        },
    }
}

} // verus!
