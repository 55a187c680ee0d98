//! State of the multi-token-prediction head: one cache per slot, transactions around
//! speculative drafts, and the choice of drafted tokens. Cached rows and hidden
//! states are named by handles; the numbers behind them stay with the device.
use crate::moe::{float_greater, is_nan};
use crate::text::{decimal, push_decimal};
use vstd::prelude::*;

verus! {

/// Width of the hidden states.
pub const HIDDEN: usize = 2560;

/// Query heads.
pub const HEADS: usize = 16;

/// Key and value heads.
pub const KV_HEADS: usize = 4;

/// Width of a head.
pub const HEAD_DIM: usize = 256;

/// Width of the part of a head that is rotated by position.
pub const ROPE_DIM: usize = 64;

/// Cached keys and values: the buffer's rows, of which the first `len` count.
#[derive(Debug)]
pub struct MtpKv {
    pub rows: Vec<u64>,
    pub len: usize,
}

/// The model of an [`MtpKv`].
pub struct KvModel {
    pub rows: Seq<u64>,
    pub len: nat,
}

impl View for MtpKv {
    type V = KvModel;

    open spec fn view(&self) -> KvModel {
        KvModel { rows: self.rows@, len: self.len as nat }
    }
}

impl Clone for MtpKv {
    fn clone(&self) -> (copy: Self)
        ensures
            copy@ == self@,
    {
        MtpKv { rows: self.rows.clone(), len: self.len }
    }
}

/// State of one slot.
#[derive(Debug)]
pub struct MtpSlot {
    pub kv: Option<MtpKv>,
    /// Hidden state of the target model after the last token it consumed.
    pub pending_target_hidden: Option<u64>,
}

/// The model of an [`MtpSlot`].
pub struct SlotState {
    pub kv: Option<KvModel>,
    pub pending: Option<u64>,
}

impl View for MtpSlot {
    type V = SlotState;

    open spec fn view(&self) -> SlotState {
        SlotState {
            kv: match self.kv {
                Some(kv) => Some(kv@),
                None => None,
            },
            pending: self.pending_target_hidden,
        }
    }
}

impl Clone for MtpSlot {
    fn clone(&self) -> (copy: Self)
        ensures
            copy@ == self@,
    {
        MtpSlot {
            kv: match &self.kv {
                Some(kv) => Some(kv.clone()),
                None => None,
            },
            pending_target_hidden: self.pending_target_hidden,
        }
    }
}

/// A slot that has seen nothing.
pub open spec fn fresh_slot() -> SlotState {
    SlotState { kv: None, pending: None }
}

impl MtpSlot {
    /// A slot that has seen nothing.
    pub fn empty() -> (slot: Self)
        ensures
            slot@ == fresh_slot(),
    {
        MtpSlot { kv: None, pending_target_hidden: None }
    }
}

/// The rows that count.
pub open spec fn kept_rows(state: SlotState) -> Seq<u64> {
    match state.kv {
        Some(kv) => kv.rows.take(kv.len as int),
        None => Seq::empty(),
    }
}

/// Whether no more rows count than the buffer has.
pub open spec fn slot_valid(state: SlotState) -> bool {
    state.kv is Some ==> state.kv->0.len <= state.kv->0.rows.len()
}

/// The slot after new rows are cached behind those that count.
pub open spec fn with_rows(state: SlotState, rows: Seq<u64>) -> SlotState {
    let all = kept_rows(state) + rows;
    SlotState { kv: Some(KvModel { rows: all, len: all.len() }), pending: state.pending }
}

/// The multi-token-prediction head's slots and their open transactions.
#[derive(Debug)]
pub struct Qwen35Mtp {
    pub slots: Vec<MtpSlot>,
    /// For each slot, its state when a transaction began.
    pub transactions: Vec<Option<MtpSlot>>,
}

/// The message for a slot that does not exist.
pub open spec fn no_slot_text(slot: nat) -> Seq<char> {
    "MTP slot "@ + decimal(slot) + " is out of range"@
}

/// The state of slot `s`.
pub open spec fn state_of(mtp: Qwen35Mtp, s: int) -> SlotState {
    mtp.slots@[s]@
}

/// The state that slot `s` had when its transaction began, where one is open.
pub open spec fn saved_state(mtp: Qwen35Mtp, s: int) -> Option<SlotState> {
    match mtp.transactions@[s] {
        Some(saved) => Some(saved@),
        None => None,
    }
}

/// Whether slot `s` became `state` with `saved` as its open transaction, and the other
/// slots are as they were.
pub open spec fn slot_became(
    after: Qwen35Mtp,
    before: Qwen35Mtp,
    s: int,
    state: SlotState,
    saved: Option<SlotState>,
) -> bool {
    &&& after.slots@.len() == before.slots@.len()
    &&& state_of(after, s) == state
    &&& saved_state(after, s) == saved
    &&& forall|t: int|
        0 <= t < before.slots@.len() && t != s ==> #[trigger] after.slots@[t] == before.slots@[t]
    &&& forall|t: int|
        0 <= t < before.slots@.len() && t != s ==> #[trigger] after.transactions@[t]
            == before.transactions@[t]
}

/// Why a commit fails.
pub open spec fn commit_failure(mtp: Qwen35Mtp, s: int, verified: nat) -> Option<Seq<char>> {
    if saved_state(mtp, s) is None {
        Some("MTP transaction is not active"@)
    } else if verified == 0 {
        None
    } else {
        let base = kept_rows(saved_state(mtp, s)->0).len();
        let kv = state_of(mtp, s).kv;
        if base + verified > usize::MAX {
            Some("MTP committed length overflow"@)
        } else if kv is None {
            Some("MTP draft produced no KV state"@)
        } else if base + verified > kv->0.rows.len() {
            Some("MTP committed length exceeds draft KV"@)
        } else {
            None
        }
    }
}

/// The slot after a commit: what was verified counts, and nothing behind it; without
/// anything verified, the slot is as it was when the transaction began.
pub open spec fn committed(mtp: Qwen35Mtp, s: int, verified: Seq<u64>) -> SlotState {
    let saved = saved_state(mtp, s)->0;
    if verified.len() == 0 {
        saved
    } else {
        SlotState {
            kv: Some(
                KvModel {
                    rows: state_of(mtp, s).kv->0.rows,
                    len: kept_rows(saved).len() + verified.len(),
                },
            ),
            pending: Some(verified.last()),
        }
    }
}

impl Qwen35Mtp {
    /// There is a place for a transaction per slot, and buffers hold what counts.
    pub open spec fn wf(&self) -> bool {
        &&& self.transactions@.len() == self.slots@.len()
        &&& forall|s: int| 0 <= s < self.slots@.len() ==> slot_valid(#[trigger] self.slots@[s]@)
        &&& forall|s: int|
            0 <= s < self.transactions@.len() && (#[trigger] self.transactions@[s]) is Some
                ==> slot_valid(self.transactions@[s]->0@)
    }

    /// A head with `n` empty slots and no transaction.
    pub fn new(n: usize) -> (mtp: Self)
        ensures
            mtp.wf(),
            mtp.slots@.len() == n,
            forall|s: int|
                0 <= s < n ==> (#[trigger] mtp.slots@[s])@ == fresh_slot(),
            forall|s: int| 0 <= s < n ==> (#[trigger] mtp.transactions@[s]) is None,
    {
        let mut slots: Vec<MtpSlot> = Vec::new();
        let mut transactions: Vec<Option<MtpSlot>> = Vec::new();
        let mut i: usize = 0;
        while i < n
            invariant
                i <= n,
                slots@.len() == i,
                transactions@.len() == i,
                forall|s: int| 0 <= s < i ==> (#[trigger] slots@[s])@ == fresh_slot(),
                forall|s: int| 0 <= s < i ==> (#[trigger] transactions@[s]) is None,
            decreases n - i,
        {
            slots.push(MtpSlot::empty());
            transactions.push(None);
            i += 1;
        }
        Qwen35Mtp { slots, transactions }
    }

    fn check_slot(&self, slot: usize) -> (checked: Result<(), String>)
        ensures
            match checked {
                Ok(()) => slot < self.slots@.len(),
                Err(msg) => slot >= self.slots@.len() && msg@ == no_slot_text(slot as nat),
            },
    {
        if slot >= self.slots.len() {
            let mut msg = "MTP slot ".to_owned();
            push_decimal(&mut msg, slot as u64);
            msg.append(" is out of range");
            return Err(msg);
        }
        Ok(())
    }

    /// Forgets a slot and its transaction.
    pub fn reset_slot(&mut self, slot: usize) -> (done: Result<(), String>)
        requires
            old(self).wf(),
        ensures
            final(self).wf(),
            match done {
                Ok(()) => slot < old(self).slots@.len() && slot_became(
                    *final(self),
                    *old(self),
                    slot as int,
                    fresh_slot(),
                    None,
                ),
                Err(msg) => slot >= old(self).slots@.len() && *final(self) == *old(self) && msg@
                    == no_slot_text(slot as nat),
            },
    {
        match self.check_slot(slot) {
            Ok(()) => {},
            Err(msg) => return Err(msg),
        }
        self.slots.set(slot, MtpSlot::empty());
        self.transactions.set(slot, None);
        Ok(())
    }

    /// Begins a transaction: remembers the slot's state.
    pub fn begin(&mut self, slot: usize) -> (done: Result<(), String>)
        requires
            old(self).wf(),
        ensures
            final(self).wf(),
            match done {
                Ok(()) => {
                    &&& slot < old(self).slots@.len()
                    &&& saved_state(*old(self), slot as int) is None
                    &&& slot_became(
                        *final(self),
                        *old(self),
                        slot as int,
                        state_of(*old(self), slot as int),
                        Some(state_of(*old(self), slot as int)),
                    )
                },
                Err(msg) => *final(self) == *old(self) && if slot >= old(self).slots@.len() {
                    msg@ == no_slot_text(slot as nat)
                } else {
                    saved_state(*old(self), slot as int) is Some && msg@
                        == "MTP transaction already active for slot "@ + decimal(slot as nat)
                },
            },
    {
        match self.check_slot(slot) {
            Ok(()) => {},
            Err(msg) => return Err(msg),
        }
        if self.transactions[slot].is_some() {
            let mut msg = "MTP transaction already active for slot ".to_owned();
            push_decimal(&mut msg, slot as u64);
            return Err(msg);
        }
        let saved = self.slots[slot].clone();
        self.transactions.set(slot, Some(saved));
        Ok(())
    }

    /// Ends a transaction, if one is open, by putting the remembered state back.
    pub fn rollback(&mut self, slot: usize) -> (done: Result<(), String>)
        requires
            old(self).wf(),
        ensures
            final(self).wf(),
            match done {
                Ok(()) => slot < old(self).slots@.len() && slot_became(
                    *final(self),
                    *old(self),
                    slot as int,
                    match saved_state(*old(self), slot as int) {
                        Some(saved) => saved,
                        None => state_of(*old(self), slot as int),
                    },
                    None,
                ),
                Err(msg) => slot >= old(self).slots@.len() && *final(self) == *old(self) && msg@
                    == no_slot_text(slot as nat),
            },
    {
        match self.check_slot(slot) {
            Ok(()) => {},
            Err(msg) => return Err(msg),
        }
        let ghost before = *self;
        let mut saved: Option<MtpSlot> = None;
        std::mem::swap(&mut self.transactions[slot], &mut saved);
        match saved {
            Some(state) => {
                self.slots.set(slot, state);
            },
            None => {},
        }
        assert(self.transactions@ =~= before.transactions@.update(slot as int, None));
        Ok(())
    }

    /// Ends a transaction by keeping the rows that the target model verified, with the
    /// target's hidden state after the last of them. The transaction is over even
    /// where this fails.
    pub fn commit(&mut self, slot: usize, verified_target_hidden: &Vec<u64>) -> (done: Result<
        (),
        String,
    >)
        requires
            old(self).wf(),
        ensures
            final(self).wf(),
            match done {
                Ok(()) => {
                    &&& slot < old(self).slots@.len()
                    &&& commit_failure(
                        *old(self),
                        slot as int,
                        verified_target_hidden@.len(),
                    ) is None
                    &&& slot_became(
                        *final(self),
                        *old(self),
                        slot as int,
                        committed(*old(self), slot as int, verified_target_hidden@),
                        None,
                    )
                },
                Err(msg) => if slot >= old(self).slots@.len() {
                    *final(self) == *old(self) && msg@ == no_slot_text(slot as nat)
                } else {
                    &&& commit_failure(
                        *old(self),
                        slot as int,
                        verified_target_hidden@.len(),
                    ) == Some(msg@)
                    &&& slot_became(
                        *final(self),
                        *old(self),
                        slot as int,
                        state_of(*old(self), slot as int),
                        None,
                    )
                },
            },
    {
        match self.check_slot(slot) {
            Ok(()) => {},
            Err(msg) => return Err(msg),
        }
        let ghost before = *self;
        let mut taken: Option<MtpSlot> = None;
        std::mem::swap(&mut self.transactions[slot], &mut taken);
        assert(self.transactions@ =~= before.transactions@.update(slot as int, None));
        let saved = match taken {
            Some(saved) => saved,
            None => return Err("MTP transaction is not active".to_owned()),
        };
        if verified_target_hidden.len() == 0 {
            self.slots.set(slot, saved);
            return Ok(());
        }
        let base: usize = match &saved.kv {
            Some(cache) => cache.len,
            None => 0,
        };
        assert(base == kept_rows(saved@).len());
        let total: usize = match base.checked_add(verified_target_hidden.len()) {
            Some(total) => total,
            None => return Err("MTP committed length overflow".to_owned()),
        };
        let current = self.slots[slot].clone();
        let kv = match current.kv {
            Some(kv) => kv,
            None => return Err("MTP draft produced no KV state".to_owned()),
        };
        if total > kv.rows.len() {
            return Err("MTP committed length exceeds draft KV".to_owned());
        }
        let last: u64 = verified_target_hidden[verified_target_hidden.len() - 1];
        self.slots.set(
            slot,
            MtpSlot { kv: Some(MtpKv { rows: kv.rows, len: total }), pending_target_hidden: Some(last) },
        );
        Ok(())
    }

    /// Caches new rows of a slot behind those that count.
    pub fn append_rows(&mut self, slot: usize, rows: &Vec<u64>)
        requires
            old(self).wf(),
            slot < old(self).slots@.len(),
        ensures
            final(self).wf(),
            slot_became(
                *final(self),
                *old(self),
                slot as int,
                with_rows(state_of(*old(self), slot as int), rows@),
                saved_state(*old(self), slot as int),
            ),
    {
        let ghost before = *self;
        let mut all: Vec<u64> = Vec::new();
        match &self.slots[slot].kv {
            Some(cache) => {
                let mut i: usize = 0;
                while i < cache.len
                    invariant
                        i <= cache.len <= cache.rows@.len(),
                        all@ == cache.rows@.take(i as int),
                    decreases cache.len - i,
                {
                    all.push(cache.rows[i]);
                    i += 1;
                }
            },
            None => {},
        }
        let ghost kept = kept_rows(state_of(before, slot as int));
        assert(all@ =~= kept);
        let mut i: usize = 0;
        while i < rows.len()
            invariant
                i <= rows@.len(),
                all@ == kept + rows@.take(i as int),
            decreases rows@.len() - i,
        {
            all.push(rows[i]);
            i += 1;
        }
        assert(rows@.take(rows@.len() as int) =~= rows@);
        let len: usize = all.len();
        let pending = self.slots[slot].pending_target_hidden;
        self.slots.set(
            slot,
            MtpSlot { kv: Some(MtpKv { rows: all, len }), pending_target_hidden: pending },
        );
    }

    /// The hidden states that go with the rows of a chunk, one row late: the one that
    /// is pending (`None` stands for zeros) and all of the chunk's but the last.
    pub fn catch_up_inputs(
        &self,
        slot: usize,
        width: usize,
        target_width: usize,
        seq: usize,
        target_hidden: &Vec<u64>,
    ) -> (inputs: Result<Vec<Option<u64>>, String>)
        requires
            seq > 0,
        ensures
            match inputs {
                Ok(v) => {
                    &&& slot < self.slots@.len()
                    &&& target_hidden@.len() == seq
                    &&& width == HIDDEN
                    &&& target_width == HIDDEN
                    &&& v@ == shifted_inputs(state_of(*self, slot as int).pending, target_hidden@)
                },
                Err(msg) => if slot >= self.slots@.len() {
                    msg@ == no_slot_text(slot as nat)
                } else {
                    (target_hidden@.len() != seq || width != HIDDEN || target_width != HIDDEN)
                        && msg@ == "MTP catch-up shape mismatch"@
                },
            },
    {
        match self.check_slot(slot) {
            Ok(()) => {},
            Err(msg) => return Err(msg),
        }
        if target_hidden.len() != seq || width != HIDDEN || target_width != HIDDEN {
            return Err("MTP catch-up shape mismatch".to_owned());
        }
        let mut inputs: Vec<Option<u64>> = Vec::new();
        inputs.push(self.slots[slot].pending_target_hidden);
        let ghost pending = self.slots@[slot as int].pending_target_hidden;
        let mut i: usize = 0;
        while i < seq - 1
            invariant
                i <= seq - 1,
                seq > 0,
                seq == target_hidden@.len(),
                inputs@.len() == i + 1,
                inputs@[0] == pending,
                forall|k: int|
                    1 <= k <= i ==> #[trigger] inputs@[k] == Some(target_hidden@[k - 1]),
            decreases seq - 1 - i,
        {
            inputs.push(Some(target_hidden[i]));
            i += 1;
        }
        assert(inputs@ =~= shifted_inputs(pending, target_hidden@));
        Ok(inputs)
    }

    /// Takes over a chunk of the prompt: its rows are cached, and the hidden state of
    /// its last token is pending.
    pub fn catch_up(&mut self, slot: usize, rows: &Vec<u64>, target_hidden: &Vec<u64>)
        requires
            old(self).wf(),
            slot < old(self).slots@.len(),
            target_hidden@.len() > 0,
        ensures
            final(self).wf(),
            slot_became(
                *final(self),
                *old(self),
                slot as int,
                SlotState {
                    pending: Some(target_hidden@.last()),
                    ..with_rows(state_of(*old(self), slot as int), rows@)
                },
                saved_state(*old(self), slot as int),
            ),
    {
        self.append_rows(slot, rows);
        let last: u64 = target_hidden[target_hidden.len() - 1];
        let mut state = self.slots[slot].clone();
        state.pending_target_hidden = Some(last);
        self.slots.set(slot, state);
    }

    /// The hidden state that a draft starts from.
    pub fn draft_start(&self, slot: usize) -> (hidden: Result<u64, String>)
        requires
            self.wf(),
        ensures
            match hidden {
                Ok(h) => {
                    &&& slot < self.slots@.len()
                    &&& saved_state(*self, slot as int) is Some
                    &&& state_of(*self, slot as int).pending == Some(h)
                },
                Err(msg) => if slot >= self.slots@.len() {
                    msg@ == no_slot_text(slot as nat)
                } else if saved_state(*self, slot as int) is None {
                    msg@ == "MTP draft requires active transaction"@
                } else {
                    state_of(*self, slot as int).pending is None && msg@
                        == "MTP target hidden is not initialized"@
                },
            },
    {
        match self.check_slot(slot) {
            Ok(()) => {},
            Err(msg) => return Err(msg),
        }
        if self.transactions[slot].is_none() {
            return Err("MTP draft requires active transaction".to_owned());
        }
        match self.slots[slot].pending_target_hidden {
            Some(h) => Ok(h),
            None => Err("MTP target hidden is not initialized".to_owned()),
        }
    }
}

/// The hidden states that go with the rows of a chunk, one row late.
pub open spec fn shifted_inputs(pending: Option<u64>, target: Seq<u64>) -> Seq<Option<u64>> {
    Seq::new(
        target.len(),
        |i: int|
            if i == 0 {
                pending
            } else {
                Some(target[i - 1])
            },
    )
}

/// The place of a 32-bit float in the total order of floats.
pub open spec fn total_rank(bits: u32) -> int {
    if bits < 0x8000_0000 {
        bits as int
    } else {
        -(bits - 0x8000_0000) - 1
    }
}

/// Whether `best` is the last of the largest logits.
pub open spec fn is_last_max(logits: Seq<u32>, best: int) -> bool {
    &&& 0 <= best < logits.len()
    &&& forall|i: int|
        0 <= i < logits.len() ==> total_rank(#[trigger] logits[i]) <= total_rank(logits[best])
    &&& forall|i: int|
        best < i < logits.len() ==> total_rank(#[trigger] logits[i]) < total_rank(logits[best])
}

fn rank(bits: u32) -> (r: i64)
    ensures
        r == total_rank(bits),
{
    if bits < 0x8000_0000 {
        bits as i64
    } else {
        -((bits - 0x8000_0000) as i64) - 1
    }
}

/// The token with the largest logit, the last one among equals; zero without logits.
pub fn argmax(logits: &[u32]) -> (token: u32)
    requires
        logits@.len() <= u32::MAX,
    ensures
        logits@.len() == 0 ==> token == 0,
        logits@.len() > 0 ==> is_last_max(logits@, token as int),
{
    let n: usize = logits.len();
    if n == 0 {
        return 0;
    }
    let mut best: usize = 0;
    let mut i: usize = 1;
    while i < n
        invariant
            n == logits@.len(),
            1 <= i <= n,
            best < i,
            forall|k: int|
                0 <= k < i ==> total_rank(#[trigger] logits@[k]) <= total_rank(
                    logits@[best as int],
                ),
            forall|k: int|
                best < k < i ==> total_rank(#[trigger] logits@[k]) < total_rank(
                    logits@[best as int],
                ),
        decreases n - i,
    {
        if rank(logits[i]) >= rank(logits[best]) {
            best = i;
        }
        i += 1;
    }
    best as u32
}

/// A draft in progress.
#[derive(Debug)]
pub struct DraftRun {
    pub slot: usize,
    /// Token to feed next.
    pub token: u32,
    /// Hidden state to feed next.
    pub hidden: u64,
    /// Position to feed next.
    pub position: usize,
    /// Tokens still to draft.
    pub remaining: usize,
    pub tokens: Vec<u32>,
}

impl Qwen35Mtp {
    /// Starts drafting `width` tokens behind `first_token`.
    pub fn draft(&self, slot: usize, first_token: u32, start_pos: usize, width: usize) -> (run:
        Result<DraftRun, String>)
        requires
            self.wf(),
        ensures
            match run {
                Ok(r) => {
                    &&& slot < self.slots@.len()
                    &&& saved_state(*self, slot as int) is Some
                    &&& r.slot == slot
                    &&& r.token == first_token
                    &&& state_of(*self, slot as int).pending == Some(r.hidden)
                    &&& r.position == start_pos
                    &&& r.remaining == width
                    &&& r.tokens@ == Seq::<u32>::empty()
                },
                Err(msg) => if slot >= self.slots@.len() {
                    msg@ == no_slot_text(slot as nat)
                } else if saved_state(*self, slot as int) is None {
                    msg@ == "MTP draft requires active transaction"@
                } else {
                    state_of(*self, slot as int).pending is None && msg@
                        == "MTP target hidden is not initialized"@
                },
            },
    {
        let hidden: u64 = match self.draft_start(slot) {
            Ok(h) => h,
            Err(msg) => return Err(msg),
        };
        Ok(
            DraftRun {
                slot,
                token: first_token,
                hidden,
                position: start_pos,
                remaining: width,
                tokens: Vec::new(),
            },
        )
    }

    /// Takes the outcome of one drafting step: the cached row, the hidden state and the
    /// logits of the token that was fed.
    pub fn draft_step(&mut self, run: &mut DraftRun, row: u64, hidden: u64, logits: &[u32])
        requires
            old(self).wf(),
            old(run).slot < old(self).slots@.len(),
            old(run).remaining > 0,
            old(run).position < usize::MAX,
            0 < logits@.len() <= u32::MAX,
        ensures
            final(self).wf(),
            slot_became(
                *final(self),
                *old(self),
                old(run).slot as int,
                with_rows(state_of(*old(self), old(run).slot as int), seq![row]),
                saved_state(*old(self), old(run).slot as int),
            ),
            final(run).slot == old(run).slot,
            is_last_max(logits@, final(run).token as int),
            final(run).hidden == hidden,
            final(run).position == old(run).position + 1,
            final(run).remaining == old(run).remaining - 1,
            final(run).tokens@ == old(run).tokens@.push(final(run).token),
    {
        let mut rows: Vec<u64> = Vec::new();
        rows.push(row);
        assert(rows@ =~= seq![row]);
        self.append_rows(run.slot, &rows);
        let token: u32 = argmax(logits);
        run.token = token;
        run.hidden = hidden;
        run.position = run.position + 1;
        run.remaining = run.remaining - 1;
        run.tokens.push(token);
    }
}

/// Rolling back brings the slot to the state it had when the transaction began,
/// whatever was drafted since.
pub proof fn law_rollback_undoes_drafts(
    before: Qwen35Mtp,
    began: Qwen35Mtp,
    drafted: Qwen35Mtp,
    after: Qwen35Mtp,
    s: int,
    state: SlotState,
)
    requires
        0 <= s < before.slots@.len(),
        slot_became(began, before, s, state_of(before, s), Some(state_of(before, s))),
        slot_became(drafted, began, s, state, saved_state(began, s)),
        slot_became(
            after,
            drafted,
            s,
            match saved_state(drafted, s) {
                Some(saved) => saved,
                None => state_of(drafted, s),
            },
            None,
        ),
    ensures
        state_of(after, s) == state_of(before, s),
        saved_state(after, s) is None,
{
}

/// Committing nothing is rolling back.
pub proof fn law_empty_commit_is_rollback(mtp: Qwen35Mtp, s: int)
    requires
        saved_state(mtp, s) is Some,
    ensures
        commit_failure(mtp, s, 0) is None,
        committed(mtp, s, Seq::empty()) == saved_state(mtp, s)->0,
{
}

/// Committing keeps the rows from before the transaction and then exactly the first
/// verified drafts.
pub proof fn law_commit_keeps_verified(mtp: Qwen35Mtp, s: int, drafts: Seq<u64>, verified: Seq<u64>)
    requires
        saved_state(mtp, s) is Some,
        slot_valid(saved_state(mtp, s)->0),
        state_of(mtp, s) == with_rows(saved_state(mtp, s)->0, drafts),
        0 < verified.len() <= drafts.len(),
        commit_failure(mtp, s, verified.len()) is None,
    ensures
        kept_rows(committed(mtp, s, verified)) == kept_rows(saved_state(mtp, s)->0) + drafts.take(
            verified.len() as int,
        ),
        committed(mtp, s, verified).pending == Some(verified.last()),
{
    assert(kept_rows(committed(mtp, s, verified)) =~= kept_rows(saved_state(mtp, s)->0)
        + drafts.take(verified.len() as int));
}

/// Drafting row by row caches the rows in order.
pub proof fn law_drafts_accumulate(state: SlotState, first: Seq<u64>, second: Seq<u64>)
    ensures
        with_rows(with_rows(state, first), second) == with_rows(state, first + second),
{
    let once = with_rows(state, first);
    assert(kept_rows(once) =~= kept_rows(state) + first);
    assert(kept_rows(once) + second =~= kept_rows(state) + (first + second));
}

/// The inputs of a chunk run one row late: the pending state comes first, and behind it
/// the hidden states of all tokens but the last, in order.
pub proof fn law_inputs_run_one_late(pending: Option<u64>, target: Seq<u64>)
    requires
        target.len() > 0,
    ensures
        shifted_inputs(pending, target).first() == pending,
        shifted_inputs(pending, target).drop_first() == target.drop_last().map_values(
            |h: u64| Some(h),
        ),
{
    assert(shifted_inputs(pending, target).drop_first() =~= target.drop_last().map_values(
        |h: u64| Some(h),
    ));
}

/// Two chunks, the second with the first's last hidden state pending, have the inputs that
/// they have as one chunk.
pub proof fn law_chunk_inputs_join(pending: Option<u64>, first: Seq<u64>, second: Seq<u64>)
    requires
        first.len() > 0,
    ensures
        shifted_inputs(pending, first + second) == shifted_inputs(pending, first) + shifted_inputs(
            Some(first.last()),
            second,
        ),
{
    assert(shifted_inputs(pending, first + second) =~= shifted_inputs(pending, first)
        + shifted_inputs(Some(first.last()), second));
}

/// Rows that are cached go behind those that count, and all of them count then. What is
/// pending stays.
pub proof fn law_cached_rows_follow(state: SlotState, rows: Seq<u64>)
    requires
        slot_valid(state),
    ensures
        kept_rows(with_rows(state, rows)) == kept_rows(state) + rows,
        with_rows(state, rows).kv is Some,
        with_rows(state, rows).kv->0.rows == kept_rows(state) + rows,
        with_rows(state, rows).pending == state.pending,
        slot_valid(with_rows(state, rows)),
        state.kv is None ==> kept_rows(state).len() == 0,
        state.kv is Some ==> kept_rows(state).len() == state.kv->0.len && kept_rows(
            state,
        ).is_prefix_of(state.kv->0.rows),
{
    assert(kept_rows(with_rows(state, rows)) =~= kept_rows(state) + rows);
}

/// When committing fails: without a transaction, or where more was verified than the draft
/// cached behind the rows from before it.
pub proof fn law_commit_needs_cached_drafts(mtp: Qwen35Mtp, s: int, verified: nat)
    requires
        0 <= s < mtp.slots@.len(),
        mtp.wf(),
        verified > 0,
    ensures
        commit_failure(mtp, s, verified) is None <==> {
            &&& saved_state(mtp, s) is Some
            &&& state_of(mtp, s).kv is Some
            &&& kept_rows(saved_state(mtp, s)->0).len() + verified <= usize::MAX
            &&& kept_rows(saved_state(mtp, s)->0).len() + verified
                <= state_of(mtp, s).kv->0.rows.len()
        },
        commit_failure(mtp, s, 0) is None <==> saved_state(mtp, s) is Some,
{
}

/// A commit leaves the buffer alone and counts one row more per verified token than
/// counted before the transaction; the next draft starts from the last verified state.
pub proof fn law_commit_counts_verified(mtp: Qwen35Mtp, s: int, verified: Seq<u64>)
    requires
        0 <= s < mtp.slots@.len(),
        mtp.wf(),
        verified.len() > 0,
        commit_failure(mtp, s, verified.len()) is None,
    ensures
        ({
            let after = committed(mtp, s, verified);
            let rows = state_of(mtp, s).kv->0.rows;
            let n = kept_rows(saved_state(mtp, s)->0).len() + verified.len();
            &&& after.kv is Some
            &&& after.kv->0.rows == rows
            &&& kept_rows(after) == rows.subrange(0, n as int)
            &&& after.pending == Some(verified[verified.len() - 1])
        }),
{
    let n = (kept_rows(saved_state(mtp, s)->0).len() + verified.len()) as int;
    assert(kept_rows(committed(mtp, s, verified)) =~= state_of(mtp, s).kv->0.rows.subrange(0, n));
}

/// The order of logits is that of their values: of two numbers the greater ranks higher,
/// a positive zero above a negative one, and every other difference of bits counts.
/// What is no number ranks above all numbers, or below them where its sign is negative.
pub proof fn law_logits_rank_by_value(a: u32, b: u32)
    ensures
        float_greater(a, b) ==> total_rank(a) > total_rank(b),
        total_rank(a) == total_rank(b) <==> a == b,
        !is_nan(a) && !is_nan(b) && total_rank(a) > total_rank(b) ==> float_greater(a, b) || (a == 0
            && b == 0x8000_0000),
        is_nan(a) && a < 0x8000_0000 && !is_nan(b) ==> total_rank(a) > total_rank(b),
        is_nan(a) && a >= 0x8000_0000 && !is_nan(b) ==> total_rank(a) < total_rank(b),
{
}

/// The chosen token has a logit that no other logit exceeds, and of equal ones it is the
/// last; there is only one such token.
pub proof fn law_choice_is_the_last_greatest(logits: Seq<u32>, best: int, other: int)
    requires
        is_last_max(logits, best),
        0 <= other < logits.len(),
        forall|i: int| 0 <= i < logits.len() ==> !is_nan(#[trigger] logits[i]),
    ensures
        0 <= best < logits.len(),
        !float_greater(logits[other], logits[best]),
        other > best ==> logits[other] != logits[best],
        is_last_max(logits, other) ==> other == best,
{
    law_logits_rank_by_value(logits[other], logits[best]);
}

} // verus!
