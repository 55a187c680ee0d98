//! Captured decode graphs: when a step can run as a graph, where its cached rows lie in
//! the paged pool, and what a capture or a replay leaves.
use crate::adapter::{any_transaction, slot_usable, AdapterSlot, GraphKey, Qwen35BatchAdapter};
use crate::adapter_decode::{slots_exist, DecodeItem};
use crate::adapter_keep::{all_advanced, logits_fit, rows_of, split_logits};
use crate::kernels::same_ids;
use vstd::prelude::*;

verus! {

/// The paged pool's bookkeeping: each slot owns the same number of pages, and the
/// lengths that the device holds are mirrored here.
#[derive(Debug)]
pub struct PagedDecode {
    /// Rows that a slot can hold.
    pub window: usize,
    /// Pages per slot.
    pub max_blocks: usize,
    /// Rows that each slot holds.
    pub kv_len_host: Vec<u32>,
}

impl PagedDecode {
    /// There is a length for each of `n` slots, lengths within the window can be counted,
    /// and pages can be numbered.
    pub open spec fn wf(&self, n: nat) -> bool {
        &&& self.kv_len_host@.len() == n
        &&& self.window <= u32::MAX
        &&& n * self.max_blocks <= u32::MAX
    }
}

/// What comes next before a step can run as a graph.
#[derive(Debug, Clone, Copy, PartialEq, Eq, Structural)]
pub enum Migration {
    /// The pool holds what the step needs.
    Done,
    /// The slot of this item is to be copied into the pool.
    Slot(usize),
    /// The pool has no room or a slot does not exist: the step runs block by block.
    Eager,
}

/// How a step runs.
#[derive(Debug)]
pub enum GraphStep {
    /// Block by block, without a graph.
    Eager,
    /// Once in the open, with a capture behind it.
    Capture(Vec<u32>),
    /// By launching the captured graph.
    Replay(Vec<u32>),
}

/// Whether an item needs something done before a step can run as a graph.
pub open spec fn unsettled(slots: Seq<AdapterSlot>, s: u32) -> bool {
    s >= slots.len() || slots[s as int].paged_dirty
}

/// Whether an item's slot stands where the step continues, with room for one more row.
pub open spec fn in_step(ctx: PagedDecode, s: u32, position: usize) -> bool {
    let len = ctx.kv_len_host@[s as int];
    position == len && len + 1 <= ctx.window
}

/// Whether every item of a step can run as a graph.
pub open spec fn graphable(ctx: PagedDecode, slots: Seq<u32>, positions: Seq<usize>) -> bool {
    forall|i: int| 0 <= i < slots.len() ==> in_step(ctx, #[trigger] slots[i], positions[i])
}

/// The page table of a step: row `i` lists the pages of the slot of item `i`.
pub open spec fn page_table(slots: Seq<u32>, max_blocks: nat) -> Seq<u32> {
    Seq::new(
        slots.len() * max_blocks,
        |p: int| (slots[p / max_blocks as int] * max_blocks + p % max_blocks as int) as u32,
    )
}

/// How often slot `s` occurs among the first `n`.
pub open spec fn occurrences(slots: Seq<u32>, n: nat, s: int) -> nat
    decreases n,
{
    if n == 0 {
        0
    } else {
        occurrences(slots, (n - 1) as nat, s) + if slots[n - 1] == s {
            1nat
        } else {
            0nat
        }
    }
}

/// Whether the captured graph is for other slots, or there is none.
pub open spec fn needs_capture(graph: Option<GraphKey>, slots: Seq<u32>) -> bool {
    match graph {
        None => true,
        Some(key) => key.slots@ != slots,
    }
}

/// Fills one row of a page table.
fn push_pages(table: &mut Vec<u32>, slot: u32, max_blocks: usize, n: usize)
    requires
        slot < n,
        n * max_blocks <= u32::MAX,
    ensures
        final(table)@.len() == old(table)@.len() + max_blocks,
        forall|p: int|
            0 <= p < old(table)@.len() ==> #[trigger] final(table)@[p] == old(table)@[p],
        forall|p: int|
            old(table)@.len() <= p < final(table)@.len() ==> #[trigger] final(table)@[p] == slot
                * max_blocks + (p - old(table)@.len()),
{
    assert(slot * max_blocks + max_blocks <= n * max_blocks) by (nonlinear_arith)
        requires
            slot + 1 <= n,
    ;
    assert(0 <= slot * max_blocks) by (nonlinear_arith);
    let base: u32 = (slot as u64 * max_blocks as u64) as u32;
    let ghost before = table@;
    let mut j: usize = 0;
    while j < max_blocks
        invariant
            j <= max_blocks,
            base == slot * max_blocks,
            base + max_blocks <= u32::MAX,
            table@.len() == before.len() + j,
            forall|p: int| 0 <= p < before.len() ==> #[trigger] table@[p] == before[p],
            forall|p: int|
                before.len() <= p < table@.len() ==> #[trigger] table@[p] == base + (p
                    - before.len()),
        decreases max_blocks - j,
    {
        table.push(base + j as u32);
        j += 1;
    }
}

/// Lays out the page table of a step.
fn lay_pages(slots: &Vec<u32>, max_blocks: usize, n: usize) -> (table: Vec<u32>)
    requires
        forall|i: int| 0 <= i < slots@.len() ==> #[trigger] slots@[i] < n,
        n * max_blocks <= u32::MAX,
    ensures
        table@ == page_table(slots@, max_blocks as nat),
{
    let mut table: Vec<u32> = Vec::new();
    let mut i: usize = 0;
    assert(slots@.take(0).len() * max_blocks == 0) by (nonlinear_arith)
        requires
            slots@.take(0).len() == 0,
    ;
    assert(table@ =~= page_table(slots@.take(0), max_blocks as nat));
    while i < slots.len()
        invariant
            i <= slots@.len(),
            forall|k: int| 0 <= k < slots@.len() ==> #[trigger] slots@[k] < n,
            n * max_blocks <= u32::MAX,
            table@ == page_table(slots@.take(i as int), max_blocks as nat),
        decreases slots@.len() - i,
    {
        let ghost before = table@;
        assert(slots@[i as int] < n);
        push_pages(&mut table, slots[i], max_blocks, n);
        proof {
            lemma_page_table_next(slots@, max_blocks as nat, i as int, before, table@, n as int);
        }
        i += 1;
    }
    assert(slots@.take(slots@.len() as int) =~= slots@);
    table
}

proof fn lemma_page_table_next(
    slots: Seq<u32>,
    mb: nat,
    i: int,
    before: Seq<u32>,
    after: Seq<u32>,
    n: int,
)
    requires
        0 <= i < slots.len(),
        slots[i] < n,
        n * mb <= u32::MAX,
        before == page_table(slots.take(i), mb),
        after.len() == before.len() + mb,
        forall|p: int| 0 <= p < before.len() ==> #[trigger] after[p] == before[p],
        forall|p: int|
            before.len() <= p < after.len() ==> #[trigger] after[p] == slots[i] * mb + (p
                - before.len()),
    ensures
        after == page_table(slots.take(i + 1), mb),
{
    assert(slots.take(i).len() == i);
    assert(before.len() == i * mb);
    assert(i * mb + mb == (i + 1) * mb) by (nonlinear_arith);
    let next = page_table(slots.take(i + 1), mb);
    assert(next.len() == (i + 1) * mb);
    assert forall|p: int| 0 <= p < after.len() implies after[p] == next[p] by {
        if p < i * mb {
            assert(p / (mb as int) < i && 0 <= p / (mb as int)) by (nonlinear_arith)
                requires
                    0 <= p < i * mb,
                    mb > 0,
            ;
            assert(slots.take(i)[p / mb as int] == slots.take(i + 1)[p / mb as int]);
            assert(before[p] == next[p]);
        } else {
            assert(p / mb as int == i && p % mb as int == p - i * mb) by (nonlinear_arith)
                requires
                    i * mb <= p < i * mb + mb,
                    mb > 0,
            ;
            assert(slots.take(i + 1)[i] == slots[i]);
        }
    }
    assert(after =~= next);
}

impl Qwen35BatchAdapter {
    /// Whether a step may run as a graph at all: graphs are wanted, the device has them,
    /// and no transaction needs the hidden states.
    pub fn graph_allowed(&self, is_cuda: bool) -> (yes: bool)
        ensures
            yes == (self.graphs_enabled && is_cuda && !any_transaction(self.slots@)),
    {
        if !self.graphs_enabled || !is_cuda {
            return false;
        }
        let mut i: usize = 0;
        while i < self.slots.len()
            invariant
                i <= self.slots@.len(),
                forall|k: int| 0 <= k < i ==> (#[trigger] self.slots@[k]).transaction is None,
            decreases self.slots@.len() - i,
        {
            if self.slots[i].transaction.is_some() {
                assert(self.slots@[i as int].transaction is Some);
                return false;
            }
            i += 1;
        }
        true
    }

    /// Finds the next item from `from` on whose slot the pool is behind. A pool without room
    /// takes no slot.
    pub fn next_migration(&self, ctx: &PagedDecode, slots: &Vec<u32>, from: usize) -> (next:
        Migration)
        requires
            from <= slots@.len(),
        ensures
            match next {
                Migration::Done => ctx.window > 0 && forall|i: int|
                    from <= i < slots@.len() ==> !unsettled(self.slots@, #[trigger] slots@[i]),
                Migration::Slot(k) => {
                    &&& ctx.window > 0
                    &&& from <= k < slots@.len()
                    &&& slots@[k as int] < self.slots@.len()
                    &&& self.slots@[slots@[k as int] as int].paged_dirty
                    &&& forall|i: int|
                        from <= i < k ==> !unsettled(self.slots@, #[trigger] slots@[i])
                },
                Migration::Eager => ctx.window == 0 || exists|k: int|
                    {
                        &&& from <= k < slots@.len()
                        &&& #[trigger] slots@[k] >= self.slots@.len()
                        &&& forall|i: int|
                            from <= i < k ==> !unsettled(self.slots@, #[trigger] slots@[i])
                    },
            },
    {
        if ctx.window == 0 {
            return Migration::Eager;
        }
        let mut i: usize = from;
        while i < slots.len()
            invariant
                from <= i <= slots@.len(),
                ctx.window > 0,
                forall|k: int| from <= k < i ==> !unsettled(self.slots@, #[trigger] slots@[k]),
            decreases slots@.len() - i,
        {
            let s: usize = slots[i] as usize;
            if s >= self.slots.len() {
                assert(slots@[i as int] >= self.slots@.len());
                return Migration::Eager;
            }
            if self.slots[s].paged_dirty {
                return Migration::Slot(i);
            }
            i += 1;
        }
        Migration::Done
    }

    /// Notes that a slot's rows were copied into the pool. Too many rows for the pool
    /// leave the slot behind: the step runs block by block.
    pub fn migrated(&mut self, ctx: &mut PagedDecode, slot: usize, len: usize) -> (fits: bool)
        requires
            old(self).wf(),
            slot < old(self).slots@.len(),
            old(ctx).wf(old(self).slots@.len()),
        ensures
            final(self).wf(),
            fits == (len <= old(ctx).window),
            !fits ==> *final(self) == *old(self) && *final(ctx) == *old(ctx),
            fits ==> {
                &&& *final(self) == (Qwen35BatchAdapter { slots: final(self).slots, ..*old(self) })
                &&& final(self).slots@ == old(self).slots@.update(
                    slot as int,
                    AdapterSlot { paged_dirty: false, ..old(self).slots@[slot as int] },
                )
                &&& *final(ctx) == (PagedDecode { kv_len_host: final(ctx).kv_len_host, ..*old(ctx) })
                &&& final(ctx).kv_len_host@ == old(ctx).kv_len_host@.update(
                    slot as int,
                    len as u32,
                )
            },
    {
        if len > ctx.window {
            return false;
        }
        let ghost before = self.slots@;
        self.slots[slot].paged_dirty = false;
        assert(self.slots@ =~= before.update(
            slot as int,
            AdapterSlot { paged_dirty: false, ..before[slot as int] },
        ));
        ctx.kv_len_host.set(slot, len as u32);
        proof {
            assert forall|i: int| 0 <= i < self.slots@.len() implies slot_usable(
                self.model,
                #[trigger] self.slots@[i],
                i,
            ) by {
                assert(slot_usable(self.model, before[i], i));
            }
        }
        true
    }

    /// Decides how a step runs once the pool holds what it needs. A capture drops the
    /// graph that was captured before.
    pub fn graph_step(&mut self, ctx: &PagedDecode, slots: &Vec<u32>, positions: &Vec<usize>)
        -> (step: GraphStep)
        requires
            old(self).wf(),
            ctx.wf(old(self).slots@.len()),
            forall|i: int|
                0 <= i < slots@.len() ==> #[trigger] slots@[i] < old(self).slots@.len(),
            positions@.len() == slots@.len(),
        ensures
            final(self).wf(),
            match step {
                GraphStep::Eager => {
                    &&& ctx.window == 0 || !graphable(*ctx, slots@, positions@)
                    &&& *final(self) == *old(self)
                },
                GraphStep::Capture(table) => {
                    &&& ctx.window > 0
                    &&& graphable(*ctx, slots@, positions@)
                    &&& needs_capture(old(self).decode_graph, slots@)
                    &&& table@ == page_table(slots@, ctx.max_blocks as nat)
                    &&& *final(self) == (Qwen35BatchAdapter { decode_graph: None, ..*old(self) })
                },
                GraphStep::Replay(table) => {
                    &&& ctx.window > 0
                    &&& graphable(*ctx, slots@, positions@)
                    &&& !needs_capture(old(self).decode_graph, slots@)
                    &&& table@ == page_table(slots@, ctx.max_blocks as nat)
                    &&& *final(self) == *old(self)
                },
            },
    {
        if ctx.window == 0 {
            return GraphStep::Eager;
        }
        let n: usize = self.slots.len();
        let mut i: usize = 0;
        while i < slots.len()
            invariant
                i <= slots@.len(),
                positions@.len() == slots@.len(),
                ctx.wf(n as nat),
                *self == *old(self),
                self.wf(),
                forall|k: int| 0 <= k < slots@.len() ==> #[trigger] slots@[k] < n,
                forall|k: int|
                    0 <= k < i ==> in_step(*ctx, #[trigger] slots@[k], positions@[k]),
            decreases slots@.len() - i,
        {
            assert(slots@[i as int] < n);
            let len: usize = ctx.kv_len_host[slots[i] as usize] as usize;
            if positions[i] != len || len >= ctx.window {
                assert(!in_step(*ctx, slots@[i as int], positions@[i as int]));
                return GraphStep::Eager;
            }
            i += 1;
        }
        let table = lay_pages(slots, ctx.max_blocks, n);
        let fresh = match &self.decode_graph {
            None => true,
            Some(key) => !same_ids(&key.slots, slots.as_slice()),
        };
        if fresh {
            self.decode_graph = None;
            GraphStep::Capture(table)
        } else {
            GraphStep::Replay(table)
        }
    }

    /// Keeps what a step left that ran in the open for a capture: the logits count, and
    /// the graph is the captured one where the capture succeeded. Without a capture, or
    /// with logits of another number, no more graphs are captured.
    pub fn graph_captured(
        &mut self,
        items: &Vec<DecodeItem>,
        slots: Vec<u32>,
        flat: &Vec<u32>,
        captured: bool,
    ) -> (rows: Result<Vec<Vec<u32>>, String>)
        requires
            old(self).wf(),
            slots_exist(items@, old(self).slots@.len()),
            forall|i: int| 0 <= i < items@.len() ==> (#[trigger] items@[i]).pos < usize::MAX,
            old(self).decode_graph is None,
        ensures
            final(self).wf(),
            graph_kept(
                rows,
                *final(self),
                *old(self),
                items@,
                flat@,
                "graphed logits length mismatch"@,
            ),
            rows is Ok ==> if captured {
                &&& final(self).decode_graph matches Some(key)
                &&& key.slots == slots
                &&& final(self).graphs_enabled == old(self).graphs_enabled
            } else {
                final(self).decode_graph is None && !final(self).graphs_enabled
            },
    {
        let vocab: usize = self.vocab_size();
        if !logits_fit(flat.len(), items.len(), vocab) {
            self.graph_failed();
            return Err("graphed logits length mismatch".to_owned());
        }
        let rows = split_logits(flat, items.len(), vocab);
        self.advance_positions(items);
        if captured {
            self.decode_graph = Some(GraphKey { slots });
        } else {
            self.graphs_enabled = false;
        }
        Ok(rows)
    }

    /// Keeps what a replayed step left.
    pub fn graph_replayed(&mut self, items: &Vec<DecodeItem>, flat: &Vec<u32>) -> (rows: Result<
        Vec<Vec<u32>>,
        String,
    >)
        requires
            old(self).wf(),
            slots_exist(items@, old(self).slots@.len()),
            forall|i: int| 0 <= i < items@.len() ==> (#[trigger] items@[i]).pos < usize::MAX,
        ensures
            final(self).wf(),
            graph_kept(
                rows,
                *final(self),
                *old(self),
                items@,
                flat@,
                "graph logits length mismatch"@,
            ),
            rows is Ok ==> final(self).decode_graph == old(self).decode_graph
                && final(self).graphs_enabled == old(self).graphs_enabled,
    {
        let vocab: usize = self.vocab_size();
        if !logits_fit(flat.len(), items.len(), vocab) {
            self.graph_failed();
            return Err("graph logits length mismatch".to_owned());
        }
        let rows = split_logits(flat, items.len(), vocab);
        self.advance_positions(items);
        Ok(rows)
    }

    /// Gives graphs up after a failure. The step runs block by block instead.
    pub fn graph_failed(&mut self)
        ensures
            *final(self) == (Qwen35BatchAdapter {
                decode_graph: None,
                graphs_enabled: false,
                ..*old(self)
            }),
    {
        self.decode_graph = None;
        self.graphs_enabled = false;
    }
}

/// What keeping a graph step does and returns, but for the graph itself.
pub open spec fn graph_kept(
    rows: Result<Vec<Vec<u32>>, String>,
    after: Qwen35BatchAdapter,
    before: Qwen35BatchAdapter,
    items: Seq<DecodeItem>,
    flat: Seq<u32>,
    refusal: Seq<char>,
) -> bool {
    let vocab = before.vocabulary();
    &&& after == (Qwen35BatchAdapter {
        slots: after.slots,
        decode_graph: after.decode_graph,
        graphs_enabled: after.graphs_enabled,
        ..before
    })
    &&& match rows {
        Ok(all) => {
            &&& all@.len() == items.len()
            &&& rows_of(all@, flat, vocab as nat)
            &&& all_advanced(after.slots@, before.slots@, items)
        },
        Err(msg) => {
            &&& flat.len() != items.len() * vocab
            &&& msg@ == refusal
            &&& after.slots == before.slots
            &&& after.decode_graph is None
            &&& !after.graphs_enabled
        },
    }
}

impl PagedDecode {
    /// Counts the rows that a step wrote.
    pub fn count_rows(&mut self, slots: &Vec<u32>)
        requires
            forall|i: int|
                0 <= i < slots@.len() ==> #[trigger] slots@[i] < old(self).kv_len_host@.len(),
            forall|s: int|
                0 <= s < old(self).kv_len_host@.len() ==> #[trigger] old(self).kv_len_host@[s]
                    + slots@.len() <= u32::MAX,
        ensures
            *final(self) == (PagedDecode { kv_len_host: final(self).kv_len_host, ..*old(self) }),
            final(self).kv_len_host@.len() == old(self).kv_len_host@.len(),
            forall|s: int|
                0 <= s < old(self).kv_len_host@.len() ==> #[trigger] final(self).kv_len_host@[s]
                    == old(self).kv_len_host@[s] + occurrences(slots@, slots@.len(), s),
    {
        let ghost before = self.kv_len_host@;
        let total: usize = slots.len();
        let mut i: usize = 0;
        while i < total
            invariant
                i <= total,
                total == slots@.len(),
                *self == (PagedDecode { kv_len_host: self.kv_len_host, ..*old(self) }),
                self.kv_len_host@.len() == before.len(),
                forall|k: int| 0 <= k < slots@.len() ==> #[trigger] slots@[k] < before.len(),
                forall|s: int|
                    0 <= s < before.len() ==> #[trigger] before[s] + slots@.len() <= u32::MAX,
                forall|s: int|
                    0 <= s < before.len() ==> #[trigger] self.kv_len_host@[s] == before[s]
                        + occurrences(slots@, i as nat, s),
            decreases total - i,
        {
            let s: usize = slots[i] as usize;
            assert(slots@[i as int] < before.len());
            let ghost middle = self.kv_len_host@;
            proof {
                lemma_occurrences_bounded(slots@, i as nat, s as int);
                assert(before[s as int] + slots@.len() <= u32::MAX);
                assert(middle[s as int] == before[s as int] + occurrences(
                    slots@,
                    i as nat,
                    s as int,
                ));
            }
            let len: u32 = self.kv_len_host[s];
            self.kv_len_host.set(s, len + 1);
            proof {
                assert forall|t: int| 0 <= t < before.len() implies #[trigger] self.kv_len_host@[t]
                    == before[t] + occurrences(slots@, (i + 1) as nat, t) by {
                    assert(middle[t] == before[t] + occurrences(slots@, i as nat, t));
                }
            }
            i += 1;
        }
    }
}

proof fn lemma_occurrences_bounded(slots: Seq<u32>, n: nat, s: int)
    ensures
        occurrences(slots, n, s) <= n,
    decreases n,
{
    if n > 0 {
        lemma_occurrences_bounded(slots, (n - 1) as nat, s);
    }
}

proof fn lemma_occurs_once(slots: Seq<u32>, n: nat, k: int)
    requires
        n <= slots.len(),
        0 <= k < slots.len(),
        forall|i: int, j: int| 0 <= i < j < slots.len() ==> slots[i] != slots[j],
    ensures
        occurrences(slots, n, slots[k] as int) == if k < n {
            1nat
        } else {
            0nat
        },
    decreases n,
{
    if n > 0 {
        lemma_occurs_once(slots, (n - 1) as nat, k);
        if k != n - 1 {
            assert(slots[n - 1] != slots[k]);
        }
    }
}

/// Pages belong to one slot: the rows of two items of different slots name no page in
/// common.
pub proof fn law_pages_belong_to_one_slot(slots: Seq<u32>, mb: nat, n: int, p: int, q: int)
    requires
        mb > 0,
        n * mb <= u32::MAX,
        forall|i: int| 0 <= i < slots.len() ==> #[trigger] slots[i] < n,
        0 <= p < page_table(slots, mb).len(),
        0 <= q < page_table(slots, mb).len(),
        slots[p / mb as int] != slots[q / mb as int],
    ensures
        page_table(slots, mb)[p] != page_table(slots, mb)[q],
{
    let total = slots.len() * mb;
    assert(0 <= p / mb as int && p / mb as int * mb + p % mb as int == p && 0 <= p % mb as int
        && p % mb as int <= mb - 1 && p / (mb as int) < slots.len()) by (nonlinear_arith)
        requires
            mb > 0,
            0 <= p < slots.len() * mb,
    ;
    assert(0 <= q / mb as int && q / mb as int * mb + q % mb as int == q && 0 <= q % mb as int
        && q % mb as int <= mb - 1 && q / (mb as int) < slots.len()) by (nonlinear_arith)
        requires
            mb > 0,
            0 <= q < slots.len() * mb,
    ;
    let a = slots[p / mb as int] as int;
    let b = slots[q / mb as int] as int;
    let x = p % mb as int;
    let y = q % mb as int;
    assert(0 <= a * mb + x <= u32::MAX) by (nonlinear_arith)
        requires
            0 <= a < n,
            0 <= x < mb,
            n * mb <= u32::MAX,
    ;
    assert(0 <= b * mb + y <= u32::MAX) by (nonlinear_arith)
        requires
            0 <= b < n,
            0 <= y < mb,
            n * mb <= u32::MAX,
    ;
    assert(a * mb + x != b * mb + y) by (nonlinear_arith)
        requires
            a != b,
            0 <= x < mb,
            0 <= y < mb,
            mb > 0,
    ;
}

/// A graph step leads to the next: over the same distinct slots, one position further,
/// with room left, the next step replays what was captured.
pub proof fn law_next_step_replays(
    ctx: PagedDecode,
    next: PagedDecode,
    slots: Seq<u32>,
    positions: Seq<usize>,
    following: Seq<usize>,
    graph: GraphKey,
)
    requires
        positions.len() == slots.len(),
        following.len() == slots.len(),
        forall|i: int, j: int| 0 <= i < j < slots.len() ==> slots[i] != slots[j],
        forall|i: int| 0 <= i < slots.len() ==> #[trigger] slots[i] < ctx.kv_len_host@.len(),
        graphable(ctx, slots, positions),
        next == (PagedDecode { kv_len_host: next.kv_len_host, ..ctx }),
        next.kv_len_host@.len() == ctx.kv_len_host@.len(),
        forall|s: int|
            0 <= s < ctx.kv_len_host@.len() ==> #[trigger] next.kv_len_host@[s]
                == ctx.kv_len_host@[s] + occurrences(slots, slots.len(), s),
        forall|i: int|
            0 <= i < slots.len() ==> #[trigger] following[i] == positions[i] + 1 && following[i] + 1
                <= ctx.window,
        graph.slots@ == slots,
    ensures
        graphable(next, slots, following),
        !needs_capture(Some(graph), slots),
{
    assert forall|i: int| 0 <= i < slots.len() implies in_step(
        next,
        #[trigger] slots[i],
        following[i],
    ) by {
        lemma_occurs_once(slots, slots.len(), i);
        assert(in_step(ctx, slots[i], positions[i]));
        assert(next.kv_len_host@[slots[i] as int] == ctx.kv_len_host@[slots[i] as int] + 1);
        assert(following[i] == positions[i] + 1);
    }
}

/// The pages of a step's slot are the slot's own, in their order: a slot's pages begin
/// behind those of all the slots before it.
pub proof fn law_pages_follow_their_slot(slots: Seq<u32>, mb: nat, n: int, i: int, b: int)
    requires
        n * mb <= u32::MAX,
        0 <= i < slots.len(),
        slots[i] < n,
        0 <= b < mb,
    ensures
        page_table(slots, mb).len() == slots.len() * mb,
        0 <= i * mb + b < slots.len() * mb,
        page_table(slots, mb)[i * mb + b] == slots[i] * mb + b,
{
    let m = mb as int;
    vstd::arithmetic::div_mod::lemma_fundamental_div_mod_converse(i * m + b, m, i, b);
    assert(i * m + b < slots.len() * m) by (nonlinear_arith)
        requires
            i + 1 <= slots.len(),
            0 <= b < m,
    ;
    assert(0 <= i * m) by (nonlinear_arith)
        requires
            0 <= i,
            0 <= m,
    ;
    assert(slots[i] * m + b < n * m) by (nonlinear_arith)
        requires
            slots[i] + 1 <= n,
            0 <= b < m,
    ;
    assert(0 <= slots[i] * m) by (nonlinear_arith)
        requires
            0 <= m,
    ;
}

/// A slot is counted as often as the step names it: the counts of two parts of a step add
/// up, each place counts once for the slot that it names, and not for another.
pub proof fn law_slots_are_counted_once_per_place(slots: Seq<u32>, m: nat, n: nat, s: int)
    requires
        m <= n <= slots.len(),
    ensures
        occurrences(slots, n, s) == occurrences(slots, m, s) + occurrences(
            slots.skip(m as int),
            (n - m) as nat,
            s,
        ),
        (forall|i: int| 0 <= i < n ==> #[trigger] slots[i] == s) ==> occurrences(slots, n, s) == n,
        (forall|i: int| 0 <= i < n ==> #[trigger] slots[i] != s) ==> occurrences(slots, n, s) == 0,
    decreases n,
{
    if m < n {
        law_slots_are_counted_once_per_place(slots, m, (n - 1) as nat, s);
        assert(slots.skip(m as int)[n - m - 1] == slots[n - 1]);
    } else if n > 0 {
        law_slots_are_counted_once_per_place(slots, 0, (n - 1) as nat, s);
    }
    if n > 0 {
        assert(slots[n - 1] == slots[n - 1]);
    }
}

/// A step may run as a graph only where each token goes behind the rows that its slot has
/// on the device, and there is room for it.
pub proof fn law_graph_steps_go_on(
    ctx: PagedDecode,
    slots: Seq<u32>,
    positions: Seq<usize>,
    i: int,
)
    requires
        0 <= i < slots.len(),
    ensures
        graphable(ctx, slots, positions) ==> positions[i] == ctx.kv_len_host@[slots[i] as int]
            && positions[i] < ctx.window,
        positions[i] != ctx.kv_len_host@[slots[i] as int] || positions[i] >= ctx.window
            ==> !graphable(ctx, slots, positions),
{
    if graphable(ctx, slots, positions) {
        assert(in_step(ctx, slots[i], positions[i]));
    }
}

/// A graph is used again for the very slots that it was captured for, and for no others.
pub proof fn law_graphs_serve_their_slots(graph: Option<GraphKey>, slots: Seq<u32>)
    ensures
        !needs_capture(graph, slots) <==> graph is Some && graph->0.slots@ == slots,
{
}

/// A slot is settled where there is one and its pages are up to date.
pub proof fn law_settled_slots_are_up_to_date(slots: Seq<AdapterSlot>, s: u32)
    ensures
        !unsettled(slots, s) <==> s < slots.len() && !slots[s as int].paged_dirty,
{
}

} // verus!
