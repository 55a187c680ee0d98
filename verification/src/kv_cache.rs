//! Key/value caches of an attention layer: the single-stream cache with its
//! sliding window, and one cache per slot for batched decode.
//!
//! A row stands for the keys and values of one token. It is held by the handle
//! under which the tensor code finds them; handle 0 is a row of zeros.
use crate::text::{decimal, push_decimal};
use vstd::prelude::*;

verus! {

/// Slots that one batched decode step can serve.
pub const DECODE_BATCH_CAPACITY: u32 = 4;

/// Rows by which a cache grows beyond what it needs.
pub const GROWTH: usize = 512;

/// `n` rows of zeros.
pub open spec fn zero_rows(n: nat) -> Seq<u64> {
    Seq::new(n, |i: int| 0u64)
}

/// `dst` with `rows` written from `at` on.
pub open spec fn written(dst: Seq<u64>, rows: Seq<u64>, at: int) -> Seq<u64> {
    Seq::new(
        dst.len(),
        |i: int|
            if at <= i < at + rows.len() {
                rows[i - at]
            } else {
                dst[i]
            },
    )
}

/// `n + 512`, but at most `limit`.
pub open spec fn grown(n: nat, limit: nat) -> nat {
    if n + 512 <= limit {
        n + 512
    } else {
        limit
    }
}

/// The smaller of two numbers.
pub open spec fn min2(a: nat, b: nat) -> nat {
    if a <= b {
        a
    } else {
        b
    }
}

fn smaller(a: usize, b: usize) -> (m: usize)
    ensures
        m == min2(a as nat, b as nat),
{
    if a <= b {
        a
    } else {
        b
    }
}

fn grow_to(n: usize, limit: usize) -> (cap: usize)
    ensures
        cap == grown(n as nat, limit as nat),
{
    if n <= limit && limit - n >= GROWTH {
        n + GROWTH
    } else {
        limit
    }
}

fn make_rows(n: usize) -> (rows: Vec<u64>)
    ensures
        rows@ == zero_rows(n as nat),
{
    let rows: Vec<u64> = vec![0; n];
    assert(rows@ =~= zero_rows(n as nat));
    rows
}

fn write_rows(dst: &mut Vec<u64>, rows: &[u64], at: usize)
    requires
        at + rows@.len() <= old(dst)@.len(),
    ensures
        final(dst)@ == written(old(dst)@, rows@, at as int),
{
    let ghost start = dst@;
    let mut i: usize = 0;
    let n: usize = dst.len();
    assert(dst@ =~= written(start, rows@.take(0), at as int));
    while i < rows.len()
        invariant
            i <= rows@.len(),
            at + rows@.len() <= start.len() == n,
            dst@ == written(start, rows@.take(i as int), at as int),
        decreases rows@.len() - i,
    {
        dst.set(at + i, rows[i]);
        assert(dst@ =~= written(start, rows@.take(i + 1), at as int));
        i += 1;
    }
    assert(rows@.take(rows@.len() as int) =~= rows@);
}

fn copy_prefix(rows: &Vec<u64>, len: usize) -> (copy: Vec<u64>)
    requires
        len <= rows@.len(),
    ensures
        copy@ == rows@.take(len as int),
{
    copy_range(rows, 0, len)
}

fn copy_range(rows: &Vec<u64>, from: usize, to: usize) -> (copy: Vec<u64>)
    requires
        from <= to <= rows@.len(),
    ensures
        copy@ == rows@.subrange(from as int, to as int),
{
    let mut copy: Vec<u64> = Vec::new();
    let mut i: usize = from;
    while i < to
        invariant
            from <= i <= to <= rows@.len(),
            copy@ == rows@.subrange(from as int, i as int),
        decreases to - i,
    {
        copy.push(rows[i]);
        assert(copy@ =~= rows@.subrange(from as int, i + 1));
        i += 1;
    }
    copy
}

/// What the tensor code does to its buffers so that they match the cache.
#[derive(Debug, Clone, Copy, PartialEq, Eq, Structural)]
pub enum KvStep {
    /// The new rows become the buffer.
    Fill,
    /// Rows `1..keep + 1` move to the front and the new row goes behind them.
    Evict { keep: usize },
    /// A buffer of `capacity` rows takes over the old rows; the new ones go to `at`.
    Grow { capacity: usize, at: usize },
    /// The new rows go to `at`.
    Append { at: usize },
}

/// Captured rows of a single-stream cache.
#[derive(Debug)]
pub struct KvCacheSnap {
    pub rows: Vec<u64>,
    pub cache_len: usize,
    /// Bytes of one row's keys; its values take as many.
    pub row_bytes: usize,
}

/// The model of a [`KvCacheSnap`].
pub struct SnapModel {
    pub rows: Seq<u64>,
    pub row_bytes: nat,
}

impl View for KvCacheSnap {
    type V = SnapModel;

    open spec fn view(&self) -> SnapModel {
        SnapModel { rows: self.rows@, row_bytes: self.row_bytes as nat }
    }
}

impl KvCacheSnap {
    /// The snapshot holds exactly the filled rows.
    pub open spec fn wf(&self) -> bool {
        self.cache_len == self.rows@.len()
    }
}

impl Clone for KvCacheSnap {
    fn clone(&self) -> (copy: Self)
        ensures
            copy@ == self@,
            copy.cache_len == self.cache_len,
    {
        assert(self.rows@.take(self.rows@.len() as int) =~= self.rows@);
        KvCacheSnap {
            rows: copy_prefix(&self.rows, self.rows.len()),
            cache_len: self.cache_len,
            row_bytes: self.row_bytes,
        }
    }
}

/// How the rows of a slot's cache are stored.
#[derive(Debug, Clone, Copy, PartialEq, Eq, Structural)]
pub enum KvFormat {
    /// Eight-bit values with a scale per row.
    Q8,
    /// Rows rounded to eight bits and held as 16-bit floats.
    F16,
}

/// The cache of one slot: as many rows as it has room for.
#[derive(Debug)]
pub struct BatchedKvCache {
    pub format: KvFormat,
    pub rows: Vec<u64>,
}

/// The model of a [`BatchedKvCache`].
pub struct SlotCache {
    pub format: KvFormat,
    pub rows: Seq<u64>,
}

impl View for BatchedKvCache {
    type V = SlotCache;

    open spec fn view(&self) -> SlotCache {
        SlotCache { format: self.format, rows: self.rows@ }
    }
}

impl Clone for BatchedKvCache {
    fn clone(&self) -> (copy: Self)
        ensures
            copy@ == self@,
    {
        assert(self.rows@.take(self.rows@.len() as int) =~= self.rows@);
        BatchedKvCache { format: self.format, rows: copy_prefix(&self.rows, self.rows.len()) }
    }
}

impl BatchedKvCache {
    /// An empty cache of the same format.
    pub fn empty_like(&self, cap: usize) -> (cache: Self)
        ensures
            cache@ == (SlotCache { format: self.format, rows: zero_rows(cap as nat) }),
    {
        BatchedKvCache { format: self.format, rows: make_rows(cap) }
    }

    /// Rows that the cache has room for.
    pub fn capacity(&self) -> (cap: usize)
        ensures
            cap == self@.rows.len(),
    {
        self.rows.len()
    }

    /// Copies the first `len` rows to the front of `dst`.
    pub fn copy_prefix_to(&self, dst: &mut Self, len: usize) -> (done: Result<(), String>)
        requires
            len <= self@.rows.len(),
            len <= old(dst)@.rows.len(),
        ensures
            match done {
                Ok(()) => self.format == old(dst).format && final(dst)@ == (SlotCache {
                    format: old(dst).format,
                    rows: written(old(dst)@.rows, self@.rows.take(len as int), 0),
                }),
                Err(msg) => self.format != old(dst).format && final(dst)@ == old(dst)@ && msg@
                    == "KV cache dtype changed while growing"@,
            },
    {
        if self.format != dst.format {
            return Err("KV cache dtype changed while growing".to_owned());
        }
        let prefix = copy_prefix(&self.rows, len);
        write_rows(&mut dst.rows, prefix.as_slice(), 0);
        Ok(())
    }

    /// Writes a row of format `format` at `index`.
    pub fn set_row(&mut self, row: u64, format: KvFormat, index: usize) -> (done: Result<
        (),
        String,
    >)
        requires
            index < old(self)@.rows.len(),
        ensures
            match done {
                Ok(()) => format == old(self).format && final(self)@ == (SlotCache {
                    format: format,
                    rows: old(self)@.rows.update(index as int, row),
                }),
                Err(msg) => format != old(self).format && final(self)@ == old(self)@ && msg@
                    == "KV cache row dtype mismatch"@,
            },
    {
        if self.format != format {
            return Err("KV cache row dtype mismatch".to_owned());
        }
        self.rows.set(index, row);
        Ok(())
    }

    /// Drops the oldest row: rows `1..keep + 1` move to the front, and `row`
    /// goes behind them. What lies further back stays.
    pub fn shift_and_append(&mut self, row: u64, format: KvFormat, keep: usize) -> (done: Result<
        (),
        String,
    >)
        requires
            keep < old(self)@.rows.len(),
        ensures
            match done {
                Ok(()) => {
                    &&& format == old(self).format
                    &&& final(self)@.format == format
                    &&& final(self)@.rows.len() == old(self)@.rows.len()
                    &&& final(self)@.rows.take(keep + 1) == old(self)@.rows.subrange(
                        1,
                        keep + 1,
                    ).push(row)
                    &&& forall|i: int|
                        keep < i < old(self)@.rows.len() ==> #[trigger] final(self)@.rows[i] == old(
                            self,
                        )@.rows[i]
                },
                Err(msg) => format != old(self).format && final(self)@ == old(self)@ && msg@
                    == "KV cache row dtype mismatch"@,
            },
    {
        if self.format != format {
            return Err("KV cache row dtype mismatch".to_owned());
        }
        let len: usize = self.rows.len();
        let kept = copy_range(&self.rows, 1, keep + 1);
        write_rows(&mut self.rows, kept.as_slice(), 0);
        self.rows.set(keep, row);
        assert(self.rows@.take(keep + 1) =~= old(self)@.rows.subrange(1, keep + 1).push(row));
        Ok(())
    }
}

/// Whether a slot's length stays within its cache, of format `format`.
pub open spec fn slot_ok(cache: Option<BatchedKvCache>, len: usize, format: KvFormat) -> bool {
    match cache {
        Some(c) => len <= c@.rows.len() && c.format == format,
        None => len == 0,
    }
}

/// Whether every slot's length stays within its cache, of format `format`.
pub open spec fn slots_ok(
    caches: Seq<Option<BatchedKvCache>>,
    lens: Seq<usize>,
    format: KvFormat,
) -> bool {
    &&& caches.len() == DECODE_BATCH_CAPACITY
    &&& lens.len() == DECODE_BATCH_CAPACITY
    &&& forall|s: int|
        0 <= s < DECODE_BATCH_CAPACITY ==> slot_ok(#[trigger] caches[s], lens[s], format)
}

/// Cache bookkeeping of one attention layer.
#[derive(Debug)]
pub struct GatedAttentionLayer {
    /// The single-stream buffer, as many rows as it has room for.
    pub kv_cache: Option<Vec<u64>>,
    /// Filled rows of the single-stream buffer.
    pub kv_cache_len: usize,
    pub max_cache_len: usize,
    /// Rows that a decode step keeps at most.
    pub attn_window: usize,
    /// One cache per slot.
    pub kv_cache_batched: Vec<Option<BatchedKvCache>>,
    pub use_q8_f16_kv_cache: bool,
    /// Filled rows per slot.
    pub kv_cache_len_batched: Vec<usize>,
    /// Room of the slot cache that was made last.
    pub kv_cache_cap_batched: usize,
    /// Bytes of one row's keys in the single-stream cache.
    pub row_bytes: usize,
}

/// The filled rows of a buffer.
pub open spec fn filled(buffer: Option<Seq<u64>>, len: nat) -> Seq<u64> {
    match buffer {
        Some(rows) => rows.take(len as int),
        None => Seq::empty(),
    }
}

/// The view of an optional buffer.
pub open spec fn buffer_view(buffer: Option<Vec<u64>>) -> Option<Seq<u64>> {
    match buffer {
        Some(rows) => Some(rows@),
        None => None,
    }
}

/// The view of a slot's cache.
pub open spec fn slot_view(cache: Option<BatchedKvCache>) -> Option<SlotCache> {
    match cache {
        Some(c) => Some(c@),
        None => None,
    }
}

/// The single-stream part of an attention layer.
pub struct StreamModel {
    /// Filled rows, oldest first.
    pub rows: Seq<u64>,
    /// Room of the buffer, where there is one.
    pub capacity: Option<nat>,
}

/// One slot of an attention layer.
pub struct SlotModel {
    /// Filled rows, oldest first.
    pub rows: Seq<u64>,
    /// Room of the slot's cache, where there is one.
    pub capacity: Option<nat>,
}

impl GatedAttentionLayer {
    /// The format of this layer's slot caches.
    pub open spec fn format(&self) -> KvFormat {
        if self.use_q8_f16_kv_cache {
            KvFormat::F16
        } else {
            KvFormat::Q8
        }
    }

    /// Lengths stay within buffers, formats are the layer's own, and the window
    /// fits the largest cache.
    pub open spec fn wf(&self) -> bool {
        &&& self.stream_wf()
        &&& self.slots_wf()
        &&& self.attn_window <= self.max_cache_len
    }

    /// The single-stream length stays within its buffer.
    pub open spec fn stream_wf(&self) -> bool {
        match self.kv_cache {
            Some(rows) => self.kv_cache_len <= rows@.len(),
            None => self.kv_cache_len == 0,
        }
    }

    /// Every slot's length stays within its cache, which has the layer's format.
    pub open spec fn slots_wf(&self) -> bool {
        slots_ok(self.kv_cache_batched@, self.kv_cache_len_batched@, self.format())
    }

    /// The single-stream cache.
    pub open spec fn stream(&self) -> StreamModel {
        StreamModel {
            rows: filled(buffer_view(self.kv_cache), self.kv_cache_len as nat),
            capacity: match self.kv_cache {
                Some(rows) => Some(rows@.len()),
                None => None,
            },
        }
    }

    /// The cache of slot `s`.
    pub open spec fn slot(&self, s: int) -> SlotModel {
        match self.kv_cache_batched@[s] {
            Some(c) => SlotModel {
                rows: c@.rows.take(self.kv_cache_len_batched@[s] as int),
                capacity: Some(c@.rows.len()),
            },
            None => SlotModel { rows: Seq::empty(), capacity: None },
        }
    }

    /// Nothing but the single-stream cache differs.
    pub open spec fn same_but_stream(&self, other: &Self) -> bool {
        &&& self.max_cache_len == other.max_cache_len
        &&& self.attn_window == other.attn_window
        &&& self.kv_cache_batched == other.kv_cache_batched
        &&& self.use_q8_f16_kv_cache == other.use_q8_f16_kv_cache
        &&& self.kv_cache_len_batched == other.kv_cache_len_batched
        &&& self.kv_cache_cap_batched == other.kv_cache_cap_batched
        &&& self.row_bytes == other.row_bytes
    }

    /// Nothing but slot `s` differs.
    pub open spec fn same_but_slot(&self, other: &Self, s: int) -> bool {
        &&& self.same_but_slots(other)
        &&& forall|t: int|
            0 <= t < DECODE_BATCH_CAPACITY && t != s ==> self.kv_cache_batched@[t]
                == other.kv_cache_batched@[t] && #[trigger] self.kv_cache_len_batched@[t]
                == other.kv_cache_len_batched@[t]
    }

    /// Nothing but the slots differs.
    pub open spec fn same_but_slots(&self, other: &Self) -> bool {
        &&& self.kv_cache == other.kv_cache
        &&& self.kv_cache_len == other.kv_cache_len
        &&& self.max_cache_len == other.max_cache_len
        &&& self.attn_window == other.attn_window
        &&& self.use_q8_f16_kv_cache == other.use_q8_f16_kv_cache
        &&& self.row_bytes == other.row_bytes
    }

    /// A layer without cached rows.
    pub fn new(context_length: usize, use_q8_f16_kv_cache: bool, row_bytes: usize) -> (layer: Self)
        ensures
            layer.wf(),
            layer.attn_window == context_length,
            layer.max_cache_len == context_length,
            layer.use_q8_f16_kv_cache == use_q8_f16_kv_cache,
            layer.row_bytes == row_bytes,
            layer.stream() == (StreamModel { rows: Seq::empty(), capacity: None }),
            forall|s: int|
                0 <= s < DECODE_BATCH_CAPACITY ==> #[trigger] layer.slot(s) == (SlotModel {
                    rows: Seq::empty(),
                    capacity: None,
                }),
            layer.kv_cache_cap_batched == 0,
    {
        let mut slots: Vec<Option<BatchedKvCache>> = Vec::new();
        let mut lens: Vec<usize> = Vec::new();
        let mut i: usize = 0;
        while i < DECODE_BATCH_CAPACITY as usize
            invariant
                i <= DECODE_BATCH_CAPACITY,
                slots@.len() == i,
                lens@.len() == i,
                forall|s: int| 0 <= s < i ==> (#[trigger] slots@[s]) is None,
                forall|s: int| 0 <= s < i ==> #[trigger] lens@[s] == 0,
            decreases DECODE_BATCH_CAPACITY - i,
        {
            slots.push(None);
            lens.push(0);
            i += 1;
        }
        GatedAttentionLayer {
            kv_cache: None,
            kv_cache_len: 0,
            max_cache_len: context_length,
            attn_window: context_length,
            kv_cache_batched: slots,
            use_q8_f16_kv_cache,
            kv_cache_len_batched: lens,
            kv_cache_cap_batched: 0,
            row_bytes,
        }
    }
}

/// What appending `rows` to a single-stream cache gives: the new cache and what
/// to do to the buffers, or the message of a write beyond the buffer.
pub open spec fn appended(
    stream: StreamModel,
    rows: Seq<u64>,
    window: nat,
    limit: nat,
) -> Result<(StreamModel, KvStep), Seq<char>> {
    let len = stream.rows.len();
    let new_len = len + rows.len();
    match stream.capacity {
        None => Ok((StreamModel { rows, capacity: Some(rows.len()) }, KvStep::Fill)),
        Some(cap) => if rows.len() == 1 && new_len > window {
            // The oldest row leaves; the window stays full.
            Ok(
                (
                    StreamModel {
                        rows: stream.rows.subrange(1, window as int) + rows,
                        capacity: Some(cap),
                    },
                    KvStep::Evict { keep: (window - 1) as usize },
                ),
            )
        } else if new_len > cap {
            let new_cap = grown(new_len, limit);
            if len > new_cap {
                Err(beyond_text(new_cap, len, 0))
            } else if new_len > new_cap {
                Err(beyond_text(new_cap, rows.len(), len))
            } else {
                Ok(
                    (
                        StreamModel { rows: stream.rows + rows, capacity: Some(new_cap) },
                        KvStep::Grow { capacity: new_cap as usize, at: len as usize },
                    ),
                )
            }
        } else {
            Ok(
                (
                    StreamModel { rows: stream.rows + rows, capacity: Some(cap) },
                    KvStep::Append { at: len as usize },
                ),
            )
        },
    }
}

/// The message of a write beyond a buffer.
pub open spec fn beyond_text(capacity: nat, rows: nat, at: nat) -> Seq<char> {
    "shape mismatch on target dim, dst: "@ + decimal(capacity) + ", src: "@ + decimal(rows) + " + "@
        + decimal(at)
}

fn beyond_message(capacity: usize, rows: usize, at: usize) -> (msg: String)
    ensures
        msg@ == beyond_text(capacity as nat, rows as nat, at as nat),
{
    let mut msg = "shape mismatch on target dim, dst: ".to_owned();
    push_decimal(&mut msg, capacity as u64);
    msg.append(", src: ");
    push_decimal(&mut msg, rows as u64);
    msg.append(" + ");
    push_decimal(&mut msg, at as u64);
    msg
}

impl GatedAttentionLayer {
    /// Adds the rows of a forward pass to the single-stream cache. A single row
    /// that exceeds the window drives out the oldest; a longer prefill grows the
    /// buffer, at most to `max_cache_len`.
    pub fn append(&mut self, rows: Vec<u64>) -> (step: Result<KvStep, String>)
        requires
            old(self).wf(),
            old(self).kv_cache_len + rows@.len() <= usize::MAX,
            old(self).attn_window > 0 || old(self).kv_cache is None || rows@.len() != 1,
        ensures
            final(self).wf(),
            final(self).same_but_stream(old(self)),
            match step {
                Ok(s) => appended(
                    old(self).stream(),
                    rows@,
                    old(self).attn_window as nat,
                    old(self).max_cache_len as nat,
                ) == Ok::<(StreamModel, KvStep), Seq<char>>((final(self).stream(), s)),
                Err(msg) => appended(
                    old(self).stream(),
                    rows@,
                    old(self).attn_window as nat,
                    old(self).max_cache_len as nat,
                ) == Err::<(StreamModel, KvStep), Seq<char>>(msg@) && *final(self) == *old(self),
            },
    {
        let seq_len: usize = rows.len();
        let len: usize = self.kv_cache_len;
        let ghost before = self.stream();
        let mut buffer = match self.kv_cache.take() {
            None => {
                self.kv_cache_len = seq_len;
                self.kv_cache = Some(rows);
                assert(self.stream().rows =~= rows@);
                return Ok(KvStep::Fill);
            },
            Some(buffer) => buffer,
        };
        let new_len: usize = len + seq_len;
        let cap: usize = buffer.len();
        let ghost held = buffer@;
        if seq_len == 1 && new_len > self.attn_window {
            let keep: usize = self.attn_window - 1;
            let kept = copy_range(&buffer, 1, keep + 1);
            write_rows(&mut buffer, kept.as_slice(), 0);
            write_rows(&mut buffer, rows.as_slice(), keep);
            self.kv_cache_len = self.attn_window;
            self.kv_cache = Some(buffer);
            proof {
                assert(before.rows =~= held.take(len as int));
                assert(self.stream().rows =~= before.rows.subrange(1, keep + 1) + rows@);
            }
            Ok(KvStep::Evict { keep })
        } else if new_len > cap {
            let new_cap = grow_to(new_len, self.max_cache_len);
            if len > new_cap {
                self.kv_cache = Some(buffer);
                return Err(beyond_message(new_cap, len, 0));
            }
            if new_len > new_cap {
                self.kv_cache = Some(buffer);
                return Err(beyond_message(new_cap, seq_len, len));
            }
            let mut next = make_rows(new_cap);
            let prefix = copy_prefix(&buffer, len);
            write_rows(&mut next, prefix.as_slice(), 0);
            write_rows(&mut next, rows.as_slice(), len);
            self.kv_cache_len = new_len;
            self.kv_cache = Some(next);
            proof {
                assert(self.stream().rows =~= before.rows + rows@);
            }
            Ok(KvStep::Grow { capacity: new_cap, at: len })
        } else {
            write_rows(&mut buffer, rows.as_slice(), len);
            self.kv_cache_len = new_len;
            self.kv_cache = Some(buffer);
            proof {
                assert(self.stream().rows =~= before.rows + rows@);
            }
            Ok(KvStep::Append { at: len })
        }
    }
}

/// The room that a request for `total` rows gets.
pub open spec fn capped(total: nat, window: nat, limit: nat) -> nat {
    min2(min2(total, limit), window)
}

/// A stream without cached rows or buffer.
pub open spec fn empty_stream() -> StreamModel {
    StreamModel { rows: Seq::empty(), capacity: None }
}

/// A slot without cached rows or buffer.
pub open spec fn empty_slot() -> SlotModel {
    SlotModel { rows: Seq::empty(), capacity: None }
}

/// A stream cut to its first `len` rows, where it is longer.
pub open spec fn truncated(stream: StreamModel, len: nat) -> StreamModel {
    if stream.rows.len() > len {
        StreamModel { rows: stream.rows.take(len as int), ..stream }
    } else {
        stream
    }
}

/// A stream cut to its last `window` rows, where it is longer.
pub open spec fn windowed(stream: StreamModel, window: nat) -> StreamModel {
    if stream.rows.len() > window {
        StreamModel { rows: stream.rows.skip(stream.rows.len() - window), ..stream }
    } else {
        stream
    }
}

/// A stream with room for `total` rows, as far as the limits allow, and its
/// rows as they were.
pub open spec fn reserved(stream: StreamModel, total: nat, window: nat, limit: nat) -> StreamModel {
    match stream.capacity {
        None => StreamModel { capacity: Some(capped(total, window, limit)), ..stream },
        Some(cap) => if cap >= capped(total, window, limit) {
            stream
        } else {
            StreamModel { capacity: Some(capped(total, window, limit)), ..stream }
        },
    }
}

/// What a snapshot of a stream holds.
pub open spec fn stream_snap(stream: StreamModel, row_bytes: nat) -> Option<SnapModel> {
    if stream.rows.len() == 0 {
        None
    } else {
        Some(SnapModel { rows: stream.rows, row_bytes })
    }
}

/// The stream that a snapshot gives back: its rows, without spare room.
pub open spec fn restored_stream(snap: Option<SnapModel>) -> StreamModel {
    match snap {
        Some(s) => StreamModel { rows: s.rows, capacity: Some(s.rows.len()) },
        None => empty_stream(),
    }
}

/// The slot that a snapshot seeds: its rows, without spare room.
pub open spec fn seeded_slot(snap: Option<SnapModel>) -> SlotModel {
    match snap {
        Some(s) => SlotModel { rows: s.rows, capacity: Some(s.rows.len()) },
        None => empty_slot(),
    }
}

/// The view of an optional snapshot.
pub open spec fn snap_view(snap: Option<KvCacheSnap>) -> Option<SnapModel> {
    match snap {
        Some(s) => Some(s@),
        None => None,
    }
}

/// Whether an optional snapshot holds exactly its filled rows.
pub open spec fn snap_wf(snap: Option<KvCacheSnap>) -> bool {
    snap is Some ==> snap->0.wf()
}

impl GatedAttentionLayer {
    /// Drops the single-stream cache. The slots stay: others may be decoding.
    pub fn clear_stream(&mut self)
        requires
            old(self).wf(),
        ensures
            final(self).wf(),
            final(self).same_but_stream(old(self)),
            final(self).stream() == empty_stream(),
    {
        self.kv_cache = None;
        self.kv_cache_len = 0;
    }

    /// Rolls the single-stream cache back to its first `new_len` rows.
    pub fn truncate(&mut self, new_len: usize)
        requires
            old(self).wf(),
        ensures
            final(self).wf(),
            final(self).same_but_stream(old(self)),
            final(self).stream() == truncated(old(self).stream(), new_len as nat),
    {
        if self.kv_cache_len > new_len {
            self.kv_cache_len = new_len;
        }
        assert(self.stream().rows =~= truncated(old(self).stream(), new_len as nat).rows);
    }

    /// Cuts the single-stream cache to its last `attn_window` rows.
    pub fn truncate_to_window(&mut self)
        requires
            old(self).wf(),
        ensures
            final(self).wf(),
            final(self).same_but_stream(old(self)),
            final(self).stream() == windowed(old(self).stream(), old(self).attn_window as nat),
    {
        if self.kv_cache_len > self.attn_window {
            let drop: usize = self.kv_cache_len - self.attn_window;
            if let Some(mut buffer) = self.kv_cache.take() {
                let tail = copy_range(&buffer, drop, self.kv_cache_len);
                write_rows(&mut buffer, tail.as_slice(), 0);
                self.kv_cache = Some(buffer);
                self.kv_cache_len = self.attn_window;
            }
        }
        assert(self.stream().rows =~= windowed(
            old(self).stream(),
            old(self).attn_window as nat,
        ).rows);
    }

    /// Makes an empty single-stream buffer for `total_len` rows.
    pub fn pre_allocate(&mut self, total_len: usize)
        requires
            old(self).wf(),
        ensures
            final(self).wf(),
            final(self).same_but_stream(old(self)),
            final(self).stream() == (StreamModel {
                rows: Seq::empty(),
                capacity: Some(
                    capped(
                        total_len as nat,
                        old(self).attn_window as nat,
                        old(self).max_cache_len as nat,
                    ),
                ),
            }),
    {
        let room = smaller(smaller(total_len, self.max_cache_len), self.attn_window);
        self.kv_cache = Some(make_rows(room));
        self.kv_cache_len = 0;
        assert(self.stream().rows =~= Seq::empty());
    }

    /// Makes room for `total_len` rows and keeps the cached ones.
    pub fn reserve(&mut self, total_len: usize)
        requires
            old(self).wf(),
        ensures
            final(self).wf(),
            final(self).same_but_stream(old(self)),
            final(self).stream() == reserved(
                old(self).stream(),
                total_len as nat,
                old(self).attn_window as nat,
                old(self).max_cache_len as nat,
            ),
    {
        let room = smaller(smaller(total_len, self.max_cache_len), self.attn_window);
        let len: usize = self.kv_cache_len;
        match self.kv_cache.take() {
            None => {
                self.kv_cache = Some(make_rows(room));
            },
            Some(buffer) => {
                if buffer.len() >= room {
                    self.kv_cache = Some(buffer);
                } else {
                    let mut next = make_rows(room);
                    if len > 0 {
                        let prefix = copy_prefix(&buffer, len);
                        write_rows(&mut next, prefix.as_slice(), 0);
                    }
                    self.kv_cache = Some(next);
                }
            },
        }
        assert(self.stream().rows =~= old(self).stream().rows);
    }

    /// Captures the filled rows of the single-stream cache.
    pub fn snapshot_kv(&self) -> (snap: Option<KvCacheSnap>)
        requires
            self.wf(),
        ensures
            snap_view(snap) == stream_snap(self.stream(), self.row_bytes as nat),
            snap_wf(snap),
    {
        if self.kv_cache_len == 0 {
            return None;
        }
        match &self.kv_cache {
            None => None,
            Some(buffer) => Some(
                KvCacheSnap {
                    rows: copy_prefix(buffer, self.kv_cache_len),
                    cache_len: self.kv_cache_len,
                    row_bytes: self.row_bytes,
                },
            ),
        }
    }

    /// Puts captured rows back; without a snapshot the cache becomes empty.
    pub fn restore_kv(&mut self, snap: &Option<KvCacheSnap>)
        requires
            old(self).wf(),
            snap_wf(*snap),
        ensures
            final(self).wf(),
            final(self).same_but_stream(old(self)),
            final(self).stream() == restored_stream(snap_view(*snap)),
    {
        match snap {
            Some(s) => {
                let rows = copy_prefix(&s.rows, s.rows.len());
                self.kv_cache = Some(rows);
                self.kv_cache_len = s.cache_len;
                assert(self.stream().rows =~= s.rows@);
            },
            None => {
                self.kv_cache = None;
                self.kv_cache_len = 0;
            },
        }
    }

    /// Puts captured rows into slot `slot`; without a snapshot the slot becomes empty.
    pub fn seed_slot(&mut self, slot: usize, snap: &Option<KvCacheSnap>)
        requires
            old(self).wf(),
            slot < DECODE_BATCH_CAPACITY,
            snap_wf(*snap),
        ensures
            final(self).wf(),
            final(self).same_but_slot(old(self), slot as int),
            final(self).kv_cache_cap_batched == old(self).kv_cache_cap_batched,
            final(self).slot(slot as int) == seeded_slot(snap_view(*snap)),
    {
        match snap {
            Some(s) => {
                let rows = copy_prefix(&s.rows, s.rows.len());
                let format = if self.use_q8_f16_kv_cache {
                    KvFormat::F16
                } else {
                    KvFormat::Q8
                };
                self.kv_cache_batched.set(slot, Some(BatchedKvCache { format, rows }));
                self.kv_cache_len_batched.set(slot, s.cache_len);
                assert(self.slot(slot as int).rows =~= s.rows@);
            },
            None => {
                self.kv_cache_batched.set(slot, None);
                self.kv_cache_len_batched.set(slot, 0);
            },
        }
    }

    /// Captures the cache of slot `slot` with its length.
    pub fn checkpoint_slot(&self, slot: usize) -> (saved: (Option<BatchedKvCache>, usize))
        requires
            self.wf(),
            slot < DECODE_BATCH_CAPACITY,
        ensures
            slot_view(saved.0) == slot_view(self.kv_cache_batched@[slot as int]),
            saved.1 == self.kv_cache_len_batched@[slot as int],
            saved_slot(saved.0, saved.1) == self.slot(slot as int),
            slot_ok(saved.0, saved.1, self.format()),
    {
        assert(slot_ok(
            self.kv_cache_batched@[slot as int],
            self.kv_cache_len_batched@[slot as int],
            self.format(),
        ));
        let cache = match &self.kv_cache_batched[slot] {
            Some(c) => Some(c.clone()),
            None => None,
        };
        (cache, self.kv_cache_len_batched[slot])
    }

    /// Puts a captured cache back into slot `slot`.
    pub fn restore_slot(&mut self, slot: usize, cache: &Option<BatchedKvCache>, len: usize)
        requires
            old(self).wf(),
            slot < DECODE_BATCH_CAPACITY,
            slot_ok(*cache, len, old(self).format()),
        ensures
            final(self).wf(),
            final(self).same_but_slot(old(self), slot as int),
            final(self).kv_cache_cap_batched == old(self).kv_cache_cap_batched,
            final(self).slot(slot as int) == saved_slot(*cache, len),
    {
        let copy = match cache {
            Some(c) => Some(c.clone()),
            None => None,
        };
        self.kv_cache_batched.set(slot, copy);
        self.kv_cache_len_batched.set(slot, len);
    }

    /// Drops the caches of all slots. The single-stream cache stays.
    pub fn clear_slots(&mut self)
        requires
            old(self).wf(),
        ensures
            final(self).wf(),
            final(self).same_but_slots(old(self)),
            final(self).kv_cache_cap_batched == 0,
            forall|s: int|
                0 <= s < DECODE_BATCH_CAPACITY ==> #[trigger] final(self).slot(s) == empty_slot(),
    {
        let mut slot: usize = 0;
        while slot < DECODE_BATCH_CAPACITY as usize
            invariant
                slot <= DECODE_BATCH_CAPACITY,
                self.wf(),
                self.same_but_slots(old(self)),
                forall|s: int|
                    0 <= s < slot ==> (#[trigger] self.kv_cache_batched@[s]) is None,
            decreases DECODE_BATCH_CAPACITY - slot,
        {
            self.kv_cache_batched.set(slot, None);
            self.kv_cache_len_batched.set(slot, 0);
            slot += 1;
        }
        self.kv_cache_cap_batched = 0;
    }
}

/// The slot that a captured cache and length stand for.
pub open spec fn saved_slot(cache: Option<BatchedKvCache>, len: usize) -> SlotModel {
    match cache {
        Some(c) => SlotModel { rows: c@.rows.take(len as int), capacity: Some(c@.rows.len()) },
        None => empty_slot(),
    }
}

/// Restoring a snapshot brings the cached rows back.
pub proof fn law_kv_round_trip(stream: StreamModel, row_bytes: nat)
    requires
        stream.capacity is None ==> stream.rows.len() == 0,
    ensures
        restored_stream(stream_snap(stream, row_bytes)).rows == stream.rows,
{
    assert(stream.rows.len() == 0 ==> stream.rows =~= Seq::empty());
}

/// Making room changes no cached row.
pub proof fn law_reserve_keeps_rows(stream: StreamModel, total: nat, window: nat, limit: nat)
    ensures
        reserved(stream, total, window, limit).rows == stream.rows,
        reserved(stream, total, window, limit).capacity is Some,
        reserved(stream, total, window, limit).capacity->0 >= capped(total, window, limit),
        reserved(reserved(stream, total, window, limit), total, window, limit) == reserved(
            stream,
            total,
            window,
            limit,
        ),
{
}

/// A reserved buffer takes the rows that it was made for without growing.
pub proof fn law_reserve_avoids_growth(
    stream: StreamModel,
    rows: Seq<u64>,
    total: nat,
    window: nat,
    limit: nat,
)
    requires
        rows.len() > 1,
        stream.rows.len() + rows.len() <= total,
        total <= window,
        total <= limit,
    ensures
        appended(reserved(stream, total, window, limit), rows, window, limit) matches Ok((s, step))
            ==> step is Append && s.rows == stream.rows + rows,
        appended(reserved(stream, total, window, limit), rows, window, limit) is Ok,
{
}

/// Decoding token by token never makes a stream longer than the window once it
/// fits, and in a full window only the oldest row leaves.
pub proof fn law_decode_stays_in_window(stream: StreamModel, row: u64, window: nat, limit: nat)
    requires
        0 < window <= limit,
        stream.rows.len() <= window,
        stream.capacity is Some ==> stream.rows.len() <= stream.capacity->0,
        stream.capacity is None ==> stream.rows.len() == 0,
    ensures
        appended(stream, seq![row], window, limit) is Ok,
        ({
            let next = appended(stream, seq![row], window, limit)->Ok_0.0;
            &&& next.rows.len() <= window
            &&& next.rows.last() == row
            &&& stream.rows.len() < window ==> next.rows == stream.rows.push(row)
            &&& stream.rows.len() == window ==> next.rows == stream.rows.drop_first().push(row)
        }),
{
    let next = appended(stream, seq![row], window, limit);
    if stream.rows.len() < window {
        assert(stream.rows + seq![row] =~= stream.rows.push(row));
        if stream.rows.len() == 0 {
            assert(seq![row] =~= stream.rows.push(row));
        }
    } else {
        assert(stream.rows.subrange(1, window as int) + seq![row]
            =~= stream.rows.drop_first().push(row));
    }
}

/// Rows that a pass adds go behind those that are cached, in their order, and all rows
/// stay: only a single row that exceeds the window drives one out. A buffer that is too
/// small grows by 512 rows more than is needed, as far as the limit allows; only beyond the
/// limit is a pass refused.
pub proof fn law_a_pass_appends_its_rows(
    stream: StreamModel,
    rows: Seq<u64>,
    window: nat,
    limit: nat,
)
    requires
        window <= limit <= usize::MAX,
        stream.capacity is None ==> stream.rows.len() == 0,
        stream.capacity is Some ==> stream.rows.len() <= stream.capacity->0 <= usize::MAX,
        rows.len() != 1 || stream.capacity is None || stream.rows.len() < window,
    ensures
        ({
            let total = stream.rows.len() + rows.len();
            let outcome = appended(stream, rows, window, limit);
            &&& outcome is Ok <==> (stream.capacity is None || total <= stream.capacity->0 || total
                <= limit)
            &&& outcome matches Ok((next, step)) ==> {
                &&& next.rows.len() == total
                &&& next.rows.subrange(0, stream.rows.len() as int) == stream.rows
                &&& next.rows.subrange(stream.rows.len() as int, total as int) == rows
                &&& next.capacity is Some && total <= next.capacity->0
                &&& stream.capacity is Some && total <= stream.capacity->0 ==> next.capacity
                    == stream.capacity
                &&& stream.capacity is Some && total > stream.capacity->0 ==> next.capacity->0 == (
                if total + 512 <= limit {
                    total + 512
                } else {
                    limit
                })
                &&& stream.capacity is None ==> next.capacity->0 == rows.len() && step is Fill
                &&& step matches KvStep::Append { at } ==> at == stream.rows.len()
                &&& step matches KvStep::Grow { capacity, at } ==> at == stream.rows.len()
                    && capacity == next.capacity->0
                &&& !(step is Evict)
            }
        }),
{
    let total = (stream.rows.len() + rows.len()) as int;
    let joined = stream.rows + rows;
    assert(joined.subrange(0, stream.rows.len() as int) =~= stream.rows);
    assert(joined.subrange(stream.rows.len() as int, total) =~= rows);
    if stream.capacity is None {
        assert(rows.subrange(0, 0) =~= stream.rows);
        assert(rows.subrange(0, total) =~= rows);
    }
}

/// Rolling a stream back to the rows it had undoes the passes since: what they added is
/// gone, and what was there is as it was.
pub proof fn law_truncating_undoes_a_pass(
    stream: StreamModel,
    rows: Seq<u64>,
    window: nat,
    limit: nat,
)
    requires
        window <= limit <= usize::MAX,
        stream.capacity is None ==> stream.rows.len() == 0,
        stream.capacity is Some ==> stream.rows.len() <= stream.capacity->0 <= usize::MAX,
        rows.len() != 1 || stream.capacity is None || stream.rows.len() < window,
        appended(stream, rows, window, limit) is Ok,
    ensures
        truncated(appended(stream, rows, window, limit)->Ok_0.0, stream.rows.len()).rows
            == stream.rows,
{
    law_a_pass_appends_its_rows(stream, rows, window, limit);
    let next = appended(stream, rows, window, limit)->Ok_0.0;
    law_truncating_keeps_the_first_rows(next, stream.rows.len());
    assert(truncated(next, stream.rows.len()).rows =~= next.rows.subrange(
        0,
        stream.rows.len() as int,
    ));
}

/// Truncating keeps the first rows and the buffer, and never adds a row.
pub proof fn law_truncating_keeps_the_first_rows(stream: StreamModel, len: nat)
    ensures
        ({
            let cut = truncated(stream, len);
            &&& cut.rows.len() == (if len < stream.rows.len() {
                len
            } else {
                stream.rows.len()
            })
            &&& forall|i: int| 0 <= i < cut.rows.len() ==> #[trigger] cut.rows[i] == stream.rows[i]
            &&& cut.capacity == stream.capacity
        }),
{
}

/// Cutting to the window keeps the last rows, in their order, and the buffer.
pub proof fn law_the_window_keeps_the_last_rows(stream: StreamModel, window: nat)
    ensures
        ({
            let cut = windowed(stream, window);
            let dropped = stream.rows.len() - cut.rows.len();
            &&& cut.rows.len() == (if window < stream.rows.len() {
                window
            } else {
                stream.rows.len()
            })
            &&& forall|i: int|
                0 <= i < cut.rows.len() ==> #[trigger] cut.rows[i] == stream.rows[i + dropped]
            &&& cut.capacity == stream.capacity
        }),
{
}

/// A request gets the room it asks for, but no more than the limit or the window.
pub proof fn law_room_is_capped(total: nat, window: nat, limit: nat)
    ensures
        capped(total, window, limit) <= total,
        capped(total, window, limit) <= window,
        capped(total, window, limit) <= limit,
        capped(total, window, limit) == total || capped(total, window, limit) == window || capped(
            total,
            window,
            limit,
        ) == limit,
{
}

/// A slot that is seeded from a stream's snapshot, and a stream that is restored from it,
/// hold exactly the stream's rows, with no room to spare. An empty stream leaves nothing.
pub proof fn law_snapshots_seed_and_restore_alike(stream: StreamModel, row_bytes: nat)
    requires
        stream.capacity is None ==> stream.rows.len() == 0,
    ensures
        seeded_slot(stream_snap(stream, row_bytes)).rows == stream.rows,
        restored_stream(stream_snap(stream, row_bytes)).rows == stream.rows,
        seeded_slot(stream_snap(stream, row_bytes)).capacity == restored_stream(
            stream_snap(stream, row_bytes),
        ).capacity,
        stream.rows.len() == 0 <==> stream_snap(stream, row_bytes) is None,
        stream.rows.len() > 0 ==> restored_stream(stream_snap(stream, row_bytes)).capacity == Some(
            stream.rows.len(),
        ),
        stream.rows.len() == 0 ==> restored_stream(stream_snap(stream, row_bytes)).capacity is None,
        stream_snap(stream, row_bytes) matches Some(snap) ==> snap.row_bytes == row_bytes,
{
    assert(stream.rows.len() == 0 ==> stream.rows =~= Seq::empty());
}

/// Writing rows into a buffer changes those places only.
pub proof fn law_writes_stay_in_place(dst: Seq<u64>, rows: Seq<u64>, at: int)
    requires
        0 <= at,
        at + rows.len() <= dst.len(),
    ensures
        written(dst, rows, at) == dst.take(at) + rows + dst.skip(at + rows.len()),
{
    assert(written(dst, rows, at) =~= dst.take(at) + rows + dst.skip(at + rows.len()));
}

/// A new buffer's rows are all zero, as many as asked for.
pub proof fn law_new_rows_are_zero(n: nat, i: int)
    ensures
        zero_rows(n).len() == n,
        0 <= i < n ==> zero_rows(n)[i] == 0,
{
}

/// A buffer grows by 512 rows, as far as the limit goes.
pub proof fn law_buffers_grow_in_steps(n: nat, limit: nat)
    requires
        n <= limit,
    ensures
        n <= grown(n, limit) <= limit,
        n + 512 <= limit ==> grown(n, limit) == n + 512,
        grown(n, limit) == n <==> n == limit,
{
}

} // verus!
