//! Recurrent state of a DeltaNet layer: the convolution window and the state
//! matrices. Elements are 32-bit floats held by their bits; zero bits are 0.0.
use vstd::prelude::*;

verus! {

/// `n` zeros.
pub open spec fn zero_bits(n: nat) -> Seq<u32> {
    Seq::new(n, |i: int| 0u32)
}

/// Makes `n` zeros.
pub fn zeros(n: usize) -> (v: Vec<u32>)
    ensures
        v@ == zero_bits(n as nat),
{
    let v: Vec<u32> = vec![0; n];
    assert(v@ =~= zero_bits(n as nat));
    v
}

/// Copies a vector.
pub fn copy_bits(v: &Vec<u32>) -> (copy: Vec<u32>)
    ensures
        copy@ == v@,
{
    let copy = v.clone();
    assert(copy@ =~= v@);
    copy
}

/// State of a DeltaNet layer.
#[derive(Debug)]
pub struct DeltaNetState {
    /// The last `conv_kernel - 1` inputs, oldest first, each of `channels` elements.
    pub conv_buf: Vec<u32>,
    /// One `head_v_dim` by `head_v_dim` matrix per value head, row by row.
    pub ssm_state: Vec<u32>,
    pub conv_kernel: usize,
    pub channels: usize,
    pub n_v_heads: usize,
    pub head_v_dim: usize,
}

/// What a snapshot keeps of a [`DeltaNetState`].
#[derive(Debug)]
pub struct DeltaNetStateSnap {
    pub conv_buf: Vec<u32>,
    pub ssm_state: Vec<u32>,
}

/// The data of a state or snapshot.
pub struct DeltaData {
    pub conv: Seq<u32>,
    pub ssm: Seq<u32>,
}

/// The shape of a DeltaNet layer's state.
pub struct DeltaShape {
    pub conv_kernel: nat,
    pub channels: nat,
    pub n_v_heads: nat,
    pub head_v_dim: nat,
}

impl DeltaShape {
    /// Elements of the convolution window.
    pub open spec fn conv_len(self) -> nat {
        ((self.conv_kernel - 1) * self.channels) as nat
    }

    /// Elements of the state matrices.
    pub open spec fn ssm_len(self) -> nat {
        self.n_v_heads * self.head_v_dim * self.head_v_dim
    }
}

impl View for DeltaNetState {
    type V = DeltaData;

    open spec fn view(&self) -> DeltaData {
        DeltaData { conv: self.conv_buf@, ssm: self.ssm_state@ }
    }
}

impl View for DeltaNetStateSnap {
    type V = DeltaData;

    open spec fn view(&self) -> DeltaData {
        DeltaData { conv: self.conv_buf@, ssm: self.ssm_state@ }
    }
}

impl Clone for DeltaNetStateSnap {
    fn clone(&self) -> (copy: Self)
        ensures
            copy@ == self@,
    {
        DeltaNetStateSnap {
            conv_buf: copy_bits(&self.conv_buf),
            ssm_state: copy_bits(&self.ssm_state),
        }
    }
}

/// The data of an untouched state.
pub open spec fn fresh_data(shape: DeltaShape) -> DeltaData {
    DeltaData { conv: zero_bits(shape.conv_len()), ssm: zero_bits(shape.ssm_len()) }
}

/// Whether data fits a shape.
pub open spec fn data_fits(data: DeltaData, shape: DeltaShape) -> bool {
    data.conv.len() == shape.conv_len() && data.ssm.len() == shape.ssm_len()
}

impl DeltaNetState {
    /// The state's shape.
    pub open spec fn shape(&self) -> DeltaShape {
        DeltaShape {
            conv_kernel: self.conv_kernel as nat,
            channels: self.channels as nat,
            n_v_heads: self.n_v_heads as nat,
            head_v_dim: self.head_v_dim as nat,
        }
    }

    /// The data fits the shape.
    pub open spec fn wf(&self) -> bool {
        self.conv_kernel >= 1 && data_fits(self@, self.shape())
    }

    /// A state of zeros.
    pub fn new(conv_kernel: usize, channels: usize, n_v_heads: usize, head_v_dim: usize) -> (state:
        Self)
        requires
            conv_kernel >= 1,
            (conv_kernel - 1) * channels <= usize::MAX,
            n_v_heads * head_v_dim * head_v_dim <= usize::MAX,
        ensures
            state.wf(),
            state.shape() == (DeltaShape {
                conv_kernel: conv_kernel as nat,
                channels: channels as nat,
                n_v_heads: n_v_heads as nat,
                head_v_dim: head_v_dim as nat,
            }),
            state@ == fresh_data(state.shape()),
    {
        if head_v_dim == 0 {
            assert(n_v_heads * head_v_dim == 0) by (nonlinear_arith)
                requires
                    head_v_dim == 0,
            ;
            assert(n_v_heads * head_v_dim * head_v_dim == 0) by (nonlinear_arith)
                requires
                    head_v_dim == 0,
            ;
        } else {
            assert(n_v_heads * head_v_dim <= n_v_heads * head_v_dim * head_v_dim)
                by (nonlinear_arith)
                requires
                    head_v_dim >= 1,
                    n_v_heads >= 0,
            ;
        }
        DeltaNetState {
            conv_buf: zeros((conv_kernel - 1) * channels),
            ssm_state: zeros(n_v_heads * head_v_dim * head_v_dim),
            conv_kernel,
            channels,
            n_v_heads,
            head_v_dim,
        }
    }

    /// Sets everything to zero, for a new conversation.
    pub fn clear(&mut self)
        requires
            old(self).wf(),
        ensures
            final(self).wf(),
            final(self).shape() == old(self).shape(),
            final(self)@ == fresh_data(old(self).shape()),
    {
        self.conv_buf = zeros(self.conv_buf.len());
        self.ssm_state = zeros(self.ssm_state.len());
    }

    /// Captures the data.
    pub fn to_snapshot(&self) -> (snap: DeltaNetStateSnap)
        ensures
            snap@ == self@,
    {
        DeltaNetStateSnap {
            conv_buf: copy_bits(&self.conv_buf),
            ssm_state: copy_bits(&self.ssm_state),
        }
    }

    /// Puts captured data back.
    pub fn restore_from(&mut self, snap: &DeltaNetStateSnap)
        requires
            old(self).wf(),
            data_fits(snap@, old(self).shape()),
        ensures
            final(self).wf(),
            final(self).shape() == old(self).shape(),
            final(self)@ == snap@,
    {
        self.conv_buf = copy_bits(&snap.conv_buf);
        self.ssm_state = copy_bits(&snap.ssm_state);
    }

    /// Moves the convolution window on by one input: the oldest leaves, `input`
    /// becomes the newest.
    pub fn push_input(&mut self, input: &[u32])
        requires
            old(self).wf(),
            old(self).conv_kernel >= 2,
            input@.len() == old(self).channels,
        ensures
            final(self).wf(),
            final(self).shape() == old(self).shape(),
            final(self)@.ssm == old(self)@.ssm,
            final(self)@.conv == old(self)@.conv.skip(old(self).channels as int) + input@,
    {
        let len: usize = self.conv_buf.len();
        let c: usize = self.channels;
        let ghost start = self.conv_buf@;
        assert(len >= c) by (nonlinear_arith)
            requires
                len == (self.conv_kernel - 1) * c,
                self.conv_kernel >= 2,
        ;
        let mut next: Vec<u32> = Vec::new();
        let mut i: usize = c;
        while i < len
            invariant
                c <= i <= len == start.len(),
                start == self.conv_buf@,
                next@ == start.subrange(c as int, i as int),
            decreases len - i,
        {
            next.push(self.conv_buf[i]);
            assert(next@ =~= start.subrange(c as int, i + 1));
            i += 1;
        }
        let mut j: usize = 0;
        while j < input.len()
            invariant
                j <= input@.len(),
                next@ == start.skip(c as int) + input@.take(j as int),
            decreases input@.len() - j,
        {
            next.push(input[j]);
            assert(next@ =~= start.skip(c as int) + input@.take(j + 1));
            j += 1;
        }
        assert(input@.take(input@.len() as int) =~= input@);
        self.conv_buf = next;
    }

    /// The element of `channel` in row `row` of the convolution window.
    pub fn window_at(&self, row: usize, channel: usize) -> (bits: u32)
        requires
            self.wf(),
            row + 1 < self.conv_kernel,
            channel < self.channels,
        ensures
            bits == self@.conv[row * self.channels + channel],
    {
        let c: usize = self.channels;
        assert(row * c + channel < self.conv_buf@.len()) by (nonlinear_arith)
            requires
                row + 1 <= self.conv_kernel - 1,
                channel < c,
                self.conv_buf@.len() == (self.conv_kernel - 1) * c,
        ;
        assert(0 <= row * c) by (nonlinear_arith)
            requires
                row >= 0,
                c >= 0,
        ;
        let len: usize = self.conv_buf.len();
        self.conv_buf[row * c + channel]
    }
}

/// A snapshot brings back what it captured, whatever happened in between.
pub proof fn law_snapshot_round_trip(
    before: DeltaNetState,
    snap: DeltaNetStateSnap,
    later: DeltaNetState,
    restored: DeltaNetState,
)
    requires
        before.wf(),
        snap@ == before@,
        later.shape() == before.shape(),
        restored.shape() == later.shape(),
        restored@ == snap@,
    ensures
        data_fits(snap@, later.shape()),
        restored@ == before@,
        restored.shape() == before.shape(),
{
}

/// The inputs of `inputs`, one after the other.
pub open spec fn flattened(inputs: Seq<Seq<u32>>) -> Seq<u32>
    decreases inputs.len(),
{
    if inputs.len() == 0 {
        Seq::empty()
    } else {
        flattened(inputs.drop_last()) + inputs.last()
    }
}

/// The convolution window after `inputs`, starting from `window`.
pub open spec fn window_after(window: Seq<u32>, inputs: Seq<Seq<u32>>) -> Seq<u32>
    decreases inputs.len(),
{
    if inputs.len() == 0 {
        window
    } else {
        let before = window_after(window, inputs.drop_last());
        before.skip(inputs.last().len() as int) + inputs.last()
    }
}

proof fn lemma_flattened_len(inputs: Seq<Seq<u32>>, channels: nat)
    requires
        forall|i: int| 0 <= i < inputs.len() ==> (#[trigger] inputs[i]).len() == channels,
    ensures
        flattened(inputs).len() == inputs.len() * channels,
    decreases inputs.len(),
{
    if inputs.len() > 0 {
        let rest = inputs.drop_last();
        assert forall|i: int| 0 <= i < rest.len() implies (#[trigger] rest[i]).len() == channels by {
            assert(rest[i] == inputs[i]);
        }
        lemma_flattened_len(rest, channels);
        assert((inputs.len() - 1) * channels + channels == inputs.len() * channels)
            by (nonlinear_arith);
    } else {
        assert(0 * channels == 0);
    }
}

/// After `kernel - 1` inputs the window holds exactly them, oldest first: nothing
/// older is left.
pub proof fn law_window_holds_last_inputs(
    window: Seq<u32>,
    inputs: Seq<Seq<u32>>,
    kernel: nat,
    channels: nat,
)
    requires
        kernel >= 1,
        window.len() == (kernel - 1) * channels,
        inputs.len() <= kernel - 1,
        forall|i: int| 0 <= i < inputs.len() ==> (#[trigger] inputs[i]).len() == channels,
    ensures
        window_after(window, inputs) == window.skip((inputs.len() * channels) as int) + flattened(
            inputs,
        ),
        inputs.len() == kernel - 1 ==> window_after(window, inputs) == flattened(inputs),
    decreases inputs.len(),
{
    let n = inputs.len();
    lemma_flattened_len(inputs, channels);
    assert(n * channels <= (kernel - 1) * channels) by (nonlinear_arith)
        requires
            n <= kernel - 1,
    ;
    if n == 0 {
        assert(0 * channels == 0);
        assert(window.skip(0) + Seq::<u32>::empty() =~= window);
    } else {
        let rest = inputs.drop_last();
        assert forall|i: int| 0 <= i < rest.len() implies (#[trigger] rest[i]).len() == channels by {
            assert(rest[i] == inputs[i]);
        }
        law_window_holds_last_inputs(window, rest, kernel, channels);
        lemma_flattened_len(rest, channels);
        let drop = (n - 1) * channels;
        assert(drop + channels == n * channels) by (nonlinear_arith)
            requires
                drop == (n - 1) * channels,
        ;
        assert(inputs.last().len() == channels);
        let before = window.skip(drop) + flattened(rest);
        assert(window_after(window, inputs) == before.skip(channels as int) + inputs.last());
        assert(before.skip(channels as int) + inputs.last() =~= window.skip((n * channels) as int)
            + flattened(inputs));
    }
    if n == kernel - 1 {
        assert(window.skip((n * channels) as int) + flattened(inputs) =~= flattened(inputs));
    }
}

/// A fresh state is all zeros: a window of one row less than the kernel, and a square
/// matrix per value head.
pub proof fn law_a_fresh_state_is_zero(shape: DeltaShape)
    requires
        shape.conv_kernel >= 1,
    ensures
        fresh_data(shape).conv.len() + shape.channels == shape.conv_kernel * shape.channels,
        fresh_data(shape).ssm.len() == (shape.head_v_dim * shape.head_v_dim) * shape.n_v_heads,
        forall|i: int| 0 <= i < fresh_data(shape).conv.len() ==> #[trigger] fresh_data(shape).conv[i]
            == 0,
        forall|i: int| 0 <= i < fresh_data(shape).ssm.len() ==> #[trigger] fresh_data(shape).ssm[i]
            == 0,
        data_fits(fresh_data(shape), shape),
{
    let k = shape.conv_kernel as int;
    let c = shape.channels as int;
    assert((k - 1) * c + c == k * c && (k - 1) * c >= 0) by (nonlinear_arith)
        requires
            k >= 1,
            c >= 0,
    ;
    let h = shape.n_v_heads as int;
    let d = shape.head_v_dim as int;
    assert(h * d * d == (d * d) * h) by (nonlinear_arith);
}

} // verus!
