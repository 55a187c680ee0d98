//! The device buffers that hold the state of one DeltaNet layer: capturing it, putting it
//! back and clearing it. Floats are held by their bits.
use crate::delta_state::{zero_bits, zeros};
use crate::kernels::{check_restore, read_region, restore_failure, write_region, DeltaParams};
use vstd::prelude::*;

verus! {

/// The two buffers of a layer. They may be longer than the state in them.
#[derive(Debug)]
pub struct LayerBuffers {
    pub ssm_state: Vec<u32>,
    pub conv_state: Vec<u32>,
}

impl LayerBuffers {
    /// The state of a layer with these sizes has room in the buffers.
    pub open spec fn holds(&self, params: DeltaParams) -> bool {
        &&& params.conv_kernel > 0
        &&& params.ssm_len() <= self.ssm_state@.len()
        &&& params.conv_len() <= self.conv_state@.len()
    }

    /// The state in the buffers: the leading floats of both.
    pub open spec fn state(&self, params: DeltaParams) -> (Seq<u32>, Seq<u32>) {
        (
            self.ssm_state@.take(params.ssm_len() as int),
            self.conv_state@.take(params.conv_len() as int),
        )
    }
}

/// Whether `after` is `before` with a state in front, and nothing else changed.
pub open spec fn state_written(
    after: LayerBuffers,
    before: LayerBuffers,
    ssm: Seq<u32>,
    conv: Seq<u32>,
) -> bool {
    &&& after.ssm_state@ == ssm + before.ssm_state@.skip(ssm.len() as int)
    &&& after.conv_state@ == conv + before.conv_state@.skip(conv.len() as int)
}

/// Captures the state of a layer.
pub fn snapshot_metal_state(buffers: &LayerBuffers, params: &DeltaParams) -> (state: (
    Vec<u32>,
    Vec<u32>,
))
    requires
        buffers.holds(*params),
    ensures
        (state.0@, state.1@) == buffers.state(*params),
{
    let ssm_size: usize = buffers.ssm_state.len();
    let conv_size: usize = buffers.conv_state.len();
    let (ssm_len, conv_len) = params.state_elems(1);
    let ssm = read_region(&buffers.ssm_state, 0, ssm_len);
    let conv = read_region(&buffers.conv_state, 0, conv_len);
    (ssm, conv)
}

/// Puts a captured state back. One of other sizes is refused and changes nothing.
pub fn restore_metal_state(
    buffers: &mut LayerBuffers,
    params: &DeltaParams,
    ssm: &Vec<u32>,
    conv: &Vec<u32>,
) -> (done: Result<(), String>)
    requires
        old(buffers).holds(*params),
    ensures
        final(buffers).holds(*params),
        match done {
            Ok(()) => {
                &&& restore_failure(*params, ssm@.len(), conv@.len()) is None
                &&& state_written(*final(buffers), *old(buffers), ssm@, conv@)
                &&& final(buffers).state(*params) == (ssm@, conv@)
            },
            Err(msg) => {
                &&& restore_failure(*params, ssm@.len(), conv@.len()) == Some(msg@)
                &&& *final(buffers) == *old(buffers)
            },
        },
{
    let ssm_size: usize = buffers.ssm_state.len();
    let conv_size: usize = buffers.conv_state.len();
    match check_restore(params, ssm.len(), conv.len()) {
        Ok(()) => {},
        Err(msg) => return Err(msg),
    }
    let ghost before = *buffers;
    write_region(&mut buffers.ssm_state, 0, ssm);
    write_region(&mut buffers.conv_state, 0, conv);
    proof {
        assert(before.ssm_state@.take(0) =~= Seq::empty());
        assert(before.conv_state@.take(0) =~= Seq::empty());
        assert(buffers.ssm_state@ =~= ssm@ + before.ssm_state@.skip(ssm@.len() as int));
        assert(buffers.conv_state@ =~= conv@ + before.conv_state@.skip(conv@.len() as int));
        assert(buffers.state(*params).0 =~= ssm@);
        assert(buffers.state(*params).1 =~= conv@);
    }
    Ok(())
}

/// Sets both buffers to zeros, in full.
pub fn clear_metal_state(buffers: &mut LayerBuffers)
    ensures
        final(buffers).ssm_state@ == zero_bits(old(buffers).ssm_state@.len()),
        final(buffers).conv_state@ == zero_bits(old(buffers).conv_state@.len()),
{
    buffers.ssm_state = zeros(buffers.ssm_state.len());
    buffers.conv_state = zeros(buffers.conv_state.len());
}

/// A state that was captured can be put back, whatever the buffers hold then, and
/// capturing again gives it back.
pub proof fn law_layer_state_round_trip(
    before: LayerBuffers,
    later: LayerBuffers,
    after: LayerBuffers,
    params: DeltaParams,
    ssm: Seq<u32>,
    conv: Seq<u32>,
)
    requires
        before.holds(params),
        later.holds(params),
        (ssm, conv) == before.state(params),
        state_written(after, later, ssm, conv),
    ensures
        restore_failure(params, ssm.len(), conv.len()) is None,
        after.state(params) == before.state(params),
        after.ssm_state@.len() == later.ssm_state@.len(),
        after.conv_state@.len() == later.conv_state@.len(),
{
    assert(after.state(params).0 =~= ssm);
    assert(after.state(params).1 =~= conv);
}

} // verus!
