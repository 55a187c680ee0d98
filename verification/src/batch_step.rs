//! One DeltaNet step over a batch on a device: the checks before it, the slot numbers it
//! reads, and its launches.
use crate::kernels::{
    batch_text, check_batch, metal_step_dispatches, metal_step_shape, step_launches, step_shape,
    DeltaParams, Dispatch, Launch, SlotIdCache,
};
use vstd::prelude::*;

verus! {

/// How many rows each projection has.
#[derive(Debug, Clone, Copy, PartialEq, Eq, Structural)]
pub struct ProjectionRows {
    pub qkv: usize,
    pub z: usize,
    pub beta: usize,
    pub alpha: usize,
}

impl ProjectionRows {
    /// All projections are of a batch of `b`.
    pub open spec fn all_are(&self, b: nat) -> bool {
        self.qkv == b && self.z == b && self.beta == b && self.alpha == b
    }
}

/// Slots that the state buffers and the scratch buffers have room for.
#[derive(Debug, Clone, Copy, PartialEq, Eq, Structural)]
pub struct StepRoom {
    pub state: u32,
    pub temp: u32,
}

/// Whether a step can be asked for: the batch has room, and where its projections are of
/// one size there is a slot number for each row.
pub open spec fn step_asked(
    params: DeltaParams,
    room: StepRoom,
    rows: ProjectionRows,
    slot_ids: Seq<u32>,
) -> bool {
    &&& params.batch_size <= room.state
    &&& params.batch_size <= room.temp
    &&& rows.all_are(params.batch_size as nat) ==> slot_ids.len() == params.batch_size
}

/// A step on a CUDA device.
#[derive(Debug)]
pub struct CudaStep {
    /// Whether the slot numbers are copied to the device first.
    pub copy_ids: bool,
    pub launches: Vec<Launch>,
}

/// Plans a step on a CUDA device, which reads its slot numbers from `cache`.
pub fn plan_cuda_step(
    params: &DeltaParams,
    room: StepRoom,
    rows: ProjectionRows,
    slot_ids: &[u32],
    cache: &mut SlotIdCache,
) -> (step: Result<CudaStep, String>)
    requires
        step_asked(*params, room, rows, slot_ids@),
    ensures
        match step {
            Ok(s) => {
                &&& rows.all_are(params.batch_size as nat)
                &&& s.copy_ids == (old(cache).held() != Some(slot_ids@))
                &&& final(cache).held() == Some(slot_ids@)
                &&& s.launches@ == step_shape(*params)
            },
            Err(msg) => {
                &&& !rows.all_are(params.batch_size as nat)
                &&& *final(cache) == *old(cache)
                &&& msg@ == batch_text(
                    false,
                    rows.qkv as nat,
                    rows.z as nat,
                    rows.beta as nat,
                    rows.alpha as nat,
                    params.batch_size as nat,
                )
            },
        },
{
    match check_batch(
        false,
        rows.qkv,
        rows.z,
        rows.beta,
        rows.alpha,
        params.batch_size as usize,
    ) {
        Ok(()) => {},
        Err(msg) => return Err(msg),
    }
    let copy_ids = cache.refresh(slot_ids);
    Ok(CudaStep { copy_ids, launches: step_launches(params) })
}

/// Plans a step on a Metal device: the dispatches behind the convolution. The slot numbers
/// are handed over with every step.
pub fn plan_metal_step(
    params: &DeltaParams,
    room: StepRoom,
    rows: ProjectionRows,
    slot_ids: &[u32],
) -> (step: Result<Vec<Dispatch>, String>)
    requires
        step_asked(*params, room, rows, slot_ids@),
    ensures
        match step {
            Ok(list) => {
                &&& rows.all_are(params.batch_size as nat)
                &&& list@ == metal_step_shape(*params, slot_ids@.len() as usize)
            },
            Err(msg) => {
                &&& !rows.all_are(params.batch_size as nat)
                &&& msg@ == batch_text(
                    true,
                    rows.qkv as nat,
                    rows.z as nat,
                    rows.beta as nat,
                    rows.alpha as nat,
                    params.batch_size as nat,
                )
            },
        },
{
    match check_batch(
        true,
        rows.qkv,
        rows.z,
        rows.beta,
        rows.alpha,
        params.batch_size as usize,
    ) {
        Ok(()) => {},
        Err(msg) => return Err(msg),
    }
    Ok(metal_step_dispatches(params, slot_ids.len()))
}

/// Every row of a step has its slot number, within the room for slots, and every launch
/// covers exactly these rows.
pub proof fn law_rows_have_slots(
    params: DeltaParams,
    room: StepRoom,
    rows: ProjectionRows,
    slot_ids: Seq<u32>,
)
    requires
        step_asked(params, room, rows, slot_ids),
        rows.all_are(params.batch_size as nat),
    ensures
        slot_ids.len() == rows.qkv,
        slot_ids.len() <= room.state,
        slot_ids.len() <= room.temp,
        forall|i: int|
            0 <= i < step_shape(params).len() ==> (#[trigger] step_shape(params)[i]).grid.1
                == slot_ids.len(),
{
}

} // verus!
