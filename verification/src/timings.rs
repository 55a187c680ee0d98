//! Time spent per part of a single-token forward pass, in microseconds.
use vstd::prelude::*;

verus! {

/// Accumulated times over all layers of one forward pass.
#[derive(Debug, Clone, Copy, PartialEq, Eq, Structural)]
pub struct GenTimings {
    pub delta_proj_us: u64,
    pub delta_transfer_us: u64,
    pub delta_prep_us: u64,
    pub delta_norm_us: u64,
    pub delta_rule_us: u64,
    pub delta_rms_gate_us: u64,
    pub delta_out_proj_us: u64,
    pub attn_proj_us: u64,
    pub attn_reshape_us: u64,
    pub attn_kv_cache_us: u64,
    pub attn_sdpa_us: u64,
    pub attn_gate_out_us: u64,
    pub norm_us: u64,
    pub mlp_us: u64,
    pub delta_count: u32,
    pub attn_count: u32,
}

/// No time at all.
pub open spec fn no_time() -> GenTimings {
    GenTimings {
        delta_proj_us: 0,
        delta_transfer_us: 0,
        delta_prep_us: 0,
        delta_norm_us: 0,
        delta_rule_us: 0,
        delta_rms_gate_us: 0,
        delta_out_proj_us: 0,
        attn_proj_us: 0,
        attn_reshape_us: 0,
        attn_kv_cache_us: 0,
        attn_sdpa_us: 0,
        attn_gate_out_us: 0,
        norm_us: 0,
        mlp_us: 0,
        delta_count: 0,
        attn_count: 0,
    }
}

impl Default for GenTimings {
    fn default() -> (t: Self)
        ensures
            t == no_time(),
    {
        GenTimings {
            delta_proj_us: 0,
            delta_transfer_us: 0,
            delta_prep_us: 0,
            delta_norm_us: 0,
            delta_rule_us: 0,
            delta_rms_gate_us: 0,
            delta_out_proj_us: 0,
            attn_proj_us: 0,
            attn_reshape_us: 0,
            attn_kv_cache_us: 0,
            attn_sdpa_us: 0,
            attn_gate_out_us: 0,
            norm_us: 0,
            mlp_us: 0,
            delta_count: 0,
            attn_count: 0,
        }
    }
}

impl GenTimings {
    /// Time in DeltaNet layers.
    pub open spec fn delta_total(&self) -> int {
        self.delta_proj_us + self.delta_transfer_us + self.delta_prep_us + self.delta_norm_us
            + self.delta_rule_us + self.delta_rms_gate_us + self.delta_out_proj_us
    }

    /// Time in attention layers.
    pub open spec fn attn_total(&self) -> int {
        self.attn_proj_us + self.attn_reshape_us + self.attn_kv_cache_us + self.attn_sdpa_us
            + self.attn_gate_out_us
    }

    /// Starts again from zero.
    pub fn reset(&mut self)
        ensures
            *final(self) == no_time(),
    {
        *self = GenTimings::default();
    }

    /// Time in DeltaNet layers.
    pub fn total_delta_us(&self) -> (total: u64)
        requires
            self.delta_total() <= u64::MAX,
        ensures
            total == self.delta_total(),
    {
        self.delta_proj_us + self.delta_transfer_us + self.delta_prep_us + self.delta_norm_us
            + self.delta_rule_us + self.delta_rms_gate_us + self.delta_out_proj_us
    }

    /// Time in attention layers.
    pub fn total_attn_us(&self) -> (total: u64)
        requires
            self.attn_total() <= u64::MAX,
        ensures
            total == self.attn_total(),
    {
        self.attn_proj_us + self.attn_reshape_us + self.attn_kv_cache_us + self.attn_sdpa_us
            + self.attn_gate_out_us
    }
}

/// Each part of a recurrent layer's time counts once in the total, and no part of an
/// attention layer's does.
pub proof fn law_recurrent_parts_count_once(t: GenTimings, more: GenTimings)
    ensures
        (GenTimings { delta_proj_us: more.delta_proj_us, ..t }).delta_total() - t.delta_total()
            == more.delta_proj_us - t.delta_proj_us,
        (GenTimings { delta_transfer_us: more.delta_transfer_us, ..t }).delta_total()
            - t.delta_total() == more.delta_transfer_us - t.delta_transfer_us,
        (GenTimings { delta_prep_us: more.delta_prep_us, ..t }).delta_total() - t.delta_total()
            == more.delta_prep_us - t.delta_prep_us,
        (GenTimings { delta_norm_us: more.delta_norm_us, ..t }).delta_total() - t.delta_total()
            == more.delta_norm_us - t.delta_norm_us,
        (GenTimings { delta_rule_us: more.delta_rule_us, ..t }).delta_total() - t.delta_total()
            == more.delta_rule_us - t.delta_rule_us,
        (GenTimings { delta_rms_gate_us: more.delta_rms_gate_us, ..t }).delta_total()
            - t.delta_total() == more.delta_rms_gate_us - t.delta_rms_gate_us,
        (GenTimings { delta_out_proj_us: more.delta_out_proj_us, ..t }).delta_total()
            - t.delta_total() == more.delta_out_proj_us - t.delta_out_proj_us,
        (GenTimings {
            attn_proj_us: more.attn_proj_us,
            attn_reshape_us: more.attn_reshape_us,
            attn_kv_cache_us: more.attn_kv_cache_us,
            attn_sdpa_us: more.attn_sdpa_us,
            attn_gate_out_us: more.attn_gate_out_us,
            norm_us: more.norm_us,
            mlp_us: more.mlp_us,
            delta_count: more.delta_count,
            attn_count: more.attn_count,
            ..t
        }).delta_total() == t.delta_total(),
        no_time().delta_total() == 0,
{
}

/// Each part of an attention layer's time counts once in the total, and no part of a
/// recurrent layer's does.
pub proof fn law_attention_parts_count_once(t: GenTimings, more: GenTimings)
    ensures
        (GenTimings { attn_proj_us: more.attn_proj_us, ..t }).attn_total() - t.attn_total()
            == more.attn_proj_us - t.attn_proj_us,
        (GenTimings { attn_reshape_us: more.attn_reshape_us, ..t }).attn_total() - t.attn_total()
            == more.attn_reshape_us - t.attn_reshape_us,
        (GenTimings { attn_kv_cache_us: more.attn_kv_cache_us, ..t }).attn_total()
            - t.attn_total() == more.attn_kv_cache_us - t.attn_kv_cache_us,
        (GenTimings { attn_sdpa_us: more.attn_sdpa_us, ..t }).attn_total() - t.attn_total()
            == more.attn_sdpa_us - t.attn_sdpa_us,
        (GenTimings { attn_gate_out_us: more.attn_gate_out_us, ..t }).attn_total()
            - t.attn_total() == more.attn_gate_out_us - t.attn_gate_out_us,
        (GenTimings {
            delta_proj_us: more.delta_proj_us,
            delta_transfer_us: more.delta_transfer_us,
            delta_prep_us: more.delta_prep_us,
            delta_norm_us: more.delta_norm_us,
            delta_rule_us: more.delta_rule_us,
            delta_rms_gate_us: more.delta_rms_gate_us,
            delta_out_proj_us: more.delta_out_proj_us,
            norm_us: more.norm_us,
            mlp_us: more.mlp_us,
            delta_count: more.delta_count,
            attn_count: more.attn_count,
            ..t
        }).attn_total() == t.attn_total(),
        no_time().attn_total() == 0,
{
}

} // verus!
