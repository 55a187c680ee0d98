//! Decisions around a Metal device's buffer pool: which settings to make before the
//! device is opened, and when the pool is purged.
use vstd::prelude::*;

verus! {

/// Dispatches per command buffer, by default.
pub const SAFE_COMPUTE_PER_BUFFER: &'static str = "15";

/// Command buffers in the pool, by default.
pub const INFERENCE_POOL_SIZE: &'static str = "1";

/// A setting of the environment.
#[derive(Debug)]
pub struct Setting {
    pub name: String,
    pub value: String,
}

/// The settings that are missing, in the order in which they are made.
pub open spec fn missing(has_compute: bool, has_pool: bool) -> Seq<(Seq<char>, Seq<char>)> {
    let compute = ("CANDLE_METAL_COMPUTE_PER_BUFFER"@, SAFE_COMPUTE_PER_BUFFER@);
    let pool = ("CANDLE_METAL_COMMAND_POOL_SIZE"@, INFERENCE_POOL_SIZE@);
    if has_compute && has_pool {
        Seq::empty()
    } else if has_compute {
        seq![pool]
    } else if has_pool {
        seq![compute]
    } else {
        seq![compute, pool]
    }
}

/// What a list of settings says.
pub open spec fn said(settings: Seq<Setting>) -> Seq<(Seq<char>, Seq<char>)> {
    settings.map_values(|s: Setting| (s.name@, s.value@))
}

/// Lists the settings to make before a Metal device is opened. What is set already
/// stays.
pub fn missing_settings(has_compute: bool, has_pool: bool) -> (settings: Vec<Setting>)
    ensures
        said(settings@) == missing(has_compute, has_pool),
{
    let mut settings: Vec<Setting> = Vec::new();
    if !has_compute {
        settings.push(
            Setting {
                name: "CANDLE_METAL_COMPUTE_PER_BUFFER".to_owned(),
                value: SAFE_COMPUTE_PER_BUFFER.to_owned(),
            },
        );
    }
    if !has_pool {
        settings.push(
            Setting {
                name: "CANDLE_METAL_COMMAND_POOL_SIZE".to_owned(),
                value: INFERENCE_POOL_SIZE.to_owned(),
            },
        );
    }
    assert(said(settings@) =~= missing(has_compute, has_pool));
    settings
}

/// What a periodic clean-up does.
#[derive(Debug, Clone, Copy, PartialEq, Eq, Structural)]
pub enum Cleanup {
    /// Waits only; there is no pool.
    Wait,
    /// Drops buffers that nothing holds.
    Flush,
    /// Empties the pool.
    Purge,
}

/// Decides what a periodic clean-up does: a Metal pool is emptied where it outgrew the
/// threshold. A pool whose size is not known counts as empty.
pub fn choose_cleanup(on_metal: bool, pool_bytes: Option<usize>, threshold: usize) -> (what:
    Cleanup)
    ensures
        what == (if !on_metal {
            Cleanup::Wait
        } else if pool_bytes is Some && pool_bytes->0 > threshold {
            Cleanup::Purge
        } else {
            Cleanup::Flush
        }),
        what == Cleanup::Wait <==> !on_metal,
        what == Cleanup::Purge <==> on_metal && pool_bytes is Some && threshold < pool_bytes->0,
{
    if !on_metal {
        return Cleanup::Wait;
    }
    match pool_bytes {
        Some(bytes) => {
            if bytes > threshold {
                Cleanup::Purge
            } else {
                Cleanup::Flush
            }
        },
        None => Cleanup::Flush,
    }
}

/// A setting is made exactly where the environment has none, with its own value.
pub proof fn law_only_missing_settings_are_made(has_compute: bool, has_pool: bool)
    ensures
        missing(has_compute, has_pool).contains(("CANDLE_METAL_COMPUTE_PER_BUFFER"@, "15"@))
            <==> !has_compute,
        missing(has_compute, has_pool).contains(("CANDLE_METAL_COMMAND_POOL_SIZE"@, "1"@))
            <==> !has_pool,
        missing(has_compute, has_pool).len() == (if has_compute {
            0int
        } else {
            1int
        }) + (if has_pool {
            0int
        } else {
            1int
        }),
{
    reveal_strlit("CANDLE_METAL_COMPUTE_PER_BUFFER");
    reveal_strlit("CANDLE_METAL_COMMAND_POOL_SIZE");
    let all = missing(has_compute, has_pool);
    let compute = ("CANDLE_METAL_COMPUTE_PER_BUFFER"@, "15"@);
    let pool = ("CANDLE_METAL_COMMAND_POOL_SIZE"@, "1"@);
    assert(compute.0.len() != pool.0.len());
    if !has_compute {
        assert(all[0] == compute);
    }
    if !has_pool {
        assert(all[all.len() - 1] == pool);
    }
}

} // verus!
