//! The mixture-of-experts block as a whole: which of its paths a pass takes.
use crate::gguf::GgmlDType;
use crate::moe::{
    is_routed_format, packed_width, packed_width_model, routed_format, MoeBackend, MoeRouter,
    Qwen35MoeConfig,
};
use vstd::prelude::*;

verus! {

/// The packed weights of the routed experts, by format and shape.
#[derive(Debug)]
pub struct PackedExperts {
    pub gate: GgmlDType,
    pub up: GgmlDType,
    pub down: GgmlDType,
    pub gate_dims: Vec<usize>,
    pub down_dims: Vec<usize>,
    pub n_experts: usize,
}

/// A mixture-of-experts feed-forward block.
#[derive(Debug)]
pub struct Qwen35MoeBlock {
    pub router: MoeRouter,
    pub routed: PackedExperts,
    pub backend: MoeBackend,
    pub cfg: Qwen35MoeConfig,
}

/// How a pass computes the routed experts.
#[derive(Debug, Clone, Copy, PartialEq, Eq, Structural)]
pub enum RoutedPath {
    /// Routing and products stay on the device.
    Fused,
    /// Tokens are routed on the host, products are indexed on the device.
    Indexed,
    /// Tokens are routed on the host and grouped by expert, whose weights are unpacked.
    Reference,
}

/// Whether all three projections have a format for indexed products.
pub open spec fn all_routed(experts: PackedExperts) -> bool {
    routed_format(experts.gate) && routed_format(experts.up) && routed_format(experts.down)
}

/// The path that a pass takes, or why it cannot.
pub open spec fn routed_path(block: Qwen35MoeBlock, with_cuda: bool, on_cuda: bool) -> Result<
    RoutedPath,
    Seq<char>,
> {
    match block.backend {
        MoeBackend::Reference => Ok(RoutedPath::Reference),
        MoeBackend::Ptx => if !with_cuda {
            Err("PTX MoE backend requires cuda feature"@)
        } else if on_cuda {
            Ok(RoutedPath::Fused)
        } else if all_routed(block.routed) {
            Ok(RoutedPath::Indexed)
        } else {
            Ok(RoutedPath::Reference)
        },
    }
}

impl Qwen35MoeBlock {
    /// Puts a block together.
    pub fn new(
        cfg: Qwen35MoeConfig,
        router: MoeRouter,
        routed: PackedExperts,
        backend: MoeBackend,
    ) -> (block: Self)
        ensures
            block == (Qwen35MoeBlock { router, routed, backend, cfg }),
    {
        Qwen35MoeBlock { router, routed, backend, cfg }
    }

    /// The block's sizes.
    pub fn config(&self) -> (cfg: &Qwen35MoeConfig)
        ensures
            *cfg == self.cfg,
    {
        &self.cfg
    }

    /// Decides which path a pass takes, by whether the program and the input are of CUDA.
    pub fn choose_path(&self, with_cuda: bool, on_cuda: bool) -> (path: Result<RoutedPath, String>)
        ensures
            match path {
                Ok(p) => routed_path(*self, with_cuda, on_cuda) == Ok::<RoutedPath, Seq<char>>(p),
                Err(msg) => routed_path(*self, with_cuda, on_cuda) == Err::<RoutedPath, Seq<char>>(
                    msg@,
                ),
            },
    {
        match self.backend {
            MoeBackend::Reference => Ok(RoutedPath::Reference),
            MoeBackend::Ptx => {
                if !with_cuda {
                    Err("PTX MoE backend requires cuda feature".to_owned())
                } else if on_cuda {
                    Ok(RoutedPath::Fused)
                } else if is_routed_format(self.routed.gate) && is_routed_format(self.routed.up)
                    && is_routed_format(self.routed.down) {
                    Ok(RoutedPath::Indexed)
                } else {
                    Ok(RoutedPath::Reference)
                }
            },
        }
    }

    /// The width of the routed experts, by their packed shapes.
    pub fn width(&self) -> (width: Result<usize, String>)
        ensures
            match width {
                Ok(n) => packed_width_model(self.routed.gate_dims@, self.routed.down_dims@) == Ok::<
                    usize,
                    Seq<char>,
                >(n),
                Err(msg) => packed_width_model(self.routed.gate_dims@, self.routed.down_dims@)
                    == Err::<usize, Seq<char>>(msg@),
            },
    {
        packed_width(self.routed.gate_dims.as_slice(), self.routed.down_dims.as_slice())
    }
}

/// A block of the reference backend always takes the reference path. One of the other
/// backend needs CUDA in the program; then the device alone is used for inputs on it, and
/// for others where all three projections can be indexed.
pub proof fn law_paths_follow_backend_and_input(block: Qwen35MoeBlock, with_cuda: bool, on_cuda: bool)
    ensures
        routed_path(block, with_cuda, on_cuda) is Err <==> block.backend == MoeBackend::Ptx
            && !with_cuda,
        routed_path(block, with_cuda, on_cuda) matches Ok(RoutedPath::Fused) <==> block.backend
            == MoeBackend::Ptx && with_cuda && on_cuda,
        routed_path(block, with_cuda, on_cuda) matches Ok(RoutedPath::Indexed) <==> block.backend
            == MoeBackend::Ptx && with_cuda && !on_cuda && routed_format(block.routed.gate)
            && routed_format(block.routed.up) && routed_format(block.routed.down),
{
}

} // verus!
