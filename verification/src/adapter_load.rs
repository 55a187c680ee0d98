//! Loading a model file: from its bytes to an adapter with empty slots.
use crate::adapter::{
    check_slot_count, choose_graphs, eos_of, graphs_wanted, read_eos, read_vocab, slot_count_text,
    vocab_of, Qwen35BatchAdapter,
};
use crate::gguf::{GgufIndex, IndexModel};
use crate::gguf_read::{gguf_content, says_behind, unreadable};
use crate::kv_cache::DECODE_BATCH_CAPACITY;
use crate::loader::{load_failure, plannable, starts_fresh, LoadSettings, ModelPlan};
use crate::model_state::ModelWeights;
use crate::moe::text_view;
use crate::profile::{describes, profile_errors, ModelProfile};
use crate::validation::{concat2, report_text};
use vstd::prelude::*;

verus! {

/// What a load is asked for.
#[derive(Debug)]
pub struct LoadRequest<'a> {
    pub num_slots: usize,
    pub settings: LoadSettings<'a>,
    pub on_metal: bool,
    /// The switch for captured graphs.
    pub graphs: Option<&'a str>,
    /// Free device memory.
    pub free_bytes: u64,
}

/// Whether a model is the one of a plan, with no state yet.
pub open spec fn model_starts(model: ModelWeights, plan: ModelPlan) -> bool {
    &&& model.context_length == plan.context_length
    &&& model.hidden_size == plan.embedding.n_cols
    &&& model.blocks@.len() == plan.dims.block_count
    &&& forall|i: int|
        0 <= i < model.blocks@.len() ==> starts_fresh(#[trigger] model.blocks@[i], plan, i)
}

/// Whether a plan is the one that a request calls for, and a model starts by it.
pub open spec fn planned(
    model: ModelWeights,
    plan: ModelPlan,
    index: IndexModel,
    len: usize,
    settings: LoadSettings<'_>,
) -> bool {
    plan.wf() && plan.is_for(index, len, settings) && model_starts(model, plan)
}

/// Whether a profile describes an index.
pub open spec fn profiled(
    profile: ModelProfile,
    file: GgufIndex,
    index: IndexModel,
    len: usize,
) -> bool {
    file@ == index && describes(profile, profile.architecture, file, len as u64)
}

/// Whether an adapter is the one that a request calls for.
pub open spec fn loaded(
    adapter: Qwen35BatchAdapter,
    index: IndexModel,
    len: usize,
    request: LoadRequest<'_>,
) -> bool {
    &&& adapter.wf()
    &&& adapter.slots@.len() == request.num_slots
    &&& forall|i: int|
        0 <= i < adapter.slots@.len() ==> (#[trigger] adapter.slots@[i]).is_fresh()
            && adapter.slots@[i].paged_dirty
    &&& adapter.decode_graph is None
    &&& !adapter.vision
    &&& adapter.mtp is None
    &&& adapter.eos == eos_of(index)
    &&& adapter.vocab == vocab_of(index)
    &&& adapter.graphs_enabled == graphs_wanted(
        text_view(request.graphs),
        request.settings.is_cuda,
        request.free_bytes,
    )
    &&& exists|plan: ModelPlan|
        #[trigger] planned(adapter.model, plan, index, len, request.settings)
    &&& exists|file: GgufIndex| #[trigger] profiled(adapter.profile, file, index, len)
}

/// What a load returns.
pub open spec fn load_outcome(
    done: Result<Option<Qwen35BatchAdapter>, String>,
    bytes: Seq<u8>,
    request: LoadRequest<'_>,
) -> bool {
    let len = bytes.len() as usize;
    let index = gguf_content(bytes)->0;
    if request.num_slots > DECODE_BATCH_CAPACITY {
        done matches Err(msg) && msg@ == slot_count_text(request.num_slots as nat)
    } else if unreadable(bytes) {
        done matches Err(msg) && says_behind("read GGUF: "@, msg@)
    } else if profile_errors(index).len() > 0 {
        done matches Err(msg) && msg@ == "GGUF validation failed: "@ + report_text(
            profile_errors(index),
        )
    } else if !plannable(index, len, request.settings) {
        done == Ok::<Option<Qwen35BatchAdapter>, String>(None)
    } else if load_failure(index, len, request.settings) is Some {
        done matches Err(msg) && msg@ == "load weights: "@ + load_failure(
            index,
            len,
            request.settings,
        )->0
    } else {
        done matches Ok(Some(adapter)) && loaded(adapter, index, len, request)
    }
}

impl Qwen35BatchAdapter {
    /// Loads a model file. The number of slots is checked before the bytes are looked
    /// at, and the whole profile before anything is planned. There is no adapter where a
    /// size is met that cannot be computed with, before the file is refused.
    pub fn load(bytes: &[u8], request: &LoadRequest<'_>) -> (done: Result<Option<Self>, String>)
        ensures
            load_outcome(done, bytes@, *request),
    {
        match check_slot_count(request.num_slots) {
            Ok(()) => {},
            Err(msg) => return Err(msg),
        }
        let file = match GgufIndex::read(bytes) {
            Ok(file) => file,
            Err(reason) => {
                let msg = concat2("read GGUF: ", reason.as_str());
                assert(msg@ == "read GGUF: "@ + reason@);
                return Err(msg);
            },
        };
        let len: usize = bytes.len();
        let profile = match ModelProfile::read_and_validate(&file, len as u64) {
            Ok(profile) => profile,
            Err(reason) => return Err(concat2("GGUF validation failed: ", reason.as_str())),
        };
        let plan = match ModelPlan::try_build(&file, len, &request.settings) {
            Ok(Some(plan)) => plan,
            Ok(None) => return Ok(None),
            Err(reason) => return Err(concat2("load weights: ", reason.as_str())),
        };
        let eos: u32 = read_eos(&file);
        let vocab: usize = read_vocab(&file);
        let graphs = choose_graphs(request.graphs, request.settings.is_cuda, request.free_bytes);
        let model = ModelWeights::from_plan(&plan, request.on_metal);
        match Qwen35BatchAdapter::new(model, profile, request.num_slots, eos, vocab, graphs) {
            Ok(adapter) => {
                proof {
                    assert(planned(adapter.model, plan, file@, len, request.settings));
                    assert(profiled(adapter.profile, file, file@, len));
                }
                Ok(Some(adapter))
            },
            Err(msg) => {
                assert(false);
                Err(msg)
            },
        }
    }

    /// Loads a model file, with the size of its vocabulary given.
    pub fn load_with_vocab(bytes: &[u8], request: &LoadRequest<'_>, vocab: usize) -> (done: Result<
        Option<Self>,
        String,
    >)
        ensures
            match done {
                Ok(Some(adapter)) => exists|own: Qwen35BatchAdapter|
                    {
                        &&& #[trigger] load_outcome(Ok(Some(own)), bytes@, *request)
                        &&& adapter == (Qwen35BatchAdapter { vocab, ..own })
                    },
                _ => load_outcome(done, bytes@, *request),
            },
    {
        match Qwen35BatchAdapter::load(bytes, request) {
            Ok(Some(mut adapter)) => {
                let ghost own = adapter;
                adapter.set_vocab(vocab);
                assert(load_outcome(Ok(Some(own)), bytes@, *request));
                Ok(Some(adapter))
            },
            Ok(None) => Ok(None),
            Err(msg) => Err(msg),
        }
    }
}

} // verus!
