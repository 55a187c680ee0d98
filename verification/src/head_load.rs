//! Loading a prediction head: from the bytes of its file to a head with empty slots.
use crate::adapter::{any_transaction, Qwen35BatchAdapter};
use crate::alignment::has_zero_alignment;
use crate::gguf::{GgufIndex, IndexModel};
use crate::gguf_read::{gguf_content, says_behind, unreadable};
use crate::loader::{find_missing, first_missing, lemma_first_missing, str_views};
use crate::model_dims::or_failure;
use crate::moe::text_view;
use crate::mtp::{fresh_slot, state_of, Qwen35Mtp};
use crate::validation::concat2;
use vstd::prelude::*;

verus! {

/// Name of the head's tensors up to their suffix.
pub open spec fn head_prefix() -> Seq<char> {
    "blk.32"@
}

/// The name of the head's tensors up to their suffix.
pub fn head_block() -> (prefix: &'static str)
    ensures
        prefix@ == head_prefix(),
{
    "blk.32"
}

/// Tensors of the head, in reading order.
pub open spec fn head_suffixes() -> Seq<Seq<char>> {
    seq![
        ".nextn.hnorm.weight"@,
        ".nextn.enorm.weight"@,
        ".nextn.eh_proj.weight"@,
        ".attn_norm.weight"@,
        ".attn_q.weight"@,
        ".attn_k.weight"@,
        ".attn_v.weight"@,
        ".attn_q_norm.weight"@,
        ".attn_k_norm.weight"@,
        ".attn_output.weight"@,
        ".post_attention_norm.weight"@,
        ".ffn_gate.weight"@,
        ".ffn_up.weight"@,
        ".ffn_down.weight"@,
        ".nextn.shared_head_norm.weight"@,
    ]
}

/// The names of the head's tensors, behind their common prefix.
pub fn head_names() -> (names: Vec<&'static str>)
    ensures
        str_views(names@) == head_suffixes(),
{
    let names: Vec<&'static str> = vec![
        ".nextn.hnorm.weight",
        ".nextn.enorm.weight",
        ".nextn.eh_proj.weight",
        ".attn_norm.weight",
        ".attn_q.weight",
        ".attn_k.weight",
        ".attn_v.weight",
        ".attn_q_norm.weight",
        ".attn_k_norm.weight",
        ".attn_output.weight",
        ".post_attention_norm.weight",
        ".ffn_gate.weight",
        ".ffn_up.weight",
        ".ffn_down.weight",
        ".nextn.shared_head_norm.weight",
    ];
    assert(str_views(names@) =~= head_suffixes());
    names
}

/// Why a head cannot be loaded from a file that can be parsed: what its profile refuses
/// it for, or the first tensor that is missing.
pub open spec fn head_file_failure(index: IndexModel, refusal: Option<Seq<char>>) -> Option<
    Seq<char>,
> {
    or_failure(refusal, first_missing(index.tensor_infos, head_prefix(), head_suffixes(), 0))
}

/// Reads the index of a head's file from its bytes and looks for the head's tensors.
/// `refusal` is what the head's profile has against the file, which counts before a
/// missing tensor does.
pub fn read_head(bytes: &[u8], refusal: Option<&str>) -> (index: Result<GgufIndex, String>)
    ensures
        match index {
            Ok(c) => {
                &&& c.wf()
                &&& !has_zero_alignment(bytes@)
                &&& gguf_content(bytes@) == Some(c@)
                &&& head_file_failure(c@, text_view(refusal)) is None
            },
            Err(msg) => unreadable(bytes@) || head_file_failure(
                gguf_content(bytes@)->0,
                text_view(refusal),
            ) == Some(msg@),
        },
{
    let index = match GgufIndex::read(bytes) {
        Ok(index) => index,
        Err(msg) => return Err(msg),
    };
    match refusal {
        Some(reason) => return Err(reason.to_owned()),
        None => {},
    }
    let names = head_names();
    match find_missing(&index, head_block(), &names) {
        Some(msg) => Err(msg),
        None => Ok(index),
    }
}

/// Whether a head has `slots` empty slots and no transaction.
pub open spec fn head_starts(head: Qwen35Mtp, slots: nat) -> bool {
    &&& head.wf()
    &&& head.slots@.len() == slots
    &&& forall|s: int| 0 <= s < slots ==> #[trigger] state_of(head, s) == fresh_slot()
    &&& forall|s: int| 0 <= s < slots ==> (#[trigger] head.transactions@[s]) is None
}

impl Qwen35Mtp {
    /// Loads a head with `slots` empty slots from the bytes of its file.
    pub fn load(bytes: &[u8], refusal: Option<&str>, slots: usize) -> (head: Result<Self, String>)
        ensures
            match head {
                Ok(h) => {
                    &&& !unreadable(bytes@)
                    &&& head_file_failure(gguf_content(bytes@)->0, text_view(refusal)) is None
                    &&& head_starts(h, slots as nat)
                },
                Err(msg) => unreadable(bytes@) || head_file_failure(
                    gguf_content(bytes@)->0,
                    text_view(refusal),
                ) == Some(msg@),
            },
    {
        match read_head(bytes, refusal) {
            Ok(_) => Ok(Qwen35Mtp::new(slots)),
            Err(msg) => Err(msg),
        }
    }
}

/// What a load of a head does to an adapter and returns.
pub open spec fn head_load_outcome(
    done: Result<(), String>,
    after: Qwen35BatchAdapter,
    before: Qwen35BatchAdapter,
    bytes: Seq<u8>,
    refusal: Option<Seq<char>>,
) -> bool {
    let failure = head_file_failure(gguf_content(bytes)->0, refusal);
    if any_transaction(before.slots@) {
        &&& after == before
        &&& done matches Err(msg)
        &&& msg@ == "cannot load MTP during active transaction"@
    } else if unreadable(bytes) {
        &&& after == before
        &&& done matches Err(msg)
        &&& says_behind("load MTP component: "@, msg@)
    } else if failure is Some {
        &&& after == before
        &&& done matches Err(msg)
        &&& msg@ == "load MTP component: "@ + failure->0
    } else {
        &&& done is Ok
        &&& after == (Qwen35BatchAdapter { mtp: after.mtp, ..before })
        &&& after.mtp matches Some(head)
        &&& head_starts(head, before.slots@.len())
    }
}

impl Qwen35BatchAdapter {
    /// Loads a prediction head from the bytes of its file, unless a transaction is open.
    /// A head that is there stays where the load fails.
    pub fn load_mtp(&mut self, bytes: &[u8], refusal: Option<&str>) -> (done: Result<(), String>)
        requires
            old(self).wf(),
        ensures
            final(self).wf(),
            head_load_outcome(done, *final(self), *old(self), bytes@, text_view(refusal)),
    {
        if self.has_transaction() {
            return Err("cannot load MTP during active transaction".to_owned());
        }
        match Qwen35Mtp::load(bytes, refusal, self.slots.len()) {
            Ok(head) => {
                self.mtp = Some(head);
                Ok(())
            },
            Err(reason) => {
                let msg = concat2("load MTP component: ", reason.as_str());
                assert(msg@ == "load MTP component: "@ + reason@);
                Err(msg)
            },
        }
    }
}

/// A file that a head is loaded from has every tensor of the head.
pub proof fn law_head_file_is_complete(index: IndexModel, refusal: Option<Seq<char>>, i: int)
    requires
        head_file_failure(index, refusal) is None,
        0 <= i < head_suffixes().len(),
    ensures
        index.tensor_infos.dom().contains(head_prefix() + head_suffixes()[i]),
{
    lemma_first_missing(index.tensor_infos, head_prefix(), head_suffixes(), 0);
}

} // verus!
