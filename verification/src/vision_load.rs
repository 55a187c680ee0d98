//! Loading a vision component: from the bytes of its file to an adapter that takes media.
use crate::adapter::Qwen35BatchAdapter;
use crate::gguf::GgufIndex;
use crate::gguf_read::{gguf_content, says_behind, unreadable};
use crate::moe::text_view;
use crate::validation::{concat2, report_text};
use crate::vision_profile::{vision_errors, vision_outcome, VisionProfile};
use vstd::prelude::*;

verus! {

/// What a load of a vision component does to an adapter and returns. `prefix` stands
/// before every reason.
pub open spec fn vision_load_outcome(
    done: Result<(), String>,
    after: Qwen35BatchAdapter,
    before: Qwen35BatchAdapter,
    bytes: Seq<u8>,
    refusal: Option<Seq<char>>,
    production_q8: bool,
    prefix: Seq<char>,
) -> bool {
    let errors = vision_errors(gguf_content(bytes)->0, production_q8);
    if unreadable(bytes) {
        &&& after == before
        &&& done matches Err(msg)
        &&& says_behind(prefix, msg@)
    } else if errors.len() > 0 {
        &&& after == before
        &&& done matches Err(msg)
        &&& msg@ == prefix + report_text(errors)
    } else if refusal is Some {
        &&& after == before
        &&& done matches Err(msg)
        &&& msg@ == prefix + refusal->0
    } else {
        &&& done is Ok
        &&& after == (Qwen35BatchAdapter { vision: true, ..before })
    }
}

/// Reads and validates the profile of a vision component from the bytes of its file.
pub fn read_vision(bytes: &[u8], production_q8: bool) -> (profile: Result<VisionProfile, String>)
    ensures
        match profile {
            Ok(_) => !unreadable(bytes@) && vision_outcome(
                profile,
                gguf_content(bytes@)->0,
                production_q8,
            ),
            Err(_) => unreadable(bytes@) || vision_outcome(
                profile,
                gguf_content(bytes@)->0,
                production_q8,
            ),
        },
{
    let index = match GgufIndex::read(bytes) {
        Ok(index) => index,
        Err(msg) => return Err(msg),
    };
    if production_q8 {
        VisionProfile::read_and_validate(&index)
    } else {
        VisionProfile::read_reference(&index)
    }
}

impl Qwen35BatchAdapter {
    /// Takes a vision component over, after its file was validated. `refusal` is what
    /// stands against the component's tensors.
    pub fn load_vision(&mut self, bytes: &[u8], refusal: Option<&str>) -> (done: Result<
        (),
        String,
    >)
        ensures
            vision_load_outcome(
                done,
                *final(self),
                *old(self),
                bytes@,
                text_view(refusal),
                true,
                "load Vision component: "@,
            ),
    {
        self.take_vision(read_vision(bytes, true), refusal, "load Vision component: ")
    }

    /// Takes a reference component over, whose matrices may have any format.
    pub fn load_vision_reference(&mut self, bytes: &[u8], refusal: Option<&str>) -> (done: Result<
        (),
        String,
    >)
        ensures
            vision_load_outcome(
                done,
                *final(self),
                *old(self),
                bytes@,
                text_view(refusal),
                false,
                "load reference Vision component: "@,
            ),
    {
        self.take_vision(read_vision(bytes, false), refusal, "load reference Vision component: ")
    }

    fn take_vision(
        &mut self,
        profile: Result<VisionProfile, String>,
        refusal: Option<&str>,
        prefix: &str,
    ) -> (done: Result<(), String>)
        ensures
            match profile {
                Err(reason) => {
                    &&& *final(self) == *old(self)
                    &&& done matches Err(msg)
                    &&& msg@ == prefix@ + reason@
                    &&& says_behind(prefix@, msg@)
                },
                Ok(_) => match refusal {
                    Some(reason) => {
                        &&& *final(self) == *old(self)
                        &&& done matches Err(msg)
                        &&& msg@ == prefix@ + reason@
                    },
                    None => done is Ok && *final(self) == (Qwen35BatchAdapter {
                        vision: true,
                        ..*old(self)
                    }),
                },
            },
    {
        match profile {
            Err(reason) => {
                let msg = concat2(prefix, reason.as_str());
                assert(msg@ == prefix@ + reason@);
                Err(msg)
            },
            Ok(_) => match refusal {
                Some(reason) => Err(concat2(prefix, reason)),
                None => {
                    self.vision = true;
                    Ok(())
                },
            },
        }
    }
}

} // verus!
