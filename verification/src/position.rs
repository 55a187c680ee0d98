//! Positions of a multimodal prompt: token indices for the caches and three axes
//! (time, height, width) for the rotary embedding.
use vstd::prelude::*;

verus! {

/// Positions of consecutive tokens.
#[derive(Debug)]
pub struct PositionPlan {
    /// Token index of each token.
    pub text_positions: Vec<u32>,
    /// Time, height and width position of each token.
    pub rope_positions: [Vec<u32>; 3],
    /// What decoding adds to a token index to get its rotary position.
    pub decode_rope_delta: i64,
}

/// The model of a [`PositionPlan`].
#[verifier::ext_equal]
pub struct PlanModel {
    pub text: Seq<u32>,
    pub time: Seq<u32>,
    pub height: Seq<u32>,
    pub width: Seq<u32>,
    pub delta: int,
}

impl View for PositionPlan {
    type V = PlanModel;

    open spec fn view(&self) -> PlanModel {
        PlanModel {
            text: self.text_positions@,
            time: self.rope_positions@[0]@,
            height: self.rope_positions@[1]@,
            width: self.rope_positions@[2]@,
            delta: self.decode_rope_delta as int,
        }
    }
}

impl PlanModel {
    /// Whether every axis has a position up to `end`.
    pub open spec fn covers(self, end: int) -> bool {
        &&& end <= self.text.len()
        &&& end <= self.time.len()
        &&& end <= self.height.len()
        &&& end <= self.width.len()
    }

    /// The positions of `len` tokens from `start` on.
    pub open spec fn slice(self, start: int, len: int) -> PlanModel {
        PlanModel {
            text: self.text.subrange(start, start + len),
            time: self.time.subrange(start, start + len),
            height: self.height.subrange(start, start + len),
            width: self.width.subrange(start, start + len),
            delta: self.delta,
        }
    }
}

/// Why a plan has no positions for a range.
pub open spec fn slice_failure(plan: PlanModel, start: nat, len: nat) -> Option<Seq<char>> {
    if start + len > usize::MAX {
        Some("position-plan range overflow"@)
    } else if !plan.covers((start + len) as int) {
        Some("position-plan range is out of bounds"@)
    } else {
        None
    }
}

fn slice_axis(axis: &Vec<u32>, start: usize, end: usize) -> (part: Option<Vec<u32>>)
    requires
        start <= end,
    ensures
        match part {
            Some(p) => end <= axis@.len() && p@ == axis@.subrange(start as int, end as int),
            None => end > axis@.len(),
        },
{
    if end > axis.len() {
        return None;
    }
    let mut part: Vec<u32> = Vec::new();
    let mut i: usize = start;
    while i < end
        invariant
            start <= i <= end <= axis@.len(),
            part@ == axis@.subrange(start as int, i as int),
        decreases end - i,
    {
        part.push(axis[i]);
        i += 1;
    }
    Some(part)
}

/// The positions of `len` tokens from `start` on. A range that is not covered on
/// every axis is refused.
pub fn slice_position_plan(plan: &PositionPlan, start: usize, len: usize) -> (part: Result<
    PositionPlan,
    String,
>)
    ensures
        match part {
            Ok(p) => slice_failure(plan@, start as nat, len as nat) is None && p@ == plan@.slice(
                start as int,
                len as int,
            ),
            Err(msg) => slice_failure(plan@, start as nat, len as nat) == Some(msg@),
        },
{
    let end: usize = match start.checked_add(len) {
        Some(end) => end,
        None => return Err("position-plan range overflow".to_owned()),
    };
    match (
        slice_axis(&plan.text_positions, start, end),
        slice_axis(&plan.rope_positions[0], start, end),
        slice_axis(&plan.rope_positions[1], start, end),
        slice_axis(&plan.rope_positions[2], start, end),
    ) {
        (Some(text), Some(time), Some(height), Some(width)) => {
            let part = PositionPlan {
                text_positions: text,
                rope_positions: [time, height, width],
                decode_rope_delta: plan.decode_rope_delta,
            };
            assert(part@ =~= plan@.slice(start as int, len as int));
            Ok(part)
        },
        _ => Err("position-plan range is out of bounds".to_owned()),
    }
}

/// A slice of a slice is a slice of the whole plan.
pub proof fn law_slices_compose(plan: PlanModel, start: nat, len: nat, from: nat, part: nat)
    requires
        plan.covers((start + len) as int),
        from + part <= len,
    ensures
        plan.slice(start as int, len as int).slice(from as int, part as int) == plan.slice(
            (start + from) as int,
            part as int,
        ),
{
    assert(plan.slice(start as int, len as int).slice(from as int, part as int) =~= plan.slice(
        (start + from) as int,
        part as int,
    ));
}

/// Consecutive slices cover every token once, in order.
pub proof fn law_consecutive_slices_join(plan: PlanModel, start: nat, first: nat, second: nat)
    requires
        plan.covers((start + first + second) as int),
    ensures
        plan.slice(start as int, (first + second) as int).text == plan.slice(
            start as int,
            first as int,
        ).text + plan.slice((start + first) as int, second as int).text,
        plan.slice(start as int, (first + second) as int).time == plan.slice(
            start as int,
            first as int,
        ).time + plan.slice((start + first) as int, second as int).time,
        plan.slice(start as int, (first + second) as int).height == plan.slice(
            start as int,
            first as int,
        ).height + plan.slice((start + first) as int, second as int).height,
        plan.slice(start as int, (first + second) as int).width == plan.slice(
            start as int,
            first as int,
        ).width + plan.slice((start + first) as int, second as int).width,
{
    let whole = plan.slice(start as int, (first + second) as int);
    let a = plan.slice(start as int, first as int);
    let b = plan.slice((start + first) as int, second as int);
    assert(whole.text =~= a.text + b.text);
    assert(whole.time =~= a.time + b.time);
    assert(whole.height =~= a.height + b.height);
    assert(whole.width =~= a.width + b.width);
}

/// No range that reaches beyond an axis is accepted.
pub proof fn law_slices_fail_closed(plan: PlanModel, start: nat, len: nat)
    requires
        start + len > plan.text.len() || start + len > plan.time.len() || start + len
            > plan.height.len() || start + len > plan.width.len(),
    ensures
        slice_failure(plan, start, len) is Some,
{
}

/// Axis `a` of a plan: time, height or width.
pub open spec fn axis(plan: PlanModel, a: int) -> Seq<u32> {
    if a == 0 {
        plan.time
    } else if a == 1 {
        plan.height
    } else {
        plan.width
    }
}

/// Whether every axis has `len` positions.
pub open spec fn axes_have(plan: PlanModel, len: nat) -> bool {
    plan.time.len() == len && plan.height.len() == len && plan.width.len() == len
}

/// Tests whether every axis has `len` positions.
pub fn axes_match(plan: &PositionPlan, len: usize) -> (yes: bool)
    ensures
        yes == axes_have(plan@, len as nat),
{
    plan.rope_positions[0].len() == len && plan.rope_positions[1].len() == len
        && plan.rope_positions[2].len() == len
}

/// The rotary positions of a table: for each token and each rotated pair of
/// dimensions, the position on the axis that the pair belongs to.
pub open spec fn table_position(plan: PlanModel, sources: Seq<u8>, i: int) -> u32 {
    axis(plan, sources[i % sources.len() as int] as int)[i / sources.len() as int]
}

/// Fills the positions of a rotary table, token by token. `sources` names the axis of
/// each rotated pair of dimensions.
pub fn mrope_positions(plan: &PositionPlan, sources: &[u8], rope_dim: usize) -> (table: Result<
    Vec<u32>,
    String,
>)
    requires
        forall|d: int| 0 <= d < sources@.len() ==> #[trigger] sources@[d] < 3,
    ensures
        match table {
            Ok(t) => {
                &&& axes_have(plan@, plan@.time.len())
                &&& sources@.len() == rope_dim / 2
                &&& t@.len() == plan@.time.len() * sources@.len()
                &&& forall|i: int|
                    0 <= i < t@.len() ==> #[trigger] t@[i] == table_position(plan@, sources@, i)
            },
            Err(msg) => (!axes_have(plan@, plan@.time.len()) || sources@.len() != rope_dim / 2)
                && msg@ == "invalid Qwen3.5 MRoPE dimensions"@,
        },
{
    let len: usize = plan.rope_positions[0].len();
    let width: usize = sources.len();
    if !axes_match(plan, len) || rope_dim / 2 != width {
        return Err("invalid Qwen3.5 MRoPE dimensions".to_owned());
    }
    let mut table: Vec<u32> = Vec::new();
    let mut token: usize = 0;
    while token < len
        invariant
            token <= len,
            width == sources@.len(),
            len == plan@.time.len(),
            axes_have(plan@, len as nat),
            forall|d: int| 0 <= d < sources@.len() ==> #[trigger] sources@[d] < 3,
            table@.len() == token * width,
            forall|i: int|
                0 <= i < table@.len() ==> #[trigger] table@[i] == table_position(
                    plan@,
                    sources@,
                    i,
                ),
        decreases len - token,
    {
        let mut d: usize = 0;
        while d < width
            invariant
                token < len,
                d <= width,
                width == sources@.len(),
                len == plan@.time.len(),
                axes_have(plan@, len as nat),
                forall|e: int| 0 <= e < sources@.len() ==> #[trigger] sources@[e] < 3,
                table@.len() == token * width + d,
                forall|i: int|
                    0 <= i < table@.len() ==> #[trigger] table@[i] == table_position(
                        plan@,
                        sources@,
                        i,
                    ),
            decreases width - d,
        {
            let source: u8 = sources[d];
            let position: u32 = if source == 0 {
                plan.rope_positions[0][token]
            } else if source == 1 {
                plan.rope_positions[1][token]
            } else {
                plan.rope_positions[2][token]
            };
            proof {
                vstd::arithmetic::div_mod::lemma_fundamental_div_mod_converse(
                    token * width + d,
                    width as int,
                    token as int,
                    d as int,
                );
            }
            table.push(position);
            d += 1;
        }
        proof {
            assert(token * width + width == (token + 1) * width) by (nonlinear_arith);
        }
        token += 1;
    }
    Ok(table)
}

/// The rotary position of a decoded token, or why it has none.
pub open spec fn decode_position(pos: usize, delta: i64) -> Result<usize, Seq<char>> {
    if pos > i64::MAX {
        Err("out of range integral type conversion attempted"@)
    } else if pos + delta > i64::MAX || pos + delta < i64::MIN {
        Err("decode RoPE position overflow"@)
    } else if pos + delta < 0 || pos + delta > usize::MAX {
        Err("negative decode RoPE position"@)
    } else {
        Ok((pos + delta) as usize)
    }
}

/// Computes the rotary position of a decoded token.
pub fn rope_position(pos: usize, delta: i64) -> (position: Result<usize, String>)
    ensures
        match position {
            Ok(p) => decode_position(pos, delta) == Ok::<usize, Seq<char>>(p),
            Err(msg) => decode_position(pos, delta) == Err::<usize, Seq<char>>(msg@),
        },
{
    if pos as u64 > i64::MAX as u64 {
        return Err("out of range integral type conversion attempted".to_owned());
    }
    let base: i64 = pos as i64;
    match base.checked_add(delta) {
        None => Err("decode RoPE position overflow".to_owned()),
        Some(sum) => {
            if sum < 0 || sum as u64 > usize::MAX as u64 {
                Err("negative decode RoPE position".to_owned())
            } else {
                Ok(sum as usize)
            }
        },
    }
}

/// Position by position, a slice is the part of the plan that it names, on every axis.
pub proof fn law_a_slice_is_the_part_it_names(plan: PlanModel, start: nat, len: nat, i: int)
    requires
        slice_failure(plan, start, len) is None,
        0 <= i < len,
    ensures
        ({
            let part = plan.slice(start as int, len as int);
            &&& part.text.len() == len && part.text[i] == plan.text[start + i]
            &&& part.time.len() == len && part.time[i] == plan.time[start + i]
            &&& part.height.len() == len && part.height[i] == plan.height[start + i]
            &&& part.width.len() == len && part.width[i] == plan.width[start + i]
            &&& part.delta == plan.delta
        }),
{
}

/// Every range that all axes reach to the end of is served.
pub proof fn law_covered_slices_are_served(plan: PlanModel, start: nat, len: nat)
    requires
        start + len <= usize::MAX,
        start + len <= plan.text.len(),
        start + len <= plan.time.len(),
        start + len <= plan.height.len(),
        start + len <= plan.width.len(),
    ensures
        slice_failure(plan, start, len) is None,
{
}

/// A pair of dimensions takes its position from the axis it names: 0 for time, 1 for
/// height, 2 for width, the same for every token.
pub proof fn law_pairs_follow_their_axis(plan: PlanModel, sources: Seq<u8>, token: int, d: int)
    requires
        0 <= d < sources.len(),
        0 <= token,
    ensures
        ({
            let position = table_position(plan, sources, token * sources.len() + d);
            &&& sources[d] == 0 ==> position == plan.time[token]
            &&& sources[d] == 1 ==> position == plan.height[token]
            &&& sources[d] == 2 ==> position == plan.width[token]
        }),
{
    vstd::arithmetic::div_mod::lemma_fundamental_div_mod_converse(
        token * sources.len() + d,
        sources.len() as int,
        token,
        d,
    );
}

/// Where the three axes agree, which they do in plain text, a token's position is the same
/// for every pair of dimensions.
pub proof fn law_text_rotates_alike(plan: PlanModel, sources: Seq<u8>, token: int, d: int, e: int)
    requires
        0 <= d < sources.len(),
        0 <= e < sources.len(),
        sources[d] < 3,
        sources[e] < 3,
        0 <= token,
        plan.time[token] == plan.height[token],
        plan.time[token] == plan.width[token],
    ensures
        table_position(plan, sources, token * sources.len() + d) == plan.time[token],
        table_position(plan, sources, token * sources.len() + e) == table_position(
            plan,
            sources,
            token * sources.len() + d,
        ),
{
    law_pairs_follow_their_axis(plan, sources, token, d);
    law_pairs_follow_their_axis(plan, sources, token, e);
}

/// A decoded token's rotary position is its index moved by the prompt's delta, wherever
/// that is a position; without a delta it is the index itself, and the next token's is one
/// further.
pub proof fn law_decoding_moves_by_the_delta(pos: usize, delta: i64)
    requires
        pos <= i64::MAX,
    ensures
        0 <= pos + delta <= usize::MAX && pos + delta <= i64::MAX ==> decode_position(pos, delta)
            == Ok::<usize, Seq<char>>((pos + delta) as usize),
        pos + delta < 0 ==> decode_position(pos, delta) is Err,
        decode_position(pos, 0) == Ok::<usize, Seq<char>>(pos),
        decode_position(pos, delta) is Ok && pos < usize::MAX && decode_position(
            (pos + 1) as usize,
            delta,
        ) is Ok ==> decode_position((pos + 1) as usize, delta)->Ok_0 == decode_position(
            pos,
            delta,
        )->Ok_0 + 1,
{
}

} // verus!
