//! Prompts with images or video: what is checked before one is installed, and which
//! vision features replace which tokens.
use crate::position::{axes_have, PositionPlan};
use crate::text::{decimal, push_decimal};
use vstd::prelude::*;

verus! {

/// Patches of a medium: frames, rows and columns.
#[derive(Debug, Clone, Copy, PartialEq, Eq, Structural)]
pub struct GridThw {
    pub t: usize,
    pub h: usize,
    pub w: usize,
}

/// A prompt with media, as a caller hands it over.
#[derive(Debug)]
pub struct MultimodalPrefill {
    pub token_ids: Vec<u32>,
    /// Per token: 0 for text, 1 for an image, 2 for video.
    pub mm_token_types: Vec<u8>,
    /// Time, height and width position of each token.
    pub rope_positions: [Vec<u32>; 3],
    pub decode_rope_delta: i64,
    pub media_grids: Vec<GridThw>,
    /// How many patch values there are.
    pub patch_value_count: usize,
    pub patch_rows: usize,
    pub patch_width: usize,
}

/// A prompt with media that waits for its prefill.
#[derive(Debug)]
pub struct InstalledMultimodal {
    pub token_ids: Vec<u32>,
    pub grids: Vec<GridThw>,
    pub mm_token_types: Vec<u8>,
    pub plan: PositionPlan,
    /// Whether the vision features are there.
    pub has_features: bool,
}

/// How many of the first `n` tokens stand for media.
pub open spec fn media_count(types: Seq<u8>, n: nat) -> nat
    decreases n,
{
    if n == 0 {
        0
    } else {
        media_count(types, (n - 1) as nat) + (if types[n - 1] != 0 {
            1nat
        } else {
            0
        })
    }
}

/// Counts the media tokens among the first `n`.
pub fn count_media(types: &Vec<u8>, n: usize) -> (count: usize)
    requires
        n <= types@.len(),
    ensures
        count == media_count(types@, n as nat),
        count <= n,
{
    let mut count: usize = 0;
    let mut i: usize = 0;
    while i < n
        invariant
            i <= n <= types@.len(),
            count == media_count(types@, i as nat),
            count <= i,
        decreases n - i,
    {
        if types[i] != 0 {
            count += 1;
        }
        i += 1;
    }
    count
}

/// Vision features of a grid: a quarter of its patches, merged two by two.
pub open spec fn grid_features(grid: GridThw) -> nat {
    (grid.t * (grid.h / 2) * (grid.w / 2)) as nat
}

/// Vision features of the first `n` grids, or what is wrong with the first that is
/// wrong.
pub open spec fn features_of(grids: Seq<GridThw>, n: nat) -> Result<nat, Seq<char>>
    decreases n,
{
    if n == 0 {
        Ok(0)
    } else {
        match features_of(grids, (n - 1) as nat) {
            Err(msg) => Err(msg),
            Ok(total) => {
                let grid = grids[n - 1];
                if grid.h % 2 != 0 || grid.w % 2 != 0 {
                    Err("multimodal grid is not divisible by merge size"@)
                } else if grid.t * (grid.h / 2) > usize::MAX || grid_features(grid) > usize::MAX {
                    Err("multimodal grid overflow"@)
                } else if total + grid_features(grid) > usize::MAX {
                    Err("multimodal feature count overflow"@)
                } else {
                    Ok(total + grid_features(grid))
                }
            },
        }
    }
}

proof fn lemma_features_error_stays(grids: Seq<GridThw>, k: nat, n: nat)
    requires
        k <= n,
        features_of(grids, k) is Err,
    ensures
        features_of(grids, n) == features_of(grids, k),
    decreases n,
{
    if k < n {
        lemma_features_error_stays(grids, k, (n - 1) as nat);
    }
}

/// Counts the vision features of some grids.
pub fn count_features(grids: &Vec<GridThw>) -> (count: Result<usize, String>)
    ensures
        match count {
            Ok(n) => features_of(grids@, grids@.len()) == Ok::<nat, Seq<char>>(n as nat),
            Err(msg) => features_of(grids@, grids@.len()) == Err::<nat, Seq<char>>(msg@),
        },
{
    let mut total: usize = 0;
    let mut i: usize = 0;
    while i < grids.len()
        invariant
            i <= grids@.len(),
            features_of(grids@, i as nat) == Ok::<nat, Seq<char>>(total as nat),
        decreases grids@.len() - i,
    {
        let grid = grids[i];
        let failed = if grid.h % 2 != 0 || grid.w % 2 != 0 {
            Some("multimodal grid is not divisible by merge size")
        } else {
            match grid.t.checked_mul(grid.h / 2) {
                None => Some("multimodal grid overflow"),
                Some(part) => match part.checked_mul(grid.w / 2) {
                    None => Some("multimodal grid overflow"),
                    Some(features) => match total.checked_add(features) {
                        None => Some("multimodal feature count overflow"),
                        Some(sum) => {
                            total = sum;
                            None
                        },
                    },
                },
            }
        };
        match failed {
            Some(msg) => {
                proof {
                    lemma_features_error_stays(grids@, (i + 1) as nat, grids@.len());
                }
                return Err(msg.to_owned());
            },
            None => {},
        }
        i += 1;
    }
    Ok(total)
}

/// Whether tokens, types and positions belong together, and some token stands for a
/// medium.
pub open spec fn tokens_agree(payload: MultimodalPrefill) -> bool {
    &&& payload.token_ids@.len() == payload.mm_token_types@.len()
    &&& payload.rope_positions@[0]@.len() == payload.token_ids@.len()
    &&& payload.rope_positions@[1]@.len() == payload.token_ids@.len()
    &&& payload.rope_positions@[2]@.len() == payload.token_ids@.len()
    &&& exists|i: int|
        0 <= i < payload.mm_token_types@.len() && #[trigger] payload.mm_token_types@[i] != 0
    &&& forall|i: int|
        0 <= i < payload.mm_token_types@.len() ==> #[trigger] payload.mm_token_types@[i] <= 2
}

/// Why a prompt with media is refused.
pub open spec fn payload_failure(payload: MultimodalPrefill) -> Option<Seq<char>> {
    let expected = media_count(payload.mm_token_types@, payload.mm_token_types@.len());
    if !tokens_agree(payload) {
        Some("multimodal token/position lengths differ or contain no media"@)
    } else if payload.patch_rows * payload.patch_width > usize::MAX {
        Some("multimodal patch size overflow"@)
    } else if payload.patch_value_count != payload.patch_rows * payload.patch_width {
        Some("multimodal patch value count mismatch"@)
    } else {
        match features_of(payload.media_grids@, payload.media_grids@.len()) {
            Err(msg) => Some(msg),
            Ok(actual) => if actual != expected {
                Some(
                    "multimodal feature/grid count "@ + decimal(actual) + " != placeholder count "@
                        + decimal(expected),
                )
            } else if payload.token_ids@.len() > u32::MAX + 1 {
                Some("out of range integral type conversion attempted"@)
            } else {
                None
            },
        }
    }
}

fn check_tokens(payload: &MultimodalPrefill) -> (agree: bool)
    ensures
        agree == tokens_agree(*payload),
{
    let n: usize = payload.token_ids.len();
    if n != payload.mm_token_types.len() || payload.rope_positions[0].len() != n
        || payload.rope_positions[1].len() != n || payload.rope_positions[2].len() != n {
        return false;
    }
    let mut some: bool = false;
    let mut i: usize = 0;
    while i < n
        invariant
            i <= n,
            n == payload.mm_token_types@.len(),
            some == exists|k: int| 0 <= k < i && #[trigger] payload.mm_token_types@[k] != 0,
            forall|k: int| 0 <= k < i ==> #[trigger] payload.mm_token_types@[k] <= 2,
        decreases n - i,
    {
        let kind: u8 = payload.mm_token_types[i];
        if kind > 2 {
            assert(payload.mm_token_types@[i as int] > 2);
            return false;
        }
        let ghost before = some;
        if kind != 0 {
            some = true;
        }
        proof {
            if some {
                if !before {
                    assert(payload.mm_token_types@[i as int] != 0);
                }
            }
        }
        i += 1;
    }
    some
}

/// Checks a prompt with media.
pub fn check_payload(payload: &MultimodalPrefill) -> (checked: Result<(), String>)
    ensures
        match checked {
            Ok(()) => payload_failure(*payload) is None,
            Err(msg) => payload_failure(*payload) == Some(msg@),
        },
{
    if !check_tokens(payload) {
        return Err("multimodal token/position lengths differ or contain no media".to_owned());
    }
    let size: usize = match payload.patch_rows.checked_mul(payload.patch_width) {
        Some(size) => size,
        None => return Err("multimodal patch size overflow".to_owned()),
    };
    if payload.patch_value_count != size {
        return Err("multimodal patch value count mismatch".to_owned());
    }
    let expected: usize = count_media(&payload.mm_token_types, payload.mm_token_types.len());
    let actual: usize = match count_features(&payload.media_grids) {
        Ok(n) => n,
        Err(msg) => return Err(msg),
    };
    if actual != expected {
        let mut msg = "multimodal feature/grid count ".to_owned();
        push_decimal(&mut msg, actual as u64);
        msg.append(" != placeholder count ");
        push_decimal(&mut msg, expected as u64);
        return Err(msg);
    }
    if payload.token_ids.len() as u64 > 0x1_0000_0000 {
        return Err("out of range integral type conversion attempted".to_owned());
    }
    Ok(())
}

/// Whether `media` is a payload, ready for its prefill.
pub open spec fn installed_from(media: InstalledMultimodal, payload: MultimodalPrefill) -> bool {
    &&& media.token_ids@ == payload.token_ids@
    &&& media.grids@ == payload.media_grids@
    &&& media.mm_token_types@ == payload.mm_token_types@
    &&& media.plan@.text == Seq::new(payload.token_ids@.len(), |i: int| i as u32)
    &&& media.plan@.time == payload.rope_positions@[0]@
    &&& media.plan@.height == payload.rope_positions@[1]@
    &&& media.plan@.width == payload.rope_positions@[2]@
    &&& media.plan@.delta == payload.decode_rope_delta
    &&& !media.has_features
}

impl InstalledMultimodal {
    /// Every token has a type and positions on all axes.
    pub open spec fn wf(&self) -> bool {
        &&& self.mm_token_types@.len() == self.token_ids@.len()
        &&& self.plan@.text.len() == self.token_ids@.len()
        &&& axes_have(self.plan@, self.token_ids@.len())
    }

    /// Takes a checked payload over.
    pub fn new(payload: MultimodalPrefill) -> (media: Self)
        requires
            payload_failure(payload) is None,
        ensures
            media.wf(),
            installed_from(media, payload),
    {
        let n: usize = payload.token_ids.len();
        let mut text: Vec<u32> = Vec::new();
        let mut i: usize = 0;
        while i < n
            invariant
                i <= n <= u32::MAX + 1,
                text@ == Seq::new(i as nat, |k: int| k as u32),
            decreases n - i,
        {
            text.push(i as u32);
            i += 1;
        }
        InstalledMultimodal {
            token_ids: payload.token_ids,
            grids: payload.media_grids,
            mm_token_types: payload.mm_token_types,
            plan: PositionPlan {
                text_positions: text,
                rope_positions: payload.rope_positions,
                decode_rope_delta: payload.decode_rope_delta,
            },
            has_features: false,
        }
    }

    /// Whether a chunk is the part of the prompt that starts at `start`.
    pub fn holds_chunk(&self, start: usize, tokens: &Vec<u32>) -> (holds: Result<bool, String>)
        ensures
            match holds {
                Ok(h) => start + tokens@.len() <= usize::MAX && h == (start + tokens@.len()
                    <= self.token_ids@.len() && self.token_ids@.subrange(
                    start as int,
                    start + tokens@.len(),
                ) == tokens@),
                Err(msg) => start + tokens@.len() > usize::MAX && msg@
                    == "prefill range overflow"@,
            },
    {
        let n: usize = tokens.len();
        let end: usize = match start.checked_add(n) {
            Some(end) => end,
            None => return Err("prefill range overflow".to_owned()),
        };
        if end > self.token_ids.len() {
            return Ok(false);
        }
        let ghost part = self.token_ids@.subrange(start as int, end as int);
        let mut i: usize = 0;
        while i < n
            invariant
                i <= n,
                n == tokens@.len(),
                end == start + n,
                end <= self.token_ids@.len(),
                part == self.token_ids@.subrange(start as int, end as int),
                forall|k: int| 0 <= k < i ==> #[trigger] tokens@[k] == part[k],
            decreases n - i,
        {
            if self.token_ids[start + i] != tokens[i] {
                assert(part[i as int] != tokens@[i as int]);
                return Ok(false);
            }
            i += 1;
        }
        assert(part =~= tokens@);
        Ok(true)
    }
}

/// A run of media tokens in a chunk: its first feature, its place in the chunk, and its
/// length.
#[derive(Debug, Clone, Copy, PartialEq, Eq, Structural)]
pub struct FeatureRun {
    pub feature: usize,
    pub at: usize,
    pub len: usize,
}

/// Whether a run lies in a chunk, covers media tokens only, and carries their features.
pub open spec fn run_right(types: Seq<u8>, start: nat, n: nat, run: FeatureRun) -> bool {
    &&& run.len > 0
    &&& run.at + run.len <= n
    &&& forall|p: int|
        start + run.at <= p < start + run.at + run.len ==> #[trigger] types[p] != 0 && run.feature
            + (p - start - run.at) == media_count(types, p as nat)
}

/// Whether the runs up to token `n` of a chunk are all there: they are right, lie apart
/// in order, and cover every media token.
pub open spec fn runs_right(types: Seq<u8>, start: nat, n: nat, runs: Seq<FeatureRun>) -> bool {
    &&& forall|j: int| 0 <= j < runs.len() ==> run_right(types, start, n, #[trigger] runs[j])
    &&& forall|i: int, j: int|
        0 <= i < j < runs.len() ==> (#[trigger] runs[i]).at + runs[i].len < (#[trigger] runs[j]).at
    &&& forall|p: int|
        start <= p < start + n && #[trigger] types[p] != 0 ==> covered(runs, p - start)
}

/// Whether some run covers token `i`.
pub open spec fn covered(runs: Seq<FeatureRun>, i: int) -> bool {
    exists|j: int|
        0 <= j < runs.len() && (#[trigger] runs[j]).at <= i < runs[j].at + runs[j].len
}

fn take_run(types: &Vec<u8>, start: usize, n: usize, first: usize, feature: usize) -> (run: FeatureRun)
    requires
        start + n <= types@.len(),
        first < n,
        types@[start + first] != 0,
        feature == media_count(types@, (start + first) as nat),
        feature <= start + first,
    ensures
        run.at == first,
        run.feature == feature,
        run.at + run.len <= n,
        run_right(types@, start as nat, (run.at + run.len) as nat, run),
        media_count(types@, (start + run.at + run.len) as nat) == feature + run.len,
        run.at + run.len < n ==> types@[start + run.at + run.len] == 0,
{
    let len: usize = types.len();
    let mut cursor: usize = first;
    while cursor < n && types[start + cursor] != 0
        invariant
            first <= cursor <= n,
            first < n,
            cursor == first ==> types@[start + first] != 0,
            len == types@.len(),
            start + n <= len,
            feature <= start + first,
            media_count(types@, (start + cursor) as nat) == feature + (cursor - first),
            forall|p: int|
                start + first <= p < start + cursor ==> #[trigger] types@[p] != 0 && feature + (p
                    - start - first) == media_count(types@, p as nat),
        decreases n - cursor,
    {
        cursor += 1;
    }
    FeatureRun { feature, at: first, len: cursor - first }
}

/// Finds the runs of media tokens in a chunk of `n` tokens from `start` on.
pub fn feature_runs(types: &Vec<u8>, start: usize, n: usize) -> (runs: Vec<FeatureRun>)
    requires
        start + n <= types@.len(),
    ensures
        runs_right(types@, start as nat, n as nat, runs@),
{
    let len: usize = types.len();
    let ghost t = types@;
    let mut feature: usize = count_media(types, start);
    let mut runs: Vec<FeatureRun> = Vec::new();
    let mut cursor: usize = 0;
    while cursor < n
        invariant
            cursor <= n,
            len == t.len(),
            t == types@,
            start + n <= len,
            feature == media_count(t, (start + cursor) as nat),
            feature <= start + cursor,
            runs_right(t, start as nat, cursor as nat, runs@),
            runs@.len() > 0 ==> runs@.last().at + runs@.last().len <= cursor,
            runs@.len() > 0 && cursor < n && runs@.last().at + runs@.last().len == cursor
                ==> t[start + cursor] == 0,
        decreases n - cursor,
    {
        if types[start + cursor] == 0 {
            proof {
                lemma_runs_extend(t, start as nat, cursor as nat, runs@);
            }
            cursor += 1;
        } else {
            let run = take_run(types, start, n, cursor, feature);
            let ghost before = runs@;
            runs.push(run);
            let end: usize = cursor + run.len;
            proof {
                lemma_runs_push(t, start as nat, cursor as nat, end as nat, before, run);
                assert(runs@ =~= before.push(run));
                assert(runs@.last() == run);
            }
            feature = feature + run.len;
            cursor = end;
        }
    }
    runs
}

proof fn lemma_runs_extend(types: Seq<u8>, start: nat, n: nat, runs: Seq<FeatureRun>)
    requires
        runs_right(types, start, n, runs),
        types[(start + n) as int] == 0,
    ensures
        runs_right(types, start, n + 1, runs),
{
    assert forall|j: int| 0 <= j < runs.len() implies run_right(
        types,
        start,
        n + 1,
        #[trigger] runs[j],
    ) by {
        let run = runs[j];
        assert(run_right(types, start, n, run));
        assert forall|p: int|
            start + run.at <= p < start + run.at + run.len implies #[trigger] types[p] != 0
            && run.feature + (p - start - run.at) == media_count(types, p as nat) by {}
    }
    assert forall|p: int|
        start <= p < start + n + 1 && #[trigger] types[p] != 0 implies covered(runs, p - start) by {
        assert(p < start + n);
    }
}

proof fn lemma_runs_push(
    types: Seq<u8>,
    start: nat,
    first: nat,
    n: nat,
    runs: Seq<FeatureRun>,
    run: FeatureRun,
)
    requires
        runs_right(types, start, first, runs),
        run.at == first,
        run.at + run.len == n,
        run_right(types, start, n, run),
        runs.len() > 0 ==> runs.last().at + runs.last().len < first,
    ensures
        runs_right(types, start, n, runs.push(run)),
{
    let all = runs.push(run);
    assert forall|j: int| 0 <= j < all.len() implies run_right(types, start, n, #[trigger] all[j]) by {
        if j < runs.len() {
            assert(run_right(types, start, first, runs[j]));
        }
    }
    assert forall|i: int, j: int|
        0 <= i < j < all.len() implies (#[trigger] all[i]).at + all[i].len < (#[trigger] all[j]).at by {
        if j == runs.len() && i < runs.len() - 1 {
            let last = runs[runs.len() - 1];
            assert(runs[i].at + runs[i].len < last.at);
            assert(run_right(types, start, first, last));
        }
    }
    assert forall|p: int|
        start <= p < start + n && #[trigger] types[p] != 0 implies covered(all, p - start) by {
        let i = p - start;
        if i < first {
            assert(covered(runs, i));
            let j = choose|j: int|
                0 <= j < runs.len() && (#[trigger] runs[j]).at <= i < runs[j].at + runs[j].len;
            assert(all[j] == runs[j]);
        } else {
            assert(all[runs.len() as int] == run);
        }
    }
}

/// Chunk by chunk, every media token gets the feature that it would get in the whole
/// prompt: the one counted by the media tokens before it.
pub proof fn law_chunks_use_consecutive_features(
    types: Seq<u8>,
    start: nat,
    n: nat,
    runs: Seq<FeatureRun>,
    j: int,
    k: int,
)
    requires
        runs_right(types, start, n, runs),
        0 <= j < runs.len(),
        0 <= k < runs[j].len,
    ensures
        runs[j].feature + k == media_count(types, (start + runs[j].at + k) as nat),
{
    assert(run_right(types, start, n, runs[j]));
    assert(types[start + runs[j].at + k] != 0);
}

/// Patches of a grid.
pub open spec fn patches(grid: GridThw) -> int {
    grid.t * grid.h * grid.w
}

/// Patches of some grids.
pub open spec fn all_patches(grids: Seq<GridThw>) -> int
    decreases grids.len(),
{
    if grids.len() == 0 {
        0
    } else {
        all_patches(grids.drop_last()) + patches(grids.last())
    }
}

/// A feature stands for four patches, two by two in every frame.
pub proof fn law_a_feature_is_four_patches(grid: GridThw)
    requires
        grid.h % 2 == 0,
        grid.w % 2 == 0,
    ensures
        4 * grid_features(grid) == patches(grid),
{
    let t = grid.t as int;
    let h = grid.h as int / 2;
    let w = grid.w as int / 2;
    assert(grid.h == 2 * h && grid.w == 2 * w);
    assert(4 * (t * h * w) == t * (2 * h) * (2 * w)) by (nonlinear_arith);
    assert(t * h * w >= 0) by (nonlinear_arith)
        requires
            t >= 0,
            h >= 0,
            w >= 0,
    ;
}

/// Four times the features of some grids are their patches, all grids together; a count is
/// given only where both sides of every grid are even, and always where they are and the
/// patches can be counted.
pub proof fn law_features_are_a_quarter_of_the_patches(grids: Seq<GridThw>, n: nat)
    requires
        n <= grids.len(),
    ensures
        features_of(grids, n) matches Ok(count) ==> {
            &&& 4 * count == all_patches(grids.take(n as int))
            &&& forall|i: int|
                0 <= i < n ==> (#[trigger] grids[i]).h % 2 == 0 && grids[i].w % 2 == 0
        },
        (forall|i: int| 0 <= i < n ==> (#[trigger] grids[i]).h % 2 == 0 && grids[i].w % 2 == 0)
            && (forall|i: int| 0 <= i < n ==> (#[trigger] grids[i]).w > 0) && all_patches(
            grids.take(n as int),
        ) <= usize::MAX ==> features_of(grids, n) is Ok,
        all_patches(grids.take(n as int)) >= 0,
    decreases n,
{
    if n > 0 {
        law_features_are_a_quarter_of_the_patches(grids, (n - 1) as nat);
        let grid = grids[n - 1];
        let part = grids.take(n as int);
        assert(part.drop_last() =~= grids.take(n - 1));
        assert(part.last() == grid);
        let t = grid.t as int;
        let h = grid.h as int;
        let w = grid.w as int;
        assert(t * h * w >= 0) by (nonlinear_arith)
            requires
                t >= 0,
                h >= 0,
                w >= 0,
        ;
        if grid.h % 2 == 0 && grid.w % 2 == 0 {
            law_a_feature_is_four_patches(grid);
            let h2 = h / 2;
            assert(w > 0 ==> t * h2 <= t * h * w) by (nonlinear_arith)
                requires
                    t >= 0,
                    h >= 0,
                    0 <= h2 <= h,
            ;
        }
    }
}

/// A prompt that is accepted has a feature for every media token: four times as many
/// patches as media tokens, positions on all axes for every token, and as many patch
/// values as rows and columns say.
pub proof fn law_accepted_prompts_fit_their_media(payload: MultimodalPrefill)
    requires
        payload_failure(payload) is None,
    ensures
        all_patches(payload.media_grids@) == 4 * media_count(
            payload.mm_token_types@,
            payload.mm_token_types@.len(),
        ),
        media_count(payload.mm_token_types@, payload.mm_token_types@.len()) > 0,
        payload.patch_value_count == payload.patch_rows * payload.patch_width,
        payload.token_ids@.len() == payload.mm_token_types@.len(),
        forall|a: int|
            0 <= a < 3 ==> (#[trigger] payload.rope_positions@[a])@.len()
                == payload.token_ids@.len(),
        forall|i: int|
            0 <= i < payload.mm_token_types@.len() ==> {
                let kind = #[trigger] payload.mm_token_types@[i];
                kind == 0 || kind == 1 || kind == 2
            },
{
    let grids = payload.media_grids@;
    law_features_are_a_quarter_of_the_patches(grids, grids.len());
    assert(grids.take(grids.len() as int) =~= grids);
    let types = payload.mm_token_types@;
    let i = choose|i: int| 0 <= i < types.len() && #[trigger] types[i] != 0;
    law_media_tokens_are_counted(types, types.len(), i);
}

/// Tells the types of media tokens from that of text.
pub open spec fn media_type() -> spec_fn(u8) -> bool {
    |kind: u8| kind != 0
}

/// The count of media tokens grows by one behind each of them and by none behind text, so
/// no two media tokens share a number and none is left out.
pub proof fn law_media_tokens_are_counted(types: Seq<u8>, n: nat, i: int)
    requires
        0 <= i < n <= types.len(),
    ensures
        media_count(types, 0) == 0,
        types[i] == 0 ==> media_count(types, (i + 1) as nat) == media_count(types, i as nat),
        types[i] != 0 ==> media_count(types, (i + 1) as nat) == media_count(types, i as nat) + 1,
        media_count(types, (i + 1) as nat) <= media_count(types, n),
        media_count(types, n) <= n,
        media_count(types, n) == types.take(n as int).filter(media_type()).len(),
    decreases n,
{
    if n > i + 1 {
        law_media_tokens_are_counted(types, (n - 1) as nat, i);
    }
    lemma_media_filtered(types, n);
}

proof fn lemma_media_filtered(types: Seq<u8>, n: nat)
    requires
        n <= types.len(),
    ensures
        media_count(types, n) == types.take(n as int).filter(media_type()).len(),
        media_count(types, n) <= n,
    decreases n,
{
    reveal(Seq::filter);
    if n > 0 {
        lemma_media_filtered(types, (n - 1) as nat);
        assert(types.take(n as int).drop_last() =~= types.take(n - 1));
        assert(types.take(n as int).last() == types[n - 1]);
    }
}

/// A chunk's runs cover its media tokens and no others, each by one run, and the feature
/// that a media token gets is numbered by the media tokens before it in the whole prompt.
pub proof fn law_each_media_token_gets_one_feature(
    types: Seq<u8>,
    start: nat,
    n: nat,
    runs: Seq<FeatureRun>,
    i: int,
)
    requires
        runs_right(types, start, n, runs),
        start + n <= types.len(),
        0 <= i < n,
    ensures
        types[start + i] != 0 <==> exists|j: int|
            0 <= j < runs.len() && (#[trigger] runs[j]).at <= i < runs[j].at + runs[j].len,
        forall|j: int|
            0 <= j < runs.len() && (#[trigger] runs[j]).at <= i < runs[j].at + runs[j].len
                ==> runs[j].feature + (i - runs[j].at) == types.take(start + i).filter(
                media_type(),
            ).len(),
        forall|j: int, k: int|
            0 <= j < runs.len() && 0 <= k < runs.len() && (#[trigger] runs[j]).at <= i < runs[j].at
                + runs[j].len && (#[trigger] runs[k]).at <= i < runs[k].at + runs[k].len ==> j == k,
{
    lemma_media_filtered(types, (start + i) as nat);
    if types[start + i] != 0 {
        assert(covered(runs, i));
    }
    assert forall|j: int|
        0 <= j < runs.len() && (#[trigger] runs[j]).at <= i < runs[j].at + runs[j].len implies
        types[start + i] != 0 && runs[j].feature + (i - runs[j].at) == media_count(
        types,
        (start + i) as nat,
    ) by {
        assert(run_right(types, start, n, runs[j]));
    }
    assert forall|j: int, k: int|
        0 <= j < runs.len() && 0 <= k < runs.len() && (#[trigger] runs[j]).at <= i < runs[j].at
            + runs[j].len && (#[trigger] runs[k]).at <= i < runs[k].at + runs[k].len implies j
        == k by {
        if j < k {
            assert(runs[j].at + runs[j].len < runs[k].at);
        } else if k < j {
            assert(runs[k].at + runs[k].len < runs[j].at);
        }
    }
}

/// An installed prompt is the one that was handed over: its tokens and types, its grids,
/// and each of the three axes in its place. Text positions count the tokens from zero.
pub proof fn law_installed_prompt_is_the_payload(
    media: InstalledMultimodal,
    payload: MultimodalPrefill,
    i: int,
    a: int,
)
    requires
        installed_from(media, payload),
        0 <= i < payload.token_ids@.len(),
        payload.token_ids@.len() <= u32::MAX + 1,
        0 <= a < 3,
    ensures
        media.token_ids@ == payload.token_ids@,
        media.mm_token_types@ == payload.mm_token_types@,
        media.grids@ == payload.media_grids@,
        media.plan.rope_positions@[a]@ == payload.rope_positions@[a]@,
        media.plan.text_positions@.len() == payload.token_ids@.len(),
        media.plan.text_positions@[i] == i,
        media.plan.decode_rope_delta == payload.decode_rope_delta,
        !media.has_features,
{
}

/// A prompt is accepted where its parts belong together: every token has a type and a
/// position on each axis, some token stands for a medium, the patches are as many values
/// as their rows and columns say, there are four patches to each media token, and the
/// tokens can be numbered.
pub proof fn law_sound_prompts_are_accepted(payload: MultimodalPrefill, k: int)
    requires
        payload.token_ids@.len() == payload.mm_token_types@.len(),
        payload.rope_positions@[0]@.len() == payload.token_ids@.len(),
        payload.rope_positions@[1]@.len() == payload.token_ids@.len(),
        payload.rope_positions@[2]@.len() == payload.token_ids@.len(),
        0 <= k < payload.mm_token_types@.len(),
        payload.mm_token_types@[k] != 0,
        forall|i: int|
            0 <= i < payload.mm_token_types@.len() ==> {
                let kind = #[trigger] payload.mm_token_types@[i];
                kind == 0 || kind == 1 || kind == 2
            },
        payload.patch_value_count == payload.patch_rows * payload.patch_width,
        forall|i: int|
            0 <= i < payload.media_grids@.len() ==> {
                let grid = #[trigger] payload.media_grids@[i];
                grid.h % 2 == 0 && grid.w % 2 == 0 && grid.w > 0
            },
        all_patches(payload.media_grids@) <= usize::MAX,
        all_patches(payload.media_grids@) == 4 * media_count(
            payload.mm_token_types@,
            payload.mm_token_types@.len(),
        ),
        payload.token_ids@.len() <= 0x1_0000_0000,
    ensures
        payload_failure(payload) is None,
{
    let grids = payload.media_grids@;
    law_features_are_a_quarter_of_the_patches(grids, grids.len());
    assert(grids.take(grids.len() as int) =~= grids);
    assert(payload.mm_token_types@[k] != 0);
}

/// The runs of a chunk are not empty, lie inside it, and have text between them.
pub proof fn law_runs_lie_apart_in_the_chunk(
    types: Seq<u8>,
    start: nat,
    n: nat,
    runs: Seq<FeatureRun>,
    i: int,
    j: int,
)
    requires
        runs_right(types, start, n, runs),
        0 <= i < runs.len(),
    ensures
        0 < runs[i].len,
        runs[i].at + runs[i].len <= n,
        i < j < runs.len() ==> runs[i].at + runs[i].len < runs[j].at,
        i < j < runs.len() ==> runs[i].feature + runs[i].len <= runs[j].feature,
{
    assert(run_right(types, start, n, runs[i]));
    if i < j < runs.len() {
        assert(run_right(types, start, n, runs[j]));
        let last = start + runs[i].at + runs[i].len - 1;
        let next = (start + runs[j].at) as int;
        assert(types[last] != 0);
        assert(types[next] != 0);
        lemma_media_grows(types, (last + 1) as nat, next as nat);
    }
}

proof fn lemma_media_grows(types: Seq<u8>, a: nat, b: nat)
    requires
        a <= b,
    ensures
        media_count(types, a) <= media_count(types, b),
    decreases b,
{
    if a < b {
        lemma_media_grows(types, a, (b - 1) as nat);
    }
}

} // verus!
