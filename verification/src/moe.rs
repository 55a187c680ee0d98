//! Routing of the mixture-of-experts feed-forward block: which backend computes
//! it, which experts a token goes to, and which tokens an expert gets.
use crate::gguf::{dtype_text, GgmlDType};
use crate::table::same_text;
use crate::text::{
    bracketed, debug_notation, debug_text, decimal, decimals, push_decimal, push_list,
};
use vstd::arithmetic::power2::{lemma_pow2_pos, pow2};
use vstd::prelude::*;

verus! {

/// Distinguishes chunked prefill from batched decode.
#[derive(Debug, Clone, Copy, PartialEq, Eq, Structural)]
pub enum ForwardMode {
    Prefill,
    DecodeBatch,
}

/// Who computes the routed experts.
#[derive(Debug, Clone, Copy, PartialEq, Eq, Structural)]
pub enum MoeBackend {
    /// Dequantizes the selected experts; for diagnostics and parity.
    Reference,
    /// Sparse products on a CUDA device.
    Ptx,
}

/// Sizes of a mixture-of-experts block.
#[derive(Debug, Clone, Copy, PartialEq, Eq, Structural)]
pub struct Qwen35MoeConfig {
    pub hidden_size: usize,
    pub n_experts: usize,
    pub n_experts_per_tok: usize,
    pub routed_intermediate: usize,
    pub shared_intermediate: usize,
    pub norm_topk_prob: bool,
}

/// Formats in which gate and up projections can be computed together.
pub open spec fn dual_format(dtype: GgmlDType) -> bool {
    match dtype {
        GgmlDType::IQ2S
        | GgmlDType::IQ2XS
        | GgmlDType::IQ2XXS
        | GgmlDType::IQ3S
        | GgmlDType::IQ3XXS
        | GgmlDType::IQ4XS
        | GgmlDType::Q8_0
        | GgmlDType::Q2K
        | GgmlDType::Q4K
        | GgmlDType::Q6K => true,
        _ => false,
    }
}

/// Formats in which a routed projection can be computed.
pub open spec fn routed_format(dtype: GgmlDType) -> bool {
    dual_format(dtype) || dtype == GgmlDType::Q3K || dtype == GgmlDType::Q5K
}

/// Which backend serves a request, or why none does.
pub open spec fn chosen_backend(
    requested: Option<Seq<char>>,
    is_cuda: bool,
    gate: GgmlDType,
    up: GgmlDType,
    down: GgmlDType,
) -> Result<MoeBackend, Seq<char>> {
    if requested == Some("reference"@) {
        Ok(MoeBackend::Reference)
    } else if requested is Some && requested != Some("ptx"@) {
        Err(
            "invalid QWEN36_MOE_BACKEND="@ + debug_notation(requested->0)
                + "; expected ptx or reference"@,
        )
    } else if requested is None && !is_cuda {
        Ok(MoeBackend::Reference)
    } else if !is_cuda {
        Err("QWEN36_MOE_BACKEND=ptx requires CUDA"@)
    } else if gate == up && dual_format(gate) && routed_format(down) {
        Ok(MoeBackend::Ptx)
    } else {
        Err(
            "PTX MoE does not support routed dtypes gate="@ + dtype_text(gate) + " up="@
                + dtype_text(up) + " down="@ + dtype_text(down),
        )
    }
}

fn is_dual_format(dtype: GgmlDType) -> (yes: bool)
    ensures
        yes == dual_format(dtype),
{
    match dtype {
        GgmlDType::IQ2S
        | GgmlDType::IQ2XS
        | GgmlDType::IQ2XXS
        | GgmlDType::IQ3S
        | GgmlDType::IQ3XXS
        | GgmlDType::IQ4XS
        | GgmlDType::Q8_0
        | GgmlDType::Q2K
        | GgmlDType::Q4K
        | GgmlDType::Q6K => true,
        _ => false,
    }
}

/// Whether a routed projection can be computed in a format.
pub fn is_routed_format(dtype: GgmlDType) -> (yes: bool)
    ensures
        yes == routed_format(dtype),
{
    is_dual_format(dtype) || dtype == GgmlDType::Q3K || dtype == GgmlDType::Q5K
}

/// The view of an optional text.
pub open spec fn text_view(text: Option<&str>) -> Option<Seq<char>> {
    match text {
        Some(t) => Some(t@),
        None => None,
    }
}

/// Chooses the backend: `reference` on request or without CUDA, otherwise `ptx`,
/// where the formats of the routed experts allow it.
pub fn select_backend(
    requested: Option<&str>,
    is_cuda: bool,
    gate: GgmlDType,
    up: GgmlDType,
    down: GgmlDType,
) -> (backend: Result<MoeBackend, String>)
    ensures
        match backend {
            Ok(b) => chosen_backend(text_view(requested), is_cuda, gate, up, down) == Ok::<
                MoeBackend,
                Seq<char>,
            >(b),
            Err(msg) => chosen_backend(text_view(requested), is_cuda, gate, up, down) == Err::<
                MoeBackend,
                Seq<char>,
            >(msg@),
        },
{
    match requested {
        Some(value) => {
            if same_text(value, "reference") {
                return Ok(MoeBackend::Reference);
            }
            if !same_text(value, "ptx") {
                let mut msg = "invalid QWEN36_MOE_BACKEND=".to_owned();
                let shown = debug_text(value);
                msg.append(shown.as_str());
                msg.append("; expected ptx or reference");
                return Err(msg);
            }
        },
        None => {
            if !is_cuda {
                proof {
                    assert(text_view(requested) is None);
                }
                return Ok(MoeBackend::Reference);
            }
        },
    }
    proof {
        reveal_strlit("reference");
        reveal_strlit("ptx");
        assert("reference"@ != "ptx"@) by {
            assert("reference"@.len() != "ptx"@.len());
        }
    }
    if !is_cuda {
        return Err("QWEN36_MOE_BACKEND=ptx requires CUDA".to_owned());
    }
    if gate == up && is_dual_format(gate) && is_routed_format(down) {
        Ok(MoeBackend::Ptx)
    } else {
        let mut msg = "PTX MoE does not support routed dtypes gate=".to_owned();
        msg.append(gate.name());
        msg.append(" up=");
        msg.append(up.name());
        msg.append(" down=");
        msg.append(down.name());
        Err(msg)
    }
}

/// Whether the bits are those of a 32-bit float that is not a number.
pub open spec fn is_nan(bits: u32) -> bool {
    bits % 0x8000_0000 > 0x7f80_0000
}

/// An integer that orders 32-bit floats as their values are ordered, both zeros
/// being equal.
pub open spec fn float_rank(bits: u32) -> int {
    if bits < 0x8000_0000 {
        bits as int
    } else {
        -(bits as int - 0x8000_0000)
    }
}

/// The bits of negative infinity.
pub const NEG_INFINITY_BITS: u32 = 0xff80_0000;

/// Whether the value of `a` is greater than the value of `b`.
pub open spec fn float_greater(a: u32, b: u32) -> bool {
    !is_nan(a) && !is_nan(b) && float_rank(a) > float_rank(b)
}

/// Compares two 32-bit floats by their bits.
pub fn is_float_greater(a: u32, b: u32) -> (greater: bool)
    ensures
        greater == float_greater(a, b),
{
    let nan_a = a % 0x8000_0000 > 0x7f80_0000;
    let nan_b = b % 0x8000_0000 > 0x7f80_0000;
    if nan_a || nan_b {
        return false;
    }
    let rank_a: i64 = if a < 0x8000_0000 {
        a as i64
    } else {
        -(a as i64 - 0x8000_0000)
    };
    let rank_b: i64 = if b < 0x8000_0000 {
        b as i64
    } else {
        -(b as i64 - 0x8000_0000)
    };
    rank_a > rank_b
}

/// Whether expert `i` can be picked at all: it is not masked, and its value is a
/// number above negative infinity.
pub open spec fn eligible(row: Seq<u32>, masked: Set<int>, i: int) -> bool {
    0 <= i < row.len() && !masked.contains(i) && float_greater(row[i], NEG_INFINITY_BITS)
}

/// Whether `i` is the first expert of the greatest value that can be picked.
pub open spec fn is_best(row: Seq<u32>, masked: Set<int>, i: int) -> bool {
    &&& eligible(row, masked, i)
    &&& forall|j: int|
        eligible(row, masked, j) ==> float_rank(#[trigger] row[j]) < float_rank(row[i]) || (
        float_rank(row[j]) == float_rank(row[i]) && i <= j)
}

/// The expert that is picked next: the best, or expert 0 where none can be.
pub open spec fn best_expert(row: Seq<u32>, masked: Set<int>) -> int {
    if exists|i: int| eligible(row, masked, i) {
        choose|i: int| is_best(row, masked, i)
    } else {
        0
    }
}

/// The first `k` picks.
pub open spec fn picks(row: Seq<u32>, k: nat) -> Seq<int>
    decreases k,
{
    if k == 0 {
        Seq::empty()
    } else {
        let earlier = picks(row, (k - 1) as nat);
        earlier.push(best_expert(row, earlier.to_set()))
    }
}

/// The value with which pick `n` was made.
pub open spec fn pick_value(row: Seq<u32>, n: int) -> u32 {
    let masked = picks(row, n as nat).to_set();
    if exists|i: int| eligible(row, masked, i) {
        row[best_expert(row, masked)]
    } else {
        NEG_INFINITY_BITS
    }
}

/// Scans a row for the best expert that is not masked.
fn scan_best(row: &[u32], masked: &Vec<bool>, Ghost(taken): Ghost<Set<int>>) -> (best: (usize, u32))
    requires
        masked@.len() == row@.len(),
        forall|i: int| 0 <= i < row@.len() ==> #[trigger] masked@[i] == taken.contains(i),
    ensures
        best.0 == best_expert(row@, taken),
        best.1 == (if exists|i: int| eligible(row@, taken, i) {
            row@[best_expert(row@, taken)]
        } else {
            NEG_INFINITY_BITS
        }),
        row@.len() > 0 ==> best.0 < row@.len(),
{
    let mut best_idx: usize = 0;
    let mut best_val: u32 = NEG_INFINITY_BITS;
    let mut found: bool = false;
    let mut i: usize = 0;
    while i < row.len()
        invariant
            i <= row@.len(),
            masked@.len() == row@.len(),
            forall|j: int| 0 <= j < row@.len() ==> #[trigger] masked@[j] == taken.contains(j),
            !found ==> best_idx == 0 && best_val == NEG_INFINITY_BITS,
            !found ==> forall|j: int| 0 <= j < i ==> !#[trigger] eligible(row@, taken, j),
            found ==> best_idx < i && best_val == row@[best_idx as int] && eligible(
                row@,
                taken,
                best_idx as int,
            ),
            found ==> forall|j: int|
                0 <= j < i && eligible(row@, taken, j) ==> float_rank(#[trigger] row@[j])
                    < float_rank(best_val) || (float_rank(row@[j]) == float_rank(best_val)
                    && best_idx <= j),
        decreases row@.len() - i,
    {
        if !masked[i] && is_float_greater(row[i], best_val) {
            proof {
                assert(float_rank(NEG_INFINITY_BITS) == -0x7f80_0000);
                assert(eligible(row@, taken, i as int));
            }
            best_val = row[i];
            best_idx = i;
            found = true;
        }
        i += 1;
    }
    proof {
        if found {
            assert(eligible(row@, taken, best_idx as int));
            assert(is_best(row@, taken, best_idx as int));
            let chosen = best_expert(row@, taken);
            assert(is_best(row@, taken, chosen));
            assert(chosen == best_idx);
        }
    }
    (best_idx, best_val)
}

/// What the router decided for each token: its experts, best first, and the
/// probabilities that they were picked with, by their bits.
#[derive(Debug)]
pub struct RoutePlan {
    pub experts: Vec<Vec<usize>>,
    pub probs: Vec<Vec<u32>>,
}

/// The router's numbers.
#[derive(Debug, Clone, Copy, PartialEq, Eq, Structural)]
pub struct MoeRouter {
    pub n_experts: usize,
    pub n_experts_per_tok: usize,
    pub norm_topk_prob: bool,
}

/// Whether `experts` and `probs` are the first `k` picks of a row.
pub open spec fn is_top(row: Seq<u32>, k: nat, experts: Seq<usize>, probs: Seq<u32>) -> bool {
    &&& experts.len() == k
    &&& probs.len() == k
    &&& forall|n: int| 0 <= n < k ==> #[trigger] experts[n] == picks(row, k)[n]
    &&& forall|n: int| 0 <= n < k ==> #[trigger] probs[n] == pick_value(row, n)
}

proof fn lemma_picks_prefix(row: Seq<u32>, n: nat, k: nat)
    requires
        n <= k,
    ensures
        picks(row, k).len() == k,
        picks(row, n) == picks(row, k).take(n as int),
    decreases k,
{
    if n < k {
        lemma_picks_prefix(row, n, (k - 1) as nat);
        assert(picks(row, k).take(n as int) =~= picks(row, (k - 1) as nat).take(n as int));
    } else if k > 0 {
        lemma_picks_prefix(row, (k - 1) as nat, (k - 1) as nat);
        assert(picks(row, k).take(k as int) =~= picks(row, k));
    } else {
        assert(picks(row, 0).take(0) =~= picks(row, 0));
    }
}

/// Picks the `k` best experts of a row of probabilities, best first; of equal ones
/// the lower index wins.
pub fn top_experts(row: &[u32], k: usize) -> (top: (Vec<usize>, Vec<u32>))
    requires
        k > 0 ==> row@.len() > 0,
    ensures
        is_top(row@, k as nat, top.0@, top.1@),
        forall|n: int| 0 <= n < k ==> (#[trigger] top.0@[n]) < row@.len(),
{
    let mut masked: Vec<bool> = vec![false; row.len()];
    let mut experts: Vec<usize> = Vec::new();
    let mut probs: Vec<u32> = Vec::new();
    let mut n: usize = 0;
    let ghost mut taken: Set<int> = Set::empty();
    assert(picks(row@, 0).to_set() =~= taken);
    while n < k
        invariant
            n <= k,
            k > 0 ==> row@.len() > 0,
            masked@.len() == row@.len(),
            taken == picks(row@, n as nat).to_set(),
            forall|i: int| 0 <= i < row@.len() ==> #[trigger] masked@[i] == taken.contains(i),
            is_top(row@, n as nat, experts@, probs@),
            forall|i: int| 0 <= i < n ==> (#[trigger] experts@[i]) < row@.len(),
        decreases k - n,
    {
        let (best, value) = scan_best(row, &masked, Ghost(taken));
        let ghost before = picks(row@, n as nat);
        masked.set(best, true);
        experts.push(best);
        probs.push(value);
        proof {
            lemma_picks_prefix(row@, n as nat, (n + 1) as nat);
            let after = picks(row@, (n + 1) as nat);
            assert(after == before.push(best as int));
            assert(after.to_set() =~= taken.insert(best as int)) by {
                assert forall|x: int| after.to_set().contains(x) == taken.insert(
                    best as int,
                ).contains(x) by {
                    if before.contains(x) {
                        let i = choose|i: int| 0 <= i < before.len() && before[i] == x;
                        assert(after[i] == x);
                    }
                    if after.contains(x) {
                        let i = choose|i: int| 0 <= i < after.len() && after[i] == x;
                        if i < before.len() {
                            assert(before[i] == x);
                        }
                    }
                    assert(after[before.len() as int] == best);
                }
            }
            taken = taken.insert(best as int);
            assert forall|i: int| 0 <= i < n + 1 implies #[trigger] experts@[i] == after[i] by {
                if i < n {
                    assert(before[i] == after[i]);
                }
            }
        }
        n += 1;
    }
    (experts, probs)
}

impl MoeRouter {
    /// Keeps the router's numbers.
    pub fn new(n_experts: usize, n_experts_per_tok: usize, norm_topk_prob: bool) -> (router: Self)
        ensures
            router == (MoeRouter { n_experts, n_experts_per_tok, norm_topk_prob }),
    {
        MoeRouter { n_experts, n_experts_per_tok, norm_topk_prob }
    }

    /// How many experts a token goes to.
    pub open spec fn top_k(&self) -> nat {
        if self.n_experts_per_tok <= self.n_experts {
            self.n_experts_per_tok as nat
        } else {
            self.n_experts as nat
        }
    }

    /// Routes each token, given its row of expert probabilities.
    pub fn route_topk(&self, rows: &Vec<Vec<u32>>) -> (plan: RoutePlan)
        requires
            forall|t: int|
                0 <= t < rows@.len() ==> (#[trigger] rows@[t])@.len() == self.n_experts,
        ensures
            plan.experts@.len() == rows@.len(),
            plan.probs@.len() == rows@.len(),
            forall|t: int|
                0 <= t < rows@.len() ==> is_top(
                    (#[trigger] rows@[t])@,
                    self.top_k(),
                    plan.experts@[t]@,
                    plan.probs@[t]@,
                ),
            forall|t: int, n: int|
                0 <= t < rows@.len() && 0 <= n < self.top_k() ==> (
                #[trigger] plan.experts@[t]@[n]) < self.n_experts,
    {
        let k: usize = if self.n_experts_per_tok <= self.n_experts {
            self.n_experts_per_tok
        } else {
            self.n_experts
        };
        let mut experts: Vec<Vec<usize>> = Vec::new();
        let mut probs: Vec<Vec<u32>> = Vec::new();
        let mut t: usize = 0;
        while t < rows.len()
            invariant
                t <= rows@.len(),
                k == self.top_k(),
                forall|i: int|
                    0 <= i < rows@.len() ==> (#[trigger] rows@[i])@.len() == self.n_experts,
                experts@.len() == t,
                probs@.len() == t,
                forall|i: int|
                    0 <= i < t ==> is_top(
                        (#[trigger] rows@[i])@,
                        k as nat,
                        experts@[i]@,
                        probs@[i]@,
                    ),
                forall|i: int, n: int|
                    0 <= i < t && 0 <= n < k ==> (#[trigger] experts@[i]@[n]) < self.n_experts,
            decreases rows@.len() - t,
        {
            let (e, p) = top_experts(rows[t].as_slice(), k);
            experts.push(e);
            probs.push(p);
            t += 1;
        }
        RoutePlan { experts, probs }
    }
}

/// Whether expert `i` comes before expert `j`: its probability is greater, or
/// equal and its index lower.
pub open spec fn ranks_before(row: Seq<u32>, i: int, j: int) -> bool {
    float_rank(row[i]) > float_rank(row[j]) || (float_rank(row[i]) == float_rank(row[j]) && i < j)
}

/// Among the first `n` experts one is best, where any can be picked.
proof fn lemma_best_of_prefix(row: Seq<u32>, masked: Set<int>, n: int) -> (best: int)
    requires
        0 <= n <= row.len(),
        exists|i: int| i < n && eligible(row, masked, i),
    ensures
        0 <= best < n,
        eligible(row, masked, best),
        forall|j: int|
            0 <= j < n && eligible(row, masked, j) ==> float_rank(#[trigger] row[j]) < float_rank(
                row[best],
            ) || (float_rank(row[j]) == float_rank(row[best]) && best <= j),
    decreases n,
{
    let last = n - 1;
    if exists|i: int| i < last && eligible(row, masked, i) {
        let earlier = lemma_best_of_prefix(row, masked, last);
        if eligible(row, masked, last) && float_rank(row[last]) > float_rank(row[earlier]) {
            last
        } else {
            earlier
        }
    } else {
        let i = choose|i: int| i < n && eligible(row, masked, i);
        assert(i == last);
        last
    }
}

proof fn lemma_best_exists(row: Seq<u32>, masked: Set<int>)
    requires
        exists|i: int| eligible(row, masked, i),
    ensures
        is_best(row, masked, best_expert(row, masked)),
{
    let i = choose|i: int| eligible(row, masked, i);
    assert(i < row.len() && eligible(row, masked, i));
    let best = lemma_best_of_prefix(row, masked, row.len() as int);
    assert(is_best(row, masked, best));
}

/// Fewer picks than experts leave one over.
proof fn lemma_one_left(picked: Seq<int>, n: nat) -> (left: int)
    requires
        picked.len() < n,
    ensures
        0 <= left < n,
        !picked.contains(left),
{
    let range = vstd::set_lib::set_int_range(0, n as int);
    vstd::set_lib::lemma_int_range(0, n as int);
    picked.lemma_cardinality_of_set();
    if forall|i: int| 0 <= i < n ==> picked.contains(i) {
        assert(range.subset_of(picked.to_set()));
        vstd::set_lib::lemma_len_subset(range, picked.to_set());
        0
    } else {
        choose|i: int| 0 <= i < n && !picked.contains(i)
    }
}

/// Top-k selection is stable: where every probability is a number, the picks are
/// distinct experts in descending order of probability, of equal ones the lower
/// index first, and no expert that was left out comes before one that was picked.
pub proof fn law_topk_is_stable(row: Seq<u32>, k: nat)
    requires
        k <= row.len(),
        forall|i: int| 0 <= i < row.len() ==> float_greater(#[trigger] row[i], NEG_INFINITY_BITS),
    ensures
        picks(row, k).len() == k,
        forall|a: int| 0 <= a < k ==> 0 <= #[trigger] picks(row, k)[a] < row.len(),
        forall|a: int, b: int|
            0 <= a < b < k ==> ranks_before(
                row,
                #[trigger] picks(row, k)[a],
                #[trigger] picks(row, k)[b],
            ),
        forall|a: int, x: int|
            0 <= a < k && 0 <= x < row.len() && !picks(row, k).contains(x) ==> #[trigger] ranks_before(
                row,
                picks(row, k)[a],
                x,
            ),
        forall|n: int| 0 <= n < k ==> #[trigger] pick_value(row, n) == row[picks(row, k)[n]],
    decreases k,
{
    if k > 0 {
        let m = (k - 1) as nat;
        law_topk_is_stable(row, m);
        let earlier = picks(row, m);
        let all = picks(row, k);
        let masked = earlier.to_set();
        let left = lemma_one_left(earlier, row.len());
        assert(eligible(row, masked, left));
        lemma_best_exists(row, masked);
        let best = best_expert(row, masked);
        assert(all == earlier.push(best));
        assert(!earlier.contains(best));
        assert forall|a: int, b: int| 0 <= a < b < k implies ranks_before(
            row,
            #[trigger] all[a],
            #[trigger] all[b],
        ) by {
            if b == m {
                assert(ranks_before(row, earlier[a], best));
            } else {
                assert(all[a] == earlier[a] && all[b] == earlier[b]);
            }
        }
        assert forall|a: int, x: int|
            0 <= a < k && 0 <= x < row.len() && !all.contains(x) implies #[trigger] ranks_before(
            row,
            all[a],
            x,
        ) by {
            if earlier.contains(x) {
                let i = choose|i: int| 0 <= i < earlier.len() && earlier[i] == x;
                assert(all[i] == x);
            }
            assert(all[m as int] == best);
            if a < m {
                assert(ranks_before(row, earlier[a], x));
            } else {
                assert(eligible(row, masked, x));
            }
        }
        assert forall|n: int| 0 <= n < k implies #[trigger] pick_value(row, n) == row[all[n]] by {
            if n < m {
                assert(pick_value(row, n) == row[earlier[n]]);
            }
        }
    }
}

/// A token and the place of an expert among its picks.
pub struct Assignment {
    pub token: int,
    pub rank: int,
}

/// The picks of token `t`, first to last.
pub open spec fn token_assignments(t: int, picks: nat) -> Seq<Assignment> {
    Seq::new(picks, |r: int| Assignment { token: t, rank: r })
}

/// The picks of the first `n` tokens, token by token.
pub open spec fn assignments(experts: Seq<Vec<usize>>, n: nat) -> Seq<Assignment>
    decreases n,
{
    if n == 0 {
        Seq::empty()
    } else {
        assignments(experts, (n - 1) as nat) + token_assignments(n - 1, experts[n - 1]@.len())
    }
}

/// The views of an expert's assignments.
pub open spec fn pairs(group: Seq<(usize, usize)>) -> Seq<Assignment> {
    Seq::new(group.len(), |i: int| Assignment { token: group[i].0 as int, rank: group[i].1 as int })
}

/// Whether an assignment is to expert `e`.
pub open spec fn goes_to(experts: Seq<Vec<usize>>, e: int) -> spec_fn(Assignment) -> bool {
    |a: Assignment| experts[a.token]@[a.rank] == e
}

/// Groups the routed tokens by expert: for each expert the tokens that picked it,
/// in token order, and at which place.
pub fn group_by_expert(experts: &Vec<Vec<usize>>, n_experts: usize) -> (groups: Vec<
    Vec<(usize, usize)>,
>)
    requires
        forall|t: int, r: int|
            0 <= t < experts@.len() && 0 <= r < experts@[t]@.len() ==> (
            #[trigger] experts@[t]@[r]) < n_experts,
    ensures
        groups@.len() == n_experts,
        forall|e: int|
            0 <= e < n_experts ==> pairs((#[trigger] groups@[e])@) == assignments(
                experts@,
                experts@.len(),
            ).filter(goes_to(experts@, e)),
{
    let mut groups: Vec<Vec<(usize, usize)>> = Vec::new();
    let mut g: usize = 0;
    while g < n_experts
        invariant
            g <= n_experts,
            groups@.len() == g,
            forall|e: int| 0 <= e < g ==> (#[trigger] groups@[e])@.len() == 0,
        decreases n_experts - g,
    {
        groups.push(Vec::new());
        g += 1;
    }
    let mut t: usize = 0;
    proof {
        reveal(Seq::filter);
        assert forall|e: int| 0 <= e < n_experts implies pairs((#[trigger] groups@[e])@)
            == assignments(experts@, 0).filter(goes_to(experts@, e)) by {
            assert(pairs(groups@[e]@) =~= Seq::empty());
        }
    }
    while t < experts.len()
        invariant
            t <= experts@.len(),
            groups@.len() == n_experts,
            forall|i: int, r: int|
                0 <= i < experts@.len() && 0 <= r < experts@[i]@.len() ==> (
                #[trigger] experts@[i]@[r]) < n_experts,
            forall|e: int|
                0 <= e < n_experts ==> pairs((#[trigger] groups@[e])@) == assignments(
                    experts@,
                    t as nat,
                ).filter(goes_to(experts@, e)),
        decreases experts@.len() - t,
    {
        let ghost done = assignments(experts@, t as nat);
        let mut r: usize = 0;
        assert(done + token_assignments(t as int, 0) =~= done);
        while r < experts[t].len()
            invariant
                t < experts@.len(),
                r <= experts@[t as int]@.len(),
                groups@.len() == n_experts,
                forall|i: int, j: int|
                    0 <= i < experts@.len() && 0 <= j < experts@[i]@.len() ==> (
                    #[trigger] experts@[i]@[j]) < n_experts,
                forall|e: int|
                    0 <= e < n_experts ==> pairs((#[trigger] groups@[e])@) == (done
                        + token_assignments(t as int, r as nat)).filter(goes_to(experts@, e)),
            decreases experts@[t as int]@.len() - r,
        {
            let e: usize = experts[t][r];
            let ghost old_groups = groups@;
            let ghost so_far = done + token_assignments(t as int, r as nat);
            let ghost next = Assignment { token: t as int, rank: r as int };
            groups[e].push((t, r));
            proof {
                assert(done + token_assignments(t as int, (r + 1) as nat) =~= so_far.push(next));
                assert forall|x: int| 0 <= x < n_experts implies pairs((#[trigger] groups@[x])@)
                    == so_far.push(next).filter(goes_to(experts@, x)) by {
                    reveal(Seq::filter);
                    assert(so_far.push(next).drop_last() =~= so_far);
                    if x == e {
                        assert(pairs(groups@[x]@) =~= pairs(old_groups[x]@).push(next));
                    } else {
                        assert(groups@[x] == old_groups[x]);
                    }
                }
            }
            r += 1;
        }
        t += 1;
    }
    groups
}

/// The width of the routed experts by their packed shapes, or what is wrong with
/// these.
pub open spec fn packed_width_model(gate: Seq<usize>, down: Seq<usize>) -> Result<usize, Seq<char>> {
    if gate.len() != 3 {
        Err("reference_routed_swiglu: unexpected gate rank "@ + bracketed(decimals(gate)))
    } else if down.len() != 3 {
        Err("reference_routed_swiglu: unexpected down rank "@ + bracketed(decimals(down)))
    } else if down[2] != gate[1] {
        Err(
            "reference_routed_swiglu: n_ff mismatch gate "@ + decimal(gate[1] as nat) + " vs down "@
                + decimal(down[2] as nat),
        )
    } else {
        Ok(gate[1])
    }
}

/// Reads the width of the routed experts off their packed shapes: `[experts, width,
/// hidden]` for gate weights and `[experts, hidden, width]` for down weights.
pub fn packed_width(gate: &[usize], down: &[usize]) -> (width: Result<usize, String>)
    ensures
        match width {
            Ok(n) => packed_width_model(gate@, down@) == Ok::<usize, Seq<char>>(n),
            Err(msg) => packed_width_model(gate@, down@) == Err::<usize, Seq<char>>(msg@),
        },
{
    if gate.len() != 3 {
        let mut msg = "reference_routed_swiglu: unexpected gate rank ".to_owned();
        push_list(&mut msg, gate);
        return Err(msg);
    }
    if down.len() != 3 {
        let mut msg = "reference_routed_swiglu: unexpected down rank ".to_owned();
        push_list(&mut msg, down);
        return Err(msg);
    }
    if down[2] != gate[1] {
        let mut msg = "reference_routed_swiglu: n_ff mismatch gate ".to_owned();
        push_decimal(&mut msg, gate[1] as u64);
        msg.append(" vs down ");
        push_decimal(&mut msg, down[2] as u64);
        return Err(msg);
    }
    Ok(gate[1])
}

/// The experts of all tokens in one row, token by token.
pub open spec fn flat_experts(experts: Seq<Vec<usize>>, n: nat) -> Seq<u32>
    decreases n,
{
    if n == 0 {
        Seq::empty()
    } else {
        flat_experts(experts, (n - 1) as nat) + experts[n - 1]@.map_values(|e: usize| e as u32)
    }
}

/// Flattens the routed experts for an indexed product: how many there are per
/// token, by the first token, and all of them in one row.
pub fn flatten_routes(experts: &Vec<Vec<usize>>) -> (flat: (usize, Vec<u32>))
    requires
        forall|t: int, r: int|
            0 <= t < experts@.len() && 0 <= r < experts@[t]@.len() ==> (
            #[trigger] experts@[t]@[r]) <= u32::MAX,
    ensures
        flat.0 == (if experts@.len() == 0 {
            0
        } else {
            experts@[0]@.len()
        }),
        flat.1@ == flat_experts(experts@, experts@.len()),
{
    let topk: usize = if experts.len() == 0 {
        0
    } else {
        experts[0].len()
    };
    let mut ids: Vec<u32> = Vec::new();
    let mut t: usize = 0;
    while t < experts.len()
        invariant
            t <= experts@.len(),
            ids@ == flat_experts(experts@, t as nat),
        decreases experts@.len() - t,
    {
        let ghost before = ids@;
        let ghost mapped = experts@[t as int]@.map_values(|e: usize| e as u32);
        let mut r: usize = 0;
        while r < experts[t].len()
            invariant
                t < experts@.len(),
                r <= experts@[t as int]@.len(),
                mapped == experts@[t as int]@.map_values(|e: usize| e as u32),
                ids@ == before + mapped.take(r as int),
            decreases experts@[t as int]@.len() - r,
        {
            ids.push(experts[t][r] as u32);
            assert(ids@ =~= before + mapped.take(r + 1));
            r += 1;
        }
        assert(mapped.take(mapped.len() as int) =~= mapped);
        t += 1;
    }
    (topk, ids)
}

/// The value of a 32-bit float that is a number, in units of the smallest one above zero:
/// the significand times two to the exponent, with its sign. Infinities count as the next
/// power of two.
pub open spec fn float_value(bits: u32) -> int {
    let magnitude = bits as int % 0x8000_0000;
    let exponent = magnitude / 0x80_0000;
    let fraction = magnitude % 0x80_0000;
    let size = if exponent == 0 {
        fraction
    } else {
        (0x80_0000 + fraction) * pow2((exponent - 1) as nat)
    };
    if bits < 0x8000_0000 {
        size
    } else {
        -size
    }
}

proof fn lemma_magnitudes_grow(a: int, b: int)
    requires
        0 <= a < b < 0x8000_0000,
    ensures
        0 <= float_value(a as u32) < float_value(b as u32),
{
    let (ea, fa) = (a / 0x80_0000, a % 0x80_0000);
    let (eb, fb) = (b / 0x80_0000, b % 0x80_0000);
    assert(0 <= ea <= eb <= 255);
    if ea > 0 {
        lemma_pow2_pos((ea - 1) as nat);
    }
    if eb > 0 {
        lemma_pow2_pos((eb - 1) as nat);
    }
    if ea == eb {
        assert(fa < fb);
        if ea > 0 {
            let p = pow2((ea - 1) as nat) as int;
            assert(0 <= (0x80_0000 + fa) * p < (0x80_0000 + fb) * p) by (nonlinear_arith)
                requires
                    0 <= fa < fb,
                    p > 0,
            ;
        }
    } else if ea == 0 {
        let p = pow2((eb - 1) as nat) as int;
        assert(fa < (0x80_0000 + fb) * p) by (nonlinear_arith)
            requires
                fa < 0x80_0000,
                fb >= 0,
                p >= 1,
        ;
    } else {
        let p = pow2((ea - 1) as nat) as int;
        let q = pow2((eb - 1) as nat) as int;
        vstd::arithmetic::power2::lemma_pow2_unfold(ea as nat);
        if ea < eb - 1 {
            vstd::arithmetic::power2::lemma_pow2_strictly_increases(ea as nat, (eb - 1) as nat);
        }
        assert(q >= 2 * p);
        assert(0 <= (0x80_0000 + fa) * p < (0x80_0000 + fb) * q) by (nonlinear_arith)
            requires
                0 <= fa < 0x80_0000,
                0 <= fb,
                p > 0,
                q >= 2 * p,
        ;
    }
}

/// Numbers are compared by their values: neither sign, exponent nor fraction is treated
/// otherwise. Nothing is greater than what is no number, nor is that greater than anything.
pub proof fn law_floats_are_ordered_by_value(a: u32, b: u32)
    ensures
        !is_nan(a) && !is_nan(b) ==> (float_greater(a, b) <==> float_value(a) > float_value(b)),
        is_nan(a) || is_nan(b) ==> !float_greater(a, b),
        is_nan(a) <==> (a as int % 0x8000_0000) / 0x80_0000 == 255 && a as int % 0x80_0000 != 0,
{
    let x = a as int % 0x8000_0000;
    let y = b as int % 0x8000_0000;
    assert(float_value(x as u32) == if a < 0x8000_0000 {
        float_value(a)
    } else {
        -float_value(a)
    });
    assert(float_value(y as u32) == if b < 0x8000_0000 {
        float_value(b)
    } else {
        -float_value(b)
    });
    if x < y {
        lemma_magnitudes_grow(x, y);
    } else if y < x {
        lemma_magnitudes_grow(y, x);
    }
    if x > 0 {
        lemma_magnitudes_grow(0, x);
    }
    if y > 0 {
        lemma_magnitudes_grow(0, y);
    }
    assert(float_value(0) == 0);
}

/// The routed experts are the best by value: as many as asked for, all different, with
/// their own probabilities, in descending order, and none that was left out has a greater
/// one.
pub proof fn law_routed_experts_are_the_best(
    row: Seq<u32>,
    k: nat,
    experts: Seq<usize>,
    probs: Seq<u32>,
)
    requires
        k <= row.len() <= usize::MAX,
        forall|i: int| 0 <= i < row.len() ==> !is_nan(#[trigger] row[i]) && row[i] != 0xff80_0000,
        is_top(row, k, experts, probs),
    ensures
        experts.len() == k,
        probs.len() == k,
        forall|n: int|
            0 <= n < k ==> (#[trigger] experts[n]) < row.len() && probs[n] == row[experts[n] as int],
        forall|m: int, n: int|
            0 <= m < n < k ==> (#[trigger] experts[m]) != (#[trigger] experts[n]) && float_value(
                probs[m],
            ) >= float_value(probs[n]) && (float_value(probs[m]) == float_value(probs[n])
                ==> experts[m] < experts[n]),
        forall|n: int, x: int|
            0 <= n < k && 0 <= x < row.len() && !experts.contains(x as usize)
                ==> #[trigger] float_value(row[x]) <= #[trigger] float_value(probs[n]),
{
    assert forall|i: int| 0 <= i < row.len() implies float_greater(
        #[trigger] row[i],
        NEG_INFINITY_BITS,
    ) by {
        assert(float_rank(NEG_INFINITY_BITS) == -0x7f80_0000);
    }
    law_topk_is_stable(row, k);
    let all = picks(row, k);
    assert forall|n: int| 0 <= n < k implies (#[trigger] experts[n]) < row.len() && probs[n]
        == row[experts[n] as int] by {
        assert(all[n] < row.len());
        assert(pick_value(row, n) == row[all[n]]);
    }
    assert forall|m: int, n: int| 0 <= m < n < k implies (#[trigger] experts[m]) != (
    #[trigger] experts[n]) && float_value(probs[m]) >= float_value(probs[n]) && (float_value(
        probs[m],
    ) == float_value(probs[n]) ==> experts[m] < experts[n]) by {
        assert(ranks_before(row, all[m], all[n]));
        law_floats_are_ordered_by_value(probs[m], probs[n]);
        law_floats_are_ordered_by_value(probs[n], probs[m]);
    }
    assert forall|n: int, x: int|
        0 <= n < k && 0 <= x < row.len() && !experts.contains(x as usize) implies
        #[trigger] float_value(row[x]) <= #[trigger] float_value(probs[n]) by {
        if all.contains(x) {
            let j = choose|j: int| 0 <= j < all.len() && all[j] == x;
            assert(experts[j] == x);
        }
        assert(ranks_before(row, all[n], x));
        law_floats_are_ordered_by_value(row[x], probs[n]);
    }
}

/// A token goes to as many experts as are asked for, but never to more than there are.
pub proof fn law_tokens_go_to_so_many_experts(router: MoeRouter)
    ensures
        router.top_k() <= router.n_experts,
        router.top_k() <= router.n_experts_per_tok,
        router.top_k() == router.n_experts || router.top_k() == router.n_experts_per_tok,
{
}

/// Whether an assignment comes before another: an earlier token, or an earlier pick of the
/// same.
pub open spec fn comes_before(a: Assignment, b: Assignment) -> bool {
    a.token < b.token || (a.token == b.token && a.rank < b.rank)
}

/// Whether assignments lie in order, none twice.
pub open spec fn in_order(list: Seq<Assignment>) -> bool {
    forall|i: int, j: int|
        0 <= i < j < list.len() ==> comes_before(#[trigger] list[i], #[trigger] list[j])
}

proof fn lemma_assignments_are_the_picks(experts: Seq<Vec<usize>>, n: nat)
    requires
        n <= experts.len(),
    ensures
        in_order(assignments(experts, n)),
        forall|i: int|
            0 <= i < assignments(experts, n).len() ==> {
                let a = #[trigger] assignments(experts, n)[i];
                0 <= a.token < n && 0 <= a.rank < experts[a.token]@.len()
            },
        forall|t: int, r: int|
            0 <= t < n && 0 <= r < experts[t]@.len() ==> assignments(experts, n).contains(
                #[trigger] pick_of(t, r),
            ),
    decreases n,
{
    if n > 0 {
        let m = (n - 1) as nat;
        lemma_assignments_are_the_picks(experts, m);
        let earlier = assignments(experts, m);
        let own = token_assignments(m as int, experts[m as int]@.len());
        let all = assignments(experts, n);
        assert(all == earlier + own);
        assert forall|t: int, r: int| 0 <= t < n && 0 <= r < experts[t]@.len() implies all.contains(
            #[trigger] pick_of(t, r),
        ) by {
            if t < m {
                assert(earlier.contains(pick_of(t, r)));
                let i = choose|i: int| 0 <= i < earlier.len() && earlier[i] == pick_of(t, r);
                assert(all[i] == pick_of(t, r));
            } else {
                assert(own[r] == pick_of(t, r));
                assert(all[earlier.len() + r] == pick_of(t, r));
            }
        }
    }
}

/// Pick `r` of token `t`.
pub open spec fn pick_of(t: int, r: int) -> Assignment {
    Assignment { token: t, rank: r }
}

proof fn lemma_filter_keeps_order(list: Seq<Assignment>, wanted: spec_fn(Assignment) -> bool)
    requires
        in_order(list),
    ensures
        in_order(list.filter(wanted)),
        forall|i: int|
            0 <= i < list.filter(wanted).len() ==> wanted(#[trigger] list.filter(wanted)[i])
                && list.contains(list.filter(wanted)[i]),
        forall|i: int|
            0 <= i < list.len() && wanted(#[trigger] list[i]) ==> list.filter(wanted).contains(
                list[i],
            ),
    decreases list.len(),
{
    reveal(Seq::filter);
    if list.len() > 0 {
        let fore = list.drop_last();
        let last = list.last();
        lemma_filter_keeps_order(fore, wanted);
        let kept = fore.filter(wanted);
        let all = list.filter(wanted);
        assert forall|i: int| 0 <= i < kept.len() implies comes_before(#[trigger] kept[i], last)
            && list.contains(kept[i]) by {
            assert(fore.contains(kept[i]));
            let j = choose|j: int| 0 <= j < fore.len() && fore[j] == kept[i];
            assert(list[j] == kept[i]);
        }
        assert(list.contains(last)) by {
            assert(list[list.len() - 1] == last);
        }
        if wanted(last) {
            assert(all == kept.push(last));
            assert forall|i: int| 0 <= i < list.len() && wanted(#[trigger] list[i]) implies all.contains(
                list[i],
            ) by {
                if i < fore.len() {
                    assert(fore[i] == list[i]);
                    let j = choose|j: int| 0 <= j < kept.len() && kept[j] == list[i];
                    assert(all[j] == list[i]);
                } else {
                    assert(all[kept.len() as int] == list[i]);
                }
            }
        } else {
            assert(all == kept);
            assert forall|i: int| 0 <= i < list.len() && wanted(#[trigger] list[i]) implies all.contains(
                list[i],
            ) by {
                assert(i < fore.len());
                assert(fore[i] == list[i]);
            }
        }
    }
}

/// Whether groups are those of the routed tokens by expert.
pub open spec fn grouped(experts: Seq<Vec<usize>>, groups: Seq<Vec<(usize, usize)>>) -> bool {
    forall|e: int|
        0 <= e < groups.len() ==> pairs((#[trigger] groups[e])@) == assignments(
            experts,
            experts.len(),
        ).filter(goes_to(experts, e))
}

/// No routed pick is lost or invented: each pick of each token is in its expert's group,
/// once and in no other, and a group holds nothing but its expert's picks, earlier tokens
/// first.
pub proof fn law_every_pick_is_grouped_once(
    experts: Seq<Vec<usize>>,
    groups: Seq<Vec<(usize, usize)>>,
    t: int,
    r: int,
)
    requires
        grouped(experts, groups),
        0 <= t < experts.len(),
        0 <= r < experts[t]@.len(),
        experts[t]@[r] < groups.len(),
    ensures
        exists|i: int|
            0 <= i < groups[experts[t]@[r] as int]@.len() && (
            #[trigger] groups[experts[t]@[r] as int]@[i]).0 == t
                && groups[experts[t]@[r] as int]@[i].1 == r,
        forall|e: int, i: int|
            0 <= e < groups.len() && 0 <= i < groups[e]@.len() && (#[trigger] groups[e]@[i]).0 == t
                && groups[e]@[i].1 == r ==> e == experts[t]@[r],
        forall|i: int, j: int|
            0 <= i < j < groups[experts[t]@[r] as int]@.len() ==> {
                let a = #[trigger] groups[experts[t]@[r] as int]@[i];
                let b = #[trigger] groups[experts[t]@[r] as int]@[j];
                a.0 < b.0 || (a.0 == b.0 && a.1 < b.1)
            },
{
    let all = assignments(experts, experts.len());
    lemma_assignments_are_the_picks(experts, experts.len());
    assert forall|e: int, i: int|
        0 <= e < groups.len() && 0 <= i < groups[e]@.len() && (#[trigger] groups[e]@[i]).0 == t
            && groups[e]@[i].1 == r implies e == experts[t]@[r] by {
        lemma_filter_keeps_order(all, goes_to(experts, e));
        let list = all.filter(goes_to(experts, e));
        assert(pairs(groups[e]@)[i] == list[i]);
        assert(goes_to(experts, e)(list[i]));
    }
    let e = experts[t]@[r] as int;
    lemma_filter_keeps_order(all, goes_to(experts, e));
    let list = all.filter(goes_to(experts, e));
    assert(all.contains(pick_of(t, r)));
    let k = choose|k: int| 0 <= k < all.len() && all[k] == pick_of(t, r);
    assert(goes_to(experts, e)(all[k]));
    assert(list.contains(pick_of(t, r)));
    let i = choose|i: int| 0 <= i < list.len() && list[i] == pick_of(t, r);
    assert(pairs(groups[e]@)[i] == list[i]);
    assert(groups[e]@[i].0 == t && groups[e]@[i].1 == r);
    assert forall|i: int, j: int| 0 <= i < j < groups[e]@.len() implies {
        let a = #[trigger] groups[e]@[i];
        let b = #[trigger] groups[e]@[j];
        a.0 < b.0 || (a.0 == b.0 && a.1 < b.1)
    } by {
        assert(pairs(groups[e]@)[i] == list[i]);
        assert(pairs(groups[e]@)[j] == list[j]);
        assert(comes_before(list[i], list[j]));
    }
}

/// What is in an expert's group is a pick of a token, for that expert.
pub proof fn law_groups_hold_picks_only(
    experts: Seq<Vec<usize>>,
    groups: Seq<Vec<(usize, usize)>>,
    e: int,
    i: int,
)
    requires
        grouped(experts, groups),
        0 <= e < groups.len(),
        0 <= i < groups[e]@.len(),
    ensures
        groups[e]@[i].0 < experts.len(),
        groups[e]@[i].1 < experts[groups[e]@[i].0 as int]@.len(),
        experts[groups[e]@[i].0 as int]@[groups[e]@[i].1 as int] == e,
{
    let all = assignments(experts, experts.len());
    lemma_assignments_are_the_picks(experts, experts.len());
    lemma_filter_keeps_order(all, goes_to(experts, e));
    let list = all.filter(goes_to(experts, e));
    assert(pairs(groups[e]@)[i] == list[i]);
    assert(goes_to(experts, e)(list[i]));
    let k = choose|k: int| 0 <= k < all.len() && all[k] == list[i];
    assert(all[k] == list[i]);
}

/// How many picks the first `n` tokens have together.
pub open spec fn picks_of_all(experts: Seq<Vec<usize>>, n: nat) -> nat
    decreases n,
{
    if n == 0 {
        0
    } else {
        picks_of_all(experts, (n - 1) as nat) + experts[n - 1]@.len()
    }
}

/// How many entries the first `n` groups have together.
pub open spec fn entries_of_all(groups: Seq<Vec<(usize, usize)>>, n: nat) -> nat
    decreases n,
{
    if n == 0 {
        0
    } else {
        entries_of_all(groups, (n - 1) as nat) + groups[n - 1]@.len()
    }
}

/// How many of some assignments go to the first `n` experts.
spec fn going_to_first(list: Seq<Assignment>, experts: Seq<Vec<usize>>, n: nat) -> nat
    decreases n,
{
    if n == 0 {
        0
    } else {
        going_to_first(list, experts, (n - 1) as nat) + list.filter(goes_to(experts, n - 1)).len()
    }
}

proof fn lemma_one_more_goes_somewhere(
    list: Seq<Assignment>,
    a: Assignment,
    experts: Seq<Vec<usize>>,
    n: nat,
)
    ensures
        going_to_first(list.push(a), experts, n) == going_to_first(list, experts, n) + (
        if experts[a.token]@[a.rank] < n {
            1nat
        } else {
            0
        }),
    decreases n,
{
    if n > 0 {
        lemma_one_more_goes_somewhere(list, a, experts, (n - 1) as nat);
        reveal(Seq::filter);
        assert(list.push(a).drop_last() =~= list);
        assert(list.push(a).last() == a);
    }
}

proof fn lemma_all_go_somewhere(list: Seq<Assignment>, experts: Seq<Vec<usize>>, n: nat)
    requires
        forall|i: int|
            0 <= i < list.len() ==> experts[(#[trigger] list[i]).token]@[list[i].rank] < n,
    ensures
        going_to_first(list, experts, n) == list.len(),
    decreases list.len(),
{
    if list.len() > 0 {
        let fore = list.drop_last();
        assert forall|i: int| 0 <= i < fore.len() implies experts[(
        #[trigger] fore[i]).token]@[fore[i].rank] < n by {
            assert(fore[i] == list[i]);
        }
        lemma_all_go_somewhere(fore, experts, n);
        lemma_one_more_goes_somewhere(fore, list.last(), experts, n);
        assert(fore.push(list.last()) =~= list);
        assert(list[list.len() - 1] == list.last());
    } else {
        lemma_none_go(experts, n);
        assert(list =~= Seq::empty());
    }
}

proof fn lemma_none_go(experts: Seq<Vec<usize>>, n: nat)
    ensures
        going_to_first(Seq::empty(), experts, n) == 0,
    decreases n,
{
    reveal(Seq::filter);
    if n > 0 {
        lemma_none_go(experts, (n - 1) as nat);
    }
}

proof fn lemma_assignments_counted(experts: Seq<Vec<usize>>, n: nat)
    ensures
        assignments(experts, n).len() == picks_of_all(experts, n),
    decreases n,
{
    if n > 0 {
        lemma_assignments_counted(experts, (n - 1) as nat);
    }
}

proof fn lemma_entries_counted(
    experts: Seq<Vec<usize>>,
    groups: Seq<Vec<(usize, usize)>>,
    n: nat,
)
    requires
        grouped(experts, groups),
        n <= groups.len(),
    ensures
        entries_of_all(groups, n) == going_to_first(
            assignments(experts, experts.len()),
            experts,
            n,
        ),
    decreases n,
{
    if n > 0 {
        lemma_entries_counted(experts, groups, (n - 1) as nat);
        assert(pairs(groups[n - 1]@).len() == groups[n - 1]@.len());
    }
}

/// The groups together have as many entries as the tokens have picks.
pub proof fn law_groups_have_as_many_entries_as_picks(
    experts: Seq<Vec<usize>>,
    groups: Seq<Vec<(usize, usize)>>,
)
    requires
        grouped(experts, groups),
        forall|t: int, r: int|
            0 <= t < experts.len() && 0 <= r < experts[t]@.len() ==> (#[trigger] experts[t]@[r])
                < groups.len(),
    ensures
        entries_of_all(groups, groups.len()) == picks_of_all(experts, experts.len()),
{
    let all = assignments(experts, experts.len());
    lemma_assignments_are_the_picks(experts, experts.len());
    assert forall|i: int| 0 <= i < all.len() implies experts[(#[trigger] all[i]).token]@[all[i].rank]
        < groups.len() by {
        assert(0 <= all[i].token < experts.len());
    }
    lemma_all_go_somewhere(all, experts, groups.len());
    lemma_assignments_counted(experts, experts.len());
    lemma_entries_counted(experts, groups, groups.len());
}

/// Where every token has `k` picks, pick `r` of token `t` stands at `t * k + r` of the flat
/// row, and nothing else stands there.
pub proof fn law_flat_routes_are_row_major(experts: Seq<Vec<usize>>, k: nat, n: nat, t: int, r: int)
    requires
        n <= experts.len(),
        0 <= t < n,
        0 <= r < k,
        forall|i: int| 0 <= i < n ==> (#[trigger] experts[i])@.len() == k,
    ensures
        flat_experts(experts, n).len() == n * k,
        0 <= t * k + r < n * k,
        flat_experts(experts, n)[t * k + r] == experts[t]@[r] as u32,
    decreases n,
{
    lemma_flat_length(experts, k, n);
    let m = (n - 1) as nat;
    lemma_flat_length(experts, k, m);
    assert(0 <= t * k && t * k + r < n * k) by (nonlinear_arith)
        requires
            0 <= t,
            t + 1 <= n,
            0 <= r < k,
    ;
    if t < m {
        law_flat_routes_are_row_major(experts, k, m, t, r);
    }
}

proof fn lemma_flat_length(experts: Seq<Vec<usize>>, k: nat, n: nat)
    requires
        n <= experts.len(),
        forall|i: int| 0 <= i < n ==> (#[trigger] experts[i])@.len() == k,
    ensures
        flat_experts(experts, n).len() == n * k,
    decreases n,
{
    if n > 0 {
        lemma_flat_length(experts, k, (n - 1) as nat);
        assert((n - 1) * k + k == n * k) by (nonlinear_arith);
    } else {
        assert(n * k == 0) by (nonlinear_arith)
            requires
                n == 0,
        ;
    }
}

/// A width is read off exactly the packed weights that agree on it: `[experts, width,
/// hidden]` and `[experts, hidden, width]`.
pub proof fn law_packed_shapes_share_their_width(gate: Seq<usize>, down: Seq<usize>)
    ensures
        packed_width_model(gate, down) is Ok <==> gate.len() == 3 && down.len() == 3 && gate[1]
            == down[2],
        packed_width_model(gate, down) matches Ok(width) ==> width == gate[1] && width == down[2],
{
}

/// Without a request a device of CUDA computes the routed experts and any other machine
/// refers them to the reference; a request for either is kept to, and any other refused.
/// Which formats CUDA computes does not depend on the request.
pub proof fn law_backend_follows_request_and_device(
    is_cuda: bool,
    gate: GgmlDType,
    up: GgmlDType,
    down: GgmlDType,
    text: Seq<char>,
)
    ensures
        chosen_backend(Some("reference"@), is_cuda, gate, up, down) == Ok::<MoeBackend, Seq<char>>(
            MoeBackend::Reference,
        ),
        chosen_backend(None, false, gate, up, down) == Ok::<MoeBackend, Seq<char>>(
            MoeBackend::Reference,
        ),
        chosen_backend(Some("ptx"@), false, gate, up, down) is Err,
        chosen_backend(Some("ptx"@), true, gate, up, down) == chosen_backend(
            None,
            true,
            gate,
            up,
            down,
        ),
        chosen_backend(None, true, gate, up, down) matches Ok(b) ==> b == MoeBackend::Ptx,
        text != "reference"@ && text != "ptx"@ ==> chosen_backend(
            Some(text),
            is_cuda,
            gate,
            up,
            down,
        ) is Err,
        chosen_backend(None, true, gate, up, down) is Ok ==> gate == up,
{
    reveal_strlit("reference");
    reveal_strlit("ptx");
    assert("reference"@.len() != "ptx"@.len());
}

/// What CUDA computes of routed experts: plain floats, the 32-element formats but `Q8_0`,
/// and `Q8K` are out; `Q3K` and `Q5K` serve for down projections only.
pub proof fn law_formats_that_cuda_routes(dtype: GgmlDType)
    ensures
        !routed_format(dtype) <==> {
            ||| dtype == GgmlDType::F32
            ||| dtype == GgmlDType::F16
            ||| dtype == GgmlDType::BF16
            ||| dtype == GgmlDType::Q4_0
            ||| dtype == GgmlDType::Q4_1
            ||| dtype == GgmlDType::Q5_0
            ||| dtype == GgmlDType::Q5_1
            ||| dtype == GgmlDType::Q8_1
            ||| dtype == GgmlDType::Q8K
        },
        routed_format(dtype) && !dual_format(dtype) <==> dtype == GgmlDType::Q3K || dtype
            == GgmlDType::Q5K,
        forall|up: GgmlDType, down: GgmlDType|
            chosen_backend(None, true, dtype, up, down) is Ok <==> (up == dtype && dual_format(dtype)
                && routed_format(down)),
{
}

} // verus!
