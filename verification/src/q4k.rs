//! Choosing the matrix-product kernel for Q4_K weights.
use crate::env_text::{same_folded, same_ignoring_case};
use crate::moe::text_view;
use vstd::prelude::*;

verus! {

/// Kernel variants for Q4_K products. The default is `V2Opt`.
#[derive(Debug, Clone, Copy, PartialEq, Eq, Structural)]
pub enum Q4KKernelVariant {
    /// The general kernel.
    V1Fast,
    /// Pre-packed metadata; the default.
    V2Opt,
    /// Half-precision scales, same results as `V2Opt`.
    V3ThreadgroupCache,
    /// Half precision throughout; loses precision.
    V4FullHalf,
}

/// The variant with number `v`; any other number means the default.
pub open spec fn variant_numbered(v: i8) -> Q4KKernelVariant {
    if v == 0 {
        Q4KKernelVariant::V1Fast
    } else if v == 2 {
        Q4KKernelVariant::V3ThreadgroupCache
    } else if v == 3 {
        Q4KKernelVariant::V4FullHalf
    } else {
        Q4KKernelVariant::V2Opt
    }
}

/// The number of a variant.
pub open spec fn variant_number(v: Q4KKernelVariant) -> i8 {
    match v {
        Q4KKernelVariant::V1Fast => 0,
        Q4KKernelVariant::V2Opt => 1,
        Q4KKernelVariant::V3ThreadgroupCache => 2,
        Q4KKernelVariant::V4FullHalf => 3,
    }
}

/// The variant that an environment text names, the default where it names none.
pub open spec fn variant_named(text: Option<Seq<char>>) -> Q4KKernelVariant {
    match text {
        None => Q4KKernelVariant::V2Opt,
        Some(t) => if same_folded(t, "v1"@) {
            Q4KKernelVariant::V1Fast
        } else if same_folded(t, "v3"@) {
            Q4KKernelVariant::V3ThreadgroupCache
        } else if same_folded(t, "v4"@) {
            Q4KKernelVariant::V4FullHalf
        } else {
            Q4KKernelVariant::V2Opt
        },
    }
}

/// The variant with number `v`.
pub fn variant_from_i8(v: i8) -> (variant: Q4KKernelVariant)
    ensures
        variant == variant_numbered(v),
{
    if v == 0 {
        Q4KKernelVariant::V1Fast
    } else if v == 2 {
        Q4KKernelVariant::V3ThreadgroupCache
    } else if v == 3 {
        Q4KKernelVariant::V4FullHalf
    } else {
        Q4KKernelVariant::V2Opt
    }
}

/// The number of a variant.
pub fn variant_to_i8(v: Q4KKernelVariant) -> (n: i8)
    ensures
        n == variant_number(v),
{
    match v {
        Q4KKernelVariant::V1Fast => 0,
        Q4KKernelVariant::V2Opt => 1,
        Q4KKernelVariant::V3ThreadgroupCache => 2,
        Q4KKernelVariant::V4FullHalf => 3,
    }
}

/// The remembered choices: the environment's, read once, and an override. A
/// negative number means that there is none.
#[derive(Debug, Clone, Copy, PartialEq, Eq, Structural)]
pub struct Q4KKernelChoice {
    pub cached: i8,
    pub override_val: i8,
}

impl Default for Q4KKernelChoice {
    fn default() -> (choice: Self)
        ensures
            choice.cached == -1,
            choice.override_val == -1,
    {
        Q4KKernelChoice { cached: -1, override_val: -1 }
    }
}

/// The environment's variant: the remembered one, or the one that `env` names.
pub open spec fn environment_variant(
    choice: Q4KKernelChoice,
    env: Option<Seq<char>>,
) -> Q4KKernelVariant {
    if choice.cached >= 0 {
        variant_numbered(choice.cached)
    } else {
        variant_named(env)
    }
}

/// The variant in effect: the override, or else the environment's.
pub open spec fn effective_variant(
    choice: Q4KKernelChoice,
    env: Option<Seq<char>>,
) -> Q4KKernelVariant {
    if choice.override_val >= 0 {
        variant_numbered(choice.override_val)
    } else {
        environment_variant(choice, env)
    }
}

/// The environment's variant, remembered from the first call on.
pub fn q4k_kernel_variant(choice: &mut Q4KKernelChoice, env: Option<&str>) -> (variant:
    Q4KKernelVariant)
    ensures
        variant == environment_variant(*old(choice), text_view(env)),
        final(choice).override_val == old(choice).override_val,
        final(choice).cached == (if old(choice).cached >= 0 {
            old(choice).cached
        } else {
            variant_number(variant)
        }),
{
    if choice.cached >= 0 {
        return variant_from_i8(choice.cached);
    }
    let named = match env {
        None => Q4KKernelVariant::V2Opt,
        Some(t) => {
            if same_ignoring_case(t, "v1") {
                Q4KKernelVariant::V1Fast
            } else if same_ignoring_case(t, "v3") {
                Q4KKernelVariant::V3ThreadgroupCache
            } else if same_ignoring_case(t, "v4") {
                Q4KKernelVariant::V4FullHalf
            } else {
                Q4KKernelVariant::V2Opt
            }
        },
    };
    choice.cached = variant_to_i8(named);
    named
}

/// Whether the environment's variant is any but `V1Fast`.
pub fn q4k_kernel_is_v2(choice: &mut Q4KKernelChoice, env: Option<&str>) -> (yes: bool)
    ensures
        yes == (environment_variant(*old(choice), text_view(env)) != Q4KKernelVariant::V1Fast),
        final(choice).override_val == old(choice).override_val,
        environment_variant(*final(choice), text_view(env)) == environment_variant(
            *old(choice),
            text_view(env),
        ),
{
    q4k_kernel_variant(choice, env) != Q4KKernelVariant::V1Fast
}

/// Overrides the choice by `V2Opt` or `V1Fast`.
pub fn set_q4k_kernel_v2(choice: &mut Q4KKernelChoice, enabled: bool)
    ensures
        *final(choice) == (Q4KKernelChoice {
            override_val: variant_number(
                if enabled {
                    Q4KKernelVariant::V2Opt
                } else {
                    Q4KKernelVariant::V1Fast
                },
            ),
            ..*old(choice)
        }),
{
    let variant = if enabled {
        Q4KKernelVariant::V2Opt
    } else {
        Q4KKernelVariant::V1Fast
    };
    set_q4k_kernel_variant(choice, variant);
}

/// Overrides the choice.
pub fn set_q4k_kernel_variant(choice: &mut Q4KKernelChoice, variant: Q4KKernelVariant)
    ensures
        *final(choice) == (Q4KKernelChoice {
            override_val: variant_number(variant),
            ..*old(choice)
        }),
{
    choice.override_val = variant_to_i8(variant);
}

/// The variant in effect.
pub fn q4k_kernel_variant_effective(choice: &mut Q4KKernelChoice, env: Option<&str>) -> (variant:
    Q4KKernelVariant)
    ensures
        variant == effective_variant(*old(choice), text_view(env)),
        final(choice).override_val == old(choice).override_val,
        environment_variant(*final(choice), text_view(env)) == environment_variant(
            *old(choice),
            text_view(env),
        ),
{
    if choice.override_val >= 0 {
        return variant_from_i8(choice.override_val);
    }
    q4k_kernel_variant(choice, env)
}

/// Whether the variant in effect is any but `V1Fast`.
pub fn q4k_kernel_is_v2_effective(choice: &mut Q4KKernelChoice, env: Option<&str>) -> (yes: bool)
    ensures
        yes == (effective_variant(*old(choice), text_view(env)) != Q4KKernelVariant::V1Fast),
        final(choice).override_val == old(choice).override_val,
        environment_variant(*final(choice), text_view(env)) == environment_variant(
            *old(choice),
            text_view(env),
        ),
{
    q4k_kernel_variant_effective(choice, env) != Q4KKernelVariant::V1Fast
}

/// What a product's operands look like.
#[derive(Debug, Clone, Copy, PartialEq, Eq, Structural)]
pub struct ProductOperands {
    /// Whether the weights are still quantized and have packed metadata.
    pub packed: bool,
    /// Whether the input holds 32-bit floats.
    pub f32_input: bool,
    /// Output features: the second last dimension of the weights.
    pub n: usize,
    /// Rows of the input: its second last dimension.
    pub m: usize,
}

/// The kernel that computes a product: an aligned product of packed weights with a
/// 32-bit input goes to the variant's own kernel, any other to the general one.
pub open spec fn product_kernel(variant: Q4KKernelVariant, ops: ProductOperands) -> Q4KKernelVariant {
    if ops.packed && ops.f32_input && ops.n % 64 == 0 && ops.m % 32 == 0 {
        variant
    } else {
        Q4KKernelVariant::V1Fast
    }
}

/// Chooses the kernel for a product; `V1Fast` is the general one.
pub fn dispatch_q4k_matmul(variant: Q4KKernelVariant, ops: ProductOperands) -> (kernel:
    Q4KKernelVariant)
    ensures
        kernel == product_kernel(variant, ops),
{
    if variant == Q4KKernelVariant::V1Fast {
        return Q4KKernelVariant::V1Fast;
    }
    if ops.packed && ops.f32_input && ops.n % 64 == 0 && ops.m % 32 == 0 {
        variant
    } else {
        Q4KKernelVariant::V1Fast
    }
}

/// Every variant has a number of its own, from which it is found again.
pub proof fn law_variant_numbers_round_trip(v: Q4KKernelVariant)
    ensures
        variant_numbered(variant_number(v)) == v,
        0 <= variant_number(v) <= 3,
{
}

/// An override wins over the environment, whatever that says and whether or not it
/// has been read.
pub proof fn law_override_wins(
    choice: Q4KKernelChoice,
    variant: Q4KKernelVariant,
    env: Option<Seq<char>>,
)
    ensures
        effective_variant(
            Q4KKernelChoice { override_val: variant_number(variant), ..choice },
            env,
        ) == variant,
{
}

/// A kernel is chosen by its name in whatever case; another name, or none, chooses the
/// second.
pub proof fn law_kernels_are_chosen_by_name(text: Seq<char>)
    ensures
        variant_named(None) == Q4KKernelVariant::V2Opt,
        variant_named(Some(text)) == Q4KKernelVariant::V1Fast <==> same_folded(text, "v1"@),
        variant_named(Some(text)) == Q4KKernelVariant::V3ThreadgroupCache <==> same_folded(
            text,
            "v3"@,
        ),
        variant_named(Some(text)) == Q4KKernelVariant::V4FullHalf <==> same_folded(text, "v4"@),
{
    reveal_strlit("v1");
    reveal_strlit("v3");
    reveal_strlit("v4");
    if same_folded(text, "v1"@) {
        assert(text[1] == '1');
    }
    if same_folded(text, "v3"@) {
        assert(text[1] == '3');
    }
    if same_folded(text, "v4"@) {
        assert(text[1] == '4');
    }
}

/// Every number chooses a kernel, and numbers without a kernel of their own the second.
pub proof fn law_numbers_choose_kernels(v: i8)
    ensures
        0 <= v <= 3 ==> variant_number(variant_numbered(v)) == v,
        v < 0 || v > 3 ==> variant_numbered(v) == variant_named(None),
{
}

/// The environment is asked once: what it said then counts, whatever it says later. It is
/// not asked where the kernel is set.
pub proof fn law_the_environment_is_asked_once(
    choice: Q4KKernelChoice,
    env: Option<Seq<char>>,
    later: Option<Seq<char>>,
)
    ensures
        choice.cached < 0 ==> environment_variant(choice, env) == variant_named(env),
        environment_variant(
            Q4KKernelChoice {
                cached: variant_number(environment_variant(choice, env)),
                ..choice
            },
            later,
        ) == environment_variant(choice, env),
        choice.override_val >= 0 ==> effective_variant(choice, env) == effective_variant(
            choice,
            later,
        ),
        choice.override_val < 0 ==> effective_variant(choice, env) == environment_variant(
            choice,
            env,
        ),
{
}

/// The chosen kernel is used where the operands suit it: packed weights, single-precision
/// input, and whole tiles of 64 by 32. The first kernel serves everything else.
pub proof fn law_tiled_products_use_the_chosen_kernel(
    variant: Q4KKernelVariant,
    ops: ProductOperands,
    a: nat,
    b: nat,
)
    ensures
        ops.packed && ops.f32_input && ops.n == 64 * a && ops.m == 32 * b ==> product_kernel(
            variant,
            ops,
        ) == variant,
        product_kernel(variant, ops) == variant || product_kernel(variant, ops)
            == Q4KKernelVariant::V1Fast,
        !ops.packed || !ops.f32_input ==> product_kernel(variant, ops) == Q4KKernelVariant::V1Fast,
        ops.n as int % 64 != 0 || ops.m as int % 32 != 0 ==> product_kernel(variant, ops)
            == Q4KKernelVariant::V1Fast,
{
}

} // verus!
