//! The glue model: stretch/shrink specifications, the fixed-point glue-set
//! ratio, and the rounding rule that resolves a glue spec against a box.

use vstd::prelude::*;
use crate::consts::{GlueOrder, GlueSign};

verus! {

/// A glue specification: natural width plus stretch and shrink components,
/// each with its infinity order.  Specs are plain values here; the classic
/// engine's reference counting is replaced by ownership.
#[derive(Clone, Copy, Debug, PartialEq, Eq, Structural)]
pub struct GlueSpec {
    pub width: i32,
    pub stretch: i32,
    pub stretch_order: GlueOrder,
    pub shrink: i32,
    pub shrink_order: GlueOrder,
}

/// A box's glue-set ratio as a binary fixed-point number with 16 fractional
/// bits: the represented ratio is `num / 65536`.
#[derive(Clone, Copy, Debug, PartialEq, Eq, Structural)]
pub struct GlueRatio {
    pub num: i64,
}

/// Products of ratio and glue amount are clamped to this many units before
/// rounding, protecting against pathological glue-set ratios.
pub const GLUE_CLAMP: i64 = 1_000_000_000;

/// `GLUE_CLAMP` scaled into 16-bit fixed point.
pub const GLUE_CLAMP_FIX: i128 = 65_536_000_000_000;

/// Round a 16-bit fixed-point quantity half away from zero after clamping the
/// represented value to the interval [-1e9, 1e9].
pub open spec fn spec_round_clamped(v: int) -> int {
    let c = if v > 65_536_000_000_000 {
        65_536_000_000_000int
    } else if v < -65_536_000_000_000 {
        -65_536_000_000_000int
    } else {
        v
    };
    if c >= 0 {
        (c + 0x8000) / 0x10000
    } else {
        -(((-c) + 0x8000) / 0x10000)
    }
}

/// The rounded, clamped product of a glue-set ratio and a total glue amount.
pub open spec fn spec_glue_mult(num: int, total: int) -> int {
    spec_round_clamped(num * total)
}

/// Multiply a glue-set ratio by a total glue amount, clamp the product to
/// [-1e9, 1e9], and round half away from zero.
pub fn glue_mult(ratio: &GlueRatio, total: i64) -> (r: i32)
    ensures
        r as int == spec_glue_mult(ratio.num as int, total as int),
        -1_000_000_000 <= r <= 1_000_000_000,
{
    proof {
        let ai = ratio.num as int;
        let bi = total as int;
        assert(-0x4000_0000_0000_0000_0000_0000_0000_0000 <= ai * bi
            <= 0x4000_0000_0000_0000_0000_0000_0000_0000) by (nonlinear_arith)
            requires
                -0x8000_0000_0000_0000 <= ai <= 0x7FFF_FFFF_FFFF_FFFF,
                -0x8000_0000_0000_0000 <= bi <= 0x7FFF_FFFF_FFFF_FFFF,
        ;
    }
    let p: i128 = (ratio.num as i128) * (total as i128);
    let c: i128 = if p > GLUE_CLAMP_FIX {
        GLUE_CLAMP_FIX
    } else if p < -GLUE_CLAMP_FIX {
        -GLUE_CLAMP_FIX
    } else {
        p
    };
    if c >= 0 {
        ((c + 0x8000) / 0x10000) as i32
    } else {
        (-(((-c) + 0x8000) / 0x10000)) as i32
    }
}

/// What `resolve_glue` returns: the flexible width a box adds to a glue
/// spec's natural size.  Glue whose own order does not match the box's
/// glue order contributes nothing beyond its natural width.
pub open spec fn spec_resolve_glue(
    sign: GlueSign,
    order: GlueOrder,
    num: int,
    g: GlueSpec,
) -> int {
    if sign == GlueSign::Stretching && g.stretch_order == order {
        spec_glue_mult(num, g.stretch as int)
    } else if sign == GlueSign::Shrinking && g.shrink_order == order {
        -spec_glue_mult(num, g.shrink as int)
    } else {
        0
    }
}

/// Resolve a glue spec against a box's glue-set state: the result is the
/// delta to add to the spec's natural width.
pub fn resolve_glue(sign: GlueSign, order: GlueOrder, ratio: &GlueRatio, g: &GlueSpec) -> (delta:
    i32)
    ensures
        delta as int == spec_resolve_glue(sign, order, ratio.num as int, *g),
        -1_000_000_000 <= delta <= 1_000_000_000,
{
    if sign == GlueSign::Stretching && g.stretch_order == order {
        glue_mult(ratio, g.stretch as i64)
    } else if sign == GlueSign::Shrinking && g.shrink_order == order {
        let m = glue_mult(ratio, g.shrink as i64);
        -m
    } else {
        0
    }
}

/// The micro-rounding state carried between successive glue nodes of one
/// list: the exact total of participating stretch (or shrink) amounts, and
/// the rounded flexible width most recently granted.
#[derive(Clone, Copy, Debug, PartialEq, Eq, Structural)]
pub struct GlueAcc {
    pub total: i64,
    pub cur_g: i32,
}

impl GlueAcc {
    pub open spec fn wf(self) -> bool {
        &&& -0x1000_0000_0000_0000 <= self.total <= 0x1000_0000_0000_0000
        &&& -1_000_000_000 <= self.cur_g <= 1_000_000_000
    }

    pub fn start() -> (r: GlueAcc)
        ensures
            r == (GlueAcc { total: 0i64, cur_g: 0i32 }),
            r.wf(),
    {
        GlueAcc { total: 0, cur_g: 0 }
    }
}

/// Wrap a mathematical integer into the signed 64-bit range, as the
/// accumulator's wrapping arithmetic does.
pub open spec fn wrap64(x: int) -> int {
    ((x + 0x8000_0000_0000_0000) % 0x1_0000_0000_0000_0000) - 0x8000_0000_0000_0000
}

/// One accumulator step as a value: the new accumulator and the on-page
/// width granted to this glue node.
pub ghost struct GlueStep {
    pub acc: GlueAcc,
    pub rule_wd: int,
    /// Whether the glue's flexible component participated (its order matched
    /// the box's glue order under a non-normal sign); such glue is degraded
    /// destructively by the emitters.
    pub matched: bool,
}

/// The accumulator update the emitters apply at every glue node: subtract the
/// previous rounded amount, fold this node's participating amount into the
/// exact total, re-round, and grant the difference.
pub open spec fn spec_glue_step(
    sign: GlueSign,
    order: GlueOrder,
    num: int,
    acc: GlueAcc,
    g: GlueSpec,
) -> GlueStep {
    let stretches = sign == GlueSign::Stretching && g.stretch_order == order;
    let shrinks = sign == GlueSign::Shrinking && g.shrink_order == order;
    let new_total = if stretches {
        wrap64(acc.total + g.stretch)
    } else if shrinks {
        wrap64(acc.total - g.shrink)
    } else {
        acc.total as int
    };
    let new_g = if stretches || shrinks {
        spec_glue_mult(num, new_total)
    } else {
        acc.cur_g as int
    };
    GlueStep {
        acc: GlueAcc { total: new_total as i64, cur_g: new_g as i32 },
        rule_wd: g.width - acc.cur_g + new_g,
        matched: stretches || shrinks,
    }
}

/// Apply the per-glue-node accumulator step and return the node's resolved
/// on-page width.
pub fn glue_step(
    sign: GlueSign,
    order: GlueOrder,
    ratio: &GlueRatio,
    acc: &mut GlueAcc,
    g: &GlueSpec,
) -> (r: (i64, bool))
    ensures
        *final(acc) == spec_glue_step(sign, order, ratio.num as int, *old(acc), *g).acc,
        r.0 as int == spec_glue_step(sign, order, ratio.num as int, *old(acc), *g).rule_wd,
        r.1 == spec_glue_step(sign, order, ratio.num as int, *old(acc), *g).matched,
        -0x1_4000_0000i64 <= r.0 <= 0x1_4000_0000i64,
{
    let stretches = sign == GlueSign::Stretching && g.stretch_order == order;
    let shrinks = sign == GlueSign::Shrinking && g.shrink_order == order;
    let old_g = acc.cur_g;
    if stretches {
        acc.total = acc.total.wrapping_add(g.stretch as i64);
        acc.cur_g = glue_mult(ratio, acc.total);
    } else if shrinks {
        acc.total = acc.total.wrapping_sub(g.shrink as i64);
        acc.cur_g = glue_mult(ratio, acc.total);
    }
    let rule_wd: i64 = (g.width as i64) - (old_g as i64) + (acc.cur_g as i64);
    (rule_wd, stretches || shrinks)
}

} // verus!
