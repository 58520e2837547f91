//! The layout pass: walks box trees, computing device coordinates and glue
//! resolution, deciding when right-to-left reversal triggers, tiling
//! leaders, and producing the abstract command list the emission pass
//! encodes.  Coordinate arithmetic wraps at the 64-bit range, far beyond the
//! classic 30-bit dimensions; leader tiling alone needs bounded positions
//! and reports a coordinate fault instead of wrapping.

use vstd::prelude::*;
use crate::consts::{LR, GlueOrder, GlueSign, L_CODE};
use crate::glue::{spec_glue_step, GlueAcc, GlueRatio, GlueSpec};
use crate::node::{
    char_width, deep_clone, fonts_wf, lemma_list_view_index, lemma_list_view_len,
    lemma_list_view_push, list_view, list_wf, node_view, spec_char_width, FontDef, GlueKind,
    ListBoxV, Node, NodeV, WhatsIt, WhatsItV,
};
use crate::glue::glue_step;
use crate::dvi::{ConfusionTag, Fatal};
use crate::cmds::{act_view, ActV, Action, CmdV};

verus! {

/// Wrap a mathematical integer into the signed 64-bit range: the coordinate
/// arithmetic of the layout pass.
pub open spec fn wrap64(x: int) -> int {
    ((x + 0x8000_0000_0000_0000) % 0x1_0000_0000_0000_0000) - 0x8000_0000_0000_0000
}

/// Wrapping 64-bit addition.
pub open spec fn wadd(a: int, b: int) -> int {
    wrap64(a + b)
}

/// Wrapping 64-bit subtraction.
pub open spec fn wsub(a: int, b: int) -> int {
    wrap64(a - b)
}

/// Wrapping counter increment at the unsigned 64-bit range.
pub open spec fn cadd(a: int, b: int) -> int {
    (a + b) % 0x1_0000_0000_0000_0000
}

/// Truncation of a wide coordinate into a stored 32-bit dimension, as the
/// classic engine's 32-bit arithmetic would have produced it.
pub open spec fn trunc32(a: int) -> int {
    ((a + 0x8000_0000) % 0x1_0000_0000) - 0x8000_0000
}

/// The mathematical view of the cursor.
pub ghost struct CurV {
    pub cur_h: int,
    pub cur_v: int,
    pub dvi_h: int,
    pub dvi_v: int,
    pub dvi_f: int,
    pub cur_dir: LR,
    pub lr_stack: Seq<u32>,
    pub missing: int,
    pub extra: int,
    pub doing_leaders: bool,
    pub cur_s: int,
    pub max_push: int,
    pub pdf_last_x: int,
    pub pdf_last_y: int,
}


/// Per-run page parameters the layout pass reads.
#[derive(Clone, Copy, Debug, PartialEq, Eq, Structural)]
pub struct PageParams {
    pub cur_h_offset: i64,
    pub cur_v_offset: i64,
    pub cur_page_height: i64,
}

/// The enclosing box's glue-set state and running extents, fixed for one
/// list traversal.
#[derive(Clone, Copy, Debug, PartialEq, Eq, Structural)]
pub struct BoxMeta {
    pub sign: GlueSign,
    pub order: GlueOrder,
    pub ratio: GlueRatio,
    pub box_height: i32,
    pub box_depth: i32,
    pub box_width: i32,
}

/// The direction-marker stack entry a math marker of subtype `s` matches:
/// the end code of its group.
pub open spec fn lr_info(s: u16) -> u32 {
    (4 * (s / 4) + 3) as u32
}

/// Whether a math marker subtype is an "end" code: its low bit is set.
pub open spec fn is_end_code(s: u16) -> bool {
    s % 2 == 1
}

/// The direction a left/right marker asks for, by its subtype's high bits.
pub open spec fn marker_dir_code(s: u16) -> u16 {
    s / 8
}


/// The structural measure of a node view; traversal strictly decreases it.
pub open spec fn nv_weight(n: NodeV) -> nat
    decreases n,
{
    match n {
        NodeV::List(b) => 3 + nv_list_weight(b.list),
        NodeV::Glue { leader, .. } => match leader {
            Option::None => 2,
            Option::Some(ld) => 4 + nv_weight(*ld),
        },
        NodeV::Math { .. } => 3,
        NodeV::Ligature { .. } => 2,
        _ => 1,
    }
}

pub open spec fn nv_list_weight(s: Seq<NodeV>) -> nat
    decreases s,
{
    if s.len() == 0 {
        0
    } else {
        nv_weight(s[0]) + nv_list_weight(s.subrange(1, s.len() as int))
    }
}

pub open spec fn nv_from(s: Seq<NodeV>, i: int) -> nat {
    nv_list_weight(s.subrange(i, s.len() as int))
}

/// How many direction markers a node view holds, nested boxes included:
/// the measure that shrinks across every reversal.
pub open spec fn mw(n: NodeV) -> nat
    decreases n,
{
    match n {
        NodeV::List(b) => mw_list(b.list),
        NodeV::Glue { leader, .. } => match leader {
            Option::None => 0,
            Option::Some(ld) => mw(*ld),
        },
        NodeV::Math { .. } => 1,
        _ => 0,
    }
}

pub open spec fn mw_list(s: Seq<NodeV>) -> nat
    decreases s,
{
    if s.len() == 0 {
        0
    } else {
        mw(s[0]) + mw_list(s.subrange(1, s.len() as int))
    }
}

pub open spec fn mw_from(s: Seq<NodeV>, i: int) -> nat {
    mw_list(s.subrange(i, s.len() as int))
}

pub proof fn lemma_nv_split(s: Seq<NodeV>, i: int)
    requires
        0 <= i < s.len(),
    ensures
        nv_from(s, i) == nv_weight(s[i]) + nv_from(s, i + 1),
        mw_from(s, i) == mw(s[i]) + mw_from(s, i + 1),
    decreases s.len() - i,
{
    let tail = s.subrange(i, s.len() as int);
    assert(tail[0] == s[i]);
    assert(tail.subrange(1, tail.len() as int) =~= s.subrange(i + 1, s.len() as int));
}

pub proof fn lemma_nv_mono(s: Seq<NodeV>, i: int, j: int)
    requires
        0 <= i <= j <= s.len(),
    ensures
        nv_from(s, j) <= nv_from(s, i),
        mw_from(s, j) <= mw_from(s, i),
    decreases j - i,
{
    if i < j {
        lemma_nv_split(s, i);
        lemma_nv_mono(s, i + 1, j);
    }
}

pub proof fn lemma_nv_push(s: Seq<NodeV>, n: NodeV)
    ensures
        nv_list_weight(s.push(n)) == nv_list_weight(s) + nv_weight(n),
        mw_list(s.push(n)) == mw_list(s) + mw(n),
    decreases s,
{
    if s.len() == 0 {
        assert(s.push(n)[0] == n);
        assert(s.push(n).subrange(1, 1) =~= Seq::<NodeV>::empty());
        assert(nv_list_weight(Seq::<NodeV>::empty()) == 0);
        assert(mw_list(Seq::<NodeV>::empty()) == 0);
        assert(nv_list_weight(s) == 0);
        assert(mw_list(s) == 0);
        assert(nv_list_weight(s.push(n)) == nv_weight(n) + nv_list_weight(s.push(n).subrange(1, 1)));
        assert(mw_list(s.push(n)) == mw(n) + mw_list(s.push(n).subrange(1, 1)));
    } else {
        assert(s.push(n)[0] == s[0]);
        assert(s.push(n).subrange(1, s.len() as int + 1) =~= s.subrange(1, s.len() as int).push(n));
        lemma_nv_push(s.subrange(1, s.len() as int), n);
        assert(nv_list_weight(s.push(n)) == nv_weight(s[0]) + nv_list_weight(
            s.subrange(1, s.len() as int).push(n),
        ));
        assert(mw_list(s.push(n)) == mw(s[0]) + mw_list(s.subrange(1, s.len() as int).push(n)));
    }
}

pub proof fn lemma_nv_reverse(s: Seq<NodeV>)
    ensures
        nv_list_weight(s.reverse()) == nv_list_weight(s),
        mw_list(s.reverse()) == mw_list(s),
    decreases s,
{
    if s.len() == 0 {
        assert(s.reverse() =~= s);
    } else {
        assert(s.reverse() =~= seq![s.last()] + s.drop_last().reverse());
        let t = s.drop_last().reverse();
        assert((seq![s.last()] + t)[0] == s.last());
        assert((seq![s.last()] + t).subrange(1, t.len() as int + 1) =~= t);
        lemma_nv_reverse(s.drop_last());
        lemma_nv_push(s.drop_last(), s.last());
        assert(s.drop_last().push(s.last()) =~= s);
    }
}

/// What the reversal engine hands back: the mirrored node list (ending with
/// the boundary sentinel where one was requested), the input position after
/// the consumed segment, and the updated cursor position, direction stack,
/// anomaly counters and glue state.
pub ghost struct RevRes {
    pub nodes: Seq<NodeV>,
    pub next: int,
    pub cur_h: int,
    pub lr_stack: Seq<u32>,
    pub missing: int,
    pub extra: int,
    pub acc: GlueAcc,
    pub err: Option<Fatal>,
}

/// Saturating removal of the top `k` stack entries.
pub open spec fn pop_n(s: Seq<u32>, k: int) -> Seq<u32> {
    if k <= 0 {
        s
    } else if s.len() as int <= k {
        Seq::empty()
    } else {
        s.take(s.len() - k)
    }
}

/// The width a node contributes while being mirrored: boxes, rules and the
/// sized extension nodes advance, the bookkeeping nodes do not.
pub open spec fn rev_width(n: NodeV) -> int {
    match n {
        NodeV::List(b) => b.width,
        NodeV::Rule { width, .. } => width,
        NodeV::WhatsIt(w) => match w {
            WhatsItV::NativeWord { width, .. } => width,
            WhatsItV::Glyph { width, .. } => width,
            WhatsItV::Pic { width, .. } => width,
            _ => 0,
        },
        _ => 0,
    }
}

/// The list reversal engine, one source node per step.  The output is built
/// in traversal order and mirrored once at the end, so the final order is
/// reversed; `cur_h` accumulates the traversed width so the caller's
/// boundary edge can record the span.
///
/// Within the segment: character and ligature nodes contribute their font
/// widths; glue is resolved against the enclosing box and degraded, to a
/// kern for ordinary glue or to a rigid spec for leader glue; math markers
/// at the current level become kerns; markers of nested direction groups
/// are kept with begin and end roles swapped; zero-width kerns and kerns
/// that would end the mirrored list vanish.  A marker ending the segment's
/// own group finishes the segment and fills in the boundary sentinel.  When
/// the source runs out first, groups still open are counted as missing and
/// their stack entries dropped, as the classic engine reported them.
/// The reversal engine's threaded state: the accumulated span width, the
/// direction stack, the anomaly counters, the glue rounding state, the
/// mirrored output built so far (in traversal order), and how many nested
/// and same-level groups opened inside the segment are still open.
pub ghost struct RSt {
    pub cur_h: int,
    pub lr: Seq<u32>,
    pub missing: int,
    pub extra: int,
    pub acc: GlueAcc,
    pub out: Seq<NodeV>,
    pub n_open: int,
    pub m_flat: int,
}

/// Advance the span by `dh` and append a node to the mirror, if any.
pub open spec fn rst_adv(st: RSt, dh: int, kept: Option<NodeV>) -> RSt {
    RSt {
        cur_h: wadd(st.cur_h, dh),
        out: match kept {
            Option::Some(n) => st.out.push(n),
            Option::None => st.out,
        },
        ..st
    }
}

/// Whether a kern-like node survives the mirror: zero-width kerns vanish,
/// and a kern that would end the mirrored list vanishes too.
pub open spec fn rev_kern_keep(st: RSt, has_t: bool, w: int, kept: NodeV) -> Option<NodeV> {
    if w != 0 && (st.out.len() > 0 || has_t) {
        Option::Some(kept)
    } else {
        Option::None
    }
}

/// What one reversal step decided: continue with the new state, finish the
/// segment at its own closing marker (of the given width) with the state
/// after the pop, or fail.
pub ghost enum RevStepV {
    Go(RSt),
    Finish(RSt, int),
    Fail(Fatal),
}

/// One step of the reversal engine over a single node.
pub open spec fn rev_step(
    meta: BoxMeta,
    fonts: Seq<FontDef>,
    n: NodeV,
    cdir: LR,
    has_t: bool,
    st: RSt,
) -> RevStepV {
    match n {
        NodeV::Char { font, character } => RevStepV::Go(
            rst_adv(st, spec_char_width(fonts[font], character), Option::Some(n)),
        ),
        NodeV::Ligature { font, character } => RevStepV::Go(
            rst_adv(
                st,
                spec_char_width(fonts[font], character),
                Option::Some(NodeV::Char { font, character }),
            ),
        ),
        NodeV::Kern { width } => RevStepV::Go(
            rst_adv(st, width, rev_kern_keep(st, has_t, width, n)),
        ),
        NodeV::Glue { glue, kind, leader } => {
            let step = spec_glue_step(meta.sign, meta.order, meta.ratio.num as int, st.acc, glue);
            let rw = step.rule_wd;
            let st1 = RSt { acc: step.acc, ..st };
            if step.matched {
                if kind == GlueKind::Normal {
                    RevStepV::Go(
                        rst_adv(
                            st1,
                            rw,
                            rev_kern_keep(st, has_t, trunc32(rw), NodeV::Kern { width: trunc32(rw) }),
                        ),
                    )
                } else {
                    RevStepV::Go(
                        rst_adv(
                            st1,
                            rw,
                            Option::Some(
                                NodeV::Glue {
                                    glue: GlueSpec {
                                        width: trunc32(rw) as i32,
                                        stretch: 0,
                                        stretch_order: GlueOrder::Incorrect,
                                        shrink: 0,
                                        shrink_order: GlueOrder::Incorrect,
                                    },
                                    kind,
                                    leader,
                                },
                            ),
                        ),
                    )
                }
            } else {
                RevStepV::Go(rst_adv(st1, rw, Option::Some(n)))
            }
        },
        NodeV::Math { width, subtype } => {
            if is_end_code(subtype) {
                if st.lr.len() > 0 && st.lr.last() == lr_info(subtype) {
                    let st1 = RSt { lr: st.lr.drop_last(), ..st };
                    if st.n_open > 0 {
                        RevStepV::Go(
                            rst_adv(
                                RSt { n_open: st.n_open - 1, ..st1 },
                                width,
                                Option::Some(
                                    NodeV::Math { width, subtype: (subtype - 1) as u16 },
                                ),
                            ),
                        )
                    } else if st.m_flat > 0 {
                        RevStepV::Go(
                            rst_adv(
                                RSt { m_flat: st.m_flat - 1, ..st1 },
                                width,
                                rev_kern_keep(st, has_t, width, NodeV::Kern { width }),
                            ),
                        )
                    } else {
                        RevStepV::Finish(st1, width)
                    }
                } else {
                    RevStepV::Go(
                        rst_adv(
                            RSt { extra: cadd(st.extra, 1), ..st },
                            width,
                            rev_kern_keep(st, has_t, width, NodeV::Kern { width }),
                        ),
                    )
                }
            } else {
                let st1 = RSt { lr: st.lr.push(lr_info(subtype)), ..st };
                if st.n_open > 0 || marker_dir_code(subtype) != cdir.spec_dir_code() {
                    RevStepV::Go(
                        rst_adv(
                            RSt { n_open: st.n_open + 1, ..st1 },
                            width,
                            Option::Some(NodeV::Math { width, subtype: (subtype + 1) as u16 }),
                        ),
                    )
                } else {
                    RevStepV::Go(
                        rst_adv(
                            RSt { m_flat: st.m_flat + 1, ..st1 },
                            width,
                            rev_kern_keep(st, has_t, width, NodeV::Kern { width }),
                        ),
                    )
                }
            }
        },
        NodeV::Edge { .. } => RevStepV::Fail(Fatal::Confusion(ConfusionTag::ReverseEdge)),
        _ => RevStepV::Go(rst_adv(st, rev_width(n), Option::Some(n))),
    }
}

/// The result when the source runs out: close and count the groups still
/// open, and append the boundary sentinel where one was requested.
pub open spec fn rev_finish(st: RSt, t_dir: LR, has_t: bool, i: int) -> RevRes {
    let still_open = st.n_open + st.m_flat + if has_t {
        1int
    } else {
        0int
    };
    let fin = if has_t {
        st.out.reverse().push(
            NodeV::Edge { width: 0, edge_dist: wsub(0, st.cur_h), dir: t_dir },
        )
    } else {
        st.out.reverse()
    };
    RevRes {
        nodes: fin,
        next: i,
        cur_h: st.cur_h,
        lr_stack: pop_n(st.lr, still_open),
        missing: cadd(st.missing, still_open),
        extra: st.extra,
        acc: st.acc,
        err: None,
    }
}

/// The list reversal engine, one source node per step.  The output is built
/// in traversal order and mirrored once at the end, so the final order is
/// reversed; `cur_h` accumulates the traversed width so the caller's
/// boundary edge can record the span.
///
/// Within the segment: character and ligature nodes contribute their font
/// widths; glue is resolved against the enclosing box and degraded, to a
/// kern for ordinary glue or to a rigid spec for leader glue; math markers
/// at the current level become kerns; markers of nested direction groups
/// are kept with begin and end roles swapped; zero-width kerns and kerns
/// that would end the mirrored list vanish.  A marker ending the segment's
/// own group finishes the segment and fills in the boundary sentinel.  When
/// the source runs out first, groups still open are counted as missing and
/// their stack entries dropped, as the classic engine reported them.
pub open spec fn spec_reverse(
    meta: BoxMeta,
    fonts: Seq<FontDef>,
    nodes: Seq<NodeV>,
    i: int,
    cdir: LR,
    t_dir: LR,
    has_t: bool,
    st: RSt,
) -> RevRes
    decreases nodes.len() - i,
    when 0 <= i <= nodes.len()
{
    if i >= nodes.len() {
        rev_finish(st, t_dir, has_t, i)
    } else {
        match rev_step(meta, fonts, nodes[i], cdir, has_t, st) {
            RevStepV::Go(st2) => spec_reverse(meta, fonts, nodes, i + 1, cdir, t_dir, has_t, st2),
            RevStepV::Finish(st2, w) => RevRes {
                nodes: st2.out.reverse().push(
                    NodeV::Edge {
                        width: w,
                        edge_dist: wsub(wsub(0, st2.cur_h), w),
                        dir: t_dir,
                    },
                ),
                next: i + 1,
                cur_h: st2.cur_h,
                lr_stack: st2.lr,
                missing: st2.missing,
                extra: st2.extra,
                acc: st2.acc,
                err: None,
            },
            RevStepV::Fail(e) => RevRes {
                nodes: st.out.reverse(),
                next: i,
                cur_h: st.cur_h,
                lr_stack: st.lr,
                missing: st.missing,
                extra: st.extra,
                acc: st.acc,
                err: Some(e),
            },
        }
    }
}

/// One reversal step never grows the mirror by more than the source node's
/// measure, and never adds direction markers.
pub proof fn lemma_rev_step_bounds(
    meta: BoxMeta,
    fonts: Seq<FontDef>,
    n: NodeV,
    cdir: LR,
    has_t: bool,
    st: RSt,
)
    ensures
        ({
            match rev_step(meta, fonts, n, cdir, has_t, st) {
                RevStepV::Go(st2) => nv_list_weight(st2.out) <= nv_list_weight(st.out)
                    + nv_weight(n) && mw_list(st2.out) <= mw_list(st.out) + mw(n),
                RevStepV::Finish(st2, w) => st2.out == st.out,
                RevStepV::Fail(_) => true,
            }
        }),
{
    match rev_step(meta, fonts, n, cdir, has_t, st) {
        RevStepV::Go(st2) => {
            if st2.out != st.out {
                assert(st2.out == st.out.push(st2.out.last()));
                lemma_nv_push(st.out, st2.out.last());
            }
        },
        _ => {},
    }
}

/// What the mirrored list can weigh: never more than the accumulator plus
/// the consumed source (plus the one boundary sentinel), and it never gains
/// direction markers.  This is what lets every reversal shrink the
/// traversal measure.
#[verifier::rlimit(100)]
#[verifier::spinoff_prover]
pub proof fn lemma_reverse_bounds(
    meta: BoxMeta,
    fonts: Seq<FontDef>,
    nodes: Seq<NodeV>,
    i: int,
    cdir: LR,
    t_dir: LR,
    has_t: bool,
    st: RSt,
)
    requires
        0 <= i <= nodes.len(),
    ensures
        ({
            let r = spec_reverse(meta, fonts, nodes, i, cdir, t_dir, has_t, st);
            &&& nv_list_weight(r.nodes) <= nv_list_weight(st.out) + nv_from(nodes, i) + 1
            &&& mw_list(r.nodes) <= mw_list(st.out) + mw_from(nodes, i)
            &&& i <= r.next <= nodes.len()
        }),
    decreases nodes.len() - i,
{
    lemma_nv_reverse(st.out);
    if i >= nodes.len() {
        assert(nodes.subrange(i, nodes.len() as int) =~= Seq::<NodeV>::empty());
        if has_t {
            lemma_nv_push(
                st.out.reverse(),
                NodeV::Edge { width: 0, edge_dist: wsub(0, st.cur_h), dir: t_dir },
            );
        }
    } else {
        lemma_nv_split(nodes, i);
        lemma_rev_step_bounds(meta, fonts, nodes[i], cdir, has_t, st);
        match rev_step(meta, fonts, nodes[i], cdir, has_t, st) {
            RevStepV::Go(st2) => {
                lemma_reverse_bounds(meta, fonts, nodes, i + 1, cdir, t_dir, has_t, st2);
            },
            RevStepV::Finish(st2, w) => {
                lemma_nv_reverse(st2.out);
                lemma_nv_push(
                    st2.out.reverse(),
                    NodeV::Edge { width: w, edge_dist: wsub(wsub(0, st2.cur_h), w), dir: t_dir },
                );
            },
            RevStepV::Fail(_) => {},
        }
    }
}

/// What a list traversal hands back: the cursor, the glue state, the device
/// commands and side-effect requests in order, the left-edge reference on
/// exit, and the fatal condition that stopped it, if any.
pub ghost struct HRes {
    pub cur: CurV,
    pub acc: GlueAcc,
    pub cmds: Seq<CmdV>,
    pub acts: Seq<ActV>,
    pub le: int,
    pub err: Option<Fatal>,
}

/// Prepend already-collected output to a traversal result.
pub open spec fn hpre(cmds: Seq<CmdV>, acts: Seq<ActV>, r: HRes) -> HRes {
    HRes { cur: r.cur, acc: r.acc, cmds: cmds + r.cmds, acts: acts + r.acts, le: r.le, err: r.err }
}

/// Synchronise the device position with the logical one on the right axis.
pub open spec fn sync_h(cv: CurV) -> (CurV, Seq<CmdV>) {
    if cv.cur_h != cv.dvi_h {
        (CurV { dvi_h: cv.cur_h, ..cv }, seq![CmdV::Right(wsub(cv.cur_h, cv.dvi_h))])
    } else {
        (cv, Seq::empty())
    }
}

/// Synchronise the device position with the logical one on the down axis.
pub open spec fn sync_v(cv: CurV) -> (CurV, Seq<CmdV>) {
    if cv.cur_v != cv.dvi_v {
        (CurV { dvi_v: cv.cur_v, ..cv }, seq![CmdV::Down(wsub(cv.cur_v, cv.dvi_v))])
    } else {
        (cv, Seq::empty())
    }
}

/// Select the node's font in the device stream when it differs from the
/// active one.
pub open spec fn font_switch(cv: CurV, f: int) -> (CurV, Seq<CmdV>) {
    if f != cv.dvi_f {
        (CurV { dvi_f: f, ..cv }, seq![CmdV::Font(f)])
    } else {
        (cv, Seq::empty())
    }
}

/// Emit a rule in a horizontal list: running dimensions resolve against the
/// enclosing box, and an invisible rule moves nothing.
pub open spec fn fin_rule_h(
    meta: BoxMeta,
    cv: CurV,
    base_line: int,
    rule_ht0: int,
    rule_dp0: int,
    rule_wd: int,
) -> (CurV, Seq<CmdV>) {
    let ht = if rule_ht0 == -0x4000_0000 {
        meta.box_height as int
    } else {
        rule_ht0
    };
    let dp = if rule_dp0 == -0x4000_0000 {
        meta.box_depth as int
    } else {
        rule_dp0
    };
    let tot = wadd(ht, dp);
    if tot > 0 && rule_wd > 0 {
        let (cv1, c1) = sync_h(cv);
        let cv2 = CurV { cur_v: wadd(base_line, dp), ..cv1 };
        let (cv3, c2) = sync_v(cv2);
        let cv4 = CurV { cur_v: base_line, dvi_h: wadd(cv3.dvi_h, rule_wd), ..cv3 };
        (cv4, c1 + c2 + seq![CmdV::SetRule { height: tot, width: rule_wd }])
    } else {
        (cv, Seq::empty())
    }
}

/// Emit a rule in a vertical list.
pub open spec fn fin_rule_v(
    meta: BoxMeta,
    cv: CurV,
    left_edge: int,
    rule_ht0: int,
    rule_dp0: int,
    rule_wd0: int,
    upwards: bool,
) -> (CurV, Seq<CmdV>) {
    let wd = if rule_wd0 == -0x4000_0000 {
        meta.box_width as int
    } else {
        rule_wd0
    };
    let tot = wadd(rule_ht0, rule_dp0);
    let cv0 = CurV {
        cur_v: if upwards {
            wsub(cv.cur_v, tot)
        } else {
            wadd(cv.cur_v, tot)
        },
        ..cv
    };
    if tot > 0 && wd > 0 {
        let cv1 = if cv0.cur_dir == LR::RightToLeft {
            CurV { cur_h: wsub(cv0.cur_h, wd), ..cv0 }
        } else {
            cv0
        };
        let (cv2, c1) = sync_h(cv1);
        let (cv3, c2) = sync_v(cv2);
        let cv4 = CurV { cur_h: left_edge, ..cv3 };
        (cv4, c1 + c2 + seq![CmdV::PutRule { height: tot, width: wd }])
    } else {
        (cv0, Seq::empty())
    }
}

/// Truncating division (toward zero), as the engine's machine arithmetic
/// divides; the divisor is positive.
pub open spec fn tdiv(a: int, b: int) -> int {
    if a >= 0 {
        a / b
    } else {
        -((-a) / b)
    }
}

/// The tiling loop's progress measure, clamped at zero.
pub open spec fn gap3(cur: int, edge: int, ld: int) -> int {
    if edge + ld - cur >= 0 {
        3 + edge + ld - cur
    } else {
        0
    }
}

/// Whether leader tiling may run at this position: positions near the edge
/// of the coordinate range are refused rather than wrapped.
pub open spec fn tile_pos_ok(x: int) -> bool {
    -0x2000_0000_0000_0000 <= x <= 0x2000_0000_0000_0000
}

/// The boundary the tiling loop respects.
pub open spec fn tile_loop_ok(cur: int, edge: int, ld: int, lx: int) -> bool {
    &&& -0x4000_0000_0000_0000 <= cur
    &&& cur <= edge + 0x1_0000_0000
    &&& -0x4000_0000_0000_0000 <= edge <= 0x4000_0000_0000_0000
    &&& 0 < ld <= 0x7FFF_FFFF
    &&& 0 <= lx <= 0x7FFF_FFFF
}

/// The traversal of one horizontal list from position `i` on.
pub open spec fn spec_hlist_run(
    meta: BoxMeta,
    fonts: Seq<FontDef>,
    params: PageParams,
    nodes: Seq<NodeV>,
    i: int,
    cv: CurV,
    acc: GlueAcc,
    base_line: int,
    le: int,
) -> HRes
    decreases mw_from(nodes, i), nv_from(nodes, i), 3int,
    when 0 <= i <= nodes.len()
    via spec_hlist_run_dec
{
    if i >= nodes.len() {
        HRes { cur: cv, acc, cmds: Seq::empty(), acts: Seq::empty(), le, err: None }
    } else {
        match nodes[i] {
            NodeV::Char { font, character } => spec_hchar(
                meta,
                fonts,
                params,
                nodes,
                i,
                cv,
                acc,
                base_line,
                le,
                font,
                character,
            ),
            NodeV::Ligature { font, character } => spec_hchar(
                meta,
                fonts,
                params,
                nodes,
                i,
                cv,
                acc,
                base_line,
                le,
                font,
                character,
            ),
            NodeV::List(b) => {
                if b.list.len() == 0 {
                    let cv1 = CurV { cur_h: wadd(cv.cur_h, b.width), ..cv };
                    hpre(
                        Seq::empty(),
                        seq![ActV::VoidBox { vertical: b.vertical }],
                        spec_hlist_run(
                            meta,
                            fonts,
                            params,
                            nodes,
                            i + 1,
                            cv1,
                            acc,
                            base_line,
                            le,
                        ),
                    )
                } else {
                    let save_h = cv.dvi_h;
                    let save_v = cv.dvi_v;
                    let edge = wadd(cv.cur_h, b.width);
                    let cv1 = CurV {
                        cur_v: wadd(base_line, b.shift),
                        cur_h: if cv.cur_dir == LR::RightToLeft {
                            edge
                        } else {
                            cv.cur_h
                        },
                        ..cv
                    };
                    let sub = if b.vertical {
                        spec_vlist_box(b, fonts, params, cv1)
                    } else {
                        spec_hlist_box(b, fonts, params, cv1)
                    };
                    if sub.err is Some {
                        HRes { le, ..sub }
                    } else {
                        let cv2 = CurV {
                            dvi_h: save_h,
                            dvi_v: save_v,
                            cur_h: edge,
                            cur_v: base_line,
                            ..sub.cur
                        };
                        hpre(
                            sub.cmds,
                            sub.acts,
                            spec_hlist_run(
                                meta,
                                fonts,
                                params,
                                nodes,
                                i + 1,
                                cv2,
                                acc,
                                base_line,
                                le,
                            ),
                        )
                    }
                }
            },
            NodeV::Rule { width, height, depth } => {
                let (cv1, c1) = fin_rule_h(
                    meta,
                    cv,
                    base_line,
                    height,
                    depth,
                    width,
                );
                let cv2 = CurV { cur_h: wadd(cv1.cur_h, width), ..cv1 };
                hpre(
                    c1,
                    Seq::empty(),
                    spec_hlist_run(meta, fonts, params, nodes, i + 1, cv2, acc, base_line, le),
                )
            },
            NodeV::Glue { glue, kind, leader } => {
                let step = spec_glue_step(meta.sign, meta.order, meta.ratio.num as int, acc, glue);
                let rw = step.rule_wd;
                if kind == GlueKind::Normal || leader is None {
                    let cv1 = CurV { cur_h: wadd(cv.cur_h, rw), ..cv };
                    spec_hlist_run(meta, fonts, params, nodes, i + 1, cv1, step.acc, base_line, le)
                } else {
                    let ld = *leader.unwrap();
                    match ld {
                        NodeV::Rule { width: lw, height: lh, depth: ldp } => {
                            let (cv1, c1) = fin_rule_h(meta, cv, base_line, lh, ldp, rw);
                            let cv2 = CurV { cur_h: wadd(cv1.cur_h, rw), ..cv1 };
                            hpre(
                                c1,
                                Seq::empty(),
                                spec_hlist_run(
                                    meta,
                                    fonts,
                                    params,
                                    nodes,
                                    i + 1,
                                    cv2,
                                    step.acc,
                                    base_line,
                                    le,
                                ),
                            )
                        },
                        NodeV::List(lb) => {
                            if lb.width > 0 && rw > 0 {
                                let t = spec_tile_h(meta, fonts, params, lb, kind, rw, cv, base_line, le);
                                if t.err is Some {
                                    HRes { le, ..t }
                                } else {
                                    hpre(
                                        t.cmds,
                                        t.acts,
                                        spec_hlist_run(
                                            meta,
                                            fonts,
                                            params,
                                            nodes,
                                            i + 1,
                                            t.cur,
                                            step.acc,
                                            base_line,
                                            le,
                                        ),
                                    )
                                }
                            } else {
                                let cv1 = CurV { cur_h: wadd(cv.cur_h, rw), ..cv };
                                spec_hlist_run(
                                    meta,
                                    fonts,
                                    params,
                                    nodes,
                                    i + 1,
                                    cv1,
                                    step.acc,
                                    base_line,
                                    le,
                                )
                            }
                        },
                        _ => {
                            let cv1 = CurV { cur_h: wadd(cv.cur_h, rw), ..cv };
                            spec_hlist_run(
                                meta,
                                fonts,
                                params,
                                nodes,
                                i + 1,
                                cv1,
                                step.acc,
                                base_line,
                                le,
                            )
                        },
                    }
                }
            },
            NodeV::Kern { width } => {
                let cv1 = CurV { cur_h: wadd(cv.cur_h, width), ..cv };
                spec_hlist_run(meta, fonts, params, nodes, i + 1, cv1, acc, base_line, le)
            },
            NodeV::MarginKern { width } => {
                let cv1 = CurV { cur_h: wadd(cv.cur_h, width), ..cv };
                spec_hlist_run(meta, fonts, params, nodes, i + 1, cv1, acc, base_line, le)
            },
            NodeV::Math { width, subtype } => {
                if is_end_code(subtype) {
                    let pops = cv.lr_stack.len() > 0 && cv.lr_stack.last() == lr_info(subtype);
                    let cv1 = if pops {
                        CurV { lr_stack: cv.lr_stack.drop_last(), ..cv }
                    } else if subtype > L_CODE {
                        CurV { extra: cadd(cv.extra, 1), ..cv }
                    } else {
                        cv
                    };
                    let cv2 = CurV { cur_h: wadd(cv1.cur_h, width), ..cv1 };
                    spec_hlist_run(meta, fonts, params, nodes, i + 1, cv2, acc, base_line, le)
                } else {
                    let stack1 = cv.lr_stack.push(lr_info(subtype));
                    if marker_dir_code(subtype) == cv.cur_dir.spec_dir_code() {
                        let cv1 = CurV {
                            lr_stack: stack1,
                            cur_h: wadd(cv.cur_h, width),
                            ..cv
                        };
                        spec_hlist_run(meta, fonts, params, nodes, i + 1, cv1, acc, base_line, le)
                    } else {
                        // A direction switch: mirror the rest of this group.
                        let rule_wd = width;
                        let new_dir = cv.cur_dir.spec_reversed();
                        let rr = spec_reverse(
                            meta,
                            fonts,
                            nodes,
                            i + 1,
                            new_dir,
                            cv.cur_dir,
                            true,
                            RSt {
                                cur_h: wadd(wsub(cv.cur_h, le), rule_wd),
                                lr: stack1,
                                missing: cv.missing,
                                extra: cv.extra,
                                acc,
                                out: Seq::empty(),
                                n_open: 0,
                                m_flat: 0,
                            },
                        );
                        if rr.err is Some {
                            HRes {
                                cur: cv,
                                acc,
                                cmds: Seq::empty(),
                                acts: Seq::empty(),
                                le,
                                err: rr.err,
                            }
                        } else {
                            let edge1 = NodeV::Edge {
                                width: rule_wd,
                                edge_dist: rr.cur_h,
                                dir: new_dir,
                            };
                            let rev_full = seq![edge1] + rr.nodes;
                            let cv1 = CurV {
                                lr_stack: rr.lr_stack,
                                missing: rr.missing,
                                extra: rr.extra,
                                ..cv
                            };
                            let ra = spec_hlist_run(
                                meta,
                                fonts,
                                params,
                                rev_full,
                                0,
                                cv1,
                                rr.acc,
                                base_line,
                                le,
                            );
                            if ra.err is Some {
                                ra
                            } else {
                                hpre(
                                    ra.cmds,
                                    ra.acts,
                                    spec_hlist_run(
                                        meta,
                                        fonts,
                                        params,
                                        nodes,
                                        rr.next,
                                        ra.cur,
                                        ra.acc,
                                        base_line,
                                        ra.le,
                                    ),
                                )
                            }
                        }
                    }
                }
            },
            NodeV::Edge { width, edge_dist, dir } => {
                let cv1 = CurV { cur_h: wadd(cv.cur_h, width), cur_dir: dir, ..cv };
                let le1 = wadd(cv1.cur_h, edge_dist);
                spec_hlist_run(meta, fonts, params, nodes, i + 1, cv1, acc, base_line, le1)
            },
            NodeV::Penalty { .. } => spec_hlist_run(
                meta,
                fonts,
                params,
                nodes,
                i + 1,
                cv,
                acc,
                base_line,
                le,
            ),
            NodeV::WhatsIt(w) => {
                let (cv1, c1, a1, e1) = spec_hwhatsit(params, cv, base_line, w);
                if e1 is Some {
                    HRes { cur: cv1, acc, cmds: c1, acts: a1, le, err: e1 }
                } else {
                    hpre(
                        c1,
                        a1,
                        spec_hlist_run(meta, fonts, params, nodes, i + 1, cv1, acc, base_line, le),
                    )
                }
            },
        }
    }
}

/// One character (or the character of a ligature) in a horizontal list:
/// synchronise, switch fonts lazily, set the character when the font has
/// it, and advance.
pub open spec fn spec_hchar(
    meta: BoxMeta,
    fonts: Seq<FontDef>,
    params: PageParams,
    nodes: Seq<NodeV>,
    i: int,
    cv: CurV,
    acc: GlueAcc,
    base_line: int,
    le: int,
    font: int,
    character: u16,
) -> HRes
    decreases mw_from(nodes, i), nv_from(nodes, i), 2int,
    when 0 <= i < nodes.len()
    via spec_hchar_dec
{
    let (cv1, c1) = sync_h(cv);
    let (cv2, c2) = sync_v(cv1);
    let (cv3, c3) = font_switch(cv2, font);
    let ex = crate::node::spec_char_exists(fonts[font], character);
    let c4: Seq<CmdV> = if ex {
        seq![CmdV::Char(character)]
    } else {
        Seq::empty()
    };
    let h1 = if ex {
        wadd(cv3.cur_h, spec_char_width(fonts[font], character))
    } else {
        cv3.cur_h
    };
    let cv4 = CurV { cur_h: h1, dvi_h: h1, ..cv3 };
    hpre(
        c1 + c2 + c3 + c4,
        Seq::empty(),
        spec_hlist_run(meta, fonts, params, nodes, i + 1, cv4, acc, base_line, le),
    )
}

/// An extension node in either list: the sized ones emit device material,
/// the stream controls become side-effect requests (suppressed inside
/// leaders), and an unknown subtype is a fatal inconsistency.
pub open spec fn spec_hwhatsit(params: PageParams, cv: CurV, base_line: int, w: WhatsItV) -> (
    CurV,
    Seq<CmdV>,
    Seq<ActV>,
    Option<Fatal>,
) {
    match w {
        WhatsItV::NativeWord { font, width, text, glyph_data, actual_text, .. } => {
            let (cv1, c1) = sync_h(cv);
            let (cv2, c2) = sync_v(cv1);
            let (cv3, c3) = font_switch(cv2, font);
            let c4: Seq<CmdV> = if actual_text {
                if text.len() > 0 || glyph_data.len() > 0 {
                    seq![CmdV::NativeText { text, glyphs: glyph_data }]
                } else {
                    Seq::empty()
                }
            } else {
                if glyph_data.len() > 0 {
                    seq![CmdV::NativeGlyphs { glyphs: glyph_data }]
                } else {
                    Seq::empty()
                }
            };
            let h1 = wadd(cv3.cur_h, width);
            (CurV { cur_h: h1, dvi_h: h1, ..cv3 }, c1 + c2 + c3 + c4, Seq::empty(), None)
        },
        WhatsItV::Glyph { font, width, glyph, .. } => {
            let (cv1, c1) = sync_h(cv);
            let (cv2, c2) = sync_v(cv1);
            let (cv3, c3) = font_switch(cv2, font);
            let c4 = seq![CmdV::Glyph { width: width as i32, glyph }];
            let h1 = wadd(cv3.cur_h, width);
            (CurV { cur_h: h1, dvi_h: h1, ..cv3 }, c1 + c2 + c3 + c4, Seq::empty(), None)
        },
        WhatsItV::Pic { width, m0, m1, m2, m3, m4, m5, page, pagebox, path, .. } => {
            let save_h = cv.dvi_h;
            let save_v = cv.dvi_v;
            let edge = wadd(cv.cur_h, width);
            let (cv1, c1) = sync_h(CurV { cur_v: base_line, ..cv });
            let (cv2, c2) = sync_v(cv1);
            let payload = crate::fmt::spec_pic_payload(m0, m1, m2, m3, m4, m5, page, pagebox, path);
            let cv3 = CurV { dvi_h: save_h, dvi_v: save_v, cur_h: edge, cur_v: base_line, ..cv2 };
            (cv3, c1 + c2 + seq![CmdV::Special { payload }], Seq::empty(), None)
        },
        WhatsItV::PdfSavePos => {
            (
                CurV {
                    pdf_last_x: wadd(cv.cur_h, params.cur_h_offset as int),
                    pdf_last_y: wsub(wsub(params.cur_page_height as int, cv.cur_v), params.cur_v_offset as int),
                    ..cv
                },
                Seq::empty(),
                Seq::empty(),
                None,
            )
        },
        WhatsItV::Special { text } => {
            let (cv1, c1) = sync_h(cv);
            let (cv2, c2) = sync_v(cv1);
            (cv2, c1 + c2 + seq![CmdV::Special { payload: text }], Seq::empty(), None)
        },
        WhatsItV::Open { id, name, area, ext } => {
            if !cv.doing_leaders {
                let ext1 = if ext.len() == 0 {
                    seq![46u8, 116u8, 101u8, 120u8]
                } else {
                    ext
                };
                (cv, Seq::empty(), seq![ActV::Open { id, name, area, ext: ext1 }], None)
            } else {
                (cv, Seq::empty(), Seq::empty(), None)
            }
        },
        WhatsItV::Write { stream, text } => {
            if !cv.doing_leaders {
                (cv, Seq::empty(), seq![ActV::Write { stream, text }], None)
            } else {
                (cv, Seq::empty(), Seq::empty(), None)
            }
        },
        WhatsItV::Close { id } => {
            if !cv.doing_leaders {
                (cv, Seq::empty(), seq![ActV::Close { id }], None)
            } else {
                (cv, Seq::empty(), Seq::empty(), None)
            }
        },
        WhatsItV::Language { .. } => (cv, Seq::empty(), Seq::empty(), None),
        WhatsItV::Other { .. } => (
            cv,
            Seq::empty(),
            Seq::empty(),
            Some(Fatal::Confusion(ConfusionTag::Extension)),
        ),
    }
}

/// Where tiling starts and the extra inter-copy spacing: "A" leaders snap
/// to a grid anchored at the enclosing edge, "C" leaders centre the run,
/// "X" leaders spread the slack between copies.
pub open spec fn tile_anchor(kind: GlueKind, h0: int, le: int, rule_wd: int, ld: int) -> (
    int,
    int,
) {
    if kind == GlueKind::ALeaders {
        let snapped = le + ld * tdiv(h0 - le, ld);
        (
            if snapped < h0 {
                snapped + ld
            } else {
                snapped
            },
            0,
        )
    } else if kind == GlueKind::CLeaders {
        (h0 + (rule_wd % ld) / 2, 0)
    } else {
        let lq = rule_wd / ld;
        let lr0 = rule_wd % ld;
        let lx = lr0 / (lq + 1);
        (h0 + (lr0 - (lq - 1) * lx) / 2, lx)
    }
}

/// Horizontal leader tiling: anchor or centre the first copy, then emit the
/// leader box at each grid position across the resolved width.  A leader
/// wider than the resolved width tiles no copy at all.
pub open spec fn spec_tile_h(
    meta: BoxMeta,
    fonts: Seq<FontDef>,
    params: PageParams,
    lb: ListBoxV,
    kind: GlueKind,
    rw0: int,
    cv: CurV,
    base_line: int,
    le: int,
) -> HRes
    decreases mw_list(lb.list), 4 + nv_list_weight(lb.list), 0int,
    via spec_tile_h_dec
{
    if !(tile_pos_ok(cv.cur_h) && tile_pos_ok(le) && tile_pos_ok(base_line) && tile_pos_ok(
        cv.dvi_h,
    ) && tile_pos_ok(cv.dvi_v) && tile_pos_ok(cv.cur_v) && 0 < lb.width <= 0x7FFF_FFFF && 0 < rw0
        <= 0x1_4000_0000) {
        HRes {
            cur: cv,
            acc: GlueAcc { total: 0i64, cur_g: 0i32 },
            cmds: Seq::empty(),
            acts: Seq::empty(),
            le,
            err: Some(Fatal::Coordinate),
        }
    } else {
        let rule_wd = rw0;
        let h0 = cv.cur_h;
        let edge = h0 + rule_wd;
        let ld = lb.width;
        let anchor = tile_anchor(kind, h0, le, rule_wd, ld);
        let cvp = CurV { cur_h: anchor.0, ..cv };
        spec_tile_h_loop(meta, fonts, params, lb, cvp, base_line, edge, ld, anchor.1)
    }
}

/// The horizontal tiling loop: one leader copy per step.
pub open spec fn spec_tile_h_loop(
    meta: BoxMeta,
    fonts: Seq<FontDef>,
    params: PageParams,
    lb: ListBoxV,
    cv: CurV,
    base_line: int,
    edge: int,
    ld: int,
    lx: int,
) -> HRes
    decreases mw_list(lb.list), 3 + nv_list_weight(lb.list), gap3(cv.cur_h, edge, ld),
    when tile_loop_ok(cv.cur_h, edge, ld, lx) && tile_pos_ok(base_line)
    via spec_tile_h_loop_dec
{
    if cv.cur_h + ld <= edge {
        let cv1 = CurV { cur_v: wadd(base_line, lb.shift), ..cv };
        let (cv2, c1) = sync_v(cv1);
        let save_v = cv2.dvi_v;
        let (cv3, c2) = sync_h(cv2);
        let save_h = cv3.dvi_h;
        let outer = cv3.doing_leaders;
        let cv4 = CurV {
            cur_h: if cv3.cur_dir == LR::RightToLeft {
                cv3.cur_h + ld
            } else {
                cv3.cur_h
            },
            doing_leaders: true,
            ..cv3
        };
        let sub = if lb.vertical {
            spec_vlist_box(lb, fonts, params, cv4)
        } else {
            spec_hlist_box(lb, fonts, params, cv4)
        };
        if sub.err is Some {
            hpre(c1 + c2, Seq::empty(), sub)
        } else {
            let cv5 = CurV {
                doing_leaders: outer,
                dvi_v: save_v,
                dvi_h: save_h,
                cur_v: base_line,
                cur_h: save_h + ld + lx,
                ..sub.cur
            };
            hpre(
                c1 + c2 + sub.cmds,
                sub.acts,
                spec_tile_h_loop(meta, fonts, params, lb, cv5, base_line, edge, ld, lx),
            )
        }
    } else {
        HRes {
            cur: CurV { cur_h: edge, ..cv },
            acc: GlueAcc { total: 0i64, cur_g: 0i32 },
            cmds: Seq::empty(),
            acts: Seq::empty(),
            le: 0,
            err: None,
        }
    }
}

/// The traversal of one horizontal box: push the device cursor, set up
/// direction state (reversing the whole list under right-to-left), run the
/// content, check the direction stack, and pop.
pub open spec fn spec_hlist_box(b: ListBoxV, fonts: Seq<FontDef>, params: PageParams, cv: CurV) -> HRes
    decreases mw_list(b.list), 2 + nv_list_weight(b.list), 4int,
    via spec_hlist_box_dec
{
    let meta = BoxMeta {
        sign: b.glue_sign,
        order: b.glue_order,
        ratio: GlueRatio { num: b.glue_set as i64 },
        box_height: b.height as i32,
        box_depth: b.depth as i32,
        box_width: b.width as i32,
    };
    let cs = wadd(cv.cur_s, 1);
    let push_flag = cs > 0;
    let cv1 = CurV {
        cur_s: cs,
        max_push: if cs > cv.max_push {
            cs
        } else {
            cv.max_push
        },
        lr_stack: cv.lr_stack.push(0),
        ..cv
    };
    let base_line = cv1.cur_v;
    let entered_rtl_dlist = b.lr_mode == crate::consts::LRMode::DList && cv1.cur_dir
        == LR::RightToLeft;
    let cv2 = if entered_rtl_dlist {
        CurV { cur_dir: LR::LeftToRight, cur_h: wsub(cv1.cur_h, b.width), ..cv1 }
    } else {
        cv1
    };
    let needs_rev = cv2.cur_dir == LR::RightToLeft && b.lr_mode != crate::consts::LRMode::Reversed;
    let open_cmds = seq![CmdV::BoxOpen { push: push_flag }];
    let acc0 = GlueAcc { total: 0i64, cur_g: 0i32 };
    let run = if needs_rev {
        let rr = spec_reverse(
            meta,
            fonts,
            b.list,
            0,
            cv2.cur_dir,
            cv2.cur_dir,
            false,
            RSt {
                cur_h: 0,
                lr: cv2.lr_stack,
                missing: cv2.missing,
                extra: cv2.extra,
                acc: acc0,
                out: Seq::empty(),
                n_open: 0,
                m_flat: 0,
            },
        );
        if rr.err is Some {
            HRes {
                cur: cv2,
                acc: acc0,
                cmds: Seq::empty(),
                acts: Seq::empty(),
                le: cv2.cur_h,
                err: rr.err,
            }
        } else {
            let kern0 = NodeV::Kern { width: wsub(0, rr.cur_h) };
            let run_list = seq![kern0] + rr.nodes;
            let cv3 = CurV { lr_stack: rr.lr_stack, missing: rr.missing, extra: rr.extra, ..cv2 };
            spec_hlist_run(meta, fonts, params, run_list, 0, cv3, rr.acc, base_line, cv3.cur_h)
        }
    } else {
        spec_hlist_run(meta, fonts, params, b.list, 0, cv2, acc0, base_line, cv2.cur_h)
    };
    if run.err is Some {
        hpre(open_cmds, Seq::empty(), run)
    } else {
        let (stack_f, miss_k) = lr_clean(run.cur.lr_stack);
        let cv4 = CurV {
            lr_stack: stack_f,
            missing: cadd(run.cur.missing, miss_k),
            cur_dir: if entered_rtl_dlist {
                LR::RightToLeft
            } else {
                run.cur.cur_dir
            },
            cur_s: wsub(run.cur.cur_s, 1),
            ..run.cur
        };
        HRes {
            cur: cv4,
            acc: run.acc,
            cmds: open_cmds + run.cmds + seq![CmdV::BoxClose { push: push_flag }],
            acts: run.acts,
            le: run.le,
            err: None,
        }
    }
}

/// Unwind the direction stack to the sentinel this box pushed, counting
/// every marker left open as missing.
pub open spec fn lr_clean(s: Seq<u32>) -> (Seq<u32>, int)
    decreases s,
{
    if s.len() == 0 {
        (s, 0)
    } else if s.last() == 0 {
        (s.drop_last(), 0)
    } else {
        let (t, k) = lr_clean(s.drop_last());
        (t, k + 1)
    }
}

/// The traversal of one vertical list from position `i` on.
pub open spec fn spec_vlist_run(
    meta: BoxMeta,
    fonts: Seq<FontDef>,
    params: PageParams,
    nodes: Seq<NodeV>,
    i: int,
    cv: CurV,
    acc: GlueAcc,
    left_edge: int,
    top_edge: int,
    upwards: bool,
) -> HRes
    decreases mw_from(nodes, i), nv_from(nodes, i), 3int,
    when 0 <= i <= nodes.len()
    via spec_vlist_run_dec
{
    if i >= nodes.len() {
        HRes { cur: cv, acc, cmds: Seq::empty(), acts: Seq::empty(), le: left_edge, err: None }
    } else {
        match nodes[i] {
            NodeV::Char { .. } => HRes {
                cur: cv,
                acc,
                cmds: Seq::empty(),
                acts: Seq::empty(),
                le: left_edge,
                err: Some(Fatal::Confusion(ConfusionTag::VListChar)),
            },
            NodeV::List(b) => {
                if b.list.len() == 0 {
                    let v1 = if upwards {
                        wsub(cv.cur_v, b.depth)
                    } else {
                        wadd(cv.cur_v, b.height)
                    };
                    let v2 = if upwards {
                        wsub(v1, b.height)
                    } else {
                        wadd(v1, b.depth)
                    };
                    let cv1 = CurV { cur_v: v2, ..cv };
                    hpre(
                        Seq::empty(),
                        seq![ActV::VoidBox { vertical: b.vertical }],
                        spec_vlist_run(
                            meta,
                            fonts,
                            params,
                            nodes,
                            i + 1,
                            cv1,
                            acc,
                            left_edge,
                            top_edge,
                            upwards,
                        ),
                    )
                } else {
                    let v1 = if upwards {
                        wsub(cv.cur_v, b.depth)
                    } else {
                        wadd(cv.cur_v, b.height)
                    };
                    let (cv1, c1) = sync_v(CurV { cur_v: v1, ..cv });
                    let save_h = cv1.dvi_h;
                    let save_v = cv1.dvi_v;
                    let cv2 = CurV {
                        cur_h: if cv1.cur_dir == LR::RightToLeft {
                            wsub(left_edge, b.shift)
                        } else {
                            wadd(left_edge, b.shift)
                        },
                        ..cv1
                    };
                    let sub = if b.vertical {
                        spec_vlist_box(b, fonts, params, cv2)
                    } else {
                        spec_hlist_box(b, fonts, params, cv2)
                    };
                    if sub.err is Some {
                        hpre(c1, Seq::empty(), HRes { le: left_edge, ..sub })
                    } else {
                        let cv3 = CurV {
                            dvi_h: save_h,
                            dvi_v: save_v,
                            cur_v: if upwards {
                                wsub(save_v, b.height)
                            } else {
                                wadd(save_v, b.depth)
                            },
                            cur_h: left_edge,
                            ..sub.cur
                        };
                        hpre(
                            c1 + sub.cmds,
                            sub.acts,
                            spec_vlist_run(
                                meta,
                                fonts,
                                params,
                                nodes,
                                i + 1,
                                cv3,
                                acc,
                                left_edge,
                                top_edge,
                                upwards,
                            ),
                        )
                    }
                }
            },
            NodeV::Rule { width, height, depth } => {
                let (cv1, c1) = fin_rule_v(
                    meta,
                    cv,
                    left_edge,
                    height,
                    depth,
                    width,
                    upwards,
                );
                hpre(
                    c1,
                    Seq::empty(),
                    spec_vlist_run(
                        meta,
                        fonts,
                        params,
                        nodes,
                        i + 1,
                        cv1,
                        acc,
                        left_edge,
                        top_edge,
                        upwards,
                    ),
                )
            },
            NodeV::Glue { glue, kind, leader } => {
                let step = spec_glue_step(meta.sign, meta.order, meta.ratio.num as int, acc, glue);
                let rh = step.rule_wd;
                if kind == GlueKind::Normal || leader is None {
                    let cv1 = CurV {
                        cur_v: if upwards {
                            wsub(cv.cur_v, rh)
                        } else {
                            wadd(cv.cur_v, rh)
                        },
                        ..cv
                    };
                    spec_vlist_run(
                        meta,
                        fonts,
                        params,
                        nodes,
                        i + 1,
                        cv1,
                        step.acc,
                        left_edge,
                        top_edge,
                        upwards,
                    )
                } else {
                    let ld = *leader.unwrap();
                    match ld {
                        NodeV::Rule { width: lw, .. } => {
                            let (cv1, c1) = fin_rule_v(
                                meta,
                                cv,
                                left_edge,
                                rh,
                                0,
                                lw,
                                upwards,
                            );
                            hpre(
                                c1,
                                Seq::empty(),
                                spec_vlist_run(
                                    meta,
                                    fonts,
                                    params,
                                    nodes,
                                    i + 1,
                                    cv1,
                                    step.acc,
                                    left_edge,
                                    top_edge,
                                    upwards,
                                ),
                            )
                        },
                        NodeV::List(lb) => {
                            let lht = lb.height + lb.depth;
                            if lht > 0 && rh > 0 {
                                let t = spec_tile_v(
                                    meta,
                                    fonts,
                                    params,
                                    lb,
                                    kind,
                                    rh,
                                    cv,
                                    left_edge,
                                    top_edge,
                                );
                                if t.err is Some {
                                    HRes { le: left_edge, ..t }
                                } else {
                                    hpre(
                                        t.cmds,
                                        t.acts,
                                        spec_vlist_run(
                                            meta,
                                            fonts,
                                            params,
                                            nodes,
                                            i + 1,
                                            t.cur,
                                            step.acc,
                                            left_edge,
                                            top_edge,
                                            upwards,
                                        ),
                                    )
                                }
                            } else {
                                let cv1 = CurV {
                                    cur_v: if upwards {
                                        wsub(cv.cur_v, rh)
                                    } else {
                                        wadd(cv.cur_v, rh)
                                    },
                                    ..cv
                                };
                                spec_vlist_run(
                                    meta,
                                    fonts,
                                    params,
                                    nodes,
                                    i + 1,
                                    cv1,
                                    step.acc,
                                    left_edge,
                                    top_edge,
                                    upwards,
                                )
                            }
                        },
                        _ => {
                            let cv1 = CurV {
                                cur_v: if upwards {
                                    wsub(cv.cur_v, rh)
                                } else {
                                    wadd(cv.cur_v, rh)
                                },
                                ..cv
                            };
                            spec_vlist_run(
                                meta,
                                fonts,
                                params,
                                nodes,
                                i + 1,
                                cv1,
                                step.acc,
                                left_edge,
                                top_edge,
                                upwards,
                            )
                        },
                    }
                }
            },
            NodeV::Kern { width } => {
                let cv1 = CurV {
                    cur_v: if upwards {
                        wsub(cv.cur_v, width)
                    } else {
                        wadd(cv.cur_v, width)
                    },
                    ..cv
                };
                spec_vlist_run(
                    meta,
                    fonts,
                    params,
                    nodes,
                    i + 1,
                    cv1,
                    acc,
                    left_edge,
                    top_edge,
                    upwards,
                )
            },
            NodeV::WhatsIt(w) => {
                match w {
                    WhatsItV::Glyph { font, height, depth, glyph, .. } => {
                        let cv1 = CurV {
                            cur_v: wadd(cv.cur_v, height),
                            cur_h: left_edge,
                            ..cv
                        };
                        let (cv2, c1) = sync_h(cv1);
                        let (cv3, c2) = sync_v(cv2);
                        let (cv4, c3) = font_switch(cv3, font);
                        let cv5 = CurV {
                            cur_v: wadd(cv4.cur_v, depth),
                            cur_h: left_edge,
                            ..cv4
                        };
                        hpre(
                            c1 + c2 + c3 + seq![CmdV::Glyph { width: 0i32, glyph }],
                            Seq::empty(),
                            spec_vlist_run(
                                meta,
                                fonts,
                                params,
                                nodes,
                                i + 1,
                                cv5,
                                acc,
                                left_edge,
                                top_edge,
                                upwards,
                            ),
                        )
                    },
                    WhatsItV::Pic { height, depth, m0, m1, m2, m3, m4, m5, page, pagebox, path, .. } => {
                        let save_h = cv.dvi_h;
                        let save_v = cv.dvi_v;
                        let (cv1, c1) = sync_h(CurV { cur_v: wadd(cv.cur_v, height), ..cv });
                        let (cv2, c2) = sync_v(cv1);
                        let payload = crate::fmt::spec_pic_payload(
                            m0,
                            m1,
                            m2,
                            m3,
                            m4,
                            m5,
                            page,
                            pagebox,
                            path,
                        );
                        let cv3 = CurV {
                            dvi_h: save_h,
                            dvi_v: save_v,
                            cur_v: wadd(save_v, depth),
                            cur_h: left_edge,
                            ..cv2
                        };
                        hpre(
                            c1 + c2 + seq![CmdV::Special { payload }],
                            Seq::empty(),
                            spec_vlist_run(
                                meta,
                                fonts,
                                params,
                                nodes,
                                i + 1,
                                cv3,
                                acc,
                                left_edge,
                                top_edge,
                                upwards,
                            ),
                        )
                    },
                    _ => {
                        let (cv1, c1, a1, e1) = spec_hwhatsit(params, cv, cv.cur_v, w);
                        if e1 is Some {
                            HRes { cur: cv1, acc, cmds: c1, acts: a1, le: left_edge, err: e1 }
                        } else {
                            hpre(
                                c1,
                                a1,
                                spec_vlist_run(
                                    meta,
                                    fonts,
                                    params,
                                    nodes,
                                    i + 1,
                                    cv1,
                                    acc,
                                    left_edge,
                                    top_edge,
                                    upwards,
                                ),
                            )
                        }
                    },
                }
            },
            _ => spec_vlist_run(
                meta,
                fonts,
                params,
                nodes,
                i + 1,
                cv,
                acc,
                left_edge,
                top_edge,
                upwards,
            ),
        }
    }
}

/// Vertical leader tiling.
pub open spec fn spec_tile_v(
    meta: BoxMeta,
    fonts: Seq<FontDef>,
    params: PageParams,
    lb: ListBoxV,
    kind: GlueKind,
    rh0: int,
    cv: CurV,
    left_edge: int,
    top_edge: int,
) -> HRes
    decreases mw_list(lb.list), 4 + nv_list_weight(lb.list), 0int,
    via spec_tile_v_dec
{
    if !(tile_pos_ok(cv.cur_v) && tile_pos_ok(top_edge) && tile_pos_ok(left_edge) && tile_pos_ok(
        cv.dvi_h,
    ) && tile_pos_ok(cv.dvi_v) && tile_pos_ok(cv.cur_h) && 0 < lb.height + lb.depth
        <= 0x7FFF_FFFF && -0x8000_0000 <= lb.height <= 0x7FFF_FFFF && 0 < rh0 <= 0x1_4000_0000) {
        HRes {
            cur: cv,
            acc: GlueAcc { total: 0i64, cur_g: 0i32 },
            cmds: Seq::empty(),
            acts: Seq::empty(),
            le: left_edge,
            err: Some(Fatal::Coordinate),
        }
    } else {
        let rule_ht = rh0;
        let edge = cv.cur_v + rule_ht;
        let lht = (lb.height + lb.depth);
        let lx: int = if kind == GlueKind::XLeaders {
            (rule_ht % lht) / (rule_ht / lht + 1)
        } else {
            0
        };
        let pos0: int = if kind == GlueKind::ALeaders {
            let snapped = top_edge + lht * tdiv(cv.cur_v - top_edge, lht);
            if snapped < cv.cur_v {
                snapped + lht
            } else {
                snapped
            }
        } else if kind == GlueKind::CLeaders {
            cv.cur_v + (rule_ht % lht) / 2
        } else {
            let lq = rule_ht / lht;
            let lr0 = rule_ht % lht;
            cv.cur_v + (lr0 - (lq - 1) * lx) / 2
        };
        let cvp = CurV { cur_v: pos0, ..cv };
        spec_tile_v_loop(meta, fonts, params, lb, cvp, left_edge, edge, lht, lx)
    }
}

/// The vertical tiling loop: one leader copy per step.
pub open spec fn spec_tile_v_loop(
    meta: BoxMeta,
    fonts: Seq<FontDef>,
    params: PageParams,
    lb: ListBoxV,
    cv: CurV,
    left_edge: int,
    edge: int,
    lht: int,
    lx: int,
) -> HRes
    decreases mw_list(lb.list), 3 + nv_list_weight(lb.list), gap3(cv.cur_v, edge, lht),
    when tile_loop_ok(cv.cur_v, edge, lht, lx) && tile_pos_ok(left_edge) && -0x8000_0000
        <= lb.height <= 0x7FFF_FFFF
    via spec_tile_v_loop_dec
{
    if cv.cur_v + lht <= edge {
        let cv1 = CurV {
            cur_h: if cv.cur_dir == LR::RightToLeft {
                wsub(left_edge, lb.shift)
            } else {
                wadd(left_edge, lb.shift)
            },
            ..cv
        };
        let (cv2, c1) = sync_h(cv1);
        let save_h = cv2.dvi_h;
        let cv3 = CurV { cur_v: cv2.cur_v + lb.height, ..cv2 };
        let (cv4, c2) = sync_v(cv3);
        let save_v = cv4.dvi_v;
        let outer = cv4.doing_leaders;
        let cv5 = CurV { doing_leaders: true, ..cv4 };
        let sub = if lb.vertical {
            spec_vlist_box(lb, fonts, params, cv5)
        } else {
            spec_hlist_box(lb, fonts, params, cv5)
        };
        if sub.err is Some {
            hpre(c1 + c2, Seq::empty(), sub)
        } else {
            let cv6 = CurV {
                doing_leaders: outer,
                dvi_v: save_v,
                dvi_h: save_h,
                cur_h: left_edge,
                cur_v: save_v - lb.height + lht + lx,
                ..sub.cur
            };
            hpre(
                c1 + c2 + sub.cmds,
                sub.acts,
                spec_tile_v_loop(meta, fonts, params, lb, cv6, left_edge, edge, lht, lx),
            )
        }
    } else {
        HRes {
            cur: CurV { cur_v: edge, ..cv },
            acc: GlueAcc { total: 0i64, cur_g: 0i32 },
            cmds: Seq::empty(),
            acts: Seq::empty(),
            le: 0,
            err: None,
        }
    }
}

/// The traversal of one vertical box.
pub open spec fn spec_vlist_box(b: ListBoxV, fonts: Seq<FontDef>, params: PageParams, cv: CurV) -> HRes
    decreases mw_list(b.list), 2 + nv_list_weight(b.list), 4int,
    via spec_vlist_box_dec
{
    let meta = BoxMeta {
        sign: b.glue_sign,
        order: b.glue_order,
        ratio: GlueRatio { num: b.glue_set as i64 },
        box_height: b.height as i32,
        box_depth: b.depth as i32,
        box_width: b.width as i32,
    };
    let upwards = b.lr_mode == crate::consts::LRMode::Reversed;
    let cs = wadd(cv.cur_s, 1);
    let push_flag = cs > 0;
    let cv1 = CurV {
        cur_s: cs,
        max_push: if cs > cv.max_push {
            cs
        } else {
            cv.max_push
        },
        cur_v: if upwards {
            wadd(cv.cur_v, b.depth)
        } else {
            wsub(cv.cur_v, b.height)
        },
        ..cv
    };
    let top_edge = cv1.cur_v;
    let le = cv1.cur_h;
    let acc0 = GlueAcc { total: 0i64, cur_g: 0i32 };
    let run = spec_vlist_run(meta, fonts, params, b.list, 0, cv1, acc0, le, top_edge, upwards);
    let open_cmds = seq![CmdV::BoxOpen { push: push_flag }];
    if run.err is Some {
        hpre(open_cmds, Seq::empty(), run)
    } else {
        let cv2 = CurV { cur_s: wsub(run.cur.cur_s, 1), ..run.cur };
        HRes {
            cur: cv2,
            acc: run.acc,
            cmds: open_cmds + run.cmds + seq![CmdV::BoxClose { push: push_flag }],
            acts: run.acts,
            le: run.le,
            err: None,
        }
    }
}

#[via_fn]
proof fn spec_hlist_run_dec(
    meta: BoxMeta,
    fonts: Seq<FontDef>,
    params: PageParams,
    nodes: Seq<NodeV>,
    i: int,
    cv: CurV,
    acc: GlueAcc,
    base_line: int,
    le: int,
) {
    if i < nodes.len() {
        lemma_nv_split(nodes, i);
        match nodes[i] {
            NodeV::Glue { leader, .. } => {
                match leader {
                    Option::Some(ld) => {
                        match *ld {
                            NodeV::List(lb) => {
                                assert(nv_weight(nodes[i]) == 4 + nv_weight(NodeV::List(lb)));
                                assert(nv_weight(NodeV::List(lb)) == 3 + nv_list_weight(lb.list));
                                assert(mw(nodes[i]) == mw(NodeV::List(lb)));
                                assert(mw(NodeV::List(lb)) == mw_list(lb.list));
                            },
                            _ => {},
                        }
                    },
                    Option::None => {},
                }
            },
            NodeV::Math { width, subtype } => {
                if !is_end_code(subtype) && marker_dir_code(subtype) != cv.cur_dir.spec_dir_code() {
                    let stack1 = cv.lr_stack.push(lr_info(subtype));
                    let new_dir = cv.cur_dir.spec_reversed();
                    let st0 = RSt {
                        cur_h: wadd(wsub(cv.cur_h, le), width),
                        lr: stack1,
                        missing: cv.missing,
                        extra: cv.extra,
                        acc,
                        out: Seq::empty(),
                        n_open: 0,
                        m_flat: 0,
                    };
                    let rr = spec_reverse(meta, fonts, nodes, i + 1, new_dir, cv.cur_dir, true, st0);
                    lemma_reverse_bounds(meta, fonts, nodes, i + 1, new_dir, cv.cur_dir, true, st0);
                    if rr.err is None {
                        let edge1 = NodeV::Edge {
                            width: width as int,
                            edge_dist: rr.cur_h,
                            dir: new_dir,
                        };
                        let rev_full = seq![edge1] + rr.nodes;
                        assert(rev_full[0] == edge1);
                        assert(rev_full.subrange(1, rev_full.len() as int) =~= rr.nodes);
                        assert(mw_list(rev_full) == mw(edge1) + mw_list(rr.nodes));
                        assert(nv_list_weight(rev_full) == nv_weight(edge1) + nv_list_weight(
                            rr.nodes,
                        ));
                        assert(rev_full.subrange(0, rev_full.len() as int) =~= rev_full);
                        assert(mw_from(rev_full, 0) == mw_list(rev_full));
                        assert(nv_from(rev_full, 0) == nv_list_weight(rev_full));
                        assert(nodes.subrange(i + 1, nodes.len() as int).subrange(
                            0,
                            nodes.len() - i - 1,
                        ) =~= nodes.subrange(i + 1, nodes.len() as int));
                        assert(mw_list(Seq::<NodeV>::empty()) == 0);
                        assert(nv_list_weight(Seq::<NodeV>::empty()) == 0);
                        assert(mw_from(rev_full, 0) <= mw_from(nodes, i + 1));
                        assert(mw_from(nodes, i) == 1 + mw_from(nodes, i + 1));
                        lemma_nv_mono(nodes, i + 1, rr.next);
                    }
                }
            },
            _ => {},
        }
    }
}

#[via_fn]
proof fn spec_hchar_dec(
    meta: BoxMeta,
    fonts: Seq<FontDef>,
    params: PageParams,
    nodes: Seq<NodeV>,
    i: int,
    cv: CurV,
    acc: GlueAcc,
    base_line: int,
    le: int,
    font: int,
    character: u16,
) {
    lemma_nv_split(nodes, i);
}

#[via_fn]
proof fn spec_tile_h_dec(
    meta: BoxMeta,
    fonts: Seq<FontDef>,
    params: PageParams,
    lb: ListBoxV,
    kind: GlueKind,
    rw0: int,
    cv: CurV,
    base_line: int,
    le: int,
) {
}

#[via_fn]
proof fn spec_tile_h_loop_dec(
    meta: BoxMeta,
    fonts: Seq<FontDef>,
    params: PageParams,
    lb: ListBoxV,
    cv: CurV,
    base_line: int,
    edge: int,
    ld: int,
    lx: int,
) {
    if tile_loop_ok(cv.cur_h, edge, ld, lx) && cv.cur_h + ld <= edge {
        assert(gap3(cv.cur_h, edge, ld) >= 5);
        assert(gap3(cv.cur_h + ld + lx, edge, ld) < gap3(cv.cur_h, edge, ld));
    }
}

#[via_fn]
proof fn spec_hlist_box_dec(b: ListBoxV, fonts: Seq<FontDef>, params: PageParams, cv: CurV) {
    let meta = BoxMeta {
        sign: b.glue_sign,
        order: b.glue_order,
        ratio: GlueRatio { num: b.glue_set as i64 },
        box_height: b.height as i32,
        box_depth: b.depth as i32,
        box_width: b.width as i32,
    };
    assert(b.list.subrange(0, b.list.len() as int) =~= b.list);
    let cv1 = CurV {
        cur_s: wadd(cv.cur_s, 1),
        max_push: if wadd(cv.cur_s, 1) > cv.max_push {
            wadd(cv.cur_s, 1)
        } else {
            cv.max_push
        },
        lr_stack: cv.lr_stack.push(0),
        ..cv
    };
    let entered_rtl_dlist = b.lr_mode == crate::consts::LRMode::DList && cv1.cur_dir
        == LR::RightToLeft;
    let cv2 = if entered_rtl_dlist {
        CurV { cur_dir: LR::LeftToRight, cur_h: wsub(cv1.cur_h, b.width), ..cv1 }
    } else {
        cv1
    };
    let acc0 = GlueAcc { total: 0i64, cur_g: 0i32 };
    if cv2.cur_dir == LR::RightToLeft && b.lr_mode != crate::consts::LRMode::Reversed {
        let rr = spec_reverse(
            meta,
            fonts,
            b.list,
            0,
            cv2.cur_dir,
            cv2.cur_dir,
            false,
            RSt {
                cur_h: 0,
                lr: cv2.lr_stack,
                missing: cv2.missing,
                extra: cv2.extra,
                acc: acc0,
                out: Seq::empty(),
                n_open: 0,
                m_flat: 0,
            },
        );
        lemma_reverse_bounds(
            meta,
            fonts,
            b.list,
            0,
            cv2.cur_dir,
            cv2.cur_dir,
            false,
            RSt {
                cur_h: 0,
                lr: cv2.lr_stack,
                missing: cv2.missing,
                extra: cv2.extra,
                acc: acc0,
                out: Seq::empty(),
                n_open: 0,
                m_flat: 0,
            },
        );
        if rr.err is None {
            let kern0 = NodeV::Kern { width: wsub(0, rr.cur_h) };
            let run_list = seq![kern0] + rr.nodes;
            assert(run_list[0] == kern0);
            assert(run_list.subrange(1, run_list.len() as int) =~= rr.nodes);
            assert(mw_list(run_list) == mw(kern0) + mw_list(rr.nodes));
            assert(nv_list_weight(run_list) == nv_weight(kern0) + nv_list_weight(rr.nodes));
            assert(run_list.subrange(0, run_list.len() as int) =~= run_list);
            assert(mw_list(Seq::<NodeV>::empty()) == 0);
            assert(nv_list_weight(Seq::<NodeV>::empty()) == 0);
        }
    }
}

#[via_fn]
proof fn spec_vlist_run_dec(
    meta: BoxMeta,
    fonts: Seq<FontDef>,
    params: PageParams,
    nodes: Seq<NodeV>,
    i: int,
    cv: CurV,
    acc: GlueAcc,
    left_edge: int,
    top_edge: int,
    upwards: bool,
) {
    if i < nodes.len() {
        lemma_nv_split(nodes, i);
        match nodes[i] {
            NodeV::Glue { leader, .. } => {
                match leader {
                    Option::Some(ld) => {
                        match *ld {
                            NodeV::List(lb) => {
                                assert(nv_weight(nodes[i]) == 4 + nv_weight(NodeV::List(lb)));
                                assert(nv_weight(NodeV::List(lb)) == 3 + nv_list_weight(lb.list));
                                assert(mw(nodes[i]) == mw(NodeV::List(lb)));
                                assert(mw(NodeV::List(lb)) == mw_list(lb.list));
                            },
                            _ => {},
                        }
                    },
                    Option::None => {},
                }
            },
            _ => {},
        }
    }
}

#[via_fn]
proof fn spec_tile_v_dec(
    meta: BoxMeta,
    fonts: Seq<FontDef>,
    params: PageParams,
    lb: ListBoxV,
    kind: GlueKind,
    rh0: int,
    cv: CurV,
    left_edge: int,
    top_edge: int,
) {
}

#[via_fn]
proof fn spec_tile_v_loop_dec(
    meta: BoxMeta,
    fonts: Seq<FontDef>,
    params: PageParams,
    lb: ListBoxV,
    cv: CurV,
    left_edge: int,
    edge: int,
    lht: int,
    lx: int,
) {
    if tile_loop_ok(cv.cur_v, edge, lht, lx) && cv.cur_v + lht <= edge {
        assert(gap3(cv.cur_v, edge, lht) >= 5);
        assert(gap3(cv.cur_v + lht + lx, edge, lht) < gap3(cv.cur_v, edge, lht));
    }
}

#[via_fn]
proof fn spec_vlist_box_dec(b: ListBoxV, fonts: Seq<FontDef>, params: PageParams, cv: CurV) {
    assert(b.list.subrange(0, b.list.len() as int) =~= b.list);
}


/// Truncate a resolved width into the stored 32-bit range.
pub fn trunc32_exec(x: i64) -> (r: i32)
    requires
        -0x2_0000_0000_0000 <= x <= 0x2_0000_0000_0000,
    ensures
        r as int == trunc32(x as int),
{
    let m: i64 = if x >= 0 {
        x % 0x1_0000_0000
    } else {
        -((-x) % 0x1_0000_0000)
    };
    let r: i64 = if m >= 0x8000_0000 {
        m - 0x1_0000_0000
    } else if m < -0x8000_0000 {
        m + 0x1_0000_0000
    } else {
        m
    };
    proof {
        assert(r as int == trunc32(x as int)) by (nonlinear_arith)
            requires
                -0x2_0000_0000_0000 <= x <= 0x2_0000_0000_0000,
                m == (if x >= 0 {
                    x as int % 0x1_0000_0000
                } else {
                    -((-(x as int)) % 0x1_0000_0000)
                }),
                r == (if m >= 0x8000_0000 {
                    m - 0x1_0000_0000
                } else if m < -0x8000_0000 {
                    m + 0x1_0000_0000
                } else {
                    m as int
                }),
        ;
    }
    r as i32
}

/// Wrapping coordinate addition.
pub fn wadd_exec(a: i64, b: i64) -> (r: i64)
    ensures
        r as int == wadd(a as int, b as int),
{
    let r = a.wrapping_add(b);
    proof {
        assert(r as int == wrap64(a as int + b as int)) by (nonlinear_arith)
            requires
                r == vstd::wrapping::i64_specs::wrapping_add(a, b),
                -0x8000_0000_0000_0000 <= a <= 0x7FFF_FFFF_FFFF_FFFF,
                -0x8000_0000_0000_0000 <= b <= 0x7FFF_FFFF_FFFF_FFFF,
        ;
    }
    r
}

/// Wrapping coordinate subtraction.
pub fn wsub_exec(a: i64, b: i64) -> (r: i64)
    ensures
        r as int == wsub(a as int, b as int),
{
    let r = a.wrapping_sub(b);
    proof {
        assert(r as int == wrap64(a as int - b as int)) by (nonlinear_arith)
            requires
                r == vstd::wrapping::i64_specs::wrapping_sub(a, b),
                -0x8000_0000_0000_0000 <= a <= 0x7FFF_FFFF_FFFF_FFFF,
                -0x8000_0000_0000_0000 <= b <= 0x7FFF_FFFF_FFFF_FFFF,
        ;
    }
    r
}

/// Wrapping anomaly-counter increment.
pub fn cadd_exec(a: u64, b: u64) -> (r: u64)
    ensures
        r as int == cadd(a as int, b as int),
{
    let r = a.wrapping_add(b);
    proof {
        assert(r as int == (a as int + b as int) % 0x1_0000_0000_0000_0000) by (nonlinear_arith)
            requires
                r == vstd::wrapping::u64_specs::wrapping_add(a, b),
                0 <= a <= 0xFFFF_FFFF_FFFF_FFFF,
                0 <= b <= 0xFFFF_FFFF_FFFF_FFFF,
        ;
    }
    r
}

/// The end code a math marker's group matches.
fn lr_info_exec(s: u16) -> (r: u32)
    requires
        s < 0xFF00,
    ensures
        r == lr_info(s),
{
    4 * ((s as u32) / 4) + 3
}

/// The marker's direction bit.
fn marker_dir_code_exec(s: u16) -> (r: u16)
    ensures
        r == marker_dir_code(s),
{
    s / 8
}

/// The view of the reversal engine's executable state.
pub open spec fn rst_of(
    cur_h: i64,
    lr: Seq<u32>,
    missing: u64,
    extra: u64,
    acc: GlueAcc,
    out: Seq<Node>,
    n_open: usize,
    m_flat: usize,
) -> RSt {
    RSt {
        cur_h: cur_h as int,
        lr,
        missing: missing as int,
        extra: extra as int,
        acc,
        out: list_view(out),
        n_open: n_open as int,
        m_flat: m_flat as int,
    }
}

/// What one executable reversal step decided.
pub enum RevStep {
    Cont,
    Fin(i32),
}

/// One step of the reversal engine over the node at `j`.
#[verifier::rlimit(100)]
#[verifier::spinoff_prover]
fn reverse_step(
    meta: &BoxMeta,
    fonts: &Vec<FontDef>,
    nodes: &Vec<Node>,
    j: usize,
    cdir: LR,
    has_t: bool,
    cur_h: &mut i64,
    lr: &mut Vec<u32>,
    missing: &mut u64,
    extra: &mut u64,
    acc: &mut GlueAcc,
    out: &mut Vec<Node>,
    n_open: &mut usize,
    m_flat: &mut usize,
) -> (r: Result<RevStep, Fatal>)
    requires
        j < nodes@.len(),
        list_wf(nodes@, fonts@.len() as int),
        fonts_wf(fonts@),
        *old(n_open) + *old(m_flat) <= j,
    ensures
        ({
            let pre = rst_of(
                *old(cur_h),
                old(lr)@,
                *old(missing),
                *old(extra),
                *old(acc),
                old(out)@,
                *old(n_open),
                *old(m_flat),
            );
            let post = rst_of(
                *final(cur_h),
                final(lr)@,
                *final(missing),
                *final(extra),
                *final(acc),
                final(out)@,
                *final(n_open),
                *final(m_flat),
            );
            let step = rev_step(*meta, fonts@, list_view(nodes@)[j as int], cdir, has_t, pre);
            match r {
                Result::Ok(RevStep::Cont) => step == RevStepV::Go(post) && *final(n_open)
                    + *final(m_flat) <= j + 1,
                Result::Ok(RevStep::Fin(w)) => step == RevStepV::Finish(post, w as int),
                Result::Err(e) => step == RevStepV::Fail(e) && post == pre,
            }
        }),
{
    proof {
        lemma_list_view_len(nodes@);
        lemma_list_view_index(nodes@, j as int);
    }
    let nlen = nodes.len();
    proof {
        assert(*n_open < nlen && *m_flat < nlen);
    }
    let kept: Option<Node> = match &nodes[j] {
        Node::Char { font, character } => {
            let w = char_width(&fonts[*font], *character);
            *cur_h = wadd_exec(*cur_h, w as i64);
            Some(Node::Char { font: *font, character: *character })
        },
        Node::Ligature { font, character } => {
            let w = char_width(&fonts[*font], *character);
            *cur_h = wadd_exec(*cur_h, w as i64);
            Some(Node::Char { font: *font, character: *character })
        },
        Node::Kern { width } => {
            let keep = *width != 0 && (out.len() > 0 || has_t);
            *cur_h = wadd_exec(*cur_h, *width as i64);
            if keep {
                Some(Node::Kern { width: *width })
            } else {
                None
            }
        },
        Node::Glue { glue, kind, leader } => {
            let keep_base = out.len() > 0 || has_t;
            let (rw, matched) = glue_step(meta.sign, meta.order, &meta.ratio, acc, glue);
            *cur_h = wadd_exec(*cur_h, rw);
            if matched {
                let w32 = trunc32_exec(rw);
                if *kind == GlueKind::Normal {
                    if w32 != 0 && keep_base {
                        Some(Node::Kern { width: w32 })
                    } else {
                        None
                    }
                } else {
                    let ld2: Option<Box<Node>> = match leader {
                        Option::Some(b) => Option::Some(Box::new(deep_clone(&**b))),
                        Option::None => Option::None,
                    };
                    Some(
                        Node::Glue {
                            glue: GlueSpec {
                                width: w32,
                                stretch: 0,
                                stretch_order: GlueOrder::Incorrect,
                                shrink: 0,
                                shrink_order: GlueOrder::Incorrect,
                            },
                            kind: *kind,
                            leader: ld2,
                        },
                    )
                }
            } else {
                Some(deep_clone(&nodes[j]))
            }
        },
        Node::Math { width, subtype } => {
            let sc = *subtype;
            let wd = *width;
            let keep_base = out.len() > 0 || has_t;
            if sc % 2 == 1 {
                let info = lr_info_exec(sc);
                let matches_top = lr.len() > 0 && lr[lr.len() - 1] == info;
                if matches_top {
                    let ghost lr0 = lr@;
                    if *n_open > 0 {
                        lr.pop();
                        *n_open = *n_open - 1;
                        *cur_h = wadd_exec(*cur_h, wd as i64);
                        proof {
                            assert(lr@ =~= lr0.drop_last());
                        }
                        Some(Node::Math { width: wd, subtype: sc - 1 })
                    } else if *m_flat > 0 {
                        lr.pop();
                        *m_flat = *m_flat - 1;
                        *cur_h = wadd_exec(*cur_h, wd as i64);
                        proof {
                            assert(lr@ =~= lr0.drop_last());
                        }
                        if wd != 0 && keep_base {
                            Some(Node::Kern { width: wd })
                        } else {
                            None
                        }
                    } else {
                        lr.pop();
                        proof {
                            assert(lr@ =~= lr0.drop_last());
                        }
                        return Ok(RevStep::Fin(wd));
                    }
                } else {
                    *extra = cadd_exec(*extra, 1);
                    *cur_h = wadd_exec(*cur_h, wd as i64);
                    if wd != 0 && keep_base {
                        Some(Node::Kern { width: wd })
                    } else {
                        None
                    }
                }
            } else {
                let info = lr_info_exec(sc);
                lr.push(info);
                *cur_h = wadd_exec(*cur_h, wd as i64);
                if *n_open > 0 || marker_dir_code_exec(sc) != cdir.dir_code() {
                    *n_open = *n_open + 1;
                    Some(Node::Math { width: wd, subtype: sc + 1 })
                } else {
                    *m_flat = *m_flat + 1;
                    if wd != 0 && keep_base {
                        Some(Node::Kern { width: wd })
                    } else {
                        None
                    }
                }
            }
        },
        Node::Edge { .. } => {
            return Err(Fatal::Confusion(ConfusionTag::ReverseEdge));
        },
        Node::List(b) => {
            *cur_h = wadd_exec(*cur_h, b.width as i64);
            Some(deep_clone(&nodes[j]))
        },
        Node::Rule { width, .. } => {
            *cur_h = wadd_exec(*cur_h, *width as i64);
            Some(deep_clone(&nodes[j]))
        },
        Node::WhatsIt(w) => {
            let adv: i64 = match w {
                WhatsIt::NativeWord { width, .. } => *width as i64,
                WhatsIt::Glyph { width, .. } => *width as i64,
                WhatsIt::Pic { width, .. } => *width as i64,
                _ => 0,
            };
            *cur_h = wadd_exec(*cur_h, adv);
            Some(deep_clone(&nodes[j]))
        },
        _ => {
            *cur_h = wadd_exec(*cur_h, 0);
            Some(deep_clone(&nodes[j]))
        },
    };
    let ghost out_pre = out@;
    match kept {
        Some(n) => {
            out.push(n);
            proof {
                lemma_list_view_push(out_pre, n);
            }
        },
        None => {},
    }
    Ok(RevStep::Cont)
}


/// Mirror an accumulated output list.
fn mirror_nodes(out: Vec<Node>, Ghost(outv): Ghost<Seq<NodeV>>) -> (r: Vec<Node>)
    requires
        list_view(out@) == outv,
    ensures
        list_view(r@) == outv.reverse(),
{
    let mut work = out;
    let mut rev: Vec<Node> = Vec::new();
    proof {
        lemma_list_view_len(work@);
        assert(list_view(work@) =~= outv.subrange(0, work@.len() as int));
    }
    loop
        invariant
            list_view(rev@) == outv.subrange(work@.len() as int, outv.len() as int).reverse(),
            list_view(work@) == outv.subrange(0, work@.len() as int),
            work@.len() <= outv.len(),
        ensures
            work@.len() == 0,
            list_view(rev@) == outv.subrange(work@.len() as int, outv.len() as int).reverse(),
        decreases work@.len(),
    {
        let ghost out_before = work@;
        let ghost rev_before = rev@;
        match work.pop() {
            Some(n) => {
                proof {
                    assert(list_view(out_before) == list_view(out_before.drop_last()).push(
                        node_view(out_before.last()),
                    ));
                    assert(out_before.drop_last() =~= work@);
                    lemma_list_view_len(work@);
                    lemma_list_view_len(out_before);
                    assert(list_view(out_before) == outv.subrange(0, out_before.len() as int));
                    assert(list_view(out_before).last() == node_view(n));
                    assert(outv[out_before.len() - 1] == node_view(n));
                    assert(list_view(rev_before) == outv.subrange(
                        out_before.len() as int,
                        outv.len() as int,
                    ).reverse());
                    assert(list_view(work@) =~= outv.subrange(0, work@.len() as int));
                }
                rev.push(n);
                proof {
                    lemma_list_view_push(rev_before, n);
                    assert(list_view(rev@) =~= outv.subrange(
                        work@.len() as int,
                        outv.len() as int,
                    ).reverse());
                }
            },
            None => {
                proof {
                    assert(list_view(rev@) =~= outv.reverse());
                }
                break ;
            },
        }
    }
    rev
}

/// Drop the top `k` entries of the direction stack.
fn pop_n_exec(lr: &mut Vec<u32>, k: usize)
    ensures
        final(lr)@ == pop_n(old(lr)@, k as int),
{
    let ghost s0 = lr@;
    let mut i: usize = 0;
    while i < k
        invariant
            i <= k,
            lr@ == pop_n(s0, i as int),
        decreases k - i,
    {
        proof {
            assert(pop_n(pop_n(s0, i as int), 1) =~= pop_n(s0, i as int + 1));
        }
        if lr.len() > 0 {
            let ghost cur = lr@;
            lr.pop();
            proof {
                assert(lr@ =~= cur.drop_last());
                assert(cur.drop_last() =~= pop_n(cur, 1));
            }
        } else {
            proof {
                assert(pop_n(lr@, 1) =~= lr@);
            }
        }
        i = i + 1;
    }
}

/// What the executable reversal hands back, mirroring the ghost result;
/// the direction stack is updated in place.
pub struct RevOut {
    pub nodes: Vec<Node>,
    pub next: usize,
    pub cur_h: i64,
    pub missing: u64,
    pub extra: u64,
    pub acc: GlueAcc,
}

/// Mirror the tail of a horizontal list for right-to-left rendering.  The
/// result carries the mirrored node list (ending with the boundary sentinel
/// where one was requested), the input position after the consumed segment,
/// and the updated span width, direction stack, anomaly counters and glue
/// state.
#[verifier::rlimit(100)]
#[verifier::spinoff_prover]
pub fn reverse(
    meta: &BoxMeta,
    fonts: &Vec<FontDef>,
    nodes: &Vec<Node>,
    start: usize,
    cur_h0: i64,
    cdir: LR,
    t_dir: LR,
    has_t: bool,
    lr_stack: &mut Vec<u32>,
    missing0: u64,
    extra0: u64,
    acc0: GlueAcc,
) -> (r: Result<RevOut, Fatal>)
    requires
        nodes@.len() + 1 < usize::MAX,
        start <= nodes@.len(),
        list_wf(nodes@, fonts@.len() as int),
        fonts_wf(fonts@),
    ensures
        ({
            let rr = spec_reverse(
                *meta,
                fonts@,
                list_view(nodes@),
                start as int,
                cdir,
                t_dir,
                has_t,
                RSt {
                    cur_h: cur_h0 as int,
                    lr: old(lr_stack)@,
                    missing: missing0 as int,
                    extra: extra0 as int,
                    acc: acc0,
                    out: Seq::empty(),
                    n_open: 0,
                    m_flat: 0,
                },
            );
            &&& (r is Ok <==> rr.err is None)
            &&& (r matches Err(e) ==> rr.err == Some(e))
            &&& (r matches Ok(o) ==> {
                &&& list_view(o.nodes@) == rr.nodes
                &&& o.next as int == rr.next
                &&& o.cur_h as int == rr.cur_h
                &&& final(lr_stack)@ == rr.lr_stack
                &&& o.missing as int == rr.missing
                &&& o.extra as int == rr.extra
                &&& o.acc == rr.acc
            })
        }),
{
    let ghost nv = list_view(nodes@);
    let ghost st0 = RSt {
        cur_h: cur_h0 as int,
        lr: old(lr_stack)@,
        missing: missing0 as int,
        extra: extra0 as int,
        acc: acc0,
        out: Seq::empty(),
        n_open: 0,
        m_flat: 0,
    };
    let ghost rr0 = spec_reverse(*meta, fonts@, nv, start as int, cdir, t_dir, has_t, st0);
    proof {
        lemma_list_view_len(nodes@);
        assert(list_view(Seq::<Node>::empty()) =~= Seq::<NodeV>::empty());
    }
    let mut j: usize = start;
    let mut cur_h: i64 = cur_h0;
    let mut missing: u64 = missing0;
    let mut extra: u64 = extra0;
    let mut acc: GlueAcc = acc0;
    let mut out: Vec<Node> = Vec::new();
    let mut n_open: usize = 0;
    let mut m_flat: usize = 0;
    proof {
        assert(rst_of(cur_h, lr_stack@, missing, extra, acc, out@, n_open, m_flat) == st0);
    }
    loop
        invariant_except_break
            start <= j <= nodes@.len(),
            nv == list_view(nodes@),
            nv.len() == nodes@.len(),
            list_wf(nodes@, fonts@.len() as int),
            fonts_wf(fonts@),
            n_open + m_flat <= j,
            st0 == (RSt {
                cur_h: cur_h0 as int,
                lr: old(lr_stack)@,
                missing: missing0 as int,
                extra: extra0 as int,
                acc: acc0,
                out: Seq::<NodeV>::empty(),
                n_open: 0,
                m_flat: 0,
            }),
            rr0 == spec_reverse(*meta, fonts@, nv, start as int, cdir, t_dir, has_t, st0),
            rr0 == spec_reverse(
                *meta,
                fonts@,
                nv,
                j as int,
                cdir,
                t_dir,
                has_t,
                rst_of(cur_h, lr_stack@, missing, extra, acc, out@, n_open, m_flat),
            ),
        ensures
            j == nodes@.len(),
            nv == list_view(nodes@),
            st0 == (RSt {
                cur_h: cur_h0 as int,
                lr: old(lr_stack)@,
                missing: missing0 as int,
                extra: extra0 as int,
                acc: acc0,
                out: Seq::<NodeV>::empty(),
                n_open: 0,
                m_flat: 0,
            }),
            rr0 == spec_reverse(*meta, fonts@, nv, start as int, cdir, t_dir, has_t, st0),
            rr0 == spec_reverse(
                *meta,
                fonts@,
                nv,
                j as int,
                cdir,
                t_dir,
                has_t,
                rst_of(cur_h, lr_stack@, missing, extra, acc, out@, n_open, m_flat),
            ),
            n_open + m_flat <= j,
        decreases nodes@.len() - j,
    {
        if j >= nodes.len() {
            break ;
        }
        let ghost pre_st = rst_of(cur_h, lr_stack@, missing, extra, acc, out@, n_open, m_flat);
        let step = reverse_step(
            meta,
            fonts,
            nodes,
            j,
            cdir,
            has_t,
            &mut cur_h,
            lr_stack,
            &mut missing,
            &mut extra,
            &mut acc,
            &mut out,
            &mut n_open,
            &mut m_flat,
        );
        match step {
            Ok(RevStep::Cont) => {
                j = j + 1;
            },
            Ok(RevStep::Fin(w)) => {
                // The segment's own group closed: fill the sentinel.
                let ghost post_st = rst_of(cur_h, lr_stack@, missing, extra, acc, out@, n_open, m_flat);
                proof {
                    assert(rr0 == spec_reverse(
                        *meta,
                        fonts@,
                        nv,
                        j as int,
                        cdir,
                        t_dir,
                        has_t,
                        pre_st,
                    ));
                    assert(rev_step(*meta, fonts@, nv[j as int], cdir, has_t, pre_st)
                        == RevStepV::Finish(post_st, w as int));
                }
                let rev0 = mirror_nodes(out, Ghost(post_st.out));
                let mut rev = rev0;
                let dist = wsub_exec(wsub_exec(0, cur_h), w as i64);
                let ghost rev_pre = rev@;
                rev.push(Node::Edge { width: w as i64, edge_dist: dist, dir: t_dir });
                proof {
                    lemma_list_view_push(
                        rev_pre,
                        Node::Edge { width: w as i64, edge_dist: dist, dir: t_dir },
                    );
                    assert(list_view(rev@) =~= rr0.nodes);
                }
                return Ok(RevOut { nodes: rev, next: j + 1, cur_h, missing, extra, acc });
            },
            Err(e) => {
                return Err(e);
            },
        }
    }
    // Source exhausted: close and count the groups still open.
    let nlen = nodes.len();
    let ghost end_st = rst_of(cur_h, lr_stack@, missing, extra, acc, out@, n_open, m_flat);
    proof {
        assert(rr0 == rev_finish(end_st, t_dir, has_t, j as int));
    }
    let still_open: usize = n_open + m_flat + if has_t {
        1usize
    } else {
        0usize
    };
    pop_n_exec(lr_stack, still_open);
    let missing2 = cadd_exec(missing, still_open as u64);
    let rev0 = mirror_nodes(out, Ghost(end_st.out));
    let mut rev = rev0;
    if has_t {
        let dist = wsub_exec(0, cur_h);
        let ghost rev_pre = rev@;
        rev.push(Node::Edge { width: 0, edge_dist: dist, dir: t_dir });
        proof {
            lemma_list_view_push(rev_pre, Node::Edge { width: 0, edge_dist: dist, dir: t_dir });
        }
    }
    proof {
        assert(list_view(rev@) =~= rr0.nodes);
    }
    Ok(RevOut { nodes: rev, next: j, cur_h, missing: missing2, extra, acc })
}


/// The stream-control extension dispatch: opening, writing and closing
/// auxiliary streams become side-effect requests, suppressed while leaders
/// are being tiled; a language switch is invisible; an unknown extension
/// subtype is a fatal inconsistency.  The sized extension nodes (shaped
/// runs, glyphs, pictures, position marks) are emitted inline by the list
/// traversal instead, as [`spec_hwhatsit`] lays out.
pub fn out_what(w: &WhatsIt, doing_leaders: bool) -> (r: Result<Option<Action>, Fatal>)
    ensures
        ({
            match w {
                WhatsIt::Open { id, name, area, ext } => if !doing_leaders {
                    r matches Ok(a) && a matches Some(act) && act_view(act) == (ActV::Open {
                        id: *id as int,
                        name: name@,
                        area: area@,
                        ext: if ext@.len() == 0 {
                            seq![46u8, 116u8, 101u8, 120u8]
                        } else {
                            ext@
                        },
                    })
                } else {
                    r == Ok::<Option<Action>, Fatal>(None)
                },
                WhatsIt::Write { stream, text } => if !doing_leaders {
                    r matches Ok(a) && a matches Some(act) && act_view(act) == (ActV::Write {
                        stream: *stream as int,
                        text: text@,
                    })
                } else {
                    r == Ok::<Option<Action>, Fatal>(None)
                },
                WhatsIt::Close { id } => if !doing_leaders {
                    r matches Ok(a) && a matches Some(act) && act_view(act) == (ActV::Close {
                        id: *id as int,
                    })
                } else {
                    r == Ok::<Option<Action>, Fatal>(None)
                },
                WhatsIt::Language { .. } => r == Ok::<Option<Action>, Fatal>(None),
                WhatsIt::Other { .. } => r == Err::<Option<Action>, Fatal>(
                    Fatal::Confusion(ConfusionTag::Extension),
                ),
                _ => true,
            }
        }),
{
    match w {
        WhatsIt::Open { id, name, area, ext } => {
            if doing_leaders {
                return Ok(None);
            }
            let ext2: Vec<u8> = if ext.len() == 0 {
                let mut v: Vec<u8> = Vec::new();
                v.push(46);
                v.push(116);
                v.push(101);
                v.push(120);
                proof {
                    assert(v@ =~= seq![46u8, 116u8, 101u8, 120u8]);
                }
                v
            } else {
                crate::node::copy_u8s(ext)
            };
            Ok(
                Some(
                    Action::Open {
                        id: *id,
                        name: crate::node::copy_u8s(name),
                        area: crate::node::copy_u8s(area),
                        ext: ext2,
                    },
                ),
            )
        },
        WhatsIt::Write { stream, text } => {
            if doing_leaders {
                return Ok(None);
            }
            Ok(Some(Action::Write { stream: *stream, text: crate::node::copy_u16s(text) }))
        },
        WhatsIt::Close { id } => {
            if doing_leaders {
                return Ok(None);
            }
            Ok(Some(Action::Close { id: *id }))
        },
        WhatsIt::Language { .. } => Ok(None),
        WhatsIt::Other { .. } => Err(Fatal::Confusion(ConfusionTag::Extension)),
        _ => Ok(None),
    }
}

/// The direction-state epilogue a finished page runs: the accumulated
/// missing/extra marker totals are handed back for one aggregate report and
/// cleared, and the page aborts with a direction-stack inconsistency
/// exactly when markers are still open or the direction did not return to
/// left-to-right.
pub fn check_lr_state(lr_stack: &Vec<u32>, cur_dir: LR, missing: &mut u64, extra: &mut u64) -> (r:
    Result<(u64, u64), Fatal>)
    ensures
        *final(missing) == 0,
        *final(extra) == 0,
        (r is Err <==> lr_stack@.len() > 0 || cur_dir != LR::LeftToRight),
        r is Err ==> r == Err::<(u64, u64), Fatal>(Fatal::Confusion(ConfusionTag::DirStack)),
        r matches Ok(t) ==> t.0 == *old(missing) && t.1 == *old(extra),
{
    let m = *missing;
    let x = *extra;
    *missing = 0;
    *extra = 0;
    if lr_stack.len() > 0 || cur_dir != LR::LeftToRight {
        return Err(Fatal::Confusion(ConfusionTag::DirStack));
    }
    Ok((m, x))
}

} // verus!





