//! Laws the layout core obeys, stated over the same spec functions the
//! executable contracts use and proved once and for all.

use vstd::prelude::*;
use crate::consts::LR;
use crate::cmds::CmdV;
use crate::glue::GlueAcc;
use crate::layout::{
    rev_step, rst_adv, spec_reverse, spec_tile_h, spec_tile_h_loop, tdiv, tile_anchor,
    tile_loop_ok, tile_pos_ok, BoxMeta, CurV, PageParams, RSt, RevStepV,
};
use crate::node::NodeV;
use crate::movement::{fresh_move_bytes, spec_movement, spec_scan, MoveRec, YZ_OK};
use crate::node::{FontDef, GlueKind};

verus! {

/// Emitting two consecutive moves of the identical distance, with nothing
/// flushed in between, writes exactly one absolute move command and then a
/// one-byte repeat, rewriting the earlier command in place into the
/// register-setting form.
pub proof fn lemma_movement_collapse(w: i64, gone: int, len: int, o: u8)
    requires
        0 <= gone <= len <= 0x7FFF_FFFF,
    ensures
        ({
            let e1 = spec_movement(Seq::empty(), w, gone, len, o);
            let e2 = spec_movement(e1.recs, w, gone, len + e1.appended.len(), o);
            &&& e1.patch_at == -1
            &&& e1.appended == fresh_move_bytes(o, w as int)
            &&& e1.recs == seq![MoveRec { w, loc: len as usize, info: YZ_OK }]
            &&& e2.patch_at == len
            &&& e2.patch_delta == 5
            &&& e2.appended == seq![(o + 4) as u8]
        }),
{
    let e1 = spec_movement(Seq::empty(), w, gone, len, o);
    assert(spec_scan(Seq::<MoveRec>::empty(), w, gone, -1, 0) == (-1int, 0int));
    assert(e1.recs =~= seq![MoveRec { w, loc: len as usize, info: YZ_OK }]);
    let r = e1.recs[0];
    assert(r.w == w && r.info == 3 && r.loc == len);
    assert(spec_scan(e1.recs, w, gone, 0, 0) == (0int, 1int));
    let e2 = spec_movement(e1.recs, w, gone, len + e1.appended.len(), o);
    assert(e2.patch_at == len);
}


/// Leader tiling at its boundary: when the leader box is wider than what
/// is left of the span, no copy is emitted at all and the cursor lands at
/// the span's edge, exactly as a plain kern of the resolved width would
/// have put it.
#[verifier::spinoff_prover]
pub proof fn lemma_leader_tiling_boundary(
    meta: BoxMeta,
    fonts: Seq<FontDef>,
    params: PageParams,
    lb: crate::node::ListBoxV,
    cv: CurV,
    base_line: int,
    edge: int,
    ld: int,
    lx: int,
)
    requires
        tile_loop_ok(cv.cur_h, edge, ld, lx),
        tile_pos_ok(base_line),
        cv.cur_h + ld > edge,
    ensures
        ({
            let t = spec_tile_h_loop(meta, fonts, params, lb, cv, base_line, edge, ld, lx);
            &&& t.err is None
            &&& t.cmds == Seq::<CmdV>::empty()
            &&& t.acts == Seq::<crate::cmds::ActV>::empty()
            &&& t.cur == (CurV { cur_h: edge, ..cv })
        }),
{
}

/// A direction-switching "begin" marker at the end of a list: the reversal
/// it triggers consumes nothing, reports the missing partner, and hands
/// back exactly one synthetic boundary edge recording the span.
pub proof fn lemma_direction_switch_edge(
    meta: BoxMeta,
    fonts: Seq<FontDef>,
    nodes: Seq<NodeV>,
    i: int,
    cur_dir: LR,
    st: RSt,
)
    requires
        0 <= i == nodes.len(),
        st.out == Seq::<NodeV>::empty(),
        st.n_open == 0,
        st.m_flat == 0,
        0 <= st.missing < 0xFFFF_FFFF_0000_0000,
    ensures
        ({
            let rr = spec_reverse(meta, fonts, nodes, i, cur_dir.spec_reversed(), cur_dir, true, st);
            &&& rr.err is None
            &&& rr.nodes.len() == 1
            &&& rr.nodes[0] is Edge
            &&& rr.missing == st.missing + 1
            &&& rr.next == i
        }),
{
    let rr = spec_reverse(meta, fonts, nodes, i, cur_dir.spec_reversed(), cur_dir, true, st);
    assert(Seq::<NodeV>::empty().reverse() =~= Seq::<NodeV>::empty());
    assert(rr.nodes.len() == 1);
}

/// A list of boxes and rules is mirrored without rewriting any node: the
/// reversal engine hands back exactly the reversed sequence.
#[verifier::rlimit(100)]
#[verifier::spinoff_prover]
pub proof fn lemma_reverse_plain(
    meta: BoxMeta,
    fonts: Seq<FontDef>,
    nodes: Seq<NodeV>,
    i: int,
    cur_dir: LR,
    t_dir: LR,
    st: RSt,
)
    requires
        0 <= i <= nodes.len(),
        0 <= st.missing < 0x1_0000_0000_0000_0000,
        st.n_open == 0,
        st.m_flat == 0,
        forall|k: int| 0 <= k < nodes.len() ==> (#[trigger] nodes[k]) is List || nodes[k] is Rule,
    ensures
        ({
            let rr = spec_reverse(meta, fonts, nodes, i, cur_dir, t_dir, false, st);
            &&& rr.err is None
            &&& rr.nodes == (st.out + nodes.subrange(i, nodes.len() as int)).reverse()
            &&& rr.next == nodes.len()
            &&& rr.lr_stack == st.lr
            &&& rr.missing == st.missing
            &&& rr.extra == st.extra
            &&& rr.acc == st.acc
        }),
    decreases nodes.len() - i,
{
    let rr = spec_reverse(meta, fonts, nodes, i, cur_dir, t_dir, false, st);
    if i >= nodes.len() {
        assert(nodes.subrange(i, nodes.len() as int) =~= Seq::<NodeV>::empty());
        assert(st.out + Seq::<NodeV>::empty() =~= st.out);
    } else {
        let st2 = rst_adv(st, crate::layout::rev_width(nodes[i]), Option::Some(nodes[i]));
        assert(rev_step(meta, fonts, nodes[i], cur_dir, false, st) == RevStepV::Go(st2));
        lemma_reverse_plain(meta, fonts, nodes, i + 1, cur_dir, t_dir, st2);
        assert(st.out.push(nodes[i]) + nodes.subrange(i + 1, nodes.len() as int) =~= st.out
            + nodes.subrange(i, nodes.len() as int));
    }
}

/// Mirroring a list of boxes and rules twice restores the original node
/// sequence: reversal is an involution on such structure.  (Content that
/// reversal rewrites in place — participating glue, markers, vanishing
/// kerns — is out of this law's scope; a zero-width kern is an input on
/// which the sequence is not restored.)
#[verifier::rlimit(100)]
#[verifier::spinoff_prover]
pub proof fn lemma_reverse_involution(
    meta: BoxMeta,
    fonts: Seq<FontDef>,
    l: Seq<NodeV>,
    cur_dir: LR,
    t_dir: LR,
    st: RSt,
)
    requires
        0 <= st.missing < 0x1_0000_0000_0000_0000,
        st.out == Seq::<NodeV>::empty(),
        st.n_open == 0,
        st.m_flat == 0,
        forall|k: int| 0 <= k < l.len() ==> (#[trigger] l[k]) is List || l[k] is Rule,
    ensures
        ({
            let r1 = spec_reverse(meta, fonts, l, 0, cur_dir, t_dir, false, st);
            let st2 = RSt { cur_h: 0, out: Seq::empty(), ..st };
            let r2 = spec_reverse(meta, fonts, r1.nodes, 0, cur_dir, t_dir, false, st2);
            r2.nodes == l
        }),
{
    lemma_reverse_plain(meta, fonts, l, 0, cur_dir, t_dir, st);
    let r1 = spec_reverse(meta, fonts, l, 0, cur_dir, t_dir, false, st);
    assert(l.subrange(0, l.len() as int) =~= l);
    assert(Seq::<NodeV>::empty() + l =~= l);
    assert(r1.nodes == l.reverse());
    assert(forall|k: int|
        0 <= k < r1.nodes.len() ==> (#[trigger] r1.nodes[k]) is List || r1.nodes[k] is Rule);
    let st2 = RSt { cur_h: 0, out: Seq::empty(), ..st };
    lemma_reverse_plain(meta, fonts, r1.nodes, 0, cur_dir, t_dir, st2);
    let r2 = spec_reverse(meta, fonts, r1.nodes, 0, cur_dir, t_dir, false, st2);
    assert(r1.nodes.subrange(0, r1.nodes.len() as int) =~= r1.nodes);
    assert(Seq::<NodeV>::empty() + r1.nodes =~= r1.nodes);
    assert(r2.nodes == l.reverse().reverse());
    assert(l.reverse().reverse() =~= l);
}


/// Where the tiling anchor can land: never before the current position,
/// never more than one leader width past it, with non-negative bounded
/// inter-copy slack.
proof fn lemma_anchor_bounds(kind: GlueKind, h0: int, le: int, rule_wd: int, ld: int)
    requires
        0 < rule_wd < ld <= 0x7FFF_FFFF,
    ensures
        ({
            let a = tile_anchor(kind, h0, le, rule_wd, ld);
            &&& h0 <= a.0 <= h0 + ld
            &&& 0 <= a.1 <= 0x7FFF_FFFF
        }),
{
    let a = tile_anchor(kind, h0, le, rule_wd, ld);
    if kind == GlueKind::ALeaders {
        let d = h0 - le;
        if d >= 0 {
            assert(0 <= d - ld * (d / ld) < ld) by (nonlinear_arith)
                requires
                    ld > 0,
                    d >= 0,
            ;
            assert(tdiv(d, ld) == d / ld);
            assert(le + ld * tdiv(d, ld) == h0 - (d - ld * (d / ld)));
        } else {
            assert(0 <= (-d) - ld * ((-d) / ld) < ld) by (nonlinear_arith)
                requires
                    ld > 0,
                    d < 0,
            ;
            assert(tdiv(d, ld) == -((-d) / ld));
            assert(ld * tdiv(d, ld) == -(ld * ((-d) / ld))) by (nonlinear_arith)
                requires
                    tdiv(d, ld) == -((-d) / ld),
            ;
            assert(le + ld * tdiv(d, ld) == h0 + ((-d) - ld * ((-d) / ld)));
        }
        assert(h0 <= a.0 <= h0 + ld);
        assert(a.1 == 0);
    } else if kind == GlueKind::CLeaders {
        assert(rule_wd % ld == rule_wd) by (nonlinear_arith)
            requires
                0 < rule_wd < ld,
        ;
        assert(0 <= rule_wd / 2 <= rule_wd) by (nonlinear_arith)
            requires
                rule_wd > 0,
        ;
        assert(h0 <= a.0 <= h0 + ld);
        assert(a.1 == 0);
    } else {
        assert(rule_wd / ld == 0 && rule_wd % ld == rule_wd) by (nonlinear_arith)
            requires
                0 < rule_wd < ld,
        ;
        assert(rule_wd / 1 == rule_wd);
        assert(a.1 == rule_wd);
        assert((rule_wd - (0 - 1) * rule_wd) / 2 == rule_wd) by (nonlinear_arith)
            requires
                rule_wd > 0,
        ;
        assert(a.0 == h0 + rule_wd);
        assert(h0 <= a.0 <= h0 + ld);
    }
}

/// Leader tiling with a resolved width smaller than the leader box emits
/// zero copies: the leader box is never entered, nothing reaches the
/// stream, and the cursor advances by exactly the resolved width, as a
/// plain kern of that width would have moved it.
#[verifier::rlimit(100)]
#[verifier::spinoff_prover]
pub proof fn lemma_leader_tiling_zero_copies(
    meta: BoxMeta,
    fonts: Seq<FontDef>,
    params: PageParams,
    lb: crate::node::ListBoxV,
    kind: GlueKind,
    rw: int,
    cv: CurV,
    base_line: int,
    le: int,
)
    requires
        kind != GlueKind::Normal,
        0 < rw < lb.width <= 0x7FFF_FFFF,
        rw <= 0x1_4000_0000,
        tile_pos_ok(cv.cur_h),
        tile_pos_ok(le),
        tile_pos_ok(base_line),
        tile_pos_ok(cv.dvi_h),
        tile_pos_ok(cv.dvi_v),
        tile_pos_ok(cv.cur_v),
    ensures
        ({
            let t = spec_tile_h(meta, fonts, params, lb, kind, rw, cv, base_line, le);
            &&& t.err is None
            &&& t.cmds == Seq::<CmdV>::empty()
            &&& t.acts == Seq::<crate::cmds::ActV>::empty()
            &&& t.cur == (CurV { cur_h: cv.cur_h + rw, ..cv })
        }),
{
    let h0 = cv.cur_h;
    let edge = h0 + rw;
    let ld = lb.width;
    lemma_anchor_bounds(kind, h0, le, rw, ld);
    let a = tile_anchor(kind, h0, le, rw, ld);
    let cvp = CurV { cur_h: a.0, ..cv };
    assert(tile_loop_ok(cvp.cur_h, edge, ld, a.1));
    assert(cvp.cur_h + ld > edge);
    lemma_leader_tiling_boundary(meta, fonts, params, lb, cvp, base_line, edge, ld, a.1);
    assert(spec_tile_h(meta, fonts, params, lb, kind, rw, cv, base_line, le) == spec_tile_h_loop(
        meta,
        fonts,
        params,
        lb,
        cvp,
        base_line,
        edge,
        ld,
        a.1,
    ));
}

} // verus!

