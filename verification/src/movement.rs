//! The movement optimizer.  Each axis keeps a list of pending move records;
//! a new move first searches backward for an earlier move of the identical
//! distance whose command byte is still inside the patch window.  A hit
//! rewrites that earlier command in place into a register-setting form and
//! emits a one-byte "repeat" command; otherwise a fresh move command is
//! emitted with the shortest signed operand that holds the distance.

use vstd::prelude::*;
use crate::dvi::{spec_gone_after, out_fails, DviFile, Fatal, four_bytes};

verus! {

/// Record infos: 1 the y register holds this distance (already rewritten),
/// 2 the z register holds it, 3 the command may become y or z, 4 only y,
/// 5 only z, 6 the command is fixed.
pub const Y_HERE: u8 = 1;

pub const Z_HERE: u8 = 2;

pub const YZ_OK: u8 = 3;

pub const Y_OK: u8 = 4;

pub const Z_OK: u8 = 5;

pub const D_FIXED: u8 = 6;

/// One pending move: its distance, the stream position of its command byte,
/// and what the command can still become.
#[derive(Clone, Copy, Debug, PartialEq, Eq, Structural)]
pub struct MoveRec {
    pub w: i64,
    pub loc: usize,
    pub info: u8,
}

/// Well-formedness of one axis' record list against the byte stream: records
/// name real positions in ascending order, and a record that may still be
/// rewritten points at a fresh move opcode of its axis.
pub open spec fn recs_wf(recs: Seq<MoveRec>, stream: Seq<u8>, o: u8) -> bool {
    &&& forall|i: int|
        0 <= i < recs.len() ==> {
            &&& (#[trigger] recs[i]).loc < stream.len()
            &&& 1 <= recs[i].info <= 6
            &&& o <= stream[recs[i].loc as int] <= o + 13
            &&& (3 <= recs[i].info <= 5 ==> stream[recs[i].loc as int] <= o + 3)
        }
    &&& forall|i: int, j: int| 0 <= i < j < recs.len() ==> (#[trigger] recs[i]).loc < (#[trigger] recs[j]).loc
}

/// The backward search automaton, walking records newest first.  The result
/// is the found index and the repeat kind (1 for y, 2 for z), or (-1, 0)
/// when a fresh move must be emitted.  `mstate` remembers whether a nearer
/// record already holds the y or z register (0 none, 6 y, 12 z).
pub open spec fn spec_scan(recs: Seq<MoveRec>, w: i64, gone: int, j: int, mstate: int) -> (
    int,
    int,
)
    decreases j + 1,
    when -1 <= j < recs.len()
{
    if j < 0 {
        (-1int, 0int)
    } else {
        let r = recs[j];
        let c = mstate + r.info;
        if r.w == w {
            if c == 3 || c == 4 || c == 15 || c == 16 {
                if r.loc < gone {
                    (-1int, 0int)
                } else {
                    (j, 1int)
                }
            } else if c == 5 || c == 9 || c == 11 {
                if r.loc < gone {
                    (-1int, 0int)
                } else {
                    (j, 2int)
                }
            } else if c == 1 || c == 2 || c == 8 || c == 13 {
                (j, r.info as int)
            } else {
                spec_scan(recs, w, gone, j - 1, mstate)
            }
        } else {
            if c == 1 {
                spec_scan(recs, w, gone, j - 1, 6)
            } else if c == 2 {
                spec_scan(recs, w, gone, j - 1, 12)
            } else if c == 8 || c == 13 {
                (-1int, 0int)
            } else {
                spec_scan(recs, w, gone, j - 1, mstate)
            }
        }
    }
}

/// How record infos between the new record and the hit are downgraded once
/// the y register is taken.
pub open spec fn fix_info_y(i: u8) -> u8 {
    if i == 3 {
        5
    } else if i == 4 {
        6
    } else {
        i
    }
}

/// The same once the z register is taken.
pub open spec fn fix_info_z(i: u8) -> u8 {
    if i == 3 {
        4
    } else if i == 5 {
        6
    } else {
        i
    }
}

/// The record list after a hit at `j` of kind `kind`, with the new record
/// for a move of `w` whose command byte sits at `loc` appended.
pub open spec fn spec_recs_after_hit(
    recs: Seq<MoveRec>,
    j: int,
    kind: int,
    w: i64,
    loc: int,
) -> Seq<MoveRec> {
    Seq::new(
        recs.len(),
        |i: int|
            if i == j {
                MoveRec { w: recs[i].w, loc: recs[i].loc, info: kind as u8 }
            } else if i > j {
                MoveRec {
                    w: recs[i].w,
                    loc: recs[i].loc,
                    info: if kind == 1 {
                        fix_info_y(recs[i].info)
                    } else {
                        fix_info_z(recs[i].info)
                    },
                }
            } else {
                recs[i]
            },
    ).push(MoveRec { w, loc: loc as usize, info: kind as u8 })
}

/// The bytes of a fresh move command on axis base opcode `o`: the opcode
/// picks the shortest operand length, and the operand is the two's
/// complement form in that many bytes.
pub open spec fn fresh_move_bytes(o: u8, w: int) -> Seq<u8> {
    let a = if w < 0 {
        -w
    } else {
        w
    };
    if a >= 0x80_0000 {
        seq![(o + 3) as u8] + four_bytes(w)
    } else if a >= 0x8000 {
        let u = if w < 0 {
            w + 0x100_0000
        } else {
            w
        };
        seq![(o + 2) as u8, (u / 0x1_0000) as u8, ((u / 0x100) % 0x100) as u8, (u % 0x100) as u8]
    } else if a >= 128 {
        let u = if w < 0 {
            w + 0x1_0000
        } else {
            w
        };
        seq![(o + 1) as u8, (u / 0x100) as u8, (u % 0x100) as u8]
    } else {
        let u = if w < 0 {
            w + 0x100
        } else {
            w
        };
        seq![o, u as u8]
    }
}

/// Build a fresh move command's bytes.
pub fn build_fresh_move(o: u8, w: i64) -> (r: Vec<u8>)
    requires
        o == 143 || o == 157,
        -0x8000_0000 <= w <= 0x7FFF_FFFF,
    ensures
        r@ == fresh_move_bytes(o, w as int),
        1 <= r@.len() <= 5,
        r@[0] == o + if -128 < w < 128 {
            0u8
        } else if -0x8000 < w < 0x8000 {
            1u8
        } else if -0x80_0000 < w < 0x80_0000 {
            2u8
        } else {
            3u8
        },
{
    let mut r: Vec<u8> = Vec::new();
    let a: i64 = if w < 0 {
        -w
    } else {
        w
    };
    if a >= 0x80_0000 {
        r.push(o + 3);
        let u: u32 = if w >= 0 {
            w as u32
        } else {
            (w + 0x1_0000_0000) as u32
        };
        r.push((u / 0x100_0000) as u8);
        r.push(((u / 0x1_0000) % 0x100) as u8);
        r.push(((u / 0x100) % 0x100) as u8);
        r.push((u % 0x100) as u8);
        proof {
            assert(r@ =~= fresh_move_bytes(o, w as int));
        }
    } else if a >= 0x8000 {
        r.push(o + 2);
        let u: i64 = if w < 0 {
            w + 0x100_0000
        } else {
            w
        };
        r.push((u / 0x1_0000) as u8);
        r.push(((u / 0x100) % 0x100) as u8);
        r.push((u % 0x100) as u8);
        proof {
            assert(r@ =~= fresh_move_bytes(o, w as int));
        }
    } else if a >= 128 {
        r.push(o + 1);
        let u: i64 = if w < 0 {
            w + 0x1_0000
        } else {
            w
        };
        r.push((u / 0x100) as u8);
        r.push((u % 0x100) as u8);
        proof {
            assert(r@ =~= fresh_move_bytes(o, w as int));
        }
    } else {
        r.push(o);
        let u: i64 = if w < 0 {
            w + 0x100
        } else {
            w
        };
        r.push(u as u8);
        proof {
            assert(r@ =~= fresh_move_bytes(o, w as int));
        }
    }
    r
}

/// What one axis' state becomes after a move of `w`: the appended bytes, the
/// patched earlier byte if any, and the new record list.
pub ghost struct MoveEffect {
    pub recs: Seq<MoveRec>,
    /// Position patched in the stream, or -1.
    pub patch_at: int,
    pub patch_delta: u8,
    pub appended: Seq<u8>,
}

/// The full effect of `movement` on one axis.
pub open spec fn spec_movement(recs: Seq<MoveRec>, w: i64, gone: int, len: int, o: u8) -> MoveEffect {
    let scan = spec_scan(recs, w, gone, recs.len() as int - 1, 0);
    if scan.0 == -1 {
        MoveEffect {
            recs: recs.push(MoveRec { w, loc: len as usize, info: YZ_OK }),
            patch_at: -1,
            patch_delta: 0,
            appended: fresh_move_bytes(o, w as int),
        }
    } else {
        let j = scan.0;
        let kind = scan.1;
        MoveEffect {
            recs: spec_recs_after_hit(recs, j, kind, w, len),
            patch_at: if recs[j].info != kind {
                recs[j].loc as int
            } else {
                -1
            },
            patch_delta: if kind == 1 {
                5
            } else {
                10
            },
            appended: seq![
                (o + if kind == 1 {
                    4int
                } else {
                    9int
                }) as u8,
            ],
        }
    }
}

/// Record a cursor move on one axis and emit its command: either a fresh
/// move command, or a repeat command after rewriting the matching earlier
/// command into a register-setting form.
pub fn move_one(recs: &mut Vec<MoveRec>, dvi: &mut DviFile, w: i64, o: u8) -> (r: Result<
    (),
    Fatal,
>)
    requires
        old(dvi).wf(),
        recs_wf(old(recs)@, old(dvi).stream(), o),
        o == 143 || o == 157,
        -0x8000_0000 <= w <= 0x7FFF_FFFF,
    ensures
        final(dvi).wf(),
        recs_wf(final(recs)@, final(dvi).stream(), o),
        final(dvi).drained_spec() == old(dvi).drained_spec(),
        ({
            let eff = spec_movement(
                old(recs)@,
                w,
                old(dvi).gone_spec(),
                old(dvi).stream().len() as int,
                o,
            );
            let mid = if eff.patch_at >= 0 {
                old(dvi).stream().update(
                    eff.patch_at,
                    (old(dvi).stream()[eff.patch_at] + eff.patch_delta) as u8,
                )
            } else {
                old(dvi).stream()
            };
            &&& (r is Err <==> old(dvi).stream().len() + eff.appended.len() > 0x7FFF_FFFF)
            &&& (r is Err ==> r == Err::<(), Fatal>(Fatal::DviLength))
            &&& final(dvi).stream().len() >= old(dvi).stream().len()
            &&& (forall|i: int|
                0 <= i < old(dvi).stream().len() && i != eff.patch_at ==> final(dvi).stream()[i]
                    == old(dvi).stream()[i])
            &&& (eff.patch_at >= 0 ==> final(dvi).stream()[eff.patch_at] == (old(dvi).stream()[
                eff.patch_at
            ] + eff.patch_delta) as u8)
            &&& (r is Ok ==> {
                &&& final(dvi).stream() == mid + eff.appended
                &&& final(recs)@ == eff.recs
                &&& final(dvi).gone_spec() == spec_gone_after(
                    old(dvi).gone_spec(),
                    old(dvi).stream().len() as int + eff.appended.len(),
                )
            })
        }),
{
    let ghost recs0 = recs@;
    let ghost gone0 = dvi.gone_spec();
    let ghost stream0 = dvi.stream();
    proof {
        dvi.lemma_stream_len();
    }
    let len0 = dvi.len();
    let n = recs.len();
    // Backward search, newest record first.
    let mut j: usize = n;
    let mut mstate: u8 = 0;
    let mut found_set: bool = false;
    let mut jf: usize = 0;
    let mut kind: u8 = 0;
    loop
        invariant_except_break
            recs@ == recs0,
            dvi.stream() == stream0,
            *dvi == *old(dvi),
            gone0 == old(dvi).gone_spec(),
            stream0 == old(dvi).stream(),
            len0 == stream0.len(),
            recs_wf(recs0, stream0, o),
            0 <= j <= n,
            n == recs0.len(),
            mstate == 0 || mstate == 6 || mstate == 12,
            spec_scan(recs0, w, gone0, n as int - 1, 0) == spec_scan(
                recs0,
                w,
                gone0,
                j as int - 1,
                mstate as int,
            ),
            !found_set,
        ensures
            recs@ == recs0,
            dvi.stream() == stream0,
            *dvi == *old(dvi),
            gone0 == old(dvi).gone_spec(),
            ({
                let scan = spec_scan(recs0, w, gone0, n as int - 1, 0);
                if found_set {
                    &&& scan == (jf as int, kind as int)
                    &&& jf < n
                    &&& 1 <= kind <= 2
                    &&& (recs0[jf as int].info != kind ==> recs0[jf as int].loc >= gone0 && 3
                        <= recs0[jf as int].info <= 5)
                } else {
                    scan.0 == -1
                }
            }),
        decreases j,
    {
        if j == 0 {
            break ;
        }
        let r = recs[j - 1];
        proof {
            assert(1 <= r.info <= 6);
        }
        if r.w == w {
            if mstate == 0 && (r.info == 3 || r.info == 4) || mstate == 12 && (r.info == 3
                || r.info == 4) {
                if r.loc < dvi.gone_usize() {
                    break ;
                }
                found_set = true;
                jf = j - 1;
                kind = 1;
                break ;
            } else if mstate == 0 && r.info == 5 || mstate == 6 && (r.info == 3 || r.info == 5) {
                if r.loc < dvi.gone_usize() {
                    break ;
                }
                found_set = true;
                jf = j - 1;
                kind = 2;
                break ;
            } else if mstate == 0 && (r.info == 1 || r.info == 2) || mstate == 6 && r.info == 2
                || mstate == 12 && r.info == 1 {
                found_set = true;
                jf = j - 1;
                kind = r.info;
                break ;
            } else {
                j = j - 1;
            }
        } else {
            if mstate == 0 && r.info == 1 {
                mstate = 6;
                j = j - 1;
            } else if mstate == 0 && r.info == 2 {
                mstate = 12;
                j = j - 1;
            } else if mstate == 6 && r.info == 2 || mstate == 12 && r.info == 1 {
                break ;
            } else {
                j = j - 1;
            }
        }
    }
    let ghost scan = spec_scan(recs0, w, gone0, recs0.len() as int - 1, 0);
    if !found_set {
        proof {
            assert(scan.0 == -1);
        }
        let bytes = build_fresh_move(o, w);
        let res = dvi.dvi_write_all(&bytes);
        match res {
            Ok(()) => {},
            Err(e) => {
                proof {
                    assert forall|i: int| 0 <= i < recs@.len() implies {
                        &&& (#[trigger] recs@[i]).loc < dvi.stream().len()
                        &&& 1 <= recs@[i].info <= 6
                        &&& o <= dvi.stream()[recs@[i].loc as int] <= o + 13
                        &&& (3 <= recs@[i].info <= 5 ==> dvi.stream()[recs@[i].loc as int] <= o
                            + 3)
                    } by {
                        assert(recs0[i].loc < stream0.len());
                        assert(dvi.stream()[recs@[i].loc as int] == stream0[recs0[i].loc as int]);
                    }
                }
                return Err(e);
            },
        }
        recs.push(MoveRec { w, loc: len0, info: YZ_OK });
        proof {
            let eff = spec_movement(recs0, w, gone0, len0 as int, o);
            assert(recs@ =~= eff.recs);
            assert forall|i: int| 0 <= i < recs@.len() implies {
                &&& (#[trigger] recs@[i]).loc < dvi.stream().len()
                &&& 1 <= recs@[i].info <= 6
                &&& o <= dvi.stream()[recs@[i].loc as int] <= o + 13
                &&& (3 <= recs@[i].info <= 5 ==> dvi.stream()[recs@[i].loc as int] <= o + 3)
            } by {
                if i < recs0.len() {
                    assert(recs0[i].loc < stream0.len());
                    assert(dvi.stream()[recs@[i].loc as int] == stream0[recs0[i].loc as int]);
                } else {
                    assert(recs@[i].loc == len0);
                    assert(dvi.stream()[len0 as int] == fresh_move_bytes(o, w as int)[0]);
                }
            }
            assert forall|i: int, q: int| 0 <= i < q < recs@.len() implies (
            #[trigger] recs@[i]).loc < (#[trigger] recs@[q]).loc by {
                if q < recs0.len() {
                } else {
                    assert(recs@[i].loc < stream0.len());
                }
            }
        }
        Ok(())
    } else {
        let hit = recs[jf];
        proof {
            assert(scan == (jf as int, kind as int));
            assert(1 <= kind <= 2);
        }
        if hit.info != kind {
            let delta: u8 = if kind == 1 {
                5
            } else {
                10
            };
            proof {
                assert(3 <= hit.info <= 5);
                assert(stream0[hit.loc as int] <= o + 3);
                assert(hit.loc >= gone0);
            }
            dvi.patch_add(hit.loc, delta);
        }
        recs.set(jf, MoveRec { w: hit.w, loc: hit.loc, info: kind });
        let ghost mid = dvi.stream();
        let rep: u8 = if kind == 1 {
            o + 4
        } else {
            o + 9
        };
        let res = dvi.dvi_out(rep);
        match res {
            Ok(()) => {},
            Err(e) => {
                proof {
                    assert(out_fails(len0 as int + 1));
                    assert(len0 as int + 1 > 0x7FFF_FFFF);
                    assert forall|q: int| 0 <= q < recs@.len() implies {
                        &&& (#[trigger] recs@[q]).loc < dvi.stream().len()
                        &&& 1 <= recs@[q].info <= 6
                        &&& o <= dvi.stream()[recs@[q].loc as int] <= o + 13
                        &&& (3 <= recs@[q].info <= 5 ==> dvi.stream()[recs@[q].loc as int] <= o
                            + 3)
                    } by {
                        assert(recs0[q].loc < stream0.len());
                        if recs0[q].loc == hit.loc && q != jf as int {
                            assert(false);
                        }
                    }
                }
                return Err(e);
            },
        }
        let mut i: usize = jf + 1;
        while i < n
            invariant
                jf < i <= n,
                n == recs@.len(),
                n == recs0.len(),
                1 <= kind <= 2,
                recs0[jf as int] == hit,
                recs@[jf as int] == (MoveRec { w: hit.w, loc: hit.loc, info: kind }),
                forall|q: int| 0 <= q < jf ==> (#[trigger] recs@[q]) == recs0[q],
                forall|q: int|
                    jf < q < i ==> (#[trigger] recs@[q]) == (MoveRec {
                        w: recs0[q].w,
                        loc: recs0[q].loc,
                        info: if kind == 1 {
                            fix_info_y(recs0[q].info)
                        } else {
                            fix_info_z(recs0[q].info)
                        },
                    }),
                forall|q: int| i <= q < n ==> (#[trigger] recs@[q]) == recs0[q],
            decreases n - i,
        {
            let cur = recs[i];
            let newinfo: u8 = if kind == 1 {
                if cur.info == 3 {
                    5
                } else if cur.info == 4 {
                    6
                } else {
                    cur.info
                }
            } else {
                if cur.info == 3 {
                    4
                } else if cur.info == 5 {
                    6
                } else {
                    cur.info
                }
            };
            recs.set(i, MoveRec { w: cur.w, loc: cur.loc, info: newinfo });
            i = i + 1;
        }
        recs.push(MoveRec { w, loc: len0, info: kind });
        proof {
            let eff = spec_movement(recs0, w, gone0, len0 as int, o);
            assert(recs@ =~= eff.recs);
            assert forall|q: int| 0 <= q < recs@.len() implies {
                &&& (#[trigger] recs@[q]).loc < dvi.stream().len()
                &&& 1 <= recs@[q].info <= 6
                &&& o <= dvi.stream()[recs@[q].loc as int] <= o + 13
                &&& (3 <= recs@[q].info <= 5 ==> dvi.stream()[recs@[q].loc as int] <= o + 3)
            } by {
                if q < recs0.len() {
                    assert(recs0[q].loc < stream0.len());
                    if recs0[q].loc == hit.loc && q != jf as int {
                        assert(false);
                    }
                } else {
                    assert(recs@[q].loc == len0);
                    assert(dvi.stream()[len0 as int] == rep);
                }
            }
            assert forall|i2: int, q: int| 0 <= i2 < q < recs@.len() implies (
            #[trigger] recs@[i2]).loc < (#[trigger] recs@[q]).loc by {
                if q < recs0.len() {
                } else {
                    assert(recs@[i2].loc < stream0.len());
                }
            }
        }
        Ok(())
    }
}

/// The record list after pruning: pending moves at or past `l` are dropped
/// from the newest end.
pub open spec fn prune_spec(recs: Seq<MoveRec>, l: usize) -> Seq<MoveRec>
    decreases recs.len(),
{
    if recs.len() == 0 {
        recs
    } else if recs.last().loc >= l {
        prune_spec(recs.drop_last(), l)
    } else {
        recs
    }
}

/// Forget pending moves whose command bytes sit at or past `l`: they are
/// about to fall out of scope when the enclosing box is closed.
pub fn prune_movements(recs: &mut Vec<MoveRec>, l: usize)
    requires
        forall|i: int, j: int|
            0 <= i < j < old(recs)@.len() ==> (#[trigger] old(recs)@[i]).loc < (#[trigger] old(
                recs,
            )@[j]).loc,
    ensures
        final(recs)@.len() <= old(recs)@.len(),
        final(recs)@ == prune_spec(old(recs)@, l),
        final(recs)@ == old(recs)@.take(final(recs)@.len() as int),
        forall|i: int| 0 <= i < final(recs)@.len() ==> (#[trigger] final(recs)@[i]).loc < l,
        forall|i: int|
            final(recs)@.len() <= i < old(recs)@.len() ==> (#[trigger] old(recs)@[i]).loc >= l,
{
    let ghost recs0 = recs@;
    loop
        invariant
            recs@ == recs0.take(recs@.len() as int),
            recs@.len() <= recs0.len(),
            prune_spec(recs0, l) == prune_spec(recs@, l),
            forall|i: int, j: int|
                0 <= i < j < recs0.len() ==> (#[trigger] recs0[i]).loc < (#[trigger] recs0[j]).loc,
            forall|i: int| recs@.len() <= i < recs0.len() ==> (#[trigger] recs0[i]).loc >= l,
        ensures
            recs@.len() > 0 ==> recs@[recs@.len() - 1].loc < l,
        decreases recs@.len(),
    {
        let n = recs.len();
        if n == 0 {
            break ;
        }
        let last = recs[n - 1];
        proof {
            assert(recs@[n - 1] == recs0.take(n as int)[n - 1]);
        }
        if last.loc >= l {
            proof {
                assert(recs@.last().loc >= l);
                assert(prune_spec(recs@, l) == prune_spec(recs@.drop_last(), l));
                assert(recs@.drop_last() =~= recs0.take(n as int - 1));
            }
            recs.pop();
            proof {
                assert(recs@ =~= recs0.take(n as int - 1));
            }
        } else {
            proof {
                assert(prune_spec(recs@, l) == recs@);
            }
            break ;
        }
    }
    proof {
        if recs@.len() == 0 {
            assert(prune_spec(recs@, l) == recs@);
        } else {
            assert(recs@[recs@.len() - 1].loc < l);
            assert(recs@.last().loc < l);
            assert(prune_spec(recs@, l) == recs@);
        }
    }
    proof {
        assert forall|i: int| 0 <= i < recs@.len() implies (#[trigger] recs@[i]).loc < l by {
            let n = recs@.len();
            assert(recs@[n - 1].loc < l);
            assert(recs@[n - 1] == recs0.take(n as int)[n - 1]);
            if i < n - 1 {
                assert(recs@[i] == recs0.take(n as int)[i]);
                assert(recs0[i].loc < recs0[n - 1].loc);
            }
        }
    }
}


/// What a successful scan guarantees: the hit is a real record, the kind is
/// a register kind, and a hit that needs rewriting is a rewritable record
/// still inside the patch window.
pub proof fn lemma_scan_props(recs: Seq<MoveRec>, w: i64, gone: int, j: int, mstate: int)
    requires
        -1 <= j < recs.len(),
        forall|i: int| 0 <= i < recs.len() ==> 1 <= (#[trigger] recs[i]).info <= 6,
        mstate == 0 || mstate == 6 || mstate == 12,
    ensures
        ({
            let scan = spec_scan(recs, w, gone, j, mstate);
            scan.0 >= -1 && (scan.0 >= 0 ==> {
                &&& 0 <= scan.0 < recs.len()
                &&& (scan.1 == 1 || scan.1 == 2)
                &&& (recs[scan.0].info != scan.1 ==> 3 <= recs[scan.0].info <= 5 && recs[
                    scan.0
                ].loc >= gone)
            })
        }),
    decreases j + 1,
{
    if j >= 0 {
        let r = recs[j];
        let c = mstate + r.info;
        if r.w == w {
            if c == 3 || c == 4 || c == 15 || c == 16 {
            } else if c == 5 || c == 9 || c == 11 {
            } else if c == 1 || c == 2 || c == 8 || c == 13 {
            } else {
                lemma_scan_props(recs, w, gone, j - 1, mstate);
            }
        } else {
            if c == 1 {
                lemma_scan_props(recs, w, gone, j - 1, 6);
            } else if c == 2 {
                lemma_scan_props(recs, w, gone, j - 1, 12);
            } else if c == 8 || c == 13 {
            } else {
                lemma_scan_props(recs, w, gone, j - 1, mstate);
            }
        }
    }
}

} // verus!

