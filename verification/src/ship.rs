//! Shipping pages: the byte framing around each page (preamble on the first
//! page, page begin/end records, the synthesized page-size announcement) and
//! the file finalization (postamble, lazy font definitions, trailing pad).
//!
//! A page's content arrives as the abstract command list of its box; the
//! traversal of a box tree into that list is specified by
//! [`crate::layout::spec_hlist_box`] and [`crate::layout::spec_vlist_box`],
//! which have no executable counterpart yet.  The direction-state epilogue
//! a finished page runs is [`crate::layout::check_lr_state`].

use vstd::prelude::*;
use crate::cmds::{cmds_view, cmdvs_wf, DviCmd};
use crate::dvi::{four_bytes, Fatal};
use crate::emit::{
    emit_cmds, font_def_bytes, spec_emit_from, special_bytes, DevState, EmitStep,
};
use crate::fmt::{pagesize_special, spec_pagesize};
use crate::node::{fonts_wf, FontDef};

verus! {

/// The classic dimension limit a shipped page must respect.
pub const MAX_PAGE_DIM: i32 = 0x3FFF_FFFF;

/// What shipping a page produced: the page went out (carrying the
/// direction-marker mismatch totals to report once, in aggregate), or it
/// exceeded the representable size and was dropped from the output
/// entirely.
#[derive(Clone, Copy, Debug, PartialEq, Eq, Structural)]
pub enum ShipOutcome {
    Shipped { missing: u64, extra: u64 },
    PageTooLarge,
}

/// The preamble record: format id, the two unit-conversion ratios, the
/// magnification, and a length-prefixed comment.
pub open spec fn spec_preamble_bytes(mag: int, comment: Seq<u8>, spx: bool) -> Seq<u8> {
    seq![
        247u8,
        if spx {
            100u8
        } else {
            7u8
        },
    ] + four_bytes(25400000) + four_bytes(473628672) + four_bytes(mag) + seq![
        comment.len() as u8,
    ] + comment
}

/// The count-register block of a page-begin record.
pub open spec fn spec_counts_bytes(counts: Seq<i32>, i: int) -> Seq<u8>
    decreases counts.len() - i,
    when 0 <= i <= counts.len()
{
    if i >= counts.len() {
        Seq::empty()
    } else {
        four_bytes(counts[i] as int) + spec_counts_bytes(counts, i + 1)
    }
}

/// A page-begin record: the ten count registers and the back pointer to the
/// previous page's record.
pub open spec fn spec_bop_bytes(counts: Seq<i32>, last_bop: int) -> Seq<u8> {
    seq![139u8] + spec_counts_bytes(counts, 0) + four_bytes(last_bop)
}

/// The lazy font definitions the postamble repeats, highest font first.
pub open spec fn spec_font_defs_desc(fonts: Seq<FontDef>, used: Seq<bool>, f: int) -> Seq<u8>
    decreases f,
    when f < fonts.len() && f < used.len()
{
    if f <= 0 {
        Seq::empty()
    } else {
        (if used[f] {
            font_def_bytes(f, fonts[f])
        } else {
            Seq::empty()
        }) + spec_font_defs_desc(fonts, used, f - 1)
    }
}

/// The trailing pad: 4 to 7 bytes of 223 so the file length is a multiple
/// of four.
pub open spec fn spec_pad_bytes(len: int) -> Seq<u8> {
    Seq::new((4 + (4 - len % 4) % 4) as nat, |i: int| 223u8)
}


/// Whether a page's extents exceed what the device format can carry.
pub open spec fn ship_too_large(
    width: int,
    height: int,
    depth: int,
    h_offset: int,
    v_offset: int,
) -> bool {
    height > MAX_PAGE_DIM || depth > MAX_PAGE_DIM || height + depth + v_offset > MAX_PAGE_DIM
        || width + h_offset > MAX_PAGE_DIM
}

/// The framing bytes a shipped page starts with: the preamble on the first
/// page, the page-begin record, and the page-size announcement.
pub open spec fn spec_ship_framing(
    first_page: bool,
    mag: int,
    comment: Seq<u8>,
    spx: bool,
    counts: Seq<i32>,
    last_bop: int,
    pw: int,
    ph: int,
) -> Seq<u8> {
    (if first_page {
        spec_preamble_bytes(mag, comment, spx)
    } else {
        Seq::<u8>::empty()
    }) + spec_bop_bytes(counts, last_bop) + special_bytes(spec_pagesize(pw, ph))
}

/// The device state after a page's framing and material have gone out.
pub open spec fn spec_ship_result(
    dev0: crate::emit::DevV,
    fonts: Seq<FontDef>,
    framing: Seq<u8>,
    cmds: Seq<crate::cmds::CmdV>,
) -> EmitStep {
    let dev1 = crate::emit::DevV {
        stream: dev0.stream + framing,
        gone: crate::dvi::spec_gone_after(dev0.gone, dev0.stream.len() as int + framing.len()),
        ..dev0
    };
    spec_emit_from(dev1, fonts, cmds, 0)
}

/// The emission session for one output file: the device state, the font
/// table, and the page bookkeeping the postamble reports.
pub struct Emitter {
    pub dev: DevState,
    pub fonts: Vec<FontDef>,
    pub total_pages: u16,
    pub last_bop: i32,
    pub max_h: i32,
    pub max_v: i32,
    pub max_push: u16,
}

impl Emitter {
    pub open spec fn wf(self) -> bool {
        &&& self.dev.wf(self.fonts@.len() as int)
        &&& fonts_wf(self.fonts@)
    }

    /// A fresh session over a font table.
    pub fn new(fonts: Vec<FontDef>) -> (r: Emitter)
        requires
            fonts_wf(fonts@),
        ensures
            r.wf(),
            r.fonts == fonts,
            r.dev.view_spec().stream == Seq::<u8>::empty(),
            r.total_pages == 0,
            r.last_bop == -1,
            r.max_h == 0,
            r.max_v == 0,
            r.max_push == 0,
    {
        let n = fonts.len();
        Emitter {
            dev: DevState::new(n),
            fonts,
            total_pages: 0,
            last_bop: -1,
            max_h: 0,
            max_v: 0,
            max_push: 0,
        }
    }

    /// Ship one page: its extents, the count registers, the explicit page
    /// size (zero meaning "derive from content"), and the abstract commands
    /// of its box.  A page beyond the representable size is dropped whole;
    /// otherwise the output gains the optional preamble, the page-begin
    /// record, the page-size announcement, the page's material, and the
    /// page-end byte.
    #[verifier::rlimit(100)]
    #[verifier::spinoff_prover]
    pub fn ship_page(
        &mut self,
        width: i32,
        height: i32,
        depth: i32,
        h_offset: i32,
        v_offset: i32,
        counts: &Vec<i32>,
        page_width: i32,
        page_height: i32,
        mag: i32,
        comment: &Vec<u8>,
        spx: bool,
        cmds: &Vec<DviCmd>,
        lr_stack: &Vec<u32>,
        cur_dir: crate::consts::LR,
        missing: &mut u64,
        extra: &mut u64,
    ) -> (r: Result<ShipOutcome, Fatal>)
        requires
            old(self).wf(),
            counts@.len() == 10,
            comment@.len() <= 255,
            -0x4000_0000 <= height <= 0x3FFF_FFFF,
            -0x4000_0000 <= depth <= 0x3FFF_FFFF,
            -0x4000_0000 <= width <= 0x3FFF_FFFF,
            -0x4000_0000 <= h_offset <= 0x3FFF_FFFF,
            -0x4000_0000 <= v_offset <= 0x3FFF_FFFF,
            page_width > i32::MIN,
            page_height > i32::MIN,
            old(self).total_pages < 0xFFFF,
            cmdvs_wf(cmds_view(cmds@), old(self).fonts@.len() as int),
        ensures
            final(self).wf(),
            final(self).fonts == old(self).fonts,
            (r == Ok::<ShipOutcome, Fatal>(ShipOutcome::PageTooLarge) <==> ship_too_large(
                width as int,
                height as int,
                depth as int,
                h_offset as int,
                v_offset as int,
            )),
            ship_too_large(
                width as int,
                height as int,
                depth as int,
                h_offset as int,
                v_offset as int,
            ) ==> *final(self) == *old(self),
            !ship_too_large(
                width as int,
                height as int,
                depth as int,
                h_offset as int,
                v_offset as int,
            ) ==> ({
                let framing = spec_ship_framing(
                    old(self).total_pages == 0,
                    mag as int,
                    comment@,
                    spx,
                    counts@,
                    old(self).last_bop as int,
                    page_width as int,
                    page_height as int,
                );
                let overflow0 = old(self).dev.view_spec().stream.len() + framing.len()
                    > 0x7FFF_FFFF;
                let step = spec_ship_result(
                    old(self).dev.view_spec(),
                    old(self).fonts@,
                    framing,
                    cmds_view(cmds@),
                );
                let eop_fails = crate::dvi::out_fails(step.dev.stream.len() as int + 1);
                let unclean = lr_stack@.len() > 0 || cur_dir != crate::consts::LR::LeftToRight;
                &&& (r is Err <==> overflow0 || step.err is Some || (step.err is None
                    && eop_fails) || (step.err is None && !eop_fails && unclean))
                &&& (overflow0 ==> r == Err::<ShipOutcome, Fatal>(Fatal::DviLength))
                &&& (!overflow0 ==> (step.err matches Some(e) ==> r == Err::<ShipOutcome, Fatal>(e)))
                &&& (!overflow0 && step.err is None && eop_fails ==> r == Err::<
                    ShipOutcome,
                    Fatal,
                >(Fatal::DviLength))
                &&& (!overflow0 && step.err is None && !eop_fails && unclean ==> r == Err::<
                    ShipOutcome,
                    Fatal,
                >(Fatal::Confusion(crate::dvi::ConfusionTag::DirStack)) && *final(missing) == 0
                    && *final(extra) == 0)
            }),
            r matches Ok(o) ==> (o is Shipped <==> !ship_too_large(
                width as int,
                height as int,
                depth as int,
                h_offset as int,
                v_offset as int,
            )),
            r matches Ok(o) ==> (o matches ShipOutcome::Shipped { missing: m, extra: x } ==> m
                == *old(missing) && x == *old(extra) && *final(missing) == 0 && *final(extra) == 0
                && lr_stack@.len() == 0 && cur_dir == crate::consts::LR::LeftToRight),
            r matches Ok(o) ==> (o is Shipped ==> ({
                let framing = spec_ship_framing(
                    old(self).total_pages == 0,
                    mag as int,
                    comment@,
                    spx,
                    counts@,
                    old(self).last_bop as int,
                    page_width as int,
                    page_height as int,
                );
                let step = spec_ship_result(
                    old(self).dev.view_spec(),
                    old(self).fonts@,
                    framing,
                    cmds_view(cmds@),
                );
                &&& step.err is None
                &&& final(self).dev.view_spec().stream == step.dev.stream.push(140u8)
                &&& final(self).total_pages == old(self).total_pages + 1
                &&& final(self).last_bop as int == old(self).dev.view_spec().stream.len() + (
                if old(self).total_pages == 0 {
                    spec_preamble_bytes(mag as int, comment@, spx).len() as int
                } else {
                    0int
                })
                &&& final(self).max_v as int == (if height + depth + v_offset > old(
                    self,
                ).max_v as int {
                    height + depth + v_offset
                } else {
                    old(self).max_v as int
                })
                &&& final(self).max_h as int == (if width + h_offset > old(self).max_h as int {
                    width + h_offset
                } else {
                    old(self).max_h as int
                })
            })),
    {
        let ghost pre = *self;
        let vsum: i64 = height as i64 + depth as i64 + v_offset as i64;
        let hsum: i64 = width as i64 + h_offset as i64;
        if height > MAX_PAGE_DIM || depth > MAX_PAGE_DIM || vsum > MAX_PAGE_DIM as i64 || hsum
            > MAX_PAGE_DIM as i64 {
            return Ok(ShipOutcome::PageTooLarge);
        }
        if vsum > self.max_v as i64 {
            self.max_v = vsum as i32;
        }
        if hsum > self.max_h as i64 {
            self.max_h = hsum as i32;
        }
        let nf = self.fonts.len();
        proof {
            self.dev.dvi.lemma_stream_len();
        }
        let framing = build_frame(
            self.total_pages == 0,
            mag,
            comment,
            spx,
            counts,
            self.last_bop,
            page_width,
            page_height,
        );
        let page_loc = self.dev.dvi.len() + if self.total_pages == 0 {
            preamble_len(comment)
        } else {
            0
        };
        match self.dev.append(&framing, Ghost(nf as int)) {
            Ok(()) => {},
            Err(e) => {
                return Err(e);
            },
        }
        // The page's material.
        match emit_cmds(&mut self.dev, &self.fonts, cmds) {
            Ok(()) => {},
            Err(e) => {
                return Err(e);
            },
        }
        // The page-end byte.
        match self.dev.dvi.dvi_out(140) {
            Ok(()) => {},
            Err(e) => {
                return Err(e);
            },
        }
        proof {
            let stream1 = self.dev.dvi.stream();
            assert(crate::movement::recs_wf(self.dev.right@, stream1, 143)) by {
                assert forall|i: int| 0 <= i < self.dev.right@.len() implies {
                    &&& (#[trigger] self.dev.right@[i]).loc < stream1.len()
                    &&& 1 <= self.dev.right@[i].info <= 6
                    &&& 143 <= stream1[self.dev.right@[i].loc as int] <= 143 + 13
                    &&& (3 <= self.dev.right@[i].info <= 5 ==> stream1[self.dev.right@[i].loc as int] <= 143 + 3)
                } by {
                    assert(self.dev.right@[i].loc < stream1.len() - 1);
                }
            }
            assert(crate::movement::recs_wf(self.dev.down@, stream1, 157)) by {
                assert forall|i: int| 0 <= i < self.dev.down@.len() implies {
                    &&& (#[trigger] self.dev.down@[i]).loc < stream1.len()
                    &&& 1 <= self.dev.down@[i].info <= 6
                    &&& 157 <= stream1[self.dev.down@[i].loc as int] <= 157 + 13
                    &&& (3 <= self.dev.down@[i].info <= 5 ==> stream1[self.dev.down@[i].loc as int] <= 157 + 3)
                } by {
                    assert(self.dev.down@[i].loc < stream1.len() - 1);
                }
            }
            assert(crate::emit::pushes_wf(self.dev.pushes@, stream1)) by {
                assert forall|i: int| 0 <= i < self.dev.pushes@.len() implies {
                    &&& (#[trigger] self.dev.pushes@[i]).loc <= stream1.len()
                    &&& (self.dev.pushes@[i].pushed ==> self.dev.pushes@[i].loc >= 1 && stream1[self.dev.pushes@[i].loc - 1] == 141)
                } by {
                    assert(self.dev.pushes@[i].loc <= stream1.len() - 1);
                }
            }
        }
        self.total_pages = self.total_pages + 1;
        self.last_bop = page_loc as i32;
        // The direction-state epilogue: report the anomaly totals once, and
        // abort when markers are still open or the direction is not back to
        // left-to-right.
        match crate::layout::check_lr_state(lr_stack, cur_dir, missing, extra) {
            Ok((m, x)) => Ok(ShipOutcome::Shipped { missing: m, extra: x }),
            Err(e) => Err(e),
        }
    }

    /// Hand out freshly flushed output for storage.
    pub fn drain_flushed(&mut self) -> (r: Vec<u8>)
        requires
            old(self).wf(),
        ensures
            final(self).wf(),
            final(self).dev.view_spec().stream == old(self).dev.view_spec().stream,
            r@ == old(self).dev.view_spec().stream.subrange(
                old(self).dev.view_spec().drained,
                old(self).dev.view_spec().gone,
            ),
    {
        self.dev.dvi.drain_flushed()
    }

    /// Hand out everything not yet drained; the final flush.
    pub fn drain_rest(&mut self) -> (r: Vec<u8>)
        requires
            old(self).wf(),
        ensures
            final(self).wf(),
            r@ == old(self).dev.view_spec().stream.subrange(
                old(self).dev.view_spec().drained,
                old(self).dev.view_spec().stream.len() as int,
            ),
    {
        self.dev.dvi.drain_rest()
    }
}


/// The length of the preamble record.
fn preamble_len(comment: &Vec<u8>) -> (r: usize)
    requires
        comment@.len() <= 255,
    ensures
        r == spec_preamble_bytes(0, comment@, false).len(),
        forall|m: int, spx: bool| r == spec_preamble_bytes(m, comment@, spx).len(),
{
    15 + comment.len()
}

/// Build a shipped page's framing bytes.
#[verifier::rlimit(100)]
#[verifier::spinoff_prover]
fn build_frame(
    first_page: bool,
    mag: i32,
    comment: &Vec<u8>,
    spx: bool,
    counts: &Vec<i32>,
    last_bop: i32,
    page_width: i32,
    page_height: i32,
) -> (r: Vec<u8>)
    requires
        counts@.len() == 10,
        comment@.len() <= 255,
        page_width > i32::MIN,
        page_height > i32::MIN,
    ensures
        r@ == spec_ship_framing(
            first_page,
            mag as int,
            comment@,
            spx,
            counts@,
            last_bop as int,
            page_width as int,
            page_height as int,
        ),
{
    let mut framing: Vec<u8> = Vec::new();
    if first_page {
        framing.push(247);
        if spx {
            framing.push(100);
        } else {
            framing.push(7);
        }
        crate::emit::push_four(&mut framing, 25400000);
        crate::emit::push_four(&mut framing, 473628672);
        crate::emit::push_four(&mut framing, mag);
        framing.push(comment.len() as u8);
        crate::fmt::push_all(&mut framing, comment);
        proof {
            assert(framing@ =~= spec_preamble_bytes(mag as int, comment@, spx));
        }
    }
    let ghost frame1 = framing@;
    framing.push(139);
    proof {
        lemma_counts_bytes_shape(counts@, 0);
    }
    let mut k: usize = 0;
    let ghost frame2 = framing@;
    while k < 10
        invariant
            k <= 10,
            counts@.len() == 10,
            framing@ == frame2 + spec_counts_bytes(counts@, 0).subrange(0, 4 * k as int),
            spec_counts_bytes(counts@, 0).len() == 40,
        decreases 10 - k,
    {
        proof {
            lemma_counts_bytes(counts@, k as int);
        }
        crate::emit::push_four(&mut framing, counts[k]);
        proof {
            assert(framing@ =~= frame2 + spec_counts_bytes(counts@, 0).subrange(0, 4 * (k + 1)));
        }
        k = k + 1;
    }
    crate::emit::push_four(&mut framing, last_bop);
    proof {
        assert(spec_counts_bytes(counts@, 0).subrange(0, 40) =~= spec_counts_bytes(counts@, 0));
        assert(framing@ =~= frame1 + spec_bop_bytes(counts@, last_bop as int));
    }
    let payload = pagesize_special(page_width, page_height);
    proof {
        crate::fmt::lemma_pagesize_len(page_width as int, page_height as int);
    }
    let ghost frame3 = framing@;
    framing.push(239);
    framing.push(payload.len() as u8);
    crate::fmt::push_all(&mut framing, &payload);
    proof {
        assert(framing@ =~= frame3 + special_bytes(payload@));
        assert(framing@ =~= spec_ship_framing(
            first_page,
            mag as int,
            comment@,
            spx,
            counts@,
            last_bop as int,
            page_width as int,
            page_height as int,
        ));
    }
    framing
}


/// The postamble: back pointer to the last page, the unit ratios and
/// magnification again, the page extents, the stack depth and page count,
/// every used font's definition (highest first), and the closing record.
pub open spec fn spec_postamble_bytes(
    last_bop: int,
    post_loc: int,
    mag: int,
    max_v: int,
    max_h: int,
    max_push: int,
    pages: int,
    fonts: Seq<FontDef>,
    used: Seq<bool>,
    spx: bool,
) -> Seq<u8> {
    seq![248u8] + four_bytes(last_bop) + four_bytes(25400000) + four_bytes(473628672) + four_bytes(
        mag,
    ) + four_bytes(max_v) + four_bytes(max_h) + seq![
        (max_push / 256) as u8,
        (max_push % 256) as u8,
        ((pages / 256) % 256) as u8,
        (pages % 256) as u8,
    ] + spec_font_defs_desc(fonts, used, fonts.len() - 1) + seq![249u8] + four_bytes(post_loc)
        + seq![
        if spx {
            100u8
        } else {
            7u8
        },
    ]
}

impl Emitter {
    /// Close the output: write the postamble and the trailing pad.  With no
    /// pages shipped nothing is written at all.
    #[verifier::rlimit(100)]
    #[verifier::spinoff_prover]
    pub fn finalize_dvi_file(&mut self, mag: i32, spx: bool) -> (r: Result<bool, Fatal>)
        requires
            old(self).wf(),
        ensures
            final(self).wf(),
            final(self).fonts == old(self).fonts,
            (r == Ok::<bool, Fatal>(false) <==> old(self).total_pages == 0),
            old(self).total_pages == 0 ==> r == Ok::<bool, Fatal>(false) && *final(self) == *old(
                self,
            ),
            old(self).total_pages > 0 ==> ({
                let base = old(self).dev.view_spec().stream;
                let body = spec_postamble_bytes(
                    old(self).last_bop as int,
                    base.len() as int,
                    mag as int,
                    old(self).max_v as int,
                    old(self).max_h as int,
                    old(self).max_push as int,
                    old(self).total_pages as int,
                    old(self).fonts@,
                    old(self).dev.view_spec().used,
                    spx,
                );
                let n1 = base.len() + body.len();
                &&& (r is Err <==> n1 > 0x7FFF_FFFF || n1 + spec_pad_bytes(n1 as int).len()
                    > 0x7FFF_FFFF)
                &&& (r is Err ==> r == Err::<bool, Fatal>(Fatal::DviLength))
            }),
            r == Ok::<bool, Fatal>(true) ==> ({
                let base = old(self).dev.view_spec().stream;
                let body = spec_postamble_bytes(
                    old(self).last_bop as int,
                    base.len() as int,
                    mag as int,
                    old(self).max_v as int,
                    old(self).max_h as int,
                    old(self).max_push as int,
                    old(self).total_pages as int,
                    old(self).fonts@,
                    old(self).dev.view_spec().used,
                    spx,
                );
                &&& final(self).dev.view_spec().stream == base + body + spec_pad_bytes(
                    base.len() as int + body.len(),
                )
                &&& final(self).last_bop as int == base.len() as int
            }),
    {
        if self.total_pages == 0 {
            return Ok(false);
        }
        proof {
            self.dev.dvi.lemma_stream_len();
        }
        let post_loc = self.dev.dvi.len();
        let mut body: Vec<u8> = Vec::new();
        body.push(248);
        crate::emit::push_four(&mut body, self.last_bop);
        crate::emit::push_four(&mut body, 25400000);
        crate::emit::push_four(&mut body, 473628672);
        crate::emit::push_four(&mut body, mag);
        crate::emit::push_four(&mut body, self.max_v);
        crate::emit::push_four(&mut body, self.max_h);
        body.push((self.max_push / 256) as u8);
        body.push((self.max_push % 256) as u8);
        body.push(((self.total_pages / 256) % 256) as u8);
        body.push((self.total_pages % 256) as u8);
        let ghost head = body@;
        // The definitions of every font the pages used, highest first.
        let nf = self.fonts.len();
        let mut f: usize = nf - 1;
        let ghost used0 = self.dev.used@;
        let ghost mut done: Seq<u8> = Seq::empty();
        proof {
            assert(head + done =~= head);
        }
        loop
            invariant
                self.dev.used@.len() == nf,
                nf == self.fonts@.len(),
                fonts_wf(self.fonts@),
                used0 == self.dev.used@,
                f < nf,
                body@ == head + done,
                spec_font_defs_desc(self.fonts@, used0, nf - 1) == done + spec_font_defs_desc(
                    self.fonts@,
                    used0,
                    f as int,
                ),
            ensures
                f == 0,
            decreases f,
        {
            if f == 0 {
                break ;
            }
            let ghost pre = body@;
            if self.dev.used[f] {
                let def = crate::emit::build_font_def(f, &self.fonts[f]);
                crate::fmt::push_all(&mut body, &def);
            }
            proof {
                let piece: Seq<u8> = if used0[f as int] {
                    font_def_bytes(f as int, self.fonts@[f as int])
                } else {
                    Seq::<u8>::empty()
                };
                assert(spec_font_defs_desc(self.fonts@, used0, f as int) == piece
                    + spec_font_defs_desc(self.fonts@, used0, f as int - 1));
                assert(body@ =~= pre + piece);
                done = done + piece;
                assert(body@ =~= head + done);
                assert(spec_font_defs_desc(self.fonts@, used0, nf - 1) =~= done
                    + spec_font_defs_desc(self.fonts@, used0, f as int - 1));
            }
            f = f - 1;
        }
        proof {
            assert(spec_font_defs_desc(self.fonts@, used0, 0) =~= Seq::<u8>::empty());
            assert(done + Seq::<u8>::empty() =~= done);
            assert(spec_font_defs_desc(self.fonts@, used0, nf - 1) =~= done);
            assert(body@ =~= head + spec_font_defs_desc(self.fonts@, used0, nf - 1));
        }
        body.push(249);
        crate::emit::push_four(&mut body, post_loc as i32);
        if spx {
            body.push(100);
        } else {
            body.push(7);
        }
        proof {
            assert(body@ =~= spec_postamble_bytes(
                self.last_bop as int,
                post_loc as int,
                mag as int,
                self.max_v as int,
                self.max_h as int,
                self.max_push as int,
                self.total_pages as int,
                self.fonts@,
                used0,
                spx,
            ));
        }
        match self.dev.append(&body, Ghost(nf as int)) {
            Ok(()) => {},
            Err(e) => {
                return Err(e);
            },
        }
        // Trailing pad to a multiple of four.
        let n = self.dev.dvi.len();
        let k = 4 + (4 - (n % 4)) % 4;
        let mut pad: Vec<u8> = Vec::new();
        let mut i: usize = 0;
        while i < k
            invariant
                i <= k,
                k == 4 + (4 - (n % 4)) % 4,
                pad@ =~= Seq::new(i as nat, |q: int| 223u8),
            decreases k - i,
        {
            pad.push(223);
            proof {
                assert(pad@ =~= Seq::new(i as nat + 1, |q: int| 223u8));
            }
            i = i + 1;
        }
        proof {
            assert(pad@ =~= spec_pad_bytes(n as int));
        }
        match self.dev.append(&pad, Ghost(nf as int)) {
            Ok(()) => {},
            Err(e) => {
                return Err(e);
            },
        }
        self.last_bop = post_loc as i32;
        Ok(true)
    }
}

proof fn lemma_counts_bytes(counts: Seq<i32>, k: int)
    requires
        counts.len() == 10,
        0 <= k < 10,
    ensures
        spec_counts_bytes(counts, 0).len() == 40,
        spec_counts_bytes(counts, 0).subrange(0, 4 * k).add(four_bytes(counts[k] as int))
            =~= spec_counts_bytes(counts, 0).subrange(0, 4 * (k + 1)),
{
    lemma_counts_bytes_shape(counts, 0);
    assert forall|i: int| 0 <= i < 4 implies spec_counts_bytes(counts, 0)[4 * k + i] == four_bytes(
        counts[k] as int,
    )[i] by {
        lemma_counts_bytes_index(counts, 0, k, i);
    }
}

proof fn lemma_counts_bytes_shape(counts: Seq<i32>, i: int)
    requires
        0 <= i <= counts.len(),
    ensures
        spec_counts_bytes(counts, i).len() == 4 * (counts.len() - i),
    decreases counts.len() - i,
{
    if i < counts.len() {
        lemma_counts_bytes_shape(counts, i + 1);
    }
}

proof fn lemma_counts_bytes_index(counts: Seq<i32>, i: int, k: int, off: int)
    requires
        0 <= i <= k < counts.len(),
        0 <= off < 4,
    ensures
        spec_counts_bytes(counts, i)[4 * (k - i) + off] == four_bytes(counts[k] as int)[off],
    decreases k - i,
{
    lemma_counts_bytes_shape(counts, i + 1);
    if i == k {
    } else {
        lemma_counts_bytes_index(counts, i + 1, k, off);
    }
}

} // verus!
