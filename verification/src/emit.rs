//! The emission pass: encodes the abstract device commands into the byte
//! stream, collapsing cursor moves through the movement optimizer, defining
//! fonts lazily on first use, and cancelling empty push/pop pairs.

use vstd::prelude::*;
use crate::cmds::{cmd_view, cmds_view, cmdv_wf, cmdvs_wf, lemma_cmds_view_index, CmdV, DviCmd};
use crate::dvi::{four_bytes, spec_gone_after, two_bytes, DviFile, Fatal};
use crate::movement::{move_one, prune_movements, prune_spec, recs_wf, spec_movement, spec_scan, MoveRec};
use crate::node::{font_wf, fonts_wf, FontDef};

verus! {

/// A box mark on the emission stack: the stream position right after the
/// box was entered, and whether a push byte was written for it.
#[derive(Clone, Copy, Debug, PartialEq, Eq, Structural)]
pub struct PushMark {
    pub loc: usize,
    pub pushed: bool,
}

/// The device-side state the emission pass threads along.
pub struct DevState {
    pub dvi: DviFile,
    pub right: Vec<MoveRec>,
    pub down: Vec<MoveRec>,
    pub pushes: Vec<PushMark>,
    pub used: Vec<bool>,
}

/// The mathematical view of the device state.
pub ghost struct DevV {
    pub stream: Seq<u8>,
    pub gone: int,
    pub drained: int,
    pub right: Seq<MoveRec>,
    pub down: Seq<MoveRec>,
    pub pushes: Seq<PushMark>,
    pub used: Seq<bool>,
}

pub open spec fn pushes_wf(pushes: Seq<PushMark>, stream: Seq<u8>) -> bool {
    &&& forall|i: int|
        0 <= i < pushes.len() ==> {
            &&& (#[trigger] pushes[i]).loc <= stream.len()
            &&& (pushes[i].pushed ==> pushes[i].loc >= 1 && stream[pushes[i].loc - 1] == 141)
        }
    &&& forall|i: int, j: int|
        0 <= i < j < pushes.len() ==> (#[trigger] pushes[i]).loc <= (#[trigger] pushes[j]).loc && (
        pushes[j].pushed ==> pushes[i].loc < pushes[j].loc)
}

impl DevState {
    pub open spec fn view_spec(self) -> DevV {
        DevV {
            stream: self.dvi.stream(),
            gone: self.dvi.gone_spec(),
            drained: self.dvi.drained_spec(),
            right: self.right@,
            down: self.down@,
            pushes: self.pushes@,
            used: self.used@,
        }
    }

    pub open spec fn wf(self, nf: int) -> bool {
        &&& self.dvi.wf()
        &&& recs_wf(self.right@, self.dvi.stream(), 143)
        &&& recs_wf(self.down@, self.dvi.stream(), 157)
        &&& pushes_wf(self.pushes@, self.dvi.stream())
        &&& self.used@.len() == nf
    }

    /// A fresh device state for a font table of `nf` fonts, none used yet.
    pub fn new(nf: usize) -> (r: DevState)
        ensures
            r.wf(nf as int),
            r.view_spec().stream == Seq::<u8>::empty(),
            r.view_spec().gone == 0,
            r.view_spec().drained == 0,
            r.view_spec().right == Seq::<MoveRec>::empty(),
            r.view_spec().down == Seq::<MoveRec>::empty(),
            r.view_spec().pushes == Seq::<PushMark>::empty(),
            forall|i: int| 0 <= i < nf ==> !(#[trigger] r.view_spec().used[i]),
    {
        let mut used: Vec<bool> = Vec::new();
        let mut i: usize = 0;
        while i < nf
            invariant
                used@.len() == i,
                i <= nf,
                forall|q: int| 0 <= q < i ==> !(#[trigger] used@[q]),
            decreases nf - i,
        {
            used.push(false);
            i = i + 1;
        }
        DevState {
            dvi: DviFile::new(),
            right: Vec::new(),
            down: Vec::new(),
            pushes: Vec::new(),
            used,
        }
    }

    /// Append raw bytes, keeping every record and mark valid: appending
    /// never disturbs positions already written.
    pub fn append(&mut self, bytes: &Vec<u8>, Ghost(nf): Ghost<int>) -> (r: Result<(), Fatal>)
        requires
            old(self).wf(nf),
        ensures
            final(self).wf(nf),
            final(self).right@ == old(self).right@,
            final(self).down@ == old(self).down@,
            final(self).pushes@ == old(self).pushes@,
            final(self).used@ == old(self).used@,
            final(self).view_spec().drained == old(self).view_spec().drained,
            r is Err <==> old(self).dvi.stream().len() + bytes@.len() > 0x7FFF_FFFF,
            r is Err ==> r == Err::<(), Fatal>(Fatal::DviLength),
            r is Ok ==> final(self).dvi.stream() == old(self).dvi.stream() + bytes@
                && final(self).dvi.gone_spec() == spec_gone_after(
                old(self).dvi.gone_spec(),
                old(self).dvi.stream().len() as int + bytes@.len(),
            ),
    {
        let ghost stream0 = self.dvi.stream();
        let res = self.dvi.dvi_write_all(bytes);
        proof {
            assert forall|i: int| 0 <= i < self.right@.len() implies {
                &&& (#[trigger] self.right@[i]).loc < self.dvi.stream().len()
                &&& 1 <= self.right@[i].info <= 6
                &&& 143 <= self.dvi.stream()[self.right@[i].loc as int] <= 143 + 13
                &&& (3 <= self.right@[i].info <= 5 ==> self.dvi.stream()[self.right@[i].loc as int]
                    <= 143 + 3)
            } by {
                assert(self.right@[i].loc < stream0.len());
                assert(self.dvi.stream()[self.right@[i].loc as int] == stream0[self.right@[i].loc as int]);
            }
            assert forall|i: int| 0 <= i < self.down@.len() implies {
                &&& (#[trigger] self.down@[i]).loc < self.dvi.stream().len()
                &&& 1 <= self.down@[i].info <= 6
                &&& 157 <= self.dvi.stream()[self.down@[i].loc as int] <= 157 + 13
                &&& (3 <= self.down@[i].info <= 5 ==> self.dvi.stream()[self.down@[i].loc as int]
                    <= 157 + 3)
            } by {
                assert(self.down@[i].loc < stream0.len());
                assert(self.dvi.stream()[self.down@[i].loc as int] == stream0[self.down@[i].loc as int]);
            }
            assert forall|i: int| 0 <= i < self.pushes@.len() implies {
                &&& (#[trigger] self.pushes@[i]).loc <= self.dvi.stream().len()
                &&& (self.pushes@[i].pushed ==> self.pushes@[i].loc >= 1 && self.dvi.stream()[self.pushes@[i].loc - 1] == 141)
            } by {
                assert(self.pushes@[i].loc <= stream0.len());
                if self.pushes@[i].pushed {
                    assert(self.dvi.stream()[self.pushes@[i].loc - 1] == stream0[self.pushes@[i].loc - 1]);
                }
            }
        }
        res
    }
}

/// The font-selection command bytes for font `f`.
pub open spec fn font_sel_bytes(f: int) -> Seq<u8> {
    if f <= 64 {
        seq![(170 + f) as u8]
    } else if f <= 256 {
        seq![235u8, (f - 1) as u8]
    } else {
        seq![236u8, ((f - 1) / 256) as u8, ((f - 1) % 256) as u8]
    }
}

/// The first candidate cut point of a font name: the classic engine trims a
/// name at its first `:` beyond the first position (font options follow
/// there); otherwise the whole name is used.
pub open spec fn first_colon(s: Seq<u8>, i: int) -> int
    decreases s.len() - i,
    when 0 <= i <= s.len()
{
    if i >= s.len() {
        s.len() as int
    } else if s[i] == 58 {
        i
    } else {
        first_colon(s, i + 1)
    }
}

pub open spec fn colon_len(name: Seq<u8>) -> int {
    if name.len() == 0 {
        0
    } else {
        first_colon(name, 1)
    }
}

/// The font-definition record for font `f`: a native platform font's
/// encoded description, or the classic checksum/size/name record.
pub open spec fn font_def_bytes(f: int, fd: FontDef) -> Seq<u8> {
    match fd.native {
        Option::Some(nb) => seq![252u8] + four_bytes(f - 1) + nb@,
        Option::None => {
            let l = colon_len(fd.name@);
            (if f <= 256 {
                seq![243u8, (f - 1) as u8]
            } else {
                seq![244u8, ((f - 1) / 256) as u8, ((f - 1) % 256) as u8]
            }) + seq![fd.chk0, fd.chk1, fd.chk2, fd.chk3] + four_bytes(fd.size as int) + four_bytes(
                fd.dsize as int,
            ) + seq![fd.area@.len() as u8, l as u8] + fd.area@ + fd.name@.take(l)
        },
    }
}

/// Build the font-definition record for font `f`.
pub fn build_font_def(f: usize, fd: &FontDef) -> (r: Vec<u8>)
    requires
        font_wf(*fd),
        1 <= f <= 65536,
    ensures
        r@ == font_def_bytes(f as int, *fd),
{
    let mut r: Vec<u8> = Vec::new();
    match &fd.native {
        Option::Some(nb) => {
            r.push(252);
            let u: u32 = (f - 1) as u32;
            r.push((u / 0x100_0000) as u8);
            r.push(((u / 0x1_0000) % 0x100) as u8);
            r.push(((u / 0x100) % 0x100) as u8);
            r.push((u % 0x100) as u8);
            crate::fmt::push_all(&mut r, nb);
            proof {
                assert(r@ =~= font_def_bytes(f as int, *fd));
            }
        },
        Option::None => {
            if f <= 256 {
                r.push(243);
                r.push((f - 1) as u8);
            } else {
                r.push(244);
                r.push(((f - 1) / 256) as u8);
                r.push(((f - 1) % 256) as u8);
            }
            r.push(fd.chk0);
            r.push(fd.chk1);
            r.push(fd.chk2);
            r.push(fd.chk3);
            push_four(&mut r, fd.size);
            push_four(&mut r, fd.dsize);
            r.push(fd.area.len() as u8);
            // Trim the name at the first colon past the start.
            let mut l: usize = fd.name.len();
            let mut k: usize = 1;
            if fd.name.len() == 0 {
                l = 0;
            } else {
                while k < fd.name.len()
                    invariant
                        1 <= k <= fd.name@.len(),
                        l == fd.name@.len(),
                        first_colon(fd.name@, 1) == first_colon(fd.name@, k as int),
                    ensures
                        1 <= k <= fd.name@.len(),
                        l == fd.name@.len(),
                        first_colon(fd.name@, 1) == first_colon(fd.name@, k as int),
                        k < fd.name@.len() ==> fd.name@[k as int] == 58,
                    decreases fd.name@.len() - k,
                {
                    if fd.name[k] == 58 {
                        break ;
                    }
                    k = k + 1;
                }
                if k < fd.name.len() {
                    l = k;
                }
                proof {
                    assert(l == colon_len(fd.name@));
                }
            }
            r.push(l as u8);
            let mut i: usize = 0;
            let ghost pre = r@;
            while i < fd.area.len()
                invariant
                    i <= fd.area@.len(),
                    r@ == pre + fd.area@.subrange(0, i as int),
                decreases fd.area@.len() - i,
            {
                r.push(fd.area[i]);
                proof {
                    assert(r@ =~= pre + fd.area@.subrange(0, i + 1));
                }
                i = i + 1;
            }
            let mut i2: usize = 0;
            let ghost pre2 = r@;
            while i2 < l
                invariant
                    i2 <= l <= fd.name@.len(),
                    r@ == pre2 + fd.name@.subrange(0, i2 as int),
                decreases l - i2,
            {
                r.push(fd.name[i2]);
                proof {
                    assert(r@ =~= pre2 + fd.name@.subrange(0, i2 as int + 1));
                }
                i2 = i2 + 1;
            }
            proof {
                assert(fd.area@.subrange(0, fd.area@.len() as int) =~= fd.area@);
                assert(fd.name@.subrange(0, l as int) =~= fd.name@.take(l as int));
                assert(r@ =~= font_def_bytes(f as int, *fd));
            }
        },
    }
    r
}

/// Append the four-byte big-endian form of a 32-bit value to a vector.
pub fn push_four(r: &mut Vec<u8>, x: i32)
    ensures
        final(r)@ == old(r)@ + four_bytes(x as int),
{
    let u: u32 = if x >= 0 {
        x as u32
    } else {
        ((x as i64) + 0x1_0000_0000) as u32
    };
    r.push((u / 0x100_0000) as u8);
    r.push(((u / 0x1_0000) % 0x100) as u8);
    r.push(((u / 0x100) % 0x100) as u8);
    r.push((u % 0x100) as u8);
    proof {
        assert(r@ =~= old(r)@ + four_bytes(x as int));
    }
}

/// The big-endian code-unit bytes of a shaped run's original text.
pub open spec fn utf16_bytes(text: Seq<u16>) -> Seq<u8>
    decreases text.len(),
{
    if text.len() == 0 {
        Seq::empty()
    } else {
        two_bytes(text[0] as int) + utf16_bytes(text.subrange(1, text.len() as int))
    }
}

proof fn lemma_utf16_push(text: Seq<u16>, c: u16)
    ensures
        utf16_bytes(text.push(c)) == utf16_bytes(text) + two_bytes(c as int),
    decreases text.len(),
{
    if text.len() == 0 {
        assert(text.push(c)[0] == c);
        assert(text.push(c).subrange(1, 1) =~= Seq::<u16>::empty());
        assert(utf16_bytes(Seq::<u16>::empty()) =~= Seq::<u8>::empty());
        assert(utf16_bytes(text) =~= Seq::<u8>::empty());
        assert(utf16_bytes(text.push(c)) =~= two_bytes(c as int) + utf16_bytes(
            Seq::<u16>::empty(),
        ));
        assert(utf16_bytes(text.push(c)) =~= utf16_bytes(text) + two_bytes(c as int));
    } else {
        assert(text.push(c)[0] == text[0]);
        assert(text.push(c).subrange(1, text.len() as int + 1) =~= text.subrange(
            1,
            text.len() as int,
        ).push(c));
        lemma_utf16_push(text.subrange(1, text.len() as int), c);
        assert(utf16_bytes(text.push(c)) =~= utf16_bytes(text) + two_bytes(c as int));
    }
}

/// Build the code-unit bytes of a text run.
pub fn build_utf16(text: &Vec<u16>) -> (r: Vec<u8>)
    ensures
        r@ == utf16_bytes(text@),
{
    let mut r: Vec<u8> = Vec::new();
    let mut i: usize = 0;
    while i < text.len()
        invariant
            i <= text@.len(),
            r@ == utf16_bytes(text@.subrange(0, i as int)),
        decreases text@.len() - i,
    {
        let c = text[i];
        r.push((c / 0x100) as u8);
        r.push((c % 0x100) as u8);
        proof {
            lemma_utf16_push(text@.subrange(0, i as int), c);
            assert(text@.subrange(0, i as int).push(c) =~= text@.subrange(0, i as int + 1));
            assert(r@ =~= utf16_bytes(text@.subrange(0, i as int + 1)));
        }
        i = i + 1;
    }
    proof {
        assert(text@.subrange(0, text@.len() as int) =~= text@);
    }
    r
}

/// The header and payload of a special: a short form below 256 bytes, the
/// long length-prefixed form otherwise.
pub open spec fn special_bytes(payload: Seq<u8>) -> Seq<u8> {
    if payload.len() < 256 {
        seq![239u8, payload.len() as u8] + payload
    } else {
        seq![242u8] + four_bytes(payload.len() as int) + payload
    }
}

/// The result of emitting one command or a command list on the device
/// state: the new view, or the fatal condition that stopped emission.
pub ghost struct EmitStep {
    pub dev: DevV,
    pub err: Option<Fatal>,
}

/// Append bytes to a device view; the stream length limit gives the only
/// failure.
pub open spec fn dev_append_spec(dev: DevV, bytes: Seq<u8>) -> EmitStep {
    if dev.stream.len() + bytes.len() > 0x7FFF_FFFF {
        EmitStep { dev, err: Some(Fatal::DviLength) }
    } else {
        EmitStep {
            dev: DevV {
                stream: dev.stream + bytes,
                gone: spec_gone_after(dev.gone, dev.stream.len() as int + bytes.len()),
                ..dev
            },
            err: None,
        }
    }
}

/// The effect of a cursor move on one axis: the movement optimizer decides
/// between patch-and-repeat and a fresh command; the distance must fit the
/// 32-bit device range.
pub open spec fn spec_emit_move(dev: DevV, w: int, o: u8) -> EmitStep {
    if w < -0x8000_0000 || w > 0x7FFF_FFFF {
        EmitStep { dev, err: Some(Fatal::DviOperand) }
    } else {
        let recs = if o == 143 {
            dev.right
        } else {
            dev.down
        };
        let eff = spec_movement(recs, w as i64, dev.gone, dev.stream.len() as int, o);
        let mid = if eff.patch_at >= 0 {
            dev.stream.update(eff.patch_at, (dev.stream[eff.patch_at] + eff.patch_delta) as u8)
        } else {
            dev.stream
        };
        if dev.stream.len() + eff.appended.len() > 0x7FFF_FFFF {
            EmitStep { dev, err: Some(Fatal::DviLength) }
        } else {
            EmitStep {
                dev: DevV {
                    stream: mid + eff.appended,
                    gone: spec_gone_after(dev.gone, dev.stream.len() as int + eff.appended.len()),
                    right: if o == 143 {
                        eff.recs
                    } else {
                        dev.right
                    },
                    down: if o == 157 {
                        eff.recs
                    } else {
                        dev.down
                    },
                    ..dev
                },
                err: None,
            }
        }
    }
}

/// The effect of entering a box.
pub open spec fn spec_box_open(dev: DevV, push: bool) -> EmitStep {
    let step = if push {
        dev_append_spec(dev, seq![141u8])
    } else {
        dev_append_spec(dev, Seq::empty())
    };
    if step.err is Some {
        step
    } else {
        EmitStep {
            dev: DevV {
                pushes: step.dev.pushes.push(
                    PushMark { loc: step.dev.stream.len() as usize, pushed: push },
                ),
                ..step.dev
            },
            err: None,
        }
    }
}

/// The effect of leaving a box: prune pending moves back to the box's mark
/// and close its push, removing the push byte outright when nothing was
/// emitted inside.
pub open spec fn spec_box_close(dev: DevV, push: bool) -> EmitStep {
    if dev.pushes.len() == 0 {
        EmitStep { dev, err: Some(Fatal::Confusion(crate::dvi::ConfusionTag::DirStack)) }
    } else {
        let mark = dev.pushes.last();
        let dev1 = DevV {
            pushes: dev.pushes.drop_last(),
            right: prune_spec(dev.right, mark.loc),
            down: prune_spec(dev.down, mark.loc),
            ..dev
        };
        if !mark.pushed {
            EmitStep { dev: dev1, err: None }
        } else {
            if mark.loc == dev1.stream.len() && dev1.stream.len() % 16384 != 0 && dev1.gone
                < dev1.stream.len() {
                EmitStep { dev: DevV { stream: dev1.stream.drop_last(), ..dev1 }, err: None }
            } else {
                dev_append_spec(dev1, seq![142u8])
            }
        }
    }
}

/// The effect of selecting a font: its definition record is emitted the
/// first time it is used, then the selection command.
pub open spec fn spec_font_cmd(dev: DevV, fonts: Seq<FontDef>, f: int) -> EmitStep {
    let defs = if !dev.used[f] {
        font_def_bytes(f, fonts[f])
    } else {
        Seq::empty()
    };
    let step = dev_append_spec(dev, defs + font_sel_bytes(f));
    if step.err is Some {
        step
    } else {
        EmitStep { dev: DevV { used: step.dev.used.update(f, true), ..step.dev }, err: None }
    }
}

/// The plain byte image of the commands that append bytes and nothing else.
pub open spec fn spec_cmd_bytes(cmd: CmdV) -> Seq<u8> {
    match cmd {
        CmdV::Char(c) => if c >= 128 {
            seq![128u8, (c % 256) as u8]
        } else {
            seq![(c % 256) as u8]
        },
        CmdV::SetRule { height, width } => seq![132u8] + four_bytes(height) + four_bytes(width),
        CmdV::PutRule { height, width } => seq![137u8] + four_bytes(height) + four_bytes(width),
        CmdV::Glyph { width, glyph } => seq![253u8] + four_bytes(width as int) + two_bytes(1)
            + four_bytes(0) + four_bytes(0) + two_bytes(glyph as int),
        CmdV::NativeText { text, glyphs } => seq![254u8] + two_bytes(text.len() as int)
            + utf16_bytes(text) + glyphs,
        CmdV::NativeGlyphs { glyphs } => seq![253u8] + glyphs,
        CmdV::Special { payload } => special_bytes(payload),
        _ => Seq::empty(),
    }
}

/// Whether a rule command's extents fit the 32-bit device range.
pub open spec fn rule_fits(cmd: CmdV) -> bool {
    match cmd {
        CmdV::SetRule { height, width } => -0x8000_0000 <= height <= 0x7FFF_FFFF && -0x8000_0000
            <= width <= 0x7FFF_FFFF,
        CmdV::PutRule { height, width } => -0x8000_0000 <= height <= 0x7FFF_FFFF && -0x8000_0000
            <= width <= 0x7FFF_FFFF,
        _ => true,
    }
}

/// What emitting one abstract command does to the device state.
pub open spec fn spec_emit_cmd(dev: DevV, fonts: Seq<FontDef>, cmd: CmdV) -> EmitStep {
    match cmd {
        CmdV::Right(w) => spec_emit_move(dev, w, 143),
        CmdV::Down(w) => spec_emit_move(dev, w, 157),
        CmdV::BoxOpen { push } => spec_box_open(dev, push),
        CmdV::BoxClose { push } => spec_box_close(dev, push),
        CmdV::Font(f) => spec_font_cmd(dev, fonts, f),
        _ => {
            if !rule_fits(cmd) {
                EmitStep { dev, err: Some(Fatal::DviOperand) }
            } else {
                dev_append_spec(dev, spec_cmd_bytes(cmd))
            }
        },
    }
}

/// Emitting a command list from position `i` on: stops at the first fatal
/// condition.
pub open spec fn spec_emit_from(dev: DevV, fonts: Seq<FontDef>, cmds: Seq<CmdV>, i: int) -> EmitStep
    decreases cmds.len() - i,
    when 0 <= i <= cmds.len()
{
    if i >= cmds.len() {
        EmitStep { dev, err: None }
    } else {
        let step = spec_emit_cmd(dev, fonts, cmds[i]);
        if step.err is Some {
            step
        } else {
            spec_emit_from(step.dev, fonts, cmds, i + 1)
        }
    }
}


/// Emit a cursor move on the right axis.
#[verifier::spinoff_prover]
#[verifier::rlimit(60)]
fn emit_right(dev: &mut DevState, w: i64, Ghost(nf): Ghost<int>) -> (r: Result<(), Fatal>)
    requires
        old(dev).wf(nf),
    ensures
        final(dev).wf(nf),
        final(dev).view_spec().drained == old(dev).view_spec().drained,
        ({
            let step = spec_emit_move(old(dev).view_spec(), w as int, 143);
            &&& (r is Err <==> step.err is Some)
            &&& (r matches Err(e) ==> step.err == Some(e))
            &&& (r is Ok ==> final(dev).view_spec() == step.dev)
        }),
{
    if w < -0x8000_0000 || w > 0x7FFF_FFFF {
        return Err(Fatal::DviOperand);
    }
    let ghost dev0 = dev.view_spec();
    let ghost stream0 = dev.dvi.stream();
    proof {
        movement_wf_to_scan(dev0.right, stream0, 143);
        crate::movement::lemma_scan_props(
            dev0.right,
            w,
            dev0.gone,
            dev0.right.len() as int - 1,
            0,
        );
    }
    let res = move_one(&mut dev.right, &mut dev.dvi, w, 143);
    proof {
        let eff = spec_movement(dev0.right, w, dev0.gone, dev0.stream.len() as int, 143);
        let scan = spec_scan(dev0.right, w, dev0.gone, dev0.right.len() as int - 1, 0);
        if eff.patch_at >= 0 {
            assert(scan.0 >= 0);
            assert(eff.patch_at == dev0.right[scan.0].loc);
            assert(3 <= dev0.right[scan.0].info <= 5);
            assert(143 <= stream0[dev0.right[scan.0].loc as int] <= 143 + 3);
        }
        if res is Ok {
            assert forall|i: int| 0 <= i < dev.down@.len() implies {
                &&& (#[trigger] dev.down@[i]).loc < dev.dvi.stream().len()
                &&& 1 <= dev.down@[i].info <= 6
                &&& 157 <= dev.dvi.stream()[dev.down@[i].loc as int] <= 157 + 13
                &&& (3 <= dev.down@[i].info <= 5 ==> dev.dvi.stream()[dev.down@[i].loc as int]
                    <= 157 + 3)
            } by {
                assert(dev.down@[i].loc < stream0.len());
                if eff.patch_at >= 0 {
                    assert(143 <= stream0[eff.patch_at] <= 143 + 3);
                    assert(dev.down@[i].loc as int != eff.patch_at);
                }
                assert(dev.dvi.stream()[dev.down@[i].loc as int] == stream0[dev.down@[i].loc as int]);
            }
            assert forall|i: int| 0 <= i < dev.pushes@.len() implies {
                &&& (#[trigger] dev.pushes@[i]).loc <= dev.dvi.stream().len()
                &&& (dev.pushes@[i].pushed ==> dev.pushes@[i].loc >= 1 && dev.dvi.stream()[dev.pushes@[i].loc - 1] == 141)
            } by {
                assert(dev.pushes@[i].loc <= stream0.len());
                if dev.pushes@[i].pushed {
                    if eff.patch_at >= 0 {
                        assert(143 <= stream0[eff.patch_at] <= 143 + 3);
                        assert(dev.pushes@[i].loc - 1 != eff.patch_at);
                    }
                    assert(dev.dvi.stream()[dev.pushes@[i].loc - 1] == stream0[dev.pushes@[i].loc - 1]);
                }
            }
            assert(dev.view_spec() == spec_emit_move(dev0, w as int, 143).dev);
        } else {
            assert forall|i: int| 0 <= i < dev.down@.len() implies {
                &&& (#[trigger] dev.down@[i]).loc < dev.dvi.stream().len()
                &&& 1 <= dev.down@[i].info <= 6
                &&& 157 <= dev.dvi.stream()[dev.down@[i].loc as int] <= 157 + 13
                &&& (3 <= dev.down@[i].info <= 5 ==> dev.dvi.stream()[dev.down@[i].loc as int]
                    <= 157 + 3)
            } by {
                assert(dev.down@[i].loc < stream0.len());
                if eff.patch_at >= 0 {
                    assert(143 <= stream0[eff.patch_at] <= 143 + 3);
                    assert(dev.down@[i].loc as int != eff.patch_at);
                }
            }
            assert forall|i: int| 0 <= i < dev.pushes@.len() implies {
                &&& (#[trigger] dev.pushes@[i]).loc <= dev.dvi.stream().len()
                &&& (dev.pushes@[i].pushed ==> dev.pushes@[i].loc >= 1 && dev.dvi.stream()[dev.pushes@[i].loc - 1] == 141)
            } by {
                assert(dev.pushes@[i].loc <= stream0.len());
                if dev.pushes@[i].pushed {
                    if eff.patch_at >= 0 {
                        assert(143 <= stream0[eff.patch_at] <= 143 + 3);
                        assert(dev.pushes@[i].loc - 1 != eff.patch_at);
                    }
                }
            }
        }
    }
    res
}

/// Emit a cursor move on the down axis.
#[verifier::spinoff_prover]
#[verifier::rlimit(60)]
fn emit_down(dev: &mut DevState, w: i64, Ghost(nf): Ghost<int>) -> (r: Result<(), Fatal>)
    requires
        old(dev).wf(nf),
    ensures
        final(dev).wf(nf),
        final(dev).view_spec().drained == old(dev).view_spec().drained,
        ({
            let step = spec_emit_move(old(dev).view_spec(), w as int, 157);
            &&& (r is Err <==> step.err is Some)
            &&& (r matches Err(e) ==> step.err == Some(e))
            &&& (r is Ok ==> final(dev).view_spec() == step.dev)
        }),
{
    if w < -0x8000_0000 || w > 0x7FFF_FFFF {
        return Err(Fatal::DviOperand);
    }
    let ghost dev0 = dev.view_spec();
    let ghost stream0 = dev.dvi.stream();
    proof {
        movement_wf_to_scan(dev0.down, stream0, 157);
        crate::movement::lemma_scan_props(dev0.down, w, dev0.gone, dev0.down.len() as int - 1, 0);
    }
    let res = move_one(&mut dev.down, &mut dev.dvi, w, 157);
    proof {
        let eff = spec_movement(dev0.down, w, dev0.gone, dev0.stream.len() as int, 157);
        let scan = spec_scan(dev0.down, w, dev0.gone, dev0.down.len() as int - 1, 0);
        if eff.patch_at >= 0 {
            assert(scan.0 >= 0);
            assert(eff.patch_at == dev0.down[scan.0].loc);
            assert(3 <= dev0.down[scan.0].info <= 5);
            assert(157 <= stream0[dev0.down[scan.0].loc as int] <= 157 + 3);
        }
        if res is Ok {
            assert forall|i: int| 0 <= i < dev.right@.len() implies {
                &&& (#[trigger] dev.right@[i]).loc < dev.dvi.stream().len()
                &&& 1 <= dev.right@[i].info <= 6
                &&& 143 <= dev.dvi.stream()[dev.right@[i].loc as int] <= 143 + 13
                &&& (3 <= dev.right@[i].info <= 5 ==> dev.dvi.stream()[dev.right@[i].loc as int]
                    <= 143 + 3)
            } by {
                assert(dev.right@[i].loc < stream0.len());
                if eff.patch_at >= 0 {
                    assert(157 <= stream0[eff.patch_at] <= 157 + 3);
                    assert(dev.right@[i].loc as int != eff.patch_at);
                }
                assert(dev.dvi.stream()[dev.right@[i].loc as int] == stream0[dev.right@[i].loc as int]);
            }
            assert forall|i: int| 0 <= i < dev.pushes@.len() implies {
                &&& (#[trigger] dev.pushes@[i]).loc <= dev.dvi.stream().len()
                &&& (dev.pushes@[i].pushed ==> dev.pushes@[i].loc >= 1 && dev.dvi.stream()[dev.pushes@[i].loc - 1] == 141)
            } by {
                assert(dev.pushes@[i].loc <= stream0.len());
                if dev.pushes@[i].pushed {
                    if eff.patch_at >= 0 {
                        assert(157 <= stream0[eff.patch_at] <= 157 + 3);
                        assert(dev.pushes@[i].loc - 1 != eff.patch_at);
                    }
                    assert(dev.dvi.stream()[dev.pushes@[i].loc - 1] == stream0[dev.pushes@[i].loc - 1]);
                }
            }
            assert(dev.view_spec() == spec_emit_move(dev0, w as int, 157).dev);
        } else {
            assert forall|i: int| 0 <= i < dev.right@.len() implies {
                &&& (#[trigger] dev.right@[i]).loc < dev.dvi.stream().len()
                &&& 1 <= dev.right@[i].info <= 6
                &&& 143 <= dev.dvi.stream()[dev.right@[i].loc as int] <= 143 + 13
                &&& (3 <= dev.right@[i].info <= 5 ==> dev.dvi.stream()[dev.right@[i].loc as int]
                    <= 143 + 3)
            } by {
                assert(dev.right@[i].loc < stream0.len());
                if eff.patch_at >= 0 {
                    assert(157 <= stream0[eff.patch_at] <= 157 + 3);
                    assert(dev.right@[i].loc as int != eff.patch_at);
                }
            }
            assert forall|i: int| 0 <= i < dev.pushes@.len() implies {
                &&& (#[trigger] dev.pushes@[i]).loc <= dev.dvi.stream().len()
                &&& (dev.pushes@[i].pushed ==> dev.pushes@[i].loc >= 1 && dev.dvi.stream()[dev.pushes@[i].loc - 1] == 141)
            } by {
                assert(dev.pushes@[i].loc <= stream0.len());
                if dev.pushes@[i].pushed {
                    if eff.patch_at >= 0 {
                        assert(157 <= stream0[eff.patch_at] <= 157 + 3);
                        assert(dev.pushes@[i].loc - 1 != eff.patch_at);
                    }
                }
            }
        }
    }
    res
}

/// A record list that is well-formed against the stream has in-range infos.
proof fn movement_wf_to_scan(recs: Seq<MoveRec>, stream: Seq<u8>, o: u8)
    requires
        recs_wf(recs, stream, o),
    ensures
        forall|i: int| 0 <= i < recs.len() ==> 1 <= (#[trigger] recs[i]).info <= 6,
{
}


/// A prefix of a well-formed record list is well-formed on the same stream.
proof fn lemma_recs_prefix_wf(pre: Seq<MoveRec>, full: Seq<MoveRec>, stream: Seq<u8>, o: u8)
    requires
        recs_wf(full, stream, o),
        pre.len() <= full.len(),
        pre == full.take(pre.len() as int),
    ensures
        recs_wf(pre, stream, o),
{
    assert forall|i: int| 0 <= i < pre.len() implies {
        &&& (#[trigger] pre[i]).loc < stream.len()
        &&& 1 <= pre[i].info <= 6
        &&& o <= stream[pre[i].loc as int] <= o + 13
        &&& (3 <= pre[i].info <= 5 ==> stream[pre[i].loc as int] <= o + 3)
    } by {
        assert(pre[i] == full[i]);
    }
    assert forall|i: int, j: int| 0 <= i < j < pre.len() implies (#[trigger] pre[i]).loc < (
    #[trigger] pre[j]).loc by {
        assert(pre[i] == full[i]);
        assert(pre[j] == full[j]);
    }
}

/// A record list stays well-formed when the stream keeps every byte it
/// names.
proof fn lemma_recs_wf_carry(recs: Seq<MoveRec>, s1: Seq<u8>, s2: Seq<u8>, o: u8)
    requires
        recs_wf(recs, s1, o),
        forall|i: int|
            0 <= i < recs.len() ==> (#[trigger] recs[i]).loc < s2.len() && s2[recs[i].loc as int]
                == s1[recs[i].loc as int],
    ensures
        recs_wf(recs, s2, o),
{
}

/// Enter a box.
#[verifier::spinoff_prover]
fn emit_box_open(dev: &mut DevState, push: bool, Ghost(nf): Ghost<int>) -> (r: Result<(), Fatal>)
    requires
        old(dev).wf(nf),
    ensures
        final(dev).wf(nf),
        final(dev).view_spec().drained == old(dev).view_spec().drained,
        ({
            let step = spec_box_open(old(dev).view_spec(), push);
            &&& (r is Err <==> step.err is Some)
            &&& (r matches Err(e) ==> step.err == Some(e))
            &&& (r is Ok ==> final(dev).view_spec() == step.dev)
        }),
{
    let ghost dev0 = dev.view_spec();
    let mut bytes: Vec<u8> = Vec::new();
    if push {
        bytes.push(141);
    }
    proof {
        if push {
            assert(bytes@ =~= seq![141u8]);
        } else {
            assert(bytes@ =~= Seq::<u8>::empty());
            assert(dev0.stream + bytes@ =~= dev0.stream);
        }
    }
    let res = dev.append(&bytes, Ghost(nf));
    match res {
        Ok(()) => {},
        Err(e) => {
            return Err(e);
        },
    }
    let loc = dev.dvi.len();
    dev.pushes.push(PushMark { loc, pushed: push });
    proof {
        let step = spec_box_open(dev0, push);
        assert(dev.pushes@ =~= step.dev.pushes);
        assert forall|i: int, j: int| 0 <= i < j < dev.pushes@.len() implies (
        #[trigger] dev.pushes@[i]).loc <= (#[trigger] dev.pushes@[j]).loc && (
        dev.pushes@[j].pushed ==> dev.pushes@[i].loc < dev.pushes@[j].loc) by {
            if j == dev.pushes@.len() - 1 {
                assert(dev.pushes@[i].loc <= dev0.stream.len());
            }
        }
        assert(dev.view_spec() == step.dev);
    }
    Ok(())
}

/// Leave a box.
#[verifier::spinoff_prover]
#[verifier::rlimit(60)]
fn emit_box_close(dev: &mut DevState, push: bool, Ghost(nf): Ghost<int>) -> (r: Result<(), Fatal>)
    requires
        old(dev).wf(nf),
    ensures
        final(dev).wf(nf),
        final(dev).view_spec().drained == old(dev).view_spec().drained,
        ({
            let step = spec_box_close(old(dev).view_spec(), push);
            &&& (r is Err <==> step.err is Some)
            &&& (r matches Err(e) ==> step.err == Some(e))
            &&& (r is Ok ==> final(dev).view_spec() == step.dev)
        }),
{
    let ghost dev0 = dev.view_spec();
    let np = dev.pushes.len();
    if np == 0 {
        return Err(Fatal::Confusion(crate::dvi::ConfusionTag::DirStack));
    }
    let mark = dev.pushes[np - 1];
    dev.pushes.pop();
    proof {
        assert(dev.pushes@ =~= dev0.pushes.drop_last());
        assert(mark == dev0.pushes.last());
    }
    prune_movements(&mut dev.right, mark.loc);
    prune_movements(&mut dev.down, mark.loc);
    proof {
        lemma_recs_prefix_wf(dev.right@, dev0.right, dev0.stream, 143);
        lemma_recs_prefix_wf(dev.down@, dev0.down, dev0.stream, 157);
        assert forall|i: int| 0 <= i < dev.pushes@.len() implies {
            &&& (#[trigger] dev.pushes@[i]).loc <= dev0.stream.len()
            &&& (dev.pushes@[i].pushed ==> dev.pushes@[i].loc >= 1 && dev0.stream[dev.pushes@[i].loc - 1] == 141)
        } by {
            assert(dev.pushes@[i] == dev0.pushes[i]);
        }
        assert forall|i: int, j: int| 0 <= i < j < dev.pushes@.len() implies (
        #[trigger] dev.pushes@[i]).loc <= (#[trigger] dev.pushes@[j]).loc && (
        dev.pushes@[j].pushed ==> dev.pushes@[i].loc < dev.pushes@[j].loc) by {
            assert(dev.pushes@[i] == dev0.pushes[i]);
            assert(dev.pushes@[j] == dev0.pushes[j]);
        }
    }
    if !mark.pushed {
        proof {
            let step = spec_box_close(dev0, push);
            assert(dev.view_spec() == step.dev);
        }
        return Ok(());
    }
    let n = dev.dvi.len();
    let ghost stream1 = dev.dvi.stream();
    proof {
        dev.dvi.lemma_stream_len();
        assert(0x8000_0000int % 8192 == 0);
    }
    let res = dev.dvi.dvi_pop(mark.loc);
    proof {
        if mark.loc == n && n % 16384 != 0 && dev0.gone < n {
            assert(dev.dvi.stream() =~= stream1.drop_last());
            assert forall|i: int|
                0 <= i < dev.right@.len() implies (#[trigger] dev.right@[i]).loc
                < dev.dvi.stream().len() && dev.dvi.stream()[dev.right@[i].loc as int] == stream1[dev.right@[i].loc as int] by {
                assert(dev.right@[i].loc < mark.loc);
                assert(stream1[mark.loc - 1] == 141);
                assert(143 <= stream1[dev.right@[i].loc as int] <= 143 + 13);
                assert(dev.right@[i].loc as int != mark.loc - 1);
            }
            lemma_recs_wf_carry(dev.right@, stream1, dev.dvi.stream(), 143);
            assert forall|i: int|
                0 <= i < dev.down@.len() implies (#[trigger] dev.down@[i]).loc
                < dev.dvi.stream().len() && dev.dvi.stream()[dev.down@[i].loc as int] == stream1[dev.down@[i].loc as int] by {
                assert(dev.down@[i].loc < mark.loc);
                assert(stream1[mark.loc - 1] == 141);
                assert(157 <= stream1[dev.down@[i].loc as int] <= 157 + 13);
                assert(dev.down@[i].loc as int != mark.loc - 1);
            }
            lemma_recs_wf_carry(dev.down@, stream1, dev.dvi.stream(), 157);
            assert forall|i: int| 0 <= i < dev.pushes@.len() implies {
                &&& (#[trigger] dev.pushes@[i]).loc <= dev.dvi.stream().len()
                &&& (dev.pushes@[i].pushed ==> dev.pushes@[i].loc >= 1 && dev.dvi.stream()[dev.pushes@[i].loc - 1] == 141)
            } by {
                assert(dev0.pushes[i] == dev.pushes@[i]);
                assert(dev0.pushes.last().pushed);
                assert(dev.pushes@[i].loc < mark.loc);
                if dev.pushes@[i].pushed {
                    assert(dev.dvi.stream()[dev.pushes@[i].loc - 1] == stream1[dev.pushes@[i].loc - 1]);
                }
            }
            let sdev = spec_box_close(dev0, push).dev;
            assert(dev.view_spec().stream =~= sdev.stream);
            assert(dev.view_spec().gone == sdev.gone);
            assert(dev.view_spec().drained == sdev.drained);
            assert(dev.view_spec().right =~= sdev.right);
            assert(dev.view_spec().down =~= sdev.down);
            assert(dev.view_spec().pushes =~= sdev.pushes);
            assert(dev.view_spec().used =~= sdev.used);
            assert(dev.view_spec() == sdev);
        } else {
            if res is Ok {
                assert forall|i: int|
                    0 <= i < dev.right@.len() implies (#[trigger] dev.right@[i]).loc
                    < dev.dvi.stream().len() && dev.dvi.stream()[dev.right@[i].loc as int]
                    == stream1[dev.right@[i].loc as int] by {
                    assert(dev.right@[i].loc < stream1.len());
                }
                lemma_recs_wf_carry(dev.right@, stream1, dev.dvi.stream(), 143);
                assert forall|i: int|
                    0 <= i < dev.down@.len() implies (#[trigger] dev.down@[i]).loc
                    < dev.dvi.stream().len() && dev.dvi.stream()[dev.down@[i].loc as int]
                    == stream1[dev.down@[i].loc as int] by {
                    assert(dev.down@[i].loc < stream1.len());
                }
                lemma_recs_wf_carry(dev.down@, stream1, dev.dvi.stream(), 157);
                assert forall|i: int| 0 <= i < dev.pushes@.len() implies {
                    &&& (#[trigger] dev.pushes@[i]).loc <= dev.dvi.stream().len()
                    &&& (dev.pushes@[i].pushed ==> dev.pushes@[i].loc >= 1 && dev.dvi.stream()[dev.pushes@[i].loc - 1] == 141)
                } by {
                    assert(dev.pushes@[i].loc <= stream1.len());
                    if dev.pushes@[i].pushed {
                        assert(dev.dvi.stream()[dev.pushes@[i].loc - 1] == stream1[dev.pushes@[i].loc - 1]);
                    }
                }
                let sdev = spec_box_close(dev0, push).dev;
                assert(stream1.push(142u8) =~= stream1 + seq![142u8]);
                assert(dev.view_spec().stream =~= sdev.stream);
                assert(dev.view_spec().gone == sdev.gone);
                assert(dev.view_spec().drained == sdev.drained);
                assert(dev.view_spec().right =~= sdev.right);
                assert(dev.view_spec().down =~= sdev.down);
                assert(dev.view_spec().pushes =~= sdev.pushes);
                assert(dev.view_spec().used =~= sdev.used);
                assert(dev.view_spec() == sdev);
            }
        }
    }
    res
}

/// Select a font, defining it on first use.
#[verifier::spinoff_prover]
fn emit_font(dev: &mut DevState, fonts: &Vec<FontDef>, f: usize) -> (r: Result<(), Fatal>)
    requires
        old(dev).wf(fonts@.len() as int),
        fonts_wf(fonts@),
        1 <= f < fonts@.len(),
    ensures
        final(dev).wf(fonts@.len() as int),
        final(dev).view_spec().drained == old(dev).view_spec().drained,
        ({
            let step = spec_font_cmd(old(dev).view_spec(), fonts@, f as int);
            &&& (r is Err <==> step.err is Some)
            &&& (r matches Err(e) ==> step.err == Some(e))
            &&& (r is Ok ==> final(dev).view_spec() == step.dev)
        }),
{
    let ghost dev0 = dev.view_spec();
    let ghost nf = fonts@.len() as int;
    let mut bytes: Vec<u8> = Vec::new();
    if !dev.used[f] {
        let defs = build_font_def(f, &fonts[f]);
        crate::fmt::push_all(&mut bytes, &defs);
    }
    proof {
        if !dev0.used[f as int] {
            assert(bytes@ =~= font_def_bytes(f as int, fonts@[f as int]));
        } else {
            assert(bytes@ =~= Seq::<u8>::empty());
        }
    }
    if f <= 64 {
        bytes.push((170 + f) as u8);
    } else if f <= 256 {
        bytes.push(235);
        bytes.push((f - 1) as u8);
    } else {
        bytes.push(236);
        bytes.push(((f - 1) / 256) as u8);
        bytes.push(((f - 1) % 256) as u8);
    }
    proof {
        let defs = if !dev0.used[f as int] {
            font_def_bytes(f as int, fonts@[f as int])
        } else {
            Seq::<u8>::empty()
        };
        assert(bytes@ =~= defs + font_sel_bytes(f as int));
    }
    let res = dev.append(&bytes, Ghost(nf));
    match res {
        Ok(()) => {},
        Err(e) => {
            return Err(e);
        },
    }
    dev.used.set(f, true);
    proof {
        let step = spec_font_cmd(dev0, fonts@, f as int);
        assert(dev.used@ =~= step.dev.used);
        assert(dev.view_spec() == step.dev);
    }
    Ok(())
}

/// Build the byte image of a plain byte-appending command.
#[verifier::spinoff_prover]
fn build_cmd_bytes(cmd: &DviCmd) -> (r: Vec<u8>)
    requires
        match cmd {
            DviCmd::Right(_) => false,
            DviCmd::Down(_) => false,
            DviCmd::BoxOpen { .. } => false,
            DviCmd::BoxClose { .. } => false,
            DviCmd::Font(_) => false,
            _ => true,
        },
        rule_fits(cmd_view(*cmd)),
        cmdv_wf(cmd_view(*cmd), 0x8000_0000),
    ensures
        r@ == spec_cmd_bytes(cmd_view(*cmd)),
{
    let mut bytes: Vec<u8> = Vec::new();
    match cmd {
        DviCmd::Char(c) => {
            if *c >= 128 {
                bytes.push(128);
            }
            bytes.push((*c % 256) as u8);
            proof {
                assert(bytes@ =~= spec_cmd_bytes(cmd_view(*cmd)));
            }
        },
        DviCmd::SetRule { height, width } => {
            bytes.push(132);
            push_four(&mut bytes, *height as i32);
            push_four(&mut bytes, *width as i32);
            proof {
                assert(bytes@ =~= spec_cmd_bytes(cmd_view(*cmd)));
            }
        },
        DviCmd::PutRule { height, width } => {
            bytes.push(137);
            push_four(&mut bytes, *height as i32);
            push_four(&mut bytes, *width as i32);
            proof {
                assert(bytes@ =~= spec_cmd_bytes(cmd_view(*cmd)));
            }
        },
        DviCmd::Glyph { width, glyph } => {
            bytes.push(253);
            push_four(&mut bytes, *width);
            bytes.push(0);
            bytes.push(1);
            push_four(&mut bytes, 0);
            push_four(&mut bytes, 0);
            bytes.push((*glyph / 0x100) as u8);
            bytes.push((*glyph % 0x100) as u8);
            proof {
                assert(bytes@ =~= spec_cmd_bytes(cmd_view(*cmd)));
            }
        },
        DviCmd::NativeText { text, glyphs } => {
            bytes.push(254);
            let tl = text.len() as u16;
            bytes.push((tl / 0x100) as u8);
            bytes.push((tl % 0x100) as u8);
            let tb = build_utf16(text);
            crate::fmt::push_all(&mut bytes, &tb);
            crate::fmt::push_all(&mut bytes, glyphs);
            proof {
                assert(bytes@ =~= spec_cmd_bytes(cmd_view(*cmd)));
            }
        },
        DviCmd::NativeGlyphs { glyphs } => {
            bytes.push(253);
            crate::fmt::push_all(&mut bytes, glyphs);
            proof {
                assert(bytes@ =~= spec_cmd_bytes(cmd_view(*cmd)));
            }
        },
        DviCmd::Special { payload } => {
            if payload.len() < 256 {
                bytes.push(239);
                bytes.push(payload.len() as u8);
            } else {
                bytes.push(242);
                push_four(&mut bytes, payload.len() as i32);
            }
            crate::fmt::push_all(&mut bytes, payload);
            proof {
                assert(bytes@ =~= spec_cmd_bytes(cmd_view(*cmd)));
            }
        },
        _ => {
            proof {
                assert(false);
            }
        },
    }
    bytes
}

/// Emit one abstract command.
#[verifier::spinoff_prover]
pub fn emit_one(dev: &mut DevState, fonts: &Vec<FontDef>, cmd: &DviCmd) -> (r: Result<(), Fatal>)
    requires
        old(dev).wf(fonts@.len() as int),
        fonts_wf(fonts@),
        cmdv_wf(cmd_view(*cmd), fonts@.len() as int),
    ensures
        final(dev).wf(fonts@.len() as int),
        final(dev).view_spec().drained == old(dev).view_spec().drained,
        ({
            let step = spec_emit_cmd(old(dev).view_spec(), fonts@, cmd_view(*cmd));
            &&& (r is Err <==> step.err is Some)
            &&& (r matches Err(e) ==> step.err == Some(e))
            &&& (r is Ok ==> final(dev).view_spec() == step.dev)
        }),
{
    let ghost nf = fonts@.len() as int;
    match cmd {
        DviCmd::Right(w) => emit_right(dev, *w, Ghost(nf)),
        DviCmd::Down(w) => emit_down(dev, *w, Ghost(nf)),
        DviCmd::BoxOpen { push } => emit_box_open(dev, *push, Ghost(nf)),
        DviCmd::BoxClose { push } => emit_box_close(dev, *push, Ghost(nf)),
        DviCmd::Font(f) => emit_font(dev, fonts, *f),
        DviCmd::SetRule { height, width } => {
            if *height < -0x8000_0000 || *height > 0x7FFF_FFFF || *width < -0x8000_0000 || *width
                > 0x7FFF_FFFF {
                Err(Fatal::DviOperand)
            } else {
                let bytes = build_cmd_bytes(cmd);
                dev.append(&bytes, Ghost(nf))
            }
        },
        DviCmd::PutRule { height, width } => {
            if *height < -0x8000_0000 || *height > 0x7FFF_FFFF || *width < -0x8000_0000 || *width
                > 0x7FFF_FFFF {
                Err(Fatal::DviOperand)
            } else {
                let bytes = build_cmd_bytes(cmd);
                dev.append(&bytes, Ghost(nf))
            }
        },
        _ => {
            let bytes = build_cmd_bytes(cmd);
            dev.append(&bytes, Ghost(nf))
        },
    }
}

/// Emit a command list in order, stopping at the first fatal condition.
pub fn emit_cmds(dev: &mut DevState, fonts: &Vec<FontDef>, cmds: &Vec<DviCmd>) -> (r: Result<
    (),
    Fatal,
>)
    requires
        old(dev).wf(fonts@.len() as int),
        fonts_wf(fonts@),
        cmdvs_wf(cmds_view(cmds@), fonts@.len() as int),
    ensures
        final(dev).wf(fonts@.len() as int),
        final(dev).view_spec().drained == old(dev).view_spec().drained,
        ({
            let step = spec_emit_from(old(dev).view_spec(), fonts@, cmds_view(cmds@), 0);
            &&& (r is Err <==> step.err is Some)
            &&& (r matches Err(e) ==> step.err == Some(e))
            &&& (r is Ok ==> final(dev).view_spec() == step.dev)
        }),
{
    let ghost dev0 = dev.view_spec();
    let ghost cv = cmds_view(cmds@);
    proof {
        crate::cmds::lemma_cmds_view_len(cmds@);
    }
    let mut i: usize = 0;
    while i < cmds.len()
        invariant
            i <= cmds@.len(),
            dev.wf(fonts@.len() as int),
            fonts_wf(fonts@),
            cv == cmds_view(cmds@),
            cv.len() == cmds@.len(),
            cmdvs_wf(cv, fonts@.len() as int),
            dev0 == old(dev).view_spec(),
            dev.view_spec().drained == dev0.drained,
            spec_emit_from(dev0, fonts@, cv, 0) == spec_emit_from(
                dev.view_spec(),
                fonts@,
                cv,
                i as int,
            ),
        decreases cmds@.len() - i,
    {
        proof {
            lemma_cmds_view_index(cmds@, i as int);
            assert(cmdv_wf(cv[i as int], fonts@.len() as int));
        }
        let res = emit_one(dev, fonts, &cmds[i]);
        match res {
            Ok(()) => {},
            Err(e) => {
                return Err(e);
            },
        }
        i = i + 1;
    }
    Ok(())
}

} // verus!

