//! The abstract device commands the layout pass produces and the emission
//! pass encodes, and the side-effect requests that go around the byte
//! stream (auxiliary stream opens, writes and closes).

use vstd::prelude::*;

verus! {

/// One abstract device command, in emission order.  Cursor moves carry the
/// signed distance; box entry and exit carry whether a push/pop pair
/// surrounds the box (the outermost box of a page has none).
pub enum DviCmd {
    /// Move right by a distance (possibly collapsed by the optimizer).
    Right(i64),
    /// Move down by a distance.
    Down(i64),
    /// Enter a box: remember the spot, and push the device cursor unless
    /// this is the outermost box.
    BoxOpen { push: bool },
    /// Leave a box: prune pending moves and close the push, cancelling an
    /// empty push/pop pair outright.
    BoxClose { push: bool },
    /// Select a font, defining it in the stream on first use.
    Font(usize),
    /// Set a character and advance.
    Char(u16),
    /// Set a rule of the given height and width.
    SetRule { height: i64, width: i64 },
    /// Put a rule without advancing.
    PutRule { height: i64, width: i64 },
    /// Set a single native glyph.
    Glyph { width: i32, glyph: u16 },
    /// Set a shaped text run with its original code units.
    NativeText { text: Vec<u16>, glyphs: Vec<u8> },
    /// Set a shaped glyph run.
    NativeGlyphs { glyphs: Vec<u8> },
    /// Embed a special command payload.
    Special { payload: Vec<u8> },
}

/// Commands the layout pass may hand to emission, against a font table of
/// `nf` entries.
pub open spec fn cmd_wf(cmd: DviCmd, nf: int) -> bool {
    match cmd {
        DviCmd::Font(f) => 1 <= f < nf,
        DviCmd::Char(_) => true,
        DviCmd::NativeText { text, glyphs } => text@.len() <= 0xFFFF && glyphs@.len()
            <= 0x7FFF_FFFF,
        DviCmd::NativeGlyphs { glyphs } => glyphs@.len() <= 0x7FFF_FFFF,
        DviCmd::Special { payload } => payload@.len() <= 0x7FFF_FFFF,
        _ => true,
    }
}

pub open spec fn cmds_wf(cmds: Seq<DviCmd>, nf: int) -> bool {
    forall|i: int| 0 <= i < cmds.len() ==> cmd_wf(#[trigger] cmds[i], nf)
}

/// A side effect the engine asks its surroundings to perform while a page
/// ships out.  The texts are already expanded to plain values.
pub enum Action {
    /// Open the auxiliary output stream `id` under the given name.
    Open { id: i32, name: Vec<u8>, area: Vec<u8>, ext: Vec<u8> },
    /// Write expanded text to an auxiliary stream (or the terminal/log when
    /// the stream is not open).
    Write { stream: i32, text: Vec<u16> },
    /// Close an auxiliary stream.
    Close { id: i32 },
    /// Tell the synchronization collaborator that a contentless box passed:
    /// it moves the cursor but emits nothing.
    VoidBox { vertical: bool },
}


/// The mathematical view of a device command.
pub ghost enum CmdV {
    Right(int),
    Down(int),
    BoxOpen { push: bool },
    BoxClose { push: bool },
    Font(int),
    Char(u16),
    SetRule { height: int, width: int },
    PutRule { height: int, width: int },
    Glyph { width: i32, glyph: u16 },
    NativeText { text: Seq<u16>, glyphs: Seq<u8> },
    NativeGlyphs { glyphs: Seq<u8> },
    Special { payload: Seq<u8> },
}

pub open spec fn cmd_view(c: DviCmd) -> CmdV {
    match c {
        DviCmd::Right(w) => CmdV::Right(w as int),
        DviCmd::Down(w) => CmdV::Down(w as int),
        DviCmd::BoxOpen { push } => CmdV::BoxOpen { push },
        DviCmd::BoxClose { push } => CmdV::BoxClose { push },
        DviCmd::Font(f) => CmdV::Font(f as int),
        DviCmd::Char(c) => CmdV::Char(c),
        DviCmd::SetRule { height, width } => CmdV::SetRule {
            height: height as int,
            width: width as int,
        },
        DviCmd::PutRule { height, width } => CmdV::PutRule {
            height: height as int,
            width: width as int,
        },
        DviCmd::Glyph { width, glyph } => CmdV::Glyph { width, glyph },
        DviCmd::NativeText { text, glyphs } => CmdV::NativeText { text: text@, glyphs: glyphs@ },
        DviCmd::NativeGlyphs { glyphs } => CmdV::NativeGlyphs { glyphs: glyphs@ },
        DviCmd::Special { payload } => CmdV::Special { payload: payload@ },
    }
}

pub open spec fn cmds_view(s: Seq<DviCmd>) -> Seq<CmdV>
    decreases s,
{
    if s.len() == 0 {
        Seq::empty()
    } else {
        cmds_view(s.drop_last()).push(cmd_view(s.last()))
    }
}

pub proof fn lemma_cmds_view_len(s: Seq<DviCmd>)
    ensures
        cmds_view(s).len() == s.len(),
    decreases s,
{
    if s.len() > 0 {
        lemma_cmds_view_len(s.drop_last());
    }
}

pub proof fn lemma_cmds_view_index(s: Seq<DviCmd>, i: int)
    requires
        0 <= i < s.len(),
    ensures
        cmds_view(s).len() == s.len(),
        cmds_view(s)[i] == cmd_view(s[i]),
    decreases s,
{
    lemma_cmds_view_len(s);
    if i == s.len() - 1 {
    } else {
        lemma_cmds_view_index(s.drop_last(), i);
        assert(s.drop_last()[i] == s[i]);
    }
}

pub proof fn lemma_cmds_view_push(s: Seq<DviCmd>, c: DviCmd)
    ensures
        cmds_view(s.push(c)) == cmds_view(s).push(cmd_view(c)),
{
    assert(s.push(c).drop_last() =~= s);
    assert(s.push(c).last() == c);
}

/// The mathematical view of a side-effect request.
pub ghost enum ActV {
    Open { id: int, name: Seq<u8>, area: Seq<u8>, ext: Seq<u8> },
    Write { stream: int, text: Seq<u16> },
    Close { id: int },
    VoidBox { vertical: bool },
}

pub open spec fn act_view(a: Action) -> ActV {
    match a {
        Action::Open { id, name, area, ext } => ActV::Open {
            id: id as int,
            name: name@,
            area: area@,
            ext: ext@,
        },
        Action::Write { stream, text } => ActV::Write { stream: stream as int, text: text@ },
        Action::Close { id } => ActV::Close { id: id as int },
        Action::VoidBox { vertical } => ActV::VoidBox { vertical },
    }
}

pub open spec fn acts_view(s: Seq<Action>) -> Seq<ActV>
    decreases s,
{
    if s.len() == 0 {
        Seq::empty()
    } else {
        acts_view(s.drop_last()).push(act_view(s.last()))
    }
}

pub proof fn lemma_acts_view_push(s: Seq<Action>, a: Action)
    ensures
        acts_view(s.push(a)) == acts_view(s).push(act_view(a)),
{
    assert(s.push(a).drop_last() =~= s);
    assert(s.push(a).last() == a);
}

pub proof fn lemma_acts_view_len(s: Seq<Action>)
    ensures
        acts_view(s).len() == s.len(),
    decreases s,
{
    if s.len() > 0 {
        lemma_acts_view_len(s.drop_last());
    }
}

/// Well-formedness of a command view against a font table of `nf` entries.
pub open spec fn cmdv_wf(cmd: CmdV, nf: int) -> bool {
    match cmd {
        CmdV::Font(f) => 1 <= f < nf,
        CmdV::NativeText { text, glyphs } => text.len() <= 0xFFFF && glyphs.len() <= 0x7FFF_FFFF,
        CmdV::NativeGlyphs { glyphs } => glyphs.len() <= 0x7FFF_FFFF,
        CmdV::Special { payload } => payload.len() <= 0x7FFF_FFFF,
        _ => true,
    }
}

pub open spec fn cmdvs_wf(cmds: Seq<CmdV>, nf: int) -> bool {
    forall|i: int| 0 <= i < cmds.len() ==> cmdv_wf(#[trigger] cmds[i], nf)
}

} // verus!

