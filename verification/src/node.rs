//! The node model: a typed tree of layout primitives replacing the classic
//! engine's untyped memory words, with its well-formedness conditions, the
//! structural measure that bounds traversal, and the font table interface.

use vstd::prelude::*;
use crate::consts::{GlueOrder, GlueSign, LR, LRMode};
use crate::glue::{GlueRatio, GlueSpec};

verus! {

/// Glue subtype: ordinary glue or one of the three leader flavours.
#[derive(Clone, Copy, Debug, PartialEq, Eq, Structural)]
pub enum GlueKind {
    Normal,
    ALeaders,
    CLeaders,
    XLeaders,
}

/// A horizontal or vertical box: extents, glue-set state, direction mode and
/// its content list.  For vertical boxes the `lr_mode` field reuses
/// `Reversed` to flag an upwards-growing list, as the classic engine does.
pub struct ListBox {
    pub width: i32,
    pub height: i32,
    pub depth: i32,
    pub shift: i32,
    pub glue_sign: GlueSign,
    pub glue_order: GlueOrder,
    pub glue_set: GlueRatio,
    pub lr_mode: LRMode,
    pub vertical: bool,
    pub list: Vec<Node>,
}

/// Extension nodes.  Each carries plain values only: token lists are already
/// expanded to text, and platform-shaped glyph runs arrive as the encoded
/// byte array the device format embeds verbatim.
pub enum WhatsIt {
    /// Open an auxiliary write stream; an empty extension defaults outside.
    Open { id: i32, name: Vec<u8>, area: Vec<u8>, ext: Vec<u8> },
    /// Write expanded text to an auxiliary stream.
    Write { stream: i32, text: Vec<u16> },
    /// Close an auxiliary write stream.
    Close { id: i32 },
    /// A special command: an opaque payload embedded in the byte stream.
    Special { text: Vec<u8> },
    /// A language switch; invisible to the device stream.
    Language { lang: i32 },
    /// A run of text shaped by the platform font engine.
    NativeWord {
        font: usize,
        width: i32,
        height: i32,
        depth: i32,
        text: Vec<u16>,
        glyph_data: Vec<u8>,
        actual_text: bool,
    },
    /// A single positioned glyph.
    Glyph { font: usize, width: i32, height: i32, depth: i32, glyph: u16 },
    /// An embedded picture or PDF page with its transform matrix.
    Pic {
        width: i32,
        height: i32,
        depth: i32,
        m0: i32,
        m1: i32,
        m2: i32,
        m3: i32,
        m4: i32,
        m5: i32,
        page: u16,
        pagebox: u16,
        path: Vec<u8>,
        is_pdf: bool,
    },
    /// Record the current page position for later retrieval.
    PdfSavePos,
    /// An extension subtype this engine does not know; emitting it is a
    /// fatal consistency error.
    Other { subtype: u16 },
}

/// One layout primitive.  Lists are plain vectors; the classic integer links
/// are gone and a freed node cannot be reinterpreted as another type.
pub enum Node {
    /// A character to set in a font.
    Char { font: usize, character: u16 },
    /// A nested horizontal or vertical box.
    List(ListBox),
    /// A solid rule; `NULL_FLAG` dimensions run to the enclosing box.
    Rule { width: i32, height: i32, depth: i32 },
    /// Flexible space, possibly tiling a leader box across its width.
    Glue { glue: GlueSpec, kind: GlueKind, leader: Option<Box<Node>> },
    /// A fixed advance.
    Kern { width: i32 },
    /// A margin adjustment advance.
    MarginKern { width: i32 },
    /// A math on/off or direction marker; the subtype's low bit
    /// distinguishes "begin" from "end".
    Math { width: i32, subtype: u16 },
    /// A ligature, emitted as its single-character representation.
    Ligature { font: usize, character: u16 },
    /// A mixed-direction boundary created by list reversal; wider fields
    /// because reversal stores accumulated distances here.
    Edge { width: i64, edge_dist: i64, dir: LR },
    /// A penalty; invisible to emission, and stands here for the other
    /// list-machinery nodes the emitters skip.
    Penalty { penalty: i32 },
    /// An extension node.
    WhatsIt(WhatsIt),
}


/// The mathematical view of an extension node.
pub ghost enum WhatsItV {
    Open { id: int, name: Seq<u8>, area: Seq<u8>, ext: Seq<u8> },
    Write { stream: int, text: Seq<u16> },
    Close { id: int },
    Special { text: Seq<u8> },
    Language { lang: int },
    NativeWord {
        font: int,
        width: int,
        height: int,
        depth: int,
        text: Seq<u16>,
        glyph_data: Seq<u8>,
        actual_text: bool,
    },
    Glyph { font: int, width: int, height: int, depth: int, glyph: u16 },
    Pic {
        width: int,
        height: int,
        depth: int,
        m0: int,
        m1: int,
        m2: int,
        m3: int,
        m4: int,
        m5: int,
        page: u16,
        pagebox: u16,
        path: Seq<u8>,
        is_pdf: bool,
    },
    PdfSavePos,
    Other { subtype: u16 },
}

/// The mathematical view of a box.
pub ghost struct ListBoxV {
    pub width: int,
    pub height: int,
    pub depth: int,
    pub shift: int,
    pub glue_sign: GlueSign,
    pub glue_order: GlueOrder,
    pub glue_set: int,
    pub lr_mode: LRMode,
    pub vertical: bool,
    pub list: Seq<NodeV>,
}

/// The mathematical view of a node: plain values and sequences only, so
/// that structurally equal trees are equal values.
pub ghost enum NodeV {
    Char { font: int, character: u16 },
    List(ListBoxV),
    Rule { width: int, height: int, depth: int },
    Glue { glue: GlueSpec, kind: GlueKind, leader: Option<Box<NodeV>> },
    Kern { width: int },
    MarginKern { width: int },
    Math { width: int, subtype: u16 },
    Ligature { font: int, character: u16 },
    Edge { width: int, edge_dist: int, dir: LR },
    Penalty { penalty: int },
    WhatsIt(WhatsItV),
}

pub open spec fn whatsit_view(w: WhatsIt) -> WhatsItV {
    match w {
        WhatsIt::Open { id, name, area, ext } => WhatsItV::Open {
            id: id as int,
            name: name@,
            area: area@,
            ext: ext@,
        },
        WhatsIt::Write { stream, text } => WhatsItV::Write { stream: stream as int, text: text@ },
        WhatsIt::Close { id } => WhatsItV::Close { id: id as int },
        WhatsIt::Special { text } => WhatsItV::Special { text: text@ },
        WhatsIt::Language { lang } => WhatsItV::Language { lang: lang as int },
        WhatsIt::NativeWord { font, width, height, depth, text, glyph_data, actual_text } => WhatsItV::NativeWord {
            font: font as int,
            width: width as int,
            height: height as int,
            depth: depth as int,
            text: text@,
            glyph_data: glyph_data@,
            actual_text,
        },
        WhatsIt::Glyph { font, width, height, depth, glyph } => WhatsItV::Glyph {
            font: font as int,
            width: width as int,
            height: height as int,
            depth: depth as int,
            glyph,
        },
        WhatsIt::Pic { width, height, depth, m0, m1, m2, m3, m4, m5, page, pagebox, path, is_pdf } => WhatsItV::Pic {
            width: width as int,
            height: height as int,
            depth: depth as int,
            m0: m0 as int,
            m1: m1 as int,
            m2: m2 as int,
            m3: m3 as int,
            m4: m4 as int,
            m5: m5 as int,
            page,
            pagebox,
            path: path@,
            is_pdf,
        },
        WhatsIt::PdfSavePos => WhatsItV::PdfSavePos,
        WhatsIt::Other { subtype } => WhatsItV::Other { subtype },
    }
}

pub open spec fn node_view(n: Node) -> NodeV
    decreases n,
{
    match n {
        Node::Char { font, character } => NodeV::Char { font: font as int, character },
        Node::List(b) => NodeV::List(
            ListBoxV {
                width: b.width as int,
                height: b.height as int,
                depth: b.depth as int,
                shift: b.shift as int,
                glue_sign: b.glue_sign,
                glue_order: b.glue_order,
                glue_set: b.glue_set.num as int,
                lr_mode: b.lr_mode,
                vertical: b.vertical,
                list: list_view(b.list@),
            },
        ),
        Node::Rule { width, height, depth } => NodeV::Rule {
            width: width as int,
            height: height as int,
            depth: depth as int,
        },
        Node::Glue { glue, kind, leader } => NodeV::Glue {
            glue,
            kind,
            leader: match leader {
                Option::Some(b) => Option::Some(Box::new(node_view(*b))),
                Option::None => Option::None,
            },
        },
        Node::Kern { width } => NodeV::Kern { width: width as int },
        Node::MarginKern { width } => NodeV::MarginKern { width: width as int },
        Node::Math { width, subtype } => NodeV::Math { width: width as int, subtype },
        Node::Ligature { font, character } => NodeV::Ligature { font: font as int, character },
        Node::Edge { width, edge_dist, dir } => NodeV::Edge {
            width: width as int,
            edge_dist: edge_dist as int,
            dir,
        },
        Node::Penalty { penalty } => NodeV::Penalty { penalty: penalty as int },
        Node::WhatsIt(w) => NodeV::WhatsIt(whatsit_view(w)),
    }
}

pub open spec fn list_view(s: Seq<Node>) -> Seq<NodeV>
    decreases s,
{
    if s.len() == 0 {
        Seq::empty()
    } else {
        list_view(s.drop_last()).push(node_view(s.last()))
    }
}

pub proof fn lemma_list_view_len(s: Seq<Node>)
    ensures
        list_view(s).len() == s.len(),
    decreases s,
{
    if s.len() > 0 {
        lemma_list_view_len(s.drop_last());
    }
}

pub proof fn lemma_list_view_index(s: Seq<Node>, i: int)
    requires
        0 <= i < s.len(),
    ensures
        list_view(s).len() == s.len(),
        list_view(s)[i] == node_view(s[i]),
    decreases s,
{
    lemma_list_view_len(s);
    if i == s.len() - 1 {
    } else {
        lemma_list_view_index(s.drop_last(), i);
        assert(s.drop_last()[i] == s[i]);
    }
}

pub proof fn lemma_list_view_push(s: Seq<Node>, n: Node)
    ensures
        list_view(s.push(n)) == list_view(s).push(node_view(n)),
{
    assert(s.push(n).drop_last() =~= s);
    assert(s.push(n).last() == n);
}

/// The structural measure of a node: every traversal step of the emission
/// engine strictly decreases the remaining measure, including through the
/// rebuilt lists that mixed-direction reversal produces.
pub open spec fn node_weight(n: Node) -> nat
    decreases n,
{
    match n {
        Node::Char { .. } => 1,
        Node::List(b) => 3 + list_weight(b.list@),
        Node::Rule { .. } => 1,
        Node::Glue { leader, .. } => match leader {
            Option::None => 2,
            Option::Some(ld) => 3 + node_weight(*ld),
        },
        Node::Kern { .. } => 1,
        Node::MarginKern { .. } => 1,
        Node::Math { .. } => 3,
        Node::Ligature { .. } => 2,
        Node::Edge { .. } => 1,
        Node::Penalty { .. } => 1,
        Node::WhatsIt(_) => 1,
    }
}

pub open spec fn list_weight(s: Seq<Node>) -> nat
    decreases s,
{
    if s.len() == 0 {
        0
    } else {
        node_weight(s[0]) + list_weight(s.subrange(1, s.len() as int))
    }
}

/// The measure of the tail of a list from position `i` on.
pub open spec fn list_weight_from(s: Seq<Node>, i: int) -> nat {
    list_weight(s.subrange(i, s.len() as int))
}

pub proof fn lemma_list_weight_push(s: Seq<Node>, n: Node)
    ensures
        list_weight(s.push(n)) == list_weight(s) + node_weight(n),
    decreases s,
{
    if s.len() == 0 {
        assert(s.push(n)[0] == n);
        assert(s.push(n).subrange(1, 1) =~= Seq::<Node>::empty());
        assert(list_weight(Seq::<Node>::empty()) == 0);
        assert(list_weight(s.push(n)) == node_weight(n) + list_weight(s.push(n).subrange(1, 1)));
        assert(list_weight(s) == 0);
    } else {
        assert(s.push(n)[0] == s[0]);
        assert(s.push(n).subrange(1, s.len() as int + 1) =~= s.subrange(1, s.len() as int).push(
            n,
        ));
        lemma_list_weight_push(s.subrange(1, s.len() as int), n);
        assert(list_weight(s.push(n)) == node_weight(s[0]) + list_weight(
            s.subrange(1, s.len() as int).push(n),
        ));
    }
}

pub proof fn lemma_list_weight_split(s: Seq<Node>, i: int)
    requires
        0 <= i < s.len(),
    ensures
        list_weight_from(s, i) == node_weight(s[i]) + list_weight_from(s, i + 1),
    decreases s.len() - i,
{
    let tail = s.subrange(i, s.len() as int);
    assert(tail[0] == s[i]);
    assert(tail.subrange(1, tail.len() as int) =~= s.subrange(i + 1, s.len() as int));
}

/// Dimensions the engine accepts: the classic halfword range, which also
/// admits the "running dimension" sentinel.
pub open spec fn dim_ok(d: int) -> bool {
    -0x4000_0000 <= d <= 0x3FFF_FFFF
}

/// Well-formedness of a node against a font table of `nf` entries.
pub open spec fn node_wf(n: Node, nf: int) -> bool
    decreases n,
{
    match n {
        Node::Char { font, .. } => 1 <= font < nf,
        Node::List(b) => {
            &&& dim_ok(b.width as int)
            &&& dim_ok(b.height as int)
            &&& dim_ok(b.depth as int)
            &&& dim_ok(b.shift as int)
            &&& list_wf(b.list@, nf)
        },
        Node::Rule { width, height, depth } => {
            dim_ok(width as int) && dim_ok(height as int) && dim_ok(depth as int)
        },
        Node::Glue { glue, kind, leader } => {
            &&& dim_ok(glue.width as int)
            &&& match leader {
                Option::None => kind == GlueKind::Normal,
                Option::Some(ld) => {
                    &&& kind != GlueKind::Normal
                    &&& node_wf(*ld, nf)
                    &&& (is_list(*ld) || is_rule(*ld))
                },
            }
        },
        Node::Kern { width } => dim_ok(width as int),
        Node::MarginKern { width } => dim_ok(width as int),
        Node::Math { width, subtype } => dim_ok(width as int) && subtype < 0xFF00,
        Node::Ligature { font, .. } => 1 <= font < nf,
        Node::Edge { width, edge_dist, .. } => {
            -0x2000_0000_0000_0000 <= width <= 0x2000_0000_0000_0000
                && -0x2000_0000_0000_0000 <= edge_dist <= 0x2000_0000_0000_0000
        },
        Node::Penalty { .. } => true,
        Node::WhatsIt(w) => match w {
            WhatsIt::Open { .. } => true,
            WhatsIt::Write { .. } => true,
            WhatsIt::Close { .. } => true,
            WhatsIt::Special { .. } => true,
            WhatsIt::Language { .. } => true,
            WhatsIt::NativeWord { font, width, height, depth, text, .. } => {
                &&& 1 <= font < nf
                &&& dim_ok(width as int)
                &&& dim_ok(height as int)
                &&& dim_ok(depth as int)
                &&& text@.len() <= 0xFFFF
            },
            WhatsIt::Glyph { font, width, height, depth, .. } => {
                1 <= font < nf && dim_ok(width as int) && dim_ok(height as int) && dim_ok(
                    depth as int,
                )
            },
            WhatsIt::Pic { width, height, depth, m0, m1, m2, m3, m4, m5, .. } => {
                &&& dim_ok(width as int)
                &&& dim_ok(height as int)
                &&& dim_ok(depth as int)
                &&& m0 > i32::MIN
                &&& m1 > i32::MIN
                &&& m2 > i32::MIN
                &&& m3 > i32::MIN
                &&& m4 > i32::MIN
                &&& m5 > i32::MIN
            },
            WhatsIt::PdfSavePos => true,
            WhatsIt::Other { .. } => true,
        },
    }
}

pub open spec fn is_list(n: Node) -> bool {
    match n {
        Node::List(_) => true,
        _ => false,
    }
}

pub open spec fn is_rule(n: Node) -> bool {
    match n {
        Node::Rule { .. } => true,
        _ => false,
    }
}

pub open spec fn list_wf(s: Seq<Node>, nf: int) -> bool
    decreases s,
{
    forall|i: int| 0 <= i < s.len() ==> node_wf(#[trigger] s[i], nf)
}

/// A font known to the device writer.  The width table covers character
/// codes `bc..=ec`; `native` carries the platform font-description payload
/// already encoded by the font subsystem, where one exists.
pub struct FontDef {
    pub chk0: u8,
    pub chk1: u8,
    pub chk2: u8,
    pub chk3: u8,
    pub size: i32,
    pub dsize: i32,
    pub area: Vec<u8>,
    pub name: Vec<u8>,
    pub native: Option<Vec<u8>>,
    pub bc: u16,
    pub ec: u16,
    pub widths: Vec<i32>,
    pub exists: Vec<bool>,
}

pub open spec fn font_wf(f: FontDef) -> bool {
    &&& f.area@.len() <= 255
    &&& f.name@.len() <= 255
    &&& f.widths@.len() == f.exists@.len()
    &&& f.widths@.len() == if f.bc <= f.ec {
        f.ec - f.bc + 1
    } else {
        0
    }
    &&& forall|i: int| 0 <= i < f.widths@.len() ==> dim_ok(#[trigger] f.widths@[i] as int)
}

/// The font table: entry 0 is unused (the null font), real fonts are
/// numbered from 1 and must fit the two-byte selection encoding.
pub open spec fn fonts_wf(fonts: Seq<FontDef>) -> bool {
    &&& 1 <= fonts.len() <= 65537
    &&& forall|i: int| 0 <= i < fonts.len() ==> font_wf(#[trigger] fonts[i])
}

/// The width a character contributes, or zero where the font has no such
/// character.
pub open spec fn spec_char_width(f: FontDef, c: u16) -> int {
    if f.bc <= c <= f.ec && f.exists@[c - f.bc] {
        f.widths@[c - f.bc] as int
    } else {
        0
    }
}

pub open spec fn spec_char_exists(f: FontDef, c: u16) -> bool {
    f.bc <= c <= f.ec && f.exists@[c - f.bc]
}

pub fn char_exists(f: &FontDef, c: u16) -> (r: bool)
    requires
        font_wf(*f),
    ensures
        r == spec_char_exists(*f, c),
{
    f.bc <= c && c <= f.ec && f.exists[(c - f.bc) as usize]
}

pub fn char_width(f: &FontDef, c: u16) -> (r: i32)
    requires
        font_wf(*f),
    ensures
        r as int == spec_char_width(*f, c),
        dim_ok(r as int),
{
    if f.bc <= c && c <= f.ec && f.exists[(c - f.bc) as usize] {
        f.widths[(c - f.bc) as usize]
    } else {
        0
    }
}


/// Copy a byte vector.
pub fn copy_u8s(v: &Vec<u8>) -> (r: Vec<u8>)
    ensures
        r@ == v@,
{
    let mut r: Vec<u8> = Vec::new();
    let mut i: usize = 0;
    while i < v.len()
        invariant
            i <= v@.len(),
            r@ == v@.subrange(0, i as int),
        decreases v@.len() - i,
    {
        r.push(v[i]);
        proof {
            assert(r@ =~= v@.subrange(0, i + 1));
        }
        i = i + 1;
    }
    proof {
        assert(r@ =~= v@);
    }
    r
}

/// Copy a code-unit vector.
pub fn copy_u16s(v: &Vec<u16>) -> (r: Vec<u16>)
    ensures
        r@ == v@,
{
    let mut r: Vec<u16> = Vec::new();
    let mut i: usize = 0;
    while i < v.len()
        invariant
            i <= v@.len(),
            r@ == v@.subrange(0, i as int),
        decreases v@.len() - i,
    {
        r.push(v[i]);
        proof {
            assert(r@ =~= v@.subrange(0, i + 1));
        }
        i = i + 1;
    }
    proof {
        assert(r@ =~= v@);
    }
    r
}

/// Structural copy of a node tree.
pub fn deep_clone(n: &Node) -> (r: Node)
    ensures
        node_view(r) == node_view(*n),
    decreases node_weight(*n),
{
    match n {
        Node::Char { font, character } => Node::Char { font: *font, character: *character },
        Node::List(b) => {
            proof {
                assert(node_weight(*n) == 3 + list_weight(b.list@));
            }
            let list = deep_clone_list(&b.list, Ghost(list_weight(b.list@) + 1));
            Node::List(
                ListBox {
                    width: b.width,
                    height: b.height,
                    depth: b.depth,
                    shift: b.shift,
                    glue_sign: b.glue_sign,
                    glue_order: b.glue_order,
                    glue_set: b.glue_set,
                    lr_mode: b.lr_mode,
                    vertical: b.vertical,
                    list,
                },
            )
        },
        Node::Rule { width, height, depth } => Node::Rule {
            width: *width,
            height: *height,
            depth: *depth,
        },
        Node::Glue { glue, kind, leader } => {
            let ld: Option<Box<Node>> = match leader {
                Option::Some(b) => {
                    proof {
                        assert(node_weight(*n) == 3 + node_weight(**b) || node_weight(*n) == 4
                            + node_weight(**b));
                    }
                    Option::Some(Box::new(deep_clone(&**b)))
                },
                Option::None => Option::None,
            };
            Node::Glue { glue: *glue, kind: *kind, leader: ld }
        },
        Node::Kern { width } => Node::Kern { width: *width },
        Node::MarginKern { width } => Node::MarginKern { width: *width },
        Node::Math { width, subtype } => Node::Math { width: *width, subtype: *subtype },
        Node::Ligature { font, character } => Node::Ligature {
            font: *font,
            character: *character,
        },
        Node::Edge { width, edge_dist, dir } => Node::Edge {
            width: *width,
            edge_dist: *edge_dist,
            dir: *dir,
        },
        Node::Penalty { penalty } => Node::Penalty { penalty: *penalty },
        Node::WhatsIt(w) => Node::WhatsIt(
            match w {
                WhatsIt::Open { id, name, area, ext } => WhatsIt::Open {
                    id: *id,
                    name: copy_u8s(name),
                    area: copy_u8s(area),
                    ext: copy_u8s(ext),
                },
                WhatsIt::Write { stream, text } => WhatsIt::Write {
                    stream: *stream,
                    text: copy_u16s(text),
                },
                WhatsIt::Close { id } => WhatsIt::Close { id: *id },
                WhatsIt::Special { text } => WhatsIt::Special { text: copy_u8s(text) },
                WhatsIt::Language { lang } => WhatsIt::Language { lang: *lang },
                WhatsIt::NativeWord { font, width, height, depth, text, glyph_data, actual_text } => WhatsIt::NativeWord {
                    font: *font,
                    width: *width,
                    height: *height,
                    depth: *depth,
                    text: copy_u16s(text),
                    glyph_data: copy_u8s(glyph_data),
                    actual_text: *actual_text,
                },
                WhatsIt::Glyph { font, width, height, depth, glyph } => WhatsIt::Glyph {
                    font: *font,
                    width: *width,
                    height: *height,
                    depth: *depth,
                    glyph: *glyph,
                },
                WhatsIt::Pic {
                    width,
                    height,
                    depth,
                    m0,
                    m1,
                    m2,
                    m3,
                    m4,
                    m5,
                    page,
                    pagebox,
                    path,
                    is_pdf,
                } => WhatsIt::Pic {
                    width: *width,
                    height: *height,
                    depth: *depth,
                    m0: *m0,
                    m1: *m1,
                    m2: *m2,
                    m3: *m3,
                    m4: *m4,
                    m5: *m5,
                    page: *page,
                    pagebox: *pagebox,
                    path: copy_u8s(path),
                    is_pdf: *is_pdf,
                },
                WhatsIt::PdfSavePos => WhatsIt::PdfSavePos,
                WhatsIt::Other { subtype } => WhatsIt::Other { subtype: *subtype },
            },
        ),
    }
}

/// Structural copy of a node list.
pub fn deep_clone_list(v: &Vec<Node>, Ghost(m): Ghost<nat>) -> (r: Vec<Node>)
    requires
        m == list_weight(v@) + 1,
    ensures
        list_view(r@) == list_view(v@),
    decreases m,
{
    let mut r: Vec<Node> = Vec::new();
    let mut i: usize = 0;
    while i < v.len()
        invariant
            i <= v@.len(),
            m == list_weight(v@) + 1,
            list_view(r@) == list_view(v@.subrange(0, i as int)),
        decreases v@.len() - i,
    {
        proof {
            lemma_list_weight_split(v@, i as int);
            lemma_weight_from_le(v@, i as int);
            assert(node_weight(v@[i as int]) <= list_weight(v@));
        }
        let c = deep_clone(&v[i]);
        proof {
            lemma_list_view_push(v@.subrange(0, i as int), v@[i as int]);
            assert(v@.subrange(0, i as int).push(v@[i as int]) =~= v@.subrange(0, i + 1));
        }
        let ghost rpre = r@;
        r.push(c);
        proof {
            lemma_list_view_push(rpre, c);
        }
        i = i + 1;
    }
    proof {
        assert(v@.subrange(0, v@.len() as int) =~= v@);
    }
    r
}

/// The measure of a tail never exceeds the whole list's.
pub proof fn lemma_weight_from_le(s: Seq<Node>, i: int)
    requires
        0 <= i <= s.len(),
    ensures
        list_weight_from(s, i) <= list_weight(s),
    decreases i,
{
    if i > 0 {
        lemma_weight_from_le(s, i - 1);
        lemma_list_weight_split(s, i - 1);
    } else {
        assert(s.subrange(0, s.len() as int) =~= s);
    }
}

} // verus!

