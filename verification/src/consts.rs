//! Basic constants and small enumerations shared by the layout core:
//! the classic engine's sentinel values, node/subtype codes, glue orders and
//! signs, text directions, and the device byte-stream opcodes.

use vstd::prelude::*;

verus! {

/// The classic engine's null "pointer" in its integer-linked memory.
pub const TEX_NULL: i32 = -0x0FFF_FFFF;
/// Largest dimension the engine accepts.
pub const MAX_HALFWORD: i32 = 0x3FFF_FFFF;
/// Sentinel marking a "running" rule dimension, resolved against the enclosing box.
pub const NULL_FLAG: i32 = -0x4000_0000;
/// Largest positive value the engine knows; also the output length limit.
pub const TEX_INFINITY: i32 = 0x7FFF_FFFF;

/// Sentinel test used throughout the classic engine for integer links.
pub trait IsTexNull {
    fn is_texnull(&self) -> (r: bool);
}

impl IsTexNull for i32 {
    fn is_texnull(&self) -> (r: bool)
        ensures
            r == (*self == TEX_NULL),
    {
        *self == TEX_NULL
    }
}

/// Codes of the classic text-mode node types.
#[derive(Clone, Copy, Debug, PartialEq, Eq, Structural)]
pub enum TextNode {
    HList,
    VList,
    Rule,
    Ins,
    Mark,
    Adjust,
    Ligature,
    Disc,
    WhatsIt,
    Math,
    Glue,
    Kern,
    Penalty,
    Unset,
    Style,
    Choice,
    MarginKern,
}

impl TextNode {
    /// The numeric type code the classic engine stores for this node type.
    pub fn code(self) -> (r: u16)
        ensures
            r == self.spec_code(),
    {
        match self {
            TextNode::HList => 0,
            TextNode::VList => 1,
            TextNode::Rule => 2,
            TextNode::Ins => 3,
            TextNode::Mark => 4,
            TextNode::Adjust => 5,
            TextNode::Ligature => 6,
            TextNode::Disc => 7,
            TextNode::WhatsIt => 8,
            TextNode::Math => 9,
            TextNode::Glue => 10,
            TextNode::Kern => 11,
            TextNode::Penalty => 12,
            TextNode::Unset => 13,
            TextNode::Style => 14,
            TextNode::Choice => 15,
            TextNode::MarginKern => 40,
        }
    }

    pub open spec fn spec_code(self) -> u16 {
        match self {
            TextNode::HList => 0,
            TextNode::VList => 1,
            TextNode::Rule => 2,
            TextNode::Ins => 3,
            TextNode::Mark => 4,
            TextNode::Adjust => 5,
            TextNode::Ligature => 6,
            TextNode::Disc => 7,
            TextNode::WhatsIt => 8,
            TextNode::Math => 9,
            TextNode::Glue => 10,
            TextNode::Kern => 11,
            TextNode::Penalty => 12,
            TextNode::Unset => 13,
            TextNode::Style => 14,
            TextNode::Choice => 15,
            TextNode::MarginKern => 40,
        }
    }
}

/// Codes of the math-mode noad types.
#[derive(Clone, Copy, Debug, PartialEq, Eq, Structural)]
pub enum MathNode {
    Ord,
    Op,
    Bin,
    Rel,
    Open,
    Close,
    Punct,
    Inner,
    Radical,
    Fraction,
    Under,
    Over,
    Accent,
    VCenter,
    Left,
    Right,
}

impl MathNode {
    pub fn code(self) -> (r: u16)
        ensures
            r == self.spec_code(),
    {
        match self {
            MathNode::Ord => 16,
            MathNode::Op => 17,
            MathNode::Bin => 18,
            MathNode::Rel => 19,
            MathNode::Open => 20,
            MathNode::Close => 21,
            MathNode::Punct => 22,
            MathNode::Inner => 23,
            MathNode::Radical => 24,
            MathNode::Fraction => 25,
            MathNode::Under => 26,
            MathNode::Over => 27,
            MathNode::Accent => 28,
            MathNode::VCenter => 29,
            MathNode::Left => 30,
            MathNode::Right => 31,
        }
    }

    pub open spec fn spec_code(self) -> u16 {
        match self {
            MathNode::Ord => 16,
            MathNode::Op => 17,
            MathNode::Bin => 18,
            MathNode::Rel => 19,
            MathNode::Open => 20,
            MathNode::Close => 21,
            MathNode::Punct => 22,
            MathNode::Inner => 23,
            MathNode::Radical => 24,
            MathNode::Fraction => 25,
            MathNode::Under => 26,
            MathNode::Over => 27,
            MathNode::Accent => 28,
            MathNode::VCenter => 29,
            MathNode::Left => 30,
            MathNode::Right => 31,
        }
    }
}

/// A node-type code: either a text node, a math noad, or an unknown raw code.
#[derive(Clone, Copy, Debug, PartialEq, Eq, Structural)]
pub enum ND {
    Text(TextNode),
    Math(MathNode),
    Unknown(u16),
}

impl ND {
    /// The raw numeric code of this node type.
    pub fn u16(self) -> (r: u16)
        ensures
            r == self.spec_u16(),
    {
        match self {
            ND::Text(n) => n.code(),
            ND::Math(n) => n.code(),
            ND::Unknown(n) => n,
        }
    }

    pub open spec fn spec_u16(self) -> u16 {
        match self {
            ND::Text(n) => n.spec_code(),
            ND::Math(n) => n.spec_code(),
            ND::Unknown(n) => n,
        }
    }

    /// Classify a raw node-type code, inverting `u16`: text codes and the
    /// margin-kern code become text nodes, the noad range becomes math
    /// nodes, and everything else is carried through unchanged.
    pub fn from_u16(n: u16) -> (r: ND)
        ensures
            r.spec_u16() == n,
            (n <= 15 || n == 40) ==> r is Text,
            (16 <= n <= 31) ==> r is Math,
            (n > 31 && n != 40) ==> r == ND::Unknown(n),
    {
        if n == 0 {
            ND::Text(TextNode::HList)
        } else if n == 1 {
            ND::Text(TextNode::VList)
        } else if n == 2 {
            ND::Text(TextNode::Rule)
        } else if n == 3 {
            ND::Text(TextNode::Ins)
        } else if n == 4 {
            ND::Text(TextNode::Mark)
        } else if n == 5 {
            ND::Text(TextNode::Adjust)
        } else if n == 6 {
            ND::Text(TextNode::Ligature)
        } else if n == 7 {
            ND::Text(TextNode::Disc)
        } else if n == 8 {
            ND::Text(TextNode::WhatsIt)
        } else if n == 9 {
            ND::Text(TextNode::Math)
        } else if n == 10 {
            ND::Text(TextNode::Glue)
        } else if n == 11 {
            ND::Text(TextNode::Kern)
        } else if n == 12 {
            ND::Text(TextNode::Penalty)
        } else if n == 13 {
            ND::Text(TextNode::Unset)
        } else if n == 14 {
            ND::Text(TextNode::Style)
        } else if n == 15 {
            ND::Text(TextNode::Choice)
        } else if n == 40 {
            ND::Text(TextNode::MarginKern)
        } else if n == 16 {
            ND::Math(MathNode::Ord)
        } else if n == 17 {
            ND::Math(MathNode::Op)
        } else if n == 18 {
            ND::Math(MathNode::Bin)
        } else if n == 19 {
            ND::Math(MathNode::Rel)
        } else if n == 20 {
            ND::Math(MathNode::Open)
        } else if n == 21 {
            ND::Math(MathNode::Close)
        } else if n == 22 {
            ND::Math(MathNode::Punct)
        } else if n == 23 {
            ND::Math(MathNode::Inner)
        } else if n == 24 {
            ND::Math(MathNode::Radical)
        } else if n == 25 {
            ND::Math(MathNode::Fraction)
        } else if n == 26 {
            ND::Math(MathNode::Under)
        } else if n == 27 {
            ND::Math(MathNode::Over)
        } else if n == 28 {
            ND::Math(MathNode::Accent)
        } else if n == 29 {
            ND::Math(MathNode::VCenter)
        } else if n == 30 {
            ND::Math(MathNode::Left)
        } else if n == 31 {
            ND::Math(MathNode::Right)
        } else {
            ND::Unknown(n)
        }
    }
}

/// Kinds of values a register-style lookup can yield.
#[derive(Clone, Copy, Debug, PartialEq, Eq, Structural)]
pub enum ValLevel {
    Int,
    Dimen,
    Glue,
    Mu,
    Ident,
    Tok,
    InterChar,
    Mark,
}

impl ValLevel {
    pub open spec fn spec_prev(self) -> ValLevel {
        match self {
            ValLevel::Int => ValLevel::Int,
            ValLevel::Dimen => ValLevel::Int,
            ValLevel::Glue => ValLevel::Dimen,
            ValLevel::Mu => ValLevel::Glue,
            ValLevel::Ident => ValLevel::Mu,
            ValLevel::Tok => ValLevel::Ident,
            ValLevel::InterChar => ValLevel::Tok,
            ValLevel::Mark => ValLevel::InterChar,
        }
    }

    /// Steps to the previous value level; the minimal level has no predecessor.
    pub fn prev(&mut self)
        requires
            *old(self) != ValLevel::Int,
        ensures
            *final(self) == old(self).spec_prev(),
    {
        *self = match *self {
            ValLevel::Int => ValLevel::Int,
            ValLevel::Dimen => ValLevel::Int,
            ValLevel::Glue => ValLevel::Dimen,
            ValLevel::Mu => ValLevel::Glue,
            ValLevel::Ident => ValLevel::Mu,
            ValLevel::Tok => ValLevel::Ident,
            ValLevel::InterChar => ValLevel::Tok,
            ValLevel::Mark => ValLevel::InterChar,
        };
    }
}

/// The four infinity orders of glue, plus the "never matches" order given to
/// specs manufactured during list reversal.
#[derive(Clone, Copy, Debug, PartialEq, Eq, Structural)]
pub enum GlueOrder {
    Normal,
    Fil,
    Fill,
    Filll,
    Incorrect,
}

/// Whether a box's glue is set at its natural size, stretched, or shrunk.
#[derive(Clone, Copy, Debug, PartialEq, Eq, Structural)]
pub enum GlueSign {
    Normal,
    Stretching,
    Shrinking,
}

/// Text direction of the material currently being emitted.
#[derive(Clone, Copy, Debug, PartialEq, Eq, Structural)]
pub enum LR {
    LeftToRight,
    RightToLeft,
}

impl LR {
    pub open spec fn spec_reversed(self) -> LR {
        match self {
            LR::LeftToRight => LR::RightToLeft,
            LR::RightToLeft => LR::LeftToRight,
        }
    }

    /// The opposite direction.
    pub fn reversed(self) -> (r: LR)
        ensures
            r == self.spec_reversed(),
    {
        match self {
            LR::LeftToRight => LR::RightToLeft,
            LR::RightToLeft => LR::LeftToRight,
        }
    }

    /// The direction bit as the classic engine encodes it in math subtypes.
    pub fn dir_code(self) -> (r: u16)
        ensures
            r == self.spec_dir_code(),
    {
        match self {
            LR::LeftToRight => 0,
            LR::RightToLeft => 1,
        }
    }

    pub open spec fn spec_dir_code(self) -> u16 {
        match self {
            LR::LeftToRight => 0,
            LR::RightToLeft => 1,
        }
    }
}

/// Direction mode of a horizontal box.  For vertical boxes the same field
/// flags upwards-growing lists, for which `Reversed` is reused.
#[derive(Clone, Copy, Debug, PartialEq, Eq, Structural)]
pub enum LRMode {
    Normal,
    Reversed,
    DList,
}

/// Begin/end direction-marker class boundary: codes above this are
/// left/right-text markers, codes at or below are plain math-on/off markers.
pub const L_CODE: u16 = 4;
/// Right-to-left marker codes start here.
pub const R_CODE: u16 = 8;

/* Device byte-stream opcodes. */

pub const SET1: u8 = 128;
pub const SET_RULE: u8 = 132;
pub const PUT_RULE: u8 = 137;
pub const BOP: u8 = 139;
pub const EOP: u8 = 140;
pub const PUSH: u8 = 141;
pub const POP: u8 = 142;
pub const RIGHT1: u8 = 143;
pub const DOWN1: u8 = 157;
pub const FNT_NUM_0: u8 = 171;
pub const FNT1: u8 = 235;
pub const XXX1: u8 = 239;
pub const XXX4: u8 = 242;
pub const FNT_DEF1: u8 = 243;
pub const PRE: u8 = 247;
pub const POST: u8 = 248;
pub const POST_POST: u8 = 249;
pub const DEFINE_NATIVE_FONT: u8 = 252;
pub const SET_GLYPHS: u8 = 253;
pub const SET_TEXT_AND_GLYPHS: u8 = 254;

/// Format id byte of the extended (XDV) dialect.
pub const XDV_ID_BYTE: u8 = 7;
/// Format id byte of the semantic-pagination (SPX) dialect.
pub const SPX_ID_BYTE: u8 = 100;

} // verus!
