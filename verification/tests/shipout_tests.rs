use shipout::arena::NodeArena;
use shipout::cmds::{Action, DviCmd};
use shipout::consts::{
    IsTexNull, GlueOrder, GlueSign, TextNode, ValLevel, BOP, EOP, POP, POST, POST_POST, PRE, PUSH,
    RIGHT1, SET_RULE, XDV_ID_BYTE, ND,
};
use shipout::dvi::DviFile;
use shipout::emit::{emit_cmds, DevState};
use shipout::fmt::{pagesize_special, pic_payload, print_int, print_scaled};
use shipout::consts::{LRMode, LR};
use shipout::glue::{glue_mult, glue_step, resolve_glue, GlueAcc, GlueRatio, GlueSpec};
use shipout::layout::{check_lr_state, out_what, reverse, BoxMeta};
use shipout::movement::{move_one, prune_movements, MoveRec};
use shipout::node::{char_exists, char_width, FontDef, GlueKind, ListBox, Node, WhatsIt};
use shipout::ship::{Emitter, ShipOutcome};

fn spec(width: i32, stretch: i32, so: GlueOrder, shrink: i32, ko: GlueOrder) -> GlueSpec {
    GlueSpec { width, stretch, stretch_order: so, shrink, shrink_order: ko }
}

fn test_fonts() -> Vec<FontDef> {
    let null = FontDef {
        chk0: 0,
        chk1: 0,
        chk2: 0,
        chk3: 0,
        size: 0,
        dsize: 0,
        area: vec![],
        name: vec![],
        native: None,
        bc: 1,
        ec: 0,
        widths: vec![],
        exists: vec![],
    };
    let f1 = FontDef {
        chk0: 1,
        chk1: 2,
        chk2: 3,
        chk3: 4,
        size: 655360,
        dsize: 655360,
        area: vec![],
        name: vec![b'f', b'o', b'n', b't', b'x'],
        native: None,
        bc: 65,
        ec: 90,
        widths: (65..=90).map(|_| 400000).collect(),
        exists: (65..=90).map(|_| true).collect(),
    };
    vec![null, f1]
}

#[test]
fn glue_resolution_mismatched_order_contributes_nothing() {
    // Stretching box at fil order; the spec stretches at fill order only.
    let ratio = GlueRatio { num: 65536 };
    let g = spec(100, 70, GlueOrder::Fill, 0, GlueOrder::Normal);
    let delta = resolve_glue(GlueSign::Stretching, GlueOrder::Fil, &ratio, &g);
    assert_eq!(delta, 0);
}

#[test]
fn glue_resolution_matching_order_rounds_product() {
    // ratio 1.5 at matching order: round(1.5 * 7) = 11 (half away from zero).
    let ratio = GlueRatio { num: 98304 };
    let g = spec(100, 7, GlueOrder::Fil, 0, GlueOrder::Normal);
    let delta = resolve_glue(GlueSign::Stretching, GlueOrder::Fil, &ratio, &g);
    assert_eq!(delta, 11);
}

#[test]
fn glue_resolution_shrink_half_ratio() {
    // Shrinking at ratio 0.5 over a shrink amount of 100: exactly -50, so
    // the glue's final on-page width is its natural size minus 50.
    let ratio = GlueRatio { num: 32768 };
    let g = spec(1000, 0, GlueOrder::Normal, 100, GlueOrder::Normal);
    let delta = resolve_glue(GlueSign::Shrinking, GlueOrder::Normal, &ratio, &g);
    assert_eq!(delta, -50);
    let mut acc = GlueAcc::start();
    let (w, matched) = glue_step(GlueSign::Shrinking, GlueOrder::Normal, &ratio, &mut acc, &g);
    assert!(matched);
    assert_eq!(w, 950);
}

#[test]
fn glue_product_clamps_at_billion() {
    let ratio = GlueRatio { num: 65536 * 4096 };
    assert_eq!(glue_mult(&ratio, 1_000_000_000), 1_000_000_000);
    assert_eq!(glue_mult(&ratio, -1_000_000_000), -1_000_000_000);
}

#[test]
fn glue_accumulator_keeps_rounding_residue() {
    // ratio 0.5 over two stretches of 3: widths 11+2 and 11+1 (total 3, not 4).
    let ratio = GlueRatio { num: 32768 };
    let g = spec(11, 3, GlueOrder::Normal, 0, GlueOrder::Normal);
    let mut acc = GlueAcc::start();
    let (w1, m1) = glue_step(GlueSign::Stretching, GlueOrder::Normal, &ratio, &mut acc, &g);
    let (w2, m2) = glue_step(GlueSign::Stretching, GlueOrder::Normal, &ratio, &mut acc, &g);
    assert!(m1 && m2);
    assert_eq!(w1 + w2, 11 + 11 + 3);
    assert_eq!(w1, 13);
    assert_eq!(w2, 12);
}

#[test]
fn scaled_formatting_matches_classic_output() {
    let mut out: Vec<u8> = Vec::new();
    print_scaled(&mut out, 65536);
    assert_eq!(out, b"1.0");
    out.clear();
    print_scaled(&mut out, 32768);
    assert_eq!(out, b"0.5");
    out.clear();
    print_scaled(&mut out, -98304);
    assert_eq!(out, b"-1.5");
    out.clear();
    print_int(&mut out, -42);
    assert_eq!(out, b"-42");
}

#[test]
fn pagesize_special_defaults_when_unset() {
    let p = pagesize_special(0, 65536);
    assert_eq!(p, b"pdf:pagesize default");
    let q = pagesize_special(65536, 131072);
    assert_eq!(q, b"pdf:pagesize width 1.0pt height 2.0pt");
}

#[test]
fn pic_payload_names_pagebox_and_path() {
    let path = vec![b'a', b'.', b'p', b'd', b'f'];
    let p = pic_payload(65536, 0, 0, 65536, 0, 0, 1, 2, &path);
    assert_eq!(
        p,
        b"pdf:image matrix 1.0 0.0 0.0 1.0 0.0 0.0 page 1 pagebox mediabox (a.pdf)"
    );
}

#[test]
fn arena_allocation_fails_when_pool_empty() {
    let mut a = NodeArena::new(8);
    let b1 = a.allocate(4).unwrap();
    let b2 = a.allocate(4).unwrap();
    assert_eq!(b1, 0);
    assert_eq!(b2, 4);
    // The pool is exhausted now: the overflow condition, no address.
    assert!(a.allocate(4).is_err());
    assert!(a.allocate(1).is_err());
    // Freeing returns capacity; the freed block is reused first.
    a.free(b1, 4);
    assert_eq!(a.allocate(4).unwrap(), b1);
}

#[test]
fn arena_blocks_come_back_zeroed() {
    let mut a = NodeArena::new(4);
    let b = a.allocate(2).unwrap();
    a.write(b, 77);
    a.write(b + 1, 88);
    a.free(b, 2);
    let c = a.allocate(2).unwrap();
    assert_eq!(c, b);
    assert_eq!(a.read(c), 0);
    assert_eq!(a.read(c + 1), 0);
}

#[test]
fn device_stream_encodes_big_endian() {
    let mut d = DviFile::new();
    d.dvi_four(-1).unwrap();
    d.dvi_two(0x0102).unwrap();
    let bytes = d.drain_rest();
    assert_eq!(bytes, vec![255, 255, 255, 255, 1, 2]);
}

#[test]
fn device_pop_cancels_empty_push() {
    let mut d = DviFile::new();
    d.dvi_out(141).unwrap();
    let l = d.len();
    d.dvi_pop(l).unwrap();
    assert_eq!(d.len(), 0);
    // With material in between, a pop byte is appended instead.
    d.dvi_out(141).unwrap();
    d.dvi_out(128).unwrap();
    d.dvi_out(65).unwrap();
    let l2 = d.len();
    d.dvi_pop(1).unwrap();
    assert_eq!(l2 + 1, d.len());
}

#[test]
fn movement_collapses_repeated_distance() {
    // Two right moves of 5: one absolute command, then a repeat byte, with
    // the original opcode rewritten into the register-setting form.
    let mut d = DviFile::new();
    let mut recs: Vec<MoveRec> = Vec::new();
    move_one(&mut recs, &mut d, 5, 143).unwrap();
    move_one(&mut recs, &mut d, 5, 143).unwrap();
    let bytes = d.drain_rest();
    assert_eq!(bytes, vec![148, 5, 147]);
    assert_eq!(recs.len(), 2);
}

#[test]
fn movement_prunes_stale_records() {
    let mut d = DviFile::new();
    let mut recs: Vec<MoveRec> = Vec::new();
    move_one(&mut recs, &mut d, 5, 157).unwrap();
    move_one(&mut recs, &mut d, 700, 157).unwrap();
    assert_eq!(recs.len(), 2);
    prune_movements(&mut recs, 1);
    assert_eq!(recs.len(), 1);
    prune_movements(&mut recs, 0);
    assert_eq!(recs.len(), 0);
}

#[test]
fn movement_uses_shortest_operand() {
    let mut d = DviFile::new();
    let mut recs: Vec<MoveRec> = Vec::new();
    move_one(&mut recs, &mut d, 200, 143).unwrap();
    move_one(&mut recs, &mut d, 40000, 143).unwrap();
    move_one(&mut recs, &mut d, 9_000_000, 143).unwrap();
    let bytes = d.drain_rest();
    assert_eq!(bytes[0], 144);
    assert_eq!(bytes[3], 145);
    assert_eq!(bytes[7], 146);
}

#[test]
fn three_characters_one_font_definition() {
    // An hlist of three characters in one font: the font is defined once,
    // selected once, and the characters follow with no move commands.
    let fonts = test_fonts();
    let mut dev = DevState::new(fonts.len());
    let cmds = vec![
        DviCmd::BoxOpen { push: false },
        DviCmd::Font(1),
        DviCmd::Char(65),
        DviCmd::Char(66),
        DviCmd::Char(67),
        DviCmd::BoxClose { push: false },
    ];
    emit_cmds(&mut dev, &fonts, &cmds).unwrap();
    let bytes = dev.dvi.drain_rest();
    let defs = bytes.iter().filter(|&&b| b == 243).count();
    assert_eq!(defs, 1);
    // fnt_def1, number, checksum, two sizes, area and name lengths, name.
    assert_eq!(bytes[0], 243);
    assert_eq!(bytes[1], 0);
    assert_eq!(&bytes[2..6], &[1, 2, 3, 4]);
    assert_eq!(bytes[14], 0);
    assert_eq!(bytes[15], 5);
    assert_eq!(&bytes[16..21], b"fontx");
    // The selection byte, then the three characters, nothing in between.
    assert_eq!(bytes[21], 171);
    assert_eq!(&bytes[22..25], &[65, 66, 67]);
    assert_eq!(bytes.len(), 25);
}

#[test]
fn shipped_page_is_framed_and_finalized() {
    let fonts = test_fonts();
    let mut em = Emitter::new(fonts);
    let counts = vec![1, 0, 0, 0, 0, 0, 0, 0, 0, 0];
    let comment = b"output test".to_vec();
    let cmds = vec![
        DviCmd::BoxOpen { push: false },
        DviCmd::Font(1),
        DviCmd::Char(65),
        DviCmd::Char(66),
        DviCmd::Char(67),
        DviCmd::BoxClose { push: false },
    ];
    let clean: Vec<u32> = vec![];
    let mut missing: u64 = 0;
    let mut extra: u64 = 0;
    let out = em
        .ship_page(
            0, 655360, 0, 0, 0, &counts, 0, 0, 1000, &comment, false, &cmds, &clean,
            LR::LeftToRight, &mut missing, &mut extra,
        )
        .unwrap();
    assert_eq!(out, ShipOutcome::Shipped { missing: 0, extra: 0 });
    assert!(em.finalize_dvi_file(1000, false).unwrap());
    let bytes = em.drain_rest();
    // Preamble with the extended format id.
    assert_eq!(bytes[0], PRE);
    assert_eq!(bytes[1], XDV_ID_BYTE);
    // One page: one begin and one end record.
    assert_eq!(bytes.iter().filter(|&&b| b == BOP).count(), 1);
    assert!(bytes.contains(&EOP));
    // Postamble and its closer are present.
    assert!(bytes.contains(&POST));
    assert!(bytes.contains(&POST_POST));
    // The file ends in 223-padding to a multiple of four.
    assert_eq!(bytes.len() % 4, 0);
    let pad = bytes.iter().rev().take_while(|&&b| b == 223).count();
    assert!((4..=7).contains(&pad));
}

#[test]
fn oversized_page_is_dropped_whole() {
    let fonts = test_fonts();
    let mut em = Emitter::new(fonts);
    let counts = vec![0; 10];
    let clean: Vec<u32> = vec![];
    let mut missing: u64 = 0;
    let mut extra: u64 = 0;
    let out = em
        .ship_page(
            0,
            0x4000_0000 - 1,
            2,
            0,
            0,
            &counts,
            0,
            0,
            1000,
            &b"x".to_vec(),
            false,
            &vec![],
            &clean,
            LR::LeftToRight,
            &mut missing,
            &mut extra,
        )
        .unwrap();
    assert_eq!(out, ShipOutcome::PageTooLarge);
    assert_eq!(em.drain_rest(), Vec::<u8>::new());
}

#[test]
fn font_table_reports_existence_and_width() {
    let fonts = test_fonts();
    assert!(char_exists(&fonts[1], 65));
    assert!(!char_exists(&fonts[1], 64));
    assert_eq!(char_width(&fonts[1], 70), 400000);
    assert_eq!(char_width(&fonts[1], 7), 0);
}

#[test]
fn node_type_codes_match_the_classic_engine() {
    assert_eq!(ND::Text(TextNode::Glue).u16(), 10);
    assert_eq!(ND::Text(TextNode::Kern).u16(), 11);
    assert_eq!(ND::Text(TextNode::MarginKern).u16(), 40);
    assert_eq!(ND::Unknown(77).u16(), 77);
}

#[test]
fn value_levels_step_downward() {
    let mut v = ValLevel::Glue;
    v.prev();
    assert_eq!(v, ValLevel::Dimen);
    v.prev();
    assert_eq!(v, ValLevel::Int);
}

#[test]
fn null_pointer_sentinel_is_recognized() {
    assert!((-0x0FFF_FFFFi32).is_texnull());
    assert!(!0i32.is_texnull());
}

#[test]
fn empty_push_pop_pair_vanishes_from_stream() {
    let fonts = test_fonts();
    let mut dev = DevState::new(fonts.len());
    let cmds = vec![
        DviCmd::BoxOpen { push: true },
        DviCmd::BoxClose { push: true },
        DviCmd::BoxOpen { push: true },
        DviCmd::Right(7),
        DviCmd::BoxClose { push: true },
    ];
    emit_cmds(&mut dev, &fonts, &cmds).unwrap();
    let bytes = dev.dvi.drain_rest();
    // The empty pair cancelled; the second pair brackets the move.
    assert_eq!(bytes, vec![PUSH, RIGHT1, 7, POP]);
}

#[test]
fn rules_and_glyph_runs_encode_their_operands() {
    let fonts = test_fonts();
    let mut dev = DevState::new(fonts.len());
    let cmds = vec![
        DviCmd::SetRule { height: 3, width: 4 },
        DviCmd::PutRule { height: 1, width: 2 },
        DviCmd::Glyph { width: 65536, glyph: 9 },
        DviCmd::NativeText { text: vec![72, 105], glyphs: vec![1, 2, 3] },
        DviCmd::NativeGlyphs { glyphs: vec![9, 9] },
    ];
    emit_cmds(&mut dev, &fonts, &cmds).unwrap();
    let bytes = dev.dvi.drain_rest();
    assert_eq!(&bytes[0..9], &[SET_RULE, 0, 0, 0, 3, 0, 0, 0, 4]);
    assert_eq!(&bytes[9..18], &[137, 0, 0, 0, 1, 0, 0, 0, 2]);
    assert_eq!(bytes[18], 253);
    assert_eq!(&bytes[19..23], &[0, 1, 0, 0]);
    // The text-and-glyphs record: count, code units, then the shaped data.
    let nt = 18 + 17;
    assert_eq!(bytes[nt], 254);
    assert_eq!(&bytes[nt + 1..nt + 3], &[0, 2]);
    assert_eq!(&bytes[nt + 3..nt + 7], &[0, 72, 0, 105]);
    assert_eq!(&bytes[nt + 7..nt + 10], &[1, 2, 3]);
    assert_eq!(&bytes[nt + 10..nt + 13], &[253, 9, 9]);
}

#[test]
fn long_special_uses_four_byte_length() {
    let fonts = test_fonts();
    let mut dev = DevState::new(fonts.len());
    let payload: Vec<u8> = (0..300).map(|i| (i % 251) as u8).collect();
    let cmds = vec![DviCmd::Special { payload: payload.clone() }];
    emit_cmds(&mut dev, &fonts, &cmds).unwrap();
    let bytes = dev.dvi.drain_rest();
    assert_eq!(bytes[0], 242);
    assert_eq!(&bytes[1..5], &[0, 0, 1, 44]);
    assert_eq!(&bytes[5..], &payload[..]);
}

fn plain_meta() -> BoxMeta {
    BoxMeta {
        sign: GlueSign::Normal,
        order: GlueOrder::Normal,
        ratio: GlueRatio { num: 0 },
        box_height: 0,
        box_depth: 0,
        box_width: 0,
    }
}

fn small_box(width: i32) -> Node {
    Node::List(ListBox {
        width,
        height: 1,
        depth: 1,
        shift: 0,
        glue_sign: GlueSign::Normal,
        glue_order: GlueOrder::Normal,
        glue_set: GlueRatio { num: 0 },
        lr_mode: LRMode::Normal,
        vertical: false,
        list: vec![],
    })
}

#[test]
fn reversal_mirrors_boxes_and_rules() {
    let fonts = test_fonts();
    let meta = plain_meta();
    let nodes = vec![small_box(5), Node::Rule { width: 10, height: 2, depth: 3 }];
    let mut stack: Vec<u32> = Vec::new();
    let out = reverse(
        &meta,
        &fonts,
        &nodes,
        0,
        0,
        LR::RightToLeft,
        LR::LeftToRight,
        false,
        &mut stack,
        0,
        0,
        GlueAcc::start(),
    )
    .unwrap();
    assert_eq!(out.cur_h, 15);
    assert_eq!(out.next, 2);
    assert_eq!(out.missing, 0);
    assert!(matches!(out.nodes[0], Node::Rule { width: 10, .. }));
    assert!(matches!(out.nodes[1], Node::List(_)));
    // Mirroring again restores the original order: the involution.
    let mut stack2: Vec<u32> = Vec::new();
    let back = reverse(
        &meta,
        &fonts,
        &out.nodes,
        0,
        0,
        LR::RightToLeft,
        LR::LeftToRight,
        false,
        &mut stack2,
        0,
        0,
        GlueAcc::start(),
    )
    .unwrap();
    assert!(matches!(back.nodes[0], Node::List(_)));
    assert!(matches!(back.nodes[1], Node::Rule { width: 10, .. }));
}

#[test]
fn reversal_resolves_and_degrades_glue() {
    // Stretching box at ratio 1.0: glue of width 10 + stretch 5 leaves the
    // mirror as a rigid kern of 15.
    let fonts = test_fonts();
    let meta = BoxMeta {
        sign: GlueSign::Stretching,
        order: GlueOrder::Normal,
        ratio: GlueRatio { num: 65536 },
        box_height: 0,
        box_depth: 0,
        box_width: 0,
    };
    let nodes = vec![Node::Glue {
        glue: GlueSpec {
            width: 10,
            stretch: 5,
            stretch_order: GlueOrder::Normal,
            shrink: 0,
            shrink_order: GlueOrder::Normal,
        },
        kind: GlueKind::Normal,
        leader: None,
    }];
    let mut stack: Vec<u32> = Vec::new();
    let out = reverse(
        &meta,
        &fonts,
        &nodes,
        0,
        0,
        LR::RightToLeft,
        LR::LeftToRight,
        true,
        &mut stack,
        0,
        0,
        GlueAcc::start(),
    )
    .unwrap();
    assert_eq!(out.cur_h, 15);
    assert!(matches!(out.nodes[0], Node::Kern { width: 15 }));
    assert!(matches!(out.nodes[1], Node::Edge { .. }));
}

#[test]
fn reversal_counts_unmatched_markers() {
    // An end marker with no open group degrades to a kern and counts as
    // one extra; a requested sentinel with nothing to close counts the
    // still-open group as missing and yields exactly one boundary edge.
    let fonts = test_fonts();
    let meta = plain_meta();
    let nodes = vec![Node::Math { width: 4, subtype: 7 }];
    let mut stack: Vec<u32> = Vec::new();
    let out = reverse(
        &meta,
        &fonts,
        &nodes,
        0,
        0,
        LR::RightToLeft,
        LR::LeftToRight,
        false,
        &mut stack,
        0,
        0,
        GlueAcc::start(),
    )
    .unwrap();
    assert_eq!(out.extra, 1);
    assert_eq!(out.cur_h, 4);
    assert_eq!(out.nodes.len(), 0);

    let empty: Vec<Node> = vec![];
    let mut stack2: Vec<u32> = vec![7];
    let fin = reverse(
        &meta,
        &fonts,
        &empty,
        0,
        12,
        LR::RightToLeft,
        LR::LeftToRight,
        true,
        &mut stack2,
        0,
        0,
        GlueAcc::start(),
    )
    .unwrap();
    assert_eq!(fin.missing, 1);
    assert_eq!(fin.nodes.len(), 1);
    assert!(matches!(fin.nodes[0], Node::Edge { edge_dist: -12, .. }));
    assert_eq!(stack2.len(), 0);
}

#[test]
fn stream_controls_become_actions_outside_leaders() {
    let w = WhatsIt::Open { id: 3, name: vec![b'x'], area: vec![], ext: vec![] };
    match out_what(&w, false).unwrap() {
        Some(Action::Open { id, ext, .. }) => {
            assert_eq!(id, 3);
            assert_eq!(ext, b".tex");
        }
        _ => panic!("expected an open request"),
    }
    assert!(out_what(&w, true).unwrap().is_none());
    let wr = WhatsIt::Write { stream: 1, text: vec![72] };
    assert!(matches!(out_what(&wr, false).unwrap(), Some(Action::Write { stream: 1, .. })));
    let other = WhatsIt::Other { subtype: 99 };
    assert!(out_what(&other, false).is_err());
}

#[test]
fn page_direction_epilogue_reports_and_clears() {
    let mut missing: u64 = 2;
    let mut extra: u64 = 1;
    let clean: Vec<u32> = vec![];
    let (m, x) = check_lr_state(&clean, LR::LeftToRight, &mut missing, &mut extra).unwrap();
    assert_eq!((m, x), (2, 1));
    assert_eq!((missing, extra), (0, 0));
    let open: Vec<u32> = vec![7];
    assert!(check_lr_state(&open, LR::LeftToRight, &mut missing, &mut extra).is_err());
    assert!(check_lr_state(&clean, LR::RightToLeft, &mut missing, &mut extra).is_err());
}

#[test]
fn node_codes_round_trip() {
    for n in (0u16..=31).chain([40u16, 77, 200]) {
        assert_eq!(ND::from_u16(n).u16(), n);
    }
    assert!(matches!(ND::from_u16(10), ND::Text(TextNode::Glue)));
    assert!(matches!(ND::from_u16(99), ND::Unknown(99)));
}

#[test]
fn reversal_accumulates_character_widths() {
    // Two characters of 400000 each plus a kern of 7: the span is summed
    // and the sequence mirrored, with the ligature collapsing to its char.
    let fonts = test_fonts();
    let meta = plain_meta();
    let nodes = vec![
        Node::Char { font: 1, character: 65 },
        Node::Kern { width: 7 },
        Node::Ligature { font: 1, character: 66 },
    ];
    let mut stack: Vec<u32> = Vec::new();
    let out = reverse(
        &meta,
        &fonts,
        &nodes,
        0,
        0,
        LR::RightToLeft,
        LR::LeftToRight,
        false,
        &mut stack,
        0,
        0,
        GlueAcc::start(),
    )
    .unwrap();
    assert_eq!(out.cur_h, 400000 + 7 + 400000);
    assert!(matches!(out.nodes[0], Node::Char { character: 66, .. }));
    assert!(matches!(out.nodes[1], Node::Kern { width: 7 }));
    assert!(matches!(out.nodes[2], Node::Char { character: 65, .. }));
}

#[test]
fn unclean_direction_state_aborts_the_page() {
    let fonts = test_fonts();
    let mut em = Emitter::new(fonts);
    let counts = vec![0; 10];
    let open_stack: Vec<u32> = vec![7];
    let mut missing: u64 = 3;
    let mut extra: u64 = 0;
    let r = em.ship_page(
        0,
        1,
        0,
        0,
        0,
        &counts,
        0,
        0,
        1000,
        &b"x".to_vec(),
        false,
        &vec![],
        &open_stack,
        LR::LeftToRight,
        &mut missing,
        &mut extra,
    );
    assert!(r.is_err());
    // The counters are cleared even on the abort, as the one report is due.
    assert_eq!((missing, extra), (0, 0));
}
