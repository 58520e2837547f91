//! Decimal formatting of integers and scaled fixed-point values, and the
//! textual payloads of the specials the shipout pass synthesises (the page
//! size announcement and embedded-image commands).

use vstd::prelude::*;

verus! {

/// Decimal digits of a non-negative integer, most significant first.
pub open spec fn spec_udec(n: int) -> Seq<u8>
    decreases n,
{
    if n < 10 {
        seq![(48 + if n >= 0 { n } else { 0 }) as u8]
    } else {
        spec_udec(n / 10).push((48 + n % 10) as u8)
    }
}

/// Decimal text of an integer, with a leading minus sign when negative.
pub open spec fn spec_int_str(n: int) -> Seq<u8> {
    if n < 0 {
        seq![45u8] + spec_udec(-n)
    } else {
        spec_udec(n)
    }
}

/// Append the decimal digits of a non-negative value.
pub fn push_udec(out: &mut Vec<u8>, n: u32)
    ensures
        final(out)@ == old(out)@ + spec_udec(n as int),
    decreases n,
{
    if n < 10 {
        out.push(48 + (n as u8));
        proof {
            assert(out@ =~= old(out)@ + spec_udec(n as int));
        }
    } else {
        push_udec(out, n / 10);
        out.push(48 + ((n % 10) as u8));
        proof {
            assert(out@ =~= old(out)@ + spec_udec(n as int));
        }
    }
}

/// Append the decimal text of an integer.
pub fn print_int(out: &mut Vec<u8>, n: i32)
    requires
        n > i32::MIN,
    ensures
        final(out)@ == old(out)@ + spec_int_str(n as int),
{
    if n < 0 {
        out.push(45);
        push_udec(out, (-n) as u32);
        proof {
            assert(out@ =~= old(out)@ + spec_int_str(n as int));
        }
    } else {
        push_udec(out, n as u32);
    }
}

/// The fraction digits the classic engine prints for a scaled value: keep
/// emitting digits of the remainder until what is left cannot change the
/// rounded reading, nudging the last digit once the granularity passes one
/// unit.
pub open spec fn spec_frac(s: int, delta: int) -> Seq<u8>
    decreases 10_000_010 - delta,
    when 1 <= delta <= 1_000_000 && 0 <= s <= 655_355
{
    let s1 = if delta > 65536 { s + 32768 - 50000 } else { s };
    let d = (48 + s1 / 65536) as u8;
    let s2 = 10 * (s1 % 65536);
    let delta2 = delta * 10;
    if s2 <= delta2 {
        seq![d]
    } else {
        seq![d] + spec_frac(s2, delta2)
    }
}

fn push_frac(out: &mut Vec<u8>, s: u32, delta: u32)
    requires
        1 <= delta <= 1_000_000,
        s <= 655_355,
        delta > 65536 ==> s >= 17232,
    ensures
        final(out)@ == old(out)@ + spec_frac(s as int, delta as int),
    decreases 10_000_010 - delta,
{
    let s1: u32 = if delta > 65536 { s + 32768 - 50000 } else { s };
    let d: u8 = 48 + ((s1 / 65536) as u8);
    let s2: u32 = 10 * (s1 % 65536);
    let delta2: u32 = delta * 10;
    out.push(d);
    if s2 <= delta2 {
        proof {
            assert(out@ =~= old(out)@ + spec_frac(s as int, delta as int));
        }
    } else {
        push_frac(out, s2, delta2);
        proof {
            assert(out@ =~= old(out)@ + spec_frac(s as int, delta as int));
        }
    }
}

/// The text of a non-negative scaled value: integer part, point, fraction.
pub open spec fn spec_scaled_nn(s: int) -> Seq<u8> {
    spec_udec(s / 65536) + seq![46u8] + spec_frac(10 * (s % 65536) + 5, 10)
}

/// The text of a scaled value, as the classic engine prints it.
pub open spec fn spec_scaled_str(s: int) -> Seq<u8> {
    if s < 0 {
        seq![45u8] + spec_scaled_nn(-s)
    } else {
        spec_scaled_nn(s)
    }
}

/// Append the decimal text of a scaled value.
pub fn print_scaled(out: &mut Vec<u8>, s: i32)
    requires
        s > i32::MIN,
    ensures
        final(out)@ == old(out)@ + spec_scaled_str(s as int),
{
    let mut v: u32 = 0;
    if s < 0 {
        out.push(45);
        v = (-s) as u32;
    } else {
        v = s as u32;
    }
    push_udec(out, v / 65536);
    out.push(46);
    push_frac(out, 10 * (v % 65536) + 5, 10);
    proof {
        assert(out@ =~= old(out)@ + spec_scaled_str(s as int));
    }
}

/// The bytes of `"pdf:pagesize "`.
pub open spec fn pagesize_prefix() -> Seq<u8> {
    seq![112u8, 100u8, 102u8, 58u8, 112u8, 97u8, 103u8, 101u8, 115u8, 105u8, 122u8, 101u8, 32u8]
}

fn push_pagesize_prefix(out: &mut Vec<u8>)
    ensures
        final(out)@ == old(out)@ + pagesize_prefix(),
{
    out.push(112);
    out.push(100);
    out.push(102);
    out.push(58);
    out.push(112);
    out.push(97);
    out.push(103);
    out.push(101);
    out.push(115);
    out.push(105);
    out.push(122);
    out.push(101);
    out.push(32);
    proof {
        assert(out@ =~= old(out)@ + pagesize_prefix());
    }
}

/// The bytes of `"default"`.
pub open spec fn lit_default() -> Seq<u8> {
    seq![100u8, 101u8, 102u8, 97u8, 117u8, 108u8, 116u8]
}

fn push_lit_default(out: &mut Vec<u8>)
    ensures
        final(out)@ == old(out)@ + lit_default(),
{
    out.push(100);
    out.push(101);
    out.push(102);
    out.push(97);
    out.push(117);
    out.push(108);
    out.push(116);
    proof {
        assert(out@ =~= old(out)@ + lit_default());
    }
}

/// The bytes of `"width "`.
pub open spec fn lit_width() -> Seq<u8> {
    seq![119u8, 105u8, 100u8, 116u8, 104u8, 32u8]
}

fn push_lit_width(out: &mut Vec<u8>)
    ensures
        final(out)@ == old(out)@ + lit_width(),
{
    out.push(119);
    out.push(105);
    out.push(100);
    out.push(116);
    out.push(104);
    out.push(32);
    proof {
        assert(out@ =~= old(out)@ + lit_width());
    }
}

/// The bytes of `"pt height "`.
pub open spec fn lit_pt_height() -> Seq<u8> {
    seq![112u8, 116u8, 32u8, 104u8, 101u8, 105u8, 103u8, 104u8, 116u8, 32u8]
}

fn push_lit_pt_height(out: &mut Vec<u8>)
    ensures
        final(out)@ == old(out)@ + lit_pt_height(),
{
    out.push(112);
    out.push(116);
    out.push(32);
    out.push(104);
    out.push(101);
    out.push(105);
    out.push(103);
    out.push(104);
    out.push(116);
    out.push(32);
    proof {
        assert(out@ =~= old(out)@ + lit_pt_height());
    }
}

/// The bytes of `"pt"`.
pub open spec fn lit_pt() -> Seq<u8> {
    seq![112u8, 116u8]
}

fn push_lit_pt(out: &mut Vec<u8>)
    ensures
        final(out)@ == old(out)@ + lit_pt(),
{
    out.push(112);
    out.push(116);
    proof {
        assert(out@ =~= old(out)@ + lit_pt());
    }
}

/// The bytes of `"pdf:image matrix "`.
pub open spec fn image_prefix() -> Seq<u8> {
    seq![112u8, 100u8, 102u8, 58u8, 105u8, 109u8, 97u8, 103u8, 101u8, 32u8, 109u8, 97u8, 116u8, 114u8, 105u8, 120u8, 32u8]
}

fn push_image_prefix(out: &mut Vec<u8>)
    ensures
        final(out)@ == old(out)@ + image_prefix(),
{
    out.push(112);
    out.push(100);
    out.push(102);
    out.push(58);
    out.push(105);
    out.push(109);
    out.push(97);
    out.push(103);
    out.push(101);
    out.push(32);
    out.push(109);
    out.push(97);
    out.push(116);
    out.push(114);
    out.push(105);
    out.push(120);
    out.push(32);
    proof {
        assert(out@ =~= old(out)@ + image_prefix());
    }
}

/// The bytes of `"page "`.
pub open spec fn lit_page() -> Seq<u8> {
    seq![112u8, 97u8, 103u8, 101u8, 32u8]
}

fn push_lit_page(out: &mut Vec<u8>)
    ensures
        final(out)@ == old(out)@ + lit_page(),
{
    out.push(112);
    out.push(97);
    out.push(103);
    out.push(101);
    out.push(32);
    proof {
        assert(out@ =~= old(out)@ + lit_page());
    }
}

/// The bytes of `"pagebox cropbox "`.
pub open spec fn pagebox_crop() -> Seq<u8> {
    seq![112u8, 97u8, 103u8, 101u8, 98u8, 111u8, 120u8, 32u8, 99u8, 114u8, 111u8, 112u8, 98u8, 111u8, 120u8, 32u8]
}

fn push_pagebox_crop(out: &mut Vec<u8>)
    ensures
        final(out)@ == old(out)@ + pagebox_crop(),
{
    out.push(112);
    out.push(97);
    out.push(103);
    out.push(101);
    out.push(98);
    out.push(111);
    out.push(120);
    out.push(32);
    out.push(99);
    out.push(114);
    out.push(111);
    out.push(112);
    out.push(98);
    out.push(111);
    out.push(120);
    out.push(32);
    proof {
        assert(out@ =~= old(out)@ + pagebox_crop());
    }
}

/// The bytes of `"pagebox mediabox "`.
pub open spec fn pagebox_media() -> Seq<u8> {
    seq![112u8, 97u8, 103u8, 101u8, 98u8, 111u8, 120u8, 32u8, 109u8, 101u8, 100u8, 105u8, 97u8, 98u8, 111u8, 120u8, 32u8]
}

fn push_pagebox_media(out: &mut Vec<u8>)
    ensures
        final(out)@ == old(out)@ + pagebox_media(),
{
    out.push(112);
    out.push(97);
    out.push(103);
    out.push(101);
    out.push(98);
    out.push(111);
    out.push(120);
    out.push(32);
    out.push(109);
    out.push(101);
    out.push(100);
    out.push(105);
    out.push(97);
    out.push(98);
    out.push(111);
    out.push(120);
    out.push(32);
    proof {
        assert(out@ =~= old(out)@ + pagebox_media());
    }
}

/// The bytes of `"pagebox bleedbox "`.
pub open spec fn pagebox_bleed() -> Seq<u8> {
    seq![112u8, 97u8, 103u8, 101u8, 98u8, 111u8, 120u8, 32u8, 98u8, 108u8, 101u8, 101u8, 100u8, 98u8, 111u8, 120u8, 32u8]
}

fn push_pagebox_bleed(out: &mut Vec<u8>)
    ensures
        final(out)@ == old(out)@ + pagebox_bleed(),
{
    out.push(112);
    out.push(97);
    out.push(103);
    out.push(101);
    out.push(98);
    out.push(111);
    out.push(120);
    out.push(32);
    out.push(98);
    out.push(108);
    out.push(101);
    out.push(101);
    out.push(100);
    out.push(98);
    out.push(111);
    out.push(120);
    out.push(32);
    proof {
        assert(out@ =~= old(out)@ + pagebox_bleed());
    }
}

/// The bytes of `"pagebox artbox "`.
pub open spec fn pagebox_art() -> Seq<u8> {
    seq![112u8, 97u8, 103u8, 101u8, 98u8, 111u8, 120u8, 32u8, 97u8, 114u8, 116u8, 98u8, 111u8, 120u8, 32u8]
}

fn push_pagebox_art(out: &mut Vec<u8>)
    ensures
        final(out)@ == old(out)@ + pagebox_art(),
{
    out.push(112);
    out.push(97);
    out.push(103);
    out.push(101);
    out.push(98);
    out.push(111);
    out.push(120);
    out.push(32);
    out.push(97);
    out.push(114);
    out.push(116);
    out.push(98);
    out.push(111);
    out.push(120);
    out.push(32);
    proof {
        assert(out@ =~= old(out)@ + pagebox_art());
    }
}

/// The bytes of `"pagebox trimbox "`.
pub open spec fn pagebox_trim() -> Seq<u8> {
    seq![112u8, 97u8, 103u8, 101u8, 98u8, 111u8, 120u8, 32u8, 116u8, 114u8, 105u8, 109u8, 98u8, 111u8, 120u8, 32u8]
}

fn push_pagebox_trim(out: &mut Vec<u8>)
    ensures
        final(out)@ == old(out)@ + pagebox_trim(),
{
    out.push(112);
    out.push(97);
    out.push(103);
    out.push(101);
    out.push(98);
    out.push(111);
    out.push(120);
    out.push(32);
    out.push(116);
    out.push(114);
    out.push(105);
    out.push(109);
    out.push(98);
    out.push(111);
    out.push(120);
    out.push(32);
    proof {
        assert(out@ =~= old(out)@ + pagebox_trim());
    }
}

/// The payload of the page-size special the shipout pass emits at the start
/// of every page: explicit width and height, or `default` when either
/// dimension is unset.
pub open spec fn spec_pagesize(pw: int, ph: int) -> Seq<u8> {
    pagesize_prefix() + if pw <= 0 || ph <= 0 {
        lit_default()
    } else {
        lit_width() + spec_scaled_str(pw) + lit_pt_height() + spec_scaled_str(ph) + lit_pt()
    }
}

/// Build the page-size special payload.
pub fn pagesize_special(pw: i32, ph: i32) -> (out: Vec<u8>)
    ensures
        out@ == spec_pagesize(pw as int, ph as int),
{
    let mut out: Vec<u8> = Vec::new();
    push_pagesize_prefix(&mut out);
    if pw <= 0 || ph <= 0 {
        push_lit_default(&mut out);
    } else {
        push_lit_width(&mut out);
        print_scaled(&mut out, pw);
        push_lit_pt_height(&mut out);
        print_scaled(&mut out, ph);
        push_lit_pt(&mut out);
    }
    proof {
        assert(out@ =~= spec_pagesize(pw as int, ph as int));
    }
    out
}

/// The page-box keyword an embedded image names, keyed by the classic codes.
pub open spec fn spec_pagebox(pagebox: u16) -> Seq<u8> {
    if pagebox == 1 {
        pagebox_crop()
    } else if pagebox == 2 {
        pagebox_media()
    } else if pagebox == 3 {
        pagebox_bleed()
    } else if pagebox == 5 {
        pagebox_art()
    } else if pagebox == 4 {
        pagebox_trim()
    } else {
        Seq::empty()
    }
}

/// The payload of the special describing an embedded picture or PDF page:
/// its transform matrix, page number, page box and source path.
pub open spec fn spec_pic_payload(
    m0: int,
    m1: int,
    m2: int,
    m3: int,
    m4: int,
    m5: int,
    page: u16,
    pagebox: u16,
    path: Seq<u8>,
) -> Seq<u8> {
    image_prefix() + spec_scaled_str(m0) + seq![32u8] + spec_scaled_str(m1) + seq![32u8]
        + spec_scaled_str(m2) + seq![32u8] + spec_scaled_str(m3) + seq![32u8] + spec_scaled_str(m4)
        + seq![32u8] + spec_scaled_str(m5) + seq![32u8] + lit_page() + spec_int_str(page as int)
        + seq![32u8] + spec_pagebox(pagebox) + seq![40u8] + path + seq![41u8]
}

/// Build an embedded-image special payload.
pub fn pic_payload(
    m0: i32,
    m1: i32,
    m2: i32,
    m3: i32,
    m4: i32,
    m5: i32,
    page: u16,
    pagebox: u16,
    path: &Vec<u8>,
) -> (out: Vec<u8>)
    requires
        m0 > i32::MIN,
        m1 > i32::MIN,
        m2 > i32::MIN,
        m3 > i32::MIN,
        m4 > i32::MIN,
        m5 > i32::MIN,
    ensures
        out@ == spec_pic_payload(
            m0 as int,
            m1 as int,
            m2 as int,
            m3 as int,
            m4 as int,
            m5 as int,
            page,
            pagebox,
            path@,
        ),
{
    let mut out: Vec<u8> = Vec::new();
    push_image_prefix(&mut out);
    print_scaled(&mut out, m0);
    out.push(32);
    print_scaled(&mut out, m1);
    out.push(32);
    print_scaled(&mut out, m2);
    out.push(32);
    print_scaled(&mut out, m3);
    out.push(32);
    print_scaled(&mut out, m4);
    out.push(32);
    print_scaled(&mut out, m5);
    out.push(32);
    push_lit_page(&mut out);
    print_int(&mut out, page as i32);
    out.push(32);
    if pagebox == 1 {
        push_pagebox_crop(&mut out);
    } else if pagebox == 2 {
        push_pagebox_media(&mut out);
    } else if pagebox == 3 {
        push_pagebox_bleed(&mut out);
    } else if pagebox == 5 {
        push_pagebox_art(&mut out);
    } else if pagebox == 4 {
        push_pagebox_trim(&mut out);
    }
    out.push(40);
    let mut i: usize = 0;
    let ghost pre = out@;
    while i < path.len()
        invariant
            i <= path@.len(),
            out@ == pre + path@.subrange(0, i as int),
        decreases path@.len() - i,
    {
        out.push(path[i]);
        proof {
            assert(out@ =~= pre + path@.subrange(0, i + 1));
        }
        i = i + 1;
    }
    out.push(41);
    proof {
        assert(path@.subrange(0, path@.len() as int) =~= path@);
        assert(out@ =~= spec_pic_payload(
            m0 as int,
            m1 as int,
            m2 as int,
            m3 as int,
            m4 as int,
            m5 as int,
            page,
            pagebox,
            path@,
        ));
    }
    out
}

/// Append a whole byte vector.
pub fn push_all(out: &mut Vec<u8>, bytes: &Vec<u8>)
    ensures
        final(out)@ == old(out)@ + bytes@,
{
    let mut i: usize = 0;
    let ghost pre = out@;
    while i < bytes.len()
        invariant
            i <= bytes@.len(),
            out@ == pre + bytes@.subrange(0, i as int),
        decreases bytes@.len() - i,
    {
        out.push(bytes[i]);
        proof {
            assert(out@ =~= pre + bytes@.subrange(0, i + 1));
        }
        i = i + 1;
    }
    proof {
        assert(out@ =~= pre + bytes@);
    }
}


/// Powers of ten, for digit-count bounds.
pub open spec fn tenpow(k: nat) -> int
    decreases k,
{
    if k == 0 {
        1
    } else {
        10 * tenpow((k - 1) as nat)
    }
}

pub proof fn lemma_udec_len(n: int, k: nat)
    requires
        1 <= k,
        0 <= n < tenpow(k),
    ensures
        spec_udec(n).len() <= k,
    decreases n,
{
    reveal_with_fuel(tenpow, 8);
    if n >= 10 {
        assert(tenpow(k) == 10 * tenpow((k - 1) as nat));
        assert(n / 10 < tenpow((k - 1) as nat)) by (nonlinear_arith)
            requires
                n < 10 * tenpow((k - 1) as nat),
                n >= 10,
        ;
        assert(k >= 2) by {
            if k == 1 {
                assert(tenpow(1nat) == 10);
            }
        }
        lemma_udec_len(n / 10, (k - 1) as nat);
    }
}

pub proof fn lemma_frac_len(s: int, delta: int, k: nat)
    requires
        1 <= k <= 6,
        delta == tenpow(k),
        0 <= s <= 655_355,
    ensures
        spec_frac(s, delta).len() <= 8 - k,
    decreases 7 - k,
{
    reveal_with_fuel(tenpow, 8);
    assert(tenpow(1nat) == 10);
    assert(tenpow(2nat) == 100);
    assert(tenpow(3nat) == 1000);
    assert(tenpow(4nat) == 10000);
    assert(tenpow(5nat) == 100000);
    assert(tenpow(6nat) == 1000000);
    let s1 = if delta > 65536 {
        s + 32768 - 50000
    } else {
        s
    };
    let s2 = 10 * (s1 % 65536);
    let delta2 = delta * 10;
    if s2 <= delta2 {
    } else {
        assert(s2 <= 655350);
        assert(k < 6) by {
            if k == 6 {
                assert(delta2 == 10000000);
            }
        }
        lemma_frac_len(s2, delta2, (k + 1) as nat);
    }
}

/// The page-size announcement always fits the short special form.
pub proof fn lemma_pagesize_len(pw: int, ph: int)
    requires
        -0x8000_0000 < pw < 0x8000_0000,
        -0x8000_0000 < ph < 0x8000_0000,
    ensures
        spec_pagesize(pw, ph).len() < 256,
{
    lemma_scaled_len(pw);
    lemma_scaled_len(ph);
}

pub proof fn lemma_scaled_len(s: int)
    requires
        -0x8000_0000 < s < 0x8000_0000,
    ensures
        spec_scaled_str(s).len() <= 14,
{
    reveal_with_fuel(tenpow, 8);
    let v = if s < 0 {
        -s
    } else {
        s
    };
    assert(tenpow(5nat) == 100000);
    assert(v / 65536 < 100000);
    lemma_udec_len(v / 65536, 5);
    assert(tenpow(1nat) == 10);
    assert(0 <= 10 * (v % 65536) + 5 <= 655355);
    lemma_frac_len(10 * (v % 65536) + 5, 10, 1);
}

} // verus!

