//! Integer color rules: blending two bodies, tinting sparks, jittering a
//! channel and averaging a clump of particles.

use vstd::prelude::*;
use crate::grid::Rgb;

verus! {

/// Per-channel average of two colors, rounded down.
pub open spec fn blend(a: Rgb, b: Rgb) -> Rgb {
    (((a.0 + b.0) / 2) as u8, ((a.1 + b.1) / 2) as u8, ((a.2 + b.2) / 2) as u8)
}

/// Per-channel average of two colors, rounded down.
pub fn blend_colors(a: Rgb, b: Rgb) -> (out: Rgb)
    ensures
        out == blend(a, b),
        2 * out.0 <= a.0 + b.0 <= 2 * out.0 + 1,
        2 * out.1 <= a.1 + b.1 <= 2 * out.1 + 1,
        2 * out.2 <= a.2 + b.2 <= 2 * out.2 + 1,
{
    (
        ((a.0 as u16 + b.0 as u16) / 2) as u8,
        ((a.1 as u16 + b.1 as u16) / 2) as u8,
        ((a.2 as u16 + b.2 as u16) / 2) as u8,
    )
}

/// Blending does not depend on the order of the two colors, and every
/// channel of a blend lies between the two channels it came from.
pub proof fn lemma_blend_is_symmetric_and_between(a: Rgb, b: Rgb)
    ensures
        blend(a, b) == blend(b, a),
        a.0 <= b.0 ==> a.0 <= blend(a, b).0 <= b.0,
        a.1 <= b.1 ==> a.1 <= blend(a, b).1 <= b.1,
        a.2 <= b.2 ==> a.2 <= blend(a, b).2 <= b.2,
{
}

/// A blend is each channel's sum halved, rounded down; a spark raises red
/// and green by the boost up to 255 and sets blue full; a jittered channel is
/// the moved value held within 0..=255.
pub proof fn lemma_color_arithmetic(a: Rgb, b: Rgb, boost: u8, base: u8, offset: i16)
    ensures
        2 * blend(a, b).0 <= a.0 + b.0 <= 2 * blend(a, b).0 + 1,
        2 * blend(a, b).1 <= a.1 + b.1 <= 2 * blend(a, b).1 + 1,
        2 * blend(a, b).2 <= a.2 + b.2 <= 2 * blend(a, b).2 + 1,
        spark(a, boost).0 as int == if a.0 + boost > 255 { 255 } else { a.0 + boost },
        spark(a, boost).1 as int == if a.1 + boost > 255 { 255 } else { a.1 + boost },
        spark(a, boost).2 == 255,
        base + offset <= 0 ==> jittered(base, offset) == 0,
        base + offset >= 255 ==> jittered(base, offset) == 255,
        0 <= base + offset <= 255 ==> jittered(base, offset) == base + offset,
{
}

/// `c + boost`, held at 255.
pub open spec fn saturating_channel(c: u8, boost: u8) -> u8 {
    if c + boost > 255 {
        255
    } else {
        (c + boost) as u8
    }
}

/// A spark color: red and green raised by `boost` (held at 255), blue full.
pub open spec fn spark(c: Rgb, boost: u8) -> Rgb {
    (saturating_channel(c.0, boost), saturating_channel(c.1, boost), 255)
}

/// A spark color: red and green raised by `boost` (held at 255), blue full.
pub fn spark_tint(c: Rgb, boost: u8) -> (out: Rgb)
    ensures
        out == spark(c, boost),
        out.0 as int == if c.0 + boost > 255 { 255 } else { c.0 + boost },
        out.1 as int == if c.1 + boost > 255 { 255 } else { c.1 + boost },
        out.2 == 255,
{
    (c.0.saturating_add(boost), c.1.saturating_add(boost), 255)
}

/// `base + offset`, held within 0..=255.
pub open spec fn jittered(base: u8, offset: i16) -> u8 {
    if base + offset < 0 {
        0
    } else if base + offset > 255 {
        255
    } else {
        (base + offset) as u8
    }
}

/// A color channel moved by `offset`, held within 0..=255.
pub fn jitter_channel(base: u8, offset: i16) -> (out: u8)
    requires
        base + offset <= i16::MAX,
    ensures
        out == jittered(base, offset),
        base + offset <= 0 ==> out == 0,
        base + offset >= 255 ==> out == 255,
        0 <= base + offset <= 255 ==> out == base + offset,
{
    let v = base as i16 + offset;
    if v < 0 {
        0
    } else if v > 255 {
        255
    } else {
        v as u8
    }
}

/// Sum of the red, green and blue channels of `colors`.
pub open spec fn channel_sums(colors: Seq<Rgb>) -> (nat, nat, nat)
    decreases colors.len(),
{
    if colors.len() == 0 {
        (0, 0, 0)
    } else {
        let s = channel_sums(colors.drop_last());
        let c = colors.last();
        (s.0 + c.0 as nat, s.1 + c.1 as nat, s.2 + c.2 as nat)
    }
}

/// Per-channel mean of a non-empty list of colors, rounded down.
pub open spec fn mean(colors: Seq<Rgb>) -> Rgb {
    let s = channel_sums(colors);
    let n = colors.len();
    ((s.0 / n) as u8, (s.1 / n) as u8, (s.2 / n) as u8)
}

proof fn lemma_channel_sums_bound(colors: Seq<Rgb>)
    ensures
        channel_sums(colors).0 <= 255 * colors.len(),
        channel_sums(colors).1 <= 255 * colors.len(),
        channel_sums(colors).2 <= 255 * colors.len(),
    decreases colors.len(),
{
    if colors.len() > 0 {
        lemma_channel_sums_bound(colors.drop_last());
    }
}

/// Per-channel mean of the colors of a clump of particles, rounded down.
pub fn mean_color(colors: &Vec<Rgb>) -> (out: Rgb)
    requires
        colors@.len() > 0,
        colors@.len() * 255 <= u32::MAX,
    ensures
        out == mean(colors@),
        out.0 as nat * colors@.len() <= totals(colors@).0 < (out.0 as nat + 1) * colors@.len(),
        out.1 as nat * colors@.len() <= totals(colors@).1 < (out.1 as nat + 1) * colors@.len(),
        out.2 as nat * colors@.len() <= totals(colors@).2 < (out.2 as nat + 1) * colors@.len(),
{
    proof {
        lemma_mean_is_average_of_all(colors@);
    }
    let mut sum_r: u32 = 0;
    let mut sum_g: u32 = 0;
    let mut sum_b: u32 = 0;
    let mut i: usize = 0;
    while i < colors.len()
        invariant
            i <= colors@.len(),
            colors@.len() * 255 <= u32::MAX,
            (sum_r as nat, sum_g as nat, sum_b as nat) == channel_sums(colors@.take(i as int)),
        decreases colors@.len() - i,
    {
        proof {
            assert(colors@.take(i + 1).drop_last() =~= colors@.take(i as int));
            lemma_channel_sums_bound(colors@.take(i + 1));
            assert(255 * (i + 1) <= 255 * colors@.len()) by (nonlinear_arith)
                requires
                    i + 1 <= colors@.len(),
            ;
        }
        let c = colors[i];
        sum_r = sum_r + c.0 as u32;
        sum_g = sum_g + c.1 as u32;
        sum_b = sum_b + c.2 as u32;
        i += 1;
    }
    assert(colors@.take(colors@.len() as int) =~= colors@);
    let n = colors.len() as u32;
    proof {
        lemma_channel_sums_bound(colors@);
        let s = channel_sums(colors@);
        let len = colors@.len();
        assert(s.0 / len <= 255 && s.1 / len <= 255 && s.2 / len <= 255) by (nonlinear_arith)
            requires
                len > 0,
                s.0 <= 255 * len,
                s.1 <= 255 * len,
                s.2 <= 255 * len,
        ;
    }
    ((sum_r / n) as u8, (sum_g / n) as u8, (sum_b / n) as u8)
}

/// Per-channel totals of `colors`, adding the first color to the totals of the rest.
pub open spec fn totals(colors: Seq<Rgb>) -> (nat, nat, nat)
    decreases colors.len(),
{
    if colors.len() == 0 {
        (0, 0, 0)
    } else {
        let rest = totals(colors.skip(1));
        (colors[0].0 as nat + rest.0, colors[0].1 as nat + rest.1, colors[0].2 as nat + rest.2)
    }
}

proof fn lemma_totals_push(colors: Seq<Rgb>, c: Rgb)
    ensures
        totals(colors.push(c)) == (totals(colors).0 + c.0 as nat, totals(colors).1 + c.1 as nat,
            totals(colors).2 + c.2 as nat),
    decreases colors.len(),
{
    if colors.len() > 0 {
        assert(colors.push(c).skip(1) =~= colors.skip(1).push(c));
        assert(colors.push(c)[0] == colors[0]);
        lemma_totals_push(colors.skip(1), c);
    } else {
        assert(colors.push(c).skip(1) =~= Seq::<Rgb>::empty());
        assert(colors.push(c)[0] == c);
        assert(totals(Seq::<Rgb>::empty()) == (0nat, 0nat, 0nat));
        assert(totals(colors) == (0nat, 0nat, 0nat));
    }
}

proof fn lemma_sums_are_totals(colors: Seq<Rgb>)
    ensures
        channel_sums(colors) == totals(colors),
    decreases colors.len(),
{
    if colors.len() > 0 {
        lemma_sums_are_totals(colors.drop_last());
        lemma_totals_push(colors.drop_last(), colors.last());
        assert(colors.drop_last().push(colors.last()) =~= colors);
    }
}

/// The mean color of a clump is the average of every color in it, each
/// channel rounded down: the channel times the clump size is at most the
/// channel's total over all colors, and less than one clump size below it.
pub proof fn lemma_mean_is_average_of_all(colors: Seq<Rgb>)
    requires
        colors.len() > 0,
    ensures
        mean(colors).0 as nat * colors.len() <= totals(colors).0 < (mean(colors).0 as nat + 1)
            * colors.len(),
        mean(colors).1 as nat * colors.len() <= totals(colors).1 < (mean(colors).1 as nat + 1)
            * colors.len(),
        mean(colors).2 as nat * colors.len() <= totals(colors).2 < (mean(colors).2 as nat + 1)
            * colors.len(),
{
    lemma_sums_are_totals(colors);
    lemma_channel_sums_bound(colors);
    let n = colors.len();
    let t = totals(colors);
    lemma_floor_div(t.0, n);
    lemma_floor_div(t.1, n);
    lemma_floor_div(t.2, n);
}

proof fn lemma_floor_div(t: nat, n: nat)
    requires
        n > 0,
        t <= 255 * n,
    ensures
        (t / n) as u8 as nat * n <= t < ((t / n) as u8 as nat + 1) * n,
{
    assert(t / n <= 255) by (nonlinear_arith)
        requires
            n > 0,
            t <= 255 * n,
    ;
    assert((t / n) * n <= t < (t / n + 1) * n) by (nonlinear_arith)
        requires
            n > 0,
    ;
}

/// Every channel of a mean color lies between the smallest and the largest
/// value of that channel in the clump.
pub proof fn lemma_mean_within_channel_range(colors: Seq<Rgb>, lo: Rgb, hi: Rgb)
    requires
        colors.len() > 0,
        forall|i: int|
            0 <= i < colors.len() ==> {
                &&& lo.0 <= (#[trigger] colors[i]).0 <= hi.0
                &&& lo.1 <= colors[i].1 <= hi.1
                &&& lo.2 <= colors[i].2 <= hi.2
            },
    ensures
        lo.0 <= mean(colors).0 <= hi.0,
        lo.1 <= mean(colors).1 <= hi.1,
        lo.2 <= mean(colors).2 <= hi.2,
{
    lemma_channel_sums_between(colors, lo, hi);
    lemma_channel_sums_bound(colors);
    let s = channel_sums(colors);
    let n = colors.len();
    lemma_div_between(s.0, n, lo.0 as nat, hi.0 as nat);
    lemma_div_between(s.1, n, lo.1 as nat, hi.1 as nat);
    lemma_div_between(s.2, n, lo.2 as nat, hi.2 as nat);
}

proof fn lemma_div_between(s: nat, n: nat, lo: nat, hi: nat)
    requires
        n > 0,
        lo * n <= s <= hi * n,
    ensures
        lo <= s / n <= hi,
{
    assert(lo <= s / n <= hi) by (nonlinear_arith)
        requires
            n > 0,
            lo * n <= s <= hi * n,
    ;
}

proof fn lemma_channel_sums_between(colors: Seq<Rgb>, lo: Rgb, hi: Rgb)
    requires
        forall|i: int|
            0 <= i < colors.len() ==> {
                &&& lo.0 <= (#[trigger] colors[i]).0 <= hi.0
                &&& lo.1 <= colors[i].1 <= hi.1
                &&& lo.2 <= colors[i].2 <= hi.2
            },
    ensures
        lo.0 as nat * colors.len() <= channel_sums(colors).0 <= hi.0 as nat * colors.len(),
        lo.1 as nat * colors.len() <= channel_sums(colors).1 <= hi.1 as nat * colors.len(),
        lo.2 as nat * colors.len() <= channel_sums(colors).2 <= hi.2 as nat * colors.len(),
    decreases colors.len(),
{
    if colors.len() > 0 {
        let rest = colors.drop_last();
        assert forall|i: int| 0 <= i < rest.len() implies {
            &&& lo.0 <= (#[trigger] rest[i]).0 <= hi.0
            &&& lo.1 <= rest[i].1 <= hi.1
            &&& lo.2 <= rest[i].2 <= hi.2
        } by {
            assert(rest[i] == colors[i]);
        }
        lemma_channel_sums_between(rest, lo, hi);
        let c = colors.last();
        assert(lo.0 <= c.0 <= hi.0);
        let n = rest.len();
        assert(lo.0 as nat * (n + 1) == lo.0 as nat * n + lo.0 as nat) by (nonlinear_arith);
        assert(hi.0 as nat * (n + 1) == hi.0 as nat * n + hi.0 as nat) by (nonlinear_arith);
        assert(lo.1 as nat * (n + 1) == lo.1 as nat * n + lo.1 as nat) by (nonlinear_arith);
        assert(hi.1 as nat * (n + 1) == hi.1 as nat * n + hi.1 as nat) by (nonlinear_arith);
        assert(lo.2 as nat * (n + 1) == lo.2 as nat * n + lo.2 as nat) by (nonlinear_arith);
        assert(hi.2 as nat * (n + 1) == hi.2 as nat * n + hi.2 as nat) by (nonlinear_arith);
    }
}

} // verus!
