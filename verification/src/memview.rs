use vstd::prelude::*;

verus! {

/// The number of set bits among bits start .. start+n of `w`.
pub open spec fn bit_count(w: u64, start: nat, n: nat) -> nat
    decreases n,
{
    if n == 0 {
        0
    } else {
        bit_count(w, start, (n - 1) as nat) + ((w >> ((start + n - 1) as u64)) & 1) as nat
    }
}

/// A color channel: the bit count scaled, capped at 255, then dimmed to half.
pub open spec fn channel(count: int, scale: int) -> int {
    let v = if count * scale < 255 { count * scale } else { 255 };
    127 * v / 0xFF
}

/// The color a memory word is shown in: red counts the set bits 18..29 of
/// the word (with bit 29 forced on), green bits 9..20, blue bits 0..11; the
/// counts are scaled so that busier words are brighter.
pub open spec fn mem_color(value: u32) -> Seq<u8> {
    let wl = (value as u64) | 0x2000_0000;
    let r = bit_count(wl, 18, 12) as int;
    let g = bit_count(wl, 9, 12) as int;
    let b = bit_count(wl, 0, 12) as int;
    let scale = 624int / (r + g + b + 1);
    seq![channel(r, scale) as u8, channel(g, scale) as u8, channel(b, scale) as u8]
}

proof fn lemma_bit_le_one(w: u64, k: u64)
    ensures
        (w >> k) & 1 <= 1,
{
    assert((w >> k) & 1 <= 1) by (bit_vector);
}

proof fn lemma_channel_bound(count: int, scale: int)
    requires
        0 <= count,
        0 <= scale,
    ensures
        0 <= channel(count, scale) <= 127,
{
    let v = if count * scale < 255 { count * scale } else { 255 };
    assert(0 <= v) by (nonlinear_arith)
        requires
            v == if count * scale < 255 { count * scale } else { 255 },
            0 <= count,
            0 <= scale,
    ;
    assert(0 <= 127 * v / 0xFF <= 127) by (nonlinear_arith)
        requires
            0 <= v <= 255,
    ;
}

fn scaled_channel(count: u64, scale: u64) -> (c: u64)
    requires
        count <= 36,
        scale <= 624,
    ensures
        c == channel(count as int, scale as int),
{
    assert(count * scale <= 36 * 624) by (nonlinear_arith)
        requires
            count <= 36,
            scale <= 624,
    ;
    let p = count * scale;
    let v = if p < 255 {
        p
    } else {
        255
    };
    127 * v / 0xFF
}

/// The color of a memory word in the memory view.
pub fn calc_mem_color(value: u32) -> (c: [u8; 3])
    ensures
        c@ == mem_color(value),
{
    let wl = (value as u64) | 0x2000_0000;
    let mut r: u64 = 0;
    let mut g: u64 = 0;
    let mut b: u64 = 0;

    let mut x: u64 = 0;
    while x < 12
        invariant
            x <= 12,
            r == bit_count(wl, 18, x as nat),
            b == bit_count(wl, 0, x as nat),
            r <= x,
            b <= x,
        decreases 12 - x,
    {
        proof {
            lemma_bit_le_one(wl, (x + 18) as u64);
            lemma_bit_le_one(wl, x);
        }
        r = r + ((wl >> (x + 18)) & 1);
        b = b + ((wl >> x) & 1);
        x = x + 1;
    }
    let mut x: u64 = 0;
    while x < 12
        invariant
            x <= 12,
            g == bit_count(wl, 9, x as nat),
            g <= x,
        decreases 12 - x,
    {
        proof {
            lemma_bit_le_one(wl, (x + 9) as u64);
        }
        g = g + ((wl >> (x + 9)) & 1);
        x = x + 1;
    }

    let scale = 624 / (r + g + b + 1);
    let rc = scaled_channel(r, scale);
    let gc = scaled_channel(g, scale);
    let bc = scaled_channel(b, scale);
    proof {
        lemma_channel_bound(r as int, scale as int);
        lemma_channel_bound(g as int, scale as int);
        lemma_channel_bound(b as int, scale as int);
    }
    let c = [rc as u8, gc as u8, bc as u8];
    assert(c@ =~= mem_color(value));
    c
}

} // verus!
