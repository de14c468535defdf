use vstd::prelude::*;

verus! {

// ---------------------------------------------------------------------------
// Sloppiness
// ---------------------------------------------------------------------------

/// How rough the hand-drawn look of a stroke is, from ruler-straight to shaky.
#[derive(Debug, Clone, Copy, PartialEq, Eq, Structural)]
pub enum Sloppiness {
    Architect,
    Artist,
    Cartoonist,
    Drunk,
}

impl Sloppiness {
    /// The position of the variant in declaration order (its discriminant).
    pub open spec fn ordinal(self) -> nat {
        match self {
            Sloppiness::Architect => 0,
            Sloppiness::Artist => 1,
            Sloppiness::Cartoonist => 2,
            Sloppiness::Drunk => 3,
        }
    }

    /// `next` applied `k` times.
    pub open spec fn advanced(self, k: nat) -> Sloppiness
        decreases k,
    {
        if k == 0 {
            self
        } else {
            self.advanced((k - 1) as nat).spec_next()
        }
    }

    /// The variant that `next` yields.
    pub open spec fn spec_next(self) -> Sloppiness {
        match self {
            Sloppiness::Architect => Sloppiness::Artist,
            Sloppiness::Artist => Sloppiness::Cartoonist,
            Sloppiness::Cartoonist => Sloppiness::Drunk,
            Sloppiness::Drunk => Sloppiness::Architect,
        }
    }

    /// The following level, wrapping from the roughest back to the smoothest.
    pub fn next(self) -> (n: Self)
        ensures
            n == self.spec_next(),
            n.ordinal() == (self.ordinal() + 1) % 4,
    {
        match self {
            Sloppiness::Architect => Sloppiness::Artist,
            Sloppiness::Artist => Sloppiness::Cartoonist,
            Sloppiness::Cartoonist => Sloppiness::Drunk,
            Sloppiness::Drunk => Sloppiness::Architect,
        }
    }
}

impl Default for Sloppiness {
    fn default() -> (s: Self)
        ensures
            s == Sloppiness::Artist,
    {
        Sloppiness::Artist
    }
}

proof fn lemma_sloppiness_advanced(s: Sloppiness, k: nat)
    ensures
        s.advanced(k).ordinal() == (s.ordinal() + k) % 4,
    decreases k,
{
    if k > 0 {
        lemma_sloppiness_advanced(s, (k - 1) as nat);
    }
}

/// Cycling `next` visits every sloppiness level, each once, and comes back to
/// where it started after four steps.
pub proof fn lemma_sloppiness_cycle(s: Sloppiness, t: Sloppiness)
    ensures
        s.advanced(4) == s,
        exists|k: nat| k < 4 && #[trigger] s.advanced(k) == t,
        forall|i: nat, j: nat| i < j < 4 ==> s.advanced(i) != s.advanced(j),
{
    lemma_sloppiness_advanced(s, 4);
    let k = ((t.ordinal() + 4 - s.ordinal()) % 4) as nat;
    lemma_sloppiness_advanced(s, k);
    assert(s.advanced(k) == t);
    assert forall|i: nat, j: nat| i < j < 4 implies s.advanced(i) != s.advanced(j) by {
        lemma_sloppiness_advanced(s, i);
        lemma_sloppiness_advanced(s, j);
    }
}

// ---------------------------------------------------------------------------
// Fill pattern
// ---------------------------------------------------------------------------

/// How the inside of a closed shape is painted.
#[derive(Debug, Clone, Copy, PartialEq, Eq, Structural)]
pub enum FillPattern {
    Solid,
    Hachure,
    ZigZag,
    CrossHatch,
    Dots,
    Dashed,
    ZigZagLine,
}

impl FillPattern {
    /// The position of the variant in declaration order.
    pub open spec fn ordinal(self) -> nat {
        match self {
            FillPattern::Solid => 0,
            FillPattern::Hachure => 1,
            FillPattern::ZigZag => 2,
            FillPattern::CrossHatch => 3,
            FillPattern::Dots => 4,
            FillPattern::Dashed => 5,
            FillPattern::ZigZagLine => 6,
        }
    }

    /// The variant that `next` yields.
    pub open spec fn spec_next(self) -> FillPattern {
        match self {
            FillPattern::Solid => FillPattern::Hachure,
            FillPattern::Hachure => FillPattern::ZigZag,
            FillPattern::ZigZag => FillPattern::CrossHatch,
            FillPattern::CrossHatch => FillPattern::Dots,
            FillPattern::Dots => FillPattern::Dashed,
            FillPattern::Dashed => FillPattern::ZigZagLine,
            FillPattern::ZigZagLine => FillPattern::Solid,
        }
    }

    /// `next` applied `k` times.
    pub open spec fn advanced(self, k: nat) -> FillPattern
        decreases k,
    {
        if k == 0 {
            self
        } else {
            self.advanced((k - 1) as nat).spec_next()
        }
    }

    /// The following pattern in declaration order, wrapping around.
    pub fn next(self) -> (n: Self)
        ensures
            n == self.spec_next(),
            n.ordinal() == (self.ordinal() + 1) % 7,
    {
        match self {
            FillPattern::Solid => FillPattern::Hachure,
            FillPattern::Hachure => FillPattern::ZigZag,
            FillPattern::ZigZag => FillPattern::CrossHatch,
            FillPattern::CrossHatch => FillPattern::Dots,
            FillPattern::Dots => FillPattern::Dashed,
            FillPattern::Dashed => FillPattern::ZigZagLine,
            FillPattern::ZigZagLine => FillPattern::Solid,
        }
    }
}

impl Default for FillPattern {
    fn default() -> (p: Self)
        ensures
            p == FillPattern::Solid,
    {
        FillPattern::Solid
    }
}

proof fn lemma_fill_pattern_advanced(p: FillPattern, k: nat)
    ensures
        p.advanced(k).ordinal() == (p.ordinal() + k) % 7,
    decreases k,
{
    if k > 0 {
        lemma_fill_pattern_advanced(p, (k - 1) as nat);
    }
}

/// Cycling `next` visits every fill pattern, each once, and comes back to
/// where it started after seven steps.
pub proof fn lemma_fill_pattern_cycle(p: FillPattern, q: FillPattern)
    ensures
        p.advanced(7) == p,
        exists|k: nat| k < 7 && #[trigger] p.advanced(k) == q,
        forall|i: nat, j: nat| i < j < 7 ==> p.advanced(i) != p.advanced(j),
{
    lemma_fill_pattern_advanced(p, 7);
    let k = ((q.ordinal() + 7 - p.ordinal()) % 7) as nat;
    lemma_fill_pattern_advanced(p, k);
    assert(p.advanced(k) == q);
    assert forall|i: nat, j: nat| i < j < 7 implies p.advanced(i) != p.advanced(j) by {
        lemma_fill_pattern_advanced(p, i);
        lemma_fill_pattern_advanced(p, j);
    }
}

// ---------------------------------------------------------------------------
// Stroke style
// ---------------------------------------------------------------------------

/// How the outline of a shape is dashed.
#[derive(Debug, Clone, Copy, PartialEq, Eq, Structural)]
pub enum StrokeStyle {
    Solid,
    Dashed,
    Dotted,
}

impl StrokeStyle {
    /// The position of the variant in declaration order.
    pub open spec fn ordinal(self) -> nat {
        match self {
            StrokeStyle::Solid => 0,
            StrokeStyle::Dashed => 1,
            StrokeStyle::Dotted => 2,
        }
    }

    /// The variant that `next` yields.
    pub open spec fn spec_next(self) -> StrokeStyle {
        match self {
            StrokeStyle::Solid => StrokeStyle::Dashed,
            StrokeStyle::Dashed => StrokeStyle::Dotted,
            StrokeStyle::Dotted => StrokeStyle::Solid,
        }
    }

    /// `next` applied `k` times.
    pub open spec fn advanced(self, k: nat) -> StrokeStyle
        decreases k,
    {
        if k == 0 {
            self
        } else {
            self.advanced((k - 1) as nat).spec_next()
        }
    }

    /// The following stroke style in declaration order, wrapping around.
    pub fn next(self) -> (n: Self)
        ensures
            n == self.spec_next(),
            n.ordinal() == (self.ordinal() + 1) % 3,
    {
        match self {
            StrokeStyle::Solid => StrokeStyle::Dashed,
            StrokeStyle::Dashed => StrokeStyle::Dotted,
            StrokeStyle::Dotted => StrokeStyle::Solid,
        }
    }
}

impl Default for StrokeStyle {
    fn default() -> (s: Self)
        ensures
            s == StrokeStyle::Solid,
    {
        StrokeStyle::Solid
    }
}

proof fn lemma_stroke_style_advanced(s: StrokeStyle, k: nat)
    ensures
        s.advanced(k).ordinal() == (s.ordinal() + k) % 3,
    decreases k,
{
    if k > 0 {
        lemma_stroke_style_advanced(s, (k - 1) as nat);
    }
}

/// Cycling `next` visits every stroke style, each once, and comes back to
/// where it started after three steps.
pub proof fn lemma_stroke_style_cycle(s: StrokeStyle, t: StrokeStyle)
    ensures
        s.advanced(3) == s,
        exists|k: nat| k < 3 && #[trigger] s.advanced(k) == t,
        forall|i: nat, j: nat| i < j < 3 ==> s.advanced(i) != s.advanced(j),
{
    lemma_stroke_style_advanced(s, 3);
    let k = ((t.ordinal() + 3 - s.ordinal()) % 3) as nat;
    lemma_stroke_style_advanced(s, k);
    assert(s.advanced(k) == t);
    assert forall|i: nat, j: nat| i < j < 3 implies s.advanced(i) != s.advanced(j) by {
        lemma_stroke_style_advanced(s, i);
        lemma_stroke_style_advanced(s, j);
    }
}

// ---------------------------------------------------------------------------
// Seeds for the hand-drawn effect
// ---------------------------------------------------------------------------

/// `x * c` reduced modulo 2^32, as `u32::wrapping_mul` computes it.
pub open spec fn wrapped_product(x: u32, c: u32) -> u32 {
    ((x * c) % 0x1_0000_0000) as u32
}

/// The seed derived from the `counter`-th draw: the counter scrambled by
/// alternating odd multiplications and xor-shifts.
pub open spec fn seed_mix(counter: u32) -> u32 {
    let x1 = wrapped_product(counter, 0x9E37_79B9);
    let x2 = x1 ^ (x1 >> 16u32);
    let x3 = wrapped_product(x2, 0x85EB_CA6B);
    let x4 = x3 ^ (x3 >> 13u32);
    let x5 = wrapped_product(x4, 0xC2B2_AE35);
    x5 ^ (x5 >> 16u32)
}

/// Scrambles a draw counter into a seed for the hand-drawn stroke effect.
/// The counter itself is process-wide state kept by the caller.
pub fn seed_from_counter(counter: u32) -> (seed: u32)
    ensures
        seed == seed_mix(counter),
{
    let mut x = counter.wrapping_mul(0x9E37_79B9);
    x ^= x >> 16;
    x = x.wrapping_mul(0x85EB_CA6B);
    x ^= x >> 13;
    x = x.wrapping_mul(0xC2B2_AE35);
    x ^= x >> 16;
    x
}

/// A fresh seed for a shape's hand-drawn look: takes the next value of the
/// process-wide draw `counter` and scrambles it. The value taken depends on
/// every earlier draw, so all that is known of the seed is that it is the
/// scramble of some counter value.
pub fn generate_seed(counter: &std::sync::atomic::AtomicU32) -> (seed: u32)
    ensures
        exists|c: u32| seed == seed_mix(c),
{
    let c = counter.fetch_add(1, std::sync::atomic::Ordering::Relaxed);
    seed_from_counter(c)
}

proof fn lemma_mul_9e37_injective(a: u32, b: u32)
    requires
        wrapped_product(a, 0x9E37_79B9) == wrapped_product(b, 0x9E37_79B9),
    ensures
        a == b,
{
    assert(((((a * 0x9E37_79B9u32) % 0x1_0000_0000) as u32 * 0x144C_BC89u32) % 0x1_0000_0000) as u32
        == a) by (bit_vector);
    assert(((((b * 0x9E37_79B9u32) % 0x1_0000_0000) as u32 * 0x144C_BC89u32) % 0x1_0000_0000) as u32
        == b) by (bit_vector);
}

proof fn lemma_mul_85eb_injective(a: u32, b: u32)
    requires
        wrapped_product(a, 0x85EB_CA6B) == wrapped_product(b, 0x85EB_CA6B),
    ensures
        a == b,
{
    assert(((((a * 0x85EB_CA6Bu32) % 0x1_0000_0000) as u32 * 0xA5CB_9243u32) % 0x1_0000_0000) as u32
        == a) by (bit_vector);
    assert(((((b * 0x85EB_CA6Bu32) % 0x1_0000_0000) as u32 * 0xA5CB_9243u32) % 0x1_0000_0000) as u32
        == b) by (bit_vector);
}

proof fn lemma_mul_c2b2_injective(a: u32, b: u32)
    requires
        wrapped_product(a, 0xC2B2_AE35) == wrapped_product(b, 0xC2B2_AE35),
    ensures
        a == b,
{
    assert(((((a * 0xC2B2_AE35u32) % 0x1_0000_0000) as u32 * 0x7ED1_B41Du32) % 0x1_0000_0000) as u32
        == a) by (bit_vector);
    assert(((((b * 0xC2B2_AE35u32) % 0x1_0000_0000) as u32 * 0x7ED1_B41Du32) % 0x1_0000_0000) as u32
        == b) by (bit_vector);
}

proof fn lemma_xorshift_injective(a: u32, b: u32)
    ensures
        (a ^ (a >> 16u32)) == (b ^ (b >> 16u32)) ==> a == b,
        (a ^ (a >> 13u32)) == (b ^ (b >> 13u32)) ==> a == b,
{
    assert((a ^ (a >> 16u32)) == (b ^ (b >> 16u32)) ==> a == b) by (bit_vector);
    assert((a ^ (a >> 13u32)) == (b ^ (b >> 13u32)) ==> a == b) by (bit_vector);
}

/// Distinct draw counters give distinct seeds: the scrambling is a
/// bijection on `u32`, so seeds drawn from a counter that advances by one per
/// draw never repeat until the counter wraps.
pub proof fn lemma_seed_mix_injective(a: u32, b: u32)
    requires
        a != b,
    ensures
        seed_mix(a) != seed_mix(b),
{
    let a1 = wrapped_product(a, 0x9E37_79B9);
    let b1 = wrapped_product(b, 0x9E37_79B9);
    let a2 = a1 ^ (a1 >> 16u32);
    let b2 = b1 ^ (b1 >> 16u32);
    let a3 = wrapped_product(a2, 0x85EB_CA6B);
    let b3 = wrapped_product(b2, 0x85EB_CA6B);
    let a4 = a3 ^ (a3 >> 13u32);
    let b4 = b3 ^ (b3 >> 13u32);
    let a5 = wrapped_product(a4, 0xC2B2_AE35);
    let b5 = wrapped_product(b4, 0xC2B2_AE35);
    if seed_mix(a) == seed_mix(b) {
        lemma_xorshift_injective(a5, b5);
        lemma_mul_c2b2_injective(a4, b4);
        lemma_xorshift_injective(a3, b3);
        lemma_mul_85eb_injective(a2, b2);
        lemma_xorshift_injective(a1, b1);
        lemma_mul_9e37_injective(a, b);
    }
}

} // verus!
