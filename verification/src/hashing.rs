use vstd::prelude::*;

verus! {

/// The FNV-1a 64-bit offset basis.
pub const FNV_OFFSET: u64 = 14695981039346656037;

/// The FNV-1a 64-bit prime.
pub const FNV_PRIME: u64 = 1099511628211;

/// One FNV-1a step: xor in the value, then multiply by the prime modulo 2^64.
pub open spec fn fnv_step(h: u64, v: u64) -> u64 {
    (((h ^ v) as nat * FNV_PRIME as nat) % 0x1_0000_0000_0000_0000) as u64
}

/// Mixes one 64-bit value into a running FNV-1a hash.
pub fn fnv_mix(h: u64, v: u64) -> (r: u64)
    ensures
        r == fnv_step(h, v),
{
    (h ^ v).wrapping_mul(FNV_PRIME)
}

/// One element of a path, with each coordinate given by the bit pattern of
/// its `f64` value.
#[derive(Debug, Clone, Copy, PartialEq, Eq, Structural)]
pub enum PathElementBits {
    MoveTo(u64, u64),
    LineTo(u64, u64),
    QuadTo(u64, u64, u64, u64),
    CurveTo(u64, u64, u64, u64, u64, u64),
    ClosePath,
}

/// The values fed into the hash for one element: a tag for its kind
/// (move-to and line-to share one) followed by its coordinates' bits.
pub open spec fn element_words(el: PathElementBits) -> Seq<u64> {
    match el {
        PathElementBits::MoveTo(x, y) => seq![0x4D4Cu64, x, y],
        PathElementBits::LineTo(x, y) => seq![0x4D4Cu64, x, y],
        PathElementBits::QuadTo(x1, y1, x2, y2) => seq![0x5154u64, x1, y1, x2, y2],
        PathElementBits::CurveTo(x1, y1, x2, y2, x3, y3) => seq![
            0x4356u64,
            x1,
            y1,
            x2,
            y2,
            x3,
            y3,
        ],
        PathElementBits::ClosePath => seq![0x434Cu64],
    }
}

/// The hash after mixing in `words` one after another, starting from `h`.
pub open spec fn fnv_fold(h: u64, words: Seq<u64>) -> u64
    decreases words.len(),
{
    if words.len() == 0 {
        h
    } else {
        fnv_fold(fnv_step(h, words[0]), words.drop_first())
    }
}

/// The words of a whole path, element after element.
pub open spec fn path_words(els: Seq<PathElementBits>) -> Seq<u64>
    decreases els.len(),
{
    if els.len() == 0 {
        seq![]
    } else {
        path_words(els.drop_last()) + element_words(els.last())
    }
}

proof fn lemma_fnv_fold_concat(h: u64, a: Seq<u64>, b: Seq<u64>)
    ensures
        fnv_fold(h, a + b) == fnv_fold(fnv_fold(h, a), b),
    decreases a.len(),
{
    if a.len() == 0 {
        assert(a + b =~= b);
    } else {
        assert((a + b).drop_first() =~= a.drop_first() + b);
        lemma_fnv_fold_concat(fnv_step(h, a[0]), a.drop_first(), b);
    }
}

/// Hashing a path built from two parts is hashing the second part starting
/// from the hash of the first.
pub proof fn lemma_path_hash_concat(a: Seq<PathElementBits>, b: Seq<PathElementBits>)
    ensures
        fnv_fold(FNV_OFFSET, path_words(a + b)) == fnv_fold(
            fnv_fold(FNV_OFFSET, path_words(a)),
            path_words(b),
        ),
    decreases b.len(),
{
    lemma_path_words_concat(a, b);
    lemma_fnv_fold_concat(FNV_OFFSET, path_words(a), path_words(b));
}

proof fn lemma_path_words_concat(a: Seq<PathElementBits>, b: Seq<PathElementBits>)
    ensures
        path_words(a + b) == path_words(a) + path_words(b),
    decreases b.len(),
{
    if b.len() == 0 {
        assert(a + b =~= a);
        assert(path_words(a) + path_words(b) =~= path_words(a));
    } else {
        assert((a + b).drop_last() =~= a + b.drop_last());
        lemma_path_words_concat(a, b.drop_last());
        assert(path_words(a + b) =~= path_words(a) + path_words(b));
    }
}

fn mix_words(h: u64, words: &[u64]) -> (r: u64)
    ensures
        r == fnv_fold(h, words@),
{
    let mut acc = h;
    let mut i: usize = 0;
    assert(words@.skip(0) =~= words@);
    while i < words.len()
        invariant
            i <= words@.len(),
            fnv_fold(h, words@) == fnv_fold(acc, words@.skip(i as int)),
        decreases words.len() - i,
    {
        assert(words@.skip(i as int).drop_first() =~= words@.skip(i + 1));
        acc = fnv_mix(acc, words[i]);
        i = i + 1;
    }
    assert(words@.skip(i as int) =~= Seq::<u64>::empty());
    acc
}

/// A structural hash of a path: FNV-1a over each element's kind tag and
/// coordinate bits, in order. Equal paths hash equally, so the hash can key
/// a cache of derived geometry.
pub fn path_element_hash(path: &[PathElementBits]) -> (h: u64)
    ensures
        h == fnv_fold(FNV_OFFSET, path_words(path@)),
{
    let mut h = FNV_OFFSET;
    let mut i: usize = 0;
    while i < path.len()
        invariant
            i <= path@.len(),
            h == fnv_fold(FNV_OFFSET, path_words(path@.take(i as int))),
        decreases path.len() - i,
    {
        let ghost before = path@.take(i as int);
        let el = path[i];
        let words: [u64; 7];
        let n: usize;
        match el {
            PathElementBits::MoveTo(x, y) | PathElementBits::LineTo(x, y) => {
                words = [0x4D4C, x, y, 0, 0, 0, 0];
                n = 3;
            },
            PathElementBits::QuadTo(x1, y1, x2, y2) => {
                words = [0x5154, x1, y1, x2, y2, 0, 0];
                n = 5;
            },
            PathElementBits::CurveTo(x1, y1, x2, y2, x3, y3) => {
                words = [0x4356, x1, y1, x2, y2, x3, y3];
                n = 7;
            },
            PathElementBits::ClosePath => {
                words = [0x434C, 0, 0, 0, 0, 0, 0];
                n = 1;
            },
        }
        let slice = words.as_slice();
        let mut part: Vec<u64> = Vec::new();
        let mut k: usize = 0;
        while k < n
            invariant
                k <= n <= 7,
                slice@.len() == 7,
                part@ == slice@.take(k as int),
            decreases n - k,
        {
            part.push(slice[k]);
            k = k + 1;
            assert(part@ =~= slice@.take(k as int));
        }
        assert(part@ =~= element_words(el));
        h = mix_words(h, part.as_slice());
        proof {
            assert(path@.take(i + 1).drop_last() =~= before);
            lemma_fnv_fold_concat(FNV_OFFSET, path_words(before), element_words(el));
        }
        i = i + 1;
    }
    assert(path@.take(i as int) =~= path@);
    h
}

// ---------------------------------------------------------------------------
// The pseudo-random source of the hand-drawn effect
// ---------------------------------------------------------------------------

/// One step of Marsaglia's 32-bit xorshift generator (shifts 13, 17, 5).
pub open spec fn xorshift32(x: u32) -> u32 {
    let a = x ^ ((x << 13u32) as u32);
    let b = a ^ (a >> 17u32);
    b ^ ((b << 5u32) as u32)
}

/// A small deterministic pseudo-random generator: the wobble of a
/// hand-drawn stroke is derived from the shape's seed, so a shape looks the
/// same every time it is drawn.
pub struct SimpleRng {
    state: u32,
}

impl View for SimpleRng {
    type V = u32;

    closed spec fn view(&self) -> u32 {
        self.state
    }
}

proof fn lemma_xorshift32_nonzero(x: u32)
    requires
        x != 0,
    ensures
        xorshift32(x) != 0,
{
    let a = x ^ ((x << 13u32) as u32);
    let b = a ^ (a >> 17u32);
    assert(x != 0 ==> (x ^ ((x << 13u32) as u32)) != 0) by (bit_vector);
    assert(a != 0 ==> (a ^ (a >> 17u32)) != 0) by (bit_vector);
    assert(b != 0 ==> (b ^ ((b << 5u32) as u32)) != 0) by (bit_vector);
}

impl SimpleRng {
    #[verifier::type_invariant]
    spec fn inv(self) -> bool {
        self.state != 0
    }

    /// A generator seeded with `seed`; a zero seed (which xorshift cannot
    /// leave) is replaced by one.
    pub fn new(seed: u32) -> (r: Self)
        ensures
            r@ == (if seed == 0 {
                1u32
            } else {
                seed
            }),
    {
        let state = if seed < 1 {
            1
        } else {
            seed
        };
        SimpleRng { state }
    }

    /// The next number: one xorshift step from the current state, which
    /// becomes the new state. It is never zero, the one state xorshift
    /// cannot leave.
    pub fn next_u32(&mut self) -> (x: u32)
        ensures
            x == xorshift32(old(self)@),
            final(self)@ == x,
            x != 0,
    {
        proof {
            use_type_invariant(&*self);
            lemma_xorshift32_nonzero(self.state);
        }
        let mut x = self.state;
        x ^= x << 13;
        x ^= x >> 17;
        x ^= x << 5;
        self.state = x;
        x
    }
}

} // verus!
