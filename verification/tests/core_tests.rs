use std::sync::atomic::AtomicU32;

use astra::{generate_seed, parse_color, seed_from_counter, FillPattern, SerializableColor, Sloppiness, StrokeStyle};

#[test]
fn serializable_color_new_roundtrips_components() {
    let c = SerializableColor::new(10, 20, 30, 255);
    assert_eq!((c.r, c.g, c.b, c.a), (10, 20, 30, 255));
}

#[test]
fn serializable_color_black_is_opaque_zero_rgb() {
    let b = SerializableColor::black();
    assert_eq!((b.r, b.g, b.b, b.a), (0, 0, 0, 255));
}

#[test]
fn serializable_color_white_is_max_rgb_full_alpha() {
    let w = SerializableColor::white();
    assert_eq!((w.r, w.g, w.b, w.a), (255, 255, 255, 255));
}

#[test]
fn serializable_color_transparent_has_zero_alpha() {
    assert_eq!(SerializableColor::transparent().a, 0);
}

#[test]
fn sloppiness_next_cycles_through_all_variants() {
    assert_eq!(Sloppiness::Architect.next(), Sloppiness::Artist);
    assert_eq!(Sloppiness::Artist.next(), Sloppiness::Cartoonist);
    assert_eq!(Sloppiness::Cartoonist.next(), Sloppiness::Drunk);
    assert_eq!(Sloppiness::Drunk.next(), Sloppiness::Architect);
}

#[test]
fn fill_pattern_next_cycles() {
    assert_eq!(FillPattern::Solid.next(), FillPattern::Hachure);
    assert_eq!(FillPattern::ZigZagLine.next(), FillPattern::Solid);
}

#[test]
fn stroke_style_next_cycles() {
    assert_eq!(StrokeStyle::Solid.next(), StrokeStyle::Dashed);
    assert_eq!(StrokeStyle::Dashed.next(), StrokeStyle::Dotted);
    assert_eq!(StrokeStyle::Dotted.next(), StrokeStyle::Solid);
}

#[test]
fn generate_seed_produces_distinct_values() {
    let counter = AtomicU32::new(1);
    let a = generate_seed(&counter);
    let b = generate_seed(&counter);
    assert_ne!(a, b);
    assert_eq!(a, seed_from_counter(1));
    assert_eq!(b, seed_from_counter(2));
}

#[test]
fn parse_color_accepts_trimmed_six_digit_hex_with_hash() {
    let sc = parse_color("  #aabbcc  ").expect("valid hex");
    assert_eq!((sc.r, sc.g, sc.b, sc.a), (0xaa, 0xbb, 0xcc, 255));
}

#[test]
fn parse_color_rejects_invalid_inputs() {
    assert!(parse_color("").is_none());
    assert!(parse_color("#aabb").is_none());
    assert!(parse_color("#gg0000").is_none());
    assert!(parse_color("aabbcc").is_none());
    // Byte 5 falls inside `é`, but the first pair already fails to read.
    assert!(parse_color("#zzxéz").is_none());
    // Pairs that hold a whole multi-byte character do not read either.
    assert!(parse_color("#éa1b2").is_none());
    assert!(parse_color("#a1éb2").is_none());
}

#[test]
fn parse_color_accepts_uppercase_and_unicode_spaces() {
    let c = parse_color("\u{3000}\t#FF8000\u{2003}\n").unwrap();
    assert_eq!(c, SerializableColor::new(255, 128, 0, 255));
}

#[test]
fn parse_color_accepts_plus_signed_pairs() {
    // `u8::from_str_radix` accepts a leading plus sign.
    let c = parse_color("#+f0a+1").unwrap();
    assert_eq!(c, SerializableColor::new(15, 10, 1, 255));
}

#[test]
fn parse_color_rejects_minus_and_non_ascii() {
    assert!(parse_color("#-10000").is_none());
    assert!(parse_color("#aabbcé").is_none());
    assert!(parse_color("#aabbccdd").is_none());
    assert!(parse_color("# abcde").is_none());
}

#[test]
fn style_defaults() {
    assert_eq!(Sloppiness::default(), Sloppiness::Artist);
    assert_eq!(FillPattern::default(), FillPattern::Solid);
    assert_eq!(StrokeStyle::default(), StrokeStyle::Solid);
}

#[test]
fn seed_from_counter_exact_values() {
    fn mixed(counter: u32) -> u32 {
        let mut x = counter.wrapping_mul(0x9E3779B9);
        x ^= x >> 16;
        x = x.wrapping_mul(0x85EBCA6B);
        x ^= x >> 13;
        x = x.wrapping_mul(0xC2B2AE35);
        x ^= x >> 16;
        x
    }
    assert_eq!(seed_from_counter(0), 0);
    for c in [1u32, 2, 3, 1000, u32::MAX] {
        assert_eq!(seed_from_counter(c), mixed(c));
    }
    let seeds: Vec<u32> = (1u32..200).map(seed_from_counter).collect();
    for i in 0..seeds.len() {
        for j in (i + 1)..seeds.len() {
            assert_ne!(seeds[i], seeds[j]);
        }
    }
}

#[test]
fn style_cycles_return_to_start() {
    let mut s = Sloppiness::Drunk;
    for _ in 0..4 {
        s = s.next();
    }
    assert_eq!(s, Sloppiness::Drunk);
    let mut f = FillPattern::Dots;
    for _ in 0..7 {
        f = f.next();
    }
    assert_eq!(f, FillPattern::Dots);
}
