use astra::fonts::FontRegistry;
use astra::hashing::{fnv_mix, path_element_hash, PathElementBits, SimpleRng, FNV_OFFSET, FNV_PRIME};
use astra::segments::{parse_segments, TextSegment};
use astra::{decode_if_woff2, encode_png, extract_scene_from_png, PNG_SCENE_METADATA_KEY};

fn show(segs: &[TextSegment<'_>]) -> Vec<String> {
    segs.iter()
        .map(|s| match s {
            TextSegment::Plain(t) => format!("P:{}", t),
            TextSegment::LaTeX(t) => format!("L:{}", t),
        })
        .collect()
}

#[test]
fn segments_plain_line() {
    assert_eq!(show(&parse_segments("hello")), vec!["P:hello"]);
    assert!(parse_segments("").is_empty());
}

#[test]
fn segments_with_formula() {
    assert_eq!(
        show(&parse_segments(r"area \$\pi r^2\$ of a circle")),
        vec![r"P:area ", r"L:\pi r^2", "P: of a circle"]
    );
    assert_eq!(show(&parse_segments(r"\$x\$\$y\$")), vec!["L:x", "L:y"]);
    assert_eq!(show(&parse_segments(r"\$\$")), vec!["L:"]);
}

#[test]
fn segments_unclosed_formula() {
    assert_eq!(show(&parse_segments(r"cost \$5")), vec!["P:cost ", r"P:\$", "P:5"]);
    assert_eq!(show(&parse_segments(r"end\$")), vec!["P:end", r"P:\$", "P:"]);
}

#[test]
fn segments_non_ascii() {
    assert_eq!(
        show(&parse_segments(r"é \$α+β\$ ü")),
        vec!["P:é ", "L:α+β", "P: ü"]
    );
}

#[test]
fn fnv_mix_is_fnv1a_step() {
    assert_eq!(fnv_mix(FNV_OFFSET, 0), FNV_OFFSET.wrapping_mul(FNV_PRIME));
    assert_eq!(fnv_mix(1, 1), 0);
}

#[test]
fn path_hash_folds_fnv_over_words() {
    let path = [
        PathElementBits::MoveTo(1, 2),
        PathElementBits::LineTo(3, 4),
        PathElementBits::QuadTo(5, 6, 7, 8),
        PathElementBits::CurveTo(9, 10, 11, 12, 13, 14),
        PathElementBits::ClosePath,
    ];
    let mut h = FNV_OFFSET;
    for v in [0x4D4C, 1, 2, 0x4D4C, 3, 4, 0x5154, 5, 6, 7, 8, 0x4356, 9, 10, 11, 12, 13, 14, 0x434C]
    {
        h = (h ^ v).wrapping_mul(FNV_PRIME);
    }
    assert_eq!(path_element_hash(&path), h);
    assert_eq!(path_element_hash(&[]), FNV_OFFSET);
    assert_ne!(
        path_element_hash(&[PathElementBits::MoveTo(1, 2)]),
        path_element_hash(&[PathElementBits::MoveTo(2, 1)])
    );
}

#[test]
fn rng_is_xorshift32() {
    let mut r = SimpleRng::new(1);
    assert_eq!(r.next_u32(), 270369);
    assert_eq!(r.next_u32(), 67634689);
    let mut z = SimpleRng::new(0);
    let mut one = SimpleRng::new(1);
    assert_eq!(z.next_u32(), one.next_u32());
}

#[test]
fn png_round_trip_keeps_scene_json() {
    let pixels = vec![255u8; 2 * 3 * 4];
    let json = r#"{"shapes":[],"name":"Untitled"}"#;
    let png = encode_png(&pixels, 2, 3, Some(json)).expect("encodes");
    assert_eq!(&png[..8], &[137, 80, 78, 71, 13, 10, 26, 10]);
    assert_eq!(extract_scene_from_png(&png).as_deref(), Some(json));
    assert_eq!(PNG_SCENE_METADATA_KEY, "application/vnd.astra+json");
}

#[test]
fn png_round_trip_latin1_and_long_scene() {
    let pixels = vec![7u8; 5 * 2 * 4];
    let mut json = String::from("{\"name\":\"café\",\"pad\":\"");
    for i in 0..200_000u32 {
        json.push(char::from(b'a' + (i % 26) as u8));
    }
    json.push_str("\"}");
    let png = encode_png(&pixels, 5, 2, Some(&json)).expect("encodes");
    assert_eq!(&png[..8], &[137, 80, 78, 71, 13, 10, 26, 10]);
    assert_eq!(extract_scene_from_png(&png), Some(json));
}

#[test]
fn png_without_scene_has_no_metadata() {
    let pixels = vec![0u8; 4];
    let png = encode_png(&pixels, 1, 1, None).expect("encodes");
    assert_eq!(&png[1..4], b"PNG");
    assert_eq!(extract_scene_from_png(&png), None);
}

#[test]
fn png_refuses_bad_input() {
    assert!(encode_png(&[0u8; 3], 1, 1, None).is_none());
    assert!(encode_png(&[], 0, 1, None).is_none());
    assert!(encode_png(&[0u8; 4], 1, 1, Some("snow ☃")).is_none());
    assert!(encode_png(&[0u8; 4], 1, 1, Some("café")).is_some());
    assert_eq!(extract_scene_from_png(b"not a png"), None);
}

#[test]
fn woff2_passthrough_and_fallback() {
    let ttf = vec![0u8, 1, 0, 0, 9, 9];
    assert_eq!(decode_if_woff2(ttf.clone()), ttf);
    let broken = b"wOF2 but not really a font".to_vec();
    assert_eq!(decode_if_woff2(broken.clone()), broken);
}

#[test]
fn font_registry_commit() {
    let mut reg = FontRegistry::new();
    let empty = reg.commit_fonts();
    assert!(empty.registered.is_empty());
    assert!(empty.primary_math_face.is_empty());
    reg.register_canvas_font(vec![1, 2, 3]);
    reg.register_canvas_font(vec![4, 5]);
    reg.register_math_font(vec![7]);
    reg.register_math_font(vec![8, 9]);
    let fonts = reg.commit_fonts();
    assert_eq!(fonts.registered, vec![vec![1, 2, 3], vec![4, 5]]);
    assert_eq!(fonts.xits_math, vec![8, 9]);
    assert_eq!(fonts.primary_math_face, vec![1, 2, 3]);
}

/// A WOFF2 file holding one `name` table with the bytes `ABCD`, stored in
/// an uncompressed Brotli meta-block.
fn tiny_woff2() -> Vec<u8> {
    let mut w = Vec::new();
    w.extend_from_slice(b"wOF2");
    w.extend_from_slice(&[0, 1, 0, 0]); // flavor: TrueType outlines
    w.extend_from_slice(&60u32.to_be_bytes()); // file length
    w.extend_from_slice(&1u16.to_be_bytes()); // one table
    w.extend_from_slice(&0u16.to_be_bytes()); // reserved
    w.extend_from_slice(&32u32.to_be_bytes()); // sfnt size
    w.extend_from_slice(&8u32.to_be_bytes()); // compressed size
    w.extend_from_slice(&[0; 4]); // version
    w.extend_from_slice(&[0; 20]); // no metadata, no private block
    w.extend_from_slice(&[5, 4]); // known tag 5 (`name`), table length 4
    w.extend_from_slice(&[0x30, 0x00, 0x10, b'A', b'B', b'C', b'D', 0x03]);
    w.extend_from_slice(&[0, 0]); // padding to a multiple of four
    w
}

#[test]
fn woff2_is_decompressed() {
    let woff = tiny_woff2();
    assert_eq!(woff.len(), 60);
    let font = decode_if_woff2(woff.clone());
    assert_ne!(font, woff);
    assert_eq!(&font[0..4], &[0, 1, 0, 0]);
    assert_eq!(&font[12..16], b"name");
    assert_eq!(&font[font.len() - 4..], b"ABCD");

    let mut reg = FontRegistry::new();
    reg.register_canvas_font(tiny_woff2());
    reg.register_math_font(tiny_woff2());
    let fonts = reg.commit_fonts();
    assert_eq!(fonts.registered, vec![font.clone()]);
    assert_eq!(fonts.xits_math, font);
}

#[test]
fn segments_empty_and_unmatched_shape() {
    assert!(parse_segments("").is_empty());
    let segs = parse_segments(r"a\$x\$b\$tail");
    assert_eq!(show(&segs), vec!["P:a", "L:x", "P:b", r"P:\$", "P:tail"]);
}
