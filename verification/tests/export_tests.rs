use astra::{
    cut_spans, export_plan, padded_bytes_per_row, should_embed_metadata, stitch_row, unpad_rows,
    ExportError, MAX_SHAPES_FOR_METADATA, STRIP_HEIGHT,
};

#[test]
fn metadata_limit() {
    assert!(should_embed_metadata(0));
    assert!(should_embed_metadata(MAX_SHAPES_FOR_METADATA));
    assert!(!should_embed_metadata(MAX_SHAPES_FOR_METADATA + 1));
}

#[test]
fn row_pitch_is_256_aligned() {
    assert_eq!(padded_bytes_per_row(0), 0);
    assert_eq!(padded_bytes_per_row(1), 256);
    assert_eq!(padded_bytes_per_row(64), 256);
    assert_eq!(padded_bytes_per_row(65), 512);
    assert_eq!(padded_bytes_per_row(800), 3328);
}

#[test]
fn unpad_drops_row_padding() {
    // 2x2 image, rows 12 bytes apart (8 bytes of pixels, 4 of padding).
    let data: Vec<u8> = (0u8..24).collect();
    let rgba = unpad_rows(&data, 2, 2, 12);
    assert_eq!(rgba, vec![0, 1, 2, 3, 4, 5, 6, 7, 12, 13, 14, 15, 16, 17, 18, 19]);
}

#[test]
fn spans_cut_exactly() {
    assert_eq!(cut_spans(1000, 512), vec![(0, 512), (512, 488)]);
    assert_eq!(cut_spans(1024, 512), vec![(0, 512), (512, 512)]);
    assert_eq!(cut_spans(0, 512), vec![]);
    assert_eq!(cut_spans(5, 1), vec![(0, 1), (1, 1), (2, 1), (3, 1), (4, 1)]);
}

#[test]
fn export_plan_tiles() {
    assert_eq!(export_plan(0, 10, 4096).err(), Some(ExportError::EmptyDimensions));
    assert_eq!(export_plan(10, 0, 4096).err(), Some(ExportError::EmptyDimensions));
    let p = export_plan(3000, 1000, 2048).ok().unwrap();
    assert_eq!(p.tile_w, 2048);
    assert_eq!(p.tile_h, STRIP_HEIGHT);
    assert_eq!(p.columns, vec![(0, 2048), (2048, 952)]);
    assert_eq!(p.strips, vec![(0, 512), (512, 488)]);
    let small = export_plan(100, 40, 8192).ok().unwrap();
    assert_eq!((small.tile_w, small.tile_h), (100, 40));
    let tiny_tex = export_plan(100, 40, 16).ok().unwrap();
    assert_eq!((tiny_tex.tile_w, tiny_tex.tile_h), (16, 16));
    assert_eq!(tiny_tex.columns.len(), 7);
}

#[test]
fn stitch_joins_tile_rows() {
    // Two tiles, 1 and 2 pixels wide, each 2 rows high.
    let a: Vec<u8> = vec![1, 1, 1, 1, 2, 2, 2, 2];
    let b: Vec<u8> = (10u8..26).collect();
    let tiles = vec![(a, 1u32), (b, 2u32)];
    assert_eq!(stitch_row(&tiles, 0), vec![1, 1, 1, 1, 10, 11, 12, 13, 14, 15, 16, 17]);
    assert_eq!(stitch_row(&tiles, 1), vec![2, 2, 2, 2, 18, 19, 20, 21, 22, 23, 24, 25]);
}

#[test]
fn export_error_text() {
    assert_eq!(ExportError::EmptyDimensions.to_string(), "Empty dimensions");
}

#[test]
fn export_plan_near_the_u32_limit() {
    // A width just under the limit still plans when one tile spans it.
    let p = export_plan(u32::MAX - 1, 1, u32::MAX).ok().unwrap();
    assert_eq!(p.tile_w, u32::MAX - 1);
    assert_eq!(p.columns, vec![(0, u32::MAX - 1)]);
    // Tiles that end exactly on the limit.
    let q = export_plan(u32::MAX, 1, u32::MAX / 3).ok().unwrap();
    assert_eq!(q.columns.len(), 3);
    assert_eq!(q.columns[2], (2 * (u32::MAX / 3), u32::MAX / 3));
}

#[test]
fn unpad_rows_with_overlapping_rows_and_short_last_row() {
    // Rows 2 bytes apart but 4 bytes wide; the buffer ends with the last row.
    let data: Vec<u8> = (0u8..8).collect();
    let rgba = unpad_rows(&data, 1, 3, 2);
    assert_eq!(rgba, vec![0, 1, 2, 3, 2, 3, 4, 5, 4, 5, 6, 7]);
    assert!(unpad_rows(&[], 5, 0, 100).is_empty());
}
