use vstd::prelude::*;
use vstd::string::StringExecFns;

verus! {

/// Height, in pixels, of the horizontal strips a large image is exported in.
pub const STRIP_HEIGHT: u32 = 512;

/// Scenes with more shapes than this are exported without the embedded
/// scene JSON.
pub const MAX_SHAPES_FOR_METADATA: usize = 50_000;

/// Whether an export of a document with `shape_count` shapes embeds the
/// scene JSON in the PNG.
pub fn should_embed_metadata(shape_count: usize) -> (b: bool)
    ensures
        b == (shape_count <= MAX_SHAPES_FOR_METADATA),
{
    shape_count <= MAX_SHAPES_FOR_METADATA
}

/// The pixels of a rendered image: `width * height` RGBA pixels, row by row.
#[derive(Debug)]
pub struct PngRenderResult {
    pub rgba_data: Vec<u8>,
    pub width: u32,
    pub height: u32,
}

/// Finishes an off-screen render of a `width` by `height` image from what
/// the read-back gave (`None` where it failed): an image without pixels,
/// or a failed read-back, gives no result.
pub fn png_render_result(rgba_data: Option<Vec<u8>>, width: u32, height: u32) -> (r: Option<
    PngRenderResult,
>)
    ensures
        r is Some <==> (width != 0 && height != 0 && rgba_data is Some),
        r matches Some(res) ==> {
            &&& res.width == width
            &&& res.height == height
            &&& rgba_data matches Some(d)
            &&& res.rgba_data@ == d@
        },
{
    if width == 0 || height == 0 {
        return None;
    }
    match rgba_data {
        Some(d) => Some(PngRenderResult { rgba_data: d, width, height }),
        None => None,
    }
}

// ---------------------------------------------------------------------------
// Row padding of GPU read-back buffers
// ---------------------------------------------------------------------------

/// `n` rounded up to a multiple of 256.
pub open spec fn round_up_256(n: int) -> int {
    ((n + 255) / 256) * 256
}

/// The row pitch of a read-back buffer for an RGBA image `width` pixels wide:
/// four bytes per pixel, rounded up to the 256-byte alignment that texture
/// copies require.
pub fn padded_bytes_per_row(width: u32) -> (pitch: u32)
    requires
        round_up_256(width * 4) <= u32::MAX,
    ensures
        pitch == round_up_256(width * 4),
        pitch % 256 == 0,
        width * 4 <= pitch < width * 4 + 256,
{
    let n = width * 4;
    let r = n % 256;
    if r == 0 {
        n
    } else {
        n + (256 - r)
    }
}

/// Copies the pixel rows out of a read-back buffer whose rows are
/// `bytes_per_row` bytes apart, dropping the padding at the end of each row:
/// the result holds `height` rows of `width * 4` bytes each.
pub fn unpad_rows(data: &[u8], width: u32, height: u32, bytes_per_row: u32) -> (rgba: Vec<u8>)
    requires
        width * height * 4 <= u32::MAX,
        height > 0 ==> (height - 1) * bytes_per_row <= u32::MAX,
        height > 0 ==> (height - 1) * bytes_per_row + width * 4 <= data@.len(),
    ensures
        rgba@.len() == width * 4 * height,
        forall|r: int, c: int|
            0 <= r < height && 0 <= c < width * 4 ==> #[trigger] rgba@[r * (width * 4) + c]
                == data@[r * bytes_per_row + c],
{
    proof {
        assert(width * 4 <= width * height * 4 || height == 0) by (nonlinear_arith)
            requires
                height >= 0,
                width >= 0,
        ;
    }
    let row_bytes: usize = if height == 0 {
        0
    } else {
        (width * 4) as usize
    };
    let data_len: usize = data.len();
    let mut rgba: Vec<u8> = Vec::new();
    let mut row: u32 = 0;
    while row < height
        invariant
            row <= height,
            data_len == data@.len(),
            height > 0 ==> row_bytes == width * 4,
            height > 0 ==> (height - 1) * bytes_per_row <= u32::MAX,
            height > 0 ==> (height - 1) * bytes_per_row + width * 4 <= data@.len(),
            rgba@.len() == row * row_bytes,
            forall|r: int, c: int|
                0 <= r < row && 0 <= c < row_bytes ==> #[trigger] rgba@[r * row_bytes + c]
                    == data@[r * bytes_per_row + c],
        decreases height - row,
    {
        proof {
            assert(row * bytes_per_row <= (height - 1) * bytes_per_row) by (nonlinear_arith)
                requires
                    row < height,
            ;
        }
        let start: usize = (row * bytes_per_row) as usize;
        let mut c: usize = 0;
        let ghost before = rgba@;
        while c < row_bytes
            invariant
                c <= row_bytes,
                data_len == data@.len(),
                start + row_bytes <= data@.len(),
                rgba@ == before + data@.subrange(start as int, start + c),
            decreases row_bytes - c,
        {
            rgba.push(data[start + c]);
            c = c + 1;
            assert(rgba@ =~= before + data@.subrange(start as int, start + c));
        }
        proof {
            assert forall|r: int, k: int|
                0 <= r < row + 1 && 0 <= k < row_bytes implies #[trigger] rgba@[r * row_bytes + k]
                == data@[r * bytes_per_row + k] by {
                if r < row {
                    assert(r * row_bytes + k < row * row_bytes) by (nonlinear_arith)
                        requires
                            r < row,
                            k < row_bytes,
                            0 <= k,
                    ;
                    assert(0 <= r * row_bytes + k) by (nonlinear_arith)
                        requires
                            0 <= r,
                            0 <= k,
                            0 <= row_bytes,
                    ;
                    assert(rgba@[r * row_bytes + k] == before[r * row_bytes + k]);
                } else {
                    assert(r == row);
                    assert(rgba@[r * row_bytes + k] == data@.subrange(start as int, start
                        + row_bytes)[k]);
                }
            }
            assert(rgba@.len() == (row + 1) * row_bytes) by (nonlinear_arith)
                requires
                    rgba@.len() == row * row_bytes + row_bytes,
            ;
        }
        row = row + 1;
    }
    proof {
        if height > 0 {
            assert(rgba@.len() == width * 4 * height) by (nonlinear_arith)
                requires
                    rgba@.len() == row * row_bytes,
                    row == height,
                    row_bytes == width * 4,
            ;
        }
    }
    rgba
}

// ---------------------------------------------------------------------------
// Tiled export
// ---------------------------------------------------------------------------

/// Why an export cannot start.
#[derive(Debug, Clone, Copy, PartialEq, Eq, Structural)]
pub enum ExportError {
    /// The image has no pixels.
    EmptyDimensions,
}

impl ExportError {
    /// The text that describes the error.
    pub open spec fn message(self) -> Seq<char> {
        match self {
            ExportError::EmptyDimensions => "Empty dimensions"@,
        }
    }

    /// Renders the error as the text reported to the user.
    pub fn to_string(&self) -> (s: String)
        ensures
            s@ == self.message(),
    {
        match self {
            ExportError::EmptyDimensions => String::from_str("Empty dimensions"),
        }
    }
}

/// How an image is cut into tiles for export: rows of strips, each strip
/// cut into columns. Each span is a start and a length, in pixels.
pub struct ExportPlan {
    pub tile_w: u32,
    pub tile_h: u32,
    pub strips: Vec<(u32, u32)>,
    pub columns: Vec<(u32, u32)>,
}

/// Whether `spans` cuts `[0, total)` into consecutive pieces of length
/// `step`, the last one possibly shorter.
pub open spec fn is_cut_into(spans: Seq<(u32, u32)>, total: int, step: int) -> bool {
    &&& spans.len() == (total + step - 1) / step
    &&& forall|i: int|
        0 <= i < spans.len() ==> (#[trigger] spans[i]).0 == i * step && spans[i].1 == (if total
            - i * step < step {
            total - i * step
        } else {
            step
        })
}

/// `total` rounded up to a multiple of `step`: where a walk over `[0, total)`
/// in steps of `step` ends.
pub open spec fn round_up(total: int, step: int) -> int {
    ((total + step - 1) / step) * step
}

proof fn lemma_next_step_fits(n: int, step: int, total: int)
    requires
        step > 0,
        n >= 0,
        total >= 0,
        n * step < total,
    ensures
        (n + 1) * step <= round_up(total, step),
{
    let q = (total + step - 1) / step;
    assert((n + 1) * step <= total + step - 1) by (nonlinear_arith)
        requires
            n * step < total,
            step > 0,
    ;
    assert(n + 1 <= q) by (nonlinear_arith)
        requires
            (n + 1) * step <= total + step - 1,
            step > 0,
            q == (total + step - 1) / step,
    ;
    assert((n + 1) * step <= q * step) by (nonlinear_arith)
        requires
            n + 1 <= q,
            step > 0,
    ;
}

/// Cuts `[0, total)` into consecutive pieces of length `step`, the last one
/// possibly shorter.
pub fn cut_spans(total: u32, step: u32) -> (spans: Vec<(u32, u32)>)
    requires
        step > 0,
        round_up(total as int, step as int) <= u32::MAX,
    ensures
        is_cut_into(spans@, total as int, step as int),
{
    let mut spans: Vec<(u32, u32)> = Vec::new();
    let mut pos: u32 = 0;
    proof {
        let n = spans@.len() as int;
        assert(n * step == 0) by (nonlinear_arith)
            requires
                n == 0,
        ;
    }
    while pos < total
        invariant
            step > 0,
            round_up(total as int, step as int) <= u32::MAX,
            pos == spans@.len() * step,
            pos < total + step,
            pos > 0 ==> pos - step < total,
            forall|i: int|
                0 <= i < spans@.len() ==> (#[trigger] spans@[i]).0 == i * step && spans@[i].1 == (
                if total - i * step < step {
                    total - i * step
                } else {
                    step as int
                }),
        decreases total + step - pos,
    {
        let len = if total - pos < step {
            total - pos
        } else {
            step
        };
        let ghost n = spans@.len();
        spans.push((pos, len));
        proof {
            assert((n + 1) * step == n * step + step) by (nonlinear_arith);
            lemma_next_step_fits(n as int, step as int, total as int);
        }
        pos = pos + step;
    }
    proof {
        let n = spans@.len() as int;
        let s = step as int;
        let t = total as int;
        assert((n - 1) * s == n * s - s) by (nonlinear_arith);
        assert(n == (t + s - 1) / s) by (nonlinear_arith)
            requires
                s > 0,
                t >= 0,
                n * s >= t,
                n > 0 ==> (n - 1) * s < t,
                n == 0 ==> t == 0,
        {
            if n > 0 {
                assert((n - 1) * s < t && t <= n * s);
                assert((n + 1) * s == n * s + s);
                assert(n * s <= t + s - 1 < (n + 1) * s);
            }
        }
    }
    spans
}

/// Plans the tiles of an export `width` by `height` pixels on a device whose
/// textures are at most `max_texture` pixels on a side: tiles as wide as the
/// image (or the limit), strips `STRIP_HEIGHT` pixels high (or less, when the
/// limit or the image is smaller). An image without pixels is refused.
pub fn export_plan(width: u32, height: u32, max_texture: u32) -> (plan: Result<
    ExportPlan,
    ExportError,
>)
    requires
        max_texture > 0,
        width > 0 && height > 0 ==> round_up(
            width as int,
            (if width < max_texture {
                width
            } else {
                max_texture
            }) as int,
        ) <= u32::MAX,
        width > 0 && height > 0 ==> round_up(
            height as int,
            min3(STRIP_HEIGHT as int, max_texture as int, height as int),
        ) <= u32::MAX,
    ensures
        (width == 0 || height == 0) <==> plan == Err::<ExportPlan, ExportError>(
            ExportError::EmptyDimensions,
        ),
        plan matches Ok(p) ==> {
            &&& p.tile_w == (if width < max_texture {
                width
            } else {
                max_texture
            })
            &&& p.tile_h == min3(STRIP_HEIGHT as int, max_texture as int, height as int)
            &&& is_cut_into(p.columns@, width as int, p.tile_w as int)
            &&& is_cut_into(p.strips@, height as int, p.tile_h as int)
        },
{
    if width == 0 || height == 0 {
        return Err(ExportError::EmptyDimensions);
    }
    let tile_w = if width < max_texture {
        width
    } else {
        max_texture
    };
    let limit = if STRIP_HEIGHT < max_texture {
        STRIP_HEIGHT
    } else {
        max_texture
    };
    let tile_h = if limit < height {
        limit
    } else {
        height
    };
    let columns = cut_spans(width, tile_w);
    let strips = cut_spans(height, tile_h);
    Ok(ExportPlan { tile_w, tile_h, strips, columns })
}

/// The smallest of three numbers.
pub open spec fn min3(a: int, b: int, c: int) -> int {
    let m = if a < b {
        a
    } else {
        b
    };
    if m < c {
        m
    } else {
        c
    }
}

/// The pieces of a span cut cover it exactly, in order and without gaps:
/// each piece starts where the previous one ends, none is empty, and the
/// last ends at `total`.
pub proof fn lemma_cut_is_partition(spans: Seq<(u32, u32)>, total: int, step: int)
    requires
        step > 0,
        total >= 0,
        is_cut_into(spans, total, step),
    ensures
        forall|i: int| 0 <= i < spans.len() ==> (#[trigger] spans[i]).1 > 0,
        forall|i: int|
            0 <= i < spans.len() - 1 ==> (#[trigger] spans[i + 1]).0 == spans[i].0 + spans[i].1,
        spans.len() > 0 ==> spans[spans.len() - 1].0 + spans[spans.len() - 1].1 == total,
        spans.len() == 0 <==> total == 0,
{
    let n = spans.len() as int;
    assert(n * step >= total && (n > 0 ==> (n - 1) * step < total)) by (nonlinear_arith)
        requires
            n == (total + step - 1) / step,
            step > 0,
            total >= 0,
    ;
    assert forall|i: int| 0 <= i < spans.len() implies (#[trigger] spans[i]).1 > 0 by {
        assert(i * step <= (n - 1) * step) by (nonlinear_arith)
            requires
                i <= n - 1,
                step > 0,
        ;
    }
    assert forall|i: int| 0 <= i < spans.len() - 1 implies (#[trigger] spans[i + 1]).0 == spans[i].0
        + spans[i].1 by {
        assert((i + 1) * step == i * step + step) by (nonlinear_arith);
        assert((i + 1) * step <= (n - 1) * step) by (nonlinear_arith)
            requires
                i + 1 <= n - 1,
                step > 0,
        ;
    }
    if n > 0 {
        assert(n * step == (n - 1) * step + step) by (nonlinear_arith);
    }
    if total == 0 {
        assert((step - 1) / step == 0) by (nonlinear_arith)
            requires
                step > 0,
        ;
    }
    if n == 0 {
        assert(n * step == 0) by (nonlinear_arith)
            requires
                n == 0,
        ;
    }
}

/// The bytes of row `row` of each tile of a strip, side by side: the full
/// image row that the strip's tiles make up.
pub open spec fn stitched_row(tiles: Seq<(Seq<u8>, u32)>, row: int) -> Seq<u8>
    decreases tiles.len(),
{
    if tiles.len() == 0 {
        seq![]
    } else {
        let last = tiles.last();
        let w = last.1 * 4;
        stitched_row(tiles.drop_last(), row) + last.0.subrange(row * w, row * w + w)
    }
}

/// The views of a strip's tile buffers.
pub open spec fn tile_views(tiles: Seq<(Vec<u8>, u32)>) -> Seq<(Seq<u8>, u32)> {
    tiles.map_values(|t: (Vec<u8>, u32)| (t.0@, t.1))
}

/// The total width, in pixels, of a strip's tiles.
pub open spec fn tiles_width(tiles: Seq<(Seq<u8>, u32)>) -> int
    decreases tiles.len(),
{
    if tiles.len() == 0 {
        0
    } else {
        tiles_width(tiles.drop_last()) + tiles.last().1
    }
}

/// Puts together one row of the exported image from the read-back tiles of
/// a strip (each an RGBA buffer with its width in pixels).
pub fn stitch_row(tiles: &Vec<(Vec<u8>, u32)>, row: u32) -> (line: Vec<u8>)
    requires
        forall|k: int|
            0 <= k < tiles@.len() ==> (row + 1) * ((#[trigger] tiles@[k]).1 * 4) <= tiles@[k].0@.len(),
        forall|k: int| 0 <= k < tiles@.len() ==> (#[trigger] tiles@[k]).1 * 4 * (row + 1) <= usize::MAX,
    ensures
        line@ == stitched_row(tile_views(tiles@), row as int),
{
    let ghost views = tile_views(tiles@);
    let mut line: Vec<u8> = Vec::new();
    let mut k: usize = 0;
    while k < tiles.len()
        invariant
            k <= tiles@.len(),
            views == tile_views(tiles@),
            views.len() == tiles@.len(),
            forall|j: int|
                0 <= j < tiles@.len() ==> (row + 1) * ((#[trigger] tiles@[j]).1 * 4)
                    <= tiles@[j].0@.len(),
            forall|j: int|
                0 <= j < tiles@.len() ==> (#[trigger] tiles@[j]).1 * 4 * (row + 1) <= usize::MAX,
            line@ == stitched_row(views.take(k as int), row as int),
        decreases tiles.len() - k,
    {
        let buf = &tiles[k].0;
        proof {
            let x = tiles@[k as int].1 * 4;
            assert(x <= x * (row + 1)) by (nonlinear_arith)
                requires
                    x >= 0,
                    row >= 0,
            ;
        }
        let w = (tiles[k].1 as usize) * 4;
        proof {
            assert(row * w + w == (row + 1) * w) by (nonlinear_arith);
            assert((row + 1) * (tiles@[k as int].1 * 4) == (row + 1) * w);
        }
        let start = (row as usize) * w;
        let mut c: usize = 0;
        let ghost before = line@;
        while c < w
            invariant
                c <= w,
                start + w <= buf@.len(),
                start + w <= usize::MAX,
                line@ == before + buf@.subrange(start as int, start + c),
            decreases w - c,
        {
            line.push(buf[start + c]);
            c = c + 1;
            assert(line@ =~= before + buf@.subrange(start as int, start + c));
        }
        proof {
            let tk = views.take(k + 1);
            assert(tk.drop_last() =~= views.take(k as int));
            assert(tk.last() == views[k as int]);
            assert(views[k as int] == (buf@, tiles@[k as int].1));
        }
        k = k + 1;
    }
    assert(views.take(k as int) =~= views);
    line
}

proof fn lemma_stitched_len(tiles: Seq<(Seq<u8>, u32)>, row: int)
    requires
        row >= 0,
        forall|k: int|
            0 <= k < tiles.len() ==> (row + 1) * ((#[trigger] tiles[k]).1 * 4) <= tiles[k].0.len(),
    ensures
        stitched_row(tiles, row).len() == tiles_width(tiles) * 4,
    decreases tiles.len(),
{
    if tiles.len() > 0 {
        lemma_stitched_len(tiles.drop_last(), row);
        let w = tiles.last().1 * 4;
        assert((row + 1) * (tiles[tiles.len() - 1].1 * 4) <= tiles[tiles.len() - 1].0.len());
        assert(row * w + w == (row + 1) * w) by (nonlinear_arith);
        assert(0 <= row * w) by (nonlinear_arith)
            requires
                row >= 0,
                w >= 0,
        ;
    }
}

/// A stitched row is as long as the strip is wide: four bytes per pixel of
/// the tiles' combined width.
pub proof fn lemma_stitched_row_length(tiles: Seq<(Seq<u8>, u32)>, row: int)
    requires
        row >= 0,
        forall|k: int|
            0 <= k < tiles.len() ==> (row + 1) * ((#[trigger] tiles[k]).1 * 4) <= tiles[k].0.len(),
    ensures
        stitched_row(tiles, row).len() == tiles_width(tiles) * 4,
{
    lemma_stitched_len(tiles, row);
}

} // verus!
