use vstd::prelude::*;
use vstd::string::StringExecFns;

verus! {

/// The keyword of the compressed text chunk in which an exported PNG carries
/// the scene it shows, as JSON.
pub const PNG_SCENE_METADATA_KEY: &'static str = "application/vnd.astra+json";

#[verifier::external_type_specification]
#[verifier::external_body]
pub struct ExPngEncodingError(png::EncodingError);

/// The PNG file that the `png` crate writes for 8-bit RGBA pixels of the
/// given size, with no text chunk.
pub uninterp spec fn png_rgba8_encoding(pixels: Seq<u8>, width: u32, height: u32) -> Seq<u8>;

/// The PNG file that the `png` crate writes for 8-bit RGBA pixels of the
/// given size, with one zTXt chunk holding `text` under `keyword`.
pub uninterp spec fn png_rgba8_encoding_with_ztxt(
    pixels: Seq<u8>,
    width: u32,
    height: u32,
    keyword: Seq<char>,
    text: Seq<char>,
) -> Seq<u8>;

/// The zTXt chunks that the `png` crate's decoder reports for a file (those
/// ahead of the image data): each keyword with its decompressed text, or
/// `None` for the text where it does not decompress; `None` overall where the
/// file's header cannot be read.
pub uninterp spec fn png_ztxt_chunks(png: Seq<u8>) -> Option<Seq<(Seq<char>, Option<Seq<char>>)>>;

/// Whether every character fits in one ISO 8859-1 byte, the only text a PNG
/// text chunk can carry.
pub open spec fn is_latin1(s: Seq<char>) -> bool {
    forall|i: int| 0 <= i < s.len() ==> (s[i] as u32) < 256
}

/// Whether an 8-bit RGBA image of the given size can be encoded from a pixel
/// buffer of `len` bytes: both sides non-zero, four bytes per pixel.
pub open spec fn rgba8_image_fits(len: nat, width: u32, height: u32) -> bool {
    width > 0 && height > 0 && len == width * height * 4
}

/// Whether a text chunk keyword is valid: one to 79 ISO 8859-1 characters.
pub open spec fn valid_keyword(k: Seq<char>) -> bool {
    1 <= k.len() <= 79 && is_latin1(k)
}

/// Whether `png::Decoder` reads the header of an 8-bit RGBA file of this
/// size within its default limits: rows of fewer than 2^22 pixels (a row
/// buffer of under 16 MiB out of the 64 MiB it may allocate) and a whole
/// image that fits in `isize::MAX` bytes.
pub open spec fn decodable_size(width: u32, height: u32) -> bool {
    width < 0x40_0000 && width * height * 4 <= isize::MAX
}

/// Whether the decoder gives back a zTXt chunk with this text within its
/// default 64 MiB allowance: under 2^22 characters, so that the chunk (at
/// most about twice the text once compressed) is buffered and parsed in
/// well under 32 MiB next to a row buffer of under 16 MiB.
pub open spec fn decodable_text(text: Seq<char>) -> bool {
    text.len() < 0x40_0000
}

/// The eight bytes every PNG file starts with.
pub open spec fn png_signature() -> Seq<u8> {
    seq![137u8, 80u8, 78u8, 71u8, 13u8, 10u8, 26u8, 10u8]
}

/// Whether `bytes` starts with the PNG signature.
pub open spec fn starts_with_png_signature(bytes: Seq<u8>) -> bool {
    bytes.len() >= 8 && bytes.take(8) == png_signature()
}

/// Encodes 8-bit RGBA pixels as a PNG file with `png::Encoder`.
///
/// Per the crate's source (0.18): `write_header` fails on a zero width or
/// height, and `write_image_data` fails unless the buffer holds exactly
/// `width * height * 4` bytes; writing into a `Vec` cannot fail otherwise.
/// The bytes produced are named, not described, beyond this: the file starts
/// with the PNG signature (`encode_header` writes it first), and it carries
/// no text chunk, so that for a size the decoder handles (`decodable_size`)
/// `png::Decoder::read_info` reports none.
#[verifier::external_body]
fn encode_rgba8_png(pixels: &[u8], width: u32, height: u32) -> (r: Result<
    Vec<u8>,
    png::EncodingError,
>)
    requires
        width * height * 4 <= usize::MAX,
    ensures
        r is Ok <==> rgba8_image_fits(pixels@.len(), width, height),
        r matches Ok(bytes) ==> bytes@ == png_rgba8_encoding(pixels@, width, height),
        r matches Ok(bytes) ==> starts_with_png_signature(bytes@),
        r matches Ok(bytes) ==> (decodable_size(width, height) ==> png_ztxt_chunks(bytes@) == Some(
            Seq::<(Seq<char>, Option<Seq<char>>)>::empty(),
        )),
{
    let mut out = Vec::new();
    {
        let mut encoder = png::Encoder::new(&mut out, width, height);
        encoder.set_color(png::ColorType::Rgba);
        encoder.set_depth(png::BitDepth::Eight);
        let mut writer = encoder.write_header()?;
        writer.write_image_data(pixels)?;
    }
    Ok(out)
}

/// Encodes 8-bit RGBA pixels as a PNG file with `png::Encoder`, adding one
/// zTXt chunk (`Encoder::add_ztxt_chunk`, which always succeeds).
///
/// Per the crate's source (0.18): `write_header` also fails when the keyword
/// is not 1 to 79 ISO 8859-1 characters or the text is not ISO 8859-1
/// (`ZTXtChunk::encode`); the chunk itself is written whatever its length
/// (the module's `write_chunk` puts no bound on it), and compressing into a
/// `Vec` cannot fail. The bytes produced are named, not described, beyond
/// this: the file starts with the PNG signature.
///
/// The chunk is written right after the header, ahead of the image data, as
/// the keyword, a zero byte, compression method 0 and the zlib-compressed
/// ISO 8859-1 bytes of the text. `png::Decoder::read_info` then reports it
/// as the file's one zTXt chunk and `ZTXtChunk::get_text` gives the text
/// back, when the keyword holds no zero character (the decoder splits at the first one),
/// and the size and text are within what the decoder's default allowance
/// covers (`decodable_size`, `decodable_text`).
#[verifier::external_body]
fn encode_rgba8_png_with_ztxt(
    pixels: &[u8],
    width: u32,
    height: u32,
    keyword: String,
    text: String,
) -> (r: Result<Vec<u8>, png::EncodingError>)
    requires
        width * height * 4 <= usize::MAX,
    ensures
        r is Ok <==> (rgba8_image_fits(pixels@.len(), width, height) && valid_keyword(keyword@)
            && is_latin1(text@)),
        r matches Ok(bytes) ==> starts_with_png_signature(bytes@),
        r matches Ok(bytes) ==> bytes@ == png_rgba8_encoding_with_ztxt(
            pixels@,
            width,
            height,
            keyword@,
            text@,
        ),
        r matches Ok(bytes) ==> (decodable_size(width, height) && decodable_text(text@)
            && !keyword@.contains('\0') ==> png_ztxt_chunks(bytes@) == Some(
            seq![(keyword@, Some(text@))],
        )),
{
    let mut out = Vec::new();
    {
        let mut encoder = png::Encoder::new(&mut out, width, height);
        encoder.set_color(png::ColorType::Rgba);
        encoder.set_depth(png::BitDepth::Eight);
        let _ = encoder.add_ztxt_chunk(keyword, text);
        let mut writer = encoder.write_header()?;
        writer.write_image_data(pixels)?;
    }
    Ok(out)
}

/// The view of an optional string.
pub open spec fn opt_view(o: Option<String>) -> Option<Seq<char>> {
    match o {
        Some(s) => Some(s@),
        None => None,
    }
}

/// The views of a list of text chunks.
pub open spec fn chunk_views(v: Seq<(String, Option<String>)>) -> Seq<(Seq<char>, Option<Seq<char>>)> {
    v.map_values(|c: (String, Option<String>)| (c.0@, opt_view(c.1)))
}

/// Reads the zTXt chunks of a PNG file with `png::Decoder::read_info`, each
/// as its keyword and `ZTXtChunk::get_text` (its text, `None` where it does
/// not decompress). The result depends on the bytes alone and is named.
#[verifier::external_body]
fn read_ztxt_chunks(png_data: &[u8]) -> (r: Option<Vec<(String, Option<String>)>>)
    ensures
        match r {
            Some(v) => png_ztxt_chunks(png_data@) == Some(chunk_views(v@)),
            None => png_ztxt_chunks(png_data@) is None,
        },
{
    let reader = png::Decoder::new(std::io::Cursor::new(png_data)).read_info().ok()?;
    Some(
        reader.info().compressed_latin1_text.iter().map(
            |c| (c.keyword.clone(), c.get_text().ok()),
        ).collect(),
    )
}

/// Encodes an RGBA image as PNG, embedding the scene JSON (when given) in a
/// compressed text chunk under `PNG_SCENE_METADATA_KEY`. `None` exactly when
/// the encoder refuses: a zero side, a pixel buffer of the wrong length, or
/// JSON with characters outside ISO 8859-1. The file starts with the PNG
/// signature.
pub fn encode_png(rgba_data: &[u8], width: u32, height: u32, scene_json: Option<&str>) -> (r:
    Option<Vec<u8>>)
    requires
        width * height * 4 <= usize::MAX,
    ensures
        r matches Some(bytes) ==> starts_with_png_signature(bytes@),
        match scene_json {
            None => {
                &&& r is Some <==> rgba8_image_fits(rgba_data@.len(), width, height)
                &&& r matches Some(bytes) ==> bytes@ == png_rgba8_encoding(
                    rgba_data@,
                    width,
                    height,
                )
                &&& r matches Some(bytes) ==> (decodable_size(width, height) ==> png_ztxt_chunks(
                    bytes@,
                ) == Some(Seq::<(Seq<char>, Option<Seq<char>>)>::empty()))
            },
            Some(json) => {
                &&& r is Some <==> rgba8_image_fits(rgba_data@.len(), width, height) && is_latin1(
                    json@,
                )
                &&& r matches Some(bytes) ==> bytes@ == png_rgba8_encoding_with_ztxt(
                    rgba_data@,
                    width,
                    height,
                    PNG_SCENE_METADATA_KEY@,
                    json@,
                )
                &&& r matches Some(bytes) ==> (decodable_size(width, height) && decodable_text(
                    json@,
                ) ==> png_ztxt_chunks(bytes@) == Some(
                    seq![(PNG_SCENE_METADATA_KEY@, Some(json@))],
                ))
            },
        },
{
    proof {
        reveal_strlit("application/vnd.astra+json");
    }
    let encoded = match scene_json {
        None => encode_rgba8_png(rgba_data, width, height),
        Some(json) => {
            let keyword = String::from_str(PNG_SCENE_METADATA_KEY);
            assert(valid_keyword(keyword@));
            assert(!keyword@.contains('\0'));
            encode_rgba8_png_with_ztxt(rgba_data, width, height, keyword, String::from_str(json))
        },
    };
    match encoded {
        Ok(bytes) => Some(bytes),
        Err(_) => None,
    }
}

/// The text of the first chunk whose keyword is `PNG_SCENE_METADATA_KEY`
/// (`None` when there is no such chunk or its text is unreadable).
pub open spec fn scene_text_in(chunks: Seq<(Seq<char>, Option<Seq<char>>)>) -> Option<Seq<char>>
    decreases chunks.len(),
{
    if chunks.len() == 0 {
        None
    } else if chunks[0].0 == PNG_SCENE_METADATA_KEY@ {
        chunks[0].1
    } else {
        scene_text_in(chunks.drop_first())
    }
}

/// Picks the scene JSON out of a PNG file's text chunks: the text of the
/// first chunk under `PNG_SCENE_METADATA_KEY`.
pub fn find_scene_text(chunks: Vec<(String, Option<String>)>) -> (r: Option<String>)
    ensures
        opt_view(r) == scene_text_in(chunk_views(chunks@)),
{
    let key = String::from_str(PNG_SCENE_METADATA_KEY);
    let mut rest = chunks;
    let ghost whole = chunk_views(rest@);
    let mut i: usize = 0;
    let n = rest.len();
    assert(whole.skip(0) =~= whole);
    while i < n
        invariant
            n == rest@.len(),
            i <= n,
            key@ == PNG_SCENE_METADATA_KEY@,
            chunk_views(rest@) == whole,
            whole == chunk_views(chunks@),
            scene_text_in(whole) == scene_text_in(whole.skip(i as int)),
        decreases n - i,
    {
        assert(whole.skip(i as int).drop_first() =~= whole.skip(i + 1));
        if rest[i].0 == key {
            let ghost entry = rest@[i as int];
            assert(whole[i as int] == (entry.0@, opt_view(entry.1)));
            assert(whole.skip(i as int)[0] == whole[i as int]);
            let (_, text) = rest.remove(i);
            return text;
        }
        i = i + 1;
    }
    assert(whole.skip(i as int) =~= Seq::<(Seq<char>, Option<Seq<char>>)>::empty());
    None
}

/// Reads back the scene JSON that `encode_png` embedded in a PNG file:
/// `None` when the file cannot be read, has no scene chunk, or the chunk's
/// text does not decompress.
pub fn extract_scene_from_png(png_data: &[u8]) -> (r: Option<String>)
    ensures
        match png_ztxt_chunks(png_data@) {
            Some(chunks) => opt_view(r) == scene_text_in(chunks),
            None => r is None,
        },
{
    match read_ztxt_chunks(png_data) {
        Some(chunks) => find_scene_text(chunks),
        None => None,
    }
}

/// A file that `encode_png` wrote with a scene gives that scene back:
/// whenever the decoder reports exactly the one chunk that `encode_png`
/// embeds, `extract_scene_from_png` returns its text.
pub proof fn lemma_scene_round_trip(png: Seq<u8>, json: Seq<char>)
    requires
        png_ztxt_chunks(png) == Some(seq![(PNG_SCENE_METADATA_KEY@, Some(json))]),
    ensures
        png_ztxt_chunks(png) matches Some(chunks) && scene_text_in(chunks) == Some(json),
{
    let chunks = seq![(PNG_SCENE_METADATA_KEY@, Some(json))];
    assert(chunks[0].0 == PNG_SCENE_METADATA_KEY@);
}

/// A file that `encode_png` wrote without a scene has none to give back.
pub proof fn lemma_no_scene_round_trip(png: Seq<u8>)
    requires
        png_ztxt_chunks(png) == Some(Seq::<(Seq<char>, Option<Seq<char>>)>::empty()),
    ensures
        png_ztxt_chunks(png) matches Some(chunks) && scene_text_in(chunks) is None,
{
}

/// The scene text read from a file's chunks is the text of the first chunk
/// whose keyword is `PNG_SCENE_METADATA_KEY`, and chunks under any other
/// keyword are never read: with no chunk under that keyword there is no
/// scene, and a scene that is found is the text of such a chunk.
pub proof fn lemma_scene_text_from_keyed_chunk(chunks: Seq<(Seq<char>, Option<Seq<char>>)>)
    ensures
        (forall|i: int| 0 <= i < chunks.len() ==> chunks[i].0 != PNG_SCENE_METADATA_KEY@)
            ==> scene_text_in(chunks) is None,
        forall|i: int|
            0 <= i < chunks.len() && chunks[i].0 == PNG_SCENE_METADATA_KEY@ && (forall|j: int|
                0 <= j < i ==> chunks[j].0 != PNG_SCENE_METADATA_KEY@) ==> scene_text_in(chunks)
                == chunks[i].1,
        scene_text_in(chunks) matches Some(t) ==> exists|i: int|
            0 <= i < chunks.len() && chunks[i].0 == PNG_SCENE_METADATA_KEY@ && chunks[i].1 == Some(
                t,
            ),
    decreases chunks.len(),
{
    if chunks.len() > 0 {
        let rest = chunks.drop_first();
        lemma_scene_text_from_keyed_chunk(rest);
        assert forall|i: int|
            0 <= i < chunks.len() && chunks[i].0 == PNG_SCENE_METADATA_KEY@ && (forall|j: int|
                0 <= j < i ==> chunks[j].0 != PNG_SCENE_METADATA_KEY@) implies scene_text_in(chunks)
            == chunks[i].1 by {
            if i > 0 {
                assert(chunks[0].0 != PNG_SCENE_METADATA_KEY@);
                assert(rest[i - 1] == chunks[i]);
                assert forall|j: int| 0 <= j < i - 1 implies rest[j].0
                    != PNG_SCENE_METADATA_KEY@ by {
                    assert(rest[j] == chunks[j + 1]);
                }
            }
        }
        if (forall|i: int| 0 <= i < chunks.len() ==> chunks[i].0 != PNG_SCENE_METADATA_KEY@) {
            assert(chunks[0].0 != PNG_SCENE_METADATA_KEY@);
            assert forall|i: int| 0 <= i < rest.len() implies rest[i].0
                != PNG_SCENE_METADATA_KEY@ by {
                assert(rest[i] == chunks[i + 1]);
            }
        }
        if scene_text_in(chunks) is Some && chunks[0].0 != PNG_SCENE_METADATA_KEY@ {
            let t = scene_text_in(chunks)->0;
            let k = choose|k: int|
                0 <= k < rest.len() && rest[k].0 == PNG_SCENE_METADATA_KEY@ && rest[k].1 == Some(t);
            assert(chunks[k + 1] == rest[k]);
        }
    }
}

} // verus!
