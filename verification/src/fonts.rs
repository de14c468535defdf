use vstd::prelude::*;

verus! {

#[verifier::external_type_specification]
#[verifier::external_body]
pub struct ExWuffErr(wuff::WuffErr);

/// The TrueType/OpenType font that the `wuff` crate recovers from a WOFF2
/// file, or `None` where it rejects the file.
pub uninterp spec fn woff2_decompressed(data: Seq<u8>) -> Option<Seq<u8>>;

/// Decompresses a WOFF2 font with `wuff::decompress_woff2`. What it returns
/// depends on the bytes alone and is named, not described.
#[verifier::external_body]
fn decompress_woff2(data: &[u8]) -> (r: Result<Vec<u8>, wuff::WuffErr>)
    ensures
        match r {
            Ok(font) => woff2_decompressed(data@) == Some(font@),
            Err(_) => woff2_decompressed(data@) is None,
        },
{
    wuff::decompress_woff2(data)
}

/// Whether font data starts with the WOFF2 signature `wOF2`.
pub open spec fn has_woff2_signature(data: Seq<u8>) -> bool {
    data.len() >= 4 && data[0] == 0x77 && data[1] == 0x4F && data[2] == 0x46 && data[3] == 0x32
}

/// The font data to register: a WOFF2 file is replaced by the font it
/// decompresses to, when it does decompress; anything else is kept as is.
pub open spec fn decoded_font(data: Seq<u8>) -> Seq<u8> {
    if has_woff2_signature(data) {
        match woff2_decompressed(data) {
            Some(font) => font,
            None => data,
        }
    } else {
        data
    }
}

/// The font to keep after an attempt to decompress `data`: the
/// decompressed font when there is one, `data` itself otherwise.
pub fn prefer_decompressed(data: Vec<u8>, decompressed: Option<Vec<u8>>) -> (font: Vec<u8>)
    ensures
        font@ == match decompressed {
            Some(d) => d@,
            None => data@,
        },
{
    match decompressed {
        Some(d) => d,
        None => data,
    }
}

fn starts_with_woff2_signature(data: &Vec<u8>) -> (b: bool)
    ensures
        b == has_woff2_signature(data@),
{
    data.len() >= 4 && data[0] == 0x77 && data[1] == 0x4F && data[2] == 0x46 && data[3] == 0x32
}

/// Turns web font data into a font the text engine can load: WOFF2 is
/// decompressed (falling back to the given bytes when that fails), other
/// data is passed through.
pub fn decode_if_woff2(data: Vec<u8>) -> (font: Vec<u8>)
    ensures
        font@ == decoded_font(data@),
{
    if starts_with_woff2_signature(&data) {
        let decompressed = match decompress_woff2(data.as_slice()) {
            Ok(f) => Some(f),
            Err(_) => None,
        };
        prefer_decompressed(data, decompressed)
    } else {
        data
    }
}

fn copy_bytes(v: &Vec<u8>) -> (r: Vec<u8>)
    ensures
        r@ == v@,
{
    let mut r: Vec<u8> = Vec::new();
    let mut i: usize = 0;
    while i < v.len()
        invariant
            i <= v@.len(),
            r@ == v@.take(i as int),
        decreases v.len() - i,
    {
        r.push(v[i]);
        i = i + 1;
        assert(r@ =~= v@.take(i as int));
    }
    assert(v@.take(i as int) =~= v@);
    r
}

/// The bytes of each font in a list.
pub open spec fn font_views(v: Seq<Vec<u8>>) -> Seq<Seq<u8>> {
    v.map_values(|f: Vec<u8>| f@)
}

/// The fonts handed to the renderer when registration is complete.
pub struct LoadedFonts {
    /// Fonts for canvas text, in registration order.
    pub registered: Vec<Vec<u8>>,
    /// The math font used to lay out formulas.
    pub xits_math: Vec<u8>,
    /// The face used for ordinary letters inside formulas.
    pub primary_math_face: Vec<u8>,
}

/// Fonts registered by the host page before they are committed: canvas
/// fonts accumulate, the math font is replaced by each registration.
pub struct FontRegistry {
    canvas_fonts: Vec<Vec<u8>>,
    math_font: Vec<u8>,
}

/// What a font registry holds.
pub struct FontRegistryModel {
    pub canvas_fonts: Seq<Seq<u8>>,
    pub math_font: Seq<u8>,
}

impl View for FontRegistry {
    type V = FontRegistryModel;

    closed spec fn view(&self) -> FontRegistryModel {
        FontRegistryModel {
            canvas_fonts: font_views(self.canvas_fonts@),
            math_font: self.math_font@,
        }
    }
}

impl FontRegistry {
    /// A registry with no fonts.
    pub fn new() -> (r: Self)
        ensures
            r@.canvas_fonts == Seq::<Seq<u8>>::empty(),
            r@.math_font == Seq::<u8>::empty(),
    {
        let r = FontRegistry { canvas_fonts: Vec::new(), math_font: Vec::new() };
        assert(r@.canvas_fonts =~= Seq::<Seq<u8>>::empty());
        r
    }

    /// Adds a canvas font (decompressing WOFF2) after those already
    /// registered.
    pub fn register_canvas_font(&mut self, data: Vec<u8>)
        ensures
            final(self)@.canvas_fonts == old(self)@.canvas_fonts.push(decoded_font(data@)),
            final(self)@.math_font == old(self)@.math_font,
    {
        let font = decode_if_woff2(data);
        self.canvas_fonts.push(font);
        assert(self@.canvas_fonts =~= old(self)@.canvas_fonts.push(decoded_font(data@)));
    }

    /// Sets the math font (decompressing WOFF2), replacing any earlier one.
    pub fn register_math_font(&mut self, data: Vec<u8>)
        ensures
            final(self)@.math_font == decoded_font(data@),
            final(self)@.canvas_fonts == old(self)@.canvas_fonts,
    {
        self.math_font = decode_if_woff2(data);
    }

    /// The fonts registered so far, ready for the renderer: the canvas fonts
    /// in order, the math font, and the first canvas font (or nothing) as the
    /// face for letters inside formulas.
    pub fn commit_fonts(&self) -> (fonts: LoadedFonts)
        ensures
            font_views(fonts.registered@) == self@.canvas_fonts,
            fonts.xits_math@ == self@.math_font,
            fonts.primary_math_face@ == (if self@.canvas_fonts.len() == 0 {
                Seq::<u8>::empty()
            } else {
                self@.canvas_fonts[0]
            }),
    {
        let ghost views = self@.canvas_fonts;
        assert(views.len() == self.canvas_fonts@.len());
        let mut registered: Vec<Vec<u8>> = Vec::new();
        let mut i: usize = 0;
        while i < self.canvas_fonts.len()
            invariant
                i <= self.canvas_fonts@.len(),
                views == self@.canvas_fonts,
                views.len() == self.canvas_fonts@.len(),
                registered@.len() == i,
                font_views(registered@) == views.take(i as int),
            decreases self.canvas_fonts.len() - i,
        {
            let copy = copy_bytes(&self.canvas_fonts[i]);
            assert(views[i as int] == copy@);
            let ghost before = registered@;
            registered.push(copy);
            assert(registered@ == before.push(copy));
            assert forall|k: int| 0 <= k <= i implies #[trigger] font_views(registered@)[k]
                == views[k] by {
                if k < i {
                    assert(font_views(before)[k] == views.take(i as int)[k]);
                }
            }
            i = i + 1;
            assert(font_views(registered@) =~= views.take(i as int));
        }
        assert(views.take(i as int) =~= views);
        let primary = if self.canvas_fonts.len() > 0 {
            copy_bytes(&self.canvas_fonts[0])
        } else {
            Vec::new()
        };
        LoadedFonts { registered, xits_math: copy_bytes(&self.math_font), primary_math_face: primary }
    }
}

} // verus!
