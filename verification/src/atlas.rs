//! The glyph atlas: one pre-baked sheet of distance-field glyphs, cut into layers.
//!
//! The sheet stacks the glyphs as horizontal bands of one cell height. Cutting
//! it yields one layer per complete band; rows left over below the last
//! complete band are dropped. No distance field is computed here: the sheet
//! already holds one. A layer is its band of the sheet, pixel for pixel. The
//! device takes the rows of a layer last row first, so texture coordinate
//! `v = 0` reads the last row of the band; sampling filters linearly between
//! the four texels around a coordinate, as the device does when it magnifies.

use crate::fixed::{mix, mix_spec, HALF, ONE};
use vstd::prelude::*;

verus! {

#[verifier::external_type_specification]
#[verifier::external_body]
pub struct ExImageError(image::ImageError);

/// A decoded raster image: 8-bit RGBA, row by row from the top.
#[derive(Debug)]
pub struct Raster {
    pub width: u32,
    pub height: u32,
    pub data: Vec<u8>,
}

/// Why an atlas could not be built.
#[derive(Debug)]
pub struct DecodeError {
    /// The diagnostic of the decoder, as it gave it.
    pub message: String,
}

/// Width, height and texels of one layer of the atlas.
pub ghost struct LayerView {
    pub width: int,
    pub height: int,
    pub texels: Seq<u8>,
}

/// One glyph of the atlas: a slice of the sheet, one cell high.
#[derive(Debug)]
pub struct GlyphLayer {
    width: u32,
    height: u32,
    texels: Vec<u8>,
}

/// The layers of a glyph sheet, indexed from zero.
#[derive(Debug)]
pub struct GlyphAtlas {
    layers: Vec<GlyphLayer>,
}

/// Channel `c` of the pixel in column `x` and row `y` of an RGBA image `width` pixels wide.
pub open spec fn texel_byte(data: Seq<u8>, width: int, x: int, y: int, c: int) -> u8 {
    data[(y * width + x) * 4 + c]
}

/// The lesser of two integers.
pub open spec fn lesser(a: int, b: int) -> int {
    if a <= b { a } else { b }
}

/// `out` is the region of `source` that starts at `(x, y)` and is at most
/// `width` by `height` pixels large, cut off where the source ends.
pub open spec fn is_crop_of(
    out: Raster,
    source: Raster,
    x: int,
    y: int,
    width: int,
    height: int,
) -> bool {
    let x0 = lesser(x, source.width as int);
    let y0 = lesser(y, source.height as int);
    &&& out.width == lesser(width, source.width - x0)
    &&& out.height == lesser(height, source.height - y0)
    &&& out.well_formed()
    &&& forall|i: int, j: int, c: int|
        0 <= i < out.width && 0 <= j < out.height && 0 <= c < 4 ==> #[trigger] texel_byte(
            out.data@,
            out.width as int,
            i,
            j,
            c,
        ) == texel_byte(source.data@, source.width as int, x0 + i, y0 + j, c)
}

/// `out` holds the rows of `data` in reverse order.
pub open spec fn is_row_reversal_of(out: Seq<u8>, data: Seq<u8>, width: int, height: int) -> bool {
    &&& out.len() == data.len()
    &&& forall|x: int, y: int, c: int|
        0 <= x < width && 0 <= y < height && 0 <= c < 4 ==> #[trigger] texel_byte(
            out,
            width,
            x,
            y,
            c,
        ) == texel_byte(data, width, x, height - 1 - y, c)
}

/// `layer` is band `index` of a sheet `sheet_width` pixels wide, cut to cells
/// of `cell_width` by `cell_height`: each of its pixels is the pixel of the
/// sheet in the same column, `index * cell_height` rows further down.
pub open spec fn is_layer_of(
    layer: LayerView,
    sheet: Seq<u8>,
    sheet_width: int,
    cell_width: int,
    cell_height: int,
    index: int,
) -> bool {
    &&& layer.width == lesser(cell_width, sheet_width)
    &&& layer.height == cell_height
    &&& layer.texels.len() == layer.width * layer.height * 4
    &&& forall|x: int, y: int, c: int|
        0 <= x < layer.width && 0 <= y < layer.height && 0 <= c < 4 ==> #[trigger] texel_byte(
            layer.texels,
            layer.width,
            x,
            y,
            c,
        ) == texel_byte(sheet, sheet_width, x, index * cell_height + y, c)
}

/// `layers` are the complete bands of the sheet, in order from the top.
pub open spec fn is_atlas_of(
    layers: Seq<LayerView>,
    sheet: Seq<u8>,
    sheet_width: int,
    sheet_height: int,
    cell_width: int,
    cell_height: int,
) -> bool {
    &&& layers.len() == sheet_height / cell_height
    &&& forall|i: int|
        0 <= i < layers.len() ==> is_layer_of(
            #[trigger] layers[i],
            sheet,
            sheet_width,
            cell_width,
            cell_height,
            i,
        )
}

/// A colour channel of a texel as a fraction of its range.
pub open spec fn fraction_spec(byte: int) -> int {
    byte * ONE / 255
}

/// Where a texture coordinate falls between texel centres along an axis
/// `extent` texels long, in millionths of a texel from the centre of the first.
pub open spec fn filter_offset_spec(extent: int, t: int) -> int {
    t * extent - HALF
}

/// The texel at or before a texture coordinate, held within the axis.
pub open spec fn filter_low_spec(extent: int, t: int) -> int {
    let offset = filter_offset_spec(extent, t);
    if offset < 0 {
        0
    } else {
        lesser(offset / (ONE as int), extent - 1)
    }
}

/// The texel after a texture coordinate, held within the axis.
pub open spec fn filter_high_spec(extent: int, t: int) -> int {
    let offset = filter_offset_spec(extent, t);
    if offset < 0 {
        0
    } else {
        lesser(offset / (ONE as int) + 1, extent - 1)
    }
}

/// The share of the texel after a texture coordinate against the one before.
pub open spec fn filter_weight_spec(extent: int, t: int) -> int {
    let offset = filter_offset_spec(extent, t);
    if offset < 0 {
        0
    } else {
        offset % (ONE as int)
    }
}

/// Channel `c` of a layer at the texture coordinate `(u, v)`, filtered
/// linearly between the four texels around it.
///
/// Columns run with `u`. Rows run against `v`: `v = 0` lies in the last row
/// of the layer and `v = ONE` in the first.
pub open spec fn filtered_spec(layer: LayerView, u: int, v: int, c: int) -> int {
    let x0 = filter_low_spec(layer.width, u);
    let x1 = filter_high_spec(layer.width, u);
    let y0 = layer.height - 1 - filter_low_spec(layer.height, v);
    let y1 = layer.height - 1 - filter_high_spec(layer.height, v);
    let ax = filter_weight_spec(layer.width, u);
    let ay = filter_weight_spec(layer.height, v);
    let near = mix_spec(
        fraction_spec(texel_byte(layer.texels, layer.width, x0, y0, c) as int),
        fraction_spec(texel_byte(layer.texels, layer.width, x1, y0, c) as int),
        ax,
    );
    let far = mix_spec(
        fraction_spec(texel_byte(layer.texels, layer.width, x0, y1, c) as int),
        fraction_spec(texel_byte(layer.texels, layer.width, x1, y1, c) as int),
        ax,
    );
    mix_spec(near, far, ay)
}

/// What decoding a PNG stream and converting the picture to 8-bit RGBA yields:
/// width, height and the bytes row by row, or, where the stream is no picture
/// the decoder accepts, the text that its error displays.
pub uninterp spec fn decoded_rgba8(bytes: Seq<u8>) -> Result<(u32, u32, Seq<u8>), Seq<char>>;

/// The text that an error of the decoder displays.
pub uninterp spec fn displayed_text(error: image::ImageError) -> Seq<char>;

/// Decodes a PNG stream with `image::load` and converts the picture with
/// `DynamicImage::to_rgba8`.
///
/// Trusted: the outcome depends on the bytes alone and is what
/// `decoded_rgba8` names, the picture or the text of the error; a decoded
/// picture holds four bytes for each pixel.
#[verifier::external_body]
fn decode_rgba8(bytes: &[u8]) -> (r: Result<Raster, image::ImageError>)
    ensures
        match r {
            Ok(raster) => raster.well_formed() && decoded_rgba8(bytes@) == Ok::<
                (u32, u32, Seq<u8>),
                Seq<char>,
            >((raster.width, raster.height, raster.data@)),
            Err(error) => decoded_rgba8(bytes@) == Err::<(u32, u32, Seq<u8>), Seq<char>>(
                displayed_text(error),
            ),
        },
{
    let picture = image::load(std::io::Cursor::new(bytes), image::ImageFormat::Png)?;
    let rgba = picture.to_rgba8();
    Ok(Raster { width: rgba.width(), height: rgba.height(), data: rgba.into_raw() })
}

/// The text that `image::ImageError` displays, through `to_string`.
///
/// Trusted: the text depends on the error alone and is what `displayed_text` names.
#[verifier::external_body]
fn error_text(error: &image::ImageError) -> (text: String)
    ensures
        text@ == displayed_text(*error),
{
    error.to_string()
}

/// Cuts a region out of a raster with `image::imageops::crop` and copies it
/// out with `SubImage::to_image`.
///
/// Trusted: the region starts at `(x, y)`, both held within the source, and is
/// `width` by `height` pixels large or as much of that as the source has;
/// each of its pixels is the pixel of the source at the same offset from the
/// start. The source is handed back as it was.
#[verifier::external_body]
fn crop_region(source: &mut Raster, x: u32, y: u32, width: u32, height: u32) -> (out: Raster)
    requires
        old(source).well_formed(),
    ensures
        final(source).width == old(source).width,
        final(source).height == old(source).height,
        final(source).data@ == old(source).data@,
        is_crop_of(out, *old(source), x as int, y as int, width as int, height as int),
{
    let buffer = std::mem::take(&mut source.data);
    let mut sheet = image::RgbaImage::from_raw(source.width, source.height, buffer).unwrap();
    let region = image::imageops::crop(&mut sheet, x, y, width, height).to_image();
    source.data = sheet.into_raw();
    Raster { width: region.width(), height: region.height(), data: region.into_raw() }
}

/// Reverses the rows of an RGBA image with `glium::texture::RawImage2d::from_raw_rgba_reversed`.
///
/// Trusted: the result holds the same rows, the last one first.
#[verifier::external_body]
fn reverse_rows(data: &Vec<u8>, width: u32, height: u32) -> (out: Vec<u8>)
    requires
        width > 0,
        height > 0,
        data@.len() == width as nat * height as nat * 4,
    ensures
        is_row_reversal_of(out@, data@, width as int, height as int),
{
    glium::texture::RawImage2d::from_raw_rgba_reversed(data, (width, height)).data.into_owned()
}

impl Raster {
    /// The buffer holds exactly four bytes for each pixel.
    pub open spec fn well_formed(&self) -> bool {
        self.data@.len() == self.width as nat * self.height as nat * 4
    }

    /// A raster of the given size over `data`, if `data` holds four bytes for each pixel.
    pub fn new(width: u32, height: u32, data: Vec<u8>) -> (r: Option<Raster>)
        ensures
            r is Some <==> data@.len() == width as nat * height as nat * 4,
            r matches Some(raster) ==> raster.width == width && raster.height == height
                && raster.data@ == data@,
    {
        assert(width * height <= 0xffff_ffff * 0xffff_ffff) by (nonlinear_arith)
            requires
                width <= 0xffff_ffff,
                height <= 0xffff_ffff,
        ;
        let needed: u128 = (width as u128) * (height as u128) * 4;
        if data.len() as u128 == needed {
            Some(Raster { width, height, data })
        } else {
            None
        }
    }
}

impl View for GlyphLayer {
    type V = LayerView;

    closed spec fn view(&self) -> LayerView {
        LayerView { width: self.width as int, height: self.height as int, texels: self.texels@ }
    }
}

impl GlyphLayer {
    #[verifier::type_invariant]
    spec fn filled(self) -> bool {
        self.texels@.len() == self.width as nat * self.height as nat * 4
    }

    /// Width of the layer in texels.
    pub fn width(&self) -> (w: u32)
        ensures
            w == self@.width,
    {
        self.width
    }

    /// Height of the layer in texels.
    pub fn height(&self) -> (h: u32)
        ensures
            h == self@.height,
    {
        self.height
    }

    /// The texels, four bytes each, row by row from the top of the band.
    pub fn texels(&self) -> (t: &Vec<u8>)
        ensures
            t@ == self@.texels,
            t@.len() == self@.width * self@.height * 4,
    {
        proof {
            use_type_invariant(self);
        }
        &self.texels
    }

    /// The texels as the device takes them: the same rows, the last one first.
    pub fn device_texels(&self) -> (t: Vec<u8>)
        ensures
            is_row_reversal_of(t@, self@.texels, self@.width, self@.height),
    {
        proof {
            use_type_invariant(self);
        }
        if self.width > 0 && self.height > 0 {
            reverse_rows(&self.texels, self.width, self.height)
        } else {
            proof {
                let w = self.width as int;
                let h = self.height as int;
                assert(w * h * 4 == 0) by (nonlinear_arith)
                    requires
                        w == 0 || h == 0,
                ;
            }
            Vec::new()
        }
    }

    /// One channel of one texel.
    fn fetch(&self, x: u32, y: u32, c: usize) -> (byte: u8)
        requires
            x < self@.width,
            y < self@.height,
            c < 4,
        ensures
            byte == texel_byte(self@.texels, self@.width, x as int, y as int, c as int),
    {
        proof {
            use_type_invariant(self);
        }
        let w: u64 = self.width as u64;
        let len: usize = self.texels.len();
        proof {
            let xi = x as int;
            let yi = y as int;
            let wi = self.width as int;
            let hi = self.height as int;
            assert(0 <= yi * wi && (yi * wi + xi) * 4 + 3 < wi * hi * 4) by (nonlinear_arith)
                requires
                    0 <= xi < wi,
                    0 <= yi < hi,
            ;
            assert(wi * hi * 4 == len);
        }
        let base: u64 = ((y as u64) * w + x as u64) * 4;
        self.texels[base as usize + c]
    }

    /// One channel, filtered between the four texels at the given columns and rows.
    fn filtered(&self, x0: u32, x1: u32, ax: u32, y0: u32, y1: u32, ay: u32, c: usize) -> (value:
        u32)
        requires
            x0 < self@.width,
            x1 < self@.width,
            y0 < self@.height,
            y1 < self@.height,
            ax <= ONE,
            ay <= ONE,
            c < 4,
        ensures
            value == mix_spec(
                mix_spec(
                    fraction_spec(
                        texel_byte(self@.texels, self@.width, x0 as int, y0 as int, c as int) as int,
                    ),
                    fraction_spec(
                        texel_byte(self@.texels, self@.width, x1 as int, y0 as int, c as int) as int,
                    ),
                    ax as int,
                ),
                mix_spec(
                    fraction_spec(
                        texel_byte(self@.texels, self@.width, x0 as int, y1 as int, c as int) as int,
                    ),
                    fraction_spec(
                        texel_byte(self@.texels, self@.width, x1 as int, y1 as int, c as int) as int,
                    ),
                    ax as int,
                ),
                ay as int,
            ),
            value <= ONE,
    {
        let near: u32 = mix(fraction(self.fetch(x0, y0, c)), fraction(self.fetch(x1, y0, c)), ax);
        let far: u32 = mix(fraction(self.fetch(x0, y1, c)), fraction(self.fetch(x1, y1, c)), ax);
        mix(near, far, ay)
    }

    /// The four channels of the layer at the texture coordinate `(u, v)`, each
    /// a fraction of its range, filtered linearly between the texels around
    /// the coordinate; `None` where the layer is empty.
    pub fn sample(&self, u: u32, v: u32) -> (texel: Option<[u32; 4]>)
        ensures
            texel is Some <==> self@.width > 0 && self@.height > 0,
            texel matches Some(t) ==> forall|c: int|
                0 <= c < 4 ==> #[trigger] t[c] == filtered_spec(self@, u as int, v as int, c)
                    && t[c] <= ONE,
    {
        if self.width == 0 || self.height == 0 {
            return None;
        }
        let (x0, x1, ax) = filter_taps(self.width, u);
        let (j0, j1, ay) = filter_taps(self.height, v);
        let y0: u32 = self.height - 1 - j0;
        let y1: u32 = self.height - 1 - j1;
        Some(
            [
                self.filtered(x0, x1, ax, y0, y1, ay, 0),
                self.filtered(x0, x1, ax, y0, y1, ay, 1),
                self.filtered(x0, x1, ax, y0, y1, ay, 2),
                self.filtered(x0, x1, ax, y0, y1, ay, 3),
            ],
        )
    }
}

/// A colour channel of a texel as a fraction of its range.
pub fn fraction(byte: u8) -> (f: u32)
    ensures
        f == fraction_spec(byte as int),
        f <= ONE,
{
    assert(byte * ONE <= 255 * 1_000_000) by (nonlinear_arith)
        requires
            byte <= 255,
    ;
    (byte as u32) * ONE / 255
}

/// The two texels around a texture coordinate along an axis `extent` texels
/// long, and the share of the second against the first.
pub fn filter_taps(extent: u32, t: u32) -> (taps: (u32, u32, u32))
    requires
        extent > 0,
    ensures
        taps.0 == filter_low_spec(extent as int, t as int),
        taps.1 == filter_high_spec(extent as int, t as int),
        taps.2 == filter_weight_spec(extent as int, t as int),
        taps.0 < extent,
        taps.1 < extent,
        taps.2 < ONE,
{
    assert(0 <= t * extent <= 0xffff_ffff * 0xffff_ffff) by (nonlinear_arith)
        requires
            0 <= t <= 0xffff_ffff,
            0 <= extent <= 0xffff_ffff,
    ;
    let scaled: u64 = (t as u64) * (extent as u64);
    if scaled < HALF as u64 {
        (0, 0, 0)
    } else {
        let offset: u64 = scaled - HALF as u64;
        let index: u64 = offset / (ONE as u64);
        let weight: u64 = offset % (ONE as u64);
        let last: u64 = extent as u64 - 1;
        let low: u64 = if index <= last { index } else { last };
        let high: u64 = if index + 1 <= last { index + 1 } else { last };
        (low as u32, high as u32, weight as u32)
    }
}

impl View for GlyphAtlas {
    type V = Seq<LayerView>;

    closed spec fn view(&self) -> Seq<LayerView> {
        Seq::new(self.layers@.len(), |i: int| self.layers@[i]@)
    }
}

impl GlyphAtlas {
    /// The number of layers.
    pub fn len(&self) -> (n: usize)
        ensures
            n == self@.len(),
    {
        self.layers.len()
    }

    /// The layer with the given index, if the atlas has one.
    pub fn layer(&self, index: usize) -> (l: Option<&GlyphLayer>)
        ensures
            l is Some <==> index < self@.len(),
            l matches Some(layer) ==> layer@ == self@[index as int],
    {
        if index < self.layers.len() {
            Some(&self.layers[index])
        } else {
            None
        }
    }

    /// The four channels of layer `index` at `(u, v)`, filtered linearly, or
    /// `None` where the atlas has no such layer or the layer is empty.
    pub fn sample(&self, index: u16, u: u32, v: u32) -> (texel: Option<[u32; 4]>)
        ensures
            texel is Some <==> index < self@.len() && self@[index as int].width > 0
                && self@[index as int].height > 0,
            texel matches Some(t) ==> forall|c: int|
                0 <= c < 4 ==> #[trigger] t[c] == filtered_spec(
                    self@[index as int],
                    u as int,
                    v as int,
                    c,
                ) && t[c] <= ONE,
    {
        match self.layer(index as usize) {
            Some(layer) => layer.sample(u, v),
            None => None,
        }
    }

    /// Cuts a decoded sheet into its layers.
    ///
    /// The atlas has `height / cell_height` layers, rounded down. Layer `i`
    /// is the band of rows from `i * cell_height`, as wide as the cell or
    /// the sheet, whichever is narrower, pixel for pixel.
    pub fn from_raster(raster: Raster, cell_width: u32, cell_height: u32) -> (atlas: GlyphAtlas)
        requires
            raster.well_formed(),
            cell_height > 0,
        ensures
            is_atlas_of(
                atlas@,
                raster.data@,
                raster.width as int,
                raster.height as int,
                cell_width as int,
                cell_height as int,
            ),
    {
        let mut sheet: Raster = raster;
        let count: u32 = sheet.height / cell_height;
        let mut layers: Vec<GlyphLayer> = Vec::new();
        let mut index: u32 = 0;
        while index < count
            invariant
                index <= count,
                count == raster.height / cell_height,
                cell_height > 0,
                sheet.width == raster.width,
                sheet.height == raster.height,
                sheet.data@ == raster.data@,
                sheet.well_formed(),
                layers@.len() == index,
                forall|i: int|
                    0 <= i < index ==> is_layer_of(
                        (#[trigger] layers@[i])@,
                        raster.data@,
                        raster.width as int,
                        cell_width as int,
                        cell_height as int,
                        i,
                    ),
            decreases count - index,
        {
            proof {
                lemma_band_fits(raster.height as int, cell_height as int, index as int);
            }
            let top: u32 = index * cell_height;
            let band: Raster = crop_region(&mut sheet, 0, top, cell_width, cell_height);
            let layer = GlyphLayer { width: band.width, height: band.height, texels: band.data };
            proof {
                assert(is_layer_of(
                    layer@,
                    raster.data@,
                    raster.width as int,
                    cell_width as int,
                    cell_height as int,
                    index as int,
                )) by {
                    let w = band.width as int;
                    let h = band.height as int;
                    assert forall|x: int, y: int, c: int|
                        0 <= x < w && 0 <= y < h && 0 <= c < 4 implies #[trigger] texel_byte(
                        layer@.texels,
                        w,
                        x,
                        y,
                        c,
                    ) == texel_byte(
                        raster.data@,
                        raster.width as int,
                        x,
                        index * cell_height + y,
                        c,
                    ) by {
                        assert(texel_byte(band.data@, w, x, y, c) == texel_byte(
                            raster.data@,
                            raster.width as int,
                            0 + x,
                            top + y,
                            c,
                        ));
                    }
                }
            }
            layers.push(layer);
            index = index + 1;
        }
        let atlas = GlyphAtlas { layers };
        proof {
            assert forall|i: int| 0 <= i < atlas@.len() implies is_layer_of(
                #[trigger] atlas@[i],
                raster.data@,
                raster.width as int,
                cell_width as int,
                cell_height as int,
                i,
            ) by {
                assert(atlas@[i] == layers@[i]@);
            }
        }
        atlas
    }

    /// Decodes a PNG glyph sheet and cuts it into layers.
    ///
    /// Fails exactly when the bytes are no picture that the decoder accepts,
    /// and then with the text of its error, as it displays it.
    pub fn build(bytes: &[u8], cell_width: u32, cell_height: u32) -> (r: Result<
        GlyphAtlas,
        DecodeError,
    >)
        requires
            cell_height > 0,
        ensures
            match r {
                Ok(atlas) => decoded_rgba8(bytes@) matches Ok((width, height, data))
                    && is_atlas_of(
                    atlas@,
                    data,
                    width as int,
                    height as int,
                    cell_width as int,
                    cell_height as int,
                ),
                Err(error) => decoded_rgba8(bytes@) == Err::<(u32, u32, Seq<u8>), Seq<char>>(
                    error.message@,
                ),
            },
    {
        match decode_rgba8(bytes) {
            Ok(raster) => Ok(GlyphAtlas::from_raster(raster, cell_width, cell_height)),
            Err(error) => Err(DecodeError { message: error_text(&error) }),
        }
    }
}

/// Every band below the number of complete bands lies within the sheet.
proof fn lemma_band_fits(height: int, cell_height: int, index: int)
    requires
        cell_height > 0,
        height >= 0,
        0 <= index < height / cell_height,
    ensures
        index * cell_height + cell_height <= height,
        index * cell_height >= 0,
{
    vstd::arithmetic::div_mod::lemma_fundamental_div_mod(height, cell_height);
    vstd::arithmetic::div_mod::lemma_mod_bound(height, cell_height);
    let q = height / cell_height;
    assert(index * cell_height + cell_height <= cell_height * q && index * cell_height >= 0)
        by (nonlinear_arith)
        requires
            0 <= index < q,
            cell_height > 0,
    ;
}

} // verus!
