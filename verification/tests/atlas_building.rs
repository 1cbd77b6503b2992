use sdf_render::atlas::{filter_taps, fraction, GlyphAtlas, Raster};
use sdf_render::fixed::{HALF, ONE};
use std::io::Cursor;

/// A sheet whose bytes tell their place: column, row, row / 96, and the channel.
fn sheet(width: u32, height: u32) -> Raster {
    let mut data = Vec::new();
    for y in 0..height {
        for x in 0..width {
            data.push(x as u8);
            data.push(y as u8);
            data.push((y / 96) as u8);
            data.push(255);
        }
    }
    Raster::new(width, height, data).unwrap()
}

fn png_of(raster: &Raster) -> Vec<u8> {
    let picture =
        image::RgbaImage::from_raw(raster.width, raster.height, raster.data.clone()).unwrap();
    let mut bytes = Vec::new();
    image::DynamicImage::ImageRgba8(picture)
        .write_to(&mut Cursor::new(&mut bytes), image::ImageOutputFormat::Png)
        .unwrap();
    bytes
}

fn texel(texels: &[u8], width: u32, x: u32, y: u32) -> [u8; 4] {
    let at = ((y * width + x) * 4) as usize;
    [texels[at], texels[at + 1], texels[at + 2], texels[at + 3]]
}

#[test]
fn raster_needs_four_bytes_for_each_pixel() {
    assert!(Raster::new(2, 3, vec![0; 24]).is_some());
    assert!(Raster::new(2, 3, vec![0; 23]).is_none());
    assert!(Raster::new(2, 3, vec![0; 25]).is_none());
    assert!(Raster::new(0, 3, Vec::new()).is_some());
    assert!(Raster::new(0, 0, vec![0; 4]).is_none());
    assert!(Raster::new(u32::MAX, u32::MAX, vec![0; 16]).is_none());
    let r = Raster::new(1, 1, vec![1, 2, 3, 4]).unwrap();
    assert_eq!((r.width, r.height), (1, 1));
    assert_eq!(r.data, vec![1, 2, 3, 4]);
}

#[test]
fn five_complete_bands_give_five_layers() {
    let atlas = GlyphAtlas::from_raster(sheet(96, 96 * 5), 96, 96);
    assert_eq!(atlas.len(), 5);
    assert!(atlas.layer(4).is_some());
    assert!(atlas.layer(5).is_none());
}

#[test]
fn rows_below_the_last_complete_band_are_dropped() {
    let atlas = GlyphAtlas::from_raster(sheet(96, 96 * 5 + 10), 96, 96);
    assert_eq!(atlas.len(), 5);
    let atlas = GlyphAtlas::from_raster(sheet(96, 96 * 5 + 95), 96, 96);
    assert_eq!(atlas.len(), 5);
    let atlas = GlyphAtlas::from_raster(sheet(96, 96 * 6), 96, 96);
    assert_eq!(atlas.len(), 6);
}

#[test]
fn a_sheet_lower_than_a_cell_gives_no_layer() {
    let atlas = GlyphAtlas::from_raster(sheet(96, 95), 96, 96);
    assert_eq!(atlas.len(), 0);
    assert!(atlas.layer(0).is_none());
    let atlas = GlyphAtlas::from_raster(sheet(96, 0), 96, 96);
    assert_eq!(atlas.len(), 0);
    assert_eq!(atlas.sample(0, HALF, HALF), None);
}

#[test]
fn each_layer_is_its_band_pixel_for_pixel() {
    let source = sheet(96, 96 * 3 + 7);
    let atlas = GlyphAtlas::from_raster(sheet(96, 96 * 3 + 7), 96, 96);
    assert_eq!(atlas.len(), 3);
    for i in 0..3u32 {
        let layer = atlas.layer(i as usize).unwrap();
        assert_eq!(layer.width(), 96);
        assert_eq!(layer.height(), 96);
        assert_eq!(layer.texels().len(), 96 * 96 * 4);
        for y in 0..96u32 {
            for x in 0..96u32 {
                let from_sheet = texel(&source.data, 96, x, i * 96 + y);
                assert_eq!(texel(layer.texels(), 96, x, y), from_sheet);
                assert_eq!(from_sheet[2], i as u8);
            }
        }
    }
    // the first row of the sheet is the first row of the first layer
    assert_eq!(texel(atlas.layer(0).unwrap().texels(), 96, 0, 0), [0, 0, 0, 255]);
    assert_eq!(texel(atlas.layer(0).unwrap().texels(), 96, 0, 95), [0, 95, 0, 255]);
}

#[test]
fn the_device_takes_the_rows_last_row_first() {
    let atlas = GlyphAtlas::from_raster(sheet(96, 96 * 2 + 7), 96, 96);
    for i in 0..2u32 {
        let layer = atlas.layer(i as usize).unwrap();
        let device = layer.device_texels();
        assert_eq!(device.len(), layer.texels().len());
        for y in 0..96u32 {
            for x in 0..96u32 {
                assert_eq!(texel(&device, 96, x, y), texel(layer.texels(), 96, x, 95 - y));
            }
        }
        assert_eq!(texel(&device, 96, 7, 0), [7, (i * 96 + 95) as u8, i as u8, 255]);
        assert_ne!(&device, layer.texels());
    }
    let narrow = GlyphAtlas::from_raster(sheet(3, 2), 3, 2);
    assert_eq!(
        narrow.layer(0).unwrap().texels(),
        &vec![0, 0, 0, 255, 1, 0, 0, 255, 2, 0, 0, 255, 0, 1, 0, 255, 1, 1, 0, 255, 2, 1, 0, 255]
    );
    assert_eq!(
        narrow.layer(0).unwrap().device_texels(),
        vec![0, 1, 0, 255, 1, 1, 0, 255, 2, 1, 0, 255, 0, 0, 0, 255, 1, 0, 0, 255, 2, 0, 0, 255]
    );
}

#[test]
fn a_narrow_cell_takes_the_left_of_the_sheet() {
    let source = sheet(10, 8);
    let atlas = GlyphAtlas::from_raster(sheet(10, 8), 4, 3);
    assert_eq!(atlas.len(), 2);
    for i in 0..2u32 {
        let layer = atlas.layer(i as usize).unwrap();
        assert_eq!((layer.width(), layer.height()), (4, 3));
        for y in 0..3u32 {
            for x in 0..4u32 {
                assert_eq!(
                    texel(layer.texels(), 4, x, y),
                    texel(&source.data, 10, x, i * 3 + y)
                );
            }
        }
    }
}

#[test]
fn a_wide_cell_is_cut_to_the_sheet() {
    let atlas = GlyphAtlas::from_raster(sheet(10, 8), 96, 4);
    assert_eq!(atlas.len(), 2);
    let layer = atlas.layer(1).unwrap();
    assert_eq!((layer.width(), layer.height()), (10, 4));
    assert_eq!(texel(layer.texels(), 10, 9, 0), [9, 4, 0, 255]);
    assert_eq!(texel(layer.texels(), 10, 0, 3), [0, 7, 0, 255]);
}

#[test]
fn cells_without_width_give_empty_layers() {
    let atlas = GlyphAtlas::from_raster(sheet(10, 8), 0, 4);
    assert_eq!(atlas.len(), 2);
    let layer = atlas.layer(0).unwrap();
    assert_eq!((layer.width(), layer.height()), (0, 4));
    assert!(layer.texels().is_empty());
    assert!(layer.device_texels().is_empty());
    assert_eq!(layer.sample(HALF, HALF), None);
    let atlas = GlyphAtlas::from_raster(sheet(0, 8), 96, 4);
    assert_eq!(atlas.len(), 2);
    assert_eq!(atlas.layer(1).unwrap().width(), 0);
    assert_eq!(atlas.sample(1, 0, 0), None);
}

#[test]
fn build_decodes_and_slices() {
    let source = sheet(96, 96 * 5 + 10);
    let atlas = GlyphAtlas::build(&png_of(&source), 96, 96).unwrap();
    assert_eq!(atlas.len(), 5);
    let direct = GlyphAtlas::from_raster(sheet(96, 96 * 5 + 10), 96, 96);
    for i in 0..5 {
        let a = atlas.layer(i).unwrap();
        let b = direct.layer(i).unwrap();
        assert_eq!((a.width(), a.height()), (96, 96));
        assert_eq!(a.texels(), b.texels());
    }
    // layer 2 is the third band of the sheet
    let layer = atlas.layer(2).unwrap();
    assert_eq!(texel(layer.texels(), 96, 5, 0), [5, (2 * 96) as u8, 2, 255]);
    assert_eq!(texel(layer.texels(), 96, 5, 95), [5, (2 * 96 + 95) as u8, 2, 255]);
    for y in 0..96u32 {
        for x in 0..96u32 {
            assert_eq!(texel(layer.texels(), 96, x, y), texel(&source.data, 96, x, 2 * 96 + y));
        }
    }
}

#[test]
fn build_converts_other_pixel_formats_to_rgba() {
    let grey = image::GrayImage::from_raw(2, 4, vec![10, 20, 30, 40, 50, 60, 70, 80]).unwrap();
    let mut bytes = Vec::new();
    image::DynamicImage::ImageLuma8(grey)
        .write_to(&mut Cursor::new(&mut bytes), image::ImageOutputFormat::Png)
        .unwrap();
    let atlas = GlyphAtlas::build(&bytes, 2, 2).unwrap();
    assert_eq!(atlas.len(), 2);
    let first = atlas.layer(0).unwrap();
    assert_eq!(
        first.texels(),
        &vec![10, 10, 10, 255, 20, 20, 20, 255, 30, 30, 30, 255, 40, 40, 40, 255]
    );
    let second = atlas.layer(1).unwrap();
    assert_eq!(
        second.texels(),
        &vec![50, 50, 50, 255, 60, 60, 60, 255, 70, 70, 70, 255, 80, 80, 80, 255]
    );
}

#[test]
fn build_fails_on_bytes_that_are_no_picture() {
    let garbage = b"this is no picture at all";
    let error = GlyphAtlas::build(garbage, 96, 96).unwrap_err();
    let direct = image::load(Cursor::new(&garbage[..]), image::ImageFormat::Png).unwrap_err();
    assert!(!error.message.is_empty());
    assert_eq!(error.message, direct.to_string());
    assert!(GlyphAtlas::build(&[], 96, 96).is_err());
    let mut cut = png_of(&sheet(96, 96));
    cut.truncate(cut.len() / 2);
    assert!(GlyphAtlas::build(&cut, 96, 96).is_err());
    // a stream with a broken signature is no PNG stream
    let mut broken = png_of(&sheet(1, 1));
    assert!(GlyphAtlas::build(&broken, 1, 1).is_ok());
    broken[1] = b'X';
    assert!(GlyphAtlas::build(&broken, 1, 1).is_err());
}

#[test]
fn channels_are_fractions_of_their_range() {
    assert_eq!(fraction(0), 0);
    assert_eq!(fraction(255), ONE);
    assert_eq!(fraction(128), 501_960);
    assert_eq!(fraction(1), 3_921);
}

#[test]
fn a_coordinate_lies_between_two_texel_centres() {
    // centres of 96 texels lie at (i + 1/2) / 96
    assert_eq!(filter_taps(96, 0), (0, 0, 0));
    assert_eq!(filter_taps(96, 5_208), (0, 0, 0));
    assert_eq!(filter_taps(96, 5_209), (0, 1, 64));
    assert_eq!(filter_taps(96, 15_625), (1, 2, 0));
    assert_eq!(filter_taps(96, HALF), (47, 48, HALF));
    assert_eq!(filter_taps(96, ONE), (95, 95, HALF));
    assert_eq!(filter_taps(4, 250_000), (0, 1, HALF));
    assert_eq!(filter_taps(1, 0), (0, 0, 0));
    assert_eq!(filter_taps(1, ONE), (0, 0, HALF));
    assert_eq!(filter_taps(u32::MAX, ONE), (u32::MAX - 1, u32::MAX - 1, HALF));
    assert_eq!(filter_taps(u32::MAX, u32::MAX), (u32::MAX - 1, u32::MAX - 1, 117_025));
}

#[test]
fn sampling_reads_the_last_row_at_the_top_of_the_quad() {
    let atlas = GlyphAtlas::from_raster(sheet(96, 96 * 2), 96, 96);
    let f = |byte: u8| fraction(byte);
    // v = 0 reads row 95 of the band, v = 1 reads row 0
    assert_eq!(atlas.sample(0, 0, 0), Some([0, f(95), 0, ONE]));
    assert_eq!(atlas.sample(0, ONE, 0), Some([f(95), f(95), 0, ONE]));
    assert_eq!(atlas.sample(0, 0, ONE), Some([0, 0, 0, ONE]));
    assert_eq!(atlas.sample(0, ONE, ONE), Some([f(95), 0, 0, ONE]));
    assert_eq!(atlas.sample(1, HALF, 0), Some([186_274, f(191), f(1), ONE]));
    assert_eq!(atlas.sample(1, HALF, ONE), Some([186_274, f(96), f(1), ONE]));
    assert_eq!(atlas.sample(2, HALF, HALF), None);
    assert_eq!(atlas.sample(u16::MAX, HALF, HALF), None);
    let layer = atlas.layer(1).unwrap();
    assert_eq!(layer.sample(HALF, 0), atlas.sample(1, HALF, 0));
}

#[test]
fn sampling_filters_linearly_between_texels() {
    let atlas = GlyphAtlas::from_raster(sheet(96, 96), 96, 96);
    // at a texel centre the texel itself: column 1, and row 95 - 1
    assert_eq!(atlas.sample(0, 15_625, 15_625), Some([fraction(1), fraction(94), 0, ONE]));
    // half way between columns 47 and 48 and between rows 48 and 47
    let between = (fraction(47) + fraction(48)) / 2;
    assert_eq!(atlas.sample(0, HALF, HALF), Some([between, between, 0, ONE]));
    // just past the centre of the first column, 64 millionths of the way to the second
    assert_eq!(atlas.sample(0, 5_209, 0), Some([0, fraction(95), 0, ONE]));
    assert_eq!(atlas.sample(0, 10_417, 0), Some([1_960, fraction(95), 0, ONE]));
    let one = GlyphAtlas::from_raster(Raster::new(1, 1, vec![51, 102, 153, 204]).unwrap(), 1, 1);
    for &(u, v) in &[(0u32, 0u32), (HALF, HALF), (ONE, ONE), (123_456, 987_654)] {
        assert_eq!(one.sample(0, u, v), Some([200_000, 400_000, 600_000, 800_000]));
    }
}
