use tiger::everything::Everything;
use tiger::fileset::FileKind;
use tiger::pathtable::PathTableIndex;
use tiger::provinces::Provinces;
use tiger::report::error_key::ErrorKey;
use tiger::report::errors::Errors;
use tiger::rivers::{decode_rivers_png, Rivers};
use tiger::token::Loc;

fn entry() -> Loc {
    Loc::new(PathTableIndex(2), FileKind::Mod)
}

fn encode(width: u32, height: u32, color: png::ColorType, palette: Option<Vec<u8>>, data: &[u8]) -> Vec<u8> {
    let mut out = Vec::new();
    {
        let mut encoder = png::Encoder::new(&mut out, width, height);
        encoder.set_color(color);
        encoder.set_depth(png::BitDepth::Eight);
        if let Some(p) = palette {
            encoder.set_palette(p);
        }
        let mut writer = encoder.write_header().unwrap();
        writer.write_image_data(data).unwrap();
    }
    out
}

fn palette() -> Vec<u8> {
    (0..17u8).flat_map(|i| [i, i, i]).collect()
}

#[test]
fn decode_indexed_rivers_png() {
    let bytes = encode(3, 2, png::ColorType::Indexed, Some(palette()), &[0, 3, 16, 16, 16, 16]);
    let image = decode_rivers_png(&bytes).unwrap();
    assert_eq!(image.width, 3);
    assert_eq!(image.height, 2);
    assert!(image.indexed);
    assert!(image.has_palette);
    assert_eq!(image.pixels, vec![0, 3, 16, 16, 16, 16]);
}

#[test]
fn decode_rgb_rivers_png_is_not_indexed() {
    let bytes = encode(1, 1, png::ColorType::Rgb, None, &[1, 2, 3]);
    let image = decode_rivers_png(&bytes).unwrap();
    assert!(!image.indexed);
    assert_eq!(image.pixels, vec![1, 2, 3]);
}

#[test]
fn decode_garbage_is_an_error() {
    assert!(decode_rivers_png(b"not a png at all").is_err());
    assert!(decode_rivers_png(&[]).is_err());
}

#[test]
fn load_file_checks_decoded_rivers() {
    let bytes = encode(4, 1, png::ColorType::Indexed, Some(palette()), &[0, 3, 3, 16]);
    let mut errors = Errors::new();
    let mut rivers = Rivers::default();
    rivers.load_file(entry(), Ok(&bytes), &mut errors);
    assert!(rivers.pixels_in_range());
    rivers.validate(&Everything::new(), &mut errors);
    assert!(errors.drain_reports().is_empty());
}

#[test]
fn load_file_reports_unreadable_rivers() {
    let mut errors = Errors::new();
    let mut rivers = Rivers::default();
    rivers.load_file(entry(), Err("file not found"), &mut errors);
    let reports = errors.drain_reports();
    assert_eq!(reports.len(), 1);
    assert_eq!(reports[0].key, ErrorKey::ReadError);
    assert_eq!(reports[0].msg, "could not read image");
    assert_eq!(reports[0].info.as_deref(), Some("file not found"));

    let mut errors = Errors::new();
    let mut rivers = Rivers::default();
    rivers.load_file(entry(), Ok(b"garbage"), &mut errors);
    let reports = errors.drain_reports();
    assert_eq!(reports.len(), 1);
    assert_eq!(reports[0].key, ErrorKey::ReadError);
}

#[test]
fn provinces_image_colors_are_taken() {
    let bytes = encode(2, 1, png::ColorType::Rgb, None, &[10, 20, 30, 40, 50, 60]);
    let mut errors = Errors::new();
    let mut provinces = Provinces::default();
    provinces.load_provinces_image(entry(), "map_data/provinces.png", Ok(&bytes), &mut errors);
    assert!(errors.drain_reports().is_empty());
    provinces.handle_definitions(entry(), Ok("0;0;0;0;x;x\n"), &mut errors);
    assert!(provinces.finalize(&mut errors));
    let msgs: Vec<String> = errors.drain_reports().iter().map(|r| r.msg.clone()).collect();
    assert_eq!(msgs, vec!["provinces.png contains 2 colors with no provinces assigned"]);
}

#[test]
fn provinces_image_in_wrong_format() {
    let bytes = encode(1, 1, png::ColorType::Rgba, None, &[1, 2, 3, 4]);
    let mut errors = Errors::new();
    let mut provinces = Provinces::default();
    provinces.load_provinces_image(entry(), "map_data/provinces.png", Ok(&bytes), &mut errors);
    let reports = errors.drain_reports();
    assert_eq!(reports.len(), 1);
    assert_eq!(reports[0].key, ErrorKey::ImageFormat);
    assert_eq!(reports[0].msg, "`map_data/provinces.png` has wrong color format `Rgba8`, should be Rgb8");
}

#[test]
fn provinces_image_unreadable() {
    let mut errors = Errors::new();
    let mut provinces = Provinces::default();
    provinces.handle_provinces_image(entry(), "map_data/provinces.png", Err("broken".to_string()), &mut errors);
    let reports = errors.drain_reports();
    assert_eq!(reports.len(), 1);
    assert_eq!(reports[0].key, ErrorKey::ReadError);
    assert_eq!(reports[0].msg, "could not read `map_data/provinces.png`: broken");
}
