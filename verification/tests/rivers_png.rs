use tiger::everything::Everything;
use tiger::fileset::FileKind;
use tiger::pathtable::PathTableIndex;
use tiger::report::error_key::ErrorKey;
use tiger::report::errors::Errors;
use tiger::report::report_struct::Severity;
use tiger::rivers::{RiverImage, Rivers};
use tiger::token::Loc;

fn entry() -> Loc {
    Loc::new(PathTableIndex(5), FileKind::Mod)
}

fn check(width: u32, height: u32, pixels: Vec<u8>) -> Vec<String> {
    let mut errors = Errors::new();
    let mut rivers = Rivers::default();
    let image = RiverImage { width, height, indexed: true, has_palette: true, pixels };
    rivers.handle_file(entry(), image, None, &mut errors);
    rivers.validate(&Everything::new(), &mut errors);
    let reports = errors.drain_reports();
    assert!(reports.iter().all(|r| r.key == ErrorKey::Rivers && r.severity == Severity::Warning));
    let mut msgs: Vec<String> = reports.iter().map(|r| r.msg.clone()).collect();
    msgs.sort();
    msgs
}

#[test]
fn a_river_from_its_source() {
    assert!(check(5, 1, vec![0, 3, 3, 3, 16]).is_empty());
    assert!(check(4, 1, vec![0, 3, 3, 16]).is_empty());
    assert!(check(1, 4, vec![0, 4, 5, 6]).is_empty());
}

#[test]
fn orphans_and_bad_specials() {
    assert_eq!(check(3, 1, vec![16, 3, 16]), vec!["(1, 0) orphan river pixel"]);
    assert_eq!(check(2, 1, vec![0, 16]), vec!["(0, 0) river source (green) not at source of a river"]);
    assert_eq!(check(2, 1, vec![1, 3]), vec!["(0, 0) river tributary (red) not joining another river"]);
    assert_eq!(check(2, 1, vec![3, 2]), vec!["(1, 0) river split (yellow) not splitting off from a river"]);
    assert_eq!(check(4, 1, vec![16, 3, 3, 16]), vec!["(2, 0) - (1, 0) orphan river segment"]);
}

#[test]
fn crowded_pixels() {
    let pixels = vec![16, 3, 16, 3, 3, 3, 16, 16, 16];
    assert_eq!(check(3, 3, pixels), vec!["(1, 1) river pixel has 3 neighbors"]);
    assert_eq!(check(3, 1, vec![3, 1, 3]), vec!["(1, 0) pixel terminates multiple river segments"]);
    assert_eq!(check(3, 1, vec![0, 3, 0]), vec!["(1, 0) river pixel connects two special pixels"]);
}

#[test]
fn image_format_and_reading() {
    let mut errors = Errors::new();
    let mut rivers = Rivers::default();
    let image = RiverImage { width: 1, height: 1, indexed: false, has_palette: true, pixels: vec![3] };
    rivers.handle_file(entry(), image, Some("unexpected end of file"), &mut errors);
    rivers.validate(&Everything::new(), &mut errors);
    let reports = errors.drain_reports();
    assert_eq!(reports.len(), 2);
    assert_eq!(reports[0].key, ErrorKey::ReadError);
    assert_eq!(reports[0].msg, "could not read image");
    assert_eq!(reports[0].info.as_deref(), Some("unexpected end of file"));
    assert_eq!(reports[1].key, ErrorKey::ImageFormat);
    assert_eq!(reports[1].msg, "rivers.png should be in indexed color format (with 8-bit palette)");
    let image = RiverImage { width: 1, height: 1, indexed: true, has_palette: false, pixels: vec![3] };
    rivers.handle_file(entry(), image, None, &mut errors);
    rivers.validate(&Everything::new(), &mut errors);
    let reports = errors.drain_reports();
    assert_eq!(reports.len(), 1);
    assert_eq!(reports[0].msg, "rivers.png must have an 8-bit palette");
    assert_eq!(Rivers::subpath(), "map_data/rivers.png");
}
