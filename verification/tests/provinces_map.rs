use tiger::fileset::FileKind;
use tiger::pathtable::PathTableIndex;
use tiger::provinces::{map_file, Adjacency, Coords, MapFile, Province, Provinces};
use tiger::report::error_key::ErrorKey;
use tiger::report::errors::Errors;
use tiger::report::report_struct::{LogReport, Severity};
use tiger::token::{Loc, Token};

fn file_loc() -> Loc {
    Loc::new(PathTableIndex(7), FileKind::Mod)
}

fn row(fields: &[&str]) -> Vec<Token> {
    let mut v = Vec::new();
    for (i, f) in fields.iter().enumerate() {
        let mut l = file_loc();
        l.line = 2;
        l.column = 1 + i as u32;
        v.push(Token::new(f, l));
    }
    v
}

fn messages(reports: &[LogReport]) -> Vec<String> {
    reports.iter().map(|r| r.msg.clone()).collect()
}

#[test]
fn adjacency_row_is_read() {
    let mut errors = Errors::new();
    let csv = row(&["12", "13", "sea", "900", "100", "-20", "101", "22", "crossing"]);
    let a = Adjacency::parse(&csv, &mut errors).unwrap();
    assert_eq!(a.from, 12);
    assert_eq!(a.to, 13);
    assert_eq!(a.kind.as_str(), "sea");
    assert_eq!(a.through, 900);
    assert_eq!(a.start, Coords { x: 100, y: -20 });
    assert_eq!(a.stop, Coords { x: 101, y: 22 });
    assert_eq!(a.comment.as_str(), "crossing");
    assert_eq!(a.line, csv[0].loc);
    assert!(errors.drain_reports().is_empty());
}

#[test]
fn adjacency_reports_every_bad_number() {
    let mut errors = Errors::new();
    let csv = row(&["-1", "13", "sea", "x", "100", "2147483648", "101", "22", ""]);
    assert!(Adjacency::parse(&csv, &mut errors).is_none());
    let reports = errors.drain_reports();
    assert_eq!(
        messages(&reports),
        vec!["expected province id", "expected province id", "expected y coordinate"]
    );
    assert_eq!(reports[0].pointers[0].loc.column, 1);
    assert_eq!(reports[1].pointers[0].loc.column, 4);
    assert_eq!(reports[2].pointers[0].loc.column, 6);
    assert!(reports.iter().all(|r| r.key == ErrorKey::ParseError && r.severity == Severity::Error));
}

#[test]
fn adjacency_wrong_field_count() {
    let mut errors = Errors::new();
    let csv = row(&["1", "2", "sea"]);
    assert!(Adjacency::parse(&csv, &mut errors).is_none());
    let reports = errors.drain_reports();
    assert_eq!(messages(&reports), vec!["wrong number of fields for this line, expected 9"]);
}

#[test]
fn province_row_stops_at_first_bad_field() {
    let mut errors = Errors::new();
    let p = Province::parse(&row(&["5", "255", "0", "12", "Dublin", "x"]), &mut errors).unwrap();
    assert_eq!((p.id, p.valid, p.color), (5, true, (255, 0, 12)));
    assert_eq!(p.comment.as_str(), "Dublin");
    assert!(Province::parse(&row(&["6", "256", "zz", "1", "x"]), &mut errors).is_none());
    let p = Province::parse(&row(&["+7", "1", "2", "3", ""]), &mut errors).unwrap();
    assert!(!p.valid);
    assert!(Province::parse(&row(&["8", "1", "2"]), &mut errors).is_none());
    let reports = errors.drain_reports();
    assert_eq!(messages(&reports), vec!["expected red value", "too few fields for this line, expected 5"]);
}

#[test]
fn definitions_duplicates_and_color_checks() {
    let mut errors = Errors::new();
    let mut provinces = Provinces::default();
    let text = "0;0;0;0;x;x\n1;10;0;0;Dublin;x\n2;20;0;0;Meath;x\n2;30;0;0;Meath again;x\n3;10;0;0;Cork;x\n4;99;0;0;Kerry;x\n5;40;0;0;;x\n";
    provinces.handle_definitions(file_loc(), Ok(text), &mut errors);
    let reports = errors.drain_reports();
    assert_eq!(messages(&reports), vec!["duplicate entry for this province id"]);
    assert_eq!(reports[0].key, ErrorKey::Duplicate);
    assert_eq!(reports[0].pointers[0].loc.line, 4);
    for (r, g, b) in [(10, 0, 0), (30, 0, 0), (40, 0, 0), (50, 0, 0), (60, 0, 0)] {
        provinces.add_color(r, g, b);
    }
    assert!(provinces.finalize(&mut errors));
    let reports = errors.drain_reports();
    assert_eq!(
        messages(&reports),
        vec![
            "color was already used for id 1",
            "color is not in the provinces.png",
            "provinces.png contains 3 colors with no provinces assigned",
        ]
    );
    assert_eq!(reports[0].pointers[0].loc.line, 5);
    assert_eq!(reports[1].pointers[0].loc.line, 6);
    assert_eq!(reports[2].pointers[0].loc, file_loc());
    assert!(reports.iter().all(|r| r.severity == Severity::Warning));
}

#[test]
fn finalize_stops_at_missing_id() {
    let mut errors = Errors::new();
    let mut provinces = Provinces::default();
    assert!(!provinces.finalize(&mut errors));
    provinces.handle_definitions(file_loc(), Ok("0;1;1;1;a\n1;1;1;1;b\n3;2;2;2;c\n"), &mut errors);
    assert!(provinces.finalize(&mut errors));
    let reports = errors.drain_reports();
    assert_eq!(
        messages(&reports),
        vec!["color is not in the provinces.png", "province ids must be sequential, but 2 is missing"]
    );
    assert_eq!(reports[1].severity, Severity::Error);
    assert_eq!(reports[1].pointers[0].loc, file_loc());
}

#[test]
fn unreadable_definitions_still_count() {
    let mut errors = Errors::new();
    let mut provinces = Provinces::default();
    provinces.handle_definitions(file_loc(), Err("could not read `map_data/definition.csv`"), &mut errors);
    let reports = errors.drain_reports();
    assert_eq!(messages(&reports), vec!["could not read `map_data/definition.csv`"]);
    assert_eq!(reports[0].key, ErrorKey::ReadError);
    assert!(provinces.finalize(&mut errors));
    assert!(errors.drain_reports().is_empty());
}

#[test]
fn adjacencies_need_the_terminator_last() {
    let mut errors = Errors::new();
    let mut provinces = Provinces::default();
    let text = "From;To;Type;Through;start_x;start_y;stop_x;stop_y;Comment\n1;2;sea;3;4;5;6;7;a\n1;2;sea;3;4;5;6;7\n-1;-1;;-1;-1;-1;-1;-1;\n9;9;sea;9;9;9;9;9;late\n8;8;sea;8;8;8;8;8;later\n";
    provinces.handle_adjacencies(file_loc(), Ok(text), &mut errors);
    let reports = errors.drain_reports();
    assert_eq!(
        messages(&reports),
        vec![
            "wrong number of fields for this line, expected 9",
            "the line with all `-1;` should be the last line in the file",
        ]
    );
    assert_eq!(reports[1].severity, Severity::Warning);
    assert_eq!(reports[1].pointers[0].loc.line, 5);

    let mut errors = Errors::new();
    provinces.handle_adjacencies(file_loc(), Ok("header\n1;2;sea;3;4;5;6;7;a\n"), &mut errors);
    let reports = errors.drain_reports();
    assert_eq!(messages(&reports), vec!["CK3 needs a line with all `-1;` at the end of this file"]);
    assert_eq!(reports[0].pointers[0].loc, file_loc());
}

#[test]
fn map_files_by_name() {
    assert_eq!(map_file(2, "definition.csv"), Some(MapFile::Definition));
    assert_eq!(map_file(2, "adjacencies.csv"), Some(MapFile::Adjacencies));
    assert_eq!(map_file(2, "provinces.png"), Some(MapFile::ProvincesImage));
    assert_eq!(map_file(3, "definition.csv"), None);
    assert_eq!(map_file(2, "rivers.png"), None);
    assert_eq!(Provinces::subpath(), "map_data");
}
