use atc_sim::nav::{check_coordinates, is_space, NavError, join_from, parse_nav_line, parse_nav_lines, split_words};

#[test]
fn nav_line_parses_all_fields() {
    let p = parse_nav_line("2  38.08777778 -077.32491667 0 396 50 0.0 APH A P HILL NDB").unwrap();
    assert_eq!(p.id, "APH");
    assert_eq!(p.lat, "38.08777778");
    assert_eq!(p.lon, "-077.32491667");
    assert_eq!(p.name, "A P HILL NDB");
    assert_eq!(p.lat.parse::<f64>().unwrap(), 38.08777778);
    assert_eq!(p.lon.parse::<f64>().unwrap(), -77.32491667);
}

#[test]
fn short_nav_line_is_skipped() {
    assert!(parse_nav_line("2 38.0 -77.0 0 396").is_none());
    let lines = vec![
        "2 38.0 -77.0 0 396".to_string(),
        "3 10.5 20.5 0 1 2 0.0 XYZ".to_string(),
    ];
    let pts = parse_nav_lines(&lines);
    assert_eq!(pts.len(), 1);
    assert_eq!(pts[0].id, "XYZ");
    assert_eq!(pts[0].name, "");
}

#[test]
fn comments_and_blank_lines_are_skipped() {
    let lines = vec![
        "".to_string(),
        "   ".to_string(),
        "  # 2 1.0 2.0 0 0 0 0.0 AAA NAME".to_string(),
        "2 1.0 2.0 0 0 0 0.0 BBB SOME\tNAME".to_string(),
    ];
    let pts = parse_nav_lines(&lines);
    assert_eq!(pts.len(), 1);
    assert_eq!(pts[0].id, "BBB");
    assert_eq!(pts[0].name, "SOME NAME");
}

#[test]
fn records_keep_file_order() {
    let lines = vec![
        "2 1 2 0 0 0 0.0 ONE A".to_string(),
        "2 3 4 0 0 0 0.0 TWO B".to_string(),
    ];
    let pts = parse_nav_lines(&lines);
    assert_eq!(pts.len(), 2);
    assert_eq!(pts[0].id, "ONE");
    assert_eq!(pts[1].id, "TWO");
    assert_eq!(pts[1].lat, "3");
}

#[test]
fn non_numeric_latitude_is_kept_as_text() {
    let p = parse_nav_line("2 abc -77.0 0 0 0 0.0 BAD X").unwrap();
    assert_eq!(p.lat, "abc");
    assert!(p.lat.parse::<f64>().is_err());
}

#[test]
fn split_words_on_unicode_whitespace() {
    assert_eq!(split_words("  a\u{3000}bc\t d  "), vec!["a", "bc", "d"]);
    assert!(split_words(" \u{a0} ").is_empty());
    assert!(is_space('\u{85}'));
    assert!(!is_space('x'));
}

#[test]
fn join_from_uses_single_spaces() {
    let ws = vec!["a".to_string(), "b".to_string(), "c".to_string()];
    assert_eq!(join_from(&ws, 1), "b c");
    assert_eq!(join_from(&ws, 3), "");
}

fn readable(lines: &[&str]) -> (Vec<atc_sim::nav::NavPoint>, Vec<(bool, bool)>) {
    let lines: Vec<String> = lines.iter().map(|l| l.to_string()).collect();
    let pts = parse_nav_lines(&lines);
    let ok = pts
        .iter()
        .map(|p| (p.lat.parse::<f64>().is_ok(), p.lon.parse::<f64>().is_ok()))
        .collect();
    (pts, ok)
}

#[test]
fn non_numeric_latitude_aborts_load() {
    let (pts, ok) = readable(&[
        "2 1.0 2.0 0 0 0 0.0 GOOD A",
        "2 abc -77.0 0 0 0 0.0 BAD X",
        "2 1.0 xyz 0 0 0 0.0 LATER Y",
    ]);
    match check_coordinates(&pts, &ok) {
        Err(NavError::InvalidLatitude { value }) => assert_eq!(value, "abc"),
        _ => panic!("expected an invalid latitude"),
    }
}

#[test]
fn non_numeric_longitude_aborts_load() {
    let (pts, ok) = readable(&["2 1.0 2.0 0 0 0 0.0 GOOD A", "2 1.5 west 0 0 0 0.0 BAD X"]);
    match check_coordinates(&pts, &ok) {
        Err(NavError::InvalidLongitude { value }) => assert_eq!(value, "west"),
        _ => panic!("expected an invalid longitude"),
    }
}

#[test]
fn readable_coordinates_load() {
    let (pts, ok) = readable(&["2 1.0 2.0 0 0 0 0.0 GOOD A", "2 3 4 5"]);
    assert!(check_coordinates(&pts, &ok).is_ok());
    assert!(check_coordinates(&Vec::new(), &Vec::new()).is_ok());
}
