use citygml_stid::geometry::{
    add_cells, cells_for_ring, fan_triangles, parse_points, FormatError, Point,
};
use citygml_stid::text::{is_float_text, split_words};
use std::collections::HashSet;

fn pt(a: &str, b: &str, c: &str) -> Point {
    Point { latitude: a.to_string(), longitude: b.to_string(), altitude: c.to_string() }
}

fn strings(v: &[&str]) -> Vec<String> {
    v.iter().map(|s| s.to_string()).collect()
}

fn as_set(v: &[String]) -> HashSet<String> {
    v.iter().cloned().collect()
}

#[test]
fn parse_points_reads_triples_in_order() {
    let ps = parse_points("1 2 3 4 5 6").unwrap();
    assert_eq!(ps.len(), 2);
    assert_eq!(
        (ps[0].latitude.as_str(), ps[0].longitude.as_str(), ps[0].altitude.as_str()),
        ("1", "2", "3")
    );
    assert_eq!(
        (ps[1].latitude.as_str(), ps[1].longitude.as_str(), ps[1].altitude.as_str()),
        ("4", "5", "6")
    );
}

#[test]
fn parse_points_rejects_count_not_multiple_of_three() {
    assert_eq!(parse_points("1 2 3 4").err(), Some(FormatError::NotTriples));
}

#[test]
fn parse_points_rejects_non_numeric_word() {
    assert_eq!(parse_points("1 2 x").err(), Some(FormatError::InvalidNumber));
}

#[test]
fn parse_points_empty_text_is_no_points() {
    assert_eq!(parse_points(" \n\t ").unwrap().len(), 0);
}

#[test]
fn parse_points_accepts_mixed_whitespace_and_exponents() {
    let ps = parse_points("  36.38 139.06\n1.5e2\t-0.5 +.25 7.").unwrap();
    assert_eq!(ps.len(), 2);
    assert_eq!(ps[0].altitude, "1.5e2");
    assert_eq!(ps[1].latitude, "-0.5");
    assert_eq!(ps[1].longitude, "+.25");
    assert_eq!(ps[1].altitude, "7.");
}

#[test]
fn float_literals_follow_the_f64_grammar() {
    for t in ["0", "1.", ".5", "-1.5e-3", "+2E+10", "inf", "-Infinity", "NaN", "12.34e5"] {
        assert!(is_float_text(t), "{}", t);
        assert!(t.parse::<f64>().is_ok(), "{}", t);
    }
    for t in ["", ".", "-", "e5", "1e", "1.2.3", "1e5.0", "x", "infx", "1_0", "--1", "0x10"] {
        assert!(!is_float_text(t), "{}", t);
        assert!(t.parse::<f64>().is_err(), "{}", t);
    }
}

#[test]
fn split_words_drops_all_whitespace_runs() {
    assert_eq!(split_words("  a bc\n\td  "), strings(&["a", "bc", "d"]));
    assert_eq!(split_words("x\u{3000}y"), strings(&["x", "y"]));
    assert!(split_words("   ").is_empty());
}

#[test]
fn fan_of_four_points_is_two_triangles() {
    let ring = vec![pt("0", "0", "0"), pt("1", "0", "0"), pt("1", "1", "0"), pt("0", "1", "0")];
    assert_eq!(fan_triangles(&ring), vec![(0, 1, 2), (0, 2, 3)]);
}

#[test]
fn degenerate_rings_have_no_triangles_and_no_cells() {
    for n in 0..3 {
        let ring: Vec<Point> = (0..n).map(|i| pt(&i.to_string(), "0", "0")).collect();
        assert!(fan_triangles(&ring).is_empty());
        assert!(cells_for_ring(&ring, &Vec::new()).is_empty());
    }
}

#[test]
fn ring_cells_are_the_union_without_repeats() {
    let ring = vec![pt("0", "0", "0"), pt("1", "0", "0"), pt("1", "1", "0"), pt("0", "1", "0")];
    let covers = vec![strings(&["a", "b", "b"]), strings(&["b", "c"])];
    let cells = cells_for_ring(&ring, &covers);
    assert_eq!(cells.len(), 3);
    assert_eq!(as_set(&cells), as_set(&strings(&["a", "b", "c"])));
}

#[test]
fn ring_cells_do_not_depend_on_listing_order() {
    let ring = vec![pt("0", "0", "0"), pt("1", "0", "0"), pt("1", "1", "0"), pt("0", "1", "0")];
    let one = vec![strings(&["a", "b"]), strings(&["c", "d"])];
    let other = vec![strings(&["b", "a"]), strings(&["d", "c", "c"])];
    assert_eq!(as_set(&cells_for_ring(&ring, &one)), as_set(&cells_for_ring(&ring, &other)));
}

#[test]
fn add_cells_keeps_each_cell_once() {
    let mut acc = strings(&["a"]);
    add_cells(&mut acc, &strings(&["a", "b", "b"]));
    assert_eq!(acc, strings(&["a", "b"]));
}
