use catcrop::annotation::{parse_coordinate, read_points};
use catcrop::geometry::Point;

fn read(s: &str) -> Vec<(usize, usize)> {
    read_points(s.to_string()).iter().map(|p| (p.x, p.y)).collect()
}

#[test]
fn header_is_skipped_and_pairs_are_read() {
    assert_eq!(read("3 10 20 30 40 50 60"), vec![(10, 20), (30, 40), (50, 60)]);
}

#[test]
fn unreadable_pair_is_dropped() {
    assert_eq!(read("2 abc 20 30 40"), vec![(30, 40)]);
    assert_eq!(read("2 10 -20 30 40"), vec![(30, 40)]);
}

#[test]
fn points_keep_their_order() {
    let p = read_points("9 5 6 1 2".to_string());
    assert_eq!(p, vec![Point::new(5, 6), Point::new(1, 2)]);
}

#[test]
fn empty_and_header_only_records_have_no_points() {
    assert_eq!(read(""), vec![]);
    assert_eq!(read("0"), vec![]);
    assert_eq!(read("4 7"), vec![]);
}

#[test]
fn unpaired_last_token_is_ignored() {
    assert_eq!(read("2 10 20 30"), vec![(10, 20)]);
}

#[test]
fn doubled_space_makes_an_empty_token() {
    assert_eq!(read("1 10  20"), vec![]);
    assert_eq!(read("2 10 20  30 40"), vec![(10, 20)]);
}

#[test]
fn only_spaces_separate_tokens() {
    assert_eq!(read("1 10 20\n"), vec![]);
    assert_eq!(read("2 10 20 30 40 "), vec![(10, 20), (30, 40)]);
}

#[test]
fn plus_sign_is_accepted() {
    assert_eq!(read("1 +5 7"), vec![(5, 7)]);
    assert_eq!(read("1 + 7"), vec![]);
}

#[test]
fn parse_coordinate_reads_usize() {
    let c = |s: &str| parse_coordinate(&s.chars().collect());
    assert_eq!(c("0"), Some(0));
    assert_eq!(c("007"), Some(7));
    assert_eq!(c("+42"), Some(42));
    assert_eq!(c(""), None);
    assert_eq!(c("+"), None);
    assert_eq!(c("-1"), None);
    assert_eq!(c("1a"), None);
    assert_eq!(c("++1"), None);
    let max = usize::MAX.to_string();
    assert_eq!(c(&max), Some(usize::MAX));
    assert_eq!(c(&format!("{}0", max)), None);
    assert_eq!(c("99999999999999999999999"), None);
}
