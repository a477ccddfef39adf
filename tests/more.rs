use csv_tools::dedup::{keep_first_of_each_key, keep_last_of_each_key};
use csv_tools::header::has_duplicate_names;
use csv_tools::lines::is_blank_row;
use csv_tools::scan::{spend_budget, spend_errors};
use csv_tools::schema::lookup;
use csv_tools::text::{is_white_space, trim};
use csv_tools::validate::validate_record;

fn row(v: &[&str]) -> Vec<String> {
    v.iter().map(|s| s.to_string()).collect()
}

#[test]
fn white_space_matches_std_everywhere() {
    for u in 0..=0x10FFFFu32 {
        if let Some(c) = char::from_u32(u) {
            assert_eq!(is_white_space(c), c.is_whitespace(), "U+{:04X}", u);
        }
    }
}

#[test]
fn trim_matches_std() {
    for s in ["  a b  ", "\u{3000}x\u{85}", "", "   ", "\t1\n", "a"] {
        assert_eq!(trim(s), s.trim());
    }
}

#[test]
fn keep_last_positions() {
    assert_eq!(keep_last_of_each_key(&vec![1, 2, 1, 3, 2]), vec![2, 3, 4]);
    assert_eq!(keep_last_of_each_key(&vec![]), Vec::<usize>::new());
    assert_eq!(keep_last_of_each_key(&vec![7, 7, 7]), vec![2]);
}

#[test]
fn keep_first_positions() {
    assert_eq!(keep_first_of_each_key(&vec![1, 2, 1, 3, 2]), vec![0, 1, 3]);
    assert_eq!(keep_first_of_each_key(&vec![7, 7, 7]), vec![0]);
}

#[test]
fn blank_rows() {
    assert!(is_blank_row(""));
    assert!(is_blank_row("   "));
    assert!(is_blank_row(",,,"));
    assert!(is_blank_row(" ,, \t"));
    assert!(!is_blank_row(", ,"));
    assert!(!is_blank_row("a,,"));
}

#[test]
fn duplicate_header_names() {
    assert!(has_duplicate_names(&row(&["a", "b", "a"])));
    assert!(!has_duplicate_names(&row(&["a", "b", "c"])));
    assert!(!has_duplicate_names(&row(&[])));
}

#[test]
fn error_budget_steps() {
    assert_eq!(spend_errors(Some(3), 1), Some(2));
    assert_eq!(spend_errors(Some(3), 5), Some(0));
    assert_eq!(spend_errors(None, 5), None);
    let s = lookup("siisa_empleadores").unwrap();
    let bad = validate_record(&row(&["x", "a"]), &s);
    assert_eq!(spend_budget(Some(5), &bad), Some(3));
    assert_eq!(spend_budget(Some(1), &bad), Some(0));
    let good = validate_record(&row(&["1", "a", "", "", "", "", ""]), &s);
    assert_eq!(spend_budget(Some(1), &good), Some(1));
}

#[test]
fn error_budget_counts_unreachable_key() {
    let s = lookup("siisa_empleadores_relaciones").unwrap();
    let short = validate_record(&row(&["1"]), &s);
    assert_eq!(short.key, None);
    assert_eq!(spend_budget(Some(10), &short), Some(7));
}
