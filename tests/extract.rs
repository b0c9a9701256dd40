use bin_collection::bin_calendar::{collect_date, get_bin_color, get_bin_color_at, BinColor};
use bin_collection::models::TabCollection;

fn record(colour: &str, date: &str, kind: &str) -> TabCollection {
    TabCollection {
        colour: colour.to_string(),
        date: date.to_string(),
        tab_collection_type: kind.to_string(),
    }
}

#[test]
fn two_bins_on_the_first_date() {
    let records = vec![
        record("Blue", "Monday, 3 June 2024, Week 1", "Recycling"),
        record("Green", "Monday, 3 June 2024, Week 1", "Garden"),
        record("Grey", "Monday, 10 June 2024, Week 2", "General"),
    ];
    let result = get_bin_color(records).expect("a result");
    assert_eq!(result.colors, vec!["Blue".to_string(), "Green".to_string()]);
    assert_eq!(result.collect_date, "3 June 2024");
    assert!(result.update_date.is_some());
}

#[test]
fn empty_records_give_nothing() {
    assert!(get_bin_color(Vec::new()).is_none());
    assert!(get_bin_color_at(&Vec::new(), 1_700_000_000).is_none());
}

#[test]
fn single_record_gives_one_colour_stamped_now() {
    let before = chrono::Utc::now().timestamp();
    let result = get_bin_color(vec![record("Brown", "Friday, 7 June 2024, Week 1", "Food")])
        .expect("a result");
    let after = chrono::Utc::now().timestamp();
    assert_eq!(result.colors, vec!["Brown".to_string()]);
    let stamped = result.update_date.expect("a time");
    assert!(before <= stamped && stamped <= after);
}

#[test]
fn date_without_commas_is_still_valid() {
    let result = get_bin_color_at(&vec![record("Blue", "InvalidDate", "Recycling")], 100)
        .expect("a result");
    assert_eq!(result.colors, vec!["Blue".to_string()]);
    assert_eq!(result.collect_date, "");
    assert!(result.is_valid());
}

#[test]
fn extraction_keeps_order_and_duplicates() {
    let records = vec![
        record("Blue", "Tuesday, 4 June 2024, Week 1", "Recycling"),
        record("Grey", "Tuesday, 11 June 2024, Week 2", "General"),
        record("Blue", "Tuesday, 4 June 2024, Week 1", "Paper"),
        record("Green", "Tuesday, 4 June 2024, Week 1", "Garden"),
    ];
    let result = get_bin_color_at(&records, 1_717_430_400).expect("a result");
    assert_eq!(
        result,
        BinColor {
            colors: vec!["Blue".to_string(), "Blue".to_string(), "Green".to_string()],
            update_date: Some(1_717_430_400),
            collect_date: "4 June 2024".to_string(),
        }
    );
}

#[test]
fn collect_date_takes_the_middle_of_three_parts() {
    assert_eq!(collect_date("Monday, 3 June 2024, Week 1".to_string()), "3 June 2024");
    assert_eq!(collect_date("Lundi, 3 juin 2024, Semaine 1".to_string()), "3 juin 2024");
    assert_eq!(collect_date("Dé Luain, 3 Ògmhios 2024, Seachdain 1".to_string()), "3 Ògmhios 2024");
}

#[test]
fn collect_date_is_empty_unless_exactly_three_parts() {
    assert_eq!(collect_date("InvalidDate".to_string()), "");
    assert_eq!(collect_date(String::new()), "");
    assert_eq!(collect_date("Monday, 3 June 2024".to_string()), "");
    assert_eq!(collect_date("a, b, c, d".to_string()), "");
    assert_eq!(collect_date("Monday,3 June 2024,Week 1".to_string()), "");
}

#[test]
fn collect_date_with_adjacent_separators() {
    assert_eq!(collect_date(", , ".to_string()), "");
    assert_eq!(collect_date("x, , y".to_string()), "");
    assert_eq!(collect_date("x,, y, z".to_string()), "y");
}

#[test]
fn new_bin_color_is_empty_and_invalid() {
    let b = BinColor::new();
    assert!(b.colors.is_empty());
    assert!(b.update_date.is_none());
    assert_eq!(b.collect_date, "");
    assert!(!b.is_valid());
    assert_eq!(b.duplicate(), b);
}
