use hachha_dev::theme::{
    ThemeDate, ThemeDateError, ThemeProvider, ThemeRule, ThemeRules,
};
use hachha_dev::util::EmbeddedData;

fn day(month: u8, day: u8) -> ThemeDate {
    ThemeDate::Date { month, day }
}

#[test]
fn single_date_matches_itself_only() {
    let pattern = day(10, 31);
    assert!(pattern.matches(&day(10, 31)));
    assert!(!pattern.matches(&day(10, 30)));
    assert!(!pattern.matches(&day(11, 31)));
}

#[test]
fn range_within_one_month() {
    let pattern = ThemeDate::Range { month_a: 12, day_a: 20, month_b: 12, day_b: 26 };
    assert!(pattern.matches(&day(12, 20)));
    assert!(pattern.matches(&day(12, 23)));
    assert!(pattern.matches(&day(12, 26)));
    assert!(!pattern.matches(&day(12, 19)));
    assert!(!pattern.matches(&day(12, 27)));
    assert!(!pattern.matches(&day(11, 23)));
}

#[test]
fn range_across_months() {
    let pattern = ThemeDate::Range { month_a: 12, day_a: 28, month_b: 2, day_b: 3 };
    assert!(pattern.matches(&day(12, 28)));
    assert!(pattern.matches(&day(12, 31)));
    // Months strictly between the bounds are covered only when the
    // range runs forward through the year; a wrap-around range
    // covers just the tail of its first month and the head of its
    // last.
    assert!(!pattern.matches(&day(1, 15)));
    assert!(pattern.matches(&day(2, 1)));
    assert!(pattern.matches(&day(2, 3)));
    assert!(!pattern.matches(&day(12, 27)));
    assert!(!pattern.matches(&day(2, 4)));
    assert!(!pattern.matches(&day(6, 15)));
}

#[test]
fn range_never_matches_a_range() {
    let pattern = ThemeDate::Range { month_a: 1, day_a: 1, month_b: 2, day_b: 1 };
    let other = ThemeDate::Range { month_a: 1, day_a: 1, month_b: 2, day_b: 1 };
    assert!(!pattern.matches(&other));
}

#[test]
fn first_matching_rule_wins() {
    let rules = ThemeRules {
        default: String::from("plain.css"),
        rules: vec![
            ThemeRule {
                theme: String::from("spooky.css"),
                dates: vec![ThemeDate::Range { month_a: 10, day_a: 24, month_b: 10, day_b: 31 }],
            },
            ThemeRule {
                theme: String::from("festive.css"),
                dates: vec![
                    ThemeDate::Range { month_a: 12, day_a: 20, month_b: 12, day_b: 31 },
                    day(10, 31),
                ],
            },
        ],
    };
    let provider = ThemeProvider::new(EmbeddedData::empty(), rules);
    // Both rules cover October 31; the first one listed wins.
    assert_eq!(provider.theme_name(&day(10, 31)), "spooky.css");
    assert_eq!(provider.theme_name(&day(12, 25)), "festive.css");
    assert_eq!(provider.theme_name(&day(6, 1)), "plain.css");
}

#[test]
fn date_text_round_trip() {
    let single = day(2, 14);
    assert_eq!(single.to_text(), b"02/14".to_vec());
    assert_eq!(ThemeDate::parse_text(b"02/14"), Ok(single));

    let range = ThemeDate::Range { month_a: 12, day_a: 1, month_b: 1, day_b: 6 };
    assert_eq!(range.to_text(), b"12/01-01/06".to_vec());
    assert_eq!(ThemeDate::parse_text(b"12/01-01/06"), Ok(range));
}

#[test]
fn parse_accepts_unpadded_numbers() {
    assert_eq!(ThemeDate::parse_text(b"1/5"), Ok(day(1, 5)));
    assert_eq!(ThemeDate::parse_text(b"+1/5"), Ok(day(1, 5)));
    assert_eq!(ThemeDate::parse_text(b"001/005"), Ok(day(1, 5)));
}

#[test]
fn parse_rejects_bad_numerals() {
    assert_eq!(ThemeDate::parse_text(b"x"), Err(ThemeDateError::Numeral));
    assert_eq!(ThemeDate::parse_text(b""), Err(ThemeDateError::Numeral));
    assert_eq!(ThemeDate::parse_text(b"1/"), Err(ThemeDateError::Numeral));
    assert_eq!(ThemeDate::parse_text(b"999/1"), Err(ThemeDateError::Numeral));
    assert_eq!(ThemeDate::parse_text(b"01/02-zz"), Err(ThemeDateError::Numeral));
}

#[test]
fn parse_rejects_out_of_range_dates() {
    assert_eq!(ThemeDate::parse_text(b"13/01"), Err(ThemeDateError::Bounds));
    assert_eq!(ThemeDate::parse_text(b"01/32"), Err(ThemeDateError::Bounds));
    assert_eq!(ThemeDate::parse_text(b"0/7"), Err(ThemeDateError::Bounds));
    assert_eq!(ThemeDate::parse_text(b"5"), Err(ThemeDateError::Bounds));
}

#[test]
fn parse_rejects_a_third_part() {
    assert_eq!(
        ThemeDate::parse_text(b"01/02-03/04-05/06"),
        Err(ThemeDateError::Form)
    );
    // A bad second part is noticed before the extra dash.
    assert_eq!(
        ThemeDate::parse_text(b"01/02-zz-05/06"),
        Err(ThemeDateError::Numeral)
    );
}

#[test]
fn parse_folds_extra_pieces_onto_the_day() {
    // Pieces beyond the second keep overwriting the day.
    assert_eq!(ThemeDate::parse_text(b"1/2/3"), Ok(day(1, 3)));
}
