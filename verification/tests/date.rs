use exegesis::date::{parse_date, Date, DateError};

#[test]
fn test_parse_date() {
    let date = parse_date("%Y-%m-%d", "2015-10-10").unwrap();
    assert_eq!(date, Date::from_ymd(2015, 10, 10));
}

#[test]
fn test_parse_date_locale() {
    let date = parse_date("%Y %b %d", "2015 Jul 10").unwrap();
    assert_eq!(date, Date::from_ymd(2015, 7, 10));
}

#[test]
fn test_parse_date_with_surrounding_content() {
    let date = parse_date("%Y-%m-%d", "blah 2015-10-10").unwrap();
    assert_eq!(date, Date::from_ymd(2015, 10, 10));
}

#[test]
fn date_with_text_on_both_sides() {
    assert_eq!(parse_date("%Y-%m-%d", "blah 2015-10-10 blah"), Ok(Date { year: 2015, month: 10, day: 10 }));
}

#[test]
fn date_with_the_name_of_the_month() {
    assert_eq!(parse_date("%B %d, %Y", "Posted on May 16, 2016 by X"), Ok(Date::from_ymd(2016, 5, 16)));
}

#[test]
fn first_stretch_with_the_shape_is_taken() {
    assert_eq!(parse_date("%Y-%m-%d", "1999-01-02 and 2015-10-10"), Ok(Date::from_ymd(1999, 1, 2)));
}

#[test]
fn text_without_a_date_gives_not_found() {
    assert_eq!(parse_date("%Y-%m-%d", "no date here"), Err(DateError::NotFound));
    assert_eq!(parse_date("%Y-%m-%d", ""), Err(DateError::NotFound));
}

#[test]
fn day_out_of_range_gives_invalid() {
    assert_eq!(parse_date("%Y-%m-%d", "on 2015-02-30"), Err(DateError::Invalid));
    assert_eq!(parse_date("%Y-%m-%d", "on 2015-13-01"), Err(DateError::Invalid));
}

#[test]
fn literal_text_of_the_format_is_taken_literally() {
    assert_eq!(parse_date("(%d.%m.%Y)", "am (03.04.2005) um"), Ok(Date::from_ymd(2005, 4, 3)));
    assert_eq!(parse_date("(%d.%m.%Y)", "am 03.04.2005 um"), Err(DateError::NotFound));
    assert_eq!(parse_date("(%d.%m.%Y)", "am (03x04x2005) um"), Err(DateError::NotFound));
}

#[test]
fn date_errors_in_words() {
    assert_eq!(DateError::NotFound.message(), "No date found");
    assert_eq!(DateError::Invalid.message(), "The date found is not valid");
    assert_eq!(DateError::Pattern.message(), "The date format gives no valid pattern");
}

#[test]
fn format_too_long_to_compile_gives_pattern() {
    let format = "%d".repeat(400_000);
    assert_eq!(parse_date(&format, "1"), Err(DateError::Pattern));
}
