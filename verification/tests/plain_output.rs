use unixtime::calendar::{get_datetime_from_timestamp, LocalOffset};
use unixtime::error::{ConvertError, ParseFailure};
use unixtime::render::{
    form_entry, form_first_line, form_fourth_and_fifth_line, form_row, form_second_line,
    form_third_line, produce_output_string, Tint, LABEL_WIDTH, VALUE_WIDTH,
};

fn colours_off() {
    colored::control::set_override(false);
}

fn cell(text: &str, width: usize) -> String {
    let mut out = String::from(text);
    while out.chars().count() < width {
        out.push(' ');
    }
    out
}

#[test]
fn widths() {
    assert_eq!(LABEL_WIDTH, 20);
    assert_eq!(VALUE_WIDTH, 30);
}

#[test]
fn first_line_numbers_the_columns() {
    colours_off();
    assert_eq!(form_first_line(0), "Item:               ");
    assert_eq!(
        form_first_line(2),
        "Item:               0                             1                             "
    );
    let wide = form_first_line(11);
    assert_eq!(wide.len(), 20 + 11 * 30);
    assert!(wide.ends_with(&cell("10", 30)));
}

#[test]
fn second_line_shows_the_inputs() {
    colours_off();
    let times = vec![String::from("1213-123831231"), String::from("x")];
    assert_eq!(
        form_second_line(&times),
        format!("{}{}{}", cell("Read:", 20), cell("1213-123831231", 30), cell("x", 30))
    );
    assert_eq!(form_second_line(&[]), "Read:               ");
}

#[test]
fn a_long_value_is_not_cut() {
    colours_off();
    let long = "0123456789012345678901234567890123456789";
    let times = vec![String::from(long), String::from("1")];
    assert_eq!(
        form_second_line(&times),
        format!("{}{}{}", cell("Read:", 20), long, cell("1", 30))
    );
}

#[test]
fn padding_counts_characters() {
    colours_off();
    let times = vec![String::from("żółw")];
    assert_eq!(
        form_second_line(&times),
        format!("{}{}", cell("Read:", 20), cell("żółw", 30))
    );
}

#[test]
fn third_line_shows_timestamps_and_errors() {
    colours_off();
    let steps = vec![
        Ok(1213123831231),
        Err(ConvertError::ParseError(ParseFailure::PosOverflow)),
        Ok(-5),
    ];
    assert_eq!(
        form_third_line(&steps),
        format!(
            "{}{}{}{}",
            cell("As timestamp:", 20),
            cell("1213123831231", 30),
            "number too large to fit in target type, timestamp should fit in 64-bit number",
            cell("-5", 30)
        )
    );
}

#[test]
fn fourth_and_fifth_line_show_date_times_and_errors() {
    colours_off();
    let zone = LocalOffset::east(3600).unwrap();
    let steps = vec![
        Ok(get_datetime_from_timestamp(1431648000).unwrap().in_zone(zone)),
        Err(ConvertError::RangeError(12131238312310000)),
    ];
    let message =
        "couldn't convert 12131238312310000 to timestamp, since it's an out-of-range number of seconds";
    assert_eq!(
        form_fourth_and_fifth_line(&steps),
        format!(
            "{}{}{}\n{}{}{}",
            cell("In UTC:", 20),
            cell("2015-05-15 00:00:00 UTC", 30),
            message,
            cell("In Local Timezone:", 20),
            cell("2015-05-15 01:00:00 +01:00", 30),
            message
        )
    );
    assert_eq!(
        form_fourth_and_fifth_line(&[]),
        "In UTC:             \nIn Local Timezone:  "
    );
}

#[test]
fn a_reset_inside_a_value_stays_as_it_is() {
    colours_off();
    assert_eq!(form_entry("Read:", "a\x1B[0mb"), "Read:                a\x1B[0mb");
}

#[test]
fn a_row_is_its_cells_in_order() {
    colours_off();
    let values = vec![String::from("a"), String::from(""), String::from("c")];
    assert_eq!(
        form_row("Label", &values, Tint::White),
        format!("{}{}{}{}", cell("Label", 20), cell("a", 30), cell("", 30), cell("c", 30))
    );
}

#[test]
fn an_entry_is_a_label_and_a_value() {
    colours_off();
    assert_eq!(form_entry("Read:", "12"), "Read:                12");
    assert_eq!(form_entry("In Local Timezone:", ""), "In Local Timezone:   ");
    assert_eq!(
        form_entry("A label of more than twenty characters", "v"),
        "A label of more than twenty characters v"
    );
}

#[test]
fn the_block_has_four_labelled_lines() {
    colours_off();
    let zone = LocalOffset::east(-7200).unwrap();
    let datetime = get_datetime_from_timestamp(1431648000).unwrap().in_zone(zone);
    assert_eq!(
        produce_output_string("1431-648000", 1431648000, &datetime),
        "Read:                1431-648000\n\
         As timestamp:        1431648000\n\
         In UTC:              2015-05-15 00:00:00 UTC\n\
         In Local Timezone:   2015-05-14 22:00:00 -02:00"
    );
}
