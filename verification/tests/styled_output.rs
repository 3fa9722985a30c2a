use unixtime::calendar::get_datetime_from_timestamp;
use unixtime::error::{ConvertError, ParseFailure};
use unixtime::render::{
    form_entry, form_first_line, form_fourth_and_fifth_line, form_row, form_second_line,
    form_third_line, produce_output_string, Tint,
};

fn colours_on() {
    colored::control::set_override(true);
}

fn styled(code: &str, text: &str, width: usize) -> String {
    let mut out = format!("\x1B[{}m{}", code, text);
    let mut count = text.chars().count();
    while count < width {
        out.push(' ');
        count += 1;
    }
    out.push_str("\x1B[0m");
    out
}

#[test]
fn first_line_in_cyan_and_white() {
    colours_on();
    assert_eq!(form_first_line(0), "\x1B[36mItem:               \x1B[0m");
    assert_eq!(
        form_first_line(2),
        format!("{}{}{}", styled("36", "Item:", 20), styled("37", "0", 30), styled("37", "1", 30))
    );
}

#[test]
fn second_line_in_cyan_and_blue() {
    colours_on();
    let times = vec![String::from("1213-123831231")];
    assert_eq!(
        form_second_line(&times),
        format!("{}{}", styled("36", "Read:", 20), styled("34", "1213-123831231", 30))
    );
}

#[test]
fn third_line_in_cyan_and_blue() {
    colours_on();
    let steps = vec![Ok(7), Err(ConvertError::ParseError(ParseFailure::Empty))];
    assert_eq!(
        form_third_line(&steps),
        format!(
            "{}{}{}",
            styled("36", "As timestamp:", 20),
            styled("34", "7", 30),
            styled(
                "34",
                "cannot parse integer from empty string, timestamp should fit in 64-bit number",
                30
            )
        )
    );
}

#[test]
fn fourth_and_fifth_line_in_cyan_and_blue() {
    colours_on();
    let steps = vec![get_datetime_from_timestamp(0)];
    assert_eq!(
        form_fourth_and_fifth_line(&steps),
        format!(
            "{}{}\n{}{}",
            styled("36", "In UTC:", 20),
            styled("34", "1970-01-01 00:00:00 UTC", 30),
            styled("36", "In Local Timezone:", 20),
            styled("34", "1970-01-01 00:00:00 +00:00", 30)
        )
    );
}

#[test]
fn each_tint_has_its_code() {
    colours_on();
    let values = vec![String::from("v")];
    assert_eq!(
        form_row("l", &values, Tint::Cyan),
        format!("{}{}", styled("36", "l", 20), styled("36", "v", 30))
    );
    assert_eq!(
        form_row("l", &values, Tint::Blue),
        format!("{}{}", styled("36", "l", 20), styled("34", "v", 30))
    );
    assert_eq!(
        form_row("l", &values, Tint::White),
        format!("{}{}", styled("36", "l", 20), styled("37", "v", 30))
    );
}

#[test]
fn an_entry_in_cyan_and_blue() {
    colours_on();
    assert_eq!(
        form_entry("Read:", "12"),
        format!("{} {}", styled("36", "Read:", 20), styled("34", "12", 0))
    );
}

#[test]
fn a_reset_inside_a_value_switches_the_colour_on_again() {
    colours_on();
    assert_eq!(
        form_entry("Read:", "a\x1B[0mb"),
        format!("{} \x1B[34ma\x1B[0m\x1B[34mb\x1B[0m", styled("36", "Read:", 20))
    );
}

#[test]
fn the_colour_is_switched_on_behind_every_reset() {
    colours_on();
    assert_eq!(
        form_entry("Read:", "\x1B[0m\x1B[0mb\x1B[0m"),
        format!(
            "{} \x1B[34m\x1B[0m\x1B[34m\x1B[0m\x1B[34mb\x1B[0m\x1B[34m\x1B[0m",
            styled("36", "Read:", 20)
        )
    );
}

#[test]
fn a_broken_reset_is_left_as_it_is() {
    colours_on();
    assert_eq!(
        form_entry("Read:", "a\x1B[0"),
        format!("{} {}", styled("36", "Read:", 20), styled("34", "a\x1B[0", 0))
    );
    assert_eq!(
        form_entry("Read:", "\x1B[1m[0m"),
        format!("{} {}", styled("36", "Read:", 20), styled("34", "\x1B[1m[0m", 0))
    );
}

#[test]
fn padding_counts_what_was_put_behind_a_reset() {
    colours_on();
    let values = vec![String::from("a\x1B[0mb")];
    assert_eq!(
        form_row("l", &values, Tint::White),
        format!(
            "{}\x1B[37ma\x1B[0m\x1B[37mb{}\x1B[0m",
            styled("36", "l", 20),
            " ".repeat(30 - 11)
        )
    );
}

#[test]
fn the_block_in_cyan_and_blue() {
    colours_on();
    let datetime = get_datetime_from_timestamp(1431648000).unwrap();
    assert_eq!(
        produce_output_string("1431648000", 1431648000, &datetime),
        format!(
            "{} {}\n{} {}\n{} {}\n{} {}",
            styled("36", "Read:", 20),
            styled("34", "1431648000", 0),
            styled("36", "As timestamp:", 20),
            styled("34", "1431648000", 0),
            styled("36", "In UTC:", 20),
            styled("34", "2015-05-15 00:00:00 UTC", 0),
            styled("36", "In Local Timezone:", 20),
            styled("34", "2015-05-15 00:00:00 +00:00", 0)
        )
    );
}
