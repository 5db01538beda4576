use omni_pane::overlay_text_providers::sensor_text::{
    format_celsius, read_millidegrees, temperature_line, SensorParseError,
};

#[test]
fn reading_between_other_text_is_shown_in_degrees() {
    assert_eq!(temperature_line("... t=23625 ..."), "Temp.: 23.6 \u{b0}C");
}

#[test]
fn text_without_a_marker_has_no_temperature() {
    assert_eq!(temperature_line("72 01 4b 46 7f ff 0e 10 57 : crc=57 YES"), "No temperature found");
    assert_eq!(temperature_line(""), "No temperature found");
    assert_eq!(temperature_line("t"), "No temperature found");
    assert_eq!(temperature_line("= t 23625"), "No temperature found");
    assert_eq!(read_millidegrees("23625"), Err(SensorParseError::NoTemperature));
}

#[test]
fn text_that_is_no_number_is_named_in_the_line() {
    assert_eq!(temperature_line("... t=abc ..."), "Error parsing temperature abc");
    assert_eq!(temperature_line("t=12x5"), "Error parsing temperature 12x5");
    assert_eq!(temperature_line("t=12.5\n"), "Error parsing temperature 12.5");
    assert_eq!(temperature_line("t=-"), "Error parsing temperature -");
    assert_eq!(temperature_line("t=--5"), "Error parsing temperature --5");
    assert_eq!(
        read_millidegrees("a t=1e3 b"),
        Err(SensorParseError::NotANumber("1e3".to_string()))
    );
}

#[test]
fn marker_without_a_token_is_a_parse_error() {
    assert_eq!(temperature_line("t="), "Error parsing temperature ");
    assert_eq!(temperature_line("crc t=   \n"), "Error parsing temperature ");
    assert_eq!(read_millidegrees("t="), Err(SensorParseError::NotANumber(String::new())));
}

#[test]
fn sensor_file_is_read() {
    let content = "4e 01 4b 46 7f ff 02 10 7f : crc=7f YES\n4e 01 4b 46 7f ff 02 10 7f t=20875\n";
    assert_eq!(read_millidegrees(content), Ok(20_875));
    assert_eq!(temperature_line(content), "Temp.: 20.9 \u{b0}C");
}

#[test]
fn last_marker_counts() {
    assert_eq!(read_millidegrees("t=1000 t=2000"), Ok(2_000));
    assert_eq!(temperature_line("t=1000 t=2000"), "Temp.: 2.0 \u{b0}C");
    assert_eq!(temperature_line("t=1000 t=oops"), "Error parsing temperature oops");
    assert_eq!(read_millidegrees("t=t=7"), Ok(7));
}

#[test]
fn white_space_round_the_token_is_skipped() {
    assert_eq!(read_millidegrees("t= \t\r\n 23625\n"), Ok(23_625));
    assert_eq!(read_millidegrees("t=\u{b}\u{c}15 16"), Ok(15));
    assert_eq!(read_millidegrees("t=23625\tmore"), Ok(23_625));
}

#[test]
fn signs_are_read() {
    assert_eq!(read_millidegrees("t=-1250"), Ok(-1_250));
    assert_eq!(read_millidegrees("t=+500"), Ok(500));
    assert_eq!(read_millidegrees("t=-0"), Ok(0));
    assert_eq!(temperature_line("t=-1250"), "Temp.: -1.3 \u{b0}C");
    assert_eq!(temperature_line("t=+500"), "Temp.: 0.5 \u{b0}C");
}

#[test]
fn numbers_over_63_bits_are_parse_errors() {
    assert_eq!(read_millidegrees("t=9223372036854775807"), Ok(i64::MAX));
    assert_eq!(read_millidegrees("t=-9223372036854775807"), Ok(-i64::MAX));
    assert_eq!(
        read_millidegrees("t=9223372036854775808"),
        Err(SensorParseError::NotANumber("9223372036854775808".to_string()))
    );
    assert_eq!(
        temperature_line("t=-9223372036854775808"),
        "Error parsing temperature -9223372036854775808"
    );
    assert_eq!(
        temperature_line("t=99999999999999999999999999"),
        "Error parsing temperature 99999999999999999999999999"
    );
    assert_eq!(read_millidegrees("t=000000000000000000000000000042"), Ok(42));
}

#[test]
fn non_ascii_text_is_handled_by_characters() {
    assert_eq!(temperature_line("\u{b0}C \u{e9}t\u{e9} t=\u{b0}"), "Error parsing temperature \u{b0}");
    assert_eq!(read_millidegrees("\u{b0}\u{b0}t=5\u{2003}"), Err(SensorParseError::NotANumber("5\u{2003}".to_string())));
    assert_eq!(read_millidegrees("\u{b0}\u{b0} t=5 \u{2003}"), Ok(5));
}

#[test]
fn degrees_are_rounded_to_one_decimal_place() {
    assert_eq!(format_celsius(0), "0.0");
    assert_eq!(format_celsius(49), "0.0");
    assert_eq!(format_celsius(50), "0.1");
    assert_eq!(format_celsius(23_625), "23.6");
    assert_eq!(format_celsius(23_650), "23.7");
    assert_eq!(format_celsius(23_949), "23.9");
    assert_eq!(format_celsius(23_950), "24.0");
    assert_eq!(format_celsius(99_999), "100.0");
    assert_eq!(format_celsius(125_000), "125.0");
}

#[test]
fn degrees_below_zero_carry_a_minus_sign() {
    assert_eq!(format_celsius(-1), "-0.0");
    assert_eq!(format_celsius(-50), "-0.1");
    assert_eq!(format_celsius(-10_125), "-10.1");
    assert_eq!(format_celsius(-55_000), "-55.0");
}

#[test]
fn extreme_values_are_formatted() {
    assert_eq!(format_celsius(i64::MAX), "9223372036854775.8");
    assert_eq!(format_celsius(i64::MIN), "-9223372036854775.8");
}
