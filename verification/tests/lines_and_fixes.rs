use bdeck_ace::error::BdeckError;
use bdeck_ace::lines::next_line;
use bdeck_ace::record::{decode_line, season_year, FixRecord, StormType};

const LONG_LINE: &str =
    "WP, 01, 2023091200,   , BEST,   0, 150N, 1400E,  65,  985, TS,  34, NEQ,   60,   30,   30,   60,";

const SHORT_LINE: &str = "WP, 01, 1990011206,   , BEST,   0,  58N, 1587E,  45";

fn with_field(line: &str, start: usize, field: &str) -> Vec<u8> {
    let mut bytes = line.as_bytes().to_vec();
    bytes[start..start + field.len()].copy_from_slice(field.as_bytes());
    bytes
}

fn lines_of(text: &[u8]) -> Vec<Vec<u8>> {
    let mut lines = Vec::new();
    let mut start = 0;
    while start < text.len() {
        let (end, next) = next_line(text, start);
        lines.push(text[start..end].to_vec());
        start = next;
    }
    lines
}

#[test]
fn lines_end_with_a_line_feed() {
    assert_eq!(lines_of(b"ab\ncd\n"), vec![b"ab".to_vec(), b"cd".to_vec()]);
    assert_eq!(lines_of(b"ab\ncd"), vec![b"ab".to_vec(), b"cd".to_vec()]);
    assert_eq!(lines_of(b""), Vec::<Vec<u8>>::new());
    assert_eq!(lines_of(b"\n"), vec![b"".to_vec()]);
    assert_eq!(lines_of(b"\n\nab"), vec![b"".to_vec(), b"".to_vec(), b"ab".to_vec()]);
}

#[test]
fn a_carriage_return_before_the_line_feed_is_dropped() {
    assert_eq!(lines_of(b"ab\r\ncd\r\n"), vec![b"ab".to_vec(), b"cd".to_vec()]);
    assert_eq!(lines_of(b"\r\n"), vec![b"".to_vec()]);
    assert_eq!(lines_of(b"ab\r\r\n"), vec![b"ab\r".to_vec()]);
    assert_eq!(lines_of(b"a\rb\n"), vec![b"a\rb".to_vec()]);
}

#[test]
fn a_carriage_return_at_the_end_of_the_text_stays() {
    assert_eq!(lines_of(b"ab\ncd\r"), vec![b"ab".to_vec(), b"cd\r".to_vec()]);
}

#[test]
fn lines_agree_with_std() {
    let samples: [&str; 8] =
        ["", "a", "a\n", "a\r\n", "foo\nbar\n\r\nbaz\r", "\n\n", "\r", "x\r\n\r\ny\n\rz"];
    for text in samples {
        let expected: Vec<Vec<u8>> = text.lines().map(|line| line.as_bytes().to_vec()).collect();
        assert_eq!(lines_of(text.as_bytes()), expected, "for {:?}", text);
    }
}

#[test]
fn next_line_says_where_the_next_line_starts() {
    assert_eq!(next_line(b"ab\r\ncd", 0), (2, 4));
    assert_eq!(next_line(b"ab\r\ncd", 4), (6, 6));
    assert_eq!(next_line(b"ab\ncd", 1), (2, 3));
}

#[test]
fn long_line_is_decoded_field_by_field() {
    assert_eq!(
        decode_line(LONG_LINE.as_bytes(), false),
        Ok(FixRecord {
            year: 2023,
            month: 9,
            hour: 0,
            wind_knots: 65,
            latitude: 150,
            longitude: 1400,
            storm_type: StormType::Code(b'T', b'S'),
        })
    );
}

#[test]
fn short_line_takes_the_wind_from_its_end() {
    assert_eq!(SHORT_LINE.len(), 51);
    assert_eq!(
        decode_line(SHORT_LINE.as_bytes(), false),
        Ok(FixRecord {
            year: 1990,
            month: 1,
            hour: 6,
            wind_knots: 45,
            latitude: 58,
            longitude: 1587,
            storm_type: StormType::Absent,
        })
    );
    let shorter = "WP, 01, 1990011206,   , BEST,   0,  58N, 1587E,100";
    assert_eq!(decode_line(shorter.as_bytes(), false).unwrap().wind_knots, 100);
    let shortest = "WP, 01, 1990011206,   , BEST,   0,  58N, 1587E";
    assert_eq!(shortest.len(), 46);
    assert_eq!(decode_line(shortest.as_bytes(), false).unwrap().wind_knots, 0);
}

#[test]
fn a_line_of_52_bytes_is_of_the_long_form() {
    let line = format!("{},", SHORT_LINE);
    assert_eq!(line.len(), 52);
    assert_eq!(decode_line(line.as_bytes(), false).unwrap().wind_knots, 45);
    let shifted = "WP, 01, 1990011206,   , BEST,   0,  58N, 1587E,  45, 77";
    assert_eq!(decode_line(shifted.as_bytes(), false).unwrap().wind_knots, 45);
}

#[test]
fn storm_type_needs_more_than_sixty_bytes() {
    let sixty = &LONG_LINE[..60];
    assert_eq!(decode_line(sixty.as_bytes(), false).unwrap().storm_type, StormType::Absent);
    let sixty_one = &LONG_LINE[..61];
    assert_eq!(
        decode_line(sixty_one.as_bytes(), false).unwrap().storm_type,
        StormType::Code(b'T', b'S')
    );
}

#[test]
fn south_is_negative_and_west_counts_back() {
    let south = with_field(LONG_LINE, 35, "150S");
    assert_eq!(decode_line(&south, false).unwrap().latitude, -150);
    let west = with_field(LONG_LINE, 41, "1400W");
    assert_eq!(decode_line(&west, false).unwrap().longitude, 2200);
    let west_most = with_field(LONG_LINE, 41, "   5W");
    assert_eq!(decode_line(&west_most, false).unwrap().longitude, 3595);
    let other_letter = with_field(LONG_LINE, 35, "150X");
    assert_eq!(decode_line(&other_letter, false).unwrap().latitude, 150);
    let lower_case = with_field(LONG_LINE, 35, "150s");
    assert_eq!(decode_line(&lower_case, false).unwrap().latitude, 150);
    let equator = with_field(LONG_LINE, 35, "  0S");
    assert_eq!(decode_line(&equator, false).unwrap().latitude, 0);
}

#[test]
fn season_year_turns_in_july_in_the_south() {
    for month in 7..=12 {
        assert_eq!(season_year(true, 2023, month), 2024);
        assert_eq!(season_year(false, 2023, month), 2023);
    }
    for month in 1..=6 {
        assert_eq!(season_year(true, 2023, month), 2023);
        assert_eq!(season_year(false, 2023, month), 2023);
    }
    assert_eq!(season_year(true, 2023, 0), 2023);
    assert_eq!(season_year(true, 2023, 13), 2024);
    assert_eq!(season_year(true, -1, 7), 0);
}

#[test]
fn southern_lines_count_to_the_next_year_from_july() {
    let july = with_field(LONG_LINE, 8, "2023070100");
    assert_eq!(decode_line(&july, true).unwrap().year, 2024);
    assert_eq!(decode_line(&july, true).unwrap().month, 7);
    assert_eq!(decode_line(&july, false).unwrap().year, 2023);
    let june = with_field(LONG_LINE, 8, "2023063018");
    assert_eq!(decode_line(&june, true).unwrap().year, 2023);
    let december = with_field(LONG_LINE, 8, "9999123118");
    assert_eq!(decode_line(&december, true).unwrap().year, 10000);
}

#[test]
fn wind_field_never_fails_the_line() {
    let garbage = with_field(LONG_LINE, 48, "x y");
    assert_eq!(decode_line(&garbage, false).unwrap().wind_knots, 0);
    let not_reported = with_field(LONG_LINE, 48, "999");
    assert_eq!(decode_line(&not_reported, false).unwrap().wind_knots, 0);
    let strong = with_field(LONG_LINE, 48, "185");
    assert_eq!(decode_line(&strong, false).unwrap().wind_knots, 185);
    let short_not_reported = "WP, 01, 1990011206,   , BEST,   0,  58N, 1587E, 999";
    assert_eq!(decode_line(short_not_reported.as_bytes(), false).unwrap().wind_knots, 0);
}

#[test]
fn a_line_that_ends_too_early_is_out_of_bounds() {
    assert_eq!(decode_line(b"", false), Err(BdeckError::FieldOutOfBounds));
    assert_eq!(decode_line(&LONG_LINE.as_bytes()[..17], false), Err(BdeckError::FieldOutOfBounds));
    assert_eq!(decode_line(&LONG_LINE.as_bytes()[..18], false), Err(BdeckError::FieldOutOfBounds));
    assert_eq!(decode_line(&LONG_LINE.as_bytes()[..38], false), Err(BdeckError::FieldOutOfBounds));
    assert_eq!(decode_line(&LONG_LINE.as_bytes()[..39], false), Err(BdeckError::FieldOutOfBounds));
    assert_eq!(decode_line(&LONG_LINE.as_bytes()[..45], false), Err(BdeckError::FieldOutOfBounds));
    assert!(decode_line(&LONG_LINE.as_bytes()[..46], false).is_ok());
}

#[test]
fn a_field_that_holds_no_number_is_malformed() {
    for (start, field) in [(8, "20x3"), (12, "1x"), (16, "x0"), (35, "1x0"), (41, "14x0"), (35, "   "), (41, "    ")] {
        let line = with_field(LONG_LINE, start, field);
        assert_eq!(decode_line(&line, false), Err(BdeckError::MalformedNumber), "for {:?}", field);
    }
}

#[test]
fn the_first_field_that_fails_decides() {
    let bad_year = with_field(LONG_LINE, 8, "y");
    assert_eq!(decode_line(&bad_year[..20], false), Err(BdeckError::MalformedNumber));
    let bad_latitude = with_field(LONG_LINE, 35, "x");
    assert_eq!(decode_line(&bad_latitude[..40], false), Err(BdeckError::MalformedNumber));
    let bad_longitude = with_field(LONG_LINE, 41, "x");
    assert_eq!(decode_line(&bad_longitude[..40], false), Err(BdeckError::FieldOutOfBounds));
    let bad_hour = with_field(LONG_LINE, 16, "x");
    assert_eq!(decode_line(&bad_hour[..40], false), Err(BdeckError::FieldOutOfBounds));
    assert_eq!(decode_line(&bad_hour, false), Err(BdeckError::MalformedNumber));
}

#[test]
fn day_of_the_time_stamp_is_not_read() {
    let line = with_field(LONG_LINE, 14, "xx");
    assert!(decode_line(&line, false).is_ok());
}
