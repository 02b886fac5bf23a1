use chromakey::{rgba_from_bytes, rgba_from_str, Color, ParseRgbaError};

fn parse(text: &str) -> Result<Color, ParseRgbaError> {
    rgba_from_str(text.to_string())
}

#[test]
fn reads_four_channels() {
    assert_eq!(parse("(1,2,3,4)\n"), Ok(Color::new(1, 2, 3, 4)));
    assert_eq!(parse("(0,0,0,0)\n"), Ok(Color::new(0, 0, 0, 0)));
    assert_eq!(parse("(255,255,255,255)\n"), Ok(Color::new(255, 255, 255, 255)));
    assert_eq!(parse("(12,200,7,255)\n"), Ok(Color::new(12, 200, 7, 255)));
}

#[test]
fn bytes_and_text_agree() {
    let line = "(9,8,7,6)\n";
    assert_eq!(rgba_from_bytes(line.as_bytes()), Ok(Color::new(9, 8, 7, 6)));
    assert_eq!(rgba_from_bytes(line.as_bytes()), parse(line));
    assert_eq!(rgba_from_bytes(b"(1,2,3)\n"), Err(ParseRgbaError::MissingChannel));
    assert_eq!(rgba_from_bytes(b""), Err(ParseRgbaError::Malformed));
}

#[test]
fn plus_sign_and_leading_zeros_are_read() {
    assert_eq!(parse("(+1,002,+003,0000000000000000000004)\n"), Ok(Color::new(1, 2, 3, 4)));
}

#[test]
fn trailing_comma_ends_the_list() {
    assert_eq!(parse("(1,2,3,4,)\n"), Ok(Color::new(1, 2, 3, 4)));
    assert_eq!(parse("(1,2,3,)\n"), Err(ParseRgbaError::MissingChannel));
}

#[test]
fn fields_after_the_fourth_are_ignored() {
    assert_eq!(parse("(1,2,3,4,5)\n"), Ok(Color::new(1, 2, 3, 4)));
    assert_eq!(parse("(1,2,3,4,x,,)\n"), Ok(Color::new(1, 2, 3, 4)));
    assert_eq!(parse("(1,2,3,4,\u{e9})\n"), Ok(Color::new(1, 2, 3, 4)));
}

#[test]
fn frame_is_required() {
    assert_eq!(parse(""), Err(ParseRgbaError::Malformed));
    assert_eq!(parse("("), Err(ParseRgbaError::Malformed));
    assert_eq!(parse(")\n"), Err(ParseRgbaError::Malformed));
    assert_eq!(parse("1,2,3,4)\n"), Err(ParseRgbaError::Malformed));
    assert_eq!(parse("(1,2,3,4)"), Err(ParseRgbaError::Malformed));
    assert_eq!(parse("(1,2,3,4\n"), Err(ParseRgbaError::Malformed));
    assert_eq!(parse("(1,2,3,4)\r\n"), Err(ParseRgbaError::Malformed));
    assert_eq!(parse(" (1,2,3,4)\n"), Err(ParseRgbaError::Malformed));
    assert_eq!(parse("(1,2,3,4) \n"), Err(ParseRgbaError::Malformed));
}

#[test]
fn too_few_fields_is_a_missing_channel() {
    assert_eq!(parse("()\n"), Err(ParseRgbaError::MissingChannel));
    assert_eq!(parse("(1)\n"), Err(ParseRgbaError::MissingChannel));
    assert_eq!(parse("(1,2)\n"), Err(ParseRgbaError::MissingChannel));
    assert_eq!(parse("(1,2,3)\n"), Err(ParseRgbaError::MissingChannel));
}

#[test]
fn first_bad_field_decides() {
    assert_eq!(parse("(x)\n"), Err(ParseRgbaError::Malformed));
    assert_eq!(parse("(1,x)\n"), Err(ParseRgbaError::Malformed));
    assert_eq!(parse("(,)\n"), Err(ParseRgbaError::Malformed));
    assert_eq!(parse("(1,,3,4)\n"), Err(ParseRgbaError::Malformed));
    assert_eq!(parse("(1,2,3,)\n"), Err(ParseRgbaError::MissingChannel));
}

#[test]
fn channels_must_be_plain_numbers_in_range() {
    assert_eq!(parse("(256,0,0,0)\n"), Err(ParseRgbaError::Malformed));
    assert_eq!(parse("(0,0,0,1000)\n"), Err(ParseRgbaError::Malformed));
    assert_eq!(parse("(0,0,0,99999999999999999999999999)\n"), Err(ParseRgbaError::Malformed));
    assert_eq!(parse("(-1,0,0,0)\n"), Err(ParseRgbaError::Malformed));
    assert_eq!(parse("(-0,0,0,0)\n"), Err(ParseRgbaError::Malformed));
    assert_eq!(parse("(+,0,0,0)\n"), Err(ParseRgbaError::Malformed));
    assert_eq!(parse("(++1,0,0,0)\n"), Err(ParseRgbaError::Malformed));
    assert_eq!(parse("(1 ,2,3,4)\n"), Err(ParseRgbaError::Malformed));
    assert_eq!(parse("( 1,2,3,4)\n"), Err(ParseRgbaError::Malformed));
    assert_eq!(parse("(1,2,3,4a)\n"), Err(ParseRgbaError::Malformed));
    assert_eq!(parse("(0x10,2,3,4)\n"), Err(ParseRgbaError::Malformed));
    assert_eq!(parse("(1_0,2,3,4)\n"), Err(ParseRgbaError::Malformed));
    assert_eq!(parse("(\u{0661},2,3,4)\n"), Err(ParseRgbaError::Malformed));
}

#[test]
fn agrees_with_the_standard_number_parser() {
    let fields = [
        "0", "7", "42", "255", "256", "+255", "+256", "00255", "-1", "", "+", "a", "1a", " 1", "1 ",
        "+0", "0+", "2 5", "999", "0000", "25\u{35}",
    ];
    for field in fields {
        let line = format!("({field},0,0,0)\n");
        let expected = match field.parse::<u8>() {
            Ok(v) => Ok(Color::new(v, 0, 0, 0)),
            Err(_) => Err(ParseRgbaError::Malformed),
        };
        assert_eq!(parse(&line), expected, "field {field:?}");
    }
}
