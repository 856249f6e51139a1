use hdr_auto::text::{
    ascii_alphanumeric, lines_of, push_decimal, push_signed_decimal, to_lower_char, white_space,
};
use hdr_auto::wide::{copy_to_fixed_wide, fixed_wide_to_string, to_wide_null, wide_to_string};

fn every_char() -> impl Iterator<Item = char> {
    '\0'..=char::MAX
}

#[test]
fn white_space_is_that_of_unicode() {
    for c in every_char() {
        assert_eq!(white_space(c), c.is_whitespace());
    }
}

#[test]
fn case_and_kind_are_those_of_ascii() {
    for c in every_char() {
        assert_eq!(to_lower_char(c), c.to_ascii_lowercase());
        assert_eq!(ascii_alphanumeric(c), c.is_ascii_alphanumeric());
    }
}

#[test]
fn lines_are_those_of_std() {
    for s in ["", "a", "a\n", "a\n\n", "\n", "\r\n", "a\r", "a\r\nb\rc\n\r\n", "\r\r\nx", "x\n\r"] {
        let expected: Vec<String> = s.lines().map(|l| l.to_string()).collect();
        assert_eq!(lines_of(s), expected);
    }
}

#[test]
fn every_char_goes_through_wide_strings() {
    for c in every_char() {
        let s = c.to_string();
        let units = to_wide_null(&s);
        let expected: Vec<u16> = s.encode_utf16().chain(Some(0)).collect();
        assert_eq!(units, expected);
        assert_eq!(wide_to_string(&units[..units.len() - 1]), s);
    }
}

#[test]
fn lone_surrogates_are_replaced() {
    let samples: [&[u16]; 6] = [
        &[0xd800],
        &[0xdc00, 0x41],
        &[0xd800, 0xd800, 0xdc00],
        &[0xdbff, 0xdfff, 0xd83d],
        &[0x41, 0xd83d, 0xde00, 0x42],
        &[],
    ];
    for units in samples {
        assert_eq!(wide_to_string(units), String::from_utf16_lossy(units));
    }
    assert_eq!(wide_to_string(&[0xd800, 0x41]), "\u{fffd}A");
}

#[test]
fn fixed_buffers_end_at_the_first_zero() {
    assert_eq!(fixed_wide_to_string(&[0x61, 0x62, 0, 0x63]), "ab");
    assert_eq!(fixed_wide_to_string(&[0x61, 0x62]), "ab");
    assert_eq!(fixed_wide_to_string(&[0, 0x61]), "");
    assert_eq!(fixed_wide_to_string(&[]), "");
}

#[test]
fn texts_are_read_back_from_fixed_buffers() {
    let mut buffer = [0x7au16; 16];
    copy_to_fixed_wide(&mut buffer, "HDR Auto");
    assert_eq!(fixed_wide_to_string(&buffer), "HDR Auto");
    assert_eq!(buffer[8], 0);
    assert_eq!(buffer[9], 0x7a);
    assert_eq!(buffer[15], 0);
}

#[test]
fn texts_are_cut_to_fit_fixed_buffers() {
    let mut buffer = [0x7au16; 4];
    copy_to_fixed_wide(&mut buffer, "HDR Auto");
    assert_eq!(buffer, [0x48, 0x44, 0x52, 0]);
    let mut one = [0x7au16; 1];
    copy_to_fixed_wide(&mut one, "HDR Auto");
    assert_eq!(one, [0]);
    let mut none: [u16; 0] = [];
    copy_to_fixed_wide(&mut none, "HDR Auto");
    assert!(none.is_empty());
}

#[test]
fn numbers_are_written_in_decimal() {
    for n in [0u32, 7, 10, 404, 65_535, u32::MAX] {
        let mut s = "n=".to_string();
        push_decimal(&mut s, n);
        assert_eq!(s, format!("n={n}"));
    }
    for n in [0i32, -1, 18, -2_147_483_648, i32::MAX] {
        let mut s = String::new();
        push_signed_decimal(&mut s, n);
        assert_eq!(s, format!("{n}"));
    }
}
