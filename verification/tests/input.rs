use fractal_raster::input::{read_side, white_space};

#[test]
fn read_side_takes_a_positive_number() {
    assert_eq!(read_side("640"), Some(640));
    assert_eq!(read_side("1"), Some(1));
    assert_eq!(read_side("4294967295"), Some(u32::MAX));
    assert_eq!(read_side("007"), Some(7));
}

#[test]
fn read_side_accepts_a_plus_sign() {
    assert_eq!(read_side("+7"), Some(7));
    assert_eq!(read_side(" +12 "), Some(12));
    assert_eq!(read_side("+"), None);
    assert_eq!(read_side("++1"), None);
    assert_eq!(read_side("+ 1"), None);
    assert_eq!(read_side("1+"), None);
}

#[test]
fn read_side_ignores_surrounding_white_space() {
    assert_eq!(read_side("  640 \n"), Some(640));
    assert_eq!(read_side("\t12\r\n"), Some(12));
    assert_eq!(read_side("\u{3000}42\u{2003}"), Some(42));
    assert_eq!(read_side("\u{a0}5\u{85}"), Some(5));
}

#[test]
fn read_side_rejects_zero() {
    assert_eq!(read_side("0"), None);
    assert_eq!(read_side(" 000 "), None);
    assert_eq!(read_side("+0"), None);
}

#[test]
fn read_side_rejects_what_is_not_a_number() {
    assert_eq!(read_side(""), None);
    assert_eq!(read_side("   "), None);
    assert_eq!(read_side("abc"), None);
    assert_eq!(read_side("12 34"), None);
    assert_eq!(read_side("-3"), None);
    assert_eq!(read_side("1.5"), None);
    assert_eq!(read_side("1_000"), None);
    assert_eq!(read_side("0x10"), None);
    assert_eq!(read_side("\u{661}\u{662}"), None);
    assert_eq!(read_side("\u{ff11}\u{ff12}"), None);
}

#[test]
fn read_side_rejects_a_number_that_does_not_fit() {
    assert_eq!(read_side("4294967296"), None);
    assert_eq!(read_side("42949672950"), None);
    assert_eq!(read_side("99999999999999999999999999"), None);
    assert_eq!(read_side("000000000000000000000000000000000017"), Some(17));
}

#[test]
fn read_side_reads_what_trim_and_parse_read() {
    let lines = [
        "", " ", "\n", "0", "+0", "+", "-", "-1", "1", "+1", "++1", " +12 ", "0012", "4294967295",
        "4294967296", "99999999999999999999", "\u{661}\u{662}\u{663}", "12\u{a0}", "\u{a0}",
        "\u{3000}42\u{2003}", "1_000", "1 2", "0x10", "\u{ff11}\u{ff12}", "12\n", "\r\n", "+ 1",
        "1+", "000000000000000000000000001", "\u{feff}12", "12\u{200b}", "\u{1680}8\u{205f}",
        "\u{2028}9\u{2029}", "\u{202f}3", "\u{b}4\u{c}", "\u{1c}5", "e", "1e3", "٣", "+4294967295",
        "+4294967296", " 4 2 ", "\t\t77\t\t", "00", "+00001",
    ];
    for line in lines {
        let expected = line.trim().parse::<u32>().ok().filter(|value| *value > 0);
        assert_eq!(read_side(line), expected, "line {:?}", line);
    }
}

#[test]
fn read_side_reads_every_small_number() {
    for value in 1..=2000u32 {
        assert_eq!(read_side(&format!(" {}\n", value)), Some(value));
    }
}

#[test]
fn white_space_is_the_unicode_property() {
    let mut count = 0;
    for code in 0..=0x10FFFFu32 {
        if let Some(c) = char::from_u32(code) {
            assert_eq!(white_space(c), c.is_whitespace(), "U+{:04X}", code);
            if white_space(c) {
                count += 1;
            }
        }
    }
    assert_eq!(count, 25);
}
