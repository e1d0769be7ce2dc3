use ruggine::text::{
    i64_text, is_white_space, join_from, parse_i64, split_whitespace, trim, u64_text,
};

#[test]
fn white_space_is_unicode_white_space() {
    for n in 0..=0x10FFFFu32 {
        if let Some(c) = char::from_u32(n) {
            assert_eq!(is_white_space(c), c.is_whitespace());
        }
    }
}

const SAMPLES: [&str; 10] = [
    "",
    " ",
    "ciao",
    "  ciao  ",
    "/create  gruppo di   prova ",
    "\t\u{3000}è\u{2028}già\n",
    "a b",
    " a",
    "b ",
    "\u{200B}x\u{200B}",
];

#[test]
fn trimming_is_that_of_str() {
    for sample in SAMPLES {
        assert_eq!(trim(sample), sample.trim());
    }
}

#[test]
fn splitting_and_joining_are_those_of_str() {
    for sample in SAMPLES {
        let parts = split_whitespace(sample);
        let expected: Vec<&str> = sample.split_whitespace().collect();
        assert_eq!(parts, expected);
        for from in 0..=parts.len() {
            assert_eq!(join_from(&parts, from), expected[from..].join(" "));
        }
    }
}

#[test]
fn splitting_undoes_joining() {
    let parts: Vec<String> = vec!["gruppo".into(), "di".into(), "prova".into()];
    assert_eq!(join_from(&parts, 0), "gruppo di prova");
    assert_eq!(split_whitespace("gruppo di prova"), parts);
}

#[test]
fn numbers_are_written_in_decimal() {
    for n in [0, 7, 10, 42, -1, -10, 100, 1234567890, i64::MAX, i64::MIN] {
        assert_eq!(i64_text(n), n.to_string());
        assert_eq!(parse_i64(&i64_text(n)), Some(n));
    }
    assert_eq!(u64_text(u64::MAX), u64::MAX.to_string());
}

#[test]
fn numbers_are_read_as_str_reads_them() {
    let samples = [
        "", "-", "+", "0", "-0", "+7", "007", "12a", " 1", "1 ", "--1", "+-1", "٣",
        "9223372036854775807", "9223372036854775808", "-9223372036854775808",
        "-9223372036854775809", "99999999999999999999999999", "00000000000000000000000000001",
    ];
    for sample in samples {
        assert_eq!(parse_i64(sample), sample.parse::<i64>().ok());
    }
}
