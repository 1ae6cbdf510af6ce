use mochila::text::{is_space, parse_list, parse_number, to_decimal};

#[test]
fn a_plain_number_is_read() {
    assert_eq!(parse_number("6"), Some(6));
    assert_eq!(parse_number("1234567890"), Some(1234567890));
}

#[test]
fn zero_and_leading_zeros_are_read() {
    assert_eq!(parse_number("0"), Some(0));
    assert_eq!(parse_number("007"), Some(7));
}

#[test]
fn white_space_around_a_number_is_ignored() {
    assert_eq!(parse_number("  42\t\n"), Some(42));
    assert_eq!(parse_number("\u{a0}42\u{3000}"), Some(42));
}

#[test]
fn a_plus_sign_is_accepted_once() {
    assert_eq!(parse_number("+5"), Some(5));
    assert_eq!(parse_number("++5"), None);
    assert_eq!(parse_number("+"), None);
    assert_eq!(parse_number("+ 5"), None);
}

#[test]
fn what_is_not_a_number_is_not_read() {
    assert_eq!(parse_number(""), None);
    assert_eq!(parse_number("   "), None);
    assert_eq!(parse_number("-1"), None);
    assert_eq!(parse_number("1 2"), None);
    assert_eq!(parse_number("3.5"), None);
    assert_eq!(parse_number("x"), None);
    assert_eq!(parse_number("12a"), None);
    assert_eq!(parse_number("\u{663}"), None);
}

#[test]
fn the_largest_number_is_read_and_the_next_is_not() {
    let largest = usize::MAX.to_string();
    assert_eq!(parse_number(&largest), Some(usize::MAX));
    let mut beyond = largest.clone();
    beyond.push('0');
    assert_eq!(parse_number(&beyond), None);
    assert_eq!(parse_number("340282366920938463463374607431768211456"), None);
}

#[test]
fn numbers_are_read_as_the_standard_library_reads_them() {
    let samples = [
        "0",
        "1",
        " 9 ",
        "+3",
        "-3",
        "",
        " ",
        "+",
        "1_000",
        "0x10",
        "99999999999999999999",
        "18446744073709551615",
        "18446744073709551616",
        "000000000000000000000000000000001",
        "1e3",
        "\u{663}",
        "\u{2003}7\u{2003}",
        "7\u{200b}",
    ];
    for s in samples {
        assert_eq!(parse_number(s), s.trim().parse::<usize>().ok(), "on {:?}", s);
    }
}

#[test]
fn white_space_is_what_the_standard_library_calls_so() {
    for code in 0u32..=0x10FFFF {
        if let Some(c) = char::from_u32(code) {
            assert_eq!(is_space(c), c.is_whitespace(), "on U+{:04X}", code);
        }
    }
}

#[test]
fn a_list_is_read_in_order() {
    assert_eq!(parse_list("2, 3, 4"), Ok(vec![2, 3, 4]));
    assert_eq!(parse_list("3,4,5"), Ok(vec![3, 4, 5]));
    assert_eq!(parse_list(" 7 "), Ok(vec![7]));
    assert_eq!(parse_list("0,+1, 002 "), Ok(vec![0, 1, 2]));
}

#[test]
fn the_first_bad_piece_of_a_list_is_reported_trimmed() {
    assert_eq!(parse_list("2,x,4"), Err(String::from("x")));
    assert_eq!(parse_list("2,  y z ,4, w"), Err(String::from("y z")));
    assert_eq!(parse_list("a,b"), Err(String::from("a")));
    assert_eq!(parse_list("1,-2"), Err(String::from("-2")));
}

#[test]
fn an_empty_piece_is_a_bad_piece() {
    assert_eq!(parse_list(""), Err(String::new()));
    assert_eq!(parse_list("   "), Err(String::new()));
    assert_eq!(parse_list("1,,2"), Err(String::new()));
    assert_eq!(parse_list("1,2,"), Err(String::new()));
    assert_eq!(parse_list(",1"), Err(String::new()));
}

#[test]
fn a_bad_piece_with_letters_beyond_ascii_is_reported_whole() {
    assert_eq!(parse_list("1, größe ,3"), Err(String::from("größe")));
}

#[test]
fn lists_are_read_as_by_splitting_trimming_and_parsing() {
    let samples = [
        "2, 3, 4",
        "2,x,4",
        "",
        ",",
        "1,,2",
        " 1 , 2 ,3 ",
        "1,2,99999999999999999999999",
        "+1,+2",
        "a",
    ];
    for s in samples {
        let expected: Result<Vec<usize>, String> = s
            .split(',')
            .map(|t| t.trim().parse::<usize>().map_err(|_| t.trim().to_string()))
            .collect();
        assert_eq!(parse_list(s), expected, "on {:?}", s);
    }
}

#[test]
fn numbers_are_written_in_decimal() {
    assert_eq!(to_decimal(0), "0");
    assert_eq!(to_decimal(7), "7");
    assert_eq!(to_decimal(10), "10");
    assert_eq!(to_decimal(12345), "12345");
    assert_eq!(to_decimal(usize::MAX), usize::MAX.to_string());
}

#[test]
fn what_is_written_is_read_back() {
    for n in [0usize, 1, 9, 10, 99, 100, 4096, 1_000_000, usize::MAX - 1, usize::MAX] {
        assert_eq!(parse_number(&to_decimal(n)), Some(n));
    }
}
