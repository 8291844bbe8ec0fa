use kvscan::{parse_str, FromText};

#[test]
fn unsigned_values_are_decimal_digits() {
    assert_eq!(parse_str::<usize>("n=0", "n"), Some(0));
    assert_eq!(parse_str::<usize>("n=007", "n"), Some(7));
    assert_eq!(parse_str::<usize>("n=+1", "n"), Some(1));
    assert_eq!(parse_str::<usize>("n=-1", "n"), None);
    assert_eq!(parse_str::<usize>("n=-0", "n"), None);
    assert_eq!(parse_str::<usize>("n=", "n"), None);
    assert_eq!(parse_str::<usize>("n=+", "n"), None);
    assert_eq!(parse_str::<usize>("n=++1", "n"), None);
    assert_eq!(parse_str::<usize>("n=1_000", "n"), None);
    assert_eq!(parse_str::<usize>("n=1 0", "n"), None);
    assert_eq!(parse_str::<usize>("n=0x10", "n"), None);
    assert_eq!(parse_str::<usize>("n=1.0", "n"), None);
    assert_eq!(parse_str::<usize>("n=12a", "n"), None);
    assert_eq!(parse_str::<usize>("n=\u{661}", "n"), None);
}

#[test]
fn signed_values_take_either_sign() {
    assert_eq!(parse_str::<i32>("n=-40", "n"), Some(-40));
    assert_eq!(parse_str::<i32>("n=+40", "n"), Some(40));
    assert_eq!(parse_str::<i32>("n=40", "n"), Some(40));
    assert_eq!(parse_str::<i32>("n=-0", "n"), Some(0));
    assert_eq!(parse_str::<i32>("n=-", "n"), None);
    assert_eq!(parse_str::<i32>("n=--4", "n"), None);
    assert_eq!(parse_str::<i32>("n=+-4", "n"), None);
    assert_eq!(parse_str::<i32>("n=- 4", "n"), None);
    assert_eq!(parse_str::<i32>("n=4-", "n"), None);
}

#[test]
fn unsigned_values_end_at_the_type() {
    assert_eq!(parse_str::<u8>("n=255", "n"), Some(u8::MAX));
    assert_eq!(parse_str::<u8>("n=256", "n"), None);
    assert_eq!(parse_str::<u16>("n=65535", "n"), Some(u16::MAX));
    assert_eq!(parse_str::<u16>("n=65536", "n"), None);
    assert_eq!(parse_str::<u32>("n=4294967295", "n"), Some(u32::MAX));
    assert_eq!(parse_str::<u32>("n=4294967296", "n"), None);
    assert_eq!(parse_str::<u64>("n=18446744073709551615", "n"), Some(u64::MAX));
    assert_eq!(parse_str::<u64>("n=18446744073709551616", "n"), None);
    assert_eq!(
        parse_str::<u128>("n=340282366920938463463374607431768211455", "n"),
        Some(u128::MAX)
    );
    assert_eq!(
        parse_str::<u128>("n=340282366920938463463374607431768211456", "n"),
        None
    );
    assert_eq!(
        parse_str::<usize>(&format!("n={}", usize::MAX), "n"),
        Some(usize::MAX)
    );
    assert_eq!(parse_str::<usize>(&format!("n={}0", usize::MAX), "n"), None);
    assert_eq!(
        parse_str::<u8>("n=0000000000000000000000000000000000000000000000012", "n"),
        Some(12)
    );
}

#[test]
fn signed_values_end_at_the_type() {
    assert_eq!(parse_str::<i8>("n=127", "n"), Some(i8::MAX));
    assert_eq!(parse_str::<i8>("n=128", "n"), None);
    assert_eq!(parse_str::<i8>("n=-128", "n"), Some(i8::MIN));
    assert_eq!(parse_str::<i8>("n=-129", "n"), None);
    assert_eq!(parse_str::<i16>("n=-32768", "n"), Some(i16::MIN));
    assert_eq!(parse_str::<i16>("n=32768", "n"), None);
    assert_eq!(parse_str::<i32>("n=2147483647", "n"), Some(i32::MAX));
    assert_eq!(parse_str::<i32>("n=-2147483649", "n"), None);
    assert_eq!(parse_str::<i64>("n=-9223372036854775808", "n"), Some(i64::MIN));
    assert_eq!(parse_str::<i64>("n=9223372036854775808", "n"), None);
    assert_eq!(
        parse_str::<i128>("n=-170141183460469231731687303715884105728", "n"),
        Some(i128::MIN)
    );
    assert_eq!(
        parse_str::<i128>("n=170141183460469231731687303715884105727", "n"),
        Some(i128::MAX)
    );
    assert_eq!(
        parse_str::<i128>("n=170141183460469231731687303715884105728", "n"),
        None
    );
    assert_eq!(
        parse_str::<isize>(&format!("n={}", isize::MIN), "n"),
        Some(isize::MIN)
    );
    assert_eq!(parse_str::<isize>(&format!("n={}0", isize::MAX), "n"), None);
}

#[test]
fn every_text_is_a_string() {
    assert_eq!(String::from_text(""), Some(String::new()));
    assert_eq!(String::from_text(" a b "), Some(String::from(" a b ")));
    assert_eq!(String::from_text("値=;"), Some(String::from("値=;")));
}

fn texts() -> Vec<String> {
    let alphabet = ['+', '-', '0', '1', '2', '5', '9', ' ', 'a', '_', '.', '\u{663}'];
    let mut texts = vec![String::new()];
    let mut from = 0;
    for _ in 0..4 {
        let upto = texts.len();
        for i in from..upto {
            for c in alphabet {
                let mut longer = texts[i].clone();
                longer.push(c);
                texts.push(longer);
            }
        }
        from = upto;
    }
    for n in [
        "254", "255", "256", "-127", "-128", "-129", "32767", "32768", "-32768", "-32769",
        "65535", "65536", "2147483647", "2147483648", "-2147483648", "-2147483649",
        "4294967295", "4294967296", "9223372036854775807", "9223372036854775808",
        "-9223372036854775808", "-9223372036854775809", "18446744073709551615",
        "18446744073709551616", "170141183460469231731687303715884105727",
        "170141183460469231731687303715884105728", "-170141183460469231731687303715884105728",
        "-170141183460469231731687303715884105729", "340282366920938463463374607431768211455",
        "340282366920938463463374607431768211456", "+340282366920938463463374607431768211455",
        "-340282366920938463463374607431768211455",
        "000000000000000000000000000000000000000000000000000000000000000000000000000009",
        "999999999999999999999999999999999999999999999999999999999999999999999999999999",
    ] {
        texts.push(String::from(n));
    }
    texts
}

#[test]
fn unsigned_reading_is_the_standard_parse() {
    for text in texts() {
        assert_eq!(u8::from_text(&text), text.parse::<u8>().ok(), "{:?}", text);
        assert_eq!(u16::from_text(&text), text.parse::<u16>().ok(), "{:?}", text);
        assert_eq!(u32::from_text(&text), text.parse::<u32>().ok(), "{:?}", text);
        assert_eq!(u64::from_text(&text), text.parse::<u64>().ok(), "{:?}", text);
        assert_eq!(u128::from_text(&text), text.parse::<u128>().ok(), "{:?}", text);
        assert_eq!(usize::from_text(&text), text.parse::<usize>().ok(), "{:?}", text);
    }
}

#[test]
fn signed_reading_is_the_standard_parse() {
    for text in texts() {
        assert_eq!(i8::from_text(&text), text.parse::<i8>().ok(), "{:?}", text);
        assert_eq!(i16::from_text(&text), text.parse::<i16>().ok(), "{:?}", text);
        assert_eq!(i32::from_text(&text), text.parse::<i32>().ok(), "{:?}", text);
        assert_eq!(i64::from_text(&text), text.parse::<i64>().ok(), "{:?}", text);
        assert_eq!(i128::from_text(&text), text.parse::<i128>().ok(), "{:?}", text);
        assert_eq!(isize::from_text(&text), text.parse::<isize>().ok(), "{:?}", text);
    }
}

#[test]
fn string_reading_is_the_standard_parse() {
    for text in texts() {
        assert_eq!(String::from_text(&text), text.parse::<String>().ok(), "{:?}", text);
    }
}
