use provisioner::text::{
    chars_of, compare, extension, join, parse_i64, parse_u64, push_decimal,
    push_signed_decimal, replace_char, str_eq, string_of, NumberError, Order,
};

#[test]
fn characters_go_to_and_fro() {
    assert_eq!(chars_of("a-ü"), vec!['a', '-', 'ü']);
    assert_eq!(chars_of(""), Vec::<char>::new());
    assert_eq!(string_of(&vec!['r', '.', '1']), "r.1");
    assert_eq!(string_of(&vec![]), "");
    assert_eq!(string_of(&chars_of("mäander")), "mäander");
}

#[test]
fn strings_are_compared_by_characters() {
    assert!(str_eq("mca", "mca"));
    assert!(!str_eq("mca", "MCA"));
    assert!(!str_eq("mca", "mc"));
}

#[test]
fn decimal_numerals() {
    let mut out = String::new();
    push_decimal(&mut out, 0);
    out.push(' ');
    push_decimal(&mut out, 7);
    out.push(' ');
    push_decimal(&mut out, 25565);
    out.push(' ');
    push_decimal(&mut out, u64::MAX);
    assert_eq!(out, "0 7 25565 18446744073709551615");
}

#[test]
fn signed_decimal_numerals() {
    let mut out = String::new();
    push_signed_decimal(&mut out, 0);
    out.push(' ');
    push_signed_decimal(&mut out, -1);
    out.push(' ');
    push_signed_decimal(&mut out, i64::MIN);
    out.push(' ');
    push_signed_decimal(&mut out, i64::MAX);
    assert_eq!(out, "0 -1 -9223372036854775808 9223372036854775807");
}

#[test]
fn unsigned_numbers_are_read() {
    assert_eq!(parse_u64("0"), Ok(0));
    assert_eq!(parse_u64("+42"), Ok(42));
    assert_eq!(parse_u64("007"), Ok(7));
    assert_eq!(parse_u64("18446744073709551615"), Ok(u64::MAX));
    assert_eq!(parse_u64("18446744073709551616"), Err(NumberError::PosOverflow));
    assert_eq!(parse_u64(""), Err(NumberError::Empty));
    assert_eq!(parse_u64("+"), Err(NumberError::InvalidDigit));
    assert_eq!(parse_u64("-1"), Err(NumberError::InvalidDigit));
    assert_eq!(parse_u64("1 "), Err(NumberError::InvalidDigit));
    assert_eq!(parse_u64("٣"), Err(NumberError::InvalidDigit));
    assert_eq!(parse_u64("99999999999999999999x"), Err(NumberError::InvalidDigit));
}

#[test]
fn signed_numbers_are_read() {
    assert_eq!(parse_i64("0"), Ok(0));
    assert_eq!(parse_i64("-0"), Ok(0));
    assert_eq!(parse_i64("-1"), Ok(-1));
    assert_eq!(parse_i64("+17"), Ok(17));
    assert_eq!(parse_i64("9223372036854775807"), Ok(i64::MAX));
    assert_eq!(parse_i64("-9223372036854775808"), Ok(i64::MIN));
    assert_eq!(parse_i64("9223372036854775808"), Err(NumberError::PosOverflow));
    assert_eq!(parse_i64("-9223372036854775809"), Err(NumberError::NegOverflow));
    assert_eq!(parse_i64("99999999999999999999"), Err(NumberError::PosOverflow));
    assert_eq!(parse_i64("-99999999999999999999"), Err(NumberError::NegOverflow));
    assert_eq!(parse_i64(""), Err(NumberError::Empty));
    assert_eq!(parse_i64("-"), Err(NumberError::InvalidDigit));
    assert_eq!(parse_i64("--1"), Err(NumberError::InvalidDigit));
    assert_eq!(parse_i64("1.5"), Err(NumberError::InvalidDigit));
}

#[test]
fn numerals_are_read_back() {
    for n in [0i64, 1, -1, 10, -10, 1024, i64::MAX, i64::MIN] {
        let mut out = String::new();
        push_signed_decimal(&mut out, n);
        assert_eq!(parse_i64(&out), Ok(n));
    }
}

#[test]
fn extensions() {
    assert_eq!(extension("r.0.0.mca"), Some(String::from("mca")));
    assert_eq!(extension("plugin.JAR"), Some(String::from("JAR")));
    assert_eq!(extension("level"), None);
    assert_eq!(extension(".mca"), None);
    assert_eq!(extension(""), None);
    assert_eq!(extension("name."), Some(String::new()));
    assert_eq!(extension("..mca"), Some(String::from("mca")));
    assert_eq!(extension("r.0.0.mca "), Some(String::from("mca ")));
}

#[test]
fn order_of_strings() {
    assert_eq!(compare(&chars_of("a"), &chars_of("b")), Order::Before);
    assert_eq!(compare(&chars_of("b"), &chars_of("a")), Order::After);
    assert_eq!(compare(&chars_of("ab"), &chars_of("ab")), Order::Same);
    assert_eq!(compare(&chars_of("ab"), &chars_of("abc")), Order::Before);
    assert_eq!(compare(&chars_of("abc"), &chars_of("ab")), Order::After);
    assert_eq!(compare(&chars_of(""), &chars_of("")), Order::Same);
    assert_eq!(compare(&chars_of(""), &chars_of("a")), Order::Before);
    assert_eq!(compare(&chars_of("Z"), &chars_of("a")), Order::Before);
    // The order of strings in the standard library is the same.
    for (a, b) in [("motd", "max-players"), ("é", "z"), ("pvp", "pvp2"), ("a b", "a_b")] {
        let expected = match a.cmp(b) {
            std::cmp::Ordering::Less => Order::Before,
            std::cmp::Ordering::Equal => Order::Same,
            std::cmp::Ordering::Greater => Order::After,
        };
        assert_eq!(compare(&chars_of(a), &chars_of(b)), expected);
    }
}

#[test]
fn joining_and_replacing() {
    assert_eq!(join(&vec![], " "), "");
    assert_eq!(join(&vec![String::from("a")], " "), "a");
    assert_eq!(join(&vec![String::from("a"), String::from("b"), String::from("c")], ", "), "a, b, c");
    assert_eq!(replace_char("mammoth server 1", ' ', '_'), "mammoth_server_1");
    assert_eq!(replace_char("", ' ', '_'), "");
}
