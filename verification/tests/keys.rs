use blog::date::Date;
use blog::key::encode_key;
use blog::route::{post_content_key, route_date};

fn date(y: i32, m: u32, d: u32) -> Date {
    Date::from_ymd_opt(y, m, d).unwrap()
}

#[test]
fn key_inverts_the_date_into_letters() {
    assert_eq!(
        encode_key(&date(2025, 4, 13), "Supported Markdown Syntax"),
        "HJHE-JF-IG_2025-04-13_Supported Markdown Syntax"
    );
    assert_eq!(encode_key(&date(5, 1, 1), "t"), "JJJE-JI-JI_0005-01-01_t");
    assert_eq!(encode_key(&date(2024, 12, 31), ""), "HJHF-IH-GI_2024-12-31_");
}

/// The key text as `9999 - year`, `99 - month` and `99 - day` give it, with
/// digits moved up to the letters.
fn inverted_text(y: i32, m: u32, d: u32, title: &str) -> String {
    let numbers = format!("{}-{}-{}", 9999 - y, 99 - m, 99 - d);
    let letters: String = numbers
        .chars()
        .map(|c| if c.is_ascii_digit() { char::from_u32(c as u32 + 17).unwrap() } else { c })
        .collect();
    format!("{}_{:04}-{:02}-{:02}_{}", letters, y, m, d, title)
}

#[test]
fn keys_of_years_up_to_8999_invert_the_date() {
    for y in [0, 1, 5, 99, 999, 1000, 1999, 2024, 2025, 4321, 8998, 8999] {
        for (m, d) in [(1, 1), (2, 28), (4, 13), (12, 31)] {
            assert_eq!(encode_key(&date(y, m, d), "post"), inverted_text(y, m, d, "post"));
        }
    }
}

#[test]
fn key_of_years_outside_four_digits() {
    // before year 0: K, then -1 - year with six digits
    assert_eq!(encode_key(&date(-5, 1, 1), "x"), "KAAAAAE-JI-JI_-0005-01-01_x");
    // after 8999: A, then 262142 - year with six digits
    assert_eq!(encode_key(&date(10000, 1, 1), "x"), "ACFCBEC-JI-JI_+10000-01-01_x");
    // the last and the first year a date can hold
    assert_eq!(encode_key(&date(262142, 12, 31), "x"), "AAAAAAA-IH-GI_+262142-12-31_x");
    assert_eq!(encode_key(&date(-262143, 1, 1), "x"), "KCGCBEC-JI-JI_-262143-01-01_x");
}

#[test]
fn later_posts_sort_first() {
    let pairs = [
        (date(2025, 4, 13), date(2024, 12, 31)),
        (date(2025, 4, 13), date(2025, 3, 31)),
        (date(2025, 4, 13), date(2025, 4, 12)),
        (date(8999, 12, 31), date(0, 1, 1)),
        (date(2000, 10, 1), date(2000, 9, 30)),
        (date(9000, 1, 1), date(8999, 12, 31)),
        (date(10000, 1, 1), date(9999, 12, 31)),
        (date(0, 1, 1), date(-1, 12, 31)),
        (date(-1, 1, 1), date(-10000, 1, 1)),
        (date(262142, 12, 31), date(-262143, 1, 1)),
    ];
    for (later, earlier) in pairs.iter() {
        let a = encode_key(later, "zzz");
        let b = encode_key(earlier, "aaa");
        assert!(a < b, "{} should sort before {}", a, b);
    }
}

#[test]
fn years_of_any_width_keep_the_order() {
    // outside 0..=8999 the year part is marked and has six digits, so its
    // width never decides
    let a = encode_key(&date(9000, 1, 1), "x");
    let b = encode_key(&date(2025, 1, 1), "x");
    assert!(a < b);
    let c = encode_key(&date(100000, 1, 1), "x");
    assert!(c < a);
    let d = encode_key(&date(-100000, 1, 1), "x");
    assert!(b < d);
}

#[test]
fn keys_of_distinct_posts_differ() {
    let k1 = encode_key(&date(2025, 4, 13), "a");
    let k2 = encode_key(&date(2025, 4, 13), "b");
    let k3 = encode_key(&date(2025, 4, 14), "a");
    assert_ne!(k1, k2);
    assert_ne!(k1, k3);
    assert_ne!(k2, k3);
    let far = [
        encode_key(&date(-5, 1, 1), "a"),
        encode_key(&date(5, 1, 1), "a"),
        encode_key(&date(10004, 1, 1), "a"),
        encode_key(&date(-10004, 1, 1), "a"),
        encode_key(&date(9999, 1, 1), "a"),
    ];
    for i in 0..far.len() {
        for j in 0..far.len() {
            assert_eq!(i == j, far[i] == far[j]);
        }
    }
}

#[test]
fn route_numbers_reach_the_key() {
    let d = date(2025, 4, 13);
    assert_eq!(post_content_key(2025, 4, 13, "hello"), Some(encode_key(&d, "hello")));
    assert_eq!(
        post_content_key(2025, 4, 13, "hello").unwrap(),
        "HJHE-JF-IG_2025-04-13_hello"
    );
}

#[test]
fn route_to_a_missing_day_has_no_key() {
    assert_eq!(post_content_key(2025, 2, 30, "hello"), None);
    assert_eq!(post_content_key(2025, 0, 1, "hello"), None);
    assert!(route_date(2025, 13, 1).is_none());
}

#[test]
fn route_year_is_read_as_signed() {
    // u32::MAX read as an i32 is -1
    assert_eq!(
        post_content_key(u32::MAX, 1, 1, "x").unwrap(),
        "KAAAAAA-JI-JI_-0001-01-01_x"
    );
    let d = route_date(u32::MAX, 1, 1).unwrap();
    assert_eq!(d.year(), -1);
    let d = date(-5, 3, 4);
    assert_eq!(post_content_key((-5i32) as u32, 3, 4, "x"), Some(encode_key(&d, "x")));
}
