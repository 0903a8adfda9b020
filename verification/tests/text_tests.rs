use cronframe::text::{
    decimal_i64, decimal_u64, join_with, parse_i64, parse_u64, replace_str, split_on,
};

fn s(v: Vec<char>) -> String {
    v.into_iter().collect()
}

#[test]
fn split_on_keeps_empty_pieces() {
    let p = split_on("a  b", ' ');
    assert_eq!(p, vec!["a".to_string(), "".to_string(), "b".to_string()]);
    assert_eq!(split_on("", ' '), vec!["".to_string()]);
    assert_eq!(split_on("x ", ' '), vec!["x".to_string(), "".to_string()]);
}

#[test]
fn join_then_split_gives_the_parts() {
    let parts = vec!["0/5".to_string(), "*".to_string(), "10-14".to_string()];
    let joined = s(join_with(&parts, ' '));
    assert_eq!(joined, "0/5 * 10-14");
    assert_eq!(split_on(&joined, ' '), parts);
}

#[test]
fn replace_is_left_to_right_and_non_overlapping() {
    assert_eq!(replace_str("aaaa", "aa", "b"), "bb");
    assert_eq!(replace_str("aaa", "aa", "b"), "ba");
    assert_eq!(replace_str("x.log.log", ".log", "_{}.log"), "x_{}.log_{}.log");
    assert_eq!(replace_str("none here", "zz", "y"), "none here");
    assert_eq!(replace_str("0/5 * *", "/", "slh"), "0/5 * *".replace("/", "slh"));
}

#[test]
fn parse_u64_follows_from_str() {
    for t in ["0", "+15", "18446744073709551615", "007", "", "+", "-1", "1 ", "18446744073709551616", "12a"] {
        assert_eq!(parse_u64(t), t.parse::<u64>().ok(), "input {t:?}");
    }
}

#[test]
fn parse_i64_follows_from_str() {
    for t in [
        "0", "-0", "+42", "-15000", "9223372036854775807", "-9223372036854775808",
        "9223372036854775808", "-9223372036854775809", "-", "+", "", "--1", "1.5",
    ] {
        assert_eq!(parse_i64(t), t.parse::<i64>().ok(), "input {t:?}");
    }
}

#[test]
fn decimal_forms() {
    assert_eq!(s(decimal_u64(0)), "0");
    assert_eq!(s(decimal_u64(1234567890)), "1234567890");
    assert_eq!(s(decimal_u64(u64::MAX)), u64::MAX.to_string());
    assert_eq!(s(decimal_i64(-15)), "-15");
    assert_eq!(s(decimal_i64(i64::MIN)), i64::MIN.to_string());
}

#[test]
fn decimal_reads_back() {
    for n in [0u64, 9, 10, 250, 720000, u64::MAX] {
        assert_eq!(parse_u64(&s(decimal_u64(n))), Some(n));
    }
}
