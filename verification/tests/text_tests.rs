use learn_server::sessions::{generate_token, token_from_draws, TOKEN_CHARSET, TOKEN_LEN};
use learn_server::text::parse_usize;

#[test]
fn parse_usize_reads_plain_digits() {
    assert_eq!(parse_usize("0"), Some(0));
    assert_eq!(parse_usize("3"), Some(3));
    assert_eq!(parse_usize("0042"), Some(42));
    assert_eq!(parse_usize("+7"), Some(7));
}

#[test]
fn parse_usize_rejects_malformed_text() {
    assert_eq!(parse_usize(""), None);
    assert_eq!(parse_usize("+"), None);
    assert_eq!(parse_usize("-1"), None);
    assert_eq!(parse_usize("1a"), None);
    assert_eq!(parse_usize(" 1"), None);
    assert_eq!(parse_usize("1 "), None);
    assert_eq!(parse_usize("++1"), None);
    assert_eq!(parse_usize("１"), None);
}

#[test]
fn parse_usize_handles_the_limit() {
    let max = usize::MAX.to_string();
    assert_eq!(parse_usize(&max), Some(usize::MAX));
    let over = format!("{}0", usize::MAX);
    assert_eq!(parse_usize(&over), None);
    assert_eq!(parse_usize("99999999999999999999999999999"), None);
}

#[test]
fn parse_usize_agrees_with_std() {
    let samples = [
        "", "0", "1", "12", "+", "+0", "+12", "-0", "-12", "1_000", "1.5", "abc", "١", "00", "0x10",
        "18446744073709551615", "18446744073709551616", "4294967295", "4294967296", " ", "\t3", "9\n",
    ];
    for s in samples.iter() {
        assert_eq!(parse_usize(s), s.parse::<usize>().ok(), "input {:?}", s);
    }
}

#[test]
fn token_has_sixty_four_charset_characters() {
    let token = generate_token();
    assert_eq!(token.chars().count(), TOKEN_LEN);
    assert_eq!(TOKEN_LEN, 64);
    for c in token.chars() {
        assert!(TOKEN_CHARSET.contains(&c));
        assert!(c.is_ascii_alphanumeric());
    }
}

#[test]
fn tokens_differ() {
    assert_ne!(generate_token(), generate_token());
}

#[test]
fn token_charset_is_letters_and_digits() {
    let expected: Vec<char> = "ABCDEFGHIJKLMNOPQRSTUVWXYZabcdefghijklmnopqrstuvwxyz0123456789".chars().collect();
    assert_eq!(TOKEN_CHARSET.to_vec(), expected);
}

#[test]
fn token_from_draws_spells_the_draws() {
    let draws: Vec<usize> = (0..64).map(|i| i % 62).collect();
    let token = token_from_draws(&draws);
    assert_eq!(
        token,
        "ABCDEFGHIJKLMNOPQRSTUVWXYZabcdefghijklmnopqrstuvwxyz0123456789AB"
    );
    let zeros = vec![0usize; 64];
    assert_eq!(token_from_draws(&zeros), "A".repeat(64));
    let nines = vec![61usize; 64];
    assert_eq!(token_from_draws(&nines), "9".repeat(64));
}
