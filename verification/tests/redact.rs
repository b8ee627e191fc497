use rocoknight::redact::{
    redact_bytes, redact_swf_url, redact_tokens, redact_url, redact_value, sample_response,
    SAMPLE_LEN,
};

#[test]
fn redact_masks_listed_keys_only() {
    assert_eq!(redact_tokens("angel_key=SECRET123&foo=bar"), "angel_key=*&foo=bar");
}

#[test]
fn redact_masks_every_sensitive_key() {
    assert_eq!(
        redact_tokens("config=a&angel_uin=123&angel_key=abc&skey=def&pskey=ghi"),
        "config=a&angel_uin=*&angel_key=*&skey=*&pskey=*"
    );
}

#[test]
fn redact_stops_at_markup_delimiters() {
    assert_eq!(redact_tokens("skey=a\"b"), "skey=*\"b");
    assert_eq!(redact_tokens("skey=a'b"), "skey=*'b");
    assert_eq!(redact_tokens("skey=a<b"), "skey=*<b");
    assert_eq!(redact_tokens("skey=a>b"), "skey=*>b");
    assert_eq!(redact_tokens("skey=a b"), "skey=*");
}

#[test]
fn redact_needs_the_equals_sign() {
    assert_eq!(redact_tokens("skey"), "skey");
    assert_eq!(redact_tokens("skey&angel_uin"), "skey&angel_uin");
    assert_eq!(redact_tokens("skey="), "skey=*");
    assert_eq!(redact_tokens(""), "");
}

#[test]
fn redact_finds_keys_inside_words() {
    assert_eq!(redact_tokens("xpskey=1&myskey=2"), "xpskey=*&myskey=*");
}

#[test]
fn redact_value_is_redact_tokens() {
    assert_eq!(redact_value("a=1&pskey=zz&b=2"), "a=1&pskey=*&b=2");
    assert_eq!(redact_bytes(b"angel_uin=5"), b"angel_uin=*".to_vec());
}

#[test]
fn sample_flattens_line_breaks_and_masks() {
    assert_eq!(sample_response("a\r\nb\nskey=1\n&c"), "a  b skey=*&c");
}

#[test]
fn sample_is_cut_at_600_characters() {
    let long = "x".repeat(700);
    let sample = sample_response(&long);
    assert_eq!(sample.len(), SAMPLE_LEN);
    assert_eq!(sample, "x".repeat(600));
    let exact = "y".repeat(600);
    assert_eq!(sample_response(&exact), exact);
}

#[test]
fn sample_masks_a_value_that_is_cut() {
    let mut text = "z".repeat(590);
    text.push_str("skey=0123456789");
    let sample = sample_response(&text);
    let mut expected = "z".repeat(590);
    expected.push_str("skey=*");
    assert_eq!(sample, expected);
}

#[test]
fn sample_counts_characters_not_bytes() {
    let long = "é".repeat(700);
    let sample = sample_response(&long);
    assert_eq!(sample, redact_tokens(&"é".repeat(600)));
    assert_eq!(sample.chars().count(), 1200);
    let mixed = format!("{}\r\nskey=secret&b", "宠".repeat(598));
    assert_eq!(sample_response(&mixed), redact_tokens(&format!("{}  ", "宠".repeat(598))));
    assert_eq!(sample_response("a\r\nskey=xyz&b"), "a  skey=*&b");
}

#[test]
fn url_base_is_kept_as_it_is() {
    assert_eq!(redact_url("https://例え.example/路径?x=1"), "https://例え.example/路径?REDACTED");
    assert_eq!(redact_url("https://例え.example/路径"), "https://例え.example/路径");
    assert_eq!(
        redact_swf_url("https://例え.example/路径?skey=1&a=2"),
        "https://例え.example/路径?skey=*&a=2"
    );
    assert_eq!(redact_swf_url("路径"), "路径");
}

#[test]
fn url_query_is_hidden() {
    assert_eq!(redact_url("https://a.example/b?x=1&y=2"), "https://a.example/b?REDACTED");
    assert_eq!(redact_url("https://a.example/b"), "https://a.example/b");
    assert_eq!(redact_url("?"), "?REDACTED");
}

#[test]
fn asset_url_keeps_its_shape() {
    assert_eq!(
        redact_swf_url("https://res.17roco.qq.com/main.swf?0.5=&config=a&angel_uin=9&skey=s"),
        "https://res.17roco.qq.com/main.swf?0.5=&config=a&angel_uin=*&skey=*"
    );
    assert_eq!(redact_swf_url("skey=1"), "skey=1");
    assert_eq!(redact_swf_url("a?skey=1?skey=2"), "a?skey=*");
}

#[test]
fn text_without_sensitive_keys_is_unchanged() {
    let text = "config=//res.17roco.qq.com/Global.xml&foo=bar&key=1&angel=2&uin=3";
    assert_eq!(redact_tokens(text), text);
}

#[test]
fn masking_goes_on_after_each_value() {
    assert_eq!(redact_tokens("skey=abc&pskey=def"), "skey=*&pskey=*");
    assert_eq!(redact_tokens("angel_uin=1<angel_key=2>x"), "angel_uin=*<angel_key=*>x");
}
