use rm_engine::input::strip_underscores;

#[test]
fn underscores_are_removed() {
    assert_eq!(strip_underscores("67_500.5"), "67500.5");
    assert_eq!(strip_underscores("1_000_000"), "1000000");
    assert_eq!(strip_underscores("__"), "");
}

#[test]
fn text_without_underscores_is_unchanged() {
    assert_eq!(strip_underscores("0.0123"), "0.0123");
    assert_eq!(strip_underscores(""), "");
    assert_eq!(strip_underscores("ü_ß"), "üß");
}

#[test]
fn inserted_underscores_do_not_change_the_number() {
    let plain = "1234567.89";
    for k in 0..=plain.len() {
        let with = format!("{}_{}", &plain[..k], &plain[k..]);
        assert_eq!(strip_underscores(&with), strip_underscores(plain));
    }
    assert_eq!(strip_underscores("1_2_3_4_567.8_9"), strip_underscores(plain));
}

#[test]
fn stripping_joined_text_joins_the_stripped_parts() {
    let a = "12_3";
    let b = "_45.6_";
    let joined = format!("{a}{b}");
    assert_eq!(strip_underscores(&joined), format!("{}{}", strip_underscores(a), strip_underscores(b)));
}
