use rm_engine::exchange::{account_key, ExchangeConfig, SetupError};

fn config(name: &str, tag: Option<&str>, passphrase: Option<&str>) -> ExchangeConfig<String> {
    ExchangeConfig {
        exch_name: name.to_string(),
        tag: tag.map(|t| t.to_string()),
        api_pubkey: "pub".to_string(),
        api_secret: "api-secret-value".to_string(),
        passphrase: passphrase.map(|p| p.to_string()),
    }
}

#[test]
fn key_without_tag_is_exchange_name() {
    assert_eq!(account_key(&"binance".to_string(), &None), "binance");
    assert_eq!(config("bybit", None, None).key(), "bybit");
}

#[test]
fn key_with_tag_joins_with_underscore() {
    assert_eq!(account_key(&"binance".to_string(), &Some("main".to_string())), "binance_main");
    assert_eq!(config("bybit", Some("alt"), None).key(), "bybit_alt");
}

#[test]
fn different_tags_give_different_keys() {
    let a = config("bybit", Some("one"), None).key();
    let b = config("bybit", Some("two"), None).key();
    assert_ne!(a, b);
}

#[test]
fn kucoin_without_passphrase_is_refused() {
    let r = config("kucoin", None, None).into_setup(true);
    match r {
        Err(SetupError::MissingPassphrase { exch_name }) => assert_eq!(exch_name, "kucoin"),
        Ok(_) => panic!("a missing passphrase must be refused"),
    }
}

#[test]
fn kucoin_with_passphrase_keeps_it() {
    let s = config("kucoin", Some("x"), Some("pass")).into_setup(true).unwrap();
    assert_eq!(s.key, "kucoin_x");
    assert_eq!(s.exch_name, "kucoin");
    assert_eq!(s.api_pubkey, "pub");
    assert_eq!(s.api_secret, "api-secret-value");
    assert_eq!(s.passphrase, Some("pass".to_string()));
}

#[test]
fn passphrase_not_handed_where_not_required() {
    let s = config("binance", None, Some("pass")).into_setup(false).unwrap();
    assert_eq!(s.key, "binance");
    assert_eq!(s.passphrase, None);
    let s = config("binance", None, None).into_setup(false).unwrap();
    assert_eq!(s.passphrase, None);
}
