use embucket::metastore_settings::{MetastoreSettingsConfig, MetastoreSettingsConfigError, SettingsCell};
use embucket::text::{split_chars, trim_chars};

#[test]
fn settings_are_written_once() {
    let mut cell = SettingsCell::new();
    assert_eq!(cell.get_object_store_config(), Err(MetastoreSettingsConfigError::NotInitialized));
    let first = MetastoreSettingsConfig::new().with_object_store_timeout(30).with_object_store_connect_timeout(5);
    assert_eq!(first.object_store_config.timeout_secs, Some(30));
    assert_eq!(first.object_store_config.connect_timeout_secs, Some(5));
    assert_eq!(cell.initialize(first), Ok(()));
    let second = MetastoreSettingsConfig::default();
    assert_eq!(cell.initialize(second), Err(MetastoreSettingsConfigError::AlreadyInitialized));
    assert_eq!(cell.get_object_store_config(), Ok(first.object_store_config));
}

fn chars(s: &str) -> Vec<char> {
    s.chars().collect()
}

#[test]
fn trim_matches_std() {
    for s in ["  a b  ", "\u{3000}x\u{85}", "", "   ", "\t\n", "a"] {
        assert_eq!(trim_chars(&chars(s)), chars(s.trim()), "{s:?}");
    }
}

#[test]
fn split_matches_std() {
    for s in ["a;b;;c", ";", "", "abc", ";x;"] {
        let mine: Vec<String> = split_chars(&chars(s), ';').into_iter().map(|v| v.into_iter().collect()).collect();
        let std: Vec<String> = s.split(';').map(|p| p.to_string()).collect();
        assert_eq!(mine, std, "{s:?}");
    }
}
