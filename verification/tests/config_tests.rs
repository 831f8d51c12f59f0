use noize::config::{default_max_volume, default_volume_step, ConfigError, ConfigSource, UrlField};

#[test]
fn defaults_are_ten_steps_of_one() {
    assert_eq!(default_max_volume(), 10);
    assert_eq!(default_volume_step(), 1);
}

#[test]
fn urls_entry_wins_over_url() {
    let src = ConfigSource::from_fields(
        "rain".to_string(),
        vec!["a.mp3".to_string(), "b.mp3".to_string()],
        UrlField::Single("c.mp3".to_string()),
    )
    .ok()
    .unwrap();
    assert_eq!(src.urls, vec!["a.mp3".to_string(), "b.mp3".to_string()]);
    assert_eq!(src.name, "rain");
}

#[test]
fn single_url_gives_one_address() {
    let src = ConfigSource::from_fields(String::new(), Vec::new(), UrlField::Single("http://x/stream".to_string()))
        .ok()
        .unwrap();
    assert_eq!(src.urls, vec!["http://x/stream".to_string()]);
    assert_eq!(src.name, "");
}

#[test]
fn url_list_keeps_only_strings_in_order() {
    let items = vec![Some("one".to_string()), None, Some("two".to_string()), None];
    let src = ConfigSource::from_fields("n".to_string(), Vec::new(), UrlField::List(items)).ok().unwrap();
    assert_eq!(src.urls, vec!["one".to_string(), "two".to_string()]);
}

#[test]
fn url_list_without_strings_gives_no_address() {
    let src = ConfigSource::from_fields("n".to_string(), Vec::new(), UrlField::List(vec![None, None])).ok().unwrap();
    assert!(src.urls.is_empty());
}

#[test]
fn missing_url_is_an_error() {
    let r = ConfigSource::from_fields("n".to_string(), Vec::new(), UrlField::Absent);
    assert!(matches!(r, Err(ConfigError::MissingUrl)));
    assert_eq!(ConfigError::MissingUrl.message(), "missing url or urls field");
}

#[test]
fn url_of_another_kind_is_an_error() {
    let r = ConfigSource::from_fields("n".to_string(), Vec::new(), UrlField::Other);
    assert!(matches!(r, Err(ConfigError::UrlNotStringOrList)));
    assert_eq!(ConfigError::UrlNotStringOrList.message(), "url must be a string or array of strings");
}
