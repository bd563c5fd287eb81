use rust_fps_net::config::GameConfig;

#[test]
fn defaults_when_no_file() {
    let cfg = GameConfig::load(None);
    assert_eq!(cfg.get("cl_fullscreen").unwrap().as_str(), "1");
    assert_eq!(cfg.get("cl_resolution").unwrap().as_str(), "1920x1080");
    assert_eq!(cfg.get("cl_vsync").unwrap().as_str(), "0");
    assert_eq!(cfg.entries.len(), 3);
}

#[test]
fn parse_simple_file() {
    let cfg = GameConfig::parse("cl_fullscreen \"0\"\ncl_vsync \"1\"\n");
    assert_eq!(cfg.get("cl_fullscreen").unwrap().as_str(), "0");
    assert_eq!(cfg.get("cl_vsync").unwrap().as_str(), "1");
    assert!(cfg.get("cl_resolution").is_none());
    assert_eq!(cfg.entries.len(), 2);
}

#[test]
fn malformed_line_skipped_without_discarding_others() {
    let cfg = GameConfig::parse("cl_fullscreen \"1\"\nnokeynovalue\ncl_vsync \"1\"\n");
    assert_eq!(cfg.entries.len(), 2);
    assert_eq!(cfg.get("cl_fullscreen").unwrap().as_str(), "1");
    assert_eq!(cfg.get("cl_vsync").unwrap().as_str(), "1");
    assert!(cfg.get("nokeynovalue").is_none());
}

#[test]
fn empty_text_yields_empty_store() {
    let cfg = GameConfig::parse("");
    assert_eq!(cfg.entries.len(), 0);
}

#[test]
fn missing_trailing_newline_still_parses_last_line() {
    let cfg = GameConfig::parse("cl_vsync \"1\"");
    assert_eq!(cfg.get("cl_vsync").unwrap().as_str(), "1");
}

#[test]
fn duplicate_key_last_value_wins() {
    let cfg = GameConfig::parse("a \"1\"\na \"2\"\n");
    assert_eq!(cfg.entries.len(), 1);
    assert_eq!(cfg.get("a").unwrap().as_str(), "2");
}

#[test]
fn unknown_keys_preserved_verbatim() {
    let cfg = GameConfig::parse("my_custom_key \"anything at all\"\n");
    assert_eq!(cfg.get("my_custom_key").unwrap().as_str(), "anything at all");
}

#[test]
fn unquoted_value_is_trimmed_only() {
    let cfg = GameConfig::parse("k value\n");
    assert_eq!(cfg.get("k").unwrap().as_str(), "value");
}

#[test]
fn unterminated_quote_loses_only_that_quote() {
    let cfg = GameConfig::parse("k \"open\n");
    assert_eq!(cfg.get("k").unwrap().as_str(), "open");
}

#[test]
fn empty_value_round_trips() {
    let cfg = GameConfig::parse("k \"\"\n");
    assert_eq!(cfg.get("k").unwrap().as_str(), "");
}

#[test]
fn save_renders_exact_line_format() {
    let mut cfg = GameConfig::new();
    cfg.set(String::from("cl_vsync"), String::from("1"));
    assert_eq!(cfg.save().as_str(), "cl_vsync \"1\"\n");
}

#[test]
fn save_load_save_round_trip_preserves_pairs() {
    let mut cfg = GameConfig::new();
    cfg.set(String::from("cl_fullscreen"), String::from("0"));
    cfg.set(String::from("cl_resolution"), String::from("800x600"));
    cfg.set(String::from("custom"), String::from("hello world"));
    let text1 = cfg.save();
    let reloaded = GameConfig::load(Some(text1.clone()));
    let text2 = reloaded.save();
    let reloaded2 = GameConfig::load(Some(text2.clone()));

    let mut pairs1: Vec<(String, String)> = cfg
        .entries
        .iter()
        .map(|e| (e.key.clone(), e.value.clone()))
        .collect();
    let mut pairs2: Vec<(String, String)> = reloaded2
        .entries
        .iter()
        .map(|e| (e.key.clone(), e.value.clone()))
        .collect();
    pairs1.sort();
    pairs2.sort();
    assert_eq!(pairs1, pairs2);
    assert_eq!(text1, text2);
}

#[test]
fn set_replaces_existing_value_in_place() {
    let mut cfg = GameConfig::load(None);
    cfg.set(String::from("cl_vsync"), String::from("1"));
    assert_eq!(cfg.entries.len(), 3);
    assert_eq!(cfg.get("cl_vsync").unwrap().as_str(), "1");
}

#[test]
fn parse_line_splits_at_first_space_only() {
    let parsed = GameConfig::parse_line("key \"a b c\"").unwrap();
    assert_eq!(parsed.0.as_str(), "key");
    assert_eq!(parsed.1.as_str(), "a b c");
}

#[test]
fn parse_line_without_space_is_rejected() {
    assert!(GameConfig::parse_line("nokeynovalue").is_none());
}
