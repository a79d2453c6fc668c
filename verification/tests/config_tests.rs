use meilibridge::config::loader::ConfigLoader;
use meilibridge::text::{join_strings, parse_usize_chars, split_at_char, text_lines};

#[test]
fn default_config_files_in_order() {
    assert_eq!(
        ConfigLoader::default_config_files(),
        vec!["config.yaml", "config.yml", "meilibridge.yaml", "meilibridge.yml"]
    );
    assert_eq!(
        ConfigLoader::env_config_files("prod"),
        vec!["config.prod.yaml", "config.prod.yml", "prod.yaml", "prod.yml"]
    );
}

#[test]
fn the_first_existing_file_wins() {
    assert_eq!(ConfigLoader::first_existing(&vec![false, true, true]), Some(1));
    assert_eq!(ConfigLoader::first_existing(&vec![false, false]), None);
}

#[test]
fn loading_errors() {
    assert_eq!(ConfigLoader::build_error("bad").message(), "Configuration error: Failed to build config: bad");
    assert_eq!(
        ConfigLoader::deserialize_error("missing field").message(),
        "Configuration error: Failed to deserialize config: missing field"
    );
}

#[test]
fn the_sample_configuration_is_yaml_with_the_main_sections() {
    let s = ConfigLoader::generate_sample();
    assert!(s.contains("source:"));
    assert!(s.contains("meilisearch:"));
    assert!(s.contains("sync_tasks:"));
    for section in ["app:", "source:", "meilisearch:", "redis:", "sync_tasks:", "api:", "logging:", "features:"] {
        assert!(s.lines().any(|l| l == section), "missing section {}", section);
    }
    assert!(s.contains("  type: postgresql"));
    assert!(s.contains("password: ${POSTGRES_PASSWORD}"));
    assert!(s.contains("api_key: ${MEILISEARCH_API_KEY}"));
    assert_eq!(s, ConfigLoader::generate_sample());
}

#[test]
fn text_helpers() {
    let pieces = split_at_char(&"a..b".chars().collect(), '.');
    assert_eq!(pieces.len(), 3);
    assert!(pieces[1].is_empty());
    assert_eq!(parse_usize_chars(&"+42".chars().collect()), Some(42));
    assert_eq!(parse_usize_chars(&"".chars().collect()), None);
    assert_eq!(parse_usize_chars(&"+".chars().collect()), None);
    assert_eq!(parse_usize_chars(&"4x".chars().collect()), None);
    assert_eq!(parse_usize_chars(&"99999999999999999999999".chars().collect()), None);
    assert_eq!(join_strings(&vec!["a".to_string(), "b".to_string()], ", "), "a, b");
    assert_eq!(text_lines("a\r\nb\n").len(), 2);
}
