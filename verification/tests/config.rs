use scadline::config::{
    config_file_path, effective_backend, load_or_create_config, AppConfig, CacheConfig, ConfigRead,
    ModelBackend, OpenScadConfig, DEFAULT_CACHE_SIZE_MB,
};

#[test]
fn defaults_hold_where_nothing_is_set() {
    let config = AppConfig::default();
    assert_eq!(config.cache.max_size_mb, DEFAULT_CACHE_SIZE_MB);
    assert_eq!(config.cache.max_size_mb, 256);
    assert_eq!(config.openscad.backend, None);
}

#[test]
fn cache_limit_is_held_within_64_bits() {
    assert_eq!(CacheConfig { max_size_mb: 256 }.max_size_bytes(), 268_435_456);
    assert_eq!(
        CacheConfig {
            max_size_mb: u64::MAX
        }
        .max_size_bytes(),
        u64::MAX
    );
}

#[test]
fn backend_names_read_back() {
    for backend in [
        ModelBackend::Cgal,
        ModelBackend::Manifold,
        ModelBackend::Openrscad,
    ] {
        assert_eq!(ModelBackend::from_str(backend.cache_key()), Ok(backend));
        assert_eq!(
            ModelBackend::from_str(&backend.cache_key().to_uppercase()),
            Ok(backend)
        );
    }
    assert_eq!(ModelBackend::from_str("Manifold"), Ok(ModelBackend::Manifold));
    assert!(ModelBackend::from_str("manifold ").is_err());
    assert!(ModelBackend::from_str("").is_err());
}

#[test]
fn openscad_knows_two_of_the_backends() {
    assert_eq!(ModelBackend::Cgal.openscad_backend(), Some("CGAL"));
    assert_eq!(ModelBackend::Manifold.openscad_backend(), Some("Manifold"));
    assert_eq!(ModelBackend::Openrscad.openscad_backend(), None);
    assert_eq!(ModelBackend::Openrscad.cache_key(), "openrscad");
}

#[test]
fn command_line_goes_before_configuration() {
    assert_eq!(
        effective_backend(Some(ModelBackend::Cgal), Some(ModelBackend::Manifold)),
        Some(ModelBackend::Cgal)
    );
    assert_eq!(
        effective_backend(None, Some(ModelBackend::Manifold)),
        Some(ModelBackend::Manifold)
    );
    assert_eq!(effective_backend(None, None), None);
}

#[test]
fn configuration_lies_below_the_home_directory() {
    let path = config_file_path(Some("/home/a"), Some("C:\\Users\\a")).expect("path");
    assert_eq!(path.base, "/home/a");
    assert_eq!(path.parts, vec![".config", "scadline", "config.toml"]);
    let path = config_file_path(None, Some("C:\\Users\\a")).expect("path");
    assert_eq!(path.base, "C:\\Users\\a");
    assert!(config_file_path::<&str>(None, None).is_none());
}

#[test]
fn a_missing_configuration_is_written() {
    let plan = load_or_create_config("config.toml", ConfigRead::Missing);
    assert!(plan.write_default);
    assert_eq!(plan.config.cache.max_size_mb, 256);
    assert_eq!(plan.warning, None);
}

#[test]
fn a_configuration_is_used_as_it_is() {
    let plan = load_or_create_config(
        "config.toml",
        ConfigRead::Parsed(AppConfig {
            cache: CacheConfig { max_size_mb: 7 },
            openscad: OpenScadConfig {
                backend: Some(ModelBackend::Manifold),
            },
        }),
    );
    assert_eq!(plan.config.cache.max_size_mb, 7);
    assert_eq!(plan.config.openscad.backend, Some(ModelBackend::Manifold));
    assert!(!plan.write_default);
    assert_eq!(plan.warning, None);
}

#[test]
fn what_cannot_be_read_falls_back_to_the_defaults() {
    let plan = load_or_create_config("c.toml", ConfigRead::Malformed("why".to_owned()));
    assert_eq!(plan.config.cache.max_size_mb, 256);
    assert!(!plan.write_default);
    assert_eq!(
        plan.warning.as_deref(),
        Some("c.toml の解析に失敗しました: why")
    );
    let plan = load_or_create_config("c.toml", ConfigRead::Unreadable("why".to_owned()));
    assert_eq!(plan.warning.as_deref(), Some("c.toml を読み込めません: why"));
    let plan = load_or_create_config("", ConfigRead::NoPath);
    assert!(!plan.write_default);
    assert_eq!(plan.warning, None);
}
