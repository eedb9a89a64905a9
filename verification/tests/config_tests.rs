use mofish::config::{CliConfig, ConfigError, DEFAULT_PAGE_SIZE};

#[test]
fn test_default_config() {
    let config = CliConfig::default();
    assert_eq!(config.page_size, 30);
}

#[test]
fn default_page_size_constant() {
    assert_eq!(DEFAULT_PAGE_SIZE, 30);
}

#[test]
fn io_error_becomes_config_error() {
    let err = std::io::Error::new(std::io::ErrorKind::NotFound, "gone");
    match ConfigError::from(err) {
        ConfigError::IoError(e) => assert_eq!(e.kind(), std::io::ErrorKind::NotFound),
        ConfigError::HomeDirNotFound => panic!("wrong variant"),
    }
}
