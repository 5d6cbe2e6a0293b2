use ytdlp_core::config::AppConfig;
use ytdlp_core::logging::LogLevel;

#[test]
fn default_config() {
    let c = AppConfig::default();
    assert_eq!(c.default_save_path, None);
    assert_eq!(c.language, "auto");
    assert!(!c.prefer_hdr);
    assert!(!c.include_subtitles);
}

#[test]
fn save_path_prefers_configured_value() {
    let mut c = AppConfig::default();
    c.default_save_path = Some("/home/user/clips".to_string());
    let r = c.get_default_save_path(Some("/home/user/Downloads".to_string()));
    assert_eq!(r, Some("/home/user/clips".to_string()));
}

#[test]
fn save_path_falls_back_to_system_directory() {
    let c = AppConfig::default();
    let r = c.get_default_save_path(Some("/home/user/Downloads".to_string()));
    assert_eq!(r, Some("/home/user/Downloads".to_string()));
    assert_eq!(c.get_default_save_path(None), None);
}

#[test]
fn log_level_ordering() {
    assert!(LogLevel::Error.passes(LogLevel::Info));
    assert!(LogLevel::Info.passes(LogLevel::Info));
    assert!(!LogLevel::Debug.passes(LogLevel::Info));
    assert!(!LogLevel::Info.passes(LogLevel::Error));
}

#[test]
fn log_level_tags() {
    assert_eq!(LogLevel::Debug.as_str(), "DEBUG");
    assert_eq!(LogLevel::Info.as_str(), "INFO");
    assert_eq!(LogLevel::Warning.as_str(), "WARN");
    assert_eq!(LogLevel::Error.as_str(), "ERROR");
}
