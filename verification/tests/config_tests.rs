use rivet::config::{ReportConfig, UserConfig};

#[test]
fn test_report_config_default() {
    let config = ReportConfig::default();
    assert!(config.auto_open_browser);
    assert_eq!(config.default_template, "compact");
    assert_eq!(config.default_formats, vec!["html"]);
}

#[test]
fn test_user_config_default() {
    let config = UserConfig::default();
    assert!(config.reports.auto_open_browser);
    assert_eq!(config.reports.default_template, "compact");
}
