use alloy_studio::config::{FtcConfig, GitConfig, LineEnding};

#[test]
fn test_line_ending_as_str() {
    assert_eq!(LineEnding::Lf.as_str(), "\n");
    assert_eq!(LineEnding::CrLf.as_str(), "\r\n");
    assert_eq!(LineEnding::Cr.as_str(), "\r");
}

#[test]
fn config_defaults() {
    let f = FtcConfig::default();
    assert_eq!(f.jdtls_heap_mb, 512);
    assert_eq!(f.telemetry_port, 5800);
    assert!(f.auto_repair);
    assert!(f.sdk_path.is_none() && f.team_number.is_none());
    let g = GitConfig::default();
    assert_eq!(g.default_branch, "main");
    assert!(!g.auto_stage && !g.sign_commits);
    assert_eq!(LineEnding::default(), LineEnding::Lf);
}
