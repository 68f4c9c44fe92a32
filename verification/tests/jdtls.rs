use alloy_studio::jdtls::{
    config_dir_names, is_jar, is_launcher_name, jdt_core_prefs, pick_source_paths,
    source_path_candidates, FtcJdtlsConfig, FtcSdkLocator,
};

#[test]
fn read_local_properties_parses_sdk_dir() {
    let text = "# comment\nsdk.dir=/opt/android/sdk\n";
    assert_eq!(FtcSdkLocator::sdk_dir_from_local_properties(text), Some("/opt/android/sdk".to_string()));
}

#[test]
fn find_ftc_jars_finds_jars_in_libs() {
    let names = ["libs/RobotCore.jar", "libs/Hardware.jar", "libs/not-a-jar.txt"];
    let jars: Vec<&str> = names.iter().copied().filter(|n| is_jar(n)).collect();
    assert_eq!(jars.len(), 2);
}

#[test]
fn local_properties_edge_cases() {
    assert_eq!(FtcSdkLocator::sdk_dir_from_local_properties("  sdk.dir= C\\:\\\\Android  \n"), Some("C:\\\\Android".to_string()));
    assert_eq!(FtcSdkLocator::sdk_dir_from_local_properties("#sdk.dir=/x\n\nother=1"), None);
    assert_eq!(
        FtcSdkLocator::sdk_dir_from_local_properties("sdk.dir=/first\nsdk.dir=/second"),
        Some("/first".to_string())
    );
}

#[test]
fn launcher_and_config_names() {
    assert!(is_launcher_name("org.eclipse.equinox.launcher_1.6.400.jar"));
    assert!(!is_launcher_name("org.eclipse.equinox.launcher.gtk.jar"));
    assert!(!is_launcher_name("org.eclipse.equinox.launcher_1.6.400.txt"));
    assert_eq!(config_dir_names("mac"), vec!["config_mac", "config_mac_arm", "config_mac64"]);
}

#[test]
fn source_paths_fall_back_to_root() {
    let c = source_path_candidates("/p");
    assert_eq!(c, vec!["/p/TeamCode/src/main/java", "/p/FtcRobotController/src/main/java", "/p/src/main/java", "/p/src"]);
    assert_eq!(pick_source_paths("/p", &c, &vec![false, false, true, true]), vec!["/p/src/main/java", "/p/src"]);
    assert_eq!(pick_source_paths("/p", &c, &vec![false; 4]), vec!["/p"]);
}

#[test]
fn server_args_and_classpath_file() {
    let cfg = FtcJdtlsConfig {
        jdtls_home: "/jdtls".into(),
        workspace_data_dir: "/data/ws".into(),
        source_paths: vec!["/p/src".into()],
        classpath: vec!["/p/libs/Robot.jar".into()],
        jvm_heap_mb: 513,
    };
    assert_eq!(
        cfg.server_start_args(Some("/jdtls/plugins/l.jar"), None),
        vec![
            "-Xms256m",
            "-Xmx513m",
            "--add-modules=ALL-SYSTEM",
            "--add-opens=java.base/java.util=ALL-UNNAMED",
            "--add-opens=java.base/java.lang=ALL-UNNAMED",
            "-jar",
            "/jdtls/plugins/l.jar",
            "-configuration",
            "/jdtls/config_linux",
            "-data",
            "/data/ws",
        ]
    );
    let args = cfg.server_start_args(None, Some("/jdtls/config_mac"));
    assert_eq!(args[5], "-configuration");
    assert_eq!(args[6], "/jdtls/config_mac");
    let xml = cfg.classpath_xml();
    assert!(xml.starts_with("<?xml version=\"1.0\" encoding=\"UTF-8\"?>\n<classpath>\n"));
    assert!(xml.contains("  <classpathentry kind=\"src\" path=\"/p/src\"/>\n"));
    assert!(xml.contains("  <classpathentry kind=\"lib\" path=\"/p/libs/Robot.jar\"/>\n"));
    assert!(xml.ends_with("  <classpathentry kind=\"output\" path=\"bin\"/>\n</classpath>\n"));
    assert!(jdt_core_prefs().contains("compliance=1.8"));
}
