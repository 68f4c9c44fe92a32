use alloy_studio::gradle::{
    gradle_args, looks_like_ftc_root, parse_sdk_version, pick_team_code_dir, team_code_candidates,
    BuildSession, FtcProject, GradleError, GradleTask, CANCELLED_EXIT_CODE, MAX_PARENT_LEVELS,
};
use alloy_studio::types::BuildEvent;

#[test]
fn task_names_and_arguments() {
    assert_eq!(GradleTask::AssembleDebug.as_str(), "assembleDebug");
    assert_eq!(GradleTask::Custom("lint".into()).as_str(), "lint");
    let args = gradle_args(&[GradleTask::CleanBuild, GradleTask::InstallDebug]);
    assert_eq!(args, vec!["clean", "build", "installDebug", "--no-daemon", "--console=plain"]);
    let args = gradle_args(&[GradleTask::Custom("  a  b ".into())]);
    assert_eq!(args, vec!["a", "b", "--no-daemon", "--console=plain"]);
}

#[test]
fn session_reports_lines_and_errors() {
    let mut s = BuildSession::new();
    let evs = s.on_line("> Task :TeamCode:compileDebugJavaWithJavac".to_string());
    assert_eq!(evs.len(), 1);
    assert!(matches!(&evs[0], BuildEvent::OutputLine(l) if l.starts_with("> Task")));
    let evs = s.on_line("Foo.java:12: error: cannot find symbol".to_string());
    assert_eq!(evs.len(), 2);
    assert!(matches!(&evs[1], BuildEvent::ErrorDetected(e) if e.line == Some(12)));
    match s.finish(CANCELLED_EXIT_CODE) {
        BuildEvent::Finished { exit_code, errors } => {
            assert_eq!(exit_code, -1);
            assert_eq!(errors.len(), 1);
        }
        _ => panic!("expected Finished"),
    }
}

#[test]
fn ftc_root_recognition() {
    assert!(!looks_like_ftc_root(false, Some("FtcRobotController"), None, true, true));
    assert!(looks_like_ftc_root(true, Some("implementation 'com.qualcomm.robotcore:x'"), None, false, false));
    assert!(looks_like_ftc_root(true, None, Some("include ':TeamCode'"), false, false));
    assert!(looks_like_ftc_root(true, None, None, false, true));
    assert!(!looks_like_ftc_root(true, Some("plain"), Some("plain"), false, false));
}

#[test]
fn sdk_version_and_layout() {
    assert_eq!(
        parse_sdk_version("implementation 'org.firstinspires.ftc:ftc-sdk:9.2.0'").as_deref(),
        Some("9.2.0")
    );
    assert_eq!(parse_sdk_version("nothing"), None);
    let c = team_code_candidates("/p");
    assert_eq!(c, vec!["/p/TeamCode/src/main/java", "/p/FtcRobotController/TeamCode/src/main/java", "/p/src/main/java"]);
    assert_eq!(pick_team_code_dir(&c, &vec![false, true, true]), "/p/FtcRobotController/TeamCode/src/main/java");
    assert_eq!(pick_team_code_dir(&c, &vec![false, false, false]), "/p/TeamCode/src/main/java");
}

#[test]
fn project_from_root() {
    let err = FtcProject::from_root("/p", false, None, "/p/t".into(), false, false).unwrap_err();
    assert_eq!(err, GradleError::GradlewNotFound { path: "/p".into() });
    assert_eq!(err.message(), "gradlew not found in: /p");
    let p = FtcProject::from_root("/p", true, Some("ftc-sdk:10.1"), "/p/t".into(), true, true).unwrap();
    assert_eq!(p.gradlew_path(), "/p/gradlew");
    assert_eq!(p.build_gradle, "/p/build.gradle");
    assert_eq!(p.sdk_version.as_deref(), Some("10.1"));
    assert_eq!(p.local_properties.as_deref(), Some("/p/local.properties"));
    assert_eq!(GradleError::BuildFailed(-3).message(), "build failed with exit code -3");
}

#[test]
fn project_search_takes_the_nearest_qualifying_level() {
    assert_eq!(FtcProject::detect_level("/w/p/TeamCode", &vec![false, true, true]), Ok(1));
    assert_eq!(FtcProject::detect_level("/w", &vec![true]), Ok(0));
    let mut far = vec![false; MAX_PARENT_LEVELS];
    far.push(true);
    assert_eq!(
        FtcProject::detect_level("/a/b", &far),
        Err(GradleError::NotFtcProject { path: "/a/b".into() })
    );
    assert_eq!(
        FtcProject::detect_level("/x", &vec![false, false]),
        Err(GradleError::NotFtcProject { path: "/x".into() })
    );
    let mut last = vec![false; MAX_PARENT_LEVELS - 1];
    last.push(true);
    assert_eq!(FtcProject::detect_level("/a", &last), Ok(MAX_PARENT_LEVELS - 1));
}
