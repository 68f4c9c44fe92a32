use alloy_studio::repair::{RepairEngine, RepairPatch};
use alloy_studio::types::{BuildError, BuildErrorKind};

fn make_error(message: &str, kind: BuildErrorKind) -> BuildError {
    BuildError { file: None, line: None, column: None, message: message.into(), kind }
}

#[test]
fn diagnoses_sdk_resolve_error() {
    let engine = RepairEngine::new();
    let errors = vec![make_error("Could not resolve com.qualcomm.robotcore:ftc-sdk:9.1.0", BuildErrorKind::Sdk)];
    let suggestions = engine.diagnose(&errors);
    assert!(!suggestions.is_empty());
    assert_eq!(suggestions[0].id, "could-not-resolve-sdk");
    assert!(suggestions[0].auto_applicable);
}

#[test]
fn diagnoses_java_compat_error() {
    let engine = RepairEngine::new();
    let errors = vec![make_error("Unsupported class file major version 61", BuildErrorKind::Compile)];
    let suggestions = engine.diagnose(&errors);
    assert!(!suggestions.is_empty());
    assert_eq!(suggestions[0].id, "java-source-compat");
}

#[test]
fn deduplicates_suggestions() {
    let engine = RepairEngine::new();
    let errors = vec![
        make_error("error: cannot find symbol", BuildErrorKind::Compile),
        make_error("error: cannot find symbol", BuildErrorKind::Compile),
    ];
    let suggestions = engine.diagnose(&errors);
    let count = suggestions.iter().filter(|s| s.id == "compile-error-generic").count();
    assert_eq!(count, 1);
}

#[test]
fn diagnoses_duplicate_class() {
    let engine = RepairEngine::new();
    let errors = vec![make_error("Duplicate class com.example.Foo found in ...", BuildErrorKind::Gradle)];
    let suggestions = engine.diagnose(&errors);
    assert!(suggestions.iter().any(|s| s.id == "duplicate-class"));
}

#[test]
fn no_suggestions_for_unrecognised_error() {
    let engine = RepairEngine::new();
    let errors = vec![make_error("some completely unknown error xyz 99999", BuildErrorKind::Gradle)];
    let suggestions = engine.diagnose(&errors);
    assert!(suggestions.is_empty());
}

#[test]
fn annotation_processor_patch_is_gradle_command() {
    let engine = RepairEngine::new();
    let errors = vec![make_error("Annotation processor error in processing", BuildErrorKind::Compile)];
    let suggestions = engine.diagnose(&errors);
    let s = suggestions.iter().find(|s| s.id == "annotation-processor").unwrap();
    assert!(matches!(s.patch, RepairPatch::GradleCommand { .. }));
    assert!(s.auto_applicable);
}

#[test]
fn suggestions_sorted_by_confidence() {
    let engine = RepairEngine::new();
    let errors = vec![
        make_error("error: cannot find symbol", BuildErrorKind::Compile),
        make_error("Could not resolve com.qualcomm.robotcore:ftc-sdk:9.1", BuildErrorKind::Sdk),
        make_error("JAVA_HOME not found", BuildErrorKind::Gradle),
    ];
    let ids: Vec<String> = engine.diagnose(&errors).into_iter().map(|s| s.id).collect();
    assert_eq!(
        ids,
        vec!["java-home-not-set", "could-not-resolve-sdk", "sdk-version-deprecated", "compile-error-generic"]
    );
}

#[test]
fn suggestion_texts_and_patches() {
    let engine = RepairEngine::new();
    let s = engine.diagnose(&[make_error("Could not resolve com.qualcomm.robotcore:ftc-sdk:9.1.0", BuildErrorKind::Sdk)]);
    assert_eq!(s[0].title, "FTC SDK version not found");
    assert_eq!(s[0].patch, RepairPatch::GradleCommand { args: vec!["--refresh-dependencies".to_string()] });
    let s = engine.diagnose(&[make_error("APT error in module", BuildErrorKind::Compile)]);
    assert_eq!(s[0].id, "annotation-processor");
    assert_eq!(s[0].description, "An annotation processor failed during compilation.");
    assert_eq!(s[0].patch, RepairPatch::GradleCommand { args: vec!["--rerun-tasks".to_string(), "build".to_string()] });
    let s = engine.diagnose(&[make_error("JAVA_HOME not found", BuildErrorKind::Compile)]);
    assert_eq!(s[0].title, "JAVA_HOME not configured");
    match &s[0].patch {
        RepairPatch::Instructions(t) => assert!(t.starts_with("Set JAVA_HOME to your JDK directory:")),
        other => panic!("unexpected patch {other:?}"),
    }
}
