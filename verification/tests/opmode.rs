use alloy_studio::opmode::{OpModeKind, OpModeScanner};

fn scan(content: &str) -> Vec<alloy_studio::opmode::OpModeInfo> {
    OpModeScanner::scan_source("/tmp/team/Sample.java", content)
}

#[test]
fn scans_teleop_annotation() {
    let content = r#"
package org.firstinspires.ftc.teamcode;

import com.qualcomm.robotcore.eventloop.opmode.TeleOp;

@TeleOp(name = "My Drive", group = "Drive")
public class MyDrive extends LinearOpMode {
    public void runOpMode() {}
}
"#;
    let opmodes = scan(content);
    assert_eq!(opmodes.len(), 1);
    let op = &opmodes[0];
    assert_eq!(op.display_name, "My Drive");
    assert_eq!(op.kind, OpModeKind::TeleOp);
    assert_eq!(op.group.as_deref(), Some("Drive"));
    assert!(!op.is_disabled);
    assert_eq!(op.package.as_deref(), Some("org.firstinspires.ftc.teamcode"));
    assert_eq!(op.class_name, "MyDrive");
}

#[test]
fn scans_autonomous_annotation() {
    let content = r#"
package org.firstinspires.ftc.teamcode;

@Autonomous(name = "Red Auto", group = "Auto")
public class RedAuto extends OpMode {
    public void init() {}
    public void loop() {}
}
"#;
    let opmodes = scan(content);
    assert_eq!(opmodes.len(), 1);
    let op = &opmodes[0];
    assert_eq!(op.display_name, "Red Auto");
    assert_eq!(op.kind, OpModeKind::Autonomous);
}

#[test]
fn scans_disabled_opmode() {
    let content = r#"
@Disabled
@TeleOp(name = "Debug TeleOp")
public class DebugTeleOp extends LinearOpMode {
    public void runOpMode() {}
}
"#;
    let opmodes = scan(content);
    assert_eq!(opmodes.len(), 1);
    assert!(opmodes[0].is_disabled);
}

#[test]
fn scans_multiple_opmodes_in_one_file() {
    let content = r#"
@TeleOp(name = "TeleOp A")
class TeleOpA extends LinearOpMode { public void runOpMode() {} }

@Autonomous(name = "Auto B")
class AutoB extends LinearOpMode { public void runOpMode() {} }
"#;
    let opmodes = scan(content);
    assert_eq!(opmodes.len(), 2);
    assert_eq!(opmodes[0].kind, OpModeKind::TeleOp);
    assert_eq!(opmodes[1].kind, OpModeKind::Autonomous);
}

#[test]
fn line_numbers_are_correct() {
    let content = "package foo;\n\n@TeleOp(name = \"X\")\npublic class X extends OpMode {}\n";
    let opmodes = scan(content);
    assert_eq!(opmodes.len(), 1);
    assert_eq!(opmodes[0].line, 3);
}

#[test]
fn no_opmodes_in_plain_class() {
    let content = r#"
public class Helper {
    public static void doSomething() {}
}
"#;
    let opmodes = scan(content);
    assert!(opmodes.is_empty());
}

// --- Further cases ------------------------------------------------------------

#[test]
fn class_name_falls_back_to_file_stem() {
    let content = "@TeleOp(name = \"Loose\")\nclass Helper {}\n";
    let opmodes = scan(content);
    assert_eq!(opmodes.len(), 1);
    assert_eq!(opmodes[0].class_name, "Sample");
    assert_eq!(opmodes[0].group, None);
    assert_eq!(opmodes[0].package, None);
    assert_eq!(opmodes[0].file, "/tmp/team/Sample.java");
}

#[test]
fn disabled_far_above_is_ignored() {
    let content = "@Disabled\n\n\n// spacer\n@TeleOp(name = \"Far\")\nclass Far extends OpMode {}\n";
    let opmodes = scan(content);
    assert_eq!(opmodes.len(), 1);
    assert!(!opmodes[0].is_disabled);
    assert!(OpModeScanner::is_source_file("A.kt"));
    assert!(!OpModeScanner::is_source_file("A.txt"));
}
