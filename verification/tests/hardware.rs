use alloy_studio::hardware::{shorthand_to_type, HardwareConfig, PortAssignment};

#[test]
fn camel_case_conversion() {
    assert_eq!(HardwareConfig::config_name_to_var_name("left_drive"), "leftDrive");
    assert_eq!(HardwareConfig::config_name_to_var_name("arm_servo"), "armServo");
    assert_eq!(HardwareConfig::config_name_to_var_name("motor1"), "motor1");
    assert_eq!(HardwareConfig::config_name_to_var_name("front_left_wheel"), "frontLeftWheel");
}

#[test]
fn format_java_block() {
    let config = HardwareConfig::from_port_assignments(&[PortAssignment {
        hub: 0,
        port: 0,
        device_type: "DcMotor".into(),
        config_name: "left_drive".into(),
        variable_name: "leftDrive".into(),
    }]);
    let block = config.format_java_block();
    assert!(block.contains("DcMotor leftDrive = hardwareMap.get(DcMotor.class, \"left_drive\");"));
}

#[test]
fn format_kotlin_block() {
    let config = HardwareConfig::from_port_assignments(&[PortAssignment {
        hub: 0,
        port: 0,
        device_type: "Servo".into(),
        config_name: "arm_servo".into(),
        variable_name: "armServo".into(),
    }]);
    let block = config.format_kotlin_block();
    assert!(block.contains("val armServo = hardwareMap.get(Servo::class.java, \"arm_servo\")"));
}

#[test]
fn from_port_assignments() {
    let assignments = vec![
        PortAssignment {
            hub: 0,
            port: 0,
            device_type: "DcMotor".into(),
            config_name: "motor1".into(),
            variable_name: "motor1".into(),
        },
        PortAssignment {
            hub: 1,
            port: 2,
            device_type: "Servo".into(),
            config_name: "servo_a".into(),
            variable_name: "servoA".into(),
        },
    ];
    let config = HardwareConfig::from_port_assignments(&assignments);
    assert_eq!(config.declarations.len(), 2);
    assert_eq!(config.declarations[0].device_type, "DcMotor");
    assert_eq!(config.declarations[1].device_type, "Servo");
}

#[test]
fn java_block_joins_lines_without_trailing_newline() {
    let config = HardwareConfig::from_port_assignments(&[
        PortAssignment { hub: 0, port: 0, device_type: "DcMotor".into(), config_name: "a".into(), variable_name: "a".into() },
        PortAssignment { hub: 0, port: 1, device_type: "Servo".into(), config_name: "b".into(), variable_name: "b".into() },
    ]);
    assert_eq!(
        config.format_java_block(),
        "DcMotor a = hardwareMap.get(DcMotor.class, \"a\");\nServo b = hardwareMap.get(Servo.class, \"b\");"
    );
    let empty = HardwareConfig::from_port_assignments(&[]);
    assert_eq!(empty.format_kotlin_block(), "");
}

#[test]
fn camel_case_handles_dashes_and_repeats() {
    assert_eq!(HardwareConfig::config_name_to_var_name("arm-servo_2"), "armServo2");
    assert_eq!(HardwareConfig::config_name_to_var_name("__x"), "X");
    assert_eq!(HardwareConfig::config_name_to_var_name("trailing_"), "trailing");
}

#[test]
fn shorthand_types() {
    assert_eq!(shorthand_to_type("dcMotor"), "DcMotor");
    assert_eq!(shorthand_to_type("imu"), "IMU");
    assert_eq!(shorthand_to_type("distanceSensor"), "DistanceSensor");
    assert_eq!(shorthand_to_type("gamepad"), "Unknown");
}

#[test]
fn parse_hardware_map_get() {
    let content = r#"
DcMotor leftDrive = hardwareMap.get(DcMotor.class, "left_drive");
Servo armServo = hardwareMap.get(Servo.class, "arm_servo");
"#;
    let config = HardwareConfig::parse_java_source(content);
    assert_eq!(config.declarations.len(), 2);
    assert_eq!(config.declarations[0].config_name, "left_drive");
    assert_eq!(config.declarations[0].device_type, "DcMotor");
    assert_eq!(config.declarations[1].config_name, "arm_servo");
    assert_eq!(config.declarations[1].device_type, "Servo");
}

#[test]
fn parse_hardware_map_try_get() {
    let content = r#"
DcMotor m = hardwareMap.tryGet(DcMotor.class, "motor_a");
"#;
    let config = HardwareConfig::parse_java_source(content);
    assert_eq!(config.declarations.len(), 1);
    assert_eq!(config.declarations[0].config_name, "motor_a");
}

#[test]
fn parse_shorthand_hardware_map() {
    let content = r#"
DcMotor m = hardwareMap.dcMotor.get("intake_motor");
Servo s = hardwareMap.servo.get("gripper");
"#;
    let config = HardwareConfig::parse_java_source(content);
    assert_eq!(config.declarations.len(), 2);
    assert_eq!(config.declarations[0].device_type, "DcMotor");
    assert_eq!(config.declarations[0].config_name, "intake_motor");
    assert_eq!(config.declarations[1].device_type, "Servo");
    assert_eq!(config.declarations[1].config_name, "gripper");
}

#[test]
fn deduplicates_same_device() {
    let content = r#"
DcMotor m1 = hardwareMap.get(DcMotor.class, "motor_a");
DcMotor m2 = hardwareMap.get(DcMotor.class, "motor_a");
"#;
    let config = HardwareConfig::parse_java_source(content);
    assert_eq!(config.declarations.len(), 1);
}

#[test]
fn parsed_declarations_are_ordered_by_line() {
    let content = "x\nServo s = hardwareMap.servo.get(\"claw_grip\");\nDcMotor m = hardwareMap.tryGet(DcMotor.class, \"lift\");\nIMU i = hardwareMap.get(IMU.class, \"imu\");\nServo t = hardwareMap.get(Servo.class, \"claw_grip\");\n";
    let config = HardwareConfig::parse_java_source(content);
    let got: Vec<(u32, &str, &str, &str)> = config
        .declarations
        .iter()
        .map(|d| (d.line, d.device_type.as_str(), d.config_name.as_str(), d.variable_name.as_str()))
        .collect();
    // The `get` reference to Servo:claw_grip (line 5) is found first, so the
    // shorthand one on line 2 is the duplicate that is dropped.
    assert_eq!(
        got,
        vec![(3, "DcMotor", "lift", "lift"), (4, "IMU", "imu", "imu"), (5, "Servo", "claw_grip", "clawGrip")]
    );
}
