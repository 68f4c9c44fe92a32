//! Hardware map declarations: extraction from FTC source and code generation.
use vstd::prelude::*;
use crate::text::{chars_of, join_lines, owned, push_char, push_str, str_eq};
use crate::patterns::{captures_all, compile, groups_view, regex_captures_all, regex_valid};
use crate::source_scan::{line_of_offset, line_of_offset_spec};

verus! {

/// The Java type named by a `hardwareMap.<shorthand>` accessor.
pub open spec fn shorthand_type(s: Seq<char>) -> Seq<char> {
    if s == "dcMotor"@ { "DcMotor"@ }
    else if s == "servo"@ { "Servo"@ }
    else if s == "colorSensor"@ { "ColorSensor"@ }
    else if s == "touchSensor"@ { "TouchSensor"@ }
    else if s == "distanceSensor"@ { "DistanceSensor"@ }
    else if s == "imu"@ { "IMU"@ }
    else { "Unknown"@ }
}

/// `s` with its first char, a lowercase ASCII letter, made uppercase.
pub open spec fn capitalised(s: Seq<char>) -> Seq<char> {
    seq![((s[0] as u32) - 32) as char] + s.drop_first()
}

/// Every accessor the shorthand pattern accepts (`dcMotor`, `servo`,
/// `colorSensor`, `touchSensor`, `distanceSensor`, `imu`) names a known type,
/// never `"Unknown"`: the accessor with its first letter capitalised, except
/// `imu`, whose type is all capitals.
pub proof fn lemma_shorthands_name_their_types(s: Seq<char>)
    requires
        s == "dcMotor"@ || s == "servo"@ || s == "colorSensor"@ || s == "touchSensor"@
            || s == "distanceSensor"@ || s == "imu"@,
    ensures
        shorthand_type(s) != "Unknown"@,
        s != "imu"@ ==> shorthand_type(s) == capitalised(s),
        s == "imu"@ ==> shorthand_type(s) == "IMU"@,
{
    reveal_strlit("dcMotor");
    reveal_strlit("servo");
    reveal_strlit("colorSensor");
    reveal_strlit("touchSensor");
    reveal_strlit("distanceSensor");
    reveal_strlit("imu");
    reveal_strlit("DcMotor");
    reveal_strlit("Servo");
    reveal_strlit("ColorSensor");
    reveal_strlit("TouchSensor");
    reveal_strlit("DistanceSensor");
    reveal_strlit("IMU");
    reveal_strlit("Unknown");
    assert(capitalised("dcMotor"@) =~= "DcMotor"@);
    assert(capitalised("servo"@) =~= "Servo"@);
    assert(capitalised("colorSensor"@) =~= "ColorSensor"@);
    assert(capitalised("touchSensor"@) =~= "TouchSensor"@);
    assert(capitalised("distanceSensor"@) =~= "DistanceSensor"@);
    assert("DcMotor"@[0] != "Unknown"@[0]);
    assert("Servo"@.len() != "Unknown"@.len());
    assert("ColorSensor"@.len() != "Unknown"@.len());
    assert("TouchSensor"@.len() != "Unknown"@.len());
    assert("DistanceSensor"@.len() != "Unknown"@.len());
    assert("IMU"@.len() != "Unknown"@.len());
}

/// Maps a `hardwareMap` shorthand accessor name to its Java type name.
pub fn shorthand_to_type(shorthand: &str) -> (t: &'static str)
    ensures
        t@ == shorthand_type(shorthand@),
{
    if str_eq(shorthand, "dcMotor") { "DcMotor" }
    else if str_eq(shorthand, "servo") { "Servo" }
    else if str_eq(shorthand, "colorSensor") { "ColorSensor" }
    else if str_eq(shorthand, "touchSensor") { "TouchSensor" }
    else if str_eq(shorthand, "distanceSensor") { "DistanceSensor" }
    else if str_eq(shorthand, "imu") { "IMU" }
    else { "Unknown" }
}

/// What `char::to_uppercase` yields for `c`.
pub uninterp spec fn char_uppercase(c: char) -> Seq<char>;

/// `char::to_uppercase`, collected into a `String`.
///
/// States that the result is `char_uppercase(c)`, and, as the standard library
/// documents for ASCII, that a lowercase ASCII letter maps to its capital and
/// every other ASCII char, having no uppercase mapping, to itself.
#[verifier::external_body]
fn uppercase_of(c: char) -> (r: String)
    ensures
        r@ == char_uppercase(c),
        'a' <= c <= 'z' ==> r@ == seq![((c as u32) - 32) as char],
        (c as u32) < 128 && !('a' <= c <= 'z') ==> r@ == seq![c],
{
    c.to_uppercase().collect()
}

/// The camelCase form of the rest of a config name: `_` and `-` are dropped and
/// the character after them is upper-cased.
pub open spec fn camel_from(s: Seq<char>, cap: bool) -> Seq<char>
    decreases s.len(),
{
    if s.len() == 0 {
        seq![]
    } else {
        let c = s[0];
        if c == '_' || c == '-' {
            camel_from(s.drop_first(), true)
        } else if cap {
            char_uppercase(c) + camel_from(s.drop_first(), false)
        } else {
            seq![c] + camel_from(s.drop_first(), false)
        }
    }
}

/// One declaration line of generated Java code.
pub open spec fn java_line(d: DeviceDeclaration) -> Seq<char> {
    d.device_type@ + " "@ + d.variable_name@ + " = hardwareMap.get("@ + d.device_type@
        + ".class, \""@ + d.config_name@ + "\");"@
}

/// One declaration line of generated Kotlin code.
pub open spec fn kotlin_line(d: DeviceDeclaration) -> Seq<char> {
    "val "@ + d.variable_name@ + " = hardwareMap.get("@ + d.device_type@ + "::class.java, \""@
        + d.config_name@ + "\")"@
}

/// A single hardware device referenced in source code.
#[derive(Debug, Clone, PartialEq)]
pub struct DeviceDeclaration {
    /// Variable name used in Java/Kotlin code.
    pub variable_name: String,
    /// Java type, e.g. `"DcMotor"`.
    pub device_type: String,
    /// Name in the robot controller hardware config, e.g. `"left_drive"`.
    pub config_name: String,
    /// 1-based line of the `hardwareMap` call (0 when the declaration has no source).
    pub line: u32,
}

/// A port assignment from the visual mapper.
#[derive(Debug, Clone, PartialEq)]
pub struct PortAssignment {
    /// 0 = Control Hub, 1 = Expansion Hub.
    pub hub: u8,
    pub port: u8,
    pub device_type: String,
    pub config_name: String,
    pub variable_name: String,
}

/// Hardware declarations extracted from a source file or from port assignments.
pub struct HardwareConfig {
    pub declarations: Vec<DeviceDeclaration>,
}

impl HardwareConfig {
    /// One declaration per port assignment, in order, each with line 0.
    pub fn from_port_assignments(assignments: &[PortAssignment]) -> (c: Self)
        ensures
            c.declarations@.len() == assignments@.len(),
            forall|i: int| 0 <= i < assignments@.len() ==> {
                let d = #[trigger] c.declarations@[i];
                let a = assignments@[i];
                &&& d.variable_name@ == a.variable_name@
                &&& d.device_type@ == a.device_type@
                &&& d.config_name@ == a.config_name@
                &&& d.line == 0
            },
    {
        let mut declarations: Vec<DeviceDeclaration> = Vec::new();
        let mut i: usize = 0;
        while i < assignments.len()
            invariant
                i <= assignments@.len(),
                declarations@.len() == i,
                forall|j: int| 0 <= j < i ==> {
                    let d = #[trigger] declarations@[j];
                    let a = assignments@[j];
                    &&& d.variable_name@ == a.variable_name@
                    &&& d.device_type@ == a.device_type@
                    &&& d.config_name@ == a.config_name@
                    &&& d.line == 0
                },
            decreases assignments@.len() - i,
        {
            let a = &assignments[i];
            declarations.push(DeviceDeclaration {
                variable_name: a.variable_name.clone(),
                device_type: a.device_type.clone(),
                config_name: a.config_name.clone(),
                line: 0,
            });
            i += 1;
        }
        HardwareConfig { declarations }
    }

    /// The declarations as Java statements, one per line.
    pub fn format_java_block(&self) -> (s: String)
        ensures
            s@ == join_lines(self.declarations@.map_values(|d: DeviceDeclaration| java_line(d))),
    {
        let ghost lines = self.declarations@.map_values(|d: DeviceDeclaration| java_line(d));
        let mut out = String::new();
        let mut i: usize = 0;
        while i < self.declarations.len()
            invariant
                i <= self.declarations@.len(),
                lines == self.declarations@.map_values(|d: DeviceDeclaration| java_line(d)),
                out@ == join_lines(lines.take(i as int)),
            decreases self.declarations@.len() - i,
        {
            let d = &self.declarations[i];
            if i > 0 {
                push_char(&mut out, '\n');
            }
            push_str(&mut out, d.device_type.as_str());
            push_str(&mut out, " ");
            push_str(&mut out, d.variable_name.as_str());
            push_str(&mut out, " = hardwareMap.get(");
            push_str(&mut out, d.device_type.as_str());
            push_str(&mut out, ".class, \"");
            push_str(&mut out, d.config_name.as_str());
            push_str(&mut out, "\");");
            proof {
                assert(lines.take(i + 1).drop_last() == lines.take(i as int));
                assert(lines.take(i + 1).last() == java_line(self.declarations@[i as int]));
                if i == 0 {
                    assert(lines.take(1) == seq![java_line(self.declarations@[0])]);
                }
            }
            i += 1;
        }
        assert(lines.take(self.declarations@.len() as int) == lines);
        out
    }

    /// The declarations as Kotlin statements, one per line.
    pub fn format_kotlin_block(&self) -> (s: String)
        ensures
            s@ == join_lines(self.declarations@.map_values(|d: DeviceDeclaration| kotlin_line(d))),
    {
        let ghost lines = self.declarations@.map_values(|d: DeviceDeclaration| kotlin_line(d));
        let mut out = String::new();
        let mut i: usize = 0;
        while i < self.declarations.len()
            invariant
                i <= self.declarations@.len(),
                lines == self.declarations@.map_values(|d: DeviceDeclaration| kotlin_line(d)),
                out@ == join_lines(lines.take(i as int)),
            decreases self.declarations@.len() - i,
        {
            let d = &self.declarations[i];
            if i > 0 {
                push_char(&mut out, '\n');
            }
            push_str(&mut out, "val ");
            push_str(&mut out, d.variable_name.as_str());
            push_str(&mut out, " = hardwareMap.get(");
            push_str(&mut out, d.device_type.as_str());
            push_str(&mut out, "::class.java, \"");
            push_str(&mut out, d.config_name.as_str());
            push_str(&mut out, "\")");
            proof {
                assert(lines.take(i + 1).drop_last() == lines.take(i as int));
                assert(lines.take(i + 1).last() == kotlin_line(self.declarations@[i as int]));
                if i == 0 {
                    assert(lines.take(1) == seq![kotlin_line(self.declarations@[0])]);
                }
            }
            i += 1;
        }
        assert(lines.take(self.declarations@.len() as int) == lines);
        out
    }

    /// The camelCase variable name for a snake_case config name:
    /// `"left_drive"` becomes `"leftDrive"`, `"arm_servo_2"` becomes `"armServo2"`.
    pub fn config_name_to_var_name(config_name: &str) -> (s: String)
        ensures
            s@ == camel_from(config_name@, false),
    {
        let cs = chars_of(config_name);
        let mut result = String::new();
        let mut capitalise_next = false;
        let mut i: usize = 0;
        assert(cs@.skip(0) == cs@);
        assert(result@ + camel_from(cs@.skip(0), false) == camel_from(cs@, false));
        while i < cs.len()
            invariant
                cs@ == config_name@,
                i <= cs@.len(),
                result@ + camel_from(cs@.skip(i as int), capitalise_next) == camel_from(cs@, false),
            decreases cs@.len() - i,
        {
            let ch = cs[i];
            proof {
                assert(cs@.skip(i as int).drop_first() == cs@.skip(i + 1));
                assert(cs@.skip(i as int)[0] == ch);
            }
            if ch == '_' || ch == '-' {
                capitalise_next = true;
            } else if capitalise_next {
                let up = uppercase_of(ch);
                push_str(&mut result, up.as_str());
                capitalise_next = false;
            } else {
                push_char(&mut result, ch);
            }
            i += 1;
        }
        assert(cs@.skip(0) == cs@);
        result
    }
}


// ── Parsing source ──────────────────────────────────────────────────────────

/// `hardwareMap.get(Type.class, "name")`.
pub open spec fn get_pattern() -> Seq<char> {
    "hardwareMap\\.get\\(\\s*(\\w+(?:\\.\\w+)*?)\\.class\\s*,\\s*\"([^\"]+)\"\\s*\\)"@
}

/// `hardwareMap.tryGet(Type.class, "name")`.
pub open spec fn try_get_pattern() -> Seq<char> {
    "hardwareMap\\.tryGet\\(\\s*(\\w+(?:\\.\\w+)*?)\\.class\\s*,\\s*\"([^\"]+)\"\\s*\\)"@
}

/// `hardwareMap.dcMotor.get("name")` and the other shorthand accessors.
pub open spec fn shorthand_pattern() -> Seq<char> {
    "hardwareMap\\.(dcMotor|servo|colorSensor|touchSensor|distanceSensor|imu)\\s*\\.\\s*get\\s*\\(\\s*\"([^\"]+)\"\\s*\\)"@
}

/// Whether the three patterns are accepted by the `regex` crate.
pub open spec fn hardware_patterns_valid() -> bool {
    regex_valid(get_pattern()) && regex_valid(try_get_pattern()) && regex_valid(shorthand_pattern())
}

/// The text of capture group `i` (empty when the group did not take part).
pub open spec fn group_text(g: Seq<Option<Seq<char>>>, i: int) -> Seq<char> {
    if 0 <= i < g.len() && g[i] is Some {
        g[i]->0
    } else {
        Seq::<char>::empty()
    }
}

/// A device reference found in source: its type, config name and byte offset.
pub struct FoundDevice {
    pub device_type: Seq<char>,
    pub config_name: Seq<char>,
    pub offset: nat,
}

/// The references a pattern finds; for the shorthand pattern, the type is the
/// one its accessor names.
pub open spec fn found_by(pattern: Seq<char>, content: Seq<char>, shorthand: bool) -> Seq<FoundDevice> {
    regex_captures_all(pattern, content).map_values(
        |c: (nat, Seq<Option<Seq<char>>>)|
            FoundDevice {
                device_type: if shorthand {
                    shorthand_type(group_text(c.1, 1))
                } else {
                    group_text(c.1, 1)
                },
                config_name: group_text(c.1, 2),
                offset: c.0,
            },
    )
}

/// All references: `get` calls, then `tryGet` calls, then shorthand accessors.
pub open spec fn all_found(content: Seq<char>) -> Seq<FoundDevice> {
    found_by(get_pattern(), content, false) + found_by(try_get_pattern(), content, false) + found_by(
        shorthand_pattern(),
        content,
        true,
    )
}

/// The key by which repeated references are recognised: `type:name`.
pub open spec fn device_key(f: FoundDevice) -> Seq<char> {
    f.device_type + seq![':'] + f.config_name
}

/// `items` without the references whose key is in `seen` or appeared earlier.
pub open spec fn dedupe_found(items: Seq<FoundDevice>, seen: Seq<Seq<char>>) -> Seq<FoundDevice>
    decreases items.len(),
{
    if items.len() == 0 {
        Seq::<FoundDevice>::empty()
    } else if seen.contains(device_key(items[0])) {
        dedupe_found(items.drop_first(), seen)
    } else {
        seq![items[0]] + dedupe_found(items.drop_first(), seen.push(device_key(items[0])))
    }
}

/// The mathematical value of a [`DeviceDeclaration`].
pub struct DeclView {
    pub variable_name: Seq<char>,
    pub device_type: Seq<char>,
    pub config_name: Seq<char>,
    pub line: u32,
}

pub open spec fn decl_view(d: DeviceDeclaration) -> DeclView {
    DeclView {
        variable_name: d.variable_name@,
        device_type: d.device_type@,
        config_name: d.config_name@,
        line: d.line,
    }
}

pub open spec fn decls_view(v: Seq<DeviceDeclaration>) -> Seq<DeclView> {
    v.map_values(|d: DeviceDeclaration| decl_view(d))
}

/// The declaration for a reference found in `content`.
pub open spec fn declaration_of(content: Seq<char>, f: FoundDevice) -> DeclView {
    DeclView {
        variable_name: camel_from(f.config_name, false),
        device_type: f.device_type,
        config_name: f.config_name,
        line: line_of_offset_spec(content, f.offset as int),
    }
}

/// `d` inserted after every declaration whose line is not greater.
pub open spec fn insert_by_line(s: Seq<DeclView>, d: DeclView) -> Seq<DeclView>
    decreases s.len(),
{
    if s.len() == 0 {
        seq![d]
    } else if d.line < s[0].line {
        seq![d] + s
    } else {
        seq![s[0]] + insert_by_line(s.drop_first(), d)
    }
}

/// The declarations ordered by line, those on the same line in their order (a
/// stable sort).
pub open spec fn sort_by_line(s: Seq<DeclView>) -> Seq<DeclView>
    decreases s.len(),
{
    if s.len() == 0 {
        Seq::<DeclView>::empty()
    } else {
        insert_by_line(sort_by_line(s.drop_last()), s.last())
    }
}

/// The declarations of a source text: every reference once (the first time
/// its `type:name` key appears), ordered by line.
pub open spec fn parse_source_spec(content: Seq<char>) -> Seq<DeclView> {
    sort_by_line(
        dedupe_found(all_found(content), Seq::<Seq<char>>::empty()).map_values(
            |f: FoundDevice| declaration_of(content, f),
        ),
    )
}

/// Exec form of a found reference.
struct Found {
    device_type: String,
    config_name: String,
    offset: usize,
}

spec fn found_view(f: Found) -> FoundDevice {
    FoundDevice { device_type: f.device_type@, config_name: f.config_name@, offset: f.offset as nat }
}

fn group_string(g: &Vec<Option<String>>, i: usize) -> (r: String)
    ensures
        r@ == group_text(groups_view(g@), i as int),
{
    if i < g.len() {
        match &g[i] {
            Some(t) => t.clone(),
            None => String::new(),
        }
    } else {
        String::new()
    }
}

/// Appends the references `p` finds in `content` to `out`.
fn collect_found(p: &crate::patterns::Pattern, content: &str, shorthand: bool, out: &mut Vec<Found>)
    ensures
        final(out)@.map_values(|f: Found| found_view(f)) == old(out)@.map_values(|f: Found| found_view(f))
            + found_by(p@, content@, shorthand),
{
    let caps = captures_all(p, content);
    let ghost want = found_by(p@, content@, shorthand);
    let ghost start = old(out)@.map_values(|f: Found| found_view(f));
    let mut i: usize = 0;
    while i < caps.len()
        invariant
            i <= caps@.len(),
            regex_captures_all(p@, content@) == caps@.map_values(
                |c: (usize, Vec<Option<String>>)| (c.0 as nat, groups_view(c.1@)),
            ),
            want == found_by(p@, content@, shorthand),
            out@.map_values(|f: Found| found_view(f)) == start + want.take(i as int),
        decreases caps@.len() - i,
    {
        let (offset, groups) = (caps[i].0, &caps[i].1);
        let first = group_string(groups, 1);
        let device_type = if shorthand {
            owned(shorthand_to_type(first.as_str()))
        } else {
            first
        };
        let config_name = group_string(groups, 2);
        let f = Found { device_type, config_name, offset };
        let ghost before = out@;
        out.push(f);
        proof {
            assert(want[i as int] == found_view(f));
            assert(out@.map_values(|f: Found| found_view(f)) =~= before.map_values(|f: Found| found_view(f)).push(found_view(f)));
            assert(want.take(i + 1) =~= want.take(i as int).push(want[i as int]));
        }
        i += 1;
    }
    assert(want.take(i as int) =~= want);
}

fn key_of(f: &Found) -> (k: String)
    ensures
        k@ == device_key(found_view(*f)),
{
    let mut k = f.device_type.clone();
    push_char(&mut k, ':');
    push_str(&mut k, f.config_name.as_str());
    k
}

fn contains_key(seen: &Vec<String>, k: &String) -> (r: bool)
    ensures
        r == seen@.map_values(|s: String| s@).contains(k@),
{
    let ghost sv = seen@.map_values(|s: String| s@);
    let mut i: usize = 0;
    while i < seen.len()
        invariant
            i <= seen@.len(),
            sv == seen@.map_values(|s: String| s@),
            forall|j: int| 0 <= j < i ==> sv[j] != k@,
        decreases seen@.len() - i,
    {
        if str_eq(seen[i].as_str(), k.as_str()) {
            assert(sv[i as int] == k@);
            return true;
        }
        i += 1;
    }
    false
}

impl HardwareConfig {
    /// Extract all `hardwareMap.get(...)` / `hardwareMap.tryGet(...)` /
    /// shorthand references from Java source text (the content of a file).
    pub fn parse_java_source(content: &str) -> (c: Self)
        ensures
            hardware_patterns_valid() ==> decls_view(c.declarations@)
                == parse_source_spec(content@),
            !hardware_patterns_valid() ==> c.declarations@.len() == 0,
    {
        let get = compile("hardwareMap\\.get\\(\\s*(\\w+(?:\\.\\w+)*?)\\.class\\s*,\\s*\"([^\"]+)\"\\s*\\)");
        let try_get = compile("hardwareMap\\.tryGet\\(\\s*(\\w+(?:\\.\\w+)*?)\\.class\\s*,\\s*\"([^\"]+)\"\\s*\\)");
        let shorthand = compile("hardwareMap\\.(dcMotor|servo|colorSensor|touchSensor|distanceSensor|imu)\\s*\\.\\s*get\\s*\\(\\s*\"([^\"]+)\"\\s*\\)");
        let (get, try_get, shorthand) = match (get, try_get, shorthand) {
            (Some(a), Some(b), Some(c)) => (a, b, c),
            _ => return HardwareConfig { declarations: Vec::new() },
        };
        let mut found: Vec<Found> = Vec::new();
        collect_found(&get, content, false, &mut found);
        collect_found(&try_get, content, false, &mut found);
        collect_found(&shorthand, content, true, &mut found);
        let ghost all = found@.map_values(|f: Found| found_view(f));
        assert(all =~= all_found(content@));
        let chars = chars_of(content);
        // Keep the first reference of each `type:name`.
        let mut seen: Vec<String> = Vec::new();
        let mut kept: Vec<DeviceDeclaration> = Vec::new();
        let ghost goal = dedupe_found(all, Seq::<Seq<char>>::empty()).map_values(
            |f: FoundDevice| declaration_of(content@, f),
        );
        let mut i: usize = 0;
        assert(all.skip(0) =~= all);
        assert(seen@.map_values(|s: String| s@) =~= Seq::<Seq<char>>::empty());
        assert(decls_view(kept@) + goal =~= goal);
        while i < found.len()
            invariant
                i <= found@.len(),
                all == found@.map_values(|f: Found| found_view(f)),
                chars@ == content@,
                goal == dedupe_found(all, Seq::<Seq<char>>::empty()).map_values(
                    |f: FoundDevice| declaration_of(content@, f),
                ),
                decls_view(kept@) + dedupe_found(
                    all.skip(i as int),
                    seen@.map_values(|s: String| s@),
                ).map_values(|f: FoundDevice| declaration_of(content@, f)) == goal,
            decreases found@.len() - i,
        {
            let f = &found[i];
            let ghost rest = all.skip(i as int);
            let ghost sv = seen@.map_values(|s: String| s@);
            assert(rest[0] == found_view(*f));
            assert(rest.drop_first() =~= all.skip(i + 1));
            let k = key_of(f);
            if !contains_key(&seen, &k) {
                let d = DeviceDeclaration {
                    variable_name: Self::config_name_to_var_name(f.config_name.as_str()),
                    device_type: f.device_type.clone(),
                    config_name: f.config_name.clone(),
                    line: line_of_offset(&chars, f.offset),
                };
                let ghost kv = decls_view(kept@);
                kept.push(d);
                seen.push(k);
                proof {
                    assert(decls_view(kept@) =~= kv.push(decl_view(d)));
                    assert(seen@.map_values(|s: String| s@) =~= sv.push(device_key(found_view(*f))));
                    let tail = dedupe_found(all.skip(i + 1), sv.push(device_key(found_view(*f))));
                    assert(dedupe_found(rest, sv) == seq![rest[0]] + tail);
                    assert((seq![rest[0]] + tail).map_values(|f: FoundDevice| declaration_of(content@, f))
                        =~= seq![declaration_of(content@, rest[0])] + tail.map_values(|f: FoundDevice| declaration_of(content@, f)));
                }
            }
            i += 1;
        }
        assert(all.skip(i as int) =~= Seq::<FoundDevice>::empty());
        assert(decls_view(kept@) =~= goal);
        // Sort by line number for deterministic output.
        let declarations = sort_declarations(kept);
        HardwareConfig { declarations }
    }
}

proof fn lemma_insert_line_at(s: Seq<DeclView>, d: DeclView, j: int)
    requires
        0 <= j <= s.len(),
        forall|k: int| 0 <= k < j ==> !(d.line < #[trigger] s[k].line),
        j < s.len() ==> d.line < s[j].line,
    ensures
        insert_by_line(s, d) == s.take(j) + seq![d] + s.skip(j),
    decreases s.len(),
{
    if s.len() == 0 {
        assert(s.take(j) + seq![d] + s.skip(j) =~= seq![d]);
    } else if j == 0 {
        assert(s.take(0) + seq![d] + s.skip(0) =~= seq![d] + s);
    } else {
        let t = s.drop_first();
        assert forall|k: int| 0 <= k < j - 1 implies !(d.line < #[trigger] t[k].line) by {
            assert(t[k] == s[k + 1]);
        }
        lemma_insert_line_at(t, d, j - 1);
        assert(seq![s[0]] + (t.take(j - 1) + seq![d] + t.skip(j - 1)) =~= s.take(j) + seq![d]
            + s.skip(j));
    }
}

/// Two declarations name the same device: the same type and configuration name.
pub open spec fn same_device(a: DeclView, b: DeclView) -> bool {
    a.device_type == b.device_type && a.config_name == b.config_name
}

/// No device is declared twice.
pub open spec fn devices_distinct(s: Seq<DeclView>) -> bool {
    forall|i: int, j: int| 0 <= i < j < s.len() ==> !same_device(#[trigger] s[i], #[trigger] s[j])
}

/// The declarations come in line order.
pub open spec fn lines_ordered(s: Seq<DeclView>) -> bool {
    forall|i: int, j: int| 0 <= i <= j < s.len() ==> (#[trigger] s[i]).line <= (#[trigger] s[j]).line
}

proof fn lemma_insert_position(s: Seq<DeclView>, d: DeclView) -> (p: int)
    ensures
        0 <= p <= s.len(),
        insert_by_line(s, d) == s.take(p) + seq![d] + s.skip(p),
        forall|k: int| 0 <= k < p ==> (#[trigger] s[k]).line <= d.line,
        p < s.len() ==> d.line < s[p].line,
    decreases s.len(),
{
    if s.len() == 0 {
        assert(s.take(0) + seq![d] + s.skip(0) =~= seq![d]);
        0
    } else if d.line < s[0].line {
        assert(s.take(0) + seq![d] + s.skip(0) =~= seq![d] + s);
        0
    } else {
        let t = s.drop_first();
        let q = lemma_insert_position(t, d);
        assert(seq![s[0]] + (t.take(q) + seq![d] + t.skip(q)) =~= s.take(q + 1) + seq![d] + s.skip(q + 1));
        assert forall|k: int| 0 <= k < q + 1 implies (#[trigger] s[k]).line <= d.line by {
            if k > 0 {
                assert(s[k] == t[k - 1]);
            }
        }
        q + 1
    }
}

proof fn lemma_insert_keeps(s: Seq<DeclView>, d: DeclView)
    ensures
        insert_by_line(s, d).len() == s.len() + 1,
        forall|x: DeclView| #[trigger] insert_by_line(s, d).contains(x) <==> (s.contains(x) || x == d),
        lines_ordered(s) ==> lines_ordered(insert_by_line(s, d)),
        devices_distinct(s) && (forall|k: int| 0 <= k < s.len() ==> !same_device(#[trigger] s[k], d))
            ==> devices_distinct(insert_by_line(s, d)),
{
    let p = lemma_insert_position(s, d);
    let r = insert_by_line(s, d);
    assert forall|k: int| 0 <= k < r.len() implies #[trigger] r[k] == (if k < p { s[k] } else if k == p { d } else { s[k - 1] }) by {}
    assert forall|x: DeclView| #[trigger] r.contains(x) <==> (s.contains(x) || x == d) by {
        if r.contains(x) {
            let k = choose|k: int| 0 <= k < r.len() && r[k] == x;
            if k < p {
                assert(s[k] == x);
            } else if k > p {
                assert(s[k - 1] == x);
            }
        }
        if s.contains(x) {
            let k = choose|k: int| 0 <= k < s.len() && s[k] == x;
            if k < p {
                assert(r[k] == x);
            } else {
                assert(r[k + 1] == x);
            }
        }
        if x == d {
            assert(r[p] == x);
        }
    }
    if lines_ordered(s) {
        assert forall|i: int, j: int| 0 <= i <= j < r.len() implies (#[trigger] r[i]).line <= (#[trigger] r[j]).line by {
            if i < p && j > p {
                assert(s[i].line <= s[j - 1].line);
            } else if i == p && j > p {
                assert(s[p].line <= s[j - 1].line);
            } else if i < p && j < p {
                assert(s[i].line <= s[j].line);
            } else if i > p {
                assert(s[i - 1].line <= s[j - 1].line);
            }
        }
    }
    if devices_distinct(s) && (forall|k: int| 0 <= k < s.len() ==> !same_device(#[trigger] s[k], d)) {
        assert forall|i: int, j: int| 0 <= i < j < r.len() implies !same_device(#[trigger] r[i], #[trigger] r[j]) by {
            if i < p && j < p {
                assert(!same_device(s[i], s[j]));
            } else if i < p && j == p {
                assert(!same_device(s[i], d));
            } else if i < p && j > p {
                assert(!same_device(s[i], s[j - 1]));
            } else if i == p {
                assert(!same_device(s[j - 1], d));
            } else {
                assert(!same_device(s[i - 1], s[j - 1]));
            }
        }
    }
}

proof fn lemma_sort_by_line(s: Seq<DeclView>)
    ensures
        sort_by_line(s).len() == s.len(),
        forall|x: DeclView| #[trigger] sort_by_line(s).contains(x) <==> s.contains(x),
        lines_ordered(sort_by_line(s)),
        devices_distinct(s) ==> devices_distinct(sort_by_line(s)),
    decreases s.len(),
{
    if s.len() == 0 {
        assert(lines_ordered(Seq::<DeclView>::empty()));
    } else {
        let dl = s.drop_last();
        let d = s.last();
        lemma_sort_by_line(dl);
        let t = sort_by_line(dl);
        lemma_insert_keeps(t, d);
        assert forall|x: DeclView| #[trigger] sort_by_line(s).contains(x) <==> s.contains(x) by {
            if s.contains(x) && x != d {
                let k = choose|k: int| 0 <= k < s.len() && s[k] == x;
                assert(dl[k] == x);
                assert(dl.contains(x));
            }
            if dl.contains(x) {
                let k = choose|k: int| 0 <= k < dl.len() && dl[k] == x;
                assert(s[k] == x);
            }
            if x == d {
                assert(s[s.len() - 1] == x);
            }
        }
        if devices_distinct(s) {
            assert forall|i: int, j: int| 0 <= i < j < dl.len() implies !same_device(#[trigger] dl[i], #[trigger] dl[j]) by {
                assert(dl[i] == s[i] && dl[j] == s[j]);
            }
            assert forall|k: int| 0 <= k < t.len() implies !same_device(#[trigger] t[k], d) by {
                assert(t.contains(t[k]));
                let m = choose|m: int| 0 <= m < dl.len() && dl[m] == t[k];
                assert(s[m] == t[k]);
                assert(!same_device(s[m], s[s.len() - 1]));
            }
        }
    }
}

proof fn lemma_dedupe_found(items: Seq<FoundDevice>, seen: Seq<Seq<char>>)
    ensures
        forall|k: int| 0 <= k < dedupe_found(items, seen).len()
            ==> !seen.contains(device_key(#[trigger] dedupe_found(items, seen)[k])),
        forall|i: int, j: int| 0 <= i < j < dedupe_found(items, seen).len()
            ==> device_key(#[trigger] dedupe_found(items, seen)[i]) != device_key(#[trigger] dedupe_found(items, seen)[j]),
    decreases items.len(),
{
    if items.len() > 0 {
        let key = device_key(items[0]);
        if seen.contains(key) {
            lemma_dedupe_found(items.drop_first(), seen);
            assert(dedupe_found(items, seen) == dedupe_found(items.drop_first(), seen));
        } else {
            let seen2 = seen.push(key);
            lemma_dedupe_found(items.drop_first(), seen2);
            let tail = dedupe_found(items.drop_first(), seen2);
            let r = dedupe_found(items, seen);
            assert(r == seq![items[0]] + tail);
            assert forall|k: int| 0 <= k < tail.len() implies device_key(#[trigger] tail[k]) != key
                && !seen.contains(device_key(tail[k])) by {
                assert(!seen2.contains(device_key(tail[k])));
                assert(seen2[seen.len() as int] == key);
                if seen.contains(device_key(tail[k])) {
                    let m = choose|m: int| 0 <= m < seen.len() && seen[m] == device_key(tail[k]);
                    assert(seen2[m] == seen[m]);
                }
            }
            assert forall|k: int| 0 <= k < r.len() implies !seen.contains(device_key(#[trigger] r[k])) by {
                if k > 0 {
                    assert(r[k] == tail[k - 1]);
                }
            }
            assert forall|i: int, j: int| 0 <= i < j < r.len() implies device_key(#[trigger] r[i]) != device_key(#[trigger] r[j]) by {
                assert(r[j] == tail[j - 1]);
                if i > 0 {
                    assert(r[i] == tail[i - 1]);
                }
            }
        }
    }
}

/// The declarations read from a source text name each device once and come
/// in line order.
pub proof fn lemma_parsed_devices_distinct_and_ordered(content: Seq<char>)
    ensures
        devices_distinct(parse_source_spec(content)),
        lines_ordered(parse_source_spec(content)),
{
    let f = dedupe_found(all_found(content), Seq::<Seq<char>>::empty());
    lemma_dedupe_found(all_found(content), Seq::<Seq<char>>::empty());
    let m = f.map_values(|x: FoundDevice| declaration_of(content, x));
    assert forall|i: int, j: int| 0 <= i < j < m.len() implies !same_device(#[trigger] m[i], #[trigger] m[j]) by {
        assert(m[i] == declaration_of(content, f[i]) && m[j] == declaration_of(content, f[j]));
        if same_device(m[i], m[j]) {
            assert(device_key(f[i]) =~= device_key(f[j]));
        }
    }
    lemma_sort_by_line(m);
}

/// Stable sort of declarations by line.
fn sort_declarations(decls: Vec<DeviceDeclaration>) -> (r: Vec<DeviceDeclaration>)
    ensures
        decls_view(r@) == sort_by_line(
            decls_view(decls@),
        ),
{
    let ghost all = decls_view(decls@);
    let mut rest = decls;
    let mut out: Vec<DeviceDeclaration> = Vec::new();
    let n = rest.len();
    let mut i: usize = 0;
    assert(rest@.skip(0) =~= rest@);
    while i < n
        invariant
            n == all.len(),
            i <= n,
            decls_view(rest@) == all.skip(i as int),
            decls_view(out@) == sort_by_line(all.take(i as int)),
        decreases n - i,
    {
        let ghost rv = decls_view(rest@);
        assert(rv.len() == rest@.len());
        assert(rv[0] == decl_view(rest@[0]));
        assert(rv[0] == all[i as int]);
        let ghost old_rest = rest@;
        let d = rest.remove(0);
        proof {
            assert(decl_view(d) == all[i as int]);
            assert(rest@ == old_rest.remove(0));
            assert forall|k: int| 0 <= k < rest@.len() implies #[trigger] decls_view(rest@)[k] == all.skip(i + 1)[k] by {
                assert(rest@[k] == old_rest[k + 1]);
                assert(rv[k + 1] == decl_view(old_rest[k + 1]));
            }
            assert(decls_view(rest@) =~= all.skip(i + 1));
        }
        let ghost ov = decls_view(out@);
        let mut j: usize = 0;
        while j < out.len()
            invariant
                j <= out@.len(),
                ov == decls_view(out@),
                forall|k: int| 0 <= k < j ==> !(d.line < #[trigger] ov[k].line),
            ensures
                j <= out@.len(),
                forall|k: int| 0 <= k < j ==> !(d.line < #[trigger] ov[k].line),
                j < out@.len() ==> d.line < ov[j as int].line,
            decreases out@.len() - j,
        {
            if d.line < out[j].line {
                break;
            }
            j += 1;
        }
        proof {
            lemma_insert_line_at(ov, decl_view(d), j as int);
            assert(all.take(i + 1).drop_last() =~= all.take(i as int));
        }
        out.insert(j, d);
        proof {
            assert(decls_view(out@) =~= ov.take(j as int) + seq![
                all[i as int],
            ] + ov.skip(j as int));
        }
        i += 1;
    }
    assert(all.take(n as int) =~= all);
    out
}
} // verus!
