//! The rules of the Java language server setup for FTC projects: reading the
//! SDK location from `local.properties`, which files are JARs and launchers,
//! the launcher's arguments and the Eclipse classpath file.
use vstd::prelude::*;
use crate::document::{is_extension, path_extension};
use crate::gradle::{join_path, path_join};
use crate::text::{
    chars_of, decimal, lines_of, owned, push_str, replace_all, replace_spec, split_lines,
    string_from_chars, string_from_range, trim, trim_str, u64_to_decimal, vecs_view,
};

verus! {

// ── local.properties ─────────────────────────────────────────────────────────

/// The SDK directory a `local.properties` text names: the value of the first
/// `sdk.dir=` line (lines trimmed; comments and blank lines skipped), trimmed,
/// with `\:` unescaped to `:`.
pub open spec fn sdk_dir_from_lines(lines: Seq<Seq<char>>) -> Option<Seq<char>>
    decreases lines.len(),
{
    if lines.len() == 0 {
        None
    } else {
        let line = trim(lines[0]);
        let key = "sdk.dir="@;
        if line.len() > 0 && line[0] != '#' && line.len() >= key.len() && line.take(
            key.len() as int,
        ) == key {
            Some(replace_spec(trim(line.skip(key.len() as int)), "\\:"@, ":"@))
        } else {
            sdk_dir_from_lines(lines.drop_first())
        }
    }
}

/// Locates the Android SDK and FTC SDK artefacts.
pub struct FtcSdkLocator;

impl FtcSdkLocator {
    /// Parse `sdk.dir` from the text of a `local.properties` file.
    pub fn sdk_dir_from_local_properties(text: &str) -> (r: Option<String>)
        ensures
            crate::types::opt_string_view(r) == sdk_dir_from_lines(lines_of(text@)),
    {
        let chars = chars_of(text);
        let lines = split_lines(&chars);
        let ghost ls = lines_of(text@);
        let key = chars_of("sdk.dir=");
        proof {
            reveal_strlit("sdk.dir=");
            reveal_strlit("\\:");
        }
        let mut i: usize = 0;
        assert(ls.skip(0) =~= ls);
        while i < lines.len()
            invariant
                i <= lines@.len(),
                vecs_view(lines@) == ls,
                ls == lines_of(text@),
                key@ == "sdk.dir="@,
                sdk_dir_from_lines(ls.skip(i as int)) == sdk_dir_from_lines(ls),
            decreases lines@.len() - i,
        {
            let raw = string_from_chars(&lines[i]);
            let line = trim_str(raw.as_str());
            let lc = chars_of(line.as_str());
            proof {
                assert(ls.skip(i as int)[0] == ls[i as int]);
                assert(ls.skip(i as int).drop_first() =~= ls.skip(i + 1));
            }
            if lc.len() > 0 && lc[0] != '#' && crate::text::matches_at(&lc, 0, &key) {
                assert(lc@.subrange(0, key@.len() as int) =~= lc@.take(key@.len() as int));
                let rest = string_from_range(&lc, key.len(), lc.len());
                assert(rest@ =~= lc@.skip(key@.len() as int));
                let path = trim_str(rest.as_str());
                proof {
                    reveal_strlit("\\:");
                }
                return Some(replace_all(path.as_str(), "\\:", ":"));
            }
            proof {
                if lc@.len() > 0 && lc@[0] != '#' && lc@.len() >= key@.len() {
                    assert(lc@.subrange(0, key@.len() as int) =~= lc@.take(key@.len() as int));
                }
            }
            i += 1;
        }
        None
    }
}

// ── Files ────────────────────────────────────────────────────────────────────

/// Whether a path names a JAR file.
pub fn is_jar(path: &str) -> (r: bool)
    ensures
        r == (path_extension(path@) == Some("jar"@)),
{
    is_extension(path, "jar")
}

/// The name prefix of the Equinox launcher JAR.
pub open spec fn launcher_prefix() -> Seq<char> {
    "org.eclipse.equinox.launcher_"@
}

/// Whether a file name is the JDTLS launcher JAR.
pub open spec fn is_launcher_name_spec(name: Seq<char>) -> bool {
    &&& name.len() >= launcher_prefix().len()
    &&& name.take(launcher_prefix().len() as int) == launcher_prefix()
    &&& name.len() >= 4
    &&& name.skip(name.len() - 4) == ".jar"@
}

pub fn is_launcher_name(name: &str) -> (r: bool)
    ensures
        r == is_launcher_name_spec(name@),
{
    let v = chars_of(name);
    let p = chars_of("org.eclipse.equinox.launcher_");
    let j = chars_of(".jar");
    proof {
        reveal_strlit("org.eclipse.equinox.launcher_");
        reveal_strlit(".jar");
    }
    let starts = crate::text::matches_at(&v, 0, &p);
    let ends = v.len() >= 4 && crate::text::matches_at(&v, v.len() - 4, &j);
    proof {
        if v@.len() >= p@.len() {
            assert(v@.subrange(0, p@.len() as int) =~= v@.take(p@.len() as int));
        }
        if v@.len() >= 4 {
            assert(v@.subrange(v@.len() - 4, v@.len() as int) =~= v@.skip(v@.len() - 4));
        }
    }
    starts && ends
}

/// The configuration directories JDTLS may ship for an OS, in order.
pub open spec fn config_dir_names_spec(os: Seq<char>) -> Seq<Seq<char>> {
    seq!["config_"@ + os, "config_"@ + os + "_arm"@, "config_"@ + os + "64"@]
}

/// The candidate configuration directory names for `os` (`"linux"`, `"mac"`
/// or `"win"`).
pub fn config_dir_names(os: &str) -> (r: Vec<String>)
    ensures
        r@.map_values(|n: String| n@) == config_dir_names_spec(os@),
{
    let mut a = owned("config_");
    push_str(&mut a, os);
    let mut b = owned("config_");
    push_str(&mut b, os);
    push_str(&mut b, "_arm");
    let mut c = owned("config_");
    push_str(&mut c, os);
    push_str(&mut c, "64");
    let r = vec![a, b, c];
    assert(r@.map_values(|n: String| n@) =~= config_dir_names_spec(os@));
    r
}

/// Common FTC Gradle source layouts, relative to the project root.
pub open spec fn source_layouts() -> Seq<Seq<char>> {
    seq!["TeamCode/src/main/java"@, "FtcRobotController/src/main/java"@, "src/main/java"@, "src"@]
}

/// The candidate source directories of a project root.
pub fn source_path_candidates(root: &str) -> (r: Vec<String>)
    ensures
        r@.map_values(|p: String| p@) == source_layouts().map_values(|rel: Seq<char>| path_join(root@, rel)),
{
    let r = vec![
        join_path(root, "TeamCode/src/main/java"),
        join_path(root, "FtcRobotController/src/main/java"),
        join_path(root, "src/main/java"),
        join_path(root, "src"),
    ];
    assert(r@.map_values(|p: String| p@) =~= source_layouts().map_values(|rel: Seq<char>| path_join(root@, rel)));
    r
}

/// The candidates that exist, in order; the root itself when none does.
pub open spec fn existing_or_root(root: Seq<char>, candidates: Seq<Seq<char>>, exists: Seq<bool>) -> Seq<Seq<char>> {
    let kept = keep_existing(candidates, exists);
    if kept.len() == 0 { seq![root] } else { kept }
}

/// The candidates whose flag is set, in order.
pub open spec fn keep_existing(candidates: Seq<Seq<char>>, exists: Seq<bool>) -> Seq<Seq<char>>
    decreases candidates.len(),
{
    if candidates.len() == 0 {
        Seq::<Seq<char>>::empty()
    } else {
        let rest = keep_existing(candidates.drop_last(), exists.take(exists.len() - 1));
        if exists.last() { rest.push(candidates.last()) } else { rest }
    }
}

/// Keep the source directories that exist; fall back to the project root.
pub fn pick_source_paths(root: &str, candidates: &Vec<String>, exists: &Vec<bool>) -> (r: Vec<String>)
    requires
        exists@.len() == candidates@.len(),
    ensures
        r@.map_values(|p: String| p@) == existing_or_root(
            root@,
            candidates@.map_values(|p: String| p@),
            exists@,
        ),
{
    let ghost cv = candidates@.map_values(|p: String| p@);
    let mut paths: Vec<String> = Vec::new();
    let mut i: usize = 0;
    while i < candidates.len()
        invariant
            i <= candidates@.len(),
            exists@.len() == candidates@.len(),
            cv == candidates@.map_values(|p: String| p@),
            paths@.map_values(|p: String| p@) == keep_existing(cv.take(i as int), exists@.take(i as int)),
        decreases candidates@.len() - i,
    {
        proof {
            assert(cv.take(i + 1).drop_last() =~= cv.take(i as int));
            assert(exists@.take(i + 1).take(i as int) =~= exists@.take(i as int));
            assert(exists@.take(i + 1).len() - 1 == i);
        }
        if exists[i] {
            let ghost before = paths@.map_values(|p: String| p@);
            paths.push(owned(candidates[i].as_str()));
            assert(paths@.map_values(|p: String| p@) =~= before.push(cv[i as int]));
        }
        i += 1;
    }
    assert(cv.take(i as int) =~= cv);
    assert(exists@.take(i as int) =~= exists@);
    if paths.len() == 0 {
        paths.push(owned(root));
        assert(paths@.map_values(|p: String| p@) =~= seq![root@]);
    }
    paths
}

// ── Launch arguments ─────────────────────────────────────────────────────────

/// Full configuration needed to launch JDTLS for an FTC project.
#[derive(Debug, Clone)]
pub struct FtcJdtlsConfig {
    /// Path to the JDTLS installation (contains `plugins/` and `config_*`).
    pub jdtls_home: String,
    /// Per-workspace data directory, isolated by project path hash.
    pub workspace_data_dir: String,
    /// Java source directories (e.g. `TeamCode/src/main/java`).
    pub source_paths: Vec<String>,
    /// Full classpath entries (FTC JARs + Android SDK).
    pub classpath: Vec<String>,
    /// JVM heap in megabytes.
    pub jvm_heap_mb: u32,
}

/// The JVM and launcher arguments: heap sizes, module options, the launcher
/// JAR when one was found, the configuration directory (`config_linux` under
/// the installation when none was found), and the data directory.
pub open spec fn server_args_spec(
    heap_mb: u32,
    home: Seq<char>,
    data_dir: Seq<char>,
    launcher: Option<Seq<char>>,
    config_dir: Option<Seq<char>>,
) -> Seq<Seq<char>> {
    seq![
        "-Xms"@ + decimal((heap_mb / 2) as nat) + "m"@,
        "-Xmx"@ + decimal(heap_mb as nat) + "m"@,
        "--add-modules=ALL-SYSTEM"@,
        "--add-opens=java.base/java.util=ALL-UNNAMED"@,
        "--add-opens=java.base/java.lang=ALL-UNNAMED"@,
    ] + match launcher {
        Some(j) => seq!["-jar"@, j],
        None => Seq::<Seq<char>>::empty(),
    } + seq![
        "-configuration"@,
        match config_dir {
            Some(c) => c,
            None => path_join(home, "config_linux"@),
        },
    ] + seq!["-data"@, data_dir]
}

fn heap_arg(prefix: &str, mb: u32) -> (r: String)
    ensures
        r@ == prefix@ + decimal(mb as nat) + "m"@,
{
    let mut s = owned(prefix);
    let n = u64_to_decimal(mb as u64);
    push_str(&mut s, n.as_str());
    push_str(&mut s, "m");
    s
}

impl FtcJdtlsConfig {
    /// Build the command-line arguments to pass to the JDTLS launcher, given the
    /// launcher JAR and configuration directory found in the installation.
    pub fn server_start_args(&self, launcher_jar: Option<&str>, config_dir: Option<&str>) -> (r: Vec<String>)
        ensures
            r@.map_values(|a: String| a@) == server_args_spec(
                self.jvm_heap_mb,
                self.jdtls_home@,
                self.workspace_data_dir@,
                match launcher_jar {
                    Some(j) => Some(j@),
                    None => None,
                },
                match config_dir {
                    Some(c) => Some(c@),
                    None => None,
                },
            ),
    {
        let mut args: Vec<String> = Vec::new();
        args.push(heap_arg("-Xms", self.jvm_heap_mb / 2));
        args.push(heap_arg("-Xmx", self.jvm_heap_mb));
        args.push(owned("--add-modules=ALL-SYSTEM"));
        args.push(owned("--add-opens=java.base/java.util=ALL-UNNAMED"));
        args.push(owned("--add-opens=java.base/java.lang=ALL-UNNAMED"));
        match launcher_jar {
            Some(jar) => {
                args.push(owned("-jar"));
                args.push(owned(jar));
            },
            None => {},
        }
        args.push(owned("-configuration"));
        match config_dir {
            Some(cfg) => args.push(owned(cfg)),
            None => args.push(join_path(self.jdtls_home.as_str(), "config_linux")),
        }
        args.push(owned("-data"));
        args.push(owned(self.workspace_data_dir.as_str()));
        let ghost want = server_args_spec(
            self.jvm_heap_mb,
            self.jdtls_home@,
            self.workspace_data_dir@,
            match launcher_jar {
                Some(j) => Some(j@),
                None => None,
            },
            match config_dir {
                Some(c) => Some(c@),
                None => None,
            },
        );
        assert(args@.map_values(|a: String| a@) =~= want);
        args
    }

    /// The Eclipse `.classpath` file: one `src` entry per source directory, one
    /// `lib` entry per classpath entry, then the JRE container and output.
    pub fn classpath_xml(&self) -> (r: String)
        ensures
            r@ == classpath_xml_spec(
                self.source_paths@.map_values(|p: String| p@),
                self.classpath@.map_values(|p: String| p@),
            ),
    {
        let mut xml = owned("<?xml version=\"1.0\" encoding=\"UTF-8\"?>\n<classpath>\n");
        let ghost srcs = self.source_paths@.map_values(|p: String| p@);
        let ghost libs = self.classpath@.map_values(|p: String| p@);
        let mut i: usize = 0;
        while i < self.source_paths.len()
            invariant
                i <= self.source_paths@.len(),
                srcs == self.source_paths@.map_values(|p: String| p@),
                xml@ == "<?xml version=\"1.0\" encoding=\"UTF-8\"?>\n<classpath>\n"@ + entries_spec(src_entry_open(), srcs.take(i as int)),
            decreases self.source_paths@.len() - i,
        {
            push_str(&mut xml, "  <classpathentry kind=\"src\" path=\"");
            push_str(&mut xml, self.source_paths[i].as_str());
            push_str(&mut xml, "\"/>\n");
            assert(srcs.take(i + 1).drop_last() =~= srcs.take(i as int));
            assert(srcs.take(i + 1).last() == srcs[i as int]);
            assert(xml@ =~= "<?xml version=\"1.0\" encoding=\"UTF-8\"?>\n<classpath>\n"@ + entries_spec(src_entry_open(), srcs.take(i + 1)));
            i += 1;
        }
        assert(srcs.take(i as int) =~= srcs);
        let mut j: usize = 0;
        while j < self.classpath.len()
            invariant
                j <= self.classpath@.len(),
                libs == self.classpath@.map_values(|p: String| p@),
                xml@ == "<?xml version=\"1.0\" encoding=\"UTF-8\"?>\n<classpath>\n"@ + entries_spec(src_entry_open(), srcs)
                    + entries_spec(lib_entry_open(), libs.take(j as int)),
            decreases self.classpath@.len() - j,
        {
            push_str(&mut xml, "  <classpathentry kind=\"lib\" path=\"");
            push_str(&mut xml, self.classpath[j].as_str());
            push_str(&mut xml, "\"/>\n");
            assert(libs.take(j + 1).drop_last() =~= libs.take(j as int));
            assert(libs.take(j + 1).last() == libs[j as int]);
            assert(xml@ =~= "<?xml version=\"1.0\" encoding=\"UTF-8\"?>\n<classpath>\n"@ + entries_spec(src_entry_open(), srcs)
                + entries_spec(lib_entry_open(), libs.take(j + 1)));
            j += 1;
        }
        assert(libs.take(j as int) =~= libs);
        push_str(&mut xml, "  <classpathentry kind=\"con\" path=\"org.eclipse.jdt.launching.JRE_CONTAINER\"/>\n");
        push_str(&mut xml, "  <classpathentry kind=\"output\" path=\"bin\"/>\n</classpath>\n");
        xml
    }
}

/// One `<classpathentry>` line per path, each starting with `open`.
pub open spec fn entries_spec(open: Seq<char>, paths: Seq<Seq<char>>) -> Seq<char>
    decreases paths.len(),
{
    if paths.len() == 0 {
        Seq::<char>::empty()
    } else {
        entries_spec(open, paths.drop_last()) + open + paths.last() + "\"/>\n"@
    }
}

pub open spec fn src_entry_open() -> Seq<char> {
    "  <classpathentry kind=\"src\" path=\""@
}

pub open spec fn lib_entry_open() -> Seq<char> {
    "  <classpathentry kind=\"lib\" path=\""@
}

pub open spec fn classpath_xml_spec(srcs: Seq<Seq<char>>, libs: Seq<Seq<char>>) -> Seq<char> {
    "<?xml version=\"1.0\" encoding=\"UTF-8\"?>\n<classpath>\n"@ + entries_spec(src_entry_open(), srcs)
        + entries_spec(lib_entry_open(), libs)
        + "  <classpathentry kind=\"con\" path=\"org.eclipse.jdt.launching.JRE_CONTAINER\"/>\n"@
        + "  <classpathentry kind=\"output\" path=\"bin\"/>\n</classpath>\n"@
}

/// The JDT compiler preferences written for FTC projects (Java 8).
pub fn jdt_core_prefs() -> (r: &'static str)
    ensures
        r@ == "eclipse.preferences.version=1\norg.eclipse.jdt.core.compiler.codegen.targetPlatform=1.8\norg.eclipse.jdt.core.compiler.compliance=1.8\norg.eclipse.jdt.core.compiler.source=1.8\norg.eclipse.jdt.core.compiler.problem.forbiddenReference=warning\n"@,
{
    "eclipse.preferences.version=1\norg.eclipse.jdt.core.compiler.codegen.targetPlatform=1.8\norg.eclipse.jdt.core.compiler.compliance=1.8\norg.eclipse.jdt.core.compiler.source=1.8\norg.eclipse.jdt.core.compiler.problem.forbiddenReference=warning\n"
}

} // verus!
