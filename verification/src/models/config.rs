//! The user configuration and its defaults.

use vstd::prelude::*;
use vstd::string::StringExecFns;

verus! {

/// The whole configuration.
#[derive(Clone, Debug)]
pub struct Config {
    pub general: GeneralConfig,
    pub ui: UiConfig,
    pub scripts: ScriptsConfig,
    pub naming: NamingConfig,
}

/// General behaviour.
#[derive(Clone, Debug)]
pub struct GeneralConfig {
    /// Milliseconds between refreshes.
    pub refresh_interval: u64,
    pub max_history: usize,
    pub detect_external: bool,
    pub external_patterns: Vec<String>,
}

/// Appearance of the terminal interface.
#[derive(Clone, Debug)]
pub struct UiConfig {
    pub theme: String,
    pub section_order: Vec<String>,
    pub initial_focus: String,
}

/// Where scripts are looked for.
#[derive(Clone, Debug)]
pub struct ScriptsConfig {
    pub detect_files: Vec<String>,
    pub exclude_patterns: Vec<String>,
}

/// How processes are named.
#[derive(Clone, Debug)]
pub struct NamingConfig {
    pub format: String,
    pub format_no_port: String,
}

/// The default external process patterns.
pub open spec fn default_external_patterns() -> Seq<Seq<char>> {
    seq!["node"@, "java"@, "python"@, "ruby"@, "go run"@, "cargo run"@]
}

/// The default order of the interface's sections.
pub open spec fn default_section_order() -> Seq<Seq<char>> {
    seq!["processes"@, "scripts"@, "history"@]
}

/// The project files looked for by default.
pub open spec fn default_detect_files() -> Seq<Seq<char>> {
    seq!["package.json"@, "build.gradle"@, "build.gradle.kts"@, "Makefile"@, "Cargo.toml"@]
}

/// The script name patterns excluded by default.
pub open spec fn default_exclude_patterns() -> Seq<Seq<char>> {
    seq!["pre.*"@, "post.*"@]
}

fn strings_of(items: &[&str]) -> (r: Vec<String>)
    ensures
        r.deep_view() == items@.map_values(|s: &str| s@),
{
    let mut r: Vec<String> = Vec::new();
    let n = items.len();
    let mut i: usize = 0;
    while i < n
        invariant
            n == items@.len(),
            i <= n,
            r.deep_view() == items@.take(i as int).map_values(|s: &str| s@),
        decreases n - i,
    {
        let ghost before = r.deep_view();
        r.push(String::from_str(items[i]));
        proof {
            assert(r.deep_view() =~= before.push(items@[i as int]@));
            assert(items@.take(i + 1).map_values(|s: &str| s@) =~= items@.take(i as int).map_values(
                |s: &str| s@,
            ).push(items@[i as int]@));
        }
        i = i + 1;
    }
    proof {
        assert(items@.take(n as int) =~= items@);
    }
    r
}

impl Default for Config {
    /// The built-in configuration: refresh every second, keep 100 history
    /// entries, watch common development runtimes, dark theme, and name
    /// processes `{dir}/{script}/{port}`.
    fn default() -> (r: Self)
        ensures
            r.general.refresh_interval == 1000,
            r.general.max_history == 100,
            r.general.detect_external,
            r.general.external_patterns.deep_view() == default_external_patterns(),
            r.ui.theme@ == "dark"@,
            r.ui.section_order.deep_view() == default_section_order(),
            r.ui.initial_focus@ == "processes"@,
            r.scripts.detect_files.deep_view() == default_detect_files(),
            r.scripts.exclude_patterns.deep_view() == default_exclude_patterns(),
            r.naming.format@ == "{dir}/{script}/{port}"@,
            r.naming.format_no_port@ == "{dir}/{script}"@,
    {
        let patterns = ["node", "java", "python", "ruby", "go run", "cargo run"];
        let order = ["processes", "scripts", "history"];
        let files = ["package.json", "build.gradle", "build.gradle.kts", "Makefile", "Cargo.toml"];
        let excludes = ["pre.*", "post.*"];
        let external_patterns = strings_of(&patterns);
        let section_order = strings_of(&order);
        let detect_files = strings_of(&files);
        let exclude_patterns = strings_of(&excludes);
        proof {
            assert(patterns@.map_values(|s: &str| s@) =~= default_external_patterns());
            assert(order@.map_values(|s: &str| s@) =~= default_section_order());
            assert(files@.map_values(|s: &str| s@) =~= default_detect_files());
            assert(excludes@.map_values(|s: &str| s@) =~= default_exclude_patterns());
        }
        Config {
            general: GeneralConfig {
                refresh_interval: 1000,
                max_history: 100,
                detect_external: true,
                external_patterns,
            },
            ui: UiConfig {
                theme: String::from_str("dark"),
                section_order,
                initial_focus: String::from_str("processes"),
            },
            scripts: ScriptsConfig { detect_files, exclude_patterns },
            naming: NamingConfig {
                format: String::from_str("{dir}/{script}/{port}"),
                format_no_port: String::from_str("{dir}/{script}"),
            },
        }
    }
}

} // verus!
