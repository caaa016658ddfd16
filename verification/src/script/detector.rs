//! Finding the scripts a project defines.

use vstd::prelude::*;
use vstd::string::StringExecFns;
use crate::models::script::Script;
use crate::paths::{join_path, join_path_spec};
use crate::text::{has_prefix, starts_with, str_eq};
use crate::process::manager::opt_view;
use crate::script::makefile::{make_targets, makefile_targets};

verus! {

/// `serde_json::Error`, the error of a failed parse, held opaque.
#[verifier::external_type_specification]
#[verifier::external_body]
pub struct ExJsonError(serde_json::Error);

/// What a JSON text holds under the top-level member `key`: `None` when the
/// text is not JSON; otherwise the entries of that member when it is an
/// object, in the order `serde_json` keeps them, each with its value when that
/// is a string (`None` when there is no such object).
pub uninterp spec fn json_member_entries(content: Seq<char>, key: Seq<char>) -> Option<Option<Seq<(Seq<char>, Option<Seq<char>>)>>>;

/// What a `package.json` text says of scripts: its `scripts` object.
pub open spec fn package_scripts_field(content: Seq<char>) -> Option<Option<Seq<(Seq<char>, Option<Seq<char>>)>>> {
    json_member_entries(content, "scripts"@)
}

/// The view of a list of script entries.
pub open spec fn entries_view(entries: Seq<(String, Option<String>)>) -> Seq<(Seq<char>, Option<Seq<char>>)> {
    entries.map_values(|e: (String, Option<String>)| (e.0@, match e.1 {
        Some(c) => Some(c@),
        None => None,
    }))
}

/// Whether `a` comes strictly before `b` when their characters are compared
/// one by one by code point, a proper prefix coming first (the order of
/// `String`'s `Ord`).
pub open spec fn text_lt(a: Seq<char>, b: Seq<char>) -> bool
    decreases a.len(),
{
    if a.len() == 0 {
        b.len() > 0
    } else if b.len() == 0 {
        false
    } else if a[0] != b[0] {
        (a[0] as u32) < (b[0] as u32)
    } else {
        text_lt(a.drop_first(), b.drop_first())
    }
}

/// No text comes strictly before itself.
pub proof fn lemma_text_lt_irreflexive(a: Seq<char>)
    ensures
        !text_lt(a, a),
    decreases a.len(),
{
    if a.len() > 0 {
        lemma_text_lt_irreflexive(a.drop_first());
    }
}

/// The names of `entries` are in strictly ascending order.
pub open spec fn names_ascending(entries: Seq<(Seq<char>, Option<Seq<char>>)>) -> bool {
    forall|i: int, j: int| 0 <= i < j < entries.len() ==> text_lt(#[trigger] entries[i].0, #[trigger] entries[j].0)
}

/// Reads the object under the top-level member `key` of a JSON text.
///
/// Trusted: parses `content` with `serde_json::from_str` into a
/// `serde_json::Value`, takes its member `key` when that is an object, and
/// copies each of its entries (name, and the value when it is a string) in the
/// order the object iterates them. The contract says that the result is
/// `json_member_entries` of the text and the key, a function of these alone,
/// and that the member names come in strictly ascending order: without the
/// `preserve_order` feature (not enabled here) `serde_json`'s object is a
/// `BTreeMap<String, Value>`, which holds each key once and iterates keys in
/// `String` order. The parse itself is left to `serde_json`.
#[verifier::external_body]
fn read_object_member(content: &str, key: &str) -> (r: Result<Option<Vec<(String, Option<String>)>>, serde_json::Error>)
    ensures
        match r {
            Err(_) => json_member_entries(content@, key@) is None,
            Ok(None) => json_member_entries(content@, key@) == Some(None::<Seq<(Seq<char>, Option<Seq<char>>)>>),
            Ok(Some(v)) => json_member_entries(content@, key@) == Some(Some(entries_view(v@))) && names_ascending(
                entries_view(v@),
            ),
        },
{
    let parsed: serde_json::Value = serde_json::from_str(content)?;
    Ok(parsed.get(key).and_then(|v| v.as_object()).map(|obj| {
        obj.iter().map(|(name, value)| (name.clone(), value.as_str().map(|s| s.to_string()))).collect()
    }))
}

/// Whether an entry of a `scripts` object is kept as a script: its value is a
/// string and its name starts with neither `pre` nor `post`.
pub open spec fn script_kept(e: (Seq<char>, Option<Seq<char>>)) -> bool {
    &&& e.1 is Some
    &&& !has_prefix(e.0, "pre"@)
    &&& !has_prefix(e.0, "post"@)
}

/// The name and command of each kept entry, in order.
pub open spec fn kept_scripts(entries: Seq<(Seq<char>, Option<Seq<char>>)>) -> Seq<(Seq<char>, Seq<char>)>
    decreases entries.len(),
{
    if entries.len() == 0 {
        seq![]
    } else {
        let prev = kept_scripts(entries.drop_last());
        let e = entries.last();
        if script_kept(e) {
            prev.push((e.0, e.1->0))
        } else {
            prev
        }
    }
}

/// Every kept script's name is the name of an entry.
proof fn lemma_kept_names(entries: Seq<(Seq<char>, Option<Seq<char>>)>)
    ensures
        forall|i: int| 0 <= i < kept_scripts(entries).len() ==> exists|k: int| 0 <= k < entries.len()
            && #[trigger] kept_scripts(entries)[i].0 == entries[k].0,
    decreases entries.len(),
{
    if entries.len() > 0 {
        let prev = entries.drop_last();
        lemma_kept_names(prev);
        assert forall|i: int| 0 <= i < kept_scripts(entries).len() implies exists|k: int| 0 <= k < entries.len()
            && #[trigger] kept_scripts(entries)[i].0 == entries[k].0 by {
            if i < kept_scripts(prev).len() {
                let k = choose|k: int| 0 <= k < prev.len() && kept_scripts(prev)[i].0 == prev[k].0;
                assert(entries[k] == prev[k]);
            } else {
                assert(kept_scripts(entries)[i].0 == entries[entries.len() - 1].0);
            }
        }
    }
}

/// Keeping scripts keeps ascending names ascending.
proof fn lemma_kept_ascending(entries: Seq<(Seq<char>, Option<Seq<char>>)>)
    requires
        names_ascending(entries),
    ensures
        forall|i: int, j: int| 0 <= i < j < kept_scripts(entries).len() ==> text_lt(
            #[trigger] kept_scripts(entries)[i].0,
            #[trigger] kept_scripts(entries)[j].0,
        ),
    decreases entries.len(),
{
    if entries.len() > 0 {
        let prev = entries.drop_last();
        assert(names_ascending(prev)) by {
            assert forall|i: int, j: int| 0 <= i < j < prev.len() implies text_lt(#[trigger] prev[i].0, #[trigger] prev[j].0) by {
                assert(prev[i] == entries[i] && prev[j] == entries[j]);
            }
        }
        lemma_kept_ascending(prev);
        lemma_kept_names(prev);
        let kp = kept_scripts(prev);
        let ke = kept_scripts(entries);
        assert forall|i: int, j: int| 0 <= i < j < ke.len() implies text_lt(#[trigger] ke[i].0, #[trigger] ke[j].0) by {
            if j < kp.len() {
                assert(ke[i] == kp[i] && ke[j] == kp[j]);
            } else {
                let k = choose|k: int| 0 <= k < prev.len() && kp[i].0 == prev[k].0;
                assert(ke[i] == kp[i]);
                assert(ke[j].0 == entries[entries.len() - 1].0);
                assert(prev[k] == entries[k]);
                assert(text_lt(entries[k].0, entries[entries.len() - 1].0));
            }
        }
    }
}

/// `scripts` are the scripts `pairs` (name and command), found in
/// `source_file` of the project in `dir`, none of them running.
pub open spec fn scripts_are(scripts: Seq<Script>, pairs: Seq<(Seq<char>, Seq<char>)>, source_file: Seq<char>, dir: Seq<char>) -> bool {
    &&& scripts.len() == pairs.len()
    &&& forall|i: int| 0 <= i < scripts.len() ==> {
        &&& (#[trigger] scripts[i]).name@ == pairs[i].0
        &&& scripts[i].command@ == pairs[i].1
        &&& scripts[i].source_file@ == source_file
        &&& scripts[i].project_dir@ == dir
        &&& !scripts[i].is_running
        &&& scripts[i].running_process_id is None
    }
}

/// A script as name, command and the file it was found in.
pub type ScriptTriple = (Seq<char>, Seq<char>, Seq<char>);

/// The scripts `pairs` (name and command), each found in `source`.
pub open spec fn with_source(pairs: Seq<(Seq<char>, Seq<char>)>, source: Seq<char>) -> Seq<ScriptTriple> {
    pairs.map_values(|p: (Seq<char>, Seq<char>)| (p.0, p.1, source))
}

/// `scripts` are the scripts `triples` (name, command and source file) of
/// the project in `dir`, none of them running.
pub open spec fn found_scripts(scripts: Seq<Script>, triples: Seq<ScriptTriple>, dir: Seq<char>) -> bool {
    &&& scripts.len() == triples.len()
    &&& forall|i: int| 0 <= i < scripts.len() ==> {
        &&& (#[trigger] scripts[i]).name@ == triples[i].0
        &&& scripts[i].command@ == triples[i].1
        &&& scripts[i].source_file@ == triples[i].2
        &&& scripts[i].project_dir@ == dir
        &&& !scripts[i].is_running
        &&& scripts[i].running_process_id is None
    }
}

/// The scripts a `package.json` text offers: none when there is no such
/// file, when it is not JSON or has no `scripts` object.
pub open spec fn package_pairs(package_json: Option<Seq<char>>) -> Seq<(Seq<char>, Seq<char>)> {
    match package_json {
        Some(c) => match package_scripts_field(c) {
            Some(Some(e)) => kept_scripts(e),
            _ => seq![],
        },
        None => seq![],
    }
}

/// The tasks offered for a Gradle build: `build`, `test`, `run` and `clean`,
/// each run with `gradle`.
pub open spec fn gradle_pairs() -> Seq<(Seq<char>, Seq<char>)> {
    seq![
        ("build"@, "gradle build"@),
        ("test"@, "gradle test"@),
        ("run"@, "gradle run"@),
        ("clean"@, "gradle clean"@),
    ]
}

/// The targets of a Makefile, each run with `make`.
pub open spec fn make_pairs(text: Seq<char>) -> Seq<(Seq<char>, Seq<char>)> {
    make_targets(text).map_values(|t: Seq<char>| (t, "make "@ + t))
}

/// The commands offered for a Cargo package: `build`, `run`, `test` and
/// `check`, each run with `cargo`.
pub open spec fn cargo_pairs() -> Seq<(Seq<char>, Seq<char>)> {
    seq![
        ("build"@, "cargo build"@),
        ("run"@, "cargo run"@),
        ("test"@, "cargo test"@),
        ("check"@, "cargo check"@),
    ]
}

/// The scripts of the project in `dir`, from its build files in this order:
/// `package.json` (given by its text), the Gradle build file (given by its
/// name), the Makefile (given by its text) and `Cargo.toml`.
pub open spec fn project_scripts(
    dir: Seq<char>,
    package_json: Option<Seq<char>>,
    gradle_file: Option<Seq<char>>,
    makefile: Option<Seq<char>>,
    cargo_toml: bool,
) -> Seq<ScriptTriple> {
    with_source(package_pairs(package_json), package_json_path_spec(dir)) + match gradle_file {
        Some(g) => with_source(gradle_pairs(), join_path_spec(dir, g)),
        None => seq![],
    } + match makefile {
        Some(t) => with_source(make_pairs(t), join_path_spec(dir, "Makefile"@)),
        None => seq![],
    } + if cargo_toml {
        with_source(cargo_pairs(), join_path_spec(dir, "Cargo.toml"@))
    } else {
        seq![]
    }
}

/// The views of name and command pairs.
pub open spec fn pair_views(v: Seq<(String, String)>) -> Seq<(Seq<char>, Seq<char>)> {
    v.map_values(|p: (String, String)| (p.0@, p.1@))
}

/// What the library needs to know of a project directory's build files.
#[derive(Clone, Debug)]
pub struct ProjectFiles {
    /// The text of `package.json`, when it exists and could be read.
    pub package_json: Option<String>,
    /// The name of the Gradle build file (`build.gradle` or
    /// `build.gradle.kts`), when there is one.
    pub gradle_file: Option<String>,
    /// The text of `Makefile`, when it exists and could be read.
    pub makefile: Option<String>,
    /// Whether there is a `Cargo.toml`.
    pub has_cargo_toml: bool,
}

/// The Gradle build file of a project: `build.gradle` when it exists, else
/// `build.gradle.kts` when that exists.
pub fn gradle_build_file(has_build_gradle: bool, has_build_gradle_kts: bool) -> (r: Option<String>)
    ensures
        opt_view(r) == (if has_build_gradle {
            Some("build.gradle"@)
        } else if has_build_gradle_kts {
            Some("build.gradle.kts"@)
        } else {
            None::<Seq<char>>
        }),
{
    if has_build_gradle {
        Some(String::from_str("build.gradle"))
    } else if has_build_gradle_kts {
        Some(String::from_str("build.gradle.kts"))
    } else {
        None
    }
}

/// Appends the scripts `pairs`, found in `source` of the project in `dir`.
fn append_scripts(
    out: &mut Vec<Script>,
    pairs: &Vec<(String, String)>,
    source: &str,
    dir: &str,
    Ghost(before): Ghost<Seq<ScriptTriple>>,
)
    requires
        found_scripts(old(out)@, before, dir@),
    ensures
        found_scripts(final(out)@, before + with_source(pair_views(pairs@), source@), dir@),
{
    let ghost all = with_source(pair_views(pairs@), source@);
    let n = pairs.len();
    let mut i: usize = 0;
    while i < n
        invariant
            n == pairs@.len(),
            i <= n,
            all == with_source(pair_views(pairs@), source@),
            found_scripts(out@, before + all.take(i as int), dir@),
        decreases n - i,
    {
        let (name, command) = &pairs[i];
        out.push(Script::new(name.clone(), command.clone(), String::from_str(source), String::from_str(dir)));
        proof {
            assert(before + all.take(i + 1) =~= (before + all.take(i as int)).push(all[i as int]));
        }
        i = i + 1;
    }
    proof {
        assert(all.take(n as int) =~= all);
    }
}

/// The path of the `package.json` of the project in `dir`.
pub open spec fn package_json_path_spec(dir: Seq<char>) -> Seq<char> {
    join_path_spec(dir, "package.json"@)
}

/// Why the scripts of a project could not be read.
#[derive(Clone, Copy, Debug, PartialEq, Eq, Structural)]
pub enum ScriptError {
    /// The project file is not valid JSON.
    InvalidJson,
}

/// An entry of a directory listing, as far as project discovery needs it.
#[derive(Clone, Debug)]
pub struct DirEntryInfo {
    /// The entry's path.
    pub path: String,
    /// The entry's name, when it is valid UTF-8.
    pub file_name: Option<String>,
    /// Whether the entry is a directory.
    pub is_dir: bool,
    /// Whether the entry holds a `package.json`.
    pub has_package_json: bool,
}

/// Whether a directory entry is a project: a directory, not hidden, not
/// `node_modules`, holding a `package.json`.
pub open spec fn is_project_entry(e: DirEntryInfo) -> bool {
    &&& e.is_dir
    &&& match e.file_name {
        Some(n) => !has_prefix(n@, "."@) && n@ != "node_modules"@,
        None => true,
    }
    &&& e.has_package_json
}

/// The paths of the project entries, in order.
pub open spec fn project_paths(entries: Seq<DirEntryInfo>) -> Seq<Seq<char>>
    decreases entries.len(),
{
    if entries.len() == 0 {
        seq![]
    } else {
        let prev = project_paths(entries.drop_last());
        if is_project_entry(entries.last()) {
            prev.push(entries.last().path@)
        } else {
            prev
        }
    }
}

/// Finds the scripts of projects.
pub struct ScriptDetector;

impl ScriptDetector {
    /// The path of the `package.json` of the project in `dir`.
    pub fn package_json_path(dir: &str) -> (r: String)
        ensures
            r@ == package_json_path_spec(dir@),
    {
        join_path(dir, "package.json")
    }

    /// The scripts made from the entries of a `scripts` object: each entry whose
    /// value is a string and whose name starts with neither `pre` nor `post`,
    /// in order.
    pub fn scripts_from_entries(entries: &Vec<(String, Option<String>)>, source_file: &str, dir: &str) -> (r: Vec<Script>)
        ensures
            scripts_are(r@, kept_scripts(entries_view(entries@)), source_file@, dir@),
    {
        let ghost all = entries_view(entries@);
        let mut out: Vec<Script> = Vec::new();
        let n = entries.len();
        let mut i: usize = 0;
        while i < n
            invariant
                n == entries@.len(),
                all == entries_view(entries@),
                i <= n,
                scripts_are(out@, kept_scripts(all.take(i as int)), source_file@, dir@),
            decreases n - i,
        {
            let ghost prev = out@;
            let (name, value) = &entries[i];
            proof {
                assert(all.take(i + 1).drop_last() =~= all.take(i as int));
                assert(all.take(i + 1).last() == all[i as int]);
            }
            match value {
                Some(command) => {
                    if !starts_with(name.as_str(), "pre") && !starts_with(name.as_str(), "post") {
                        out.push(Script::new(name.clone(), command.clone(), String::from_str(source_file), String::from_str(dir)));
                    }
                },
                None => {},
            }
            i = i + 1;
        }
        proof {
            assert(all.take(n as int) =~= all);
        }
        out
    }

    /// The scripts of a `package.json` text of the project in `dir`. Fails
    /// exactly when the text is not JSON; a text without a `scripts` object
    /// gives no scripts.
    pub fn detect_package_json(dir: &str, content: &str) -> (r: Result<Vec<Script>, ScriptError>)
        ensures
            r is Err <==> package_scripts_field(content@) is None,
            r matches Ok(s) ==> scripts_are(
                s@,
                match package_scripts_field(content@)->0 {
                    Some(e) => kept_scripts(e),
                    None => seq![],
                },
                package_json_path_spec(dir@),
                dir@,
            ),
            r matches Ok(s) ==> forall|i: int, j: int| 0 <= i < j < s@.len() ==> text_lt(
                (#[trigger] s@[i]).name@,
                (#[trigger] s@[j]).name@,
            ) && s@[i].name@ != s@[j].name@,
    {
        let path = Self::package_json_path(dir);
        match read_object_member(content, "scripts") {
            Err(_) => Err(ScriptError::InvalidJson),
            Ok(None) => Ok(Vec::new()),
            Ok(Some(entries)) => {
                let scripts = Self::scripts_from_entries(&entries, path.as_str(), dir);
                proof {
                    let e = entries_view(entries@);
                    lemma_kept_ascending(e);
                    assert forall|i: int, j: int| 0 <= i < j < scripts@.len() implies text_lt(
                        (#[trigger] scripts@[i]).name@,
                        (#[trigger] scripts@[j]).name@,
                    ) && scripts@[i].name@ != scripts@[j].name@ by {
                        assert(text_lt(kept_scripts(e)[i].0, kept_scripts(e)[j].0));
                        lemma_text_lt_irreflexive(scripts@[i].name@);
                    }
                }
                Ok(scripts)
            },
        }
    }

    /// The scripts of the project in `dir`, from what is known of its build
    /// files: the scripts of `package.json` (none when it is missing,
    /// unreadable or invalid), the Gradle tasks when there is a Gradle build
    /// file, the Makefile targets, and the Cargo commands when there is a
    /// `Cargo.toml`, in this order.
    pub fn detect_scripts(dir: &str, files: ProjectFiles) -> (r: Vec<Script>)
        ensures
            found_scripts(
                r@,
                project_scripts(
                    dir@,
                    opt_view(files.package_json),
                    opt_view(files.gradle_file),
                    opt_view(files.makefile),
                    files.has_cargo_toml,
                ),
                dir@,
            ),
    {
        let ghost pj = opt_view(files.package_json);
        let mut out: Vec<Script> = match files.package_json {
            None => Vec::new(),
            Some(content) => match Self::detect_package_json(dir, content.as_str()) {
                Ok(scripts) => scripts,
                Err(_) => Vec::new(),
            },
        };
        let ghost acc0 = with_source(package_pairs(pj), package_json_path_spec(dir@));
        proof {
            assert(found_scripts(out@, acc0, dir@));
        }
        let gradle_part: Vec<(String, String)> = match &files.gradle_file {
            Some(_) => vec![
                (String::from_str("build"), String::from_str("gradle build")),
                (String::from_str("test"), String::from_str("gradle test")),
                (String::from_str("run"), String::from_str("gradle run")),
                (String::from_str("clean"), String::from_str("gradle clean")),
            ],
            None => Vec::new(),
        };
        let gradle_source = match &files.gradle_file {
            Some(g) => join_path(dir, g.as_str()),
            None => String::new(),
        };
        append_scripts(&mut out, &gradle_part, gradle_source.as_str(), dir, Ghost(acc0));
        let ghost acc1 = acc0 + with_source(pair_views(gradle_part@), gradle_source@);
        proof {
            let g = match files.gradle_file {
                Some(g) => with_source(gradle_pairs(), join_path_spec(dir@, g@)),
                None => seq![],
            };
            if files.gradle_file is Some {
                assert(pair_views(gradle_part@) =~= gradle_pairs());
            } else {
                assert(with_source(pair_views(gradle_part@), gradle_source@) =~= Seq::<ScriptTriple>::empty());
            }
            assert(acc1 =~= acc0 + g);
        }
        let mut make_part: Vec<(String, String)> = Vec::new();
        match &files.makefile {
            Some(text) => {
                let targets = makefile_targets(text.as_str());
                let m = targets.len();
                let mut i: usize = 0;
                while i < m
                    invariant
                        m == targets@.len(),
                        i <= m,
                        pair_views(make_part@) =~= targets.deep_view().take(i as int).map_values(
                            |t: Seq<char>| (t, "make "@ + t),
                        ),
                    decreases m - i,
                {
                    let ghost prev = make_part@;
                    let mut command = String::from_str("make ");
                    command.append(targets[i].as_str());
                    make_part.push((targets[i].clone(), command));
                    proof {
                        assert(pair_views(make_part@) =~= pair_views(prev).push(
                            (targets@[i as int]@, "make "@ + targets@[i as int]@),
                        ));
                        assert(targets.deep_view().take(i + 1).map_values(|t: Seq<char>| (t, "make "@ + t))
                            =~= targets.deep_view().take(i as int).map_values(|t: Seq<char>| (t, "make "@ + t)).push(
                            (targets@[i as int]@, "make "@ + targets@[i as int]@),
                        ));
                        assert(targets.deep_view()[i as int] == targets@[i as int]@);
                        assert(targets.deep_view().take(i + 1) =~= targets.deep_view().take(i as int).push(
                            targets@[i as int]@,
                        ));
                    }
                    i = i + 1;
                }
                proof {
                    assert(targets.deep_view().take(m as int) =~= targets.deep_view());
                }
            },
            None => {},
        }
        let make_source = join_path(dir, "Makefile");
        append_scripts(&mut out, &make_part, make_source.as_str(), dir, Ghost(acc1));
        let ghost acc2 = acc1 + with_source(pair_views(make_part@), make_source@);
        proof {
            if files.makefile is None {
                assert(with_source(pair_views(make_part@), make_source@) =~= Seq::<ScriptTriple>::empty());
            }
        }
        let cargo_part: Vec<(String, String)> = if files.has_cargo_toml {
            vec![
                (String::from_str("build"), String::from_str("cargo build")),
                (String::from_str("run"), String::from_str("cargo run")),
                (String::from_str("test"), String::from_str("cargo test")),
                (String::from_str("check"), String::from_str("cargo check")),
            ]
        } else {
            Vec::new()
        };
        let cargo_source = join_path(dir, "Cargo.toml");
        append_scripts(&mut out, &cargo_part, cargo_source.as_str(), dir, Ghost(acc2));
        proof {
            if files.has_cargo_toml {
                assert(pair_views(cargo_part@) =~= cargo_pairs());
            } else {
                assert(with_source(pair_views(cargo_part@), cargo_source@) =~= Seq::<ScriptTriple>::empty());
            }
        }
        out
    }

    /// The project directories at `start_dir`: the directory itself when it
    /// holds a `package.json`, then each listed entry that is a project, in
    /// listing order.
    pub fn find_project_dirs(start_dir: &str, start_has_package_json: bool, entries: &Vec<DirEntryInfo>) -> (r: Vec<String>)
        ensures
            r.deep_view() == (if start_has_package_json { seq![start_dir@] } else { Seq::<Seq<char>>::empty() }) + project_paths(entries@),
    {
        let mut out: Vec<String> = Vec::new();
        if start_has_package_json {
            out.push(String::from_str(start_dir));
        }
        let ghost head = out.deep_view();
        let n = entries.len();
        let mut i: usize = 0;
        proof {
            assert(head + project_paths(entries@.take(0)) =~= head);
        }
        while i < n
            invariant
                n == entries@.len(),
                i <= n,
                out.deep_view() == head + project_paths(entries@.take(i as int)),
            decreases n - i,
        {
            let e = &entries[i];
            proof {
                assert(entries@.take(i + 1).drop_last() =~= entries@.take(i as int));
                assert(entries@.take(i + 1).last() == entries@[i as int]);
            }
            let skip = match &e.file_name {
                Some(name) => starts_with(name.as_str(), ".") || str_eq(name.as_str(), "node_modules"),
                None => false,
            };
            let ghost before = out.deep_view();
            if e.is_dir && !skip && e.has_package_json {
                out.push(e.path.clone());
                proof {
                    assert(out.deep_view() =~= before.push(e.path@));
                }
            }
            i = i + 1;
        }
        proof {
            assert(entries@.take(n as int) =~= entries@);
        }
        out
    }
}

} // verus!
