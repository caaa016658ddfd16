//! Preparing scripts and command lines to run.

use vstd::prelude::*;
use vstd::string::StringExecFns;
use crate::models::process::{ManagedProcess, ProcessSource};
use crate::models::script::Script;
use crate::paths::{file_name, file_name_of};
use crate::process::manager::{ProcessManager, detect_port_spec, name_spec, opt_view};
use crate::text::{chars_of, split_words, words, join, join_strings, push_char};

verus! {

/// Why a command could not be prepared.
#[derive(Clone, Copy, Debug, PartialEq, Eq, Structural)]
pub enum RunError {
    /// The command line holds no word.
    EmptyCommand,
}

impl RunError {
    /// The message reported for the error.
    pub fn message(&self) -> (r: &'static str)
        ensures
            r@ == "Empty command"@,
    {
        "Empty command"
    }
}

/// The views of a list of strings.
pub open spec fn strings_view(v: Seq<String>) -> Seq<Seq<char>> {
    v.map_values(|s: String| s@)
}

/// Everything needed to start a process, except the start itself.
#[derive(Clone, Debug)]
pub struct LaunchPlan {
    /// The process's name.
    pub name: String,
    /// The program to run.
    pub program: String,
    /// The program's arguments.
    pub args: Vec<String>,
    /// The working directory.
    pub cwd: String,
    /// The port the process is expected to listen on.
    pub port: Option<u16>,
    /// Where the command came from.
    pub source: ProcessSource,
}

impl LaunchPlan {
    /// The record of the process started from this plan with identifier `pid`.
    pub fn into_process(self, pid: u32) -> (r: ManagedProcess)
        ensures
            r.name == self.name,
            r.pid == pid,
            r.command == self.program,
            r.args == self.args,
            r.cwd == self.cwd,
            r.port == self.port,
            r.source == self.source,
    {
        ManagedProcess::new(self.name, pid, self.program, self.args, self.cwd, self.port, self.source)
    }
}

/// The text a script's port is looked for in: its command, a space, and the
/// extra arguments joined by spaces.
pub open spec fn script_port_text(command: Seq<char>, extra: Seq<Seq<char>>) -> Seq<char> {
    command + seq![' '] + join(extra, seq![' '])
}

/// The file name recorded as a script's origin: the final component of its
/// source file, or nothing.
pub open spec fn origin_file(source_file: Seq<char>) -> Seq<char> {
    match file_name_of(source_file) {
        Some(n) => n,
        None => Seq::empty(),
    }
}

/// Prepares scripts and command lines to run.
pub struct ScriptRunner;

impl ScriptRunner {
    /// Splits a command line into its program (the first word) and arguments
    /// (the other words, then `extra_args`). Fails when the line holds no word.
    pub fn parse_command(command: &str, extra_args: &[String]) -> (r: Result<(String, Vec<String>), RunError>)
        ensures
            r is Err <==> words(command@).len() == 0,
            r matches Ok(p) ==> {
                &&& p.0@ == words(command@)[0]
                &&& strings_view(p.1@) == words(command@).drop_first() + strings_view(extra_args@)
            },
    {
        let parts = split_words(&chars_of(command));
        if parts.len() == 0 {
            return Err(RunError::EmptyCommand);
        }
        let program = parts[0].clone();
        let mut args: Vec<String> = Vec::new();
        let n = parts.len();
        let mut i: usize = 1;
        while i < n
            invariant
                n == parts@.len(),
                1 <= i <= n,
                parts.deep_view() == words(command@),
                strings_view(args@) == words(command@).subrange(1, i as int),
            decreases n - i,
        {
            args.push(parts[i].clone());
            proof {
                assert(words(command@).subrange(1, i + 1) =~= words(command@).subrange(1, i as int).push(parts@[i as int]@));
                assert(strings_view(args@) =~= words(command@).subrange(1, i + 1));
            }
            i = i + 1;
        }
        let ghost base = strings_view(args@);
        let m = extra_args.len();
        let mut j: usize = 0;
        while j < m
            invariant
                m == extra_args@.len(),
                j <= m,
                strings_view(args@) == base + strings_view(extra_args@).take(j as int),
            decreases m - j,
        {
            let ghost prev = args@;
            args.push(extra_args[j].clone());
            proof {
                assert(args@ =~= prev.push(extra_args@[j as int]));
                assert(strings_view(args@) =~= strings_view(prev).push(extra_args@[j as int]@));
                assert(strings_view(extra_args@).take(j + 1) =~= strings_view(extra_args@).take(j as int).push(extra_args@[j as int]@));
                assert(strings_view(args@) =~= base + strings_view(extra_args@).take(j + 1));
            }
            j = j + 1;
        }
        proof {
            assert(words(command@).subrange(1, n as int) =~= words(command@).drop_first());
            assert(strings_view(extra_args@).take(m as int) =~= strings_view(extra_args@));
        }
        Ok((program, args))
    }

    /// Prepares a script to run in its project directory. The port is
    /// `custom_port` when given, else the one found in the script's command
    /// followed by the extra arguments; the name is `custom_name` when given,
    /// else the generated `dir/script[/port]` name. Fails when the script's
    /// command holds no word.
    pub fn plan_script(script: &Script, custom_name: Option<String>, custom_port: Option<u16>, extra_args: Vec<String>) -> (r: Result<LaunchPlan, RunError>)
        ensures
            r is Err <==> words(script.command@).len() == 0,
            r matches Ok(p) ==> {
                &&& p.program@ == words(script.command@)[0]
                &&& strings_view(p.args@) == words(script.command@).drop_first() + strings_view(extra_args@)
                &&& p.cwd@ == script.project_dir@
                &&& p.port == match custom_port {
                    Some(port) => Some(port),
                    None => detect_port_spec(script_port_text(script.command@, strings_view(extra_args@))),
                }
                &&& p.name@ == match custom_name {
                    Some(n) => n@,
                    None => name_spec(file_name_of(script.project_dir@), script.name@, p.port),
                }
                &&& p.source matches ProcessSource::Script { file, name } && file@ == origin_file(script.source_file@) && name@ == script.name@
            },
    {
        let (program, args) = match Self::parse_command(script.command.as_str(), extra_args.as_slice()) {
            Ok(parsed) => parsed,
            Err(e) => return Err(e),
        };
        let mut text = script.command.clone();
        push_char(&mut text, ' ');
        let joined = join_strings(&extra_args, " ");
        text.append(joined.as_str());
        proof {
            reveal_strlit(" ");
            assert(" "@ =~= seq![' ']);
            assert(extra_args.deep_view() =~= strings_view(extra_args@));
        }
        let port = match custom_port {
            Some(p) => Some(p),
            None => ProcessManager::detect_port(text.as_str()),
        };
        let name = match custom_name {
            Some(n) => n,
            None => ProcessManager::generate_name(script.name.as_str(), script.project_dir.as_str(), port),
        };
        let file = match file_name(script.source_file.as_str()) {
            Some(f) => f,
            None => String::new(),
        };
        let plan = LaunchPlan {
            name,
            program,
            args,
            cwd: script.project_dir.clone(),
            port,
            source: ProcessSource::Script { file, name: script.name.clone() },
        };
        proof {
            assert(text@ == script_port_text(script.command@, strings_view(extra_args@)));
            assert(plan.cwd@ == script.project_dir@);
            assert(plan.source matches ProcessSource::Script { file, name } && file@ == origin_file(script.source_file@) && name@ == script.name@);
        }
        Ok(plan)
    }

    /// Prepares a command line typed by the user to run in `cwd`. The port is
    /// the one found in the line; the name is `custom_name` when given, else the
    /// generated name with the program in place of a script name. Fails when the
    /// line holds no word.
    pub fn plan_manual_command(command: &str, cwd: String, custom_name: Option<String>) -> (r: Result<LaunchPlan, RunError>)
        ensures
            r is Err <==> words(command@).len() == 0,
            r matches Ok(p) ==> {
                &&& p.program@ == words(command@)[0]
                &&& strings_view(p.args@) == words(command@).drop_first()
                &&& p.cwd@ == cwd@
                &&& p.port == detect_port_spec(command@)
                &&& p.name@ == match custom_name {
                    Some(n) => n@,
                    None => name_spec(file_name_of(cwd@), words(command@)[0], p.port),
                }
                &&& p.source matches ProcessSource::Manual { command: c } && c@ == command@
            },
    {
        let no_extra: Vec<String> = Vec::new();
        let (program, args) = match Self::parse_command(command, no_extra.as_slice()) {
            Ok(parsed) => parsed,
            Err(e) => return Err(e),
        };
        proof {
            assert(strings_view(no_extra@) =~= Seq::<Seq<char>>::empty());
            assert(words(command@).drop_first() + Seq::<Seq<char>>::empty() =~= words(command@).drop_first());
        }
        let port = ProcessManager::detect_port(command);
        let name = match custom_name {
            Some(n) => n,
            None => ProcessManager::generate_name(program.as_str(), cwd.as_str(), port),
        };
        Ok(LaunchPlan {
            name,
            program,
            args,
            cwd,
            port,
            source: ProcessSource::Manual { command: String::from_str(command) },
        })
    }
}

} // verus!
