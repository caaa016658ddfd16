//! Properties that relate several operations of the library.

use vstd::prelude::*;
use crate::models::history::HistoryEntry;
use crate::models::process::ManagedProcess;
use crate::process::history::recorded;
use crate::process::manager::{has_name, name_spec, name_dir, detect_port_spec, first_port_spec, regex_group1};
use crate::script::detector::{kept_scripts, script_kept, project_paths, DirEntryInfo};
use crate::script::makefile::{make_targets, name_len, line_len, lemma_line_len, lemma_name_len};
use crate::text::{
    command_line, decimal, has_prefix, is_word, lemma_decimal_value, lemma_parse_decimal,
    lemma_words_are_words, lemma_words_of_command_line, parse_unsigned_spec, words,
};
use crate::tui::{next_selection, previous_selection, selection_after_removal};

verus! {

/// Reading back the full command of a process whose command and arguments are
/// single words gives that command followed by those arguments.
pub proof fn law_full_command_reads_back(command: Seq<char>, args: Seq<Seq<char>>)
    requires
        is_word(command),
        forall|i: int| 0 <= i < args.len() ==> is_word(#[trigger] args[i]),
    ensures
        words(command_line(command, args)) == seq![command] + args,
{
    lemma_words_of_command_line(command, args);
}

/// Splitting a command line, writing the program and its arguments back as one
/// line, and splitting that line again gives the same program and arguments.
pub proof fn law_parse_is_stable(line: Seq<char>)
    requires
        words(line).len() > 0,
    ensures
        words(command_line(words(line)[0], words(line).drop_first())) == words(line),
{
    let ws = words(line);
    lemma_words_are_words(line);
    assert forall|i: int| 0 <= i < ws.drop_first().len() implies is_word(#[trigger] ws.drop_first()[i]) by {
        assert(ws.drop_first()[i] == ws[i + 1]);
    }
    lemma_words_of_command_line(ws[0], ws.drop_first());
    assert(seq![ws[0]] + ws.drop_first() =~= ws);
}

/// A port written in decimal reads back as the same port.
pub proof fn law_port_reads_back(port: u16)
    ensures
        parse_unsigned_spec(decimal(port as nat), u16::MAX as int) == Some(port as int),
{
    lemma_parse_decimal(port as nat, u16::MAX as int);
}

/// A name generated with a port is the name generated without it, followed by
/// `/` and the port in decimal.
pub proof fn law_name_with_port(file_name: Option<Seq<char>>, script: Seq<char>, port: u16)
    ensures
        name_spec(file_name, script, Some(port)) == name_spec(file_name, script, None) + seq!['/'] + decimal(
            port as nat,
        ),
{
    assert(name_dir(file_name) + seq!['/'] + script + seq!['/'] + decimal(port as nat) =~= (name_dir(file_name)
        + seq!['/'] + script) + seq!['/'] + decimal(port as nat));
}

/// After a recording into a history that keeps at least one entry, the
/// recorded entry is the newest, the older entries follow in their order, and
/// a history within its bound stays within it.
pub proof fn law_recorded_entry_is_newest(entries: Seq<HistoryEntry>, entry: HistoryEntry, max: nat)
    requires
        max > 0,
    ensures
        recorded(entries, entry, max)[0] == entry,
        recorded(entries, entry, max).drop_first() == entries.take(recorded(entries, entry, max).len() - 1),
        entries.len() <= max ==> recorded(entries, entry, max).len() <= max,
        recorded(entries, entry, max).len() == if entries.len() + 1 > max { max } else { entries.len() + 1 },
{
    let all = seq![entry] + entries;
    let r = recorded(entries, entry, max);
    assert(all[0] == entry);
    assert(r.drop_first() =~= entries.take(r.len() - 1));
}

/// A registered process can be found again under its identifier, and by its
/// name.
pub proof fn law_added_process_is_found(m: Map<u128, ManagedProcess>, p: ManagedProcess)
    ensures
        m.insert(p.id, p).contains_key(p.id),
        m.insert(p.id, p)[p.id] == p,
        has_name(m.insert(p.id, p), p.name@),
{
    assert(m.insert(p.id, p).contains_key(p.id) && m.insert(p.id, p)[p.id].name@ == p.name@);
}

/// Unregistering a process that was just registered under a fresh identifier
/// gives back the registry as it was.
pub proof fn law_remove_undoes_add(m: Map<u128, ManagedProcess>, p: ManagedProcess)
    requires
        !m.contains_key(p.id),
    ensures
        m.insert(p.id, p).remove(p.id) == m,
{
    assert(m.insert(p.id, p).remove(p.id) =~= m);
}

/// A process that was stopped and unregistered is no longer found, and every
/// other process stays registered as it was.
pub proof fn law_killed_process_is_gone(m: Map<u128, ManagedProcess>, id: u128)
    ensures
        !m.remove(id).contains_key(id),
        forall|k: u128| k != id && m.contains_key(k) ==> #[trigger] m.remove(id).contains_key(k) && m.remove(id)[k] == m[k],
{
}

/// No script kept from a `scripts` object has a name starting with `pre` or
/// `post`.
pub proof fn law_no_pre_post_scripts(entries: Seq<(Seq<char>, Option<Seq<char>>)>)
    ensures
        forall|i: int| 0 <= i < kept_scripts(entries).len() ==> {
            &&& !has_prefix((#[trigger] kept_scripts(entries)[i]).0, "pre"@)
            &&& !has_prefix(kept_scripts(entries)[i].0, "post"@)
        },
    decreases entries.len(),
{
    if entries.len() > 0 {
        law_no_pre_post_scripts(entries.drop_last());
        let prev = kept_scripts(entries.drop_last());
        let e = entries.last();
        if script_kept(e) {
            assert forall|i: int| 0 <= i < kept_scripts(entries).len() implies {
                &&& !has_prefix((#[trigger] kept_scripts(entries)[i]).0, "pre"@)
                &&& !has_prefix(kept_scripts(entries)[i].0, "post"@)
            } by {
                if i < prev.len() {
                    assert(kept_scripts(entries)[i] == prev[i]);
                }
            }
        }
    }
}

/// Moving the selection down and then up in a non-empty list returns to an
/// item that was selected, and so does moving up and then down.
pub proof fn law_previous_undoes_next(i: usize, len: nat)
    requires
        i < len,
        len <= usize::MAX,
    ensures
        previous_selection(next_selection(Some(i), len), len) == Some(i),
        next_selection(previous_selection(Some(i), len), len) == Some(i),
{
    if i + 1 < len {
        assert((i + 1) % (len as int) == i + 1) by {
            vstd::arithmetic::div_mod::lemma_small_mod((i + 1) as nat, len);
        }
    } else {
        assert((i + 1) % (len as int) == 0) by {
            vstd::arithmetic::div_mod::lemma_mod_self_0(len as int);
        }
    }
    if i == 0 {
        assert(((len - 1) + 1) % (len as int) == 0) by {
            vstd::arithmetic::div_mod::lemma_mod_self_0(len as int);
        }
    } else {
        assert(((i - 1) + 1) % (len as int) == i) by {
            vstd::arithmetic::div_mod::lemma_small_mod(i as nat, len);
        }
    }
}

/// In a non-empty list, moving down always selects an item of the list, and
/// so does moving up from nothing or from an item of the list.
pub proof fn law_moves_stay_in_list(sel: Option<usize>, len: nat)
    requires
        0 < len <= usize::MAX,
    ensures
        next_selection(sel, len) matches Some(j) && j < len,
        (sel matches Some(i) ==> i < len) ==> (previous_selection(sel, len) matches Some(j) && j < len),
{
    if let Some(i) = sel {
        vstd::arithmetic::div_mod::lemma_mod_bound((i + 1) as int, len as int);
    }
}

/// After the selected item of a list is removed, the selection is an item of
/// the shorter list, or nothing when the list became empty.
pub proof fn law_selection_survives_removal(idx: usize, old_len: nat)
    requires
        idx < old_len,
        old_len <= usize::MAX,
    ensures
        old_len - 1 == 0 ==> selection_after_removal(Some(idx), idx, (old_len - 1) as nat) is None,
        old_len - 1 > 0 ==> (selection_after_removal(Some(idx), idx, (old_len - 1) as nat) matches Some(j)
            && j < old_len - 1),
{
}

/// The port a captured text names: the text read as a decimal number that
/// fits in a `u16`.
pub open spec fn captured_port(g: Option<Seq<char>>) -> Option<u16> {
    match g {
        Some(d) => match parse_unsigned_spec(d, u16::MAX as int) {
            Some(v) => Some(v as u16),
            None => None,
        },
        None => None,
    }
}

/// The port of a command line is the number that the first of these regular
/// expressions captures as a valid port, trying them in this order: `-p N`,
/// `--port N`, `--port=N`, `:NNNN` (four or five digits, at a word end) and
/// `PORT=N`; no port when none of them does. (What each expression matches is
/// the `regex` crate's, named by `regex_group1`.)
pub proof fn law_port_detection(text: Seq<char>)
    ensures
        ({
            let short = captured_port(regex_group1("-p\\s+(\\d+)"@, text));
            let long = captured_port(regex_group1("--port\\s+(\\d+)"@, text));
            let assign = captured_port(regex_group1("--port=(\\d+)"@, text));
            let colon = captured_port(regex_group1(":(\\d{4,5})\\b"@, text));
            let env = captured_port(regex_group1("PORT=(\\d+)"@, text));
            detect_port_spec(text) == if short is Some {
                short
            } else if long is Some {
                long
            } else if assign is Some {
                assign
            } else if colon is Some {
                colon
            } else {
                env
            }
        }),
{
    let caps = crate::process::manager::port_patterns().map_values(|p: Seq<char>| regex_group1(p, text));
    assert(caps.drop_first()[0] == caps[1]);
    assert(caps.drop_first().drop_first()[0] == caps[2]);
    assert(caps.drop_first().drop_first().drop_first()[0] == caps[3]);
    assert(caps.drop_first().drop_first().drop_first().drop_first()[0] == caps[4]);
    assert(caps.drop_first().drop_first().drop_first().drop_first().drop_first().len() == 0);
    reveal_with_fuel(first_port_spec, 6);
}

/// A command line on which `--port` followed by whitespace captures the
/// decimal digits of a port `p`, and `-p` captures no valid port, listens on
/// `p`, whatever follows the number.
pub proof fn law_long_port_option(text: Seq<char>, p: u16)
    requires
        regex_group1("--port\\s+(\\d+)"@, text) == Some(decimal(p as nat)),
        captured_port(regex_group1("-p\\s+(\\d+)"@, text)) is None,
    ensures
        detect_port_spec(text) == Some(p),
{
    law_port_detection(text);
    lemma_parse_decimal(p as nat, u16::MAX as int);
}

/// A Makefile line made of a name of letters, digits, `_`, `-`, `.` and `/`
/// (not starting with `.`), directly followed by `:` that does not begin
/// `:=`, declares exactly that name as a target; the targets of a text
/// starting with such a line are that name followed by the targets of the
/// lines after it.
pub proof fn law_makefile_target_line(name: Seq<char>, rest: Seq<char>, more: Seq<char>)
    requires
        name.len() > 0,
        name[0] != '.',
        forall|i: int| 0 <= i < name.len() ==> {
            let c = #[trigger] name[i];
            ('a' <= c && c <= 'z') || ('A' <= c && c <= 'Z') || ('0' <= c && c <= '9') || c == '_' || c == '-' || c
                == '.' || c == '/'
        },
        forall|i: int| 0 <= i < rest.len() ==> rest[i] != '\n',
        !(rest.len() > 0 && rest[0] == '='),
    ensures
        make_targets(name + seq![':'] + rest) == seq![name],
        make_targets(name + seq![':'] + rest + seq!['\n'] + more) == seq![name] + make_targets(more),
{
    let line = name + seq![':'] + rest;
    let k = name.len();
    assert forall|j: int| 0 <= j < k implies crate::script::makefile::is_target_char(line[j]) by {
        assert(line[j] == name[j]);
    }
    lemma_name_len(line, k);
    assert(name_len(line) == k);
    assert forall|j: int| 0 <= j < line.len() implies line[j] != '\n' by {
        if j < k {
            assert(line[j] == name[j]);
        } else if j > k {
            assert(line[j] == rest[j - k - 1]);
        }
    }
    lemma_line_len(line, line.len());
    assert(line.take(k as int) =~= name);
    if rest.len() > 0 {
        assert(line[k + 1int] == rest[0]);
    }
    assert(line.take(line.len() as int) =~= line);
    assert(make_targets(line) =~= seq![name]);
    let s = line + seq!['\n'] + more;
    assert forall|j: int| 0 <= j < line.len() implies s[j] != '\n' by {
        assert(s[j] == line[j]);
    }
    lemma_line_len(s, line.len());
    assert(s.take(line.len() as int) =~= line);
    assert(s.skip(line.len() + 1int) =~= more);
}

/// Every entry of a `scripts` object whose value is a string and whose name
/// starts with neither `pre` nor `post` is kept, with that name and command.
pub proof fn law_kept_scripts_complete(entries: Seq<(Seq<char>, Option<Seq<char>>)>, k: int)
    requires
        0 <= k < entries.len(),
        entries[k].1 is Some,
        !has_prefix(entries[k].0, "pre"@),
        !has_prefix(entries[k].0, "post"@),
    ensures
        exists|i: int| 0 <= i < kept_scripts(entries).len() && #[trigger] kept_scripts(entries)[i] == (entries[k].0, entries[k].1->0),
    decreases entries.len(),
{
    let prev = entries.drop_last();
    if k == entries.len() - 1 {
        assert(kept_scripts(entries)[kept_scripts(prev).len() as int] == (entries[k].0, entries[k].1->0));
    } else {
        assert(prev[k] == entries[k]);
        law_kept_scripts_complete(prev, k);
        let i = choose|i: int| 0 <= i < kept_scripts(prev).len() && #[trigger] kept_scripts(prev)[i] == (prev[k].0, prev[k].1->0);
        assert(kept_scripts(entries)[i] == kept_scripts(prev)[i]);
    }
}

/// When the selected item of a list is removed and items remain at its
/// position, the selection stays on that position (now the item that
/// followed); when it was the last item, the selection moves to the new last
/// item; when the list became empty, nothing is selected.
pub proof fn law_selection_after_removal(idx: usize, len: nat)
    ensures
        idx < len ==> selection_after_removal(Some(idx), idx, len) == Some(idx),
        0 < len <= idx ==> selection_after_removal(Some(idx), idx, len) == Some((len - 1) as usize),
        len == 0 ==> selection_after_removal(Some(idx), idx, len) is None,
{
}

/// A listed directory holding a `package.json` is a project exactly when its
/// name does not start with `.` and is not `node_modules` (a name that is not
/// valid text does not exclude it); other entries are never projects.
/// Projects are listed in listing order.
pub proof fn law_project_dirs(entries: Seq<DirEntryInfo>, e: DirEntryInfo)
    ensures
        ({
            let named_ok = match e.file_name {
                Some(n) => !has_prefix(n@, "."@) && n@ != "node_modules"@,
                None => true,
            };
            &&& (e.is_dir && e.has_package_json && named_ok) ==> project_paths(entries.push(e)) == project_paths(
                entries,
            ).push(e.path@)
            &&& !(e.is_dir && e.has_package_json && named_ok) ==> project_paths(entries.push(e)) == project_paths(
                entries,
            )
        }),
{
    assert(entries.push(e).drop_last() =~= entries);
}

/// Scripts are kept in the order of their entries: one more entry adds its
/// name and command at the end exactly when its value is a string and its name
/// starts with neither `pre` nor `post`, and adds nothing otherwise.
pub proof fn law_kept_scripts_step(entries: Seq<(Seq<char>, Option<Seq<char>>)>, e: (Seq<char>, Option<Seq<char>>))
    ensures
        (e.1 is Some && !has_prefix(e.0, "pre"@) && !has_prefix(e.0, "post"@)) ==> kept_scripts(entries.push(e))
            == kept_scripts(entries).push((e.0, e.1->0)),
        !(e.1 is Some && !has_prefix(e.0, "pre"@) && !has_prefix(e.0, "post"@)) ==> kept_scripts(entries.push(e))
            == kept_scripts(entries),
{
    assert(entries.push(e).drop_last() =~= entries);
}

/// A Makefile line that starts with `.` (a special target such as `.PHONY`)
/// or with a tab (a recipe) declares no target: the targets of a text
/// starting with it are those of the lines after it.
pub proof fn law_makefile_non_target_lines(line: Seq<char>, more: Seq<char>)
    requires
        forall|i: int| 0 <= i < line.len() ==> line[i] != '\n',
        line.len() > 0,
        line[0] == '.' || line[0] == '\t',
    ensures
        make_targets(line) == Seq::<Seq<char>>::empty(),
        make_targets(line + seq!['\n'] + more) == make_targets(more),
{
    lemma_line_len(line, line.len());
    assert(line.take(line.len() as int) =~= line);
    if line[0] == '\t' {
        lemma_name_len(line, 0);
    }
    let s = line + seq!['\n'] + more;
    assert forall|j: int| 0 <= j < line.len() implies s[j] != '\n' by {
        assert(s[j] == line[j]);
    }
    lemma_line_len(s, line.len());
    assert(s.take(line.len() as int) =~= line);
    assert(s.skip(line.len() + 1int) =~= more);
    assert(Seq::<Seq<char>>::empty() + make_targets(more) =~= make_targets(more));
}

/// A Makefile line that assigns a variable with `:=` (a name of letters,
/// digits, `_`, `-`, `.` and `/` directly followed by `:=`) declares no
/// target.
pub proof fn law_makefile_variable_line(name: Seq<char>, rest: Seq<char>, more: Seq<char>)
    requires
        name.len() > 0,
        forall|i: int| 0 <= i < name.len() ==> {
            let c = #[trigger] name[i];
            ('a' <= c && c <= 'z') || ('A' <= c && c <= 'Z') || ('0' <= c && c <= '9') || c == '_' || c == '-' || c
                == '.' || c == '/'
        },
        forall|i: int| 0 <= i < rest.len() ==> rest[i] != '\n',
    ensures
        make_targets(name + seq![':', '='] + rest) == Seq::<Seq<char>>::empty(),
        make_targets(name + seq![':', '='] + rest + seq!['\n'] + more) == make_targets(more),
{
    let line = name + seq![':', '='] + rest;
    let k = name.len();
    assert forall|j: int| 0 <= j < k implies crate::script::makefile::is_target_char(line[j]) by {
        assert(line[j] == name[j]);
    }
    lemma_name_len(line, k);
    assert(line[k as int] == ':' && line[k + 1int] == '=');
    assert forall|j: int| 0 <= j < line.len() implies line[j] != '\n' by {
        if j < k {
            assert(line[j] == name[j]);
        } else if j > k + 1 {
            assert(line[j] == rest[j - k - 2]);
        }
    }
    lemma_line_len(line, line.len());
    assert(line.take(line.len() as int) =~= line);
    let s = line + seq!['\n'] + more;
    assert forall|j: int| 0 <= j < line.len() implies s[j] != '\n' by {
        assert(s[j] == line[j]);
    }
    lemma_line_len(s, line.len());
    assert(s.take(line.len() as int) =~= line);
    assert(s.skip(line.len() + 1int) =~= more);
    assert(Seq::<Seq<char>>::empty() + make_targets(more) =~= make_targets(more));
}

} // verus!
