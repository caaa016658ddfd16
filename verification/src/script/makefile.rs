//! The targets of a Makefile.

use vstd::prelude::*;
use crate::text::{chars_of, push_char};

verus! {

/// Whether `c` may stand in a target name: a letter, a digit, `_`, `-`, `.`
/// or `/`.
pub open spec fn is_target_char(c: char) -> bool {
    ('a' <= c && c <= 'z') || ('A' <= c && c <= 'Z') || ('0' <= c && c <= '9') || c == '_' || c == '-' || c == '.'
        || c == '/'
}

/// Number of characters before the first line break of `s`.
pub open spec fn line_len(s: Seq<char>) -> nat
    decreases s.len(),
{
    if s.len() == 0 || s[0] == '\n' {
        0
    } else {
        1 + line_len(s.drop_first())
    }
}

/// Number of target-name characters at the start of `s`.
pub open spec fn name_len(s: Seq<char>) -> nat
    decreases s.len(),
{
    if s.len() == 0 || !is_target_char(s[0]) {
        0
    } else {
        1 + name_len(s.drop_first())
    }
}

/// The target a Makefile line declares: a name at the start of the line,
/// followed directly by `:` that is not part of `:=`. Names starting with `.`
/// (special targets such as `.PHONY`) and indented lines (recipes) declare
/// none.
pub open spec fn make_target(line: Seq<char>) -> Option<Seq<char>> {
    let k = name_len(line);
    if 0 < k && k < line.len() && line[k as int] == ':' && line[0] != '.' && !(k + 1 < line.len() && line[k + 1int] == '=') {
        Some(line.take(k as int))
    } else {
        None
    }
}

/// The targets declared by the lines of `text`, in order.
pub open spec fn make_targets(text: Seq<char>) -> Seq<Seq<char>>
    decreases text.len(),
{
    let n = line_len(text);
    let here = match make_target(text.take(n as int)) {
        Some(t) => seq![t],
        None => Seq::<Seq<char>>::empty(),
    };
    if n >= text.len() {
        here
    } else {
        here + make_targets(text.skip(n + 1int))
    }
}

/// `line_len` counts the characters before the first line break.
pub proof fn lemma_line_len(s: Seq<char>, k: nat)
    requires
        k <= s.len(),
        forall|j: int| 0 <= j < k ==> s[j] != '\n',
        k == s.len() || s[k as int] == '\n',
    ensures
        line_len(s) == k,
    decreases k,
{
    if k > 0 {
        lemma_line_len(s.drop_first(), (k - 1) as nat);
    }
}

/// `name_len` counts the target-name characters at the start.
pub proof fn lemma_name_len(s: Seq<char>, k: nat)
    requires
        k <= s.len(),
        forall|j: int| 0 <= j < k ==> is_target_char(s[j]),
        k == s.len() || !is_target_char(s[k as int]),
    ensures
        name_len(s) == k,
    decreases k,
{
    if k > 0 {
        lemma_name_len(s.drop_first(), (k - 1) as nat);
    }
}

fn target_char(c: char) -> (r: bool)
    ensures
        r == is_target_char(c),
{
    ('a' <= c && c <= 'z') || ('A' <= c && c <= 'Z') || ('0' <= c && c <= '9') || c == '_' || c == '-' || c == '.'
        || c == '/'
}

/// The end of the line of `v` that starts at `start`.
fn line_end(v: &Vec<char>, start: usize) -> (e: usize)
    requires
        start <= v@.len(),
    ensures
        start <= e <= v@.len(),
        e - start == line_len(v@.skip(start as int)),
{
    let mut e = start;
    while e < v.len() && v[e] != '\n'
        invariant
            start <= e <= v@.len(),
            forall|j: int| start <= j < e ==> v@[j] != '\n',
        decreases v@.len() - e,
    {
        e = e + 1;
    }
    proof {
        let s = v@.skip(start as int);
        assert forall|j: int| 0 <= j < e - start implies s[j] != '\n' by {
            assert(s[j] == v@[start + j]);
        }
        lemma_line_len(s, (e - start) as nat);
    }
    e
}

/// The target declared by the line `v[start..end]`.
fn target_in(v: &Vec<char>, start: usize, end: usize) -> (r: Option<String>)
    requires
        start <= end <= v@.len(),
    ensures
        match r {
            Some(t) => make_target(v@.subrange(start as int, end as int)) == Some(t@),
            None => make_target(v@.subrange(start as int, end as int)) is None,
        },
{
    let ghost line = v@.subrange(start as int, end as int);
    let mut k = start;
    while k < end && target_char(v[k])
        invariant
            start <= k <= end,
            end <= v@.len(),
            forall|j: int| start <= j < k ==> is_target_char(v@[j]),
        decreases end - k,
    {
        k = k + 1;
    }
    proof {
        assert forall|j: int| 0 <= j < k - start implies is_target_char(line[j]) by {
            assert(line[j] == v@[start + j]);
        }
        if k < end {
            assert(line[k - start] == v@[k as int]);
        }
        lemma_name_len(line, (k - start) as nat);
    }
    if k > start && k < end && v[k] == ':' && v[start] != '.' && !(k + 1 < end && v[k + 1] == '=') {
        let mut t = String::new();
        let mut j = start;
        while j < k
            invariant
                start <= j <= k,
                k <= v@.len(),
                t@ == v@.subrange(start as int, j as int),
            decreases k - j,
        {
            push_char(&mut t, v[j]);
            proof {
                assert(v@.subrange(start as int, j + 1) =~= v@.subrange(start as int, j as int).push(v@[j as int]));
            }
            j = j + 1;
        }
        proof {
            assert(line[k - start] == v@[k as int]);
            assert(line[0] == v@[start as int]);
            if k + 1 < end {
                assert(line[k - start + 1] == v@[k + 1]);
            }
            assert(line.take(k - start) =~= v@.subrange(start as int, k as int));
        }
        Some(t)
    } else {
        proof {
            if k > start && k < end {
                assert(line[k - start] == v@[k as int]);
                assert(line[0] == v@[start as int]);
                if k + 1 < end {
                    assert(line[k - start + 1] == v@[k + 1]);
                }
            }
        }
        None
    }
}

/// The targets a Makefile declares, in order.
pub fn makefile_targets(text: &str) -> (r: Vec<String>)
    ensures
        r.deep_view() == make_targets(text@),
{
    let v = chars_of(text);
    let mut out: Vec<String> = Vec::new();
    let mut start: usize = 0;
    proof {
        assert(v@.skip(0) =~= v@);
        assert(out.deep_view() =~= Seq::<Seq<char>>::empty());
        assert(Seq::<Seq<char>>::empty() + make_targets(v@) =~= make_targets(v@));
    }
    loop
        invariant_except_break
            start <= v@.len(),
            v@ == text@,
            out.deep_view() + make_targets(v@.skip(start as int)) == make_targets(v@),
        ensures
            out.deep_view() == make_targets(v@),
            v@ == text@,
        decreases v@.len() - start,
    {
        let e = line_end(&v, start);
        let t = target_in(&v, start, e);
        let ghost rest = v@.skip(start as int);
        let ghost prev = out.deep_view();
        proof {
            assert(rest.take(e - start) =~= v@.subrange(start as int, e as int));
        }
        match t {
            Some(x) => {
                out.push(x);
                proof {
                    assert(out.deep_view() =~= prev + seq![x@]);
                }
            },
            None => {},
        }
        if e >= v.len() {
            proof {
                assert(out.deep_view() =~= prev + make_targets(rest));
            }
            break;
        }
        proof {
            assert(rest.skip(e - start + 1) =~= v@.skip(e + 1));
        }
        start = e + 1;
    }
    out
}

} // verus!
