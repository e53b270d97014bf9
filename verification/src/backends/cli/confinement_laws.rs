//! What holds of where programs are started, what they may write and what they see.

use crate::backends::cli::argv::turns_on;
use crate::backends::cli::paths::{
    below, is_same_path, label, lemma_part_start, own_dir, part_start, parts_before,
};
use crate::backends::cli::sandbox::{
    effective_policy, has_path, widened, with_missing, PolicyMode, PolicyView,
};
use crate::backends::cli::spawn::{plan_for, HostView};
use crate::backends::cli::subprocess::{child_env, upper};
use crate::text::{ascii_lower, is_ascii_text, lowered, trimmed};
use vstd::prelude::*;
use vstd::string::*;

verus! {

/// A program is confined to the directory of the call, or else to that of this process;
/// where there is neither it is not started.
pub proof fn law_program_runs_where_it_is_called(
    policy: PolicyView,
    cwd: Option<Seq<char>>,
    stripped: Seq<Seq<char>>,
    state: Seq<Seq<char>>,
    host: HostView,
)
    ensures
        ({
            let r = plan_for(policy, cwd, stripped, state, host);
            &&& cwd matches Some(dir) ==> (r matches Ok(plan) && plan.root == dir)
            &&& cwd is None ==> (host.process_cwd matches Ok(dir) ==> (r matches Ok(plan)
                && plan.root == dir))
            &&& cwd is None && host.process_cwd is Err ==> (r matches Err(e) && e is Internal)
        }),
{
}

/// Whether a path is one of these, as it is written.
pub open spec fn is_one_of(path: Seq<char>, s: Seq<Seq<char>>) -> bool {
    exists|i: int| 0 <= i < s.len() && #[trigger] s[i] == path
}

proof fn lemma_missing(s: Seq<Seq<char>>, more: Seq<Seq<char>>)
    ensures
        ({
            let out = with_missing(s, more);
            &&& s.len() <= out.len() <= s.len() + more.len()
            &&& out.take(s.len() as int) == s
            &&& forall|i: int| 0 <= i < more.len() ==> has_path(out, #[trigger] more[i])
            &&& forall|i: int|
                s.len() <= i < out.len() ==> is_one_of(#[trigger] out[i], more)
        }),
    decreases more.len(),
{
    let out = with_missing(s, more);
    if more.len() == 0 {
        assert(out.take(s.len() as int) =~= s);
    } else {
        let front = more.drop_last();
        let before = with_missing(s, front);
        lemma_missing(s, front);
        assert(out.take(s.len() as int) =~= before.take(s.len() as int));
        assert forall|i: int| 0 <= i < more.len() implies has_path(out, #[trigger] more[i]) by {
            if i < front.len() {
                assert(has_path(before, front[i]));
                let j = choose|j: int|
                    0 <= j < before.len() && is_same_path(#[trigger] before[j], front[i]);
                assert(is_same_path(out[j], more[i]));
            } else if !has_path(before, more[i]) {
                let n = before.len() as int;
                assert(out[n] == more[i]);
                assert(is_same_path(out[n], more[i]));
            }
        }
        assert forall|i: int| s.len() <= i < out.len() implies is_one_of(
            #[trigger] out[i],
            more,
        ) by {
            if i < before.len() {
                assert(out[i] == before[i]);
                let j = choose|j: int| 0 <= j < front.len() && #[trigger] front[j] == before[i];
                assert(more[j] == out[i]);
            } else {
                assert(more[more.len() - 1] == out[i]);
            }
        }
    }
}

/// A program that may write can write where it was told, or else where it runs; also to
/// its scratch directories and to its own, and nowhere else. One that may not, may not.
pub proof fn law_program_writes_where_it_may(
    p: PolicyView,
    root: Seq<char>,
    tmp: Seq<Seq<char>>,
    state: Seq<Seq<char>>,
)
    ensures
        ({
            let e = widened(effective_policy(p, root), tmp, state);
            let told = if p.mode == PolicyMode::WorkspaceWrite && p.writable_roots.len() > 0 {
                p.writable_roots
            } else {
                seq![root]
            };
            &&& p.mode == PolicyMode::ReadOnly <==> e.mode == PolicyMode::ReadOnly
            &&& p.mode == PolicyMode::ReadOnly ==> e.writable_roots == p.writable_roots
            &&& p.mode != PolicyMode::ReadOnly ==> {
                &&& e.writable_roots.len() >= told.len()
                &&& e.writable_roots.take(told.len() as int) == told
                &&& forall|i: int|
                    0 <= i < tmp.len() ==> has_path(e.writable_roots, #[trigger] tmp[i])
                &&& forall|i: int|
                    0 <= i < state.len() ==> has_path(e.writable_roots, #[trigger] state[i])
                &&& forall|i: int|
                    told.len() <= i < e.writable_roots.len() ==> is_one_of(
                        #[trigger] e.writable_roots[i],
                        tmp,
                    ) || is_one_of(e.writable_roots[i], state)
            }
        }),
{
    let eff = effective_policy(p, root);
    let e = widened(eff, tmp, state);
    let more = tmp + state;
    if p.mode != PolicyMode::ReadOnly {
        lemma_missing(eff.writable_roots, more);
        assert forall|i: int| 0 <= i < tmp.len() implies has_path(
            e.writable_roots,
            #[trigger] tmp[i],
        ) by {
            assert(more[i] == tmp[i]);
        }
        assert forall|i: int| 0 <= i < state.len() implies has_path(
            e.writable_roots,
            #[trigger] state[i],
        ) by {
            assert(more[tmp.len() + i] == state[i]);
        }
        assert forall|i: int|
            eff.writable_roots.len() <= i < e.writable_roots.len() implies is_one_of(
            #[trigger] e.writable_roots[i],
            tmp,
        ) || is_one_of(e.writable_roots[i], state) by {
            let j = choose|j: int| 0 <= j < more.len() && #[trigger] more[j] == e.writable_roots[i];
            if j < tmp.len() {
                assert(tmp[j] == e.writable_roots[i]);
            } else {
                assert(state[j - tmp.len()] == e.writable_roots[i]);
            }
        }
    }
}

/// The environment of a program keeps its order and its values: what it gets of two
/// environments one after the other is what it gets of the first and then of the second.
pub proof fn law_environment_keeps_its_order(
    a: Seq<(Seq<char>, Seq<char>)>,
    b: Seq<(Seq<char>, Seq<char>)>,
    stripped: Seq<Seq<char>>,
)
    ensures
        child_env(a + b, stripped) == child_env(a, stripped) + child_env(b, stripped),
    decreases b.len(),
{
    reveal(Seq::filter);
    if b.len() == 0 {
        assert(a + b =~= a);
        assert(child_env(a, stripped) + child_env(b, stripped) =~= child_env(a, stripped));
    } else {
        law_environment_keeps_its_order(a, b.drop_last(), stripped);
        assert((a + b).drop_last() =~= a + b.drop_last());
        assert((a + b).last() == b.last());
        assert(child_env(a + b, stripped) =~= child_env(a, stripped) + child_env(b, stripped));
    }
}

/// An environment of one variable is kept unless the variable is to be kept from the
/// program.
pub proof fn law_variable_is_kept_or_not(kv: (Seq<char>, Seq<char>), stripped: Seq<Seq<char>>)
    ensures
        child_env(seq![kv], stripped) == (if stripped.contains(upper(kv.0)) {
            seq![]
        } else {
            seq![kv]
        }),
{
    reveal(Seq::filter);
    assert(seq![kv].drop_last() =~= seq![]);
    assert(child_env(seq![], stripped) =~= seq![]);
}

proof fn lemma_start_at(s: Seq<char>, p: int, end: int)
    requires
        0 <= p <= end <= s.len(),
        p > 0 ==> s[p - 1] == '/',
        forall|i: int| p <= i < end ==> #[trigger] s[i] != '/',
    ensures
        part_start(s, end) == p,
    decreases end,
{
    if end > p {
        assert(s[end - 1] != '/');
        lemma_start_at(s, p, end - 1);
    }
}

/// Whether a text can be the name of a file.
pub open spec fn is_name(s: Seq<char>) -> bool {
    s.len() > 0 && s != "."@ && s != ".."@ && !s.contains('/')
}

/// A program is called by the name of its file, whatever directory it lies in.
pub proof fn law_program_is_called_by_its_file(dir: Seq<char>, name: Seq<char>)
    requires
        is_name(name),
    ensures
        label(name) == name,
        label(dir.push('/') + name) == name,
{
    assert forall|i: int| 0 <= i < name.len() implies #[trigger] name[i] != '/' by {
        assert(name.contains(name[i]));
    }
    lemma_start_at(name, 0, name.len() as int);
    assert(name.subrange(0, name.len() as int) =~= name);
    let s = dir.push('/') + name;
    let p = dir.len() + 1;
    assert forall|i: int| p <= i < s.len() implies #[trigger] s[i] != '/' by {
        assert(s[i] == name[i - p]);
    }
    lemma_start_at(s, p as int, s.len() as int);
    assert(s.subrange(p as int, s.len() as int) =~= name);
}

/// A path below a directory goes on from it: with one slash between them.
pub proof fn law_path_goes_on(dir: Seq<char>, rel: Seq<char>)
    ensures
        dir.len() > 0 && dir.last() != '/' ==> below(dir, rel) == dir.push('/') + rel,
        dir.len() == 0 || dir.last() == '/' ==> below(dir, rel) == dir + rel,
{
    reveal_strlit("/");
    assert(dir + "/"@ =~= dir.push('/'));
}

/// Two paths that differ in a slash at the end are the same, and so is a path with a dot
/// as its last part.
pub proof fn law_paths_are_compared_by_their_parts(s: Seq<char>)
    requires
        s.len() > 0,
    ensures
        is_same_path(s, s),
        is_same_path(s, s.push('/')),
        is_same_path(s, s.push('/').push('.')),
{
    reveal_strlit("/");
    reveal_strlit(".");
    let t = s.push('/');
    let u = t.push('.');
    let n = s.len() as int;
    assert(t.take(n) =~= s);
    assert(u.take(n) =~= s);
    lemma_parts_of_front(t, s, n);
    lemma_parts_of_front(u, s, n);
    lemma_start_at(t, n + 1, n + 1);
    assert(t.subrange(n + 1, n + 1).len() == 0);
    lemma_start_at(u, n + 1, n + 2);
    assert(u.subrange(n + 1, n + 2) =~= "."@);
    assert(s.subrange(0, 1) =~= t.subrange(0, 1));
    assert(s.subrange(0, 1) =~= u.subrange(0, 1));
}

proof fn lemma_parts_of_front(t: Seq<char>, s: Seq<char>, end: int)
    requires
        0 <= end <= s.len() <= t.len(),
        t.take(s.len() as int) == s,
    ensures
        parts_before(t, end) == parts_before(s, end),
    decreases end,
{
    lemma_part_start(s, end);
    lemma_starts_agree(t, s, end);
    let start = part_start(s, end);
    assert(t.subrange(start, end) =~= s.subrange(start, end)) by {
        assert forall|i: int| start <= i < end implies t[i] == s[i] by {
            assert(t.take(s.len() as int)[i] == s[i]);
        }
    }
    if start > 0 {
        lemma_parts_of_front(t, s, start - 1);
    }
}

proof fn lemma_starts_agree(t: Seq<char>, s: Seq<char>, end: int)
    requires
        0 <= end <= s.len() <= t.len(),
        t.take(s.len() as int) == s,
    ensures
        part_start(t, end) == part_start(s, end),
    decreases end,
{
    if end > 0 {
        assert(t.take(s.len() as int)[end - 1] == s[end - 1]);
        if s[end - 1] != '/' {
            lemma_starts_agree(t, s, end - 1);
        }
    }
}

/// Streaming is turned on by any setting but those that say no, whatever the case of
/// their letters and the blanks around them.
pub proof fn law_setting_turns_streaming_on(s: Seq<char>)
    ensures
        !turns_on(None),
        ({
            let word = lowered(trimmed(s));
            turns_on(Some(s)) <==> word.len() > 0 && word != "0"@ && word != "false"@ && word
                != "off"@ && word != "no"@
        }),
{
    reveal_strlit("");
    let word = lowered(trimmed(s));
    if word.len() == 0 {
        assert(word =~= ""@);
    }
}

/// A program keeps its own state in the directory that is named, or else below the home
/// directory, where that is known.
pub proof fn law_own_directory(named: Option<Seq<char>>, home: Option<Seq<char>>, rel: Seq<char>)
    ensures
        named matches Some(d) ==> own_dir(named, home, rel) == seq![d],
        named is None ==> (home matches Some(h) ==> own_dir(named, home, rel).len() == 1
            && h.is_prefix_of(own_dir(named, home, rel)[0]) && rel.is_suffix_of(
            own_dir(named, home, rel)[0],
        )),
        named is None && home is None ==> own_dir(named, home, rel).len() == 0,
{
    if let Some(h) = home {
        let p = below(h, rel);
        assert(p.take(h.len() as int) =~= h);
        assert(p.skip(p.len() - rel.len()) =~= rel);
    }
}

/// The name of a variable is compared whatever the case of its letters: written in lower
/// case it is the same name.
pub proof fn law_case_of_variables_does_not_matter(name: Seq<char>)
    requires
        is_ascii_text(name),
    ensures
        upper(lowered(name)) == upper(name),
        upper(name).len() == name.len(),
        forall|i: int|
            0 <= i < name.len() ==> if 'a' <= #[trigger] name[i] <= 'z' {
                upper(name)[i] as int == name[i] as int - 32
            } else {
                upper(name)[i] == name[i]
            },
{
    let low = lowered(name);
    assert forall|i: int| 0 <= i < low.len() implies (#[trigger] low[i] as u32) < 0x80 by {
        assert((name[i] as u32) < 0x80);
        assert(low[i] == ascii_lower(name[i]));
    }
    assert forall|i: int| 0 <= i < name.len() implies upper(low)[i] == upper(name)[i] by {
        assert((name[i] as u32) < 0x80);
        assert(low[i] == ascii_lower(name[i]));
    }
    assert(upper(low) =~= upper(name));
}

/// A path is its directory and one part more, so that two paths are the same only where
/// their last parts are and their directories are.
pub proof fn law_path_is_its_parts(dir: Seq<char>, name: Seq<char>)
    requires
        is_name(name),
    ensures
        parts_before(dir.push('/') + name, (dir.len() + 1 + name.len()) as int) == parts_before(
            dir,
            dir.len() as int,
        ).push(name),
{
    let s = dir.push('/') + name;
    let n = dir.len() as int;
    let end = s.len() as int;
    assert forall|i: int| n + 1 <= i < end implies #[trigger] s[i] != '/' by {
        assert(s[i] == name[i - n - 1]);
        assert(name.contains(name[i - n - 1]));
    }
    lemma_start_at(s, n + 1, end);
    assert(s.subrange(n + 1, end) =~= name);
    assert(s.take(n) =~= dir);
    lemma_parts_of_front(s, dir, n);
}

/// Files of different names in one directory are different paths.
pub proof fn law_different_files_are_different_paths(dir: Seq<char>, a: Seq<char>, b: Seq<char>)
    requires
        is_name(a),
        is_name(b),
        is_same_path(dir.push('/') + a, dir.push('/') + b),
    ensures
        a == b,
{
    law_path_is_its_parts(dir, a);
    law_path_is_its_parts(dir, b);
    let x = parts_before(dir, dir.len() as int).push(a);
    let y = parts_before(dir, dir.len() as int).push(b);
    assert(x.last() == a);
    assert(y.last() == b);
}

} // verus!
