//! The confinement of a command-line program: what it may write, and where.

use crate::backends::cli::paths::{is_same_path, same_path};
use crate::text::{append_texts, copy_texts, opt_slice, push_text, strs};
use crate::types::{ErrorView, ProviderError};
use vstd::prelude::*;
use vstd::string::*;

verus! {

/// How far a program is confined.
#[derive(Debug, Clone, Copy, PartialEq, Eq, Structural)]
pub enum PolicyMode {
    /// It may write nothing.
    ReadOnly,
    /// It may write below the writable roots alone.
    WorkspaceWrite,
    /// It is not confined.
    DangerFullAccess,
}

/// The confinement of a program.
#[derive(Debug)]
pub struct SandboxPolicy {
    pub mode: PolicyMode,
    pub writable_roots: Vec<String>,
    pub network: bool,
}

/// What a confinement says.
pub struct PolicyView {
    pub mode: PolicyMode,
    pub writable_roots: Seq<Seq<char>>,
    pub network: bool,
}

impl View for SandboxPolicy {
    type V = PolicyView;

    open spec fn view(&self) -> PolicyView {
        PolicyView {
            mode: self.mode,
            writable_roots: strs(self.writable_roots@),
            network: self.network,
        }
    }
}

impl Clone for SandboxPolicy {
    fn clone(&self) -> (r: SandboxPolicy)
        ensures
            r@ == self@,
    {
        SandboxPolicy {
            mode: self.mode,
            writable_roots: copy_texts(&self.writable_roots),
            network: self.network,
        }
    }
}

impl Default for SandboxPolicy {
    /// No confinement was asked for.
    fn default() -> (r: SandboxPolicy)
        ensures
            r@ == (PolicyView {
                mode: PolicyMode::DangerFullAccess,
                writable_roots: seq![],
                network: true,
            }),
    {
        let r: SandboxPolicy = SandboxPolicy {
            mode: PolicyMode::DangerFullAccess,
            writable_roots: Vec::new(),
            network: true,
        };
        assert(r@.writable_roots =~= seq![]);
        r
    }
}

/// The confinement that a program is started under: what was asked for, except that
/// one which may write has a place to write to, and that none is left unconfined.
pub open spec fn effective_policy(p: PolicyView, root: Seq<char>) -> PolicyView {
    match p.mode {
        PolicyMode::ReadOnly => p,
        PolicyMode::WorkspaceWrite => if p.writable_roots.len() == 0 {
            PolicyView { writable_roots: seq![root], ..p }
        } else {
            p
        },
        PolicyMode::DangerFullAccess => PolicyView {
            mode: PolicyMode::WorkspaceWrite,
            writable_roots: seq![root],
            network: p.network,
        },
    }
}

/// Where a program is confined to: the directory of the call, or else that of this
/// process.
pub open spec fn jail_root(
    cwd: Option<Seq<char>>,
    process_cwd: Result<Seq<char>, Seq<char>>,
) -> Result<Seq<char>, ErrorView> {
    match cwd {
        Some(c) => Ok(c),
        None => match process_cwd {
            Ok(c) => Ok(c),
            Err(e) => Err(
                ErrorView::Internal(
                    "CLI delegate sandbox: no worktree cwd supplied and the process cwd is unresolvable ("@
                        + e
                        + ") — refusing to run a black-box delegate unconfined (fail-closed, Doc 32 FR-3)"@,
                ),
            ),
        },
    }
}

/// What the resolution of a confinement says.
pub open spec fn resolved_view(r: Result<(SandboxPolicy, String), ProviderError>) -> Result<
    (PolicyView, Seq<char>),
    ErrorView,
> {
    match r {
        Ok((p, root)) => Ok((p@, root@)),
        Err(e) => Err(e@),
    }
}

/// What was learned of the directory of this process.
pub open spec fn dir_view(r: Result<String, String>) -> Result<Seq<char>, Seq<char>> {
    match r {
        Ok(c) => Ok(c@),
        Err(e) => Err(e@),
    }
}

/// Resolves the confinement that a program is started under and the directory that
/// it is confined to. Where no directory can be found the program is not started.
pub fn resolve_effective_policy(
    policy: &SandboxPolicy,
    cwd: Option<&str>,
    process_cwd: Result<String, String>,
) -> (r: Result<(SandboxPolicy, String), ProviderError>)
    ensures
        resolved_view(r) == (match jail_root(opt_slice(cwd), dir_view(process_cwd)) {
            Ok(root) => Ok((effective_policy(policy@, root), root)),
            Err(e) => Err(e),
        }),
{
    let root: String = match cwd {
        Some(c) => c.to_owned(),
        None => match process_cwd {
            Ok(c) => c,
            Err(e) => {
                let mut msg: String =
                    "CLI delegate sandbox: no worktree cwd supplied and the process cwd is unresolvable (".to_owned();
                msg.append(e.as_str());
                msg.append(
                    ") — refusing to run a black-box delegate unconfined (fail-closed, Doc 32 FR-3)",
                );
                return Err(ProviderError::Internal(msg));
            },
        },
    };
    let effective: SandboxPolicy = match policy.mode {
        PolicyMode::ReadOnly => policy.clone(),
        PolicyMode::WorkspaceWrite => if policy.writable_roots.len() == 0 {
            SandboxPolicy {
                mode: PolicyMode::WorkspaceWrite,
                writable_roots: one_text(root.as_str()),
                network: policy.network,
            }
        } else {
            policy.clone()
        },
        PolicyMode::DangerFullAccess => SandboxPolicy {
            mode: PolicyMode::WorkspaceWrite,
            writable_roots: one_text(root.as_str()),
            network: policy.network,
        },
    };
    assert(effective@ == effective_policy(policy@, root@));
    Ok((effective, root))
}

/// A list of one string.
fn one_text(s: &str) -> (r: Vec<String>)
    ensures
        strs(r@) == seq![s@],
{
    let mut out: Vec<String> = Vec::new();
    push_text(&mut out, s.to_owned());
    assert(strs(out@) =~= seq![s@]);
    out
}

/// Whether a path is among those of a list, however it is written.
pub open spec fn has_path(list: Seq<Seq<char>>, path: Seq<char>) -> bool {
    exists|i: int| 0 <= i < list.len() && is_same_path(#[trigger] list[i], path)
}

/// Whether a path is among those of a list, however it is written.
fn lists_path(list: &Vec<String>, path: &str) -> (r: bool)
    ensures
        r == has_path(strs(list@), path@),
{
    let mut i: usize = 0;
    while i < list.len()
        invariant
            i <= list@.len(),
            forall|j: int| 0 <= j < i ==> !is_same_path(#[trigger] strs(list@)[j], path@),
        decreases list@.len() - i,
    {
        if same_path(list[i].as_str(), path) {
            assert(is_same_path(strs(list@)[i as int], path@));
            return true;
        }
        i += 1;
    }
    false
}

/// A list of paths with those appended that are not yet in it.
pub open spec fn with_missing(list: Seq<Seq<char>>, more: Seq<Seq<char>>) -> Seq<Seq<char>>
    decreases more.len(),
{
    if more.len() == 0 {
        list
    } else {
        let before = with_missing(list, more.drop_last());
        if has_path(before, more.last()) {
            before
        } else {
            before.push(more.last())
        }
    }
}

/// A confinement in which a program that may write can also write to its scratch
/// and state directories.
pub open spec fn widened(
    p: PolicyView,
    tmp: Seq<Seq<char>>,
    state: Seq<Seq<char>>,
) -> PolicyView {
    if p.mode == PolicyMode::WorkspaceWrite {
        PolicyView { writable_roots: with_missing(p.writable_roots, tmp + state), ..p }
    } else {
        p
    }
}

/// Widens a confinement by the scratch directories and by those state directories
/// that exist.
pub fn widen_policy(policy: SandboxPolicy, tmp: &Vec<String>, state: &Vec<String>) -> (r:
    SandboxPolicy)
    ensures
        r@ == widened(policy@, strs(tmp@), strs(state@)),
{
    match policy.mode {
        PolicyMode::WorkspaceWrite => {},
        _ => {
            return policy;
        },
    }
    let mut more: Vec<String> = copy_texts(tmp);
    append_texts(&mut more, state);
    let ghost extra = strs(more@);
    let mut roots: Vec<String> = policy.writable_roots;
    let ghost start = strs(roots@);
    let mut i: usize = 0;
    assert(extra.take(0) =~= seq![]);
    while i < more.len()
        invariant
            i <= more@.len(),
            extra == strs(more@),
            strs(roots@) == with_missing(start, extra.take(i as int)),
        decreases more@.len() - i,
    {
        assert(extra.take(i + 1).drop_last() =~= extra.take(i as int));
        assert(extra.take(i + 1).last() == more@[i as int]@);
        if !lists_path(&roots, more[i].as_str()) {
            push_text(&mut roots, more[i].clone());
        }
        i += 1;
    }
    assert(extra.take(more@.len() as int) =~= extra);
    SandboxPolicy { mode: PolicyMode::WorkspaceWrite, writable_roots: roots, network: policy.network }
}

/// Whatever was asked for, a program is confined: it may write nothing, or below
/// roots that are named, and there are some.
pub proof fn law_never_unconfined(
    p: PolicyView,
    root: Seq<char>,
    tmp: Seq<Seq<char>>,
    state: Seq<Seq<char>>,
)
    ensures
        ({
            let e = widened(effective_policy(p, root), tmp, state);
            &&& e.mode != PolicyMode::DangerFullAccess
            &&& e.mode == PolicyMode::WorkspaceWrite ==> e.writable_roots.len() > 0
            &&& e.network == p.network
        }),
{
    let e = effective_policy(p, root);
    if e.mode == PolicyMode::WorkspaceWrite {
        lemma_with_missing(e.writable_roots, tmp + state);
    }
}

/// What was asked for is not widened by the resolution: a program that may write
/// nothing still may not, and the roots that were named stay the only ones.
pub proof fn law_explicit_policy_honored(p: PolicyView, root: Seq<char>)
    requires
        p.mode == PolicyMode::ReadOnly || (p.mode == PolicyMode::WorkspaceWrite
            && p.writable_roots.len() > 0),
    ensures
        effective_policy(p, root) == p,
{
}

/// Widening keeps the roots that are there and adds each of the others once.
pub proof fn lemma_with_missing(list: Seq<Seq<char>>, more: Seq<Seq<char>>)
    ensures
        with_missing(list, more).len() >= list.len(),
        with_missing(list, more).take(list.len() as int) == list,
        forall|x: Seq<char>| #[trigger]
            more.contains(x) ==> has_path(with_missing(list, more), x),
        forall|i: int| #![trigger with_missing(list, more)[i]]
            list.len() <= i < with_missing(list, more).len() ==> more.contains(
                with_missing(list, more)[i],
            ),
    decreases more.len(),
{
    if more.len() == 0 {
        assert(list.take(list.len() as int) =~= list);
    } else {
        let front = more.drop_last();
        lemma_with_missing(list, front);
        let before = with_missing(list, front);
        let after = with_missing(list, more);
        assert(after.take(list.len() as int) =~= before.take(list.len() as int));
        assert forall|x: Seq<char>| #[trigger] more.contains(x) implies has_path(after, x) by {
            let k = choose|k: int| 0 <= k < more.len() && more[k] == x;
            if k < more.len() - 1 {
                assert(front[k] == x);
                assert(front.contains(x));
                let j = choose|j: int| 0 <= j < before.len() && is_same_path(#[trigger] before[j], x);
                assert(is_same_path(after[j], x));
            } else if !has_path(before, x) {
                assert(is_same_path(after[after.len() - 1], x));
            }
        }
        assert forall|i: int| #![trigger after[i]]
            list.len() <= i < after.len() implies more.contains(after[i]) by {
            if i < before.len() {
                assert(after[i] == before[i]);
                assert(front.contains(before[i]));
                let k = choose|k: int| 0 <= k < front.len() && front[k] == before[i];
                assert(more[k] == before[i]);
            } else {
                assert(more[more.len() - 1] == after[i]);
            }
        }
    }
}

} // verus!
