//! How a command-line program is started: under which confinement, in which
//! directory, and with which environment.

use crate::backends::cli::sandbox::{
    dir_view, effective_policy, jail_root, law_never_unconfined, resolve_effective_policy,
    widen_policy, widened, PolicyMode, PolicyView, SandboxPolicy,
};
use crate::backends::cli::subprocess::{child_env, kept_env, law_stripped_variables_stay_out, upper};
use crate::http_base::header_views;
use crate::text::{opt_slice, strs};
use crate::types::{ErrorView, ProviderError};
use vstd::prelude::*;
use vstd::string::*;

verus! {

/// What this machine has for a program: its environment, the directory of this
/// process or the reason why there is none, and the scratch directories.
#[derive(Debug)]
pub struct Host {
    pub vars: Vec<(String, String)>,
    pub process_cwd: Result<String, String>,
    pub tmp_roots: Vec<String>,
}

/// What a machine has for a program.
pub struct HostView {
    pub vars: Seq<(Seq<char>, Seq<char>)>,
    pub process_cwd: Result<Seq<char>, Seq<char>>,
    pub tmp_roots: Seq<Seq<char>>,
}

impl View for Host {
    type V = HostView;

    open spec fn view(&self) -> HostView {
        HostView {
            vars: header_views(self.vars@),
            process_cwd: dir_view(self.process_cwd),
            tmp_roots: strs(self.tmp_roots@),
        }
    }
}

/// How a program is started.
#[derive(Debug)]
pub struct SpawnPlan {
    pub policy: SandboxPolicy,
    pub root: String,
    pub vars: Vec<(String, String)>,
}

/// How a program is started.
pub struct PlanView {
    pub policy: PolicyView,
    pub root: Seq<char>,
    pub vars: Seq<(Seq<char>, Seq<char>)>,
}

impl View for SpawnPlan {
    type V = PlanView;

    open spec fn view(&self) -> PlanView {
        PlanView { policy: self.policy@, root: self.root@, vars: header_views(self.vars@) }
    }
}

/// How a program is started, or why it is not.
pub open spec fn plan_for(
    policy: PolicyView,
    cwd: Option<Seq<char>>,
    stripped: Seq<Seq<char>>,
    state_dirs: Seq<Seq<char>>,
    host: HostView,
) -> Result<PlanView, ErrorView> {
    match jail_root(cwd, host.process_cwd) {
        Ok(root) => Ok(
            PlanView {
                policy: widened(effective_policy(policy, root), host.tmp_roots, state_dirs),
                root,
                vars: child_env(host.vars, stripped),
            },
        ),
        Err(e) => Err(e),
    }
}

/// What a plan that may be missing says.
pub open spec fn plan_view(r: Result<SpawnPlan, ProviderError>) -> Result<PlanView, ErrorView> {
    match r {
        Ok(p) => Ok(p@),
        Err(e) => Err(e@),
    }
}

/// Decides how a program is started. `state_dirs` are those directories of its own
/// that exist.
pub fn plan_spawn(
    policy: &SandboxPolicy,
    cwd: Option<&str>,
    stripped: &Vec<String>,
    state_dirs: &Vec<String>,
    host: Host,
) -> (r: Result<SpawnPlan, ProviderError>)
    ensures
        plan_view(r) == plan_for(
            policy@,
            opt_slice(cwd),
            strs(stripped@),
            strs(state_dirs@),
            host@,
        ),
{
    match resolve_effective_policy(policy, cwd, host.process_cwd) {
        Ok((effective, root)) => Ok(
            SpawnPlan {
                policy: widen_policy(effective, &host.tmp_roots, state_dirs),
                root,
                vars: kept_env(&host.vars, stripped),
            },
        ),
        Err(e) => Err(e),
    }
}

/// The error for a confinement that could not be set up: the program is not started.
pub fn confinement_error(reason: &str) -> (r: ProviderError)
    ensures
        r@ == ErrorView::Internal("exec sandbox: "@ + reason@),
{
    let mut msg: String = "exec sandbox: ".to_owned();
    msg.append(reason);
    ProviderError::Internal(msg)
}

/// A program that is started is confined, keeps the access to the network that it was
/// given, and sees no variable that is to be kept from it.
pub proof fn law_started_programs_are_confined(
    policy: PolicyView,
    cwd: Option<Seq<char>>,
    stripped: Seq<Seq<char>>,
    state_dirs: Seq<Seq<char>>,
    host: HostView,
)
    ensures
        plan_for(policy, cwd, stripped, state_dirs, host) matches Ok(plan) ==> {
            &&& plan.policy.mode != PolicyMode::DangerFullAccess
            &&& plan.policy.mode == PolicyMode::WorkspaceWrite
                ==> plan.policy.writable_roots.len() > 0
            &&& plan.policy.network == policy.network
            &&& forall|kv: (Seq<char>, Seq<char>)| #[trigger]
                plan.vars.contains(kv) ==> !stripped.contains(upper(kv.0))
        },
{
    if let Ok(plan) = plan_for(policy, cwd, stripped, state_dirs, host) {
        law_never_unconfined(policy, plan.root, host.tmp_roots, state_dirs);
        assert forall|kv: (Seq<char>, Seq<char>)| #[trigger] plan.vars.contains(kv) implies
            !stripped.contains(upper(kv.0)) by {
            law_stripped_variables_stay_out(host.vars, stripped, kv);
        }
    }
}

} // verus!
