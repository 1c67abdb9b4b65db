//! The run over all secrets: which secrets are rotated, how the results add
//! up, and what is committed.

use crate::commands::rotate::process::RotationOutcome;
use crate::error::Error;
use crate::models::config::{RotationManifest, SecretDefinition};
use crate::models::user::UserDefinition;
use crate::text::{chars_of, contains, contains_run};
use vstd::prelude::*;

verus! {

/// The number of secrets that are rotated at the same time.
pub const CONCURRENCY: usize = 5;

/// The name of the manifest files that a scan of the repository collects.
pub fn manifest_file_name() -> (name: String)
    ensures
        name@ == "rotation.yaml"@,
{
    "rotation.yaml".to_owned()
}

/// The message of the commit that a run makes.
pub fn commit_message() -> (message: String)
    ensures
        message@ == "Rotate secrets (Decentralized) [skip ci]"@,
{
    "Rotate secrets (Decentralized) [skip ci]".to_owned()
}

/// The secrets of the manifests, in the order of the manifests.
pub open spec fn all_secrets(manifests: Seq<RotationManifest>) -> Seq<SecretDefinition>
    decreases manifests.len(),
{
    if manifests.len() == 0 {
        seq![]
    } else {
        all_secrets(manifests.drop_last()) + manifests.last().secrets@
    }
}

/// The users of the manifests, in the order of the manifests.
pub open spec fn all_users(manifests: Seq<RotationManifest>) -> Seq<UserDefinition>
    decreases manifests.len(),
{
    if manifests.len() == 0 {
        seq![]
    } else {
        all_users(manifests.drop_last()) + manifests.last().users@
    }
}

/// Puts the secrets and the users of the manifests of a scan together. A
/// scan that finds no secret is an error.
pub fn collect_manifests(manifests: Vec<RotationManifest>) -> (r: Result<
    (Vec<SecretDefinition>, Vec<UserDefinition>),
    Error,
>)
    ensures
        all_secrets(manifests@).len() == 0 ==> (r matches Err(e) && e == Error::NoManifests),
        all_secrets(manifests@).len() > 0 ==> ({
            &&& r matches Ok(found)
            &&& found.0@ == all_secrets(manifests@)
            &&& found.1@ == all_users(manifests@)
        }),
{
    let mut secrets: Vec<SecretDefinition> = Vec::new();
    let mut users: Vec<UserDefinition> = Vec::new();
    let mut rest = manifests;
    // The manifests are taken from the end, so the lists are built from the
    // end too.
    let mut secrets_rev: Vec<Vec<SecretDefinition>> = Vec::new();
    let mut users_rev: Vec<Vec<UserDefinition>> = Vec::new();
    while rest.len() > 0
        invariant
            rest@.len() <= manifests@.len(),
            rest@ == manifests@.take(rest@.len() as int),
            secrets_rev@.len() == manifests@.len() - rest@.len(),
            users_rev@.len() == secrets_rev@.len(),
            forall|j: int|
                0 <= j < secrets_rev@.len() ==> (#[trigger] secrets_rev@[j])@
                    == manifests@[manifests@.len() - 1 - j].secrets@,
            forall|j: int|
                0 <= j < users_rev@.len() ==> (#[trigger] users_rev@[j])@
                    == manifests@[manifests@.len() - 1 - j].users@,
        decreases rest@.len(),
    {
        let ghost before = rest@;
        let m = rest.pop().unwrap();
        assert(m == before.last());
        assert(rest@ == manifests@.take(rest@.len() as int));
        secrets_rev.push(m.secrets);
        users_rev.push(m.users);
    }
    let n = secrets_rev.len();
    let mut i: usize = 0;
    assert(manifests@.take(0) =~= Seq::<RotationManifest>::empty());
    while secrets_rev.len() > 0
        invariant
            n == manifests@.len(),
            i + secrets_rev@.len() == n,
            users_rev@.len() == secrets_rev@.len(),
            secrets@ == all_secrets(manifests@.take(i as int)),
            users@ == all_users(manifests@.take(i as int)),
            forall|j: int|
                0 <= j < secrets_rev@.len() ==> (#[trigger] secrets_rev@[j])@
                    == manifests@[manifests@.len() - 1 - j].secrets@,
            forall|j: int|
                0 <= j < users_rev@.len() ==> (#[trigger] users_rev@[j])@
                    == manifests@[manifests@.len() - 1 - j].users@,
        decreases secrets_rev@.len(),
    {
        let ghost next = manifests@.take(i + 1);
        assert(next.drop_last() == manifests@.take(i as int));
        assert(next.last() == manifests@[i as int]);
        let mut s = secrets_rev.pop().unwrap();
        let mut u = users_rev.pop().unwrap();
        secrets.append(&mut s);
        users.append(&mut u);
        i += 1;
    }
    assert(manifests@.take(n as int) == manifests@);
    if secrets.len() == 0 {
        Err(Error::NoManifests)
    } else {
        Ok((secrets, users))
    }
}

/// The secrets whose names hold `pattern`, in their order.
pub open spec fn named_like(secrets: Seq<SecretDefinition>, pattern: Seq<char>) -> Seq<
    SecretDefinition,
>
    decreases secrets.len(),
{
    if secrets.len() == 0 {
        seq![]
    } else if contains_run(secrets.last().name@, pattern) {
        named_like(secrets.drop_last(), pattern).push(secrets.last())
    } else {
        named_like(secrets.drop_last(), pattern)
    }
}

/// The secrets to rotate: all of them, or those whose names hold the
/// pattern where there is one.
pub fn filter_secrets(secrets: Vec<SecretDefinition>, pattern: Option<&str>) -> (kept: Vec<
    SecretDefinition,
>)
    ensures
        kept@ == match pattern {
            Some(p) => named_like(secrets@, p@),
            None => secrets@,
        },
{
    let p = match pattern {
        Some(p) => chars_of(p),
        None => {
            return secrets;
        },
    };
    let mut rest = secrets;
    let mut kept_rev: Vec<SecretDefinition> = Vec::new();
    // `kept_rev` holds the secrets that are kept, from the last to the first.
    while rest.len() > 0
        invariant
            rest@ == secrets@.take(rest@.len() as int),
            rest@.len() <= secrets@.len(),
            named_like(secrets@, p@) == named_like(rest@, p@) + kept_rev@.reverse(),
        decreases rest@.len(),
    {
        let ghost before = rest@;
        let ghost kept_before = kept_rev@;
        let s = rest.pop().unwrap();
        assert(rest@ == before.drop_last());
        let name = chars_of(s.name.as_str());
        if contains(name.as_slice(), p.as_slice()) {
            kept_rev.push(s);
            assert(kept_rev@.reverse() =~= seq![s] + kept_before.reverse());
            assert(named_like(before, p@) + kept_before.reverse() =~= named_like(rest@, p@)
                + kept_rev@.reverse());
        }
    }
    let mut kept: Vec<SecretDefinition> = Vec::new();
    let ghost all = kept_rev@;
    while kept_rev.len() > 0
        invariant
            kept_rev@.len() <= all.len(),
            kept_rev@ == all.take(kept_rev@.len() as int),
            kept@ == all.skip(kept_rev@.len() as int).reverse(),
        decreases kept_rev@.len(),
    {
        let ghost before = kept_rev@;
        let ghost kept_before = kept@;
        let s = kept_rev.pop().unwrap();
        kept.push(s);
        assert(kept@ =~= all.skip(kept_rev@.len() as int).reverse());
    }
    assert(all.skip(0) == all);
    kept
}

/// How many rotations succeeded and how many failed.
#[derive(Clone, Copy, Debug, PartialEq, Eq, Structural)]
pub struct Summary {
    pub success: usize,
    pub failure: usize,
}

/// The number of outcomes that are failures.
pub open spec fn failures(outcomes: Seq<RotationOutcome>) -> nat
    decreases outcomes.len(),
{
    if outcomes.len() == 0 {
        0
    } else if outcomes.last() is Failed {
        failures(outcomes.drop_last()) + 1
    } else {
        failures(outcomes.drop_last())
    }
}

/// The failures are no more than the outcomes.
pub proof fn lemma_failures_bound(outcomes: Seq<RotationOutcome>)
    ensures
        failures(outcomes) <= outcomes.len(),
    decreases outcomes.len(),
{
    if outcomes.len() > 0 {
        lemma_failures_bound(outcomes.drop_last());
    }
}

/// Counts the outcomes: a secret that was rotated and a secret that was not
/// due both count as a success.
pub fn summarize(outcomes: &[RotationOutcome]) -> (s: Summary)
    ensures
        s.failure == failures(outcomes@),
        s.success + s.failure == outcomes@.len(),
{
    let mut success: usize = 0;
    let mut failure: usize = 0;
    let mut i: usize = 0;
    assert(outcomes@.take(0) =~= Seq::<RotationOutcome>::empty());
    while i < outcomes.len()
        invariant
            i <= outcomes@.len(),
            failure == failures(outcomes@.take(i as int)),
            success + failure == i,
        decreases outcomes@.len() - i,
    {
        let ghost next = outcomes@.take(i + 1);
        assert(next.drop_last() == outcomes@.take(i as int));
        assert(next.last() == outcomes@[i as int]);
        match outcomes[i] {
            RotationOutcome::Failed(_) => {
                failure += 1;
            },
            _ => {
                success += 1;
            },
        }
        i += 1;
    }
    assert(outcomes@.take(outcomes@.len() as int) == outcomes@);
    Summary { success, failure }
}

/// The result of a run: an error exactly where a rotation failed.
pub fn run_result(summary: &Summary) -> (r: Result<(), Error>)
    ensures
        summary.failure > 0 ==> r == Err::<(), Error>(Error::RotationsFailed),
        summary.failure == 0 ==> r is Ok,
{
    if summary.failure > 0 {
        Err(Error::RotationsFailed)
    } else {
        Ok(())
    }
}

/// Where the commit stands: what it waits for.
#[derive(Clone, Copy, Debug, PartialEq, Eq, Structural)]
pub enum CommitState {
    Start,
    /// The state of the working tree has been asked for.
    AwaitingStatus,
    /// The changes are being staged.
    AwaitingAdd,
    /// The staged changes have been asked for.
    AwaitingDiff,
    /// The commit is being made.
    AwaitingCommit,
    Finished,
}

/// What git answered.
#[derive(Clone, Copy, Debug, PartialEq, Eq, Structural)]
pub enum CommitEvent {
    Begin,
    /// Whether the working tree has changes.
    Status { changed: bool },
    /// The changes were staged.
    Added,
    /// Whether anything is staged.
    Diff { staged: bool },
    /// The commit was made.
    Committed,
    /// git failed.
    Failed(Error),
}

/// What is to be done next.
#[derive(Clone, Copy, Debug, PartialEq, Eq, Structural)]
pub enum CommitAction {
    /// `git status --porcelain`
    Status,
    /// `git add .`
    Add,
    /// `git diff --cached --quiet`
    DiffCached,
    /// `git commit` with the message of `commit_message`
    Commit,
    /// Nothing more is to be done.
    Done,
    /// The commit failed.
    Fail(Error),
}

/// The step that the commit takes from `state` on `event`. A dry run commits
/// nothing. Else the changes of the working tree are staged, and committed
/// where anything is staged. Nothing is pushed.
pub open spec fn commit_step_spec(dry_run: bool, state: CommitState, event: CommitEvent) -> (
    CommitState,
    CommitAction,
) {
    match (state, event) {
        (_, CommitEvent::Failed(e)) => (CommitState::Finished, CommitAction::Fail(e)),
        (CommitState::Start, CommitEvent::Begin) => if dry_run {
            (CommitState::Finished, CommitAction::Done)
        } else {
            (CommitState::AwaitingStatus, CommitAction::Status)
        },
        (CommitState::AwaitingStatus, CommitEvent::Status { changed }) => if changed {
            (CommitState::AwaitingAdd, CommitAction::Add)
        } else {
            (CommitState::Finished, CommitAction::Done)
        },
        (CommitState::AwaitingAdd, CommitEvent::Added) => (
            CommitState::AwaitingDiff,
            CommitAction::DiffCached,
        ),
        (CommitState::AwaitingDiff, CommitEvent::Diff { staged }) => if staged {
            (CommitState::AwaitingCommit, CommitAction::Commit)
        } else {
            (CommitState::Finished, CommitAction::Done)
        },
        (CommitState::AwaitingCommit, CommitEvent::Committed) => (
            CommitState::Finished,
            CommitAction::Done,
        ),
        _ => (CommitState::Finished, CommitAction::Fail(Error::OutOfTurn)),
    }
}

/// Takes one step of the commit.
pub fn commit_step(dry_run: bool, state: CommitState, event: CommitEvent) -> (next: (
    CommitState,
    CommitAction,
))
    ensures
        next == commit_step_spec(dry_run, state, event),
{
    match (state, event) {
        (_, CommitEvent::Failed(e)) => (CommitState::Finished, CommitAction::Fail(e)),
        (CommitState::Start, CommitEvent::Begin) => if dry_run {
            (CommitState::Finished, CommitAction::Done)
        } else {
            (CommitState::AwaitingStatus, CommitAction::Status)
        },
        (CommitState::AwaitingStatus, CommitEvent::Status { changed }) => if changed {
            (CommitState::AwaitingAdd, CommitAction::Add)
        } else {
            (CommitState::Finished, CommitAction::Done)
        },
        (CommitState::AwaitingAdd, CommitEvent::Added) => (
            CommitState::AwaitingDiff,
            CommitAction::DiffCached,
        ),
        (CommitState::AwaitingDiff, CommitEvent::Diff { staged }) => if staged {
            (CommitState::AwaitingCommit, CommitAction::Commit)
        } else {
            (CommitState::Finished, CommitAction::Done)
        },
        (CommitState::AwaitingCommit, CommitEvent::Committed) => (
            CommitState::Finished,
            CommitAction::Done,
        ),
        _ => (CommitState::Finished, CommitAction::Fail(Error::OutOfTurn)),
    }
}

} // verus!
