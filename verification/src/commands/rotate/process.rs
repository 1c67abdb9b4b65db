//! The rotation of one secret, step by step.
//!
//! The requests to the vault, the external tools and the files are not
//! touched here. `process_secret` says what is to be done next, takes what
//! came of it, and decides what follows.

use crate::commands::rotate::authentik::{
    blueprint_secret, blueprint_secret_spec, generate_blueprint, is_blueprint_of, Blueprint,
};
use crate::commands::rotate::collections::{
    collection_ids_spec, handle_collections, handle_folder, needs_collections,
    needs_collections_spec, opt_string_views,
};
use crate::commands::rotate::hooks::{execute_hooks, runs_hook, HookInvocation};
use crate::commands::rotate::item_ops::{
    covers_keys, is_prepared, notes_of, pairs_result, prepared_as, rotation_needed,
    rotation_needed_spec, ROTATION_WINDOW_DAYS,
};
use crate::infra::clock::{nanos_between, nanos_per_day};
use crate::logic::policy::{last_rotated_instant_spec, lemma_due_outside_the_window_only};
use crate::commands::rotate::kube::{generate_and_write_secret, is_manifest_of, SealedWrite};
use crate::commands::rotate::lookup::{
    configured_cipher_id, configured_id_spec, find_cipher_id, find_cipher_spec, target_name,
    target_name_spec,
};
use crate::commands::rotate::values::{
    are_requests_of, first_failure, has_distinct_keys, made_with, prepare_with_answers,
    value_requests, ValueAnswer, ValueRequest,
};
use crate::crypto::aes::MAX_PLAINTEXT_LEN;
use crate::crypto::field::decrypt_text_spec;
use crate::error::Error;
use crate::models::config::{HookCommand, SecretDefinition};
use crate::models::k8s::KubernetesTarget;
use crate::text_map::TextMap;
use crate::vaultwarden::folders::{find_folder_spec, resolve_folder_id, FolderResolution};
use crate::vaultwarden::item::VaultItem;
use crate::vaultwarden::models::{Cipher, Collection, FolderData};
use vstd::prelude::*;
use vstd::utf8::encode_utf8;

verus! {

/// What a rotation works with: the secret, the root of the repository, the
/// keys, and the switches.
pub struct RotationContext {
    pub secret: SecretDefinition,
    pub git_root: String,
    pub org_key: Vec<u8>,
    pub user_key: Vec<u8>,
    pub org_id: String,
    /// Whether nothing is written: not to the vault, not to disk.
    pub dry_run: bool,
    /// Whether the secret is rotated though the policy says it is not due.
    pub force: bool,
    /// The instant at which the policy is judged: seconds since the epoch,
    /// and nanoseconds of the second.
    pub now: (i64, u32),
}

impl RotationContext {
    /// The instant at which the policy is judged.
    pub open spec fn instant(self) -> (int, int) {
        (self.now.0 as int, self.now.1 as int)
    }
}

/// How the rotation of a secret ended.
#[derive(Clone, Copy, Debug, PartialEq, Eq, Structural)]
pub enum RotationOutcome {
    /// The secret was rotated.
    Done,
    /// The secret was not due.
    Skipped,
    /// A step failed; nothing after it was done.
    Failed(Error),
}

/// Where the rotation of a secret stands: what it waits for.
pub enum RotationState {
    /// Nothing has been done yet.
    Start,
    /// The hooks before the rotation are running.
    PreHooks,
    /// The ciphers of the vault have been asked for.
    Resolving,
    /// The cipher has been asked for.
    Fetching,
    /// The values that come from outside have been asked for.
    Producing { item: VaultItem },
    /// The folders of the account have been asked for.
    ResolvingFolder { item: VaultItem, data: TextMap },
    /// The folder is being created.
    CreatingFolder { item: VaultItem, data: TextMap },
    /// The collections of the organization have been asked for.
    ResolvingCollections { item: VaultItem, data: TextMap },
    /// The cipher is being written to the vault.
    Updating { item_id: String, collection_ids: Option<Vec<String>>, data: TextMap },
    /// The collections of the cipher are being written to the vault.
    UpdatingCollections { data: TextMap },
    /// The sealed secrets are being written.
    Writing { data: TextMap },
    /// The hooks after the rotation are running.
    PostHooks { data: TextMap },
    /// The blueprint is being written.
    WritingBlueprint { data: TextMap },
    /// The rotation has ended.
    Finished,
}

/// What came back from outside.
pub enum RotationEvent {
    /// The caller starts the rotation.
    Begin,
    /// The hooks ran, each with success.
    HooksDone,
    /// The vault sent its ciphers.
    Synced(Option<Vec<Cipher>>),
    /// The vault sent the cipher.
    ItemFetched(VaultItem),
    /// The values were fetched, in the order in which they were asked for.
    ValuesResolved(Vec<ValueAnswer>),
    /// The vault sent the folders of the account.
    Folders(Vec<FolderData>),
    /// The vault created the folder, with this id.
    FolderCreated(String),
    /// The vault sent the collections of the organization.
    Collections(Vec<Collection>),
    /// The vault took the cipher.
    ItemUpdated,
    /// The vault took the collections of the cipher.
    CollectionsUpdated,
    /// The sealed secrets were written.
    FilesWritten,
    /// The blueprint was written.
    BlueprintWritten,
    /// What was to be done failed.
    Failed(Error),
}

/// What is to be done next.
pub enum RotationAction {
    /// Run the commands in order and stop at the first that fails.
    RunHooks(Vec<HookInvocation>),
    /// Ask the vault for its ciphers.
    Sync,
    /// Ask the vault for the cipher.
    FetchItem { cipher_id: String },
    /// Fetch the values, in order, and stop at the first that fails.
    ResolveValues(Vec<ValueRequest>),
    /// Ask the vault for the folders of the account.
    ListFolders,
    /// Create a folder with this encrypted name.
    CreateFolder { encrypted_name: String },
    /// Ask the vault for the collections of the organization.
    ListCollections { org_id: String },
    /// Write the cipher to the vault.
    UpdateItem { item_id: String, item: VaultItem },
    /// Write the collections of the cipher to the vault.
    UpdateCollections { item_id: String, collection_ids: Vec<String> },
    /// Seal the secrets and write them, in order, and stop at the first
    /// that fails.
    WriteSealedSecrets(Vec<SealedWrite>),
    /// Write the blueprint.
    WriteBlueprint(Blueprint),
    /// The rotation has ended.
    Finish(RotationOutcome),
}

/// A step: where the rotation stands next, and what is to be done.
pub type Step = (RotationState, RotationAction);

/// Whether the step ends the rotation with `outcome`.
pub open spec fn finishes(next: Step, outcome: RotationOutcome) -> bool {
    next.0 is Finished && next.1 == RotationAction::Finish(outcome)
}

/// Whether the step ends the rotation with a failure.
pub open spec fn fails(next: Step) -> bool {
    &&& next.0 is Finished
    &&& next.1 matches RotationAction::Finish(outcome)
    &&& outcome is Failed
}

/// Whether `run` runs the hooks, one command for each, in order.
pub open spec fn run_matches(
    run: Seq<HookInvocation>,
    hooks: Seq<HookCommand>,
    cwd: Seq<char>,
    pairs: Seq<(Seq<char>, Seq<char>)>,
) -> bool {
    &&& run.len() == hooks.len()
    &&& forall|i: int| 0 <= i < run.len() ==> runs_hook(#[trigger] run[i], hooks[i], cwd, pairs)
}

/// The hooks before the rotation.
pub open spec fn pre_hooks_of(secret: SecretDefinition) -> Seq<HookCommand> {
    match secret.hooks {
        Some(h) => match h.pre {
            Some(list) => list@,
            None => seq![],
        },
        None => seq![],
    }
}

/// The hooks after the rotation.
pub open spec fn post_hooks_of(secret: SecretDefinition) -> Seq<HookCommand> {
    match secret.hooks {
        Some(h) => match h.post {
            Some(list) => list@,
            None => seq![],
        },
        None => seq![],
    }
}

/// The targets that take a sealed secret: the target of the secret, then
/// its additional targets.
pub open spec fn targets_of(secret: SecretDefinition) -> Seq<KubernetesTarget> {
    match secret.additional_kubernetes {
        Some(more) => seq![secret.kubernetes] + more@,
        None => seq![secret.kubernetes],
    }
}

/// Whether `writes` seal the values for the targets, one for each, in
/// order.
pub open spec fn writes_match(
    writes: Seq<SealedWrite>,
    targets: Seq<KubernetesTarget>,
    pairs: Seq<(Seq<char>, Seq<char>)>,
    git_root: Seq<char>,
) -> bool {
    &&& writes.len() == targets.len()
    &&& forall|i: int|
        0 <= i < writes.len() ==> {
            &&& is_manifest_of((#[trigger] writes[i]).manifest, targets[i], pairs)
            &&& writes[i].git_root@ == git_root
            &&& writes[i].path@ == targets[i].path@
        }
}

/// The last phase, that of the hooks after the rotation: they run, with the
/// values in their environment, unless the run is dry or there are none;
/// then, or at once, the rotation is done.
pub open spec fn post_hooks_phase_ok(ctx: RotationContext, data: TextMap, next: Step) -> bool {
    if !ctx.dry_run && post_hooks_of(ctx.secret).len() > 0 {
        &&& next.0 == (RotationState::PostHooks { data })
        &&& next.1 matches RotationAction::RunHooks(run)
        &&& run_matches(run@, post_hooks_of(ctx.secret), ctx.git_root@, data.pairs())
    } else {
        finishes(next, RotationOutcome::Done)
    }
}

/// The phase of the blueprint. It is written where the secret has a
/// blueprint target, the values hold one for it, and the run is not dry;
/// then, or at once, the hooks after the rotation follow.
pub open spec fn blueprint_phase_ok(ctx: RotationContext, data: TextMap, next: Step) -> bool {
    match (ctx.secret.authentik, blueprint_secret_spec(data.pairs())) {
        (Some(target), Some(value)) => if ctx.dry_run {
            post_hooks_phase_ok(ctx, data, next)
        } else {
            &&& next.0 == (RotationState::WritingBlueprint { data })
            &&& next.1 matches RotationAction::WriteBlueprint(b)
            &&& is_blueprint_of(b, target, value)
        },
        _ => post_hooks_phase_ok(ctx, data, next),
    }
}

/// The phase of the sealed secrets: one is written for every target, unless
/// the run is dry; then the blueprint follows.
pub open spec fn files_phase_ok(ctx: RotationContext, data: TextMap, next: Step) -> bool {
    if ctx.dry_run {
        blueprint_phase_ok(ctx, data, next)
    } else {
        &&& next.0 == (RotationState::Writing { data })
        &&& next.1 matches RotationAction::WriteSealedSecrets(writes)
        &&& writes_match(writes@, targets_of(ctx.secret), data.pairs(), ctx.git_root@)
    }
}

/// The phase of the vault update: the cipher is written under its id, unless
/// the run is dry; then the sealed secrets follow. A cipher without id ends
/// the rotation.
pub open spec fn update_phase_ok(
    ctx: RotationContext,
    item: VaultItem,
    data: TextMap,
    ids: Option<Vec<String>>,
    next: Step,
) -> bool {
    match item.id {
        None => finishes(next, RotationOutcome::Failed(Error::ItemWithoutId)),
        Some(id) => if ctx.dry_run {
            files_phase_ok(ctx, data, next)
        } else {
            &&& next.0 matches RotationState::Updating { item_id, collection_ids, data: d }
            &&& item_id@ == id@
            &&& collection_ids == ids
            &&& d == data
            &&& next.1 matches RotationAction::UpdateItem { item_id: sent_id, item: sent }
            &&& sent_id@ == id@
            &&& sent == item
        },
    }
}

/// After the cipher was written: its collections are written where the
/// manifest named any and some resolved; then the sealed secrets follow.
pub open spec fn updated_ok(
    ctx: RotationContext,
    item_id: String,
    ids: Option<Vec<String>>,
    data: TextMap,
    next: Step,
) -> bool {
    match ids {
        Some(list) => if list@.len() > 0 {
            &&& next.0 == (RotationState::UpdatingCollections { data })
            &&& next.1 matches RotationAction::UpdateCollections { item_id: sent_id, collection_ids }
            &&& sent_id == item_id
            &&& collection_ids == list
        } else {
            files_phase_ok(ctx, data, next)
        },
        None => files_phase_ok(ctx, data, next),
    }
}

/// Whether `filed` is the cipher `item` filed in the collections that the
/// manifest names, with `ids` as those collections: the read-only list of
/// collections is stripped, and nothing else differs.
pub open spec fn is_filed(
    secret: SecretDefinition,
    item: VaultItem,
    filed: VaultItem,
    ids: Option<Vec<String>>,
    all: Seq<Collection>,
    org_key: Seq<u8>,
) -> bool {
    &&& opt_string_views(ids) == collection_ids_spec(secret, all, org_key)
    &&& !filed.has_collections
    &&& opt_string_views(filed.collection_ids) == match collection_ids_spec(secret, all, org_key) {
        Some(list) => Some(list),
        None => opt_string_views(item.collection_ids),
    }
    &&& filed.id == item.id
    &&& filed.name == item.name
    &&& filed.notes == item.notes
    &&& filed.login == item.login
    &&& filed.fields == item.fields
    &&& filed.folder_id == item.folder_id
}

/// Once the collections are known: the cipher is filed in them, and the
/// vault update follows.
pub open spec fn collections_known_ok(
    ctx: RotationContext,
    item: VaultItem,
    data: TextMap,
    all: Seq<Collection>,
    next: Step,
) -> bool {
    exists|filed: VaultItem, ids: Option<Vec<String>>|
        {
            &&& #[trigger] is_filed(ctx.secret, item, filed, ids, all, ctx.org_key@)
            &&& update_phase_ok(ctx, filed, data, ids, next)
        }
}

/// The phase of the collections: they are asked for where the manifest names
/// collections, and not by id; else the cipher is filed at once.
pub open spec fn collections_phase_ok(
    ctx: RotationContext,
    item: VaultItem,
    data: TextMap,
    next: Step,
) -> bool {
    if needs_collections_spec(ctx.secret) {
        &&& next.0 == (RotationState::ResolvingCollections { item, data })
        &&& next.1 matches RotationAction::ListCollections { org_id }
        &&& org_id@ == ctx.org_id@
    } else {
        collections_known_ok(ctx, item, data, seq![], next)
    }
}

/// Whether `filed` is the cipher `item` in the folder with the id `id`.
pub open spec fn is_in_folder(item: VaultItem, filed: VaultItem, id: Seq<char>) -> bool {
    &&& filed.folder_id matches Some(f)
    &&& f@ == id
    &&& filed.id == item.id
    &&& filed.name == item.name
    &&& filed.notes == item.notes
    &&& filed.login == item.login
    &&& filed.fields == item.fields
    &&& filed.collection_ids == item.collection_ids
    &&& filed.has_collections == item.has_collections
}

/// Once the folder is known: the cipher goes into it, and the collections
/// follow.
pub open spec fn folder_known_ok(
    ctx: RotationContext,
    item: VaultItem,
    data: TextMap,
    id: Seq<char>,
    next: Step,
) -> bool {
    exists|filed: VaultItem| #[trigger]
        is_in_folder(item, filed, id) && collections_phase_ok(ctx, filed, data, next)
}

/// Once the folders of the account are known: the cipher goes into the
/// folder with the name that the manifest gives, looked up under the user's
/// key; where there is none, one is created under the encrypted name.
pub open spec fn folders_ok(
    ctx: RotationContext,
    item: VaultItem,
    data: TextMap,
    folders: Seq<FolderData>,
    next: Step,
) -> bool {
    match ctx.secret.vaultwarden.folder {
        None => collections_phase_ok(ctx, item, data, next),
        Some(name) => match find_folder_spec(folders, name@, ctx.user_key@) {
            Some(id) => folder_known_ok(ctx, item, data, id, next),
            None => if ctx.user_key@.len() < 64 {
                finishes(next, RotationOutcome::Failed(Error::KeyTooShort))
            } else if encode_utf8(name@).len() > MAX_PLAINTEXT_LEN {
                finishes(next, RotationOutcome::Failed(Error::PlaintextTooLong))
            } else {
                &&& next.0 == (RotationState::CreatingFolder { item, data })
                &&& next.1 matches RotationAction::CreateFolder { encrypted_name }
                &&& decrypt_text_spec(encrypted_name@, ctx.user_key@) == Some(name@)
            },
        },
    }
}

/// The phase of the folder: the folders of the account are asked for where
/// the manifest names a folder; else the collections follow.
pub open spec fn folder_phase_ok(ctx: RotationContext, item: VaultItem, data: TextMap, next: Step) -> bool {
    match ctx.secret.vaultwarden.folder {
        Some(_) => next.0 == (RotationState::ResolvingFolder { item, data }) && next.1 is ListFolders,
        None => collections_phase_ok(ctx, item, data, next),
    }
}

/// Whether the step is that of a cipher whose values were produced and
/// stored: the folder follows, with the cipher as it was prepared.
pub open spec fn prepared_ok(ctx: RotationContext, item: VaultItem, next: Step) -> bool {
    exists|prepared: VaultItem, data: TextMap|
        {
            &&& #[trigger] is_prepared(item, prepared, data.pairs(), ctx.org_key@)
            &&& covers_keys(data.pairs(), ctx.secret)
            &&& folder_phase_ok(ctx, prepared, data, next)
        }
}

/// Whether the step follows a preparation that ended as `r`, with the
/// cipher `prepared`: after a success the folder follows, with the cipher as
/// it was prepared and the values by name; a failure ends the rotation with
/// its error.
pub open spec fn follows_preparation(
    ctx: RotationContext,
    item: VaultItem,
    prepared: VaultItem,
    r: Result<TextMap, Error>,
    next: Step,
) -> bool {
    match r {
        Ok(data) => {
            &&& is_prepared(item, prepared, data.pairs(), ctx.org_key@)
            &&& covers_keys(data.pairs(), ctx.secret)
            &&& folder_phase_ok(ctx, prepared, data, next)
        },
        Err(e) => finishes(next, RotationOutcome::Failed(e)),
    }
}

/// Once the values from outside are there: the keys are taken one after the
/// other, each gets what its plan says for what the cipher holds by then and
/// for its answer, and the values are stored in the cipher; then the folder
/// follows. The rotation ends with the error of the first key whose value
/// cannot be produced or stored. Where the keys of the secret have names of
/// their own, that is the error of `first_failure`, which looks at the
/// cipher as it was fetched.
pub open spec fn values_ok(
    ctx: RotationContext,
    item: VaultItem,
    answers: Seq<ValueAnswer>,
    next: Step,
) -> bool {
    &&& exists|prepared: VaultItem, r: Result<TextMap, Error>|
        {
            &&& #[trigger] prepared_as(
                item,
                prepared,
                ctx.secret.keys@,
                ctx.org_key@,
                made_with(ctx.secret.keys@, answers, ctx.force),
                pairs_result(r),
            )
            &&& follows_preparation(ctx, item, prepared, r, next)
        }
    &&& has_distinct_keys(ctx.secret) ==> match first_failure(
        item,
        ctx.secret.keys@,
        answers,
        ctx.org_key@,
        ctx.force,
        0,
    ) {
        Some(e) => finishes(next, RotationOutcome::Failed(e)),
        None => prepared_ok(ctx, item, next),
    }
}

/// Once the cipher is there: a cipher that is not due at the instant of the
/// context, in a run that is not forced, ends the rotation as skipped, a
/// status of its own. Else the values that come from outside are asked for;
/// where there are none, the values are produced at once.
pub open spec fn fetched_ok(ctx: RotationContext, item: VaultItem, next: Step) -> bool {
    if !rotation_needed_spec(item, ctx.force, ctx.instant()) {
        finishes(next, RotationOutcome::Skipped)
    } else {
        ||| {
            &&& next.0 == (RotationState::Producing { item })
            &&& next.1 matches RotationAction::ResolveValues(requests)
            &&& requests@.len() > 0
            &&& are_requests_of(requests@, ctx.secret)
        }
        ||| {
            &&& are_requests_of(seq![], ctx.secret)
            &&& values_ok(ctx, item, seq![], next)
        }
    }
}

/// The phase of the cipher: it is asked for by the id that the manifest
/// names; where it names none, the ciphers of the vault are asked for.
pub open spec fn resolve_phase_ok(ctx: RotationContext, next: Step) -> bool {
    match configured_id_spec(ctx.secret) {
        Some(id) => {
            &&& next.0 is Fetching
            &&& next.1 matches RotationAction::FetchItem { cipher_id }
            &&& cipher_id@ == id
        },
        None => next.0 is Resolving && next.1 is Sync,
    }
}

/// Once the ciphers of the vault are known: the cipher whose name decrypts
/// to the name of the secret is asked for; where there is none, the
/// rotation ends.
pub open spec fn synced_ok(ctx: RotationContext, ciphers: Seq<Cipher>, next: Step) -> bool {
    match find_cipher_spec(ciphers, target_name_spec(ctx.secret), ctx.org_key@) {
        Some(id) => {
            &&& next.0 is Fetching
            &&& next.1 matches RotationAction::FetchItem { cipher_id }
            &&& cipher_id@ == id
        },
        None => finishes(next, RotationOutcome::Failed(Error::CipherNotFound)),
    }
}

/// The first phase: the hooks before the rotation run, with no values in
/// their environment, unless the run is dry or there are none; then the
/// cipher follows.
pub open spec fn begin_ok(ctx: RotationContext, next: Step) -> bool {
    if !ctx.dry_run && pre_hooks_of(ctx.secret).len() > 0 {
        &&& next.0 is PreHooks
        &&& next.1 matches RotationAction::RunHooks(run)
        &&& run_matches(run@, pre_hooks_of(ctx.secret), ctx.git_root@, seq![])
    } else {
        resolve_phase_ok(ctx, next)
    }
}

/// The step that the rotation of a secret takes from `state` on `event`.
///
/// The rotation runs its hooks, finds and fetches the cipher, stops where
/// the cipher is not due, produces the values and stores them in the cipher,
/// files the cipher in its folder and its collections, writes it to the
/// vault, writes the sealed secrets, writes the blueprint, and runs its
/// hooks. A dry run writes nothing and runs no hook. A failure from
/// outside, and an event that the state does not await, end the rotation.
pub open spec fn rotation_step_spec(
    ctx: RotationContext,
    state: RotationState,
    event: RotationEvent,
    next: Step,
) -> bool {
    match (state, event) {
        (_, RotationEvent::Failed(e)) => finishes(next, RotationOutcome::Failed(e)),
        (RotationState::Start, RotationEvent::Begin) => begin_ok(ctx, next),
        (RotationState::PreHooks, RotationEvent::HooksDone) => resolve_phase_ok(ctx, next),
        (RotationState::Resolving, RotationEvent::Synced(ciphers)) => synced_ok(
            ctx,
            match ciphers {
                Some(list) => list@,
                None => seq![],
            },
            next,
        ),
        (RotationState::Fetching, RotationEvent::ItemFetched(item)) => fetched_ok(ctx, item, next),
        (RotationState::Producing { item }, RotationEvent::ValuesResolved(answers)) => values_ok(
            ctx,
            item,
            answers@,
            next,
        ),
        (RotationState::ResolvingFolder { item, data }, RotationEvent::Folders(folders)) => folders_ok(
            ctx,
            item,
            data,
            folders@,
            next,
        ),
        (
            RotationState::CreatingFolder { item, data },
            RotationEvent::FolderCreated(id),
        ) => folder_known_ok(ctx, item, data, id@, next),
        (
            RotationState::ResolvingCollections { item, data },
            RotationEvent::Collections(all),
        ) => collections_known_ok(ctx, item, data, all@, next),
        (
            RotationState::Updating { item_id, collection_ids, data },
            RotationEvent::ItemUpdated,
        ) => updated_ok(ctx, item_id, collection_ids, data, next),
        (
            RotationState::UpdatingCollections { data },
            RotationEvent::CollectionsUpdated,
        ) => files_phase_ok(ctx, data, next),
        (RotationState::Writing { data }, RotationEvent::FilesWritten) => blueprint_phase_ok(
            ctx,
            data,
            next,
        ),
        (
            RotationState::WritingBlueprint { data },
            RotationEvent::BlueprintWritten,
        ) => post_hooks_phase_ok(ctx, data, next),
        (RotationState::PostHooks { data }, RotationEvent::HooksDone) => finishes(
            next,
            RotationOutcome::Done,
        ),
        _ => finishes(next, RotationOutcome::Failed(Error::OutOfTurn)),
    }
}

/// Whether the state is one that only a run that writes can be in.
pub open spec fn is_writing_state(state: RotationState) -> bool {
    ||| state is PreHooks
    ||| state is Updating
    ||| state is UpdatingCollections
    ||| state is Writing
    ||| state is PostHooks
    ||| state is WritingBlueprint
}

/// Whether the action writes to the vault or to disk, or runs a hook. The
/// creation of a folder that the cipher is to go into is not counted.
pub open spec fn is_writing_action(action: RotationAction) -> bool {
    ||| action is RunHooks
    ||| action is UpdateItem
    ||| action is UpdateCollections
    ||| action is WriteSealedSecrets
    ||| action is WriteBlueprint
}

/// A dry run writes nothing and runs no hook: from a state that a dry run
/// can be in, no step of a dry run leads to an action that writes, nor to a
/// state that only a run that writes can be in.
pub proof fn lemma_dry_run_writes_nothing(
    ctx: RotationContext,
    state: RotationState,
    event: RotationEvent,
    next: Step,
)
    requires
        ctx.dry_run,
        !is_writing_state(state),
        rotation_step_spec(ctx, state, event, next),
    ensures
        !is_writing_action(next.1),
        !is_writing_state(next.0),
{
}

/// The policy gate. In a run that is not forced, a cipher whose notes name
/// a last rotation less than the window of 30 days before the instant of the
/// context, or after it, is skipped. A cipher whose notes name an older one,
/// or none that can be read, and every cipher of a forced run, is not: its
/// values are asked for or produced.
pub proof fn lemma_policy_gate(ctx: RotationContext, item: VaultItem, next: Step)
    requires
        rotation_step_spec(ctx, RotationState::Fetching, RotationEvent::ItemFetched(item), next),
    ensures
        match last_rotated_instant_spec(notes_of(item)) {
            Some(last) => if !ctx.force && nanos_between(last, ctx.instant())
                < ROTATION_WINDOW_DAYS * nanos_per_day() {
                finishes(next, RotationOutcome::Skipped)
            } else {
                fetched_ok(ctx, item, next) && rotation_needed_spec(item, ctx.force, ctx.instant())
            },
            None => fetched_ok(ctx, item, next) && rotation_needed_spec(
                item,
                ctx.force,
                ctx.instant(),
            ),
        },
{
    lemma_due_outside_the_window_only(notes_of(item), ROTATION_WINDOW_DAYS, ctx.instant());
}

/// A rotation that was skipped has ended: the step that skips asks for
/// nothing, and whatever comes after it ends as out of turn or with the
/// failure that came, and asks for nothing either. So nothing is written to
/// the vault or to disk, no folder is created and no hook runs.
pub proof fn lemma_skipped_writes_nothing(
    ctx: RotationContext,
    skipped: Step,
    event: RotationEvent,
    next: Step,
)
    requires
        finishes(skipped, RotationOutcome::Skipped),
        rotation_step_spec(ctx, skipped.0, event, next),
    ensures
        !is_writing_action(skipped.1),
        !(skipped.1 is CreateFolder),
        fails(next),
        !is_writing_action(next.1),
        !(next.1 is CreateFolder),
{
}

/// The blueprint. Once the sealed secrets are written, in a run that is not
/// dry, a secret with a blueprint target gets a blueprint of that target
/// with the value of `client_secret`, else of `password`, else of `secret`;
/// where the values hold none of the three, and where the secret has no
/// target, no blueprint is written.
pub proof fn lemma_blueprint_follows_the_files(ctx: RotationContext, data: TextMap, next: Step)
    requires
        !ctx.dry_run,
        rotation_step_spec(ctx, RotationState::Writing { data }, RotationEvent::FilesWritten, next),
    ensures
        match (ctx.secret.authentik, blueprint_secret_spec(data.pairs())) {
            (Some(target), Some(value)) => next.1 matches RotationAction::WriteBlueprint(b)
                && is_blueprint_of(b, target, value),
            _ => !(next.1 is WriteBlueprint),
        },
{
}

/// Ends the rotation.
fn finish(outcome: RotationOutcome) -> (next: Step)
    ensures
        finishes(next, outcome),
{
    (RotationState::Finished, RotationAction::Finish(outcome))
}

/// The phase of the hooks after the rotation.
fn post_hooks_phase(ctx: &RotationContext, data: TextMap) -> (next: Step)
    ensures
        post_hooks_phase_ok(*ctx, data, next),
{
    let run = match &ctx.secret.hooks {
        Some(h) => match &h.post {
            Some(list) => execute_hooks(list.as_slice(), ctx.git_root.as_str(), ctx.dry_run, &data),
            None => Vec::new(),
        },
        None => Vec::new(),
    };
    if run.len() > 0 {
        (RotationState::PostHooks { data }, RotationAction::RunHooks(run))
    } else {
        finish(RotationOutcome::Done)
    }
}

/// The blueprint phase.
fn blueprint_phase(ctx: &RotationContext, data: TextMap) -> (next: Step)
    ensures
        blueprint_phase_ok(*ctx, data, next),
{
    match &ctx.secret.authentik {
        Some(target) => match blueprint_secret(&data) {
            Some(value) => {
                if ctx.dry_run {
                    post_hooks_phase(ctx, data)
                } else {
                    let blueprint = generate_blueprint(target, value.as_str());
                    (
                        RotationState::WritingBlueprint { data },
                        RotationAction::WriteBlueprint(blueprint),
                    )
                }
            },
            None => post_hooks_phase(ctx, data),
        },
        None => post_hooks_phase(ctx, data),
    }
}

/// The phase of the sealed secrets.
fn files_phase(ctx: &RotationContext, data: TextMap) -> (next: Step)
    ensures
        files_phase_ok(*ctx, data, next),
{
    if ctx.dry_run {
        return blueprint_phase(ctx, data);
    }
    let mut writes: Vec<SealedWrite> = Vec::new();
    match generate_and_write_secret(&ctx.secret.kubernetes, &data, ctx.git_root.as_str(), false) {
        Some(w) => {
            writes.push(w);
        },
        None => {},
    }
    match &ctx.secret.additional_kubernetes {
        Some(more) => {
            let mut i: usize = 0;
            while i < more.len()
                invariant
                    i <= more@.len(),
                    ctx.secret.additional_kubernetes == Some(*more),
                    writes@.len() == i + 1,
                    forall|j: int|
                        0 <= j < writes@.len() ==> {
                            &&& is_manifest_of(
                                (#[trigger] writes@[j]).manifest,
                                targets_of(ctx.secret)[j],
                                data.pairs(),
                            )
                            &&& writes@[j].git_root@ == ctx.git_root@
                            &&& writes@[j].path@ == targets_of(ctx.secret)[j].path@
                        },
                decreases more@.len() - i,
            {
                match generate_and_write_secret(&more[i], &data, ctx.git_root.as_str(), false) {
                    Some(w) => {
                        writes.push(w);
                    },
                    None => {},
                }
                i += 1;
            }
        },
        None => {},
    }
    (RotationState::Writing { data }, RotationAction::WriteSealedSecrets(writes))
}

/// The phase of the vault update.
fn update_phase(ctx: &RotationContext, item: VaultItem, data: TextMap, ids: Option<Vec<String>>) -> (next:
    Step)
    ensures
        update_phase_ok(*ctx, item, data, ids, next),
{
    let item_id = match &item.id {
        Some(id) => id.clone(),
        None => {
            return finish(RotationOutcome::Failed(Error::ItemWithoutId));
        },
    };
    if ctx.dry_run {
        files_phase(ctx, data)
    } else {
        let sent_id = item_id.clone();
        (
            RotationState::Updating { item_id, collection_ids: ids, data },
            RotationAction::UpdateItem { item_id: sent_id, item },
        )
    }
}

/// What follows the vault update.
fn after_update(ctx: &RotationContext, item_id: String, ids: Option<Vec<String>>, data: TextMap) -> (next:
    Step)
    ensures
        updated_ok(*ctx, item_id, ids, data, next),
{
    match ids {
        Some(list) => {
            if list.len() > 0 {
                (
                    RotationState::UpdatingCollections { data },
                    RotationAction::UpdateCollections { item_id, collection_ids: list },
                )
            } else {
                files_phase(ctx, data)
            }
        },
        None => files_phase(ctx, data),
    }
}

/// Files the cipher in its collections and goes on to the vault update.
fn file_in_collections(ctx: &RotationContext, item: VaultItem, data: TextMap, all: &[Collection]) -> (next:
    Step)
    ensures
        collections_known_ok(*ctx, item, data, all@, next),
{
    let mut filed = item;
    let ids = handle_collections(&mut filed, &ctx.secret, all, ctx.org_key.as_slice());
    assert(is_filed(ctx.secret, item, filed, ids, all@, ctx.org_key@));
    update_phase(ctx, filed, data, ids)
}

/// The phase of the collections.
fn collections_phase(ctx: &RotationContext, item: VaultItem, data: TextMap) -> (next: Step)
    ensures
        collections_phase_ok(*ctx, item, data, next),
{
    if needs_collections(&ctx.secret) {
        (
            RotationState::ResolvingCollections { item, data },
            RotationAction::ListCollections { org_id: ctx.org_id.clone() },
        )
    } else {
        let none: Vec<Collection> = Vec::new();
        file_in_collections(ctx, item, data, none.as_slice())
    }
}

/// Puts the cipher into the folder and goes on to the collections.
fn put_in_folder(ctx: &RotationContext, item: VaultItem, data: TextMap, id: String) -> (next: Step)
    ensures
        folder_known_ok(*ctx, item, data, id@, next),
{
    let mut filed = item;
    handle_folder(&mut filed, Some(id));
    assert(is_in_folder(item, filed, id@));
    collections_phase(ctx, filed, data)
}

/// What follows the list of the folders.
fn after_folders(ctx: &RotationContext, item: VaultItem, data: TextMap, folders: &[FolderData]) -> (next:
    Step)
    ensures
        folders_ok(*ctx, item, data, folders@, next),
{
    let name = match &ctx.secret.vaultwarden.folder {
        Some(n) => n,
        None => {
            return collections_phase(ctx, item, data);
        },
    };
    match resolve_folder_id(folders, name.as_str(), ctx.user_key.as_slice(), true) {
        Ok(FolderResolution::Found(id)) => put_in_folder(ctx, item, data, id),
        Ok(FolderResolution::Create(encrypted_name)) => (
            RotationState::CreatingFolder { item, data },
            RotationAction::CreateFolder { encrypted_name },
        ),
        Ok(FolderResolution::Missing) => collections_phase(ctx, item, data),
        Err(e) => finish(RotationOutcome::Failed(e)),
    }
}

/// The phase of the folder.
fn folder_phase(ctx: &RotationContext, item: VaultItem, data: TextMap) -> (next: Step)
    ensures
        folder_phase_ok(*ctx, item, data, next),
{
    if ctx.secret.vaultwarden.folder.is_some() {
        (RotationState::ResolvingFolder { item, data }, RotationAction::ListFolders)
    } else {
        collections_phase(ctx, item, data)
    }
}

/// Produces the values, stores them, and goes on to the folder.
fn after_values(ctx: &RotationContext, item: VaultItem, answers: &Vec<ValueAnswer>) -> (next: Step)
    ensures
        values_ok(*ctx, item, answers@, next),
{
    let mut prepared = item;
    let r = prepare_with_answers(
        &mut prepared,
        &ctx.secret,
        ctx.org_key.as_slice(),
        ctx.force,
        answers,
    );
    let ghost made = made_with(ctx.secret.keys@, answers@, ctx.force);
    assert(prepared_as(item, prepared, ctx.secret.keys@, ctx.org_key@, made, pairs_result(r)));
    match r {
        Err(e) => {
            let next = finish(RotationOutcome::Failed(e));
            assert(follows_preparation(*ctx, item, prepared, Err::<TextMap, Error>(e), next));
            next
        },
        Ok(data) => {
            assert(is_prepared(item, prepared, data.pairs(), ctx.org_key@));
            let ghost kept = data;
            let next = folder_phase(ctx, prepared, data);
            assert(follows_preparation(*ctx, item, prepared, Ok::<TextMap, Error>(kept), next));
            next
        },
    }
}

/// What follows the cipher.
fn after_fetch(ctx: &RotationContext, item: VaultItem) -> (next: Step)
    ensures
        fetched_ok(*ctx, item, next),
{
    if !rotation_needed(&item, ctx.force, ctx.now) {
        return finish(RotationOutcome::Skipped);
    }
    let requests = value_requests(&ctx.secret);
    if requests.len() > 0 {
        (RotationState::Producing { item }, RotationAction::ResolveValues(requests))
    } else {
        assert(requests@ =~= Seq::<ValueRequest>::empty());
        let none: Vec<ValueAnswer> = Vec::new();
        after_values(ctx, item, &none)
    }
}

/// The phase of the cipher.
fn resolve_phase(ctx: &RotationContext) -> (next: Step)
    ensures
        resolve_phase_ok(*ctx, next),
{
    match configured_cipher_id(&ctx.secret) {
        Some(cipher_id) => (RotationState::Fetching, RotationAction::FetchItem { cipher_id }),
        None => (RotationState::Resolving, RotationAction::Sync),
    }
}

/// What follows the ciphers of the vault.
fn after_sync(ctx: &RotationContext, ciphers: &[Cipher]) -> (next: Step)
    ensures
        synced_ok(*ctx, ciphers@, next),
{
    match find_cipher_id(ciphers, target_name(&ctx.secret), ctx.org_key.as_slice()) {
        Some(cipher_id) => (RotationState::Fetching, RotationAction::FetchItem { cipher_id }),
        None => finish(RotationOutcome::Failed(Error::CipherNotFound)),
    }
}

/// The first phase.
fn begin(ctx: &RotationContext) -> (next: Step)
    ensures
        begin_ok(*ctx, next),
{
    let empty = TextMap::new();
    let run = match &ctx.secret.hooks {
        Some(h) => match &h.pre {
            Some(list) => execute_hooks(list.as_slice(), ctx.git_root.as_str(), ctx.dry_run, &empty),
            None => Vec::new(),
        },
        None => Vec::new(),
    };
    if run.len() > 0 {
        (RotationState::PreHooks, RotationAction::RunHooks(run))
    } else {
        resolve_phase(ctx)
    }
}

/// Takes one step of the rotation of a secret: from where it stands and what
/// came back to where it stands next and what is to be done.
pub fn process_secret(ctx: &RotationContext, state: RotationState, event: RotationEvent) -> (next:
    Step)
    ensures
        rotation_step_spec(*ctx, state, event, next),
{
    match (state, event) {
        (_, RotationEvent::Failed(e)) => finish(RotationOutcome::Failed(e)),
        (RotationState::Start, RotationEvent::Begin) => begin(ctx),
        (RotationState::PreHooks, RotationEvent::HooksDone) => resolve_phase(ctx),
        (RotationState::Resolving, RotationEvent::Synced(ciphers)) => match ciphers {
            Some(list) => after_sync(ctx, list.as_slice()),
            None => {
                let none: Vec<Cipher> = Vec::new();
                after_sync(ctx, none.as_slice())
            },
        },
        (RotationState::Fetching, RotationEvent::ItemFetched(item)) => after_fetch(ctx, item),
        (RotationState::Producing { item }, RotationEvent::ValuesResolved(answers)) => after_values(
            ctx,
            item,
            &answers,
        ),
        (RotationState::ResolvingFolder { item, data }, RotationEvent::Folders(folders)) => after_folders(
            ctx,
            item,
            data,
            folders.as_slice(),
        ),
        (RotationState::CreatingFolder { item, data }, RotationEvent::FolderCreated(id)) => put_in_folder(
            ctx,
            item,
            data,
            id,
        ),
        (
            RotationState::ResolvingCollections { item, data },
            RotationEvent::Collections(all),
        ) => file_in_collections(ctx, item, data, all.as_slice()),
        (
            RotationState::Updating { item_id, collection_ids, data },
            RotationEvent::ItemUpdated,
        ) => after_update(ctx, item_id, collection_ids, data),
        (RotationState::UpdatingCollections { data }, RotationEvent::CollectionsUpdated) => files_phase(
            ctx,
            data,
        ),
        (RotationState::Writing { data }, RotationEvent::FilesWritten) => blueprint_phase(ctx, data),
        (RotationState::WritingBlueprint { data }, RotationEvent::BlueprintWritten) => post_hooks_phase(
            ctx,
            data,
        ),
        (RotationState::PostHooks { data }, RotationEvent::HooksDone) => finish(RotationOutcome::Done),
        _ => finish(RotationOutcome::Failed(Error::OutOfTurn)),
    }
}

} // verus!
