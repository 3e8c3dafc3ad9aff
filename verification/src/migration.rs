use crate::migrations::a1001_payment_id_v2_migration::AddPaymentIdV2Migration;
use crate::migrations::a1002_default_controllers_migration::AddDefaultControllersMigration;
use crate::models::{CanisterState, CanisterStateView};
use crate::text::{decimal_digits, decimal_text, join2, join3, text_of};
use vstd::prelude::*;

verus! {

/// The record of one migration that was applied.
#[derive(Debug)]
pub struct SchemaVersion {
    pub version: u64,
    /// When the migration was applied.
    pub applied_at: u64,
    pub description: String,
}

/// What a `SchemaVersion` holds, as mathematical values.
pub struct SchemaVersionView {
    pub version: u64,
    pub applied_at: u64,
    pub description: Seq<char>,
}

impl View for SchemaVersion {
    type V = SchemaVersionView;

    open spec fn view(&self) -> SchemaVersionView {
        SchemaVersionView {
            version: self.version,
            applied_at: self.applied_at,
            description: self.description@,
        }
    }
}

impl DeepView for SchemaVersion {
    type V = SchemaVersionView;

    open spec fn deep_view(&self) -> SchemaVersionView {
        self@
    }
}

impl Clone for SchemaVersion {
    fn clone(&self) -> (r: Self)
        ensures
            r@ == self@,
    {
        SchemaVersion {
            version: self.version,
            applied_at: self.applied_at,
            description: self.description.clone(),
        }
    }
}

/// The version that a new store starts at.
pub const BASE_VERSION: u64 = 1000;

/// The version of the stored data and the migrations that led to it.
#[derive(Debug)]
pub struct SchemaMetadata {
    pub current_version: u64,
    /// The migrations that were applied, in the order in which they were.
    pub applied_migrations: Vec<SchemaVersion>,
    /// A version to migrate to; kept, and not yet looked at.
    pub target_version: Option<u64>,
}

/// What a `SchemaMetadata` holds, as mathematical values.
pub struct SchemaMetadataView {
    pub current_version: u64,
    pub applied_migrations: Seq<SchemaVersionView>,
    pub target_version: Option<u64>,
}

impl View for SchemaMetadata {
    type V = SchemaMetadataView;

    open spec fn view(&self) -> SchemaMetadataView {
        SchemaMetadataView {
            current_version: self.current_version,
            applied_migrations: self.applied_migrations.deep_view(),
            target_version: self.target_version,
        }
    }
}

impl SchemaMetadataView {
    /// The metadata of a new store: the base version and no history.
    pub open spec fn initial() -> SchemaMetadataView {
        SchemaMetadataView {
            current_version: BASE_VERSION,
            applied_migrations: Seq::empty(),
            target_version: None,
        }
    }

    /// The description under which the current version was applied; empty
    /// where the history does not hold the current version.
    pub open spec fn current_description(self) -> Seq<char> {
        description_of(self.applied_migrations, self.current_version)
    }
}

/// The description of the first record of `version` in a history; empty
/// where there is none.
pub open spec fn description_of(history: Seq<SchemaVersionView>, version: u64) -> Seq<char>
    decreases history.len(),
{
    if history.len() == 0 {
        Seq::empty()
    } else if history[0].version == version {
        history[0].description
    } else {
        description_of(history.drop_first(), version)
    }
}

impl Clone for SchemaMetadata {
    fn clone(&self) -> (r: Self)
        ensures
            r@ == self@,
    {
        let applied_migrations = self.applied_migrations.clone();
        proof {
            assert(applied_migrations.deep_view() =~= self.applied_migrations.deep_view());
        }
        SchemaMetadata {
            current_version: self.current_version,
            applied_migrations,
            target_version: self.target_version,
        }
    }
}

impl Default for SchemaMetadata {
    fn default() -> (r: Self)
        ensures
            r@ == SchemaMetadataView::initial(),
    {
        let r = SchemaMetadata {
            current_version: BASE_VERSION,
            applied_migrations: Vec::new(),
            target_version: None,
        };
        proof {
            assert(r.applied_migrations.deep_view() =~= Seq::empty());
        }
        r
    }
}

impl SchemaMetadata {
    /// The description under which the current version was applied.
    pub fn current_description(&self) -> (r: String)
        ensures
            r@ == self@.current_description(),
    {
        let n = self.applied_migrations.len();
        let ghost history = self.applied_migrations.deep_view();
        let mut i: usize = 0;
        assert(history.skip(0) =~= history);
        while i < n
            invariant
                i <= n,
                n == self.applied_migrations.len(),
                history == self.applied_migrations.deep_view(),
                description_of(history, self.current_version) == description_of(
                    history.skip(i as int),
                    self.current_version,
                ),
            decreases n - i,
        {
            proof {
                assert(history.skip(i as int)[0] == self.applied_migrations[i as int]@);
                assert(history.skip(i as int).drop_first() =~= history.skip(i + 1));
            }
            if self.applied_migrations[i].version == self.current_version {
                return self.applied_migrations[i].description.clone();
            }
            i += 1;
        }
        String::new()
    }
}


/// One step that takes the stored data from one version to the next.
///
/// What a step does to the store is a function of the store as it was: the
/// spec functions say which, and the methods are held to them. A step
/// leaves the version and the history alone; the engine keeps them.
///
/// The engine's contracts speak of a step through these spec functions. For
/// a step that was not verified they hold as far as the step keeps to this
/// contract.
pub trait Migration: Send + Sync {
    /// The version that the step leads to. Every step says which it is.
    open spec fn version_spec(&self) -> u64 {
        arbitrary()
    }

    /// What the step does, in words. Every step says which they are.
    open spec fn description_spec(&self) -> Seq<char> {
        arbitrary()
    }

    /// The store after `migrate_up`, whether it failed or not.
    open spec fn up_result(&self, before: CanisterStateView) -> CanisterStateView {
        arbitrary()
    }

    /// The error of `migrate_up`, where it fails.
    open spec fn up_fault(&self, before: CanisterStateView) -> Option<Seq<char>> {
        arbitrary()
    }

    /// The store after `migrate_down`, whether it failed or not.
    open spec fn down_result(&self, before: CanisterStateView) -> CanisterStateView {
        arbitrary()
    }

    /// The error of `migrate_down`, where it fails.
    open spec fn down_fault(&self, before: CanisterStateView) -> Option<Seq<char>> {
        arbitrary()
    }

    /// What `validate` finds wrong with a store, if anything.
    open spec fn validation_fault(&self, state: CanisterStateView) -> Option<Seq<char>> {
        arbitrary()
    }

    /// The version that the step leads to.
    fn version(&self) -> (v: u64)
        ensures
            v == self.version_spec(),
    ;

    /// What the step does, for the history.
    fn description(&self) -> (d: &str)
        ensures
            d@ == self.description_spec(),
    ;

    /// Changes the store to the step's version.
    fn migrate_up(&self, state: &mut CanisterState) -> (r: Result<(), String>)
        ensures
            final(state)@ == self.up_result(old(state)@),
            final(state)@.schema_metadata == old(state)@.schema_metadata,
            match r {
                Ok(_) => self.up_fault(old(state)@) is None,
                Err(e) => self.up_fault(old(state)@) == Some(e@),
            },
    ;

    /// Undoes the step, as far as it can.
    fn migrate_down(&self, state: &mut CanisterState) -> (r: Result<(), String>)
        ensures
            final(state)@ == self.down_result(old(state)@),
            final(state)@.schema_metadata == old(state)@.schema_metadata,
            match r {
                Ok(_) => self.down_fault(old(state)@) is None,
                Err(e) => self.down_fault(old(state)@) == Some(e@),
            },
    ;

    /// Checks that the store is as the step leaves it.
    fn validate(&self, state: &CanisterState) -> (r: Result<(), String>)
        ensures
            match r {
                Ok(_) => self.validation_fault(state@) is None,
                Err(e) => self.validation_fault(state@) == Some(e@),
            },
    ;
}

/// Why a run of the engine stopped.
#[derive(Debug)]
pub enum MigrationError {
    /// `migrate_up` of the step with this version failed. What the step
    /// had changed by then stays changed.
    MigrateUp { version: u64, reason: String },
    /// `migrate_up` of the step with this version went through, and
    /// `validate` then refused the store. The step's changes stay.
    Validation { version: u64, reason: String },
    /// `migrate_down` of the step with this version failed.
    MigrateDown { version: u64, reason: String },
    /// The version to roll back to is not below the current one.
    TargetNotLower,
}

/// What a `MigrationError` holds, as mathematical values.
pub enum MigrationErrorView {
    MigrateUp { version: u64, reason: Seq<char> },
    Validation { version: u64, reason: Seq<char> },
    MigrateDown { version: u64, reason: Seq<char> },
    TargetNotLower,
}

impl View for MigrationError {
    type V = MigrationErrorView;

    open spec fn view(&self) -> MigrationErrorView {
        match self {
            MigrationError::MigrateUp { version, reason } => MigrationErrorView::MigrateUp {
                version: *version,
                reason: reason@,
            },
            MigrationError::Validation { version, reason } => MigrationErrorView::Validation {
                version: *version,
                reason: reason@,
            },
            MigrationError::MigrateDown { version, reason } => MigrationErrorView::MigrateDown {
                version: *version,
                reason: reason@,
            },
            MigrationError::TargetNotLower => MigrationErrorView::TargetNotLower,
        }
    }
}

impl MigrationErrorView {
    /// The text of the error: the step's own words, or that the target is
    /// not lower.
    pub open spec fn message(self) -> Seq<char> {
        match self {
            MigrationErrorView::MigrateUp { version, reason } => reason,
            MigrationErrorView::Validation { version, reason } => reason,
            MigrationErrorView::MigrateDown { version, reason } => reason,
            MigrationErrorView::TargetNotLower =>
                "Target version must be lower than current version"@,
        }
    }
}

impl MigrationError {
    /// The text of the error.
    pub fn message(&self) -> (r: String)
        ensures
            r@ == self@.message(),
    {
        match self {
            MigrationError::MigrateUp { version, reason } => reason.clone(),
            MigrationError::Validation { version, reason } => reason.clone(),
            MigrationError::MigrateDown { version, reason } => reason.clone(),
            MigrationError::TargetNotLower => text_of(
                "Target version must be lower than current version",
            ),
        }
    }
}

/// A history without the records of one version.
pub open spec fn without_version(history: Seq<SchemaVersionView>, version: u64) -> Seq<
    SchemaVersionView,
>
    decreases history.len(),
{
    if history.len() == 0 {
        Seq::empty()
    } else if history.last().version == version {
        without_version(history.drop_last(), version)
    } else {
        without_version(history.drop_last(), version).push(history.last())
    }
}

impl CanisterStateView {
    /// The store after a step was applied: at the step's version, with the
    /// step's record at the end of the history.
    pub open spec fn recorded(self, version: u64, applied_at: u64, description: Seq<char>) -> Self {
        CanisterStateView {
            schema_metadata: SchemaMetadataView {
                current_version: version,
                applied_migrations: self.schema_metadata.applied_migrations.push(
                    SchemaVersionView { version, applied_at, description },
                ),
                ..self.schema_metadata
            },
            ..self
        }
    }

    /// The store with a step's records taken out of the history.
    pub open spec fn forgotten(self, version: u64) -> Self {
        CanisterStateView {
            schema_metadata: SchemaMetadataView {
                applied_migrations: without_version(
                    self.schema_metadata.applied_migrations,
                    version,
                ),
                ..self.schema_metadata
            },
            ..self
        }
    }

    /// The store with the version and history of another.
    pub open spec fn with_metadata_of(self, other: CanisterStateView) -> Self {
        CanisterStateView { schema_metadata: other.schema_metadata, ..self }
    }

    /// The store at another version.
    pub open spec fn at_version(self, version: u64) -> Self {
        CanisterStateView {
            schema_metadata: SchemaMetadataView { current_version: version, ..self.schema_metadata },
            ..self
        }
    }
}

/// How a run of pending steps ended: the store as the run left it, and
/// the number of steps applied or the error that stopped the run.
pub struct ApplyOutcome {
    pub state: CanisterStateView,
    pub result: Result<nat, MigrationErrorView>,
}

impl ApplyOutcome {
    /// The outcome with `count` more steps applied.
    pub open spec fn after(self, count: nat) -> ApplyOutcome {
        ApplyOutcome {
            state: self.state,
            result: match self.result {
                Ok(n) => Ok(n + count),
                Err(e) => Err(e),
            },
        }
    }
}

/// How a rollback ended: the store as it left it, and the error that
/// stopped it, if any.
pub struct RollbackOutcome {
    pub state: CanisterStateView,
    pub fault: Option<MigrationErrorView>,
}

/// A step as an engine holds it: one of the steps that this library
/// brings, or a step of the caller's own.
pub enum MigrationStep {
    PaymentIdV2(AddPaymentIdV2Migration),
    DefaultControllers(AddDefaultControllersMigration),
    Other(Box<dyn Migration>),
}

impl Migration for MigrationStep {
    open spec fn version_spec(&self) -> u64 {
        match self {
            MigrationStep::PaymentIdV2(step) => step.version_spec(),
            MigrationStep::DefaultControllers(step) => step.version_spec(),
            MigrationStep::Other(step) => step.version_spec(),
        }
    }

    open spec fn description_spec(&self) -> Seq<char> {
        match self {
            MigrationStep::PaymentIdV2(step) => step.description_spec(),
            MigrationStep::DefaultControllers(step) => step.description_spec(),
            MigrationStep::Other(step) => step.description_spec(),
        }
    }

    open spec fn up_result(&self, before: CanisterStateView) -> CanisterStateView {
        match self {
            MigrationStep::PaymentIdV2(step) => step.up_result(before),
            MigrationStep::DefaultControllers(step) => step.up_result(before),
            MigrationStep::Other(step) => step.up_result(before),
        }
    }

    open spec fn up_fault(&self, before: CanisterStateView) -> Option<Seq<char>> {
        match self {
            MigrationStep::PaymentIdV2(step) => step.up_fault(before),
            MigrationStep::DefaultControllers(step) => step.up_fault(before),
            MigrationStep::Other(step) => step.up_fault(before),
        }
    }

    open spec fn down_result(&self, before: CanisterStateView) -> CanisterStateView {
        match self {
            MigrationStep::PaymentIdV2(step) => step.down_result(before),
            MigrationStep::DefaultControllers(step) => step.down_result(before),
            MigrationStep::Other(step) => step.down_result(before),
        }
    }

    open spec fn down_fault(&self, before: CanisterStateView) -> Option<Seq<char>> {
        match self {
            MigrationStep::PaymentIdV2(step) => step.down_fault(before),
            MigrationStep::DefaultControllers(step) => step.down_fault(before),
            MigrationStep::Other(step) => step.down_fault(before),
        }
    }

    open spec fn validation_fault(&self, state: CanisterStateView) -> Option<Seq<char>> {
        match self {
            MigrationStep::PaymentIdV2(step) => step.validation_fault(state),
            MigrationStep::DefaultControllers(step) => step.validation_fault(state),
            MigrationStep::Other(step) => step.validation_fault(state),
        }
    }

    fn version(&self) -> (v: u64) {
        match self {
            MigrationStep::PaymentIdV2(step) => step.version(),
            MigrationStep::DefaultControllers(step) => step.version(),
            MigrationStep::Other(step) => step.version(),
        }
    }

    fn description(&self) -> (d: &str) {
        match self {
            MigrationStep::PaymentIdV2(step) => step.description(),
            MigrationStep::DefaultControllers(step) => step.description(),
            MigrationStep::Other(step) => step.description(),
        }
    }

    fn migrate_up(&self, state: &mut CanisterState) -> (r: Result<(), String>) {
        match self {
            MigrationStep::PaymentIdV2(step) => step.migrate_up(state),
            MigrationStep::DefaultControllers(step) => step.migrate_up(state),
            MigrationStep::Other(step) => step.migrate_up(state),
        }
    }

    fn migrate_down(&self, state: &mut CanisterState) -> (r: Result<(), String>) {
        match self {
            MigrationStep::PaymentIdV2(step) => step.migrate_down(state),
            MigrationStep::DefaultControllers(step) => step.migrate_down(state),
            MigrationStep::Other(step) => step.migrate_down(state),
        }
    }

    fn validate(&self, state: &CanisterState) -> (r: Result<(), String>) {
        match self {
            MigrationStep::PaymentIdV2(step) => step.validate(state),
            MigrationStep::DefaultControllers(step) => step.validate(state),
            MigrationStep::Other(step) => step.validate(state),
        }
    }
}

/// The registered steps, in ascending order of their versions.
pub struct MigrationEngine {
    migrations: Vec<MigrationStep>,
}

impl MigrationEngine {
    /// The registered steps, in the order in which they are applied.
    pub closed spec fn steps(&self) -> Seq<MigrationStep> {
        self.migrations@
    }

    /// The versions of the steps do not descend.
    #[verifier::type_invariant]
    pub open spec fn wf(self) -> bool {
        forall|i: int, j: int|
            0 <= i < j < self.steps().len() ==> (#[trigger] self.steps()[i]).version_spec() <= (
            #[trigger] self.steps()[j]).version_spec()
    }

    /// A step is pending for a store at version `floor` where its version
    /// is above it.
    pub open spec fn pending_at(&self, i: int, floor: u64) -> bool {
        self.steps()[i].version_spec() > floor
    }

    /// What applying the pending steps from position `i` on makes of a
    /// store. `floor` is the version at which the run began: the steps
    /// above it are pending. Each is applied and validated in turn; the
    /// first failure ends the run and leaves the store as the failing step
    /// left it; each step that goes through is recorded.
    pub open spec fn apply_from(
        &self,
        i: int,
        floor: u64,
        state: CanisterStateView,
        applied_at: u64,
    ) -> ApplyOutcome
        decreases self.steps().len() - i,
    {
        if i < 0 || i >= self.steps().len() {
            ApplyOutcome { state, result: Ok(0) }
        } else if !self.pending_at(i, floor) {
            self.apply_from(i + 1, floor, state, applied_at)
        } else {
            let step = self.steps()[i];
            let version = step.version_spec();
            let migrated = step.up_result(state).with_metadata_of(state);
            match step.up_fault(state) {
                Some(reason) => ApplyOutcome {
                    state: migrated,
                    result: Err(MigrationErrorView::MigrateUp { version, reason }),
                },
                None => match step.validation_fault(migrated) {
                    Some(reason) => ApplyOutcome {
                        state: migrated,
                        result: Err(MigrationErrorView::Validation { version, reason }),
                    },
                    None => self.apply_from(
                        i + 1,
                        floor,
                        migrated.recorded(version, applied_at, step.description_spec()),
                        applied_at,
                    ).after(1),
                },
            }
        }
    }

    /// What rolling back the steps below position `i` makes of a store,
    /// from the last of them to the first. The steps with a version above
    /// `target` and not above `top` are undone and leave the history; the
    /// first failure ends the rollback. At the end the store is at version
    /// `target`.
    pub open spec fn rollback_from(
        &self,
        i: int,
        target: u64,
        top: u64,
        state: CanisterStateView,
    ) -> RollbackOutcome
        decreases i,
    {
        if i <= 0 || i > self.steps().len() {
            RollbackOutcome { state: state.at_version(target), fault: None }
        } else {
            let step = self.steps()[i - 1];
            let version = step.version_spec();
            if target < version && version <= top {
                let undone = step.down_result(state).with_metadata_of(state);
                match step.down_fault(state) {
                    Some(reason) => RollbackOutcome {
                        state: undone,
                        fault: Some(MigrationErrorView::MigrateDown { version, reason }),
                    },
                    None => self.rollback_from(i - 1, target, top, undone.forgotten(version)),
                }
            } else {
                self.rollback_from(i - 1, target, top, state)
            }
        }
    }

    /// The first position from `i` on whose step has a version above
    /// `version`; the number of steps where there is none.
    pub open spec fn first_above(&self, i: int, version: u64) -> int
        decreases self.steps().len() - i,
    {
        if i < 0 || i >= self.steps().len() || self.steps()[i].version_spec() > version {
            i
        } else {
            self.first_above(i + 1, version)
        }
    }

    /// The number of registered steps.
    pub fn len(&self) -> (n: usize)
        ensures
            n == self.steps().len(),
    {
        self.migrations.len()
    }

    /// An engine with the step that fills the payment references.
    pub fn new() -> (r: Self)
        ensures
            r.steps() == seq![MigrationStep::PaymentIdV2(AddPaymentIdV2Migration)],
    {
        let mut migrations: Vec<MigrationStep> = Vec::new();
        migrations.push(MigrationStep::PaymentIdV2(AddPaymentIdV2Migration));
        MigrationEngine { migrations }
    }

    /// An engine with every step that this library brings: the one that
    /// fills the payment references, then the one that gives a store its
    /// default writers.
    pub fn with_all_steps() -> (r: Self)
        ensures
            r.steps() == seq![
                MigrationStep::PaymentIdV2(AddPaymentIdV2Migration),
                MigrationStep::DefaultControllers(AddDefaultControllersMigration),
            ],
    {
        let mut migrations: Vec<MigrationStep> = Vec::new();
        migrations.push(MigrationStep::PaymentIdV2(AddPaymentIdV2Migration));
        migrations.push(MigrationStep::DefaultControllers(AddDefaultControllersMigration));
        MigrationEngine { migrations }
    }

    /// An engine without steps.
    pub fn empty() -> (r: Self)
        ensures
            r.steps() == Seq::<MigrationStep>::empty(),
    {
        MigrationEngine { migrations: Vec::new() }
    }

    /// Registers a step: it is put behind the steps whose versions are not
    /// above its own.
    pub fn add_migration(&mut self, migration: MigrationStep)
        ensures
            final(self).steps() == old(self).steps().insert(
                old(self).first_above(0, migration.version_spec()),
                migration,
            ),
            0 <= old(self).first_above(0, migration.version_spec()) <= old(self).steps().len(),
    {
        proof {
            use_type_invariant(&*self);
        }
        let entry = migration;
        let version = entry.version();
        let mut migrations: Vec<MigrationStep> = Vec::new();
        core::mem::swap(&mut migrations, &mut self.migrations);
        let ghost before = migrations@;
        let n = migrations.len();
        let mut at: usize = 0;
        while at < n && migrations[at].version() <= version
            invariant
                at <= n,
                n == migrations.len(),
                migrations@ == before,
                before == old(self).steps(),
                old(self).first_above(0, version) == old(self).first_above(at as int, version),
                version == entry.version_spec(),
                forall|i: int| 0 <= i < at ==> (#[trigger] before[i]).version_spec() <= version,
            decreases n - at,
        {
            at += 1;
        }
        proof {
            assert(before == old(self).steps());
            assert(old(self).wf());
            if at < n {
                assert(before[at as int].version_spec() > version);
            }
            assert(old(self).first_above(at as int, version) == at);
        }
        migrations.insert(at, entry);
        proof {
            let after = migrations@;
            assert(after == before.insert(at as int, entry));
            before.insert_ensures(at as int, entry);
            assert forall|i: int, j: int| 0 <= i < j < after.len() implies (
            #[trigger] after[i]).version_spec() <= (#[trigger] after[j]).version_spec() by {
                let i0 = if i < at { i } else { i - 1 };
                let j0 = if j < at { j } else { j - 1 };
                if i == at {
                    assert(after[j] == before[j0]);
                    assert(after[i] == entry);
                    if j0 > at {
                        assert(before[at as int].version_spec() <= before[j0].version_spec());
                    }
                } else if j == at {
                    assert(after[i] == before[i0]);
                    assert(before[i0].version_spec() <= version);
                } else {
                    assert(after[i] == before[i0]);
                    assert(after[j] == before[j0]);
                    assert(before[i0].version_spec() <= before[j0].version_spec());
                }
            }
        }
        self.migrations = migrations;
    }
}


/// Takes the records of one version out of a history.
fn forget_version(history: &mut Vec<SchemaVersion>, version: u64)
    ensures
        final(history).deep_view() == without_version(old(history).deep_view(), version),
{
    let mut kept: Vec<SchemaVersion> = Vec::new();
    let n = history.len();
    let ghost before = history.deep_view();
    let mut i: usize = 0;
    proof {
        assert(before.take(0) =~= Seq::empty());
        assert(kept.deep_view() =~= Seq::empty());
    }
    while i < n
        invariant
            i <= n,
            n == history.len(),
            before == history.deep_view(),
            kept.deep_view() == without_version(before.take(i as int), version),
        decreases n - i,
    {
        let ghost kept_before = kept.deep_view();
        proof {
            assert(before.take(i + 1).drop_last() =~= before.take(i as int));
            assert(before.take(i + 1).last() == history[i as int]@);
        }
        if history[i].version != version {
            kept.push(history[i].clone());
            proof {
                assert(kept.deep_view() =~= kept_before.push(history[i as int]@));
            }
        }
        i += 1;
    }
    proof {
        assert(before.take(n as int) =~= before);
    }
    *history = kept;
}

impl MigrationEngine {
    /// The steps from position `i` on that are pending for a store at
    /// version `floor`.
    pub open spec fn pending_from(&self, i: int, floor: u64) -> Seq<MigrationStep>
        decreases self.steps().len() - i,
    {
        if i < 0 || i >= self.steps().len() {
            Seq::empty()
        } else if self.pending_at(i, floor) {
            seq![self.steps()[i]] + self.pending_from(i + 1, floor)
        } else {
            self.pending_from(i + 1, floor)
        }
    }

    /// Applies the pending steps in ascending order of their versions:
    /// each is run and validated, then recorded with the time `applied_at`,
    /// and the store moves to its version. The first failure ends the run:
    /// what was applied before stays applied, and so does what the failing
    /// step had changed. Returns the number of steps applied.
    pub fn apply_migrations(&self, state: &mut CanisterState, applied_at: u64) -> (r: Result<
        usize,
        MigrationError,
    >)
        ensures
            final(state)@ == self.apply_from(
                0,
                old(state)@.schema_metadata.current_version,
                old(state)@,
                applied_at,
            ).state,
            match r {
                Ok(n) => self.apply_from(
                    0,
                    old(state)@.schema_metadata.current_version,
                    old(state)@,
                    applied_at,
                ).result == Ok::<nat, MigrationErrorView>(n as nat),
                Err(e) => self.apply_from(
                    0,
                    old(state)@.schema_metadata.current_version,
                    old(state)@,
                    applied_at,
                ).result == Err::<nat, MigrationErrorView>(e@),
            },
            final(state)@.schema_metadata.current_version >= old(state)@.schema_metadata.current_version,
    {
        proof {
            use_type_invariant(self);
            lemma_apply_never_lowers_version(*self, old(state)@, applied_at);
        }
        let floor = state.schema_metadata.current_version;
        let ghost start = state@;
        let n = self.migrations.len();
        let mut applied: usize = 0;
        let mut i: usize = 0;
        proof {
            let whole = self.apply_from(0, floor, start, applied_at);
            assert(whole.after(0).result == whole.result);
            assert(whole.after(0) == whole);
        }
        while i < n
            invariant
                i <= n,
                n == self.steps().len(),
                applied <= i,
                start == old(state)@,
                floor == start.schema_metadata.current_version,
                self.apply_from(0, floor, start, applied_at).state.schema_metadata.current_version
                    >= floor,
                self.apply_from(0, floor, start, applied_at) == self.apply_from(
                    i as int,
                    floor,
                    state@,
                    applied_at,
                ).after(applied as nat),
            decreases n - i,
        {
            let entry = &self.migrations[i];
            let version = entry.version();
            if version > floor {
                let ghost before = state@;
                match entry.migrate_up(state) {
                    Ok(_) => {},
                    Err(reason) => {
                        proof {
                            assert(state@ == entry.up_result(before).with_metadata_of(before));
                        }
                        return Err(MigrationError::MigrateUp { version, reason });
                    },
                }
                match entry.validate(state) {
                    Ok(_) => {},
                    Err(reason) => {
                        proof {
                            assert(state@ == entry.up_result(before).with_metadata_of(before));
                        }
                        return Err(MigrationError::Validation { version, reason });
                    },
                }
                let ghost migrated = state@;
                let record = SchemaVersion {
                    version,
                    applied_at,
                    description: text_of(entry.description()),
                };
                let ghost history = state.schema_metadata.applied_migrations.deep_view();
                state.schema_metadata.applied_migrations.push(record);
                state.schema_metadata.current_version = version;
                proof {
                    assert(migrated == entry.up_result(before).with_metadata_of(before));
                    assert(state.schema_metadata.applied_migrations.deep_view() =~= history.push(
                        record@,
                    ));
                    assert(state@ == migrated.recorded(
                        version,
                        applied_at,
                        entry.description_spec(),
                    ));
                    let rest = self.apply_from(i + 1, floor, state@, applied_at);
                    assert(rest.after(1).after(applied as nat) == rest.after((applied + 1) as nat));
                }
                applied += 1;
            }
            i += 1;
        }
        Ok(applied)
    }

    /// Takes the store back to the version `target`, which must be below
    /// the current one: the steps with a version above `target` and not
    /// above the current one are undone, the last first, and leave the
    /// history. The first failure ends the rollback, with what was undone
    /// before left undone. The store moves to `target` when all went
    /// through.
    pub fn rollback_to_version(&self, state: &mut CanisterState, target_version: u64) -> (r:
        Result<(), MigrationError>)
        ensures
            target_version >= old(state)@.schema_metadata.current_version ==> final(state)@ == old(state)@ && (r matches Err(e) && e@ == MigrationErrorView::TargetNotLower),
            target_version < old(state)@.schema_metadata.current_version ==> final(state)@
                == self.rollback_from(
                self.steps().len() as int,
                target_version,
                old(state)@.schema_metadata.current_version,
                old(state)@,
            ).state && match r {
                Ok(_) => self.rollback_from(
                    self.steps().len() as int,
                    target_version,
                    old(state)@.schema_metadata.current_version,
                    old(state)@,
                ).fault is None,
                Err(e) => self.rollback_from(
                    self.steps().len() as int,
                    target_version,
                    old(state)@.schema_metadata.current_version,
                    old(state)@,
                ).fault == Some(e@),
            },
    {
        let top = state.schema_metadata.current_version;
        if target_version >= top {
            return Err(MigrationError::TargetNotLower);
        }
        let ghost start = state@;
        let n = self.migrations.len();
        let mut i: usize = n;
        while i > 0
            invariant
                i <= n,
                n == self.steps().len(),
                start == old(state)@,
                top == start.schema_metadata.current_version,
                target_version < top,
                self.rollback_from(n as int, target_version, top, start) == self.rollback_from(
                    i as int,
                    target_version,
                    top,
                    state@,
                ),
            decreases i,
        {
            let entry = &self.migrations[i - 1];
            let version = entry.version();
            if version > target_version && version <= top {
                let ghost before = state@;
                match entry.migrate_down(state) {
                    Ok(_) => {},
                    Err(reason) => {
                        proof {
                            assert(state@ == entry.down_result(before).with_metadata_of(
                                before,
                            ));
                        }
                        return Err(MigrationError::MigrateDown { version, reason });
                    },
                }
                let ghost undone = state@;
                forget_version(&mut state.schema_metadata.applied_migrations, version);
                proof {
                    assert(undone == entry.down_result(before).with_metadata_of(before));
                    assert(state@ == undone.forgotten(version));
                }
            }
            i -= 1;
        }
        state.schema_metadata.current_version = target_version;
        Ok(())
    }

    /// The steps that are pending for a store, in the order in which they
    /// would be applied.
    pub fn get_pending_migrations(&self, state: &CanisterState) -> (r: Vec<&MigrationStep>)
        ensures
            r@.len() == self.pending_from(0, state@.schema_metadata.current_version).len(),
            forall|k: int|
                0 <= k < r@.len() ==> *(#[trigger] r@[k]) == self.pending_from(
                    0,
                    state@.schema_metadata.current_version,
                )[k],
    {
        let floor = state.schema_metadata.current_version;
        let n = self.migrations.len();
        let mut pending: Vec<&MigrationStep> = Vec::new();
        let mut i: usize = 0;
        while i < n
            invariant
                i <= n,
                n == self.steps().len(),
                self.pending_from(0, floor).len() == pending@.len() + self.pending_from(
                    i as int,
                    floor,
                ).len(),
                forall|k: int|
                    0 <= k < pending@.len() ==> *(#[trigger] pending@[k]) == self.pending_from(
                        0,
                        floor,
                    )[k],
                forall|k: int|
                    0 <= k < self.pending_from(i as int, floor).len() ==> self.pending_from(
                        0,
                        floor,
                    )[pending@.len() + k] == #[trigger] self.pending_from(i as int, floor)[k],
            decreases n - i,
        {
            let entry = &self.migrations[i];
            proof {
                let rest = self.pending_from(i + 1, floor);
                let here = self.pending_from(i as int, floor);
                if self.pending_at(i as int, floor) {
                    assert(here == seq![self.steps()[i as int]] + rest);
                    assert(here[0] == self.steps()[i as int]);
                    assert forall|k: int| 0 <= k < rest.len() implies self.pending_from(
                        0,
                        floor,
                    )[pending@.len() + 1 + k] == #[trigger] rest[k] by {
                        assert(here[k + 1] == rest[k]);
                    }
                }
            }
            if entry.version() > floor {
                pending.push(entry);
            }
            i += 1;
        }
        pending
    }

    /// The records of the steps that were applied to a store.
    pub fn get_applied_migrations(&self, state: &CanisterState) -> (r: Vec<SchemaVersion>)
        ensures
            r.deep_view() == state@.schema_metadata.applied_migrations,
    {
        let r = state.schema_metadata.applied_migrations.clone();
        proof {
            assert(r.deep_view() =~= state.schema_metadata.applied_migrations.deep_view());
        }
        r
    }
}

impl Default for MigrationEngine {
    fn default() -> (r: Self)
        ensures
            r.steps() == seq![MigrationStep::PaymentIdV2(AddPaymentIdV2Migration)],
    {
        MigrationEngine::new()
    }
}

/// The steps that are still to come do not lead below the store's version.
pub open spec fn versions_ahead(
    engine: MigrationEngine,
    i: int,
    floor: u64,
    state: CanisterStateView,
) -> bool {
    forall|j: int|
        i <= j < engine.steps().len() && #[trigger] engine.pending_at(j, floor)
            ==> engine.steps()[j].version_spec() >= state.schema_metadata.current_version
}

proof fn lemma_apply_from_never_lowers_version(
    engine: MigrationEngine,
    i: int,
    floor: u64,
    state: CanisterStateView,
    applied_at: u64,
)
    requires
        engine.wf(),
        0 <= i,
        versions_ahead(engine, i, floor, state),
    ensures
        engine.apply_from(i, floor, state, applied_at).state.schema_metadata.current_version
            >= state.schema_metadata.current_version,
    decreases engine.steps().len() - i,
{
    if i < engine.steps().len() {
        if !engine.pending_at(i, floor) {
            lemma_apply_from_never_lowers_version(engine, i + 1, floor, state, applied_at);
        } else {
            let step = engine.steps()[i];
            let version = step.version_spec();
            let migrated = step.up_result(state).with_metadata_of(state);
            if step.up_fault(state) is None && step.validation_fault(migrated) is None {
                let next = migrated.recorded(version, applied_at, step.description_spec());
                assert forall|j: int|
                    i + 1 <= j < engine.steps().len() && #[trigger] engine.pending_at(
                        j,
                        floor,
                    ) implies engine.steps()[j].version_spec()
                    >= next.schema_metadata.current_version by {
                    assert(engine.steps()[i].version_spec()
                        <= engine.steps()[j].version_spec());
                }
                lemma_apply_from_never_lowers_version(engine, i + 1, floor, next, applied_at);
            }
        }
    }
}

/// A run of the engine never takes a store to a lower version, whether
/// it goes through or fails.
pub proof fn lemma_apply_never_lowers_version(
    engine: MigrationEngine,
    state: CanisterStateView,
    applied_at: u64,
)
    requires
        engine.wf(),
    ensures
        engine.apply_from(
            0,
            state.schema_metadata.current_version,
            state,
            applied_at,
        ).state.schema_metadata.current_version >= state.schema_metadata.current_version,
{
    lemma_apply_from_never_lowers_version(
        engine,
        0,
        state.schema_metadata.current_version,
        state,
        applied_at,
    );
}

proof fn lemma_apply_from_reaches_top(
    engine: MigrationEngine,
    i: int,
    floor: u64,
    state: CanisterStateView,
    applied_at: u64,
)
    requires
        engine.wf(),
        0 <= i,
        state.schema_metadata.current_version >= floor,
        forall|j: int|
            0 <= j < i && j < engine.steps().len() ==> (
            #[trigger] engine.steps()[j]).version_spec()
                <= state.schema_metadata.current_version,
        engine.apply_from(i, floor, state, applied_at).result is Ok,
    ensures
        forall|j: int|
            0 <= j < engine.steps().len() ==> (#[trigger] engine.steps()[j]).version_spec()
                <= engine.apply_from(
                i,
                floor,
                state,
                applied_at,
            ).state.schema_metadata.current_version,
    decreases engine.steps().len() - i,
{
    if i < engine.steps().len() {
        if !engine.pending_at(i, floor) {
            lemma_apply_from_reaches_top(engine, i + 1, floor, state, applied_at);
        } else {
            let step = engine.steps()[i];
            let version = step.version_spec();
            let migrated = step.up_result(state).with_metadata_of(state);
            let next = migrated.recorded(version, applied_at, step.description_spec());
            assert forall|j: int| 0 <= j < i + 1 && j < engine.steps().len() implies (
            #[trigger] engine.steps()[j]).version_spec()
                <= next.schema_metadata.current_version by {
                if j < i {
                    assert(engine.steps()[j].version_spec()
                        <= engine.steps()[i].version_spec());
                }
            }
            lemma_apply_from_reaches_top(engine, i + 1, floor, next, applied_at);
        }
    }
}

/// Where no step leads above the version `floor`, a run from that version
/// applies nothing and leaves the store as it is.
pub proof fn lemma_nothing_pending(
    engine: MigrationEngine,
    i: int,
    floor: u64,
    state: CanisterStateView,
    applied_at: u64,
)
    requires
        0 <= i,
        forall|j: int|
            0 <= j < engine.steps().len() ==> (#[trigger] engine.steps()[j]).version_spec()
                <= floor,
    ensures
        engine.apply_from(i, floor, state, applied_at) == (ApplyOutcome { state, result: Ok(0) }),
    decreases engine.steps().len() - i,
{
    if i < engine.steps().len() {
        assert(engine.steps()[i].version_spec() <= floor);
        lemma_nothing_pending(engine, i + 1, floor, state, applied_at);
    }
}

/// After a run of the engine that went through, a second run with the same
/// steps applies nothing and leaves the store, its version and its history
/// as they are.
pub proof fn lemma_second_run_changes_nothing(
    engine: MigrationEngine,
    state: CanisterStateView,
    first_at: u64,
    second_at: u64,
)
    requires
        engine.wf(),
        engine.apply_from(0, state.schema_metadata.current_version, state, first_at).result is Ok,
    ensures
        ({
            let first = engine.apply_from(
                0,
                state.schema_metadata.current_version,
                state,
                first_at,
            ).state;
            engine.apply_from(0, first.schema_metadata.current_version, first, second_at) == (
            ApplyOutcome { state: first, result: Ok(0) })
        }),
{
    let floor = state.schema_metadata.current_version;
    let first = engine.apply_from(0, floor, state, first_at).state;
    lemma_apply_from_reaches_top(engine, 0, floor, state, first_at);
    lemma_nothing_pending(engine, 0, first.schema_metadata.current_version, first, second_at);
}

/// The text that reports how many steps a run applied.
pub open spec fn applied_report(count: nat) -> Seq<char> {
    "Successfully applied "@ + decimal_digits(count) + " migration(s)"@
}

/// Runs the pending steps of an engine on a store and reports the
/// outcome in words: that nothing was pending, how many steps were
/// applied, or why the run failed.
pub fn run_migrations(
    engine: &MigrationEngine,
    state: &mut CanisterState,
    applied_at: u64,
) -> (r: Result<String, String>)
    ensures
        final(state)@ == engine.apply_from(
            0,
            old(state)@.schema_metadata.current_version,
            old(state)@,
            applied_at,
        ).state,
        match engine.apply_from(
            0,
            old(state)@.schema_metadata.current_version,
            old(state)@,
            applied_at,
        ).result {
            Ok(count) => r matches Ok(report) && report@ == (if count == 0 {
                "No pending migrations to run"@
            } else {
                applied_report(count)
            }),
            Err(error) => r matches Err(report) && report@ == "Migration failed: "@
                + error.message(),
        },
{
    match engine.apply_migrations(state, applied_at) {
        Ok(count) => {
            if count == 0 {
                Ok(text_of("No pending migrations to run"))
            } else {
                Ok(
                    join3(
                        "Successfully applied ",
                        decimal_text(count as u64).as_str(),
                        " migration(s)",
                    ),
                )
            }
        },
        Err(error) => Err(join2("Migration failed: ", error.message().as_str())),
    }
}

} // verus!
