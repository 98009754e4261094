//! The steps that bring the database schema from one version to the next,
//! and the plan of what a start-up has to run.

use crate::error::MigrationError;
use crate::statements::{split_statements, statements, texts};
use vstd::prelude::*;

verus! {

/// Migrations from one version of data to another.
///
/// The variants stand in the order of their versions: `V1` leads to version
/// 1, and so on.
#[derive(Copy, Clone, Ord, PartialOrd, Eq, PartialEq, Debug, Structural)]
pub enum Migrations {
    V1,
    V2,
    V3,
}

/// The highest version that a migration leads to.
pub const LATEST_VERSION: u32 = 3;

/// One thing to do within the transaction of a migration run.
#[derive(Debug, Clone, PartialEq, Eq)]
pub enum MigrationOp {
    /// Run this statement.
    Execute(String),
    /// Record that the schema has reached this version.
    SetVersion(u32),
}

/// A `MigrationOp` as plain values.
pub enum OpView {
    Execute(Seq<char>),
    SetVersion(u32),
}

impl View for MigrationOp {
    type V = OpView;

    open spec fn view(&self) -> OpView {
        match self {
            MigrationOp::Execute(statement) => OpView::Execute(statement@),
            MigrationOp::SetVersion(version) => OpView::SetVersion(*version),
        }
    }
}

/// What a list of operations holds.
pub open spec fn op_views(ops: Seq<MigrationOp>) -> Seq<OpView> {
    Seq::new(ops.len(), |i: int| ops[i]@)
}

/// The statements of a list of operations, in their order.
pub open spec fn executed(ops: Seq<OpView>) -> Seq<Seq<char>>
    decreases ops.len(),
{
    if ops.len() == 0 {
        Seq::empty()
    } else {
        match ops.last() {
            OpView::Execute(statement) => executed(ops.drop_last()).push(statement),
            OpView::SetVersion(_) => executed(ops.drop_last()),
        }
    }
}

/// The version that a schema at `version` has once the operations were
/// carried out: the one recorded last.
pub open spec fn version_reached(version: u32, ops: Seq<OpView>) -> u32
    decreases ops.len(),
{
    if ops.len() == 0 {
        version
    } else {
        match ops.last() {
            OpView::SetVersion(reached) => reached,
            OpView::Execute(_) => version_reached(version, ops.drop_last()),
        }
    }
}

/// The operations of one migration: its statements in their order, then
/// the record of its version.
pub open spec fn step_ops(step: Migrations) -> Seq<OpView> {
    Seq::new(step.statement_list().len(), |i: int| OpView::Execute(step.statement_list()[i])).push(
        OpView::SetVersion(step.number()),
    )
}

/// The operations of `step` where a schema at `version` has yet to take
/// it, none where it has not.
pub open spec fn ops_if_due(version: u32, step: Migrations) -> Seq<OpView> {
    if step.number() > version {
        step_ops(step)
    } else {
        Seq::empty()
    }
}

/// All that a schema at `version` has yet to go through: every migration
/// to a higher version, in rising order of the versions.
pub open spec fn plan_for(version: u32) -> Seq<OpView> {
    ops_if_due(version, Migrations::V1) + ops_if_due(version, Migrations::V2) + ops_if_due(
        version,
        Migrations::V3,
    )
}

/// The version of the schema after a run that started at `version` went
/// through.
pub open spec fn version_after(version: u32) -> u32 {
    if version < LATEST_VERSION {
        LATEST_VERSION
    } else {
        version
    }
}

impl Migrations {
    /// The version that this migration leads to.
    pub open spec fn number(self) -> u32 {
        match self {
            Migrations::V1 => 1,
            Migrations::V2 => 2,
            Migrations::V3 => 3,
        }
    }

    /// The script of this migration.
    pub open spec fn script_text(self) -> Seq<char> {
        match self {
            Migrations::V1 => "
CREATE TABLE IF NOT EXISTS `birbs`
(
    `id` INT NOT NULL AUTO_INCREMENT,
    `hash` BINARY(32) NOT NULL,
    `permalink` VARCHAR(512) NOT NULL,
    `source_url` VARCHAR(512) NOT NULL,
    `content_type` VARCHAR(128) NOT NULL,
    `banned` BOOLEAN NOT NULL DEFAULT false,

    PRIMARY KEY (`id`),
    UNIQUE KEY `birbs_hash` (`hash`)
);
"@,
            Migrations::V2 => "
ALTER TABLE `birbs` ADD COLUMN `state` TINYINT UNSIGNED NOT NULL DEFAULT 0;
UPDATE `birbs` SET `state` = 2 WHERE `banned` = true;
ALTER TABLE `birbs` DROP COLUMN `banned`;
"@,
            Migrations::V3 => "
ALTER TABLE `birbs` MODIFY `id` INT UNSIGNED NOT NULL AUTO_INCREMENT;
"@,
        }
    }

    /// The statements of this migration.
    pub open spec fn statement_list(self) -> Seq<Seq<char>> {
        statements(self.script_text())
    }

    /// The version that this migration leads to.
    pub fn version(self) -> (version: u32)
        ensures
            version == self.number(),
            1 <= version <= LATEST_VERSION,
    {
        match self {
            Migrations::V1 => 1,
            Migrations::V2 => 2,
            Migrations::V3 => 3,
        }
    }

    /// The script of this migration: statements, each ended by `;`.
    pub fn script(self) -> (script: &'static str)
        ensures
            script@ == self.script_text(),
    {
        match self {
            Migrations::V1 => "
CREATE TABLE IF NOT EXISTS `birbs`
(
    `id` INT NOT NULL AUTO_INCREMENT,
    `hash` BINARY(32) NOT NULL,
    `permalink` VARCHAR(512) NOT NULL,
    `source_url` VARCHAR(512) NOT NULL,
    `content_type` VARCHAR(128) NOT NULL,
    `banned` BOOLEAN NOT NULL DEFAULT false,

    PRIMARY KEY (`id`),
    UNIQUE KEY `birbs_hash` (`hash`)
);
",
            Migrations::V2 => "
ALTER TABLE `birbs` ADD COLUMN `state` TINYINT UNSIGNED NOT NULL DEFAULT 0;
UPDATE `birbs` SET `state` = 2 WHERE `banned` = true;
ALTER TABLE `birbs` DROP COLUMN `banned`;
",
            Migrations::V3 => "
ALTER TABLE `birbs` MODIFY `id` INT UNSIGNED NOT NULL AUTO_INCREMENT;
",
        }
    }

    /// Get all queries with this migration: the statements of its script,
    /// in their order, each without the blanks around it.
    pub fn queries(self) -> (list: Vec<String>)
        ensures
            texts(list@) == self.statement_list(),
    {
        split_statements(self.script())
    }

    /// Every migration, in rising order of the versions.
    pub fn all() -> (steps: Vec<Migrations>)
        ensures
            steps@ == seq![Migrations::V1, Migrations::V2, Migrations::V3],
    {
        let mut steps: Vec<Migrations> = Vec::new();
        steps.push(Migrations::V1);
        steps.push(Migrations::V2);
        steps.push(Migrations::V3);
        assert(steps@ =~= seq![Migrations::V1, Migrations::V2, Migrations::V3]);
        steps
    }
}

/// The version that a run starts from: the one stored, or 0 where none is
/// stored yet.
pub fn starting_version(stored: Option<u32>) -> (version: u32)
    ensures
        stored matches Some(found) ==> version == found,
        stored is None ==> version == 0,
{
    match stored {
        Some(found) => found,
        None => 0,
    }
}

/// Adds the operations of `step` to `ops` where a schema at `version` has
/// yet to take it.
fn plan_step(ops: &mut Vec<MigrationOp>, version: u32, step: Migrations)
    ensures
        op_views(final(ops)@) == op_views(old(ops)@) + ops_if_due(version, step),
{
    let ghost before = op_views(ops@);
    if step.version() > version {
        let list = step.queries();
        let mut i: usize = 0;
        while i < list.len()
            invariant
                i <= list@.len(),
                texts(list@) == step.statement_list(),
                op_views(ops@) == before + Seq::new(
                    i as nat,
                    |k: int| OpView::Execute(step.statement_list()[k]),
                ),
            decreases list@.len() - i,
        {
            let ghost so_far = op_views(ops@);
            ops.push(MigrationOp::Execute(list[i].clone()));
            proof {
                assert(texts(list@)[i as int] == list@[i as int]@);
                assert(op_views(ops@) =~= so_far.push(OpView::Execute(step.statement_list()[i as int])));
                assert(op_views(ops@) =~= before + Seq::new(
                    (i + 1) as nat,
                    |k: int| OpView::Execute(step.statement_list()[k]),
                ));
            }
            i += 1;
        }
        let ghost so_far = op_views(ops@);
        ops.push(MigrationOp::SetVersion(step.version()));
        proof {
            assert(texts(list@).len() == list@.len());
            assert(op_views(ops@) =~= so_far.push(OpView::SetVersion(step.number())));
            assert(op_views(ops@) =~= before + step_ops(step));
        }
    } else {
        assert(op_views(ops@) =~= before + Seq::<OpView>::empty());
    }
}

/// What a start-up has to run, in this order and within one transaction,
/// on a schema that stands at `version`: for each migration to a higher
/// version, in rising order, its statements and then the record of its
/// version. A schema at the latest version or beyond has nothing to run.
pub fn plan(version: u32) -> (ops: Vec<MigrationOp>)
    ensures
        op_views(ops@) == plan_for(version),
{
    let mut ops: Vec<MigrationOp> = Vec::new();
    assert(op_views(ops@) =~= Seq::<OpView>::empty());
    plan_step(&mut ops, version, Migrations::V1);
    plan_step(&mut ops, version, Migrations::V2);
    plan_step(&mut ops, version, Migrations::V3);
    proof {
        assert(op_views(ops@) =~= plan_for(version));
    }
    ops
}

/// The end of a run that started at `version`. A run that went through and
/// was committed leaves the schema at the latest version, or where it was
/// if that is higher. A run in which anything failed is rolled back as a
/// whole: the schema stays at `version`, and the start-up must not go on.
pub fn conclude(version: u32, committed: bool) -> (outcome: Result<u32, MigrationError>)
    ensures
        committed ==> outcome == Ok::<u32, MigrationError>(version_after(version)),
        !committed ==> outcome == Err::<u32, MigrationError>(MigrationError::Persistence),
{
    if !committed {
        Err(MigrationError::Persistence)
    } else if version < LATEST_VERSION {
        Ok(LATEST_VERSION)
    } else {
        Ok(version)
    }
}

/// A run that goes through leaves the schema at the latest version, or
/// where it was if that is higher.
pub proof fn lemma_plan_reaches_latest(version: u32)
    ensures
        version_reached(version, plan_for(version)) == version_after(version),
        version_after(0) == LATEST_VERSION,
{
    let ops = plan_for(version);
    if version < LATEST_VERSION {
        let last_step = step_ops(Migrations::V3);
        assert(ops_if_due(version, Migrations::V3) == last_step);
        assert(last_step.last() == OpView::SetVersion(3));
        assert(ops.last() == last_step.last());
    } else {
        assert(ops =~= Seq::<OpView>::empty());
    }
}

/// Migrating is idempotent: after a run that went through, a second run
/// has nothing to do. It runs no statement and records no version.
pub proof fn lemma_second_run_does_nothing(version: u32)
    ensures
        plan_for(version_after(version)).len() == 0,
        executed(plan_for(version_after(version))).len() == 0,
        version_reached(version_after(version), plan_for(version_after(version)))
            == version_after(version),
{
    assert(plan_for(version_after(version)) =~= Seq::<OpView>::empty());
}

/// A schema never goes back: a run leaves the version where it was or
/// above, and a plan holds no migration that the schema has taken already.
pub proof fn lemma_plan_only_moves_up(version: u32, step: Migrations)
    ensures
        version_after(version) >= version,
        step.number() <= version ==> ops_if_due(version, step).len() == 0,
        step.number() > version ==> ops_if_due(version, step) == step_ops(step),
{
}

} // verus!
