use birbfetcher::error::MigrationError;
use birbfetcher::migrations::{
    conclude, plan, starting_version, MigrationOp, Migrations, LATEST_VERSION,
};

fn statements_of(ops: &[MigrationOp]) -> Vec<String> {
    let mut list = Vec::new();
    for op in ops {
        if let MigrationOp::Execute(statement) = op {
            list.push(statement.clone());
        }
    }
    list
}

fn versions_of(ops: &[MigrationOp]) -> Vec<u32> {
    let mut list = Vec::new();
    for op in ops {
        if let MigrationOp::SetVersion(version) = op {
            list.push(*version);
        }
    }
    list
}

#[test]
fn versions_rise_with_the_variants() {
    assert_eq!(Migrations::V1.version(), 1);
    assert_eq!(Migrations::V2.version(), 2);
    assert_eq!(Migrations::V3.version(), 3);
    assert_eq!(LATEST_VERSION, 3);
    assert_eq!(Migrations::all(), vec![Migrations::V1, Migrations::V2, Migrations::V3]);
    assert!(Migrations::V1 < Migrations::V2 && Migrations::V2 < Migrations::V3);
}

#[test]
fn queries_of_the_first_migration() {
    let queries = Migrations::V1.queries();
    assert_eq!(queries.len(), 1);
    assert!(queries[0].starts_with("CREATE TABLE IF NOT EXISTS `birbs`"));
    assert!(queries[0].ends_with(")"));
    assert!(queries[0].contains("UNIQUE KEY `birbs_hash` (`hash`)"));
}

#[test]
fn queries_of_the_second_migration() {
    assert_eq!(
        Migrations::V2.queries(),
        vec![
            "ALTER TABLE `birbs` ADD COLUMN `state` TINYINT UNSIGNED NOT NULL DEFAULT 0",
            "UPDATE `birbs` SET `state` = 2 WHERE `banned` = true",
            "ALTER TABLE `birbs` DROP COLUMN `banned`",
        ]
    );
}

#[test]
fn queries_of_the_third_migration() {
    assert_eq!(
        Migrations::V3.queries(),
        vec!["ALTER TABLE `birbs` MODIFY `id` INT UNSIGNED NOT NULL AUTO_INCREMENT"]
    );
}

#[test]
fn queries_are_trimmed_and_not_empty() {
    for step in Migrations::all() {
        let queries = step.queries();
        assert!(!queries.is_empty());
        for query in queries {
            assert!(!query.is_empty());
            assert_eq!(query.trim(), query);
            assert!(!query.contains(';'));
        }
        let by_std: Vec<String> = step
            .script()
            .split(';')
            .map(str::trim)
            .filter(|s| !s.is_empty())
            .map(str::to_string)
            .collect();
        assert_eq!(step.queries(), by_std);
    }
}

#[test]
fn plan_from_version_zero_runs_everything_in_order() {
    let ops = plan(0);
    let mut expected = Vec::new();
    for step in Migrations::all() {
        for query in step.queries() {
            expected.push(MigrationOp::Execute(query));
        }
        expected.push(MigrationOp::SetVersion(step.version()));
    }
    assert_eq!(ops, expected);
    assert_eq!(versions_of(&ops), vec![1, 2, 3]);
    assert_eq!(statements_of(&ops).len(), 5);
    assert_eq!(ops.last(), Some(&MigrationOp::SetVersion(3)));
}

#[test]
fn plan_skips_what_was_taken() {
    assert_eq!(versions_of(&plan(1)), vec![2, 3]);
    assert_eq!(statements_of(&plan(1)).len(), 4);
    assert_eq!(versions_of(&plan(2)), vec![3]);
    assert_eq!(statements_of(&plan(2)), Migrations::V3.queries());
    assert_eq!(plan(3), vec![]);
    assert_eq!(plan(4), vec![]);
    assert_eq!(plan(u32::MAX), vec![]);
}

#[test]
fn migrating_twice_runs_nothing_the_second_time() {
    let start = starting_version(None);
    assert_eq!(start, 0);
    let first = plan(start);
    assert!(!statements_of(&first).is_empty());
    let reached = conclude(start, true).unwrap();
    assert_eq!(reached, LATEST_VERSION);
    assert_eq!(*versions_of(&first).last().unwrap(), reached);
    let second = plan(reached);
    assert!(second.is_empty());
    assert!(statements_of(&second).is_empty());
    assert_eq!(conclude(reached, true), Ok(LATEST_VERSION));
}

#[test]
fn failed_run_reports_persistence() {
    assert_eq!(conclude(0, false), Err(MigrationError::Persistence));
    assert_eq!(conclude(3, false), Err(MigrationError::Persistence));
}

#[test]
fn conclude_never_goes_back() {
    assert_eq!(conclude(0, true), Ok(3));
    assert_eq!(conclude(2, true), Ok(3));
    assert_eq!(conclude(3, true), Ok(3));
    assert_eq!(conclude(9, true), Ok(9));
}

#[test]
fn starting_version_defaults_to_zero() {
    assert_eq!(starting_version(None), 0);
    assert_eq!(starting_version(Some(0)), 0);
    assert_eq!(starting_version(Some(2)), 2);
    assert_eq!(starting_version(Some(u32::MAX)), u32::MAX);
}
