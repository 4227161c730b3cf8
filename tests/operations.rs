use upcount::backup::{
    backup_file_name, backup_start, backup_start_on, restore_step, RestoreAction, RestoreEvent,
    RestoreFailure, RestoreStage,
};
use upcount::clock::{current_timestamp, format_timestamp, UtcDateTime};
use upcount::migration::{engine_version_outdated, migration_from_file, pending_migrations, Migration};
use upcount::model::DbError;
use upcount::text::{text_eq, text_le_exec};

fn date(year: i32, month: u32, day: u32) -> UtcDateTime {
    UtcDateTime { year, month, day, hour: 7, minute: 5, second: 9 }
}

fn migration(version: u32) -> Migration {
    Migration { version, description: format!("step {}", version), sql: format!("-- {}", version) }
}

#[test]
fn timestamp_text_is_zero_padded() {
    assert_eq!(format_timestamp(&date(2024, 3, 4)), "2024-03-04 07:05:09");
    assert_eq!(format_timestamp(&date(987, 12, 31)), "0987-12-31 07:05:09");
}

#[test]
fn current_timestamp_has_audit_shape() {
    let t = current_timestamp();
    assert_eq!(t.len(), 19);
    assert_eq!(&t[4..5], "-");
    assert_eq!(&t[10..11], " ");
}

#[test]
fn backup_name_carries_the_date() {
    assert_eq!(backup_file_name(&date(2024, 1, 2)), "app-backup-2024-01-02.db");
    assert_eq!(backup_start_on(true, &date(2023, 11, 30)), Ok("app-backup-2023-11-30.db".to_string()));
    assert_eq!(backup_start_on(false, &date(2023, 11, 30)), Err(DbError::NotFound));
    assert_eq!(backup_start(false), Err(DbError::NotFound));
    let today = backup_start(true).unwrap();
    assert!(today.starts_with("app-backup-") && today.ends_with(".db"));
}

/// Drives the restore procedure over files held in memory.
fn run_restore(
    files: &mut std::collections::HashMap<&'static str, Vec<u8>>,
    source: &'static str,
    fail_replace: bool,
) -> Result<(), RestoreFailure> {
    let mut stage = RestoreStage::Begin;
    let mut event = RestoreEvent::Started;
    loop {
        let (next, action) = restore_step(stage, event);
        stage = next;
        event = match action {
            RestoreAction::CheckSourceExists => RestoreEvent::Exists(files.contains_key(source)),
            RestoreAction::CheckLiveExists => RestoreEvent::Exists(files.contains_key("live")),
            RestoreAction::CheckAsideExists => RestoreEvent::Exists(files.contains_key("live.backup")),
            RestoreAction::CopyLiveAside => {
                let bytes = files["live"].clone();
                files.insert("live.backup", bytes);
                RestoreEvent::Copied(Ok(()))
            }
            RestoreAction::CopySourceToLive => {
                if fail_replace {
                    files.insert("live", vec![0xde, 0xad]);
                    RestoreEvent::Copied(Err("disk full".to_string()))
                } else {
                    let bytes = files[source].clone();
                    files.insert("live", bytes);
                    RestoreEvent::Copied(Ok(()))
                }
            }
            RestoreAction::CopyAsideToLive => {
                let bytes = files["live.backup"].clone();
                files.insert("live", bytes);
                RestoreEvent::Copied(Ok(()))
            }
            RestoreAction::RemoveAside => {
                files.remove("live.backup");
                RestoreEvent::Removed
            }
            RestoreAction::Finish(result) => return result,
        };
    }
}

#[test]
fn backup_restore_round_trip() {
    let mut files = std::collections::HashMap::new();
    files.insert("live", vec![1u8, 2, 3]);
    // take a backup: a byte-for-byte copy
    let snapshot = files["live"].clone();
    files.insert("P", snapshot.clone());
    // mutate the live database
    files.insert("live", vec![1u8, 2, 3, 4]);
    assert_eq!(run_restore(&mut files, "P", false), Ok(()));
    assert_eq!(files["live"], snapshot);
    assert!(!files.contains_key("live.backup"));
}

#[test]
fn failed_restore_rolls_back() {
    let mut files = std::collections::HashMap::new();
    files.insert("live", vec![9u8, 9]);
    files.insert("P", vec![1u8]);
    assert_eq!(
        run_restore(&mut files, "P", true),
        Err(RestoreFailure::ReplaceFailed("disk full".to_string()))
    );
    assert_eq!(files["live"], vec![9u8, 9]);
}

#[test]
fn restore_from_missing_source() {
    let mut files = std::collections::HashMap::new();
    files.insert("live", vec![9u8]);
    assert_eq!(run_restore(&mut files, "nowhere", false), Err(RestoreFailure::SourceMissing));
    assert_eq!(files["live"], vec![9u8]);
}

#[test]
fn restore_without_live_file_and_failed_aside_copy() {
    let mut files = std::collections::HashMap::new();
    files.insert("P", vec![5u8]);
    assert_eq!(run_restore(&mut files, "P", false), Ok(()));
    assert_eq!(files["live"], vec![5u8]);
    let (stage, action) =
        restore_step(RestoreStage::AsideCopied, RestoreEvent::Copied(Err("denied".to_string())));
    assert_eq!(stage, RestoreStage::Done);
    assert_eq!(action, RestoreAction::Finish(Err(RestoreFailure::AsideCopyFailed("denied".to_string()))));
    let (_, action) = restore_step(RestoreStage::Begin, RestoreEvent::Removed);
    assert_eq!(action, RestoreAction::Finish(Err(RestoreFailure::OutOfOrder)));
}

#[test]
fn migration_file_names() {
    let m = migration_from_file("0003_add_tags.sql", "CREATE TABLE tags (id TEXT);".to_string()).unwrap();
    assert_eq!(m.version, 3);
    assert_eq!(m.description, "add_tags");
    assert_eq!(m.sql, "CREATE TABLE tags (id TEXT);");
    assert!(migration_from_file("03_x.sql", String::new()).is_none());
    assert!(migration_from_file("00a3_x.sql", String::new()).is_none());
    assert!(migration_from_file("0003-x.sql", String::new()).is_none());
    assert!(migration_from_file("0003_x.txt", String::new()).is_none());
    assert_eq!(migration_from_file("1234_.sql", String::new()).unwrap().version, 1234);
}

#[test]
fn migration_plan_is_deterministic() {
    let all = vec![migration(1), migration(2), migration(5), migration(7)];
    assert_eq!(pending_migrations(&all, &vec![]), vec![0, 1, 2, 3]);
    assert_eq!(pending_migrations(&all, &vec![1, 2]), vec![2, 3]);
    assert_eq!(pending_migrations(&all, &vec![7, 5, 2, 1]), Vec::<usize>::new());
    // an unknown recorded version does not matter
    assert_eq!(pending_migrations(&all, &vec![3]), vec![0, 1, 2, 3]);
}

#[test]
fn engine_version_check() {
    assert!(!engine_version_outdated("3.45.1"));
    assert!(!engine_version_outdated("3.35.0"));
    assert!(engine_version_outdated("3.34.9"));
    assert!(engine_version_outdated("2.99"));
    assert!(!engine_version_outdated("4.0"));
    assert!(!engine_version_outdated("3"));
    assert!(!engine_version_outdated("x.1"));
}

#[test]
fn text_comparisons() {
    assert!(text_eq("abc", "abc"));
    assert!(!text_eq("abc", "abd"));
    assert!(!text_eq("ab", "abc"));
    assert!(text_le_exec("ab", "abc"));
    assert!(!text_le_exec("abc", "ab"));
    assert!(text_le_exec("B", "a"));
    assert!(text_le_exec("same", "same"));
}
