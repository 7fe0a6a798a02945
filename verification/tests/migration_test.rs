use upgrade_governance::errors::UpgradeError;
use upgrade_governance::migration::{
    migrate_single_account, AccountMigrator, MigrationError, MigrationManager, MigrationStatus,
    UserAccountMigrator,
};

fn record(len: usize) -> Vec<u8> {
    vec![0u8; len]
}

#[test]
fn test_migration_start() {
    let mut manager = MigrationManager::new();
    let migrator = UserAccountMigrator::new();
    let records = vec![record(40)];

    let migration_id = manager.start_migration(records.len(), 5_000).unwrap();
    assert!(migration_id != 0);
    manager
        .migrate_accounts_batch(migration_id, &records, &migrator, 5_100)
        .unwrap();

    let progress = manager.get_progress().unwrap();
    assert_eq!(progress.migration_id, migration_id);
    assert_eq!(progress.status, MigrationStatus::Completed);
}

#[test]
fn test_migration_progress_tracking() {
    let mut manager = MigrationManager::new();
    let migrator = UserAccountMigrator::new();
    let records = vec![record(40), record(100)];

    let migration_id = manager.start_migration(records.len(), 5_000).unwrap();
    manager
        .migrate_accounts_batch(migration_id, &records, &migrator, 5_100)
        .unwrap();

    let progress = manager.get_progress_of(migration_id).unwrap();
    assert_eq!(progress.migration_id, migration_id);
    assert_eq!(progress.total_accounts, 2);
    assert_eq!(progress.migrated_accounts, 2);
    assert_eq!(progress.failed_accounts, 0);
    assert_eq!(progress.started_at, 5_000);
    assert_eq!(progress.completed_at, Some(5_100));
}

#[test]
fn test_single_account_migration() {
    let migrator = UserAccountMigrator::new();
    let old_data = record(40);
    let new_data = migrate_single_account(&old_data, &migrator).unwrap();
    assert_eq!(new_data.len(), old_data.len() + 12);
    assert_eq!(&new_data[..40], &old_data[..]);
}

#[test]
fn test_migration_verification() {
    let migrator = UserAccountMigrator::new();
    let old_data = record(40);
    let new_data = migrator.migrate(&old_data).unwrap();
    let verified = migrator.verify(&old_data, &new_data).unwrap();
    assert!(verified);
}

#[test]
fn test_migration_rejects_short_record() {
    let migrator = UserAccountMigrator::new();
    let old_data = record(39);
    assert!(matches!(
        migrator.migrate(&old_data),
        Err(MigrationError::InvalidData)
    ));
    let e: UpgradeError = MigrationError::InvalidData.into();
    assert_eq!(e, UpgradeError::MigrationFailed(MigrationError::InvalidData));
}

#[test]
fn test_migration_verification_rejects_truncation() {
    let migrator = UserAccountMigrator::new();
    let old_data = record(40);
    // old bytes not preserved as a prefix
    let mut tampered = migrator.migrate(&old_data).unwrap();
    tampered[0] = 1;
    assert!(!migrator.verify(&old_data, &tampered).unwrap());
    // new fields missing
    let short = old_data.clone();
    assert!(!migrator.verify(&old_data, &short).unwrap());
}

#[test]
fn test_migration_batch_counts_failures() {
    let mut manager = MigrationManager::new();
    let migrator = UserAccountMigrator::new();
    // the middle record is too short to migrate
    let records = vec![record(64), record(10), record(40)];

    let migration_id = manager.start_migration(records.len(), 8_000).unwrap();
    manager
        .migrate_accounts_batch(migration_id, &records, &migrator, 8_200)
        .unwrap();

    let progress = manager.get_progress_of(migration_id).unwrap();
    assert_eq!(progress.status, MigrationStatus::Completed);
    assert_eq!(progress.migrated_accounts, 2);
    assert_eq!(progress.failed_accounts, 1);
    // a completed job accounts for every record
    assert_eq!(
        progress.migrated_accounts + progress.failed_accounts,
        progress.total_accounts
    );
}
