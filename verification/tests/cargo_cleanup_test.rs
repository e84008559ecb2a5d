//! The cargo home cleanup on listings that stand for a mock cargo home.

use cargo_hold::gc::cargo::{
    age_cutoff, registry_areas, registry_stats, sweep_cargo_bin, sweep_old_files, BinaryEntry,
    CleanupStats, FileStamp, RegistryArea, SweepKind, NANOS_PER_DAY,
};
use cargo_hold::gc::config::Gc;

/// A fixed "now": 2024-01-01T00:00:00Z, in nanoseconds since the epoch.
const NOW: i128 = 1_704_067_200 * 1_000_000_000;

fn days_ago(days: i128) -> i128 {
    NOW - days * NANOS_PER_DAY
}

fn config(preserve: &[&str]) -> Gc {
    Gc::new(7, false, false, preserve.iter().map(|s| s.to_string()).collect())
}

#[test]
fn test_clean_cargo_registry_with_mock_home() {
    let config = config(&[]);
    // registry/cache/github.com-123 holds an old crate (40 days) and a new one (1 day).
    let old_content = b"old content";
    let new_content = b"new content";
    let entries = vec![
        Some(FileStamp { modified: days_ago(40), len: old_content.len() as u64 }),
        Some(FileStamp { modified: days_ago(1), len: new_content.len() as u64 }),
    ];
    let area = RegistryArea::Cache;
    assert_eq!(area.path(), ("registry", "cache"));
    assert_eq!(area.kind(), SweepKind::Files);
    let sweep = sweep_old_files(&config, &entries, area.age_threshold_days(&config), NOW);

    assert_eq!(sweep.deletions, vec![0], "Old file should be removed");
    assert!(!sweep.deletions.contains(&1), "New file should be kept");
    let registry = registry_stats(&vec![(area, sweep.stats)]);
    assert!(registry.bytes_freed > 0, "Should have freed some bytes");
    assert_eq!(registry.bytes_freed, 11);
    assert_eq!(registry.files_removed, 1);
    assert_eq!(registry.dirs_removed, 0);
}

#[test]
fn test_clean_cargo_registry_preserves_credentials_toml() {
    // credentials.toml lies directly in the cargo home; the registry cleanup
    // only ever enters registry/cache, git/checkouts, git/db and registry/src.
    let areas = registry_areas();
    assert_eq!(
        areas,
        vec![RegistryArea::Cache, RegistryArea::GitCheckouts, RegistryArea::GitDb, RegistryArea::Sources]
    );
    let paths: Vec<(&str, &str)> = areas.iter().map(|a| a.path()).collect();
    assert_eq!(
        paths,
        vec![("registry", "cache"), ("git", "checkouts"), ("git", "db"), ("registry", "src")]
    );
    for (first, second) in paths {
        assert_ne!(first, "credentials.toml");
        assert_ne!(second, "credentials.toml");
    }
}

#[test]
fn test_clean_cargo_bin_with_mock_home() {
    let config = config(&["my-tool"]);
    let old_tool = b"#!/bin/sh\necho old";
    let cargo_test = b"#!/bin/sh\necho cargo";
    let my_tool = b"#!/bin/sh\necho custom";
    let entries = vec![
        BinaryEntry {
            name: Some("old-tool".to_string()),
            stamp: Some(FileStamp { modified: days_ago(40), len: old_tool.len() as u64 }),
        },
        BinaryEntry {
            name: Some("cargo-test".to_string()),
            stamp: Some(FileStamp { modified: days_ago(40), len: cargo_test.len() as u64 }),
        },
        BinaryEntry {
            name: Some("my-tool".to_string()),
            stamp: Some(FileStamp { modified: days_ago(40), len: my_tool.len() as u64 }),
        },
    ];
    let sweep = sweep_cargo_bin(&config, &entries, NOW);
    assert!(sweep.deletions.contains(&0), "Old binary should be removed");
    assert!(!sweep.deletions.contains(&1), "Cargo binary should be preserved");
    assert!(!sweep.deletions.contains(&2), "Custom preserved binary should be kept");
    assert!(sweep.bytes_freed > 0, "Should have freed some bytes");
    assert_eq!(sweep.bytes_freed, old_tool.len() as u64);
}

#[test]
fn cutoff_is_the_threshold_before_now() {
    assert_eq!(age_cutoff(NOW, 7), NOW - 7 * 86_400_000_000_000);
    assert_eq!(age_cutoff(NOW, 0), NOW);
    assert_eq!(age_cutoff(NOW, 30), days_ago(30));
}

#[test]
fn cutoff_falls_back_to_the_epoch() {
    assert_eq!(age_cutoff(i128::MIN + 5, 1), 0);
}

#[test]
fn registry_totals_count_files_of_the_cache_and_directories_of_the_rest() {
    let swept = vec![
        (RegistryArea::Cache, CleanupStats { bytes_freed: 10, files_removed: 2, dirs_removed: 5 }),
        (RegistryArea::GitDb, CleanupStats { bytes_freed: 7, files_removed: 9, dirs_removed: 1 }),
        (RegistryArea::Sources, CleanupStats { bytes_freed: 3, files_removed: 0, dirs_removed: 2 }),
    ];
    let stats = registry_stats(&swept);
    assert_eq!(stats.bytes_freed, 20);
    assert_eq!(stats.files_removed, 2);
    assert_eq!(stats.dirs_removed, 3);
}
