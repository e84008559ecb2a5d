//! Sweeps of files, directories and binaries, and the tally beneath them.

use cargo_hold::gc::cargo::{
    age_cutoff, binary_removal, dir_removal, file_removal, kept_binary_prefixes, should_keep_binary,
    starts_with_bytes, sweep_cargo_bin, sweep_old_directories, sweep_old_files, BinaryEntry,
    CargoRegistryStats, CleanupStats, DirStamp, FileStamp, RegistryArea, LONG_AGE_DAYS, NANOS_PER_DAY,
};
use cargo_hold::gc::config::Gc;
use cargo_hold::gc::sweep::tally;

const NOW: i128 = 1_704_067_200 * 1_000_000_000;

fn days_ago(days: i128) -> i128 {
    NOW - days * NANOS_PER_DAY
}

fn gc(dry_run: bool) -> Gc {
    Gc::new(7, dry_run, false, vec![])
}

#[test]
fn tally_sums_what_goes() {
    let t = tally(&vec![Some(3), None, Some(4), None]);
    assert_eq!(t.picks, vec![0, 2]);
    assert_eq!(t.bytes, 7);
    let empty = tally(&vec![None, None]);
    assert!(empty.picks.is_empty());
    assert_eq!(empty.bytes, 0);
}

#[test]
fn tally_of_a_long_listing() {
    let outcomes: Vec<Option<u64>> = (0..10_000u64).map(|i| if i % 3 == 0 { Some(i) } else { None }).collect();
    let t = tally(&outcomes);
    let expected: u64 = (0..10_000u64).filter(|i| i % 3 == 0).sum();
    assert_eq!(t.bytes, expected);
    assert_eq!(t.picks.len(), 3334);
}

#[test]
fn a_file_goes_only_when_strictly_older_than_the_cutoff() {
    let cutoff = age_cutoff(NOW, 7);
    assert_eq!(file_removal(Some(FileStamp { modified: cutoff - 1, len: 5 }), cutoff), Some(5));
    assert_eq!(file_removal(Some(FileStamp { modified: cutoff, len: 5 }), cutoff), None);
    assert_eq!(file_removal(Some(FileStamp { modified: cutoff + 1, len: 5 }), cutoff), None);
    assert_eq!(file_removal(None, cutoff), None);
}

#[test]
fn a_directory_goes_when_old_and_measured() {
    let cutoff = age_cutoff(NOW, 30);
    let old = days_ago(31);
    assert_eq!(dir_removal(DirStamp { modified: Some(old), size: Some(100) }, cutoff), Some(100));
    assert_eq!(dir_removal(DirStamp { modified: Some(old), size: None }, cutoff), None);
    assert_eq!(dir_removal(DirStamp { modified: Some(days_ago(2)), size: Some(100) }, cutoff), None);
    assert_eq!(dir_removal(DirStamp { modified: None, size: Some(100) }, cutoff), None);
}

#[test]
fn directory_sweep_counts_directories() {
    let entries = vec![
        DirStamp { modified: Some(days_ago(40)), size: Some(1000) },
        DirStamp { modified: Some(days_ago(3)), size: Some(50) },
        DirStamp { modified: Some(days_ago(60)), size: None },
        DirStamp { modified: Some(days_ago(31)), size: Some(24) },
    ];
    let sweep = sweep_old_directories(&gc(false), &entries, LONG_AGE_DAYS, NOW);
    assert_eq!(sweep.deletions, vec![0, 3]);
    assert_eq!(sweep.stats, CleanupStats { bytes_freed: 1024, files_removed: 0, dirs_removed: 2 });
}

#[test]
fn file_sweep_skips_unreadable_entries() {
    let entries = vec![
        None,
        Some(FileStamp { modified: days_ago(8), len: 9 }),
        Some(FileStamp { modified: days_ago(6), len: 9 }),
    ];
    let sweep = sweep_old_files(&gc(false), &entries, 7, NOW);
    assert_eq!(sweep.deletions, vec![1]);
    assert_eq!(sweep.stats, CleanupStats { bytes_freed: 9, files_removed: 1, dirs_removed: 0 });
}

#[test]
fn dry_run_reports_the_same_and_deletes_nothing() {
    let files = vec![
        Some(FileStamp { modified: days_ago(8), len: 9 }),
        Some(FileStamp { modified: days_ago(80), len: 1 }),
    ];
    let real = sweep_old_files(&gc(false), &files, 7, NOW);
    let dry = sweep_old_files(&gc(true), &files, 7, NOW);
    assert_eq!(real.stats, dry.stats);
    assert_eq!(real.deletions, vec![0, 1]);
    assert!(dry.deletions.is_empty());

    let dirs = vec![DirStamp { modified: Some(days_ago(40)), size: Some(12) }];
    let real = sweep_old_directories(&gc(false), &dirs, 30, NOW);
    let dry = sweep_old_directories(&gc(true), &dirs, 30, NOW);
    assert_eq!(real.stats, dry.stats);
    assert_eq!(real.deletions, vec![0]);
    assert!(dry.deletions.is_empty());

    let bins = vec![BinaryEntry {
        name: Some("old-tool".to_string()),
        stamp: Some(FileStamp { modified: days_ago(40), len: 3 }),
    }];
    let real = sweep_cargo_bin(&gc(false), &bins, NOW);
    let dry = sweep_cargo_bin(&gc(true), &bins, NOW);
    assert_eq!(real.bytes_freed, 3);
    assert_eq!(dry.bytes_freed, 3);
    assert_eq!(real.deletions, vec![0]);
    assert!(dry.deletions.is_empty());
}

#[test]
fn a_second_sweep_removes_nothing() {
    let entries = vec![
        Some(FileStamp { modified: days_ago(8), len: 9 }),
        Some(FileStamp { modified: days_ago(1), len: 4 }),
        None,
        Some(FileStamp { modified: days_ago(100), len: 2 }),
    ];
    let first = sweep_old_files(&gc(false), &entries, 7, NOW);
    let left: Vec<Option<FileStamp>> = entries
        .iter()
        .enumerate()
        .filter(|(i, _)| !first.deletions.contains(i))
        .map(|(_, e)| *e)
        .collect();
    assert_eq!(left.len(), 2);
    let second = sweep_old_files(&gc(false), &left, 7, NOW);
    assert!(second.deletions.is_empty());
    assert_eq!(second.stats, CleanupStats { bytes_freed: 0, files_removed: 0, dirs_removed: 0 });
}

#[test]
fn a_longer_threshold_removes_no_more() {
    let entries = vec![
        Some(FileStamp { modified: days_ago(8), len: 9 }),
        Some(FileStamp { modified: days_ago(40), len: 4 }),
        Some(FileStamp { modified: days_ago(2), len: 1 }),
    ];
    let short = sweep_old_files(&gc(false), &entries, 7, NOW);
    let long = sweep_old_files(&gc(false), &entries, 30, NOW);
    assert_eq!(short.deletions, vec![0, 1]);
    assert_eq!(long.deletions, vec![1]);
    assert!(long.deletions.iter().all(|i| short.deletions.contains(i)));
}

#[test]
fn the_toolchain_and_this_tool_are_kept() {
    let none: Vec<String> = vec![];
    for name in ["cargo", "cargo-hold", "cargo-nextest", "rustc", "rustfmt", "rust-analyzer", "clippy-driver", "wild", "rls", "rust-gdb"] {
        assert!(should_keep_binary(name, &none), "{name} should be kept");
    }
    for name in ["old-tool", "rust-script", "ripgrep", "car", "Cargo"] {
        assert!(!should_keep_binary(name, &none), "{name} should not be kept");
    }
}

#[test]
fn preserved_names_are_kept_by_prefix() {
    let preserve = vec!["my-".to_string(), "ü".to_string()];
    assert!(should_keep_binary("my-tool", &preserve));
    assert!(should_keep_binary("ünicode-tool", &preserve));
    assert!(!should_keep_binary("your-tool", &preserve));
    assert!(!should_keep_binary("u-tool", &preserve));
}

#[test]
fn kept_prefixes_are_the_toolchain() {
    let prefixes = kept_binary_prefixes();
    assert_eq!(prefixes.len(), 17);
    assert_eq!(prefixes[0], "cargo");
    assert_eq!(prefixes[16], "cargo-hold");
    assert!(prefixes.contains(&"sccache"));
}

#[test]
fn byte_prefixes() {
    assert!(starts_with_bytes(b"cargo-test", b"cargo"));
    assert!(starts_with_bytes(b"cargo", b"cargo"));
    assert!(starts_with_bytes(b"cargo", b""));
    assert!(!starts_with_bytes(b"carg", b"cargo"));
    assert!(!starts_with_bytes(b"cargx", b"cargo"));
}

#[test]
fn binaries_without_a_name_or_metadata_stay() {
    let cutoff = age_cutoff(NOW, LONG_AGE_DAYS);
    let none: Vec<String> = vec![];
    let nameless = BinaryEntry { name: None, stamp: Some(FileStamp { modified: days_ago(90), len: 3 }) };
    assert_eq!(binary_removal(&nameless, cutoff, &none), None);
    let unreadable = BinaryEntry { name: Some("tool".to_string()), stamp: None };
    assert_eq!(binary_removal(&unreadable, cutoff, &none), None);
    let old = BinaryEntry { name: Some("tool".to_string()), stamp: Some(FileStamp { modified: days_ago(31), len: 3 }) };
    assert_eq!(binary_removal(&old, cutoff, &none), Some(3));
    let recent = BinaryEntry { name: Some("tool".to_string()), stamp: Some(FileStamp { modified: days_ago(29), len: 3 }) };
    assert_eq!(binary_removal(&recent, cutoff, &none), None);
}

#[test]
fn absorbing_sweeps() {
    let mut stats = CargoRegistryStats::new();
    assert_eq!(stats, CargoRegistryStats::default());
    stats.absorb(RegistryArea::Cache, &CleanupStats { bytes_freed: 4, files_removed: 1, dirs_removed: 7 });
    stats.absorb(RegistryArea::GitCheckouts, &CleanupStats { bytes_freed: 6, files_removed: 7, dirs_removed: 2 });
    assert_eq!(stats, CargoRegistryStats { bytes_freed: 10, files_removed: 1, dirs_removed: 2 });
}

#[test]
fn area_thresholds() {
    let config = Gc::new(3, false, false, vec![]);
    assert_eq!(RegistryArea::Cache.age_threshold_days(&config), 3);
    assert_eq!(RegistryArea::GitCheckouts.age_threshold_days(&config), 30);
    assert_eq!(RegistryArea::GitDb.age_threshold_days(&config), 30);
    assert_eq!(RegistryArea::Sources.age_threshold_days(&config), 30);
}

#[test]
fn reporting_follows_quiet_and_verbosity() {
    let loud = Gc::new(7, false, false, vec![]);
    let quiet = Gc::new(7, false, true, vec![]);
    assert!(loud.reports(1, 0));
    assert!(!loud.reports(1, 1));
    assert!(loud.reports(2, 1));
    assert!(!quiet.reports(2, 1));
    assert_eq!(CleanupStats::default(), CleanupStats { bytes_freed: 0, files_removed: 0, dirs_removed: 0 });
}
