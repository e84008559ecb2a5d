//! Cleanup of the cargo home: the registry's crate cache, git checkouts and
//! databases, unpacked registry sources, and installed binaries.
//!
//! Times are signed nanoseconds since the Unix epoch (negative before it).
//! A listing entry whose metadata could not be read is `None`.

use vstd::prelude::*;
use vstd::utf8::encode_utf8;

use crate::gc::config::Gc;
use crate::gc::sweep::{freed_sizes, picked, tally, total};

verus! {

/// Nanoseconds in a day.
pub const NANOS_PER_DAY: i128 = 86_400_000_000_000;

/// Age, in days, past which git checkouts, git databases, unpacked sources
/// and installed binaries are removed.
pub const LONG_AGE_DAYS: u32 = 30;

/// What the cleanup of the cargo registry freed.
#[derive(Debug, Clone, Copy, PartialEq, Eq, Structural)]
pub struct CargoRegistryStats {
    pub bytes_freed: u64,
    pub files_removed: usize,
    pub dirs_removed: usize,
}

/// What one sweep of a directory freed.
#[derive(Debug, Clone, Copy, PartialEq, Eq, Structural)]
pub struct CleanupStats {
    pub bytes_freed: u64,
    pub files_removed: usize,
    pub dirs_removed: usize,
}

impl Default for CargoRegistryStats {
    fn default() -> (stats: Self)
        ensures
            stats == (CargoRegistryStats { bytes_freed: 0, files_removed: 0, dirs_removed: 0 }),
    {
        CargoRegistryStats { bytes_freed: 0, files_removed: 0, dirs_removed: 0 }
    }
}

impl Default for CleanupStats {
    fn default() -> (stats: Self)
        ensures
            stats == (CleanupStats { bytes_freed: 0, files_removed: 0, dirs_removed: 0 }),
    {
        CleanupStats { bytes_freed: 0, files_removed: 0, dirs_removed: 0 }
    }
}

/// Modification time and length of a regular file.
#[derive(Debug, Clone, Copy, PartialEq, Eq, Structural)]
pub struct FileStamp {
    pub modified: i128,
    pub len: u64,
}

/// What is known of a directory: its modification time, when it could be
/// read, and the total size of its contents, when it could be measured.
#[derive(Debug, Clone, Copy, PartialEq, Eq, Structural)]
pub struct DirStamp {
    pub modified: Option<i128>,
    pub size: Option<u64>,
}

/// The outcome of a sweep: what it frees, and the positions in the listing
/// of the entries to delete (none on a dry run).
#[derive(Debug, Clone)]
pub struct Sweep {
    pub stats: CleanupStats,
    pub deletions: Vec<usize>,
}

/// The instant `days` days before `now`, or the epoch where that instant
/// cannot be represented.
pub open spec fn cutoff_spec(now: i128, days: u32) -> i128 {
    let back = now - days * NANOS_PER_DAY;
    if back >= i128::MIN {
        back as i128
    } else {
        0
    }
}

/// The cutoff of an age threshold: entries modified strictly before it are
/// old enough to be removed.
pub fn age_cutoff(now: i128, age_threshold_days: u32) -> (cutoff: i128)
    ensures
        cutoff == cutoff_spec(now, age_threshold_days),
        now - age_threshold_days * 86_400_000_000_000 >= i128::MIN ==> cutoff == now - age_threshold_days
            * 86_400_000_000_000,
        now - age_threshold_days * 86_400_000_000_000 < i128::MIN ==> cutoff == 0,
{
    assert(0 <= age_threshold_days * NANOS_PER_DAY <= 0xffff_ffff * NANOS_PER_DAY) by (nonlinear_arith)
        requires
            age_threshold_days <= 0xffff_ffff,
    ;
    let span: i128 = (age_threshold_days as i128) * NANOS_PER_DAY;
    match now.checked_sub(span) {
        Some(back) => back,
        None => 0,
    }
}

/// Whether a file goes, and what it frees: a file goes when its metadata
/// could be read and it was last modified before the cutoff.
pub open spec fn file_outcome(stamp: Option<FileStamp>, cutoff: i128) -> Option<u64> {
    match stamp {
        Some(s) => if s.modified < cutoff {
            Some(s.len)
        } else {
            None
        },
        None => None,
    }
}

/// Whether a directory goes, and what it frees: a directory goes when its
/// modification time could be read, it was last modified before the cutoff,
/// and its size could be measured.
pub open spec fn dir_outcome(stamp: DirStamp, cutoff: i128) -> Option<u64> {
    match stamp.modified {
        Some(m) => if m < cutoff {
            stamp.size
        } else {
            None
        },
        None => None,
    }
}

pub open spec fn file_outcomes(entries: Seq<Option<FileStamp>>, cutoff: i128) -> Seq<Option<u64>> {
    entries.map_values(|e: Option<FileStamp>| file_outcome(e, cutoff))
}

pub open spec fn dir_outcomes(entries: Seq<DirStamp>, cutoff: i128) -> Seq<Option<u64>> {
    entries.map_values(|e: DirStamp| dir_outcome(e, cutoff))
}

/// The entries a sweep deletes: those that go, unless it is a dry run.
pub open spec fn deletions_of(outcomes: Seq<Option<u64>>, dry_run: bool) -> Seq<usize> {
    if dry_run {
        Seq::empty()
    } else {
        picked(outcomes)
    }
}

/// Decides the removal of one file: the bytes it frees if it goes.
pub fn file_removal(stamp: Option<FileStamp>, cutoff: i128) -> (freed: Option<u64>)
    ensures
        freed == file_outcome(stamp, cutoff),
{
    match stamp {
        Some(s) => if s.modified < cutoff {
            Some(s.len)
        } else {
            None
        },
        None => None,
    }
}

/// Decides the removal of one directory: the bytes it frees if it goes.
pub fn dir_removal(stamp: DirStamp, cutoff: i128) -> (freed: Option<u64>)
    ensures
        freed == dir_outcome(stamp, cutoff),
{
    match stamp.modified {
        Some(m) => if m < cutoff {
            stamp.size
        } else {
            None
        },
        None => None,
    }
}

/// Sweeps the files found below a cache directory: every file last modified
/// more than `age_threshold_days` days before `now` goes. The counts do not
/// depend on whether the run is a dry run; only the deletions do.
pub fn sweep_old_files(config: &Gc, entries: &Vec<Option<FileStamp>>, age_threshold_days: u32, now: i128) -> (sweep: Sweep)
    requires
        total(freed_sizes(file_outcomes(entries@, cutoff_spec(now, age_threshold_days)))) <= u64::MAX,
    ensures
        ({
            let outcomes = file_outcomes(entries@, cutoff_spec(now, age_threshold_days));
            &&& sweep.stats.bytes_freed == total(freed_sizes(outcomes))
            &&& sweep.stats.files_removed == picked(outcomes).len()
            &&& sweep.stats.dirs_removed == 0
            &&& sweep.deletions@ == deletions_of(outcomes, config.dry_run)
            &&& config.dry_run ==> sweep.deletions@.len() == 0
            &&& !config.dry_run ==> sweep.deletions@ == picked(outcomes)
            &&& !config.dry_run ==> sweep.deletions@.len() == sweep.stats.files_removed
        }),
{
    let cutoff = age_cutoff(now, age_threshold_days);
    let mut outcomes: Vec<Option<u64>> = Vec::new();
    let n = entries.len();
    for i in 0..n
        invariant
            n == entries@.len(),
            outcomes@.len() == i,
            forall|j: int| 0 <= j < i ==> outcomes@[j] == file_outcome(entries@[j], cutoff),
    {
        outcomes.push(file_removal(entries[i], cutoff));
    }
    assert(outcomes@ =~= file_outcomes(entries@, cutoff));
    let t = tally(&outcomes);
    let stats = CleanupStats { bytes_freed: t.bytes, files_removed: t.picks.len(), dirs_removed: 0 };
    let deletions = if config.dry_run {
        Vec::new()
    } else {
        t.picks
    };
    Sweep { stats, deletions }
}

/// Sweeps the subdirectories of a directory: every subdirectory last
/// modified more than `age_threshold_days` days before `now`, and whose size
/// could be measured, goes. The counts do not depend on whether the run is a
/// dry run; only the deletions do.
pub fn sweep_old_directories(config: &Gc, entries: &Vec<DirStamp>, age_threshold_days: u32, now: i128) -> (sweep: Sweep)
    requires
        total(freed_sizes(dir_outcomes(entries@, cutoff_spec(now, age_threshold_days)))) <= u64::MAX,
    ensures
        ({
            let outcomes = dir_outcomes(entries@, cutoff_spec(now, age_threshold_days));
            &&& sweep.stats.bytes_freed == total(freed_sizes(outcomes))
            &&& sweep.stats.files_removed == 0
            &&& sweep.stats.dirs_removed == picked(outcomes).len()
            &&& sweep.deletions@ == deletions_of(outcomes, config.dry_run)
            &&& config.dry_run ==> sweep.deletions@.len() == 0
            &&& !config.dry_run ==> sweep.deletions@ == picked(outcomes)
            &&& !config.dry_run ==> sweep.deletions@.len() == sweep.stats.dirs_removed
        }),
{
    let cutoff = age_cutoff(now, age_threshold_days);
    let mut outcomes: Vec<Option<u64>> = Vec::new();
    let n = entries.len();
    for i in 0..n
        invariant
            n == entries@.len(),
            outcomes@.len() == i,
            forall|j: int| 0 <= j < i ==> outcomes@[j] == dir_outcome(entries@[j], cutoff),
    {
        outcomes.push(dir_removal(entries[i], cutoff));
    }
    assert(outcomes@ =~= dir_outcomes(entries@, cutoff));
    let t = tally(&outcomes);
    let stats = CleanupStats { bytes_freed: t.bytes, files_removed: 0, dirs_removed: t.picks.len() };
    let deletions = if config.dry_run {
        Vec::new()
    } else {
        t.picks
    };
    Sweep { stats, deletions }
}

/// An installed binary as listed: its file name, when it is valid UTF-8,
/// and its modification time and length, when they could be read.
#[derive(Debug, Clone)]
pub struct BinaryEntry {
    pub name: Option<String>,
    pub stamp: Option<FileStamp>,
}

/// The outcome of a sweep of the installed binaries: the bytes it frees and
/// the positions in the listing of the binaries to delete (none on a dry run).
#[derive(Debug, Clone)]
pub struct BinarySweep {
    pub bytes_freed: u64,
    pub deletions: Vec<usize>,
}

/// `prefix` is a prefix of `bytes`.
pub open spec fn byte_prefix(prefix: Seq<u8>, bytes: Seq<u8>) -> bool {
    prefix.len() <= bytes.len() && bytes.subrange(0, prefix.len() as int) == prefix
}

/// Name prefixes of the binaries of the toolchain and its usual companions,
/// which are never removed (this tool among them).
pub open spec fn kept_prefixes() -> Seq<Seq<char>> {
    seq![
        "cargo"@,
        "rustc"@,
        "clippy"@,
        "sccache"@,
        "cargo-nextest"@,
        "cargo-make"@,
        "cargo-binstall"@,
        "wild"@,
        "rustdoc"@,
        "rustup"@,
        "rls"@,
        "rust-analyzer"@,
        "rust-gdbgui"@,
        "rust-lldb"@,
        "rustfmt"@,
        "rust-gdb"@,
        "cargo-hold"@,
    ]
}

/// The names of the preserved binaries of a configuration.
pub open spec fn names_of(preserve: Seq<String>) -> Seq<Seq<char>> {
    preserve.map_values(|s: String| s@)
}

/// A binary is kept when the UTF-8 encoding of its name starts with that of
/// a kept prefix or of a preserved name.
pub open spec fn kept_binary(name: Seq<char>, preserve: Seq<Seq<char>>) -> bool {
    ||| exists|i: int|
        0 <= i < kept_prefixes().len() && byte_prefix(encode_utf8(kept_prefixes()[i]), encode_utf8(name))
    ||| exists|i: int| 0 <= i < preserve.len() && byte_prefix(encode_utf8(preserve[i]), encode_utf8(name))
}

/// Whether a binary goes, and what it frees: a binary goes when its name is
/// valid UTF-8 and not kept, its metadata could be read, and it was last
/// modified before the cutoff.
pub open spec fn binary_outcome(entry: BinaryEntry, cutoff: i128, preserve: Seq<Seq<char>>) -> Option<u64> {
    match entry.name {
        Some(name) => if kept_binary(name@, preserve) {
            None
        } else {
            file_outcome(entry.stamp, cutoff)
        },
        None => None,
    }
}

pub open spec fn binary_outcomes(entries: Seq<BinaryEntry>, cutoff: i128, preserve: Seq<Seq<char>>) -> Seq<
    Option<u64>,
> {
    entries.map_values(|e: BinaryEntry| binary_outcome(e, cutoff, preserve))
}

/// The kept name prefixes, in the order in which they are tried.
pub fn kept_binary_prefixes() -> (prefixes: Vec<&'static str>)
    ensures
        prefixes@.len() == kept_prefixes().len(),
        forall|i: int| 0 <= i < prefixes@.len() ==> prefixes@[i]@ == kept_prefixes()[i],
{
    let mut prefixes: Vec<&'static str> = Vec::new();
    prefixes.push("cargo");
    prefixes.push("rustc");
    prefixes.push("clippy");
    prefixes.push("sccache");
    prefixes.push("cargo-nextest");
    prefixes.push("cargo-make");
    prefixes.push("cargo-binstall");
    prefixes.push("wild");
    prefixes.push("rustdoc");
    prefixes.push("rustup");
    prefixes.push("rls");
    prefixes.push("rust-analyzer");
    prefixes.push("rust-gdbgui");
    prefixes.push("rust-lldb");
    prefixes.push("rustfmt");
    prefixes.push("rust-gdb");
    prefixes.push("cargo-hold");
    prefixes
}

/// Whether `bytes` starts with `prefix`.
pub fn starts_with_bytes(bytes: &[u8], prefix: &[u8]) -> (starts: bool)
    ensures
        starts == byte_prefix(prefix@, bytes@),
{
    if prefix.len() > bytes.len() {
        return false;
    }
    let mut i: usize = 0;
    while i < prefix.len()
        invariant
            i <= prefix@.len() <= bytes@.len(),
            forall|j: int| 0 <= j < i ==> bytes@[j] == prefix@[j],
        decreases prefix@.len() - i,
    {
        if bytes[i] != prefix[i] {
            assert(bytes@.subrange(0, prefix@.len() as int)[i as int] != prefix@[i as int]);
            return false;
        }
        i += 1;
    }
    assert(bytes@.subrange(0, prefix@.len() as int) =~= prefix@);
    true
}

/// Whether the installed binary `name` is kept: its name starts with one of
/// the kept prefixes or with one of the preserved names.
pub fn should_keep_binary(name: &str, preserve: &Vec<String>) -> (keep: bool)
    ensures
        keep == kept_binary(name@, names_of(preserve@)),
{
    let name_bytes = name.as_bytes();
    let prefixes = kept_binary_prefixes();
    let n = prefixes.len();
    for i in 0..n
        invariant
            n == prefixes@.len() == kept_prefixes().len(),
            name_bytes@ == encode_utf8(name@),
            forall|k: int| 0 <= k < prefixes@.len() ==> prefixes@[k]@ == kept_prefixes()[k],
            forall|j: int|
                0 <= j < i ==> !byte_prefix(encode_utf8(#[trigger] kept_prefixes()[j]), encode_utf8(name@)),
    {
        let p: &str = prefixes[i];
        if starts_with_bytes(name_bytes, p.as_bytes()) {
            return true;
        }
    }
    let m = preserve.len();
    for i in 0..m
        invariant
            m == preserve@.len(),
            name_bytes@ == encode_utf8(name@),
            forall|j: int| 0 <= j < kept_prefixes().len() ==> !byte_prefix(encode_utf8(#[trigger] kept_prefixes()[j]), encode_utf8(name@)),
            forall|j: int|
                0 <= j < i ==> !byte_prefix(encode_utf8(#[trigger] names_of(preserve@)[j]), encode_utf8(name@)),
    {
        let p: &str = preserve[i].as_str();
        if starts_with_bytes(name_bytes, p.as_bytes()) {
            assert(names_of(preserve@)[i as int] == preserve@[i as int]@);
            return true;
        }
        assert(names_of(preserve@)[i as int] == preserve@[i as int]@);
    }
    false
}

/// Decides the removal of one installed binary: the bytes it frees if it goes.
pub fn binary_removal(entry: &BinaryEntry, cutoff: i128, preserve: &Vec<String>) -> (freed: Option<u64>)
    ensures
        freed == binary_outcome(*entry, cutoff, names_of(preserve@)),
{
    match &entry.name {
        Some(name) => {
            if should_keep_binary(name.as_str(), preserve) {
                None
            } else {
                file_removal(entry.stamp, cutoff)
            }
        },
        None => None,
    }
}

/// Sweeps the installed binaries: every binary that is not kept and was last
/// modified more than thirty days before `now` goes. What is freed does not
/// depend on whether the run is a dry run; only the deletions do.
pub fn sweep_cargo_bin(config: &Gc, entries: &Vec<BinaryEntry>, now: i128) -> (sweep: BinarySweep)
    requires
        total(
            freed_sizes(
                binary_outcomes(entries@, cutoff_spec(now, LONG_AGE_DAYS), names_of(config.preserve_binaries@)),
            ),
        ) <= u64::MAX,
    ensures
        ({
            let outcomes = binary_outcomes(
                entries@,
                cutoff_spec(now, LONG_AGE_DAYS),
                names_of(config.preserve_binaries@),
            );
            &&& sweep.bytes_freed == total(freed_sizes(outcomes))
            &&& sweep.deletions@ == deletions_of(outcomes, config.dry_run)
            &&& config.dry_run ==> sweep.deletions@.len() == 0
            &&& !config.dry_run ==> sweep.deletions@ == picked(outcomes)
        }),
{
    let cutoff = age_cutoff(now, LONG_AGE_DAYS);
    let ghost preserve = names_of(config.preserve_binaries@);
    let mut outcomes: Vec<Option<u64>> = Vec::new();
    let n = entries.len();
    for i in 0..n
        invariant
            n == entries@.len(),
            preserve == names_of(config.preserve_binaries@),
            outcomes@.len() == i,
            forall|j: int| 0 <= j < i ==> outcomes@[j] == binary_outcome(entries@[j], cutoff, preserve),
    {
        outcomes.push(binary_removal(&entries[i], cutoff, &config.preserve_binaries));
    }
    assert(outcomes@ =~= binary_outcomes(entries@, cutoff, preserve));
    let t = tally(&outcomes);
    let deletions = if config.dry_run {
        Vec::new()
    } else {
        t.picks
    };
    BinarySweep { bytes_freed: t.bytes, deletions }
}

/// What a sweep of a registry area removes: files anywhere below it, or its
/// immediate subdirectories.
#[derive(Debug, Clone, Copy, PartialEq, Eq, Structural)]
pub enum SweepKind {
    Files,
    Directories,
}

/// The parts of the cargo home that the registry cleanup sweeps. Nothing
/// else below the cargo home is touched.
#[derive(Debug, Clone, Copy, PartialEq, Eq, Structural)]
pub enum RegistryArea {
    /// `registry/cache`: downloaded crate archives.
    Cache,
    /// `git/checkouts`: checked out git dependencies.
    GitCheckouts,
    /// `git/db`: bare clones of git dependencies.
    GitDb,
    /// `registry/src`: unpacked crate sources.
    Sources,
}

/// The areas, in the order in which they are swept.
pub open spec fn registry_area_order() -> Seq<RegistryArea> {
    seq![RegistryArea::Cache, RegistryArea::GitCheckouts, RegistryArea::GitDb, RegistryArea::Sources]
}

impl RegistryArea {
    /// The area's path below the cargo home, as two components.
    pub open spec fn spec_path(self) -> (Seq<char>, Seq<char>) {
        match self {
            RegistryArea::Cache => ("registry"@, "cache"@),
            RegistryArea::GitCheckouts => ("git"@, "checkouts"@),
            RegistryArea::GitDb => ("git"@, "db"@),
            RegistryArea::Sources => ("registry"@, "src"@),
        }
    }

    pub open spec fn spec_kind(self) -> SweepKind {
        match self {
            RegistryArea::Cache => SweepKind::Files,
            _ => SweepKind::Directories,
        }
    }

    /// The cache follows the configured threshold; the other areas keep
    /// what was touched in the last thirty days.
    pub open spec fn spec_age_threshold_days(self, config: Gc) -> u32 {
        match self {
            RegistryArea::Cache => config.age_threshold_days,
            _ => LONG_AGE_DAYS,
        }
    }

    /// The area's path below the cargo home, as two components.
    pub fn path(&self) -> (p: (&'static str, &'static str))
        ensures
            (p.0@, p.1@) == self.spec_path(),
            *self == RegistryArea::Cache ==> p.0@ == "registry"@ && p.1@ == "cache"@,
            *self == RegistryArea::GitCheckouts ==> p.0@ == "git"@ && p.1@ == "checkouts"@,
            *self == RegistryArea::GitDb ==> p.0@ == "git"@ && p.1@ == "db"@,
            *self == RegistryArea::Sources ==> p.0@ == "registry"@ && p.1@ == "src"@,
    {
        match self {
            RegistryArea::Cache => ("registry", "cache"),
            RegistryArea::GitCheckouts => ("git", "checkouts"),
            RegistryArea::GitDb => ("git", "db"),
            RegistryArea::Sources => ("registry", "src"),
        }
    }

    /// Whether the area is swept file by file or directory by directory.
    pub fn kind(&self) -> (k: SweepKind)
        ensures
            k == self.spec_kind(),
            (k == SweepKind::Files) == (*self == RegistryArea::Cache),
    {
        match self {
            RegistryArea::Cache => SweepKind::Files,
            _ => SweepKind::Directories,
        }
    }

    /// The age, in days, past which the area's entries go.
    pub fn age_threshold_days(&self, config: &Gc) -> (days: u32)
        ensures
            days == self.spec_age_threshold_days(*config),
            *self == RegistryArea::Cache ==> days == config.age_threshold_days,
            *self != RegistryArea::Cache ==> days == 30,
    {
        match self {
            RegistryArea::Cache => config.age_threshold_days,
            _ => LONG_AGE_DAYS,
        }
    }
}

/// The registry areas, in the order in which they are swept.
pub fn registry_areas() -> (areas: Vec<RegistryArea>)
    ensures
        areas@ == registry_area_order(),
        areas@.len() == 4,
        areas@[0] == RegistryArea::Cache,
        areas@[1] == RegistryArea::GitCheckouts,
        areas@[2] == RegistryArea::GitDb,
        areas@[3] == RegistryArea::Sources,
{
    let mut areas: Vec<RegistryArea> = Vec::new();
    areas.push(RegistryArea::Cache);
    areas.push(RegistryArea::GitCheckouts);
    areas.push(RegistryArea::GitDb);
    areas.push(RegistryArea::Sources);
    assert(areas@ =~= registry_area_order());
    areas
}

impl CargoRegistryStats {
    /// Nothing freed yet.
    pub fn new() -> (stats: Self)
        ensures
            stats == (CargoRegistryStats { bytes_freed: 0, files_removed: 0, dirs_removed: 0 }),
    {
        CargoRegistryStats { bytes_freed: 0, files_removed: 0, dirs_removed: 0 }
    }

    /// Adds what the sweep of `area` freed: its bytes, and its files for the
    /// cache or its directories for the other areas.
    pub fn absorb(&mut self, area: RegistryArea, swept: &CleanupStats)
        requires
            old(self).bytes_freed + swept.bytes_freed <= u64::MAX,
            area.spec_kind() == SweepKind::Files ==> old(self).files_removed + swept.files_removed
                <= usize::MAX,
            area.spec_kind() == SweepKind::Directories ==> old(self).dirs_removed + swept.dirs_removed
                <= usize::MAX,
        ensures
            final(self).bytes_freed == old(self).bytes_freed + swept.bytes_freed,
            final(self).files_removed == old(self).files_removed + if area.spec_kind() == SweepKind::Files {
                swept.files_removed
            } else {
                0
            },
            final(self).dirs_removed == old(self).dirs_removed + if area.spec_kind()
                == SweepKind::Directories {
                swept.dirs_removed
            } else {
                0
            },
            area == RegistryArea::Cache ==> final(self).files_removed == old(self).files_removed
                + swept.files_removed && final(self).dirs_removed == old(self).dirs_removed,
            area != RegistryArea::Cache ==> final(self).dirs_removed == old(self).dirs_removed
                + swept.dirs_removed && final(self).files_removed == old(self).files_removed,
    {
        self.bytes_freed = self.bytes_freed + swept.bytes_freed;
        match area.kind() {
            SweepKind::Files => {
                self.files_removed = self.files_removed + swept.files_removed;
            },
            SweepKind::Directories => {
                self.dirs_removed = self.dirs_removed + swept.dirs_removed;
            },
        }
    }
}

/// What the registry cleanup frees over the sweeps of the areas, as
/// (bytes, files, directories): all the bytes, the files of file sweeps and
/// the directories of directory sweeps.
pub open spec fn registry_totals(swept: Seq<(RegistryArea, CleanupStats)>) -> (int, int, int)
    decreases swept.len(),
{
    if swept.len() == 0 {
        (0, 0, 0)
    } else {
        let before = registry_totals(swept.drop_last());
        let (area, stats) = swept.last();
        (
            before.0 + stats.bytes_freed,
            before.1 + if area.spec_kind() == SweepKind::Files {
                stats.files_removed as int
            } else {
                0
            },
            before.2 + if area.spec_kind() == SweepKind::Directories {
                stats.dirs_removed as int
            } else {
                0
            },
        )
    }
}

/// The totals of a prefix of the sweeps do not exceed those of all of them.
proof fn lemma_registry_totals_grow(swept: Seq<(RegistryArea, CleanupStats)>, i: int)
    requires
        0 <= i <= swept.len(),
    ensures
        0 <= registry_totals(swept.take(i)).0 <= registry_totals(swept).0,
        0 <= registry_totals(swept.take(i)).1 <= registry_totals(swept).1,
        0 <= registry_totals(swept.take(i)).2 <= registry_totals(swept).2,
    decreases swept.len(),
{
    if swept.len() > 0 {
        if i == swept.len() {
            assert(swept.take(i) =~= swept);
            lemma_registry_totals_grow(swept.drop_last(), i - 1);
            assert(swept.drop_last().take(i - 1) =~= swept.drop_last());
        } else {
            lemma_registry_totals_grow(swept.drop_last(), i);
            assert(swept.drop_last().take(i) =~= swept.take(i));
        }
    }
}

/// Adds up what the sweeps of the registry areas freed, in the order in
/// which the areas were swept.
pub fn registry_stats(swept: &Vec<(RegistryArea, CleanupStats)>) -> (stats: CargoRegistryStats)
    requires
        registry_totals(swept@).0 <= u64::MAX,
        registry_totals(swept@).1 <= usize::MAX,
        registry_totals(swept@).2 <= usize::MAX,
    ensures
        stats.bytes_freed == registry_totals(swept@).0,
        stats.files_removed == registry_totals(swept@).1,
        stats.dirs_removed == registry_totals(swept@).2,
{
    let mut stats = CargoRegistryStats::new();
    let n = swept.len();
    for i in 0..n
        invariant
            n == swept@.len(),
            registry_totals(swept@).0 <= u64::MAX,
            registry_totals(swept@).1 <= usize::MAX,
            registry_totals(swept@).2 <= usize::MAX,
            stats.bytes_freed == registry_totals(swept@.take(i as int)).0,
            stats.files_removed == registry_totals(swept@.take(i as int)).1,
            stats.dirs_removed == registry_totals(swept@.take(i as int)).2,
    {
        proof {
            lemma_registry_totals_grow(swept@, i + 1);
            assert(swept@.take(i + 1).drop_last() =~= swept@.take(i as int));
        }
        let (area, part) = swept[i];
        stats.absorb(area, &part);
    }
    assert(swept@.take(n as int) =~= swept@);
    stats
}

} // verus!
