//! What holds of every cleanup, whatever the listing.

use vstd::prelude::*;

use crate::gc::cargo::{
    binary_outcome, binary_outcomes, cutoff_spec, dir_outcome, dir_outcomes, file_outcome, file_outcomes,
    kept_binary, kept_prefixes, byte_prefix, deletions_of, registry_totals, BinaryEntry, CleanupStats,
    DirStamp, FileStamp, RegistryArea, SweepKind, NANOS_PER_DAY,
};
use crate::gc::config::Gc;
use vstd::utf8::encode_utf8;
use crate::gc::sweep::{freed_sizes, lemma_nothing_picked, lemma_picked_members, picked, total};

verus! {

/// A file sweep removes exactly the files whose metadata could be read and
/// that were last modified before the cutoff; it counts one removal per
/// freed size.
pub proof fn lemma_file_sweep_takes_exactly_old_files(entries: Seq<Option<FileStamp>>, cutoff: i128)
    requires
        entries.len() <= usize::MAX,
    ensures
        forall|k: int|
            #![trigger entries[k]]
            0 <= k < entries.len() ==> (picked(file_outcomes(entries, cutoff)).contains(k as usize) <==> (
            entries[k] matches Some(s) && s.modified < cutoff)),
        picked(file_outcomes(entries, cutoff)).len() == freed_sizes(file_outcomes(entries, cutoff)).len(),
{
    let outcomes = file_outcomes(entries, cutoff);
    lemma_picked_members(outcomes);
    assert forall|k: int| #![trigger entries[k]] 0 <= k < entries.len() implies (picked(outcomes).contains(k as usize) <==> (entries[k] matches Some(
        s,
    ) && s.modified < cutoff)) by {
        assert(outcomes[k] == file_outcome(entries[k], cutoff));
    }
}

/// A directory sweep removes exactly the directories that were last
/// modified before the cutoff and whose size could be measured.
pub proof fn lemma_dir_sweep_takes_exactly_old_directories(entries: Seq<DirStamp>, cutoff: i128)
    requires
        entries.len() <= usize::MAX,
    ensures
        forall|k: int|
            #![trigger entries[k]]
            0 <= k < entries.len() ==> (picked(dir_outcomes(entries, cutoff)).contains(k as usize) <==> (
            entries[k].modified matches Some(m) && m < cutoff && entries[k].size is Some)),
        picked(dir_outcomes(entries, cutoff)).len() == freed_sizes(dir_outcomes(entries, cutoff)).len(),
{
    let outcomes = dir_outcomes(entries, cutoff);
    lemma_picked_members(outcomes);
    assert forall|k: int| #![trigger entries[k]] 0 <= k < entries.len() implies (picked(outcomes).contains(k as usize) <==> (
    entries[k].modified matches Some(m) && m < cutoff && entries[k].size is Some)) by {
        assert(outcomes[k] == dir_outcome(entries[k], cutoff));
    }
}

/// A binary sweep never removes a kept binary, nor one whose name is not
/// valid UTF-8; it removes exactly the other binaries that were last
/// modified before the cutoff.
pub proof fn lemma_binary_sweep_spares_kept_binaries(
    entries: Seq<BinaryEntry>,
    cutoff: i128,
    preserve: Seq<Seq<char>>,
)
    requires
        entries.len() <= usize::MAX,
    ensures
        forall|k: int|
            #![trigger entries[k]]
            0 <= k < entries.len() ==> (picked(binary_outcomes(entries, cutoff, preserve)).contains(
                k as usize,
            ) <==> ({
                &&& entries[k].name matches Some(name)
                &&& !kept_binary(name@, preserve)
                &&& entries[k].stamp matches Some(s)
                &&& s.modified < cutoff
            })),
{
    let outcomes = binary_outcomes(entries, cutoff, preserve);
    lemma_picked_members(outcomes);
    assert forall|k: int| #![trigger entries[k]] 0 <= k < entries.len() implies (picked(outcomes).contains(k as usize) <==> ({
        &&& entries[k].name matches Some(name)
        &&& !kept_binary(name@, preserve)
        &&& entries[k].stamp matches Some(s)
        &&& s.modified < cutoff
    })) by {
        assert(outcomes[k] == binary_outcome(entries[k], cutoff, preserve));
    }
}

/// A longer age threshold never gives a later cutoff, where the earlier
/// instant can be represented.
pub proof fn lemma_longer_threshold_earlier_cutoff(now: i128, shorter: u32, longer: u32)
    requires
        shorter <= longer,
        now - longer * NANOS_PER_DAY >= i128::MIN,
    ensures
        cutoff_spec(now, longer) <= cutoff_spec(now, shorter),
{
    assert(shorter * NANOS_PER_DAY <= longer * NANOS_PER_DAY) by (nonlinear_arith)
        requires
            shorter <= longer,
    ;
}

/// Raising the age threshold never removes a file that the lower threshold
/// keeps, where the earlier cutoff can be represented.
pub proof fn lemma_longer_threshold_removes_no_more_files(
    entries: Seq<Option<FileStamp>>,
    now: i128,
    shorter: u32,
    longer: u32,
)
    requires
        entries.len() <= usize::MAX,
        shorter <= longer,
        now - longer * NANOS_PER_DAY >= i128::MIN,
    ensures
        forall|k: int|
            0 <= k < entries.len() && #[trigger] picked(
                file_outcomes(entries, cutoff_spec(now, longer)),
            ).contains(k as usize) ==> picked(file_outcomes(entries, cutoff_spec(now, shorter))).contains(
                k as usize,
            ),
{
    lemma_longer_threshold_earlier_cutoff(now, shorter, longer);
    lemma_file_sweep_takes_exactly_old_files(entries, cutoff_spec(now, longer));
    lemma_file_sweep_takes_exactly_old_files(entries, cutoff_spec(now, shorter));
    assert forall|k: int|
        0 <= k < entries.len() && #[trigger] picked(
            file_outcomes(entries, cutoff_spec(now, longer)),
        ).contains(k as usize) implies picked(file_outcomes(entries, cutoff_spec(now, shorter))).contains(
            k as usize,
        ) by {
        assert(entries[k] matches Some(s) && s.modified < cutoff_spec(now, longer));
    }
}

/// Raising the age threshold never removes a directory that the lower
/// threshold keeps, where the earlier cutoff can be represented.
pub proof fn lemma_longer_threshold_removes_no_more_directories(
    entries: Seq<DirStamp>,
    now: i128,
    shorter: u32,
    longer: u32,
)
    requires
        entries.len() <= usize::MAX,
        shorter <= longer,
        now - longer * NANOS_PER_DAY >= i128::MIN,
    ensures
        forall|k: int|
            0 <= k < entries.len() && #[trigger] picked(
                dir_outcomes(entries, cutoff_spec(now, longer)),
            ).contains(k as usize) ==> picked(dir_outcomes(entries, cutoff_spec(now, shorter))).contains(
                k as usize,
            ),
{
    lemma_longer_threshold_earlier_cutoff(now, shorter, longer);
    lemma_dir_sweep_takes_exactly_old_directories(entries, cutoff_spec(now, longer));
    lemma_dir_sweep_takes_exactly_old_directories(entries, cutoff_spec(now, shorter));
    assert forall|k: int|
        0 <= k < entries.len() && #[trigger] picked(
            dir_outcomes(entries, cutoff_spec(now, longer)),
        ).contains(k as usize) implies picked(dir_outcomes(entries, cutoff_spec(now, shorter))).contains(
            k as usize,
        ) by {
        assert(entries[k].modified matches Some(m) && m < cutoff_spec(now, longer));
    }
}

/// Sweeping again, with the same cutoff, the files that a sweep left
/// removes nothing and frees nothing.
pub proof fn lemma_second_file_sweep_removes_nothing(entries: Seq<Option<FileStamp>>, cutoff: i128)
    ensures
        ({
            let left = entries.filter(|e: Option<FileStamp>| file_outcome(e, cutoff) is None);
            &&& picked(file_outcomes(left, cutoff)) == Seq::<usize>::empty()
            &&& total(freed_sizes(file_outcomes(left, cutoff))) == 0
        }),
{
    let pred = |e: Option<FileStamp>| file_outcome(e, cutoff) is None;
    let left = entries.filter(pred);
    broadcast use vstd::seq_lib::group_filter_ensures;

    let outcomes = file_outcomes(left, cutoff);
    assert forall|k: int| 0 <= k < outcomes.len() implies outcomes[k] is None by {
        assert(pred(left[k]));
    }
    lemma_nothing_picked(outcomes);
}

/// Sweeping again, with the same cutoff, the directories that a sweep left
/// removes nothing and frees nothing.
pub proof fn lemma_second_dir_sweep_removes_nothing(entries: Seq<DirStamp>, cutoff: i128)
    ensures
        ({
            let left = entries.filter(|e: DirStamp| dir_outcome(e, cutoff) is None);
            &&& picked(dir_outcomes(left, cutoff)) == Seq::<usize>::empty()
            &&& total(freed_sizes(dir_outcomes(left, cutoff))) == 0
        }),
{
    let pred = |e: DirStamp| dir_outcome(e, cutoff) is None;
    let left = entries.filter(pred);
    broadcast use vstd::seq_lib::group_filter_ensures;

    let outcomes = dir_outcomes(left, cutoff);
    assert forall|k: int| 0 <= k < outcomes.len() implies outcomes[k] is None by {
        assert(pred(left[k]));
    }
    lemma_nothing_picked(outcomes);
}

/// Sweeping again, with the same cutoff and preserved names, the binaries
/// that a sweep left removes nothing and frees nothing.
pub proof fn lemma_second_binary_sweep_removes_nothing(
    entries: Seq<BinaryEntry>,
    cutoff: i128,
    preserve: Seq<Seq<char>>,
)
    ensures
        ({
            let left = entries.filter(|e: BinaryEntry| binary_outcome(e, cutoff, preserve) is None);
            &&& picked(binary_outcomes(left, cutoff, preserve)) == Seq::<usize>::empty()
            &&& total(freed_sizes(binary_outcomes(left, cutoff, preserve))) == 0
        }),
{
    let pred = |e: BinaryEntry| binary_outcome(e, cutoff, preserve) is None;
    let left = entries.filter(pred);
    broadcast use vstd::seq_lib::group_filter_ensures;

    let outcomes = binary_outcomes(left, cutoff, preserve);
    assert forall|k: int| 0 <= k < outcomes.len() implies outcomes[k] is None by {
        assert(pred(left[k]));
    }
    lemma_nothing_picked(outcomes);
}

/// The registry cleanup stays below `registry` and `git` in the cargo
/// home: no area is, or lies below, a top-level file such as
/// `credentials.toml`.
pub proof fn lemma_registry_areas_stay_below_registry_and_git(area: RegistryArea)
    ensures
        area.spec_path().0 == "registry"@ || area.spec_path().0 == "git"@,
        area.spec_path().0 != "credentials.toml"@,
{
    reveal_strlit("registry");
    reveal_strlit("git");
    reveal_strlit("credentials.toml");
    assert("registry"@.len() != "credentials.toml"@.len());
    assert("git"@.len() != "credentials.toml"@.len());
}

/// The name starts, byte for byte in UTF-8, with one of the toolchain's
/// names, or with one of the preserved names.
pub open spec fn starts_with_toolchain_or_preserved(name: Seq<char>, preserve: Seq<Seq<char>>) -> bool {
        ||| byte_prefix(encode_utf8("cargo"@), encode_utf8(name))
        ||| byte_prefix(encode_utf8("rustc"@), encode_utf8(name))
        ||| byte_prefix(encode_utf8("clippy"@), encode_utf8(name))
        ||| byte_prefix(encode_utf8("sccache"@), encode_utf8(name))
        ||| byte_prefix(encode_utf8("cargo-nextest"@), encode_utf8(name))
        ||| byte_prefix(encode_utf8("cargo-make"@), encode_utf8(name))
        ||| byte_prefix(encode_utf8("cargo-binstall"@), encode_utf8(name))
        ||| byte_prefix(encode_utf8("wild"@), encode_utf8(name))
        ||| byte_prefix(encode_utf8("rustdoc"@), encode_utf8(name))
        ||| byte_prefix(encode_utf8("rustup"@), encode_utf8(name))
        ||| byte_prefix(encode_utf8("rls"@), encode_utf8(name))
        ||| byte_prefix(encode_utf8("rust-analyzer"@), encode_utf8(name))
        ||| byte_prefix(encode_utf8("rust-gdbgui"@), encode_utf8(name))
        ||| byte_prefix(encode_utf8("rust-lldb"@), encode_utf8(name))
        ||| byte_prefix(encode_utf8("rustfmt"@), encode_utf8(name))
        ||| byte_prefix(encode_utf8("rust-gdb"@), encode_utf8(name))
        ||| byte_prefix(encode_utf8("cargo-hold"@), encode_utf8(name))
        ||| exists|i: int| 0 <= i < preserve.len() && byte_prefix(encode_utf8(preserve[i]), encode_utf8(name))
}

/// A binary is kept exactly when its name starts with "cargo", "rustc",
/// "clippy", "sccache", "cargo-nextest", "cargo-make", "cargo-binstall",
/// "wild", "rustdoc", "rustup", "rls", "rust-analyzer", "rust-gdbgui",
/// "rust-lldb", "rustfmt", "rust-gdb" or "cargo-hold", or with a preserved
/// name; such a binary is kept whatever its age.
pub proof fn lemma_toolchain_binaries_are_kept(name: Seq<char>, preserve: Seq<Seq<char>>)
    ensures
        kept_binary(name, preserve) <==> starts_with_toolchain_or_preserved(name, preserve),
{
    let k = kept_prefixes();
    assert(k[0] == "cargo"@);
    assert(k[1] == "rustc"@);
    assert(k[2] == "clippy"@);
    assert(k[3] == "sccache"@);
    assert(k[4] == "cargo-nextest"@);
    assert(k[5] == "cargo-make"@);
    assert(k[6] == "cargo-binstall"@);
    assert(k[7] == "wild"@);
    assert(k[8] == "rustdoc"@);
    assert(k[9] == "rustup"@);
    assert(k[10] == "rls"@);
    assert(k[11] == "rust-analyzer"@);
    assert(k[12] == "rust-gdbgui"@);
    assert(k[13] == "rust-lldb"@);
    assert(k[14] == "rustfmt"@);
    assert(k[15] == "rust-gdb"@);
    assert(k[16] == "cargo-hold"@);
    assert(k.len() == 17);
    if kept_binary(name, preserve) {
        if exists|i: int| 0 <= i < k.len() && byte_prefix(encode_utf8(k[i]), encode_utf8(name)) {
            let i = choose|i: int| 0 <= i < k.len() && byte_prefix(encode_utf8(k[i]), encode_utf8(name));
            assert(0 <= i < 17);
        }
    }
    if starts_with_toolchain_or_preserved(name, preserve) {
        if byte_prefix(encode_utf8("cargo"@), encode_utf8(name)) { assert(byte_prefix(encode_utf8(k[0]), encode_utf8(name))); }
        if byte_prefix(encode_utf8("rustc"@), encode_utf8(name)) { assert(byte_prefix(encode_utf8(k[1]), encode_utf8(name))); }
        if byte_prefix(encode_utf8("clippy"@), encode_utf8(name)) { assert(byte_prefix(encode_utf8(k[2]), encode_utf8(name))); }
        if byte_prefix(encode_utf8("sccache"@), encode_utf8(name)) { assert(byte_prefix(encode_utf8(k[3]), encode_utf8(name))); }
        if byte_prefix(encode_utf8("cargo-nextest"@), encode_utf8(name)) { assert(byte_prefix(encode_utf8(k[4]), encode_utf8(name))); }
        if byte_prefix(encode_utf8("cargo-make"@), encode_utf8(name)) { assert(byte_prefix(encode_utf8(k[5]), encode_utf8(name))); }
        if byte_prefix(encode_utf8("cargo-binstall"@), encode_utf8(name)) { assert(byte_prefix(encode_utf8(k[6]), encode_utf8(name))); }
        if byte_prefix(encode_utf8("wild"@), encode_utf8(name)) { assert(byte_prefix(encode_utf8(k[7]), encode_utf8(name))); }
        if byte_prefix(encode_utf8("rustdoc"@), encode_utf8(name)) { assert(byte_prefix(encode_utf8(k[8]), encode_utf8(name))); }
        if byte_prefix(encode_utf8("rustup"@), encode_utf8(name)) { assert(byte_prefix(encode_utf8(k[9]), encode_utf8(name))); }
        if byte_prefix(encode_utf8("rls"@), encode_utf8(name)) { assert(byte_prefix(encode_utf8(k[10]), encode_utf8(name))); }
        if byte_prefix(encode_utf8("rust-analyzer"@), encode_utf8(name)) { assert(byte_prefix(encode_utf8(k[11]), encode_utf8(name))); }
        if byte_prefix(encode_utf8("rust-gdbgui"@), encode_utf8(name)) { assert(byte_prefix(encode_utf8(k[12]), encode_utf8(name))); }
        if byte_prefix(encode_utf8("rust-lldb"@), encode_utf8(name)) { assert(byte_prefix(encode_utf8(k[13]), encode_utf8(name))); }
        if byte_prefix(encode_utf8("rustfmt"@), encode_utf8(name)) { assert(byte_prefix(encode_utf8(k[14]), encode_utf8(name))); }
        if byte_prefix(encode_utf8("rust-gdb"@), encode_utf8(name)) { assert(byte_prefix(encode_utf8(k[15]), encode_utf8(name))); }
        if byte_prefix(encode_utf8("cargo-hold"@), encode_utf8(name)) { assert(byte_prefix(encode_utf8(k[16]), encode_utf8(name))); }
    }
}

/// The cutoff of a threshold of `days` days lies exactly `days` times
/// 86,400,000,000,000 nanoseconds before `now`; where that instant does not
/// fit, the cutoff is the epoch.
pub proof fn lemma_cutoff_is_days_before_now(now: i128, days: u32)
    ensures
        now - days * 86_400_000_000_000 >= i128::MIN ==> cutoff_spec(now, days) == now - days
            * 86_400_000_000_000,
        now - days * 86_400_000_000_000 < i128::MIN ==> cutoff_spec(now, days) == 0,
{
}

/// The cache follows the configured threshold and is swept file by file;
/// git checkouts, git databases and unpacked sources keep exactly thirty
/// days, whatever the configuration, and are swept directory by directory.
pub proof fn lemma_area_thresholds(area: RegistryArea, config: Gc)
    ensures
        area == RegistryArea::Cache ==> area.spec_age_threshold_days(config) == config.age_threshold_days,
        area == RegistryArea::Cache ==> area.spec_kind() == SweepKind::Files,
        area != RegistryArea::Cache ==> area.spec_age_threshold_days(config) == 30,
        area != RegistryArea::Cache ==> area.spec_kind() == SweepKind::Directories,
{
}

/// Registry totals are plain sums over the sweeps: nothing swept, nothing
/// freed; one more sweep of any area adds all its bytes, its files when it
/// is the cache, and its directories otherwise.
pub proof fn lemma_registry_totals_add_each_sweep(
    swept: Seq<(RegistryArea, CleanupStats)>,
    area: RegistryArea,
    stats: CleanupStats,
)
    ensures
        registry_totals(Seq::<(RegistryArea, CleanupStats)>::empty()) == (0int, 0int, 0int),
        registry_totals(swept.push((area, stats))).0 == registry_totals(swept).0 + stats.bytes_freed,
        area == RegistryArea::Cache ==> registry_totals(swept.push((area, stats))).1 == registry_totals(
            swept,
        ).1 + stats.files_removed && registry_totals(swept.push((area, stats))).2 == registry_totals(
            swept,
        ).2,
        area != RegistryArea::Cache ==> registry_totals(swept.push((area, stats))).2 == registry_totals(
            swept,
        ).2 + stats.dirs_removed && registry_totals(swept.push((area, stats))).1 == registry_totals(
            swept,
        ).1,
{
    assert(swept.push((area, stats)).drop_last() =~= swept);
}

/// A run that is not a dry run deletes every entry that goes and nothing
/// else, one deletion per freed size; a dry run deletes nothing.
pub proof fn lemma_real_run_deletes_all_that_goes(outcomes: Seq<Option<u64>>)
    requires
        outcomes.len() <= usize::MAX,
    ensures
        forall|k: int|
            #![trigger outcomes[k]]
            0 <= k < outcomes.len() ==> (deletions_of(outcomes, false).contains(k as usize) <==> outcomes[k] is Some),
        forall|j: int| 0 <= j < deletions_of(outcomes, false).len() ==> deletions_of(outcomes, false)[j] < outcomes.len(),
        deletions_of(outcomes, false).len() == freed_sizes(outcomes).len(),
        deletions_of(outcomes, true).len() == 0,
{
    lemma_picked_members(outcomes);
}

/// One byte string is a prefix of another exactly when the other is it
/// followed by some bytes.
pub proof fn lemma_byte_prefix_means_prefix(prefix: Seq<u8>, bytes: Seq<u8>)
    ensures
        byte_prefix(prefix, bytes) <==> exists|rest: Seq<u8>| bytes == prefix + rest,
{
    if byte_prefix(prefix, bytes) {
        let rest = bytes.subrange(prefix.len() as int, bytes.len() as int);
        assert(bytes =~= prefix + rest);
    }
    if exists|rest: Seq<u8>| bytes == prefix + rest {
        let rest = choose|rest: Seq<u8>| bytes == prefix + rest;
        assert(bytes.subrange(0, prefix.len() as int) =~= prefix);
    }
}

} // verus!
