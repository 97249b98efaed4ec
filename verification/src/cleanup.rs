//! The cleanup before a proof: its order, and what it writes to the log.

use vstd::prelude::*;
use vstd::string::*;
use crate::megabytes::{one_decimal, one_decimal_text};

verus! {

/// A directory whose subdirectories are reported.
#[derive(Clone, Copy, Debug, PartialEq, Eq, Structural)]
pub enum Container {
    /// The directory that holds the one for temporary files.
    ParentOfTempDir,
    /// The directory for temporary files itself.
    TempDir,
}

/// One step of the cleanup.
#[derive(Clone, Copy, Debug, PartialEq, Eq, Structural)]
pub enum CleanupStep {
    /// Remove what the directory for temporary files holds.
    EmptyTempDir,
    /// Report the bytes that this freed.
    ReportFreed,
    /// Report the byte totals of the directory's subdirectories.
    ReportContainer(Container),
}

/// The steps of the cleanup, in order. Data accumulates in the app container, which is the parent
/// of the directory for temporary files; where that has no parent, it stands for the container.
pub open spec fn cleanup_schedule(has_parent: bool) -> Seq<CleanupStep> {
    seq![
        CleanupStep::EmptyTempDir,
        CleanupStep::ReportFreed,
        CleanupStep::ReportContainer(
            if has_parent {
                Container::ParentOfTempDir
            } else {
                Container::TempDir
            },
        ),
    ]
}

/// The steps of the cleanup; `has_parent` says whether the directory for temporary files has a
/// parent.
pub fn cleanup_steps(has_parent: bool) -> (steps: Vec<CleanupStep>)
    ensures
        steps@ == cleanup_schedule(has_parent),
{
    let container = if has_parent {
        Container::ParentOfTempDir
    } else {
        Container::TempDir
    };
    let steps: Vec<CleanupStep> = vec![
        CleanupStep::EmptyTempDir,
        CleanupStep::ReportFreed,
        CleanupStep::ReportContainer(container),
    ];
    assert(steps@ =~= cleanup_schedule(has_parent));
    steps
}

/// The line that reports a cleanup of `tmp_dir`; there is one only if bytes were freed.
pub open spec fn cleaned_line(removed_bytes: u64, tmp_dir: Seq<char>) -> Option<Seq<char>> {
    if removed_bytes > 0 {
        Some(
            "Cleaned "@ + one_decimal_text(removed_bytes as nat) + " MB of stale temp files from "@
                + tmp_dir,
        )
    } else {
        None
    }
}

/// The log line after `removed_bytes` were removed from the directory for temporary files.
pub fn cleanup_stale_tmp_files(removed_bytes: u64, tmp_dir: &str) -> (line: Option<String>)
    ensures
        line is Some <==> cleaned_line(removed_bytes, tmp_dir@) is Some,
        line matches Some(l) ==> cleaned_line(removed_bytes, tmp_dir@) == Some(l@),
        line is Some <==> removed_bytes > 0,
        line matches Some(l) ==> l@ == "Cleaned "@ + one_decimal_text(removed_bytes as nat)
            + " MB of stale temp files from "@ + tmp_dir@,
{
    if removed_bytes > 0 {
        let mut line = "Cleaned ".to_owned();
        line.append(one_decimal(removed_bytes).as_str());
        line.append(" MB of stale temp files from ");
        line.append(tmp_dir);
        Some(line)
    } else {
        None
    }
}

/// An entry of the app container.
#[derive(Debug)]
pub struct ContainerEntry {
    /// The entry's name, quoted.
    pub name: String,
    /// Bytes below the entry, if it is a directory.
    pub size: Option<u64>,
}

/// The line that reports an entry; directories have one, with their byte total.
pub open spec fn container_line(entry: ContainerEntry) -> Option<Seq<char>> {
    match entry.size {
        Some(size) => Some(
            "Container dir "@ + entry.name@ + ": "@ + one_decimal_text(size as nat) + " MB"@,
        ),
        None => None,
    }
}

/// The lines that report the entries of a container, in order.
pub open spec fn container_lines(entries: Seq<ContainerEntry>) -> Seq<Seq<char>>
    decreases entries.len(),
{
    if entries.len() == 0 {
        Seq::empty()
    } else {
        let before = container_lines(entries.drop_last());
        match container_line(entries.last()) {
            Some(line) => before.push(line),
            None => before,
        }
    }
}

/// The log lines with the byte total of each immediate subdirectory of the app container, which
/// show where data accumulates.
pub fn report_dir_sizes(entries: &Vec<ContainerEntry>) -> (lines: Vec<String>)
    ensures
        lines.deep_view() == container_lines(entries@),
{
    let mut lines: Vec<String> = Vec::new();
    let mut i: usize = 0;
    assert(lines.deep_view() =~= container_lines(entries@.take(0)));
    while i < entries.len()
        invariant
            i <= entries@.len(),
            lines.deep_view() == container_lines(entries@.take(i as int)),
        decreases entries@.len() - i,
    {
        let entry = &entries[i];
        let ghost before = lines.deep_view();
        proof {
            assert(entries@.take(i + 1).drop_last() =~= entries@.take(i as int));
            assert(entries@.take(i + 1).last() == *entry);
        }
        match entry.size {
            Some(size) => {
                let mut line = "Container dir ".to_owned();
                line.append(entry.name.as_str());
                line.append(": ");
                line.append(one_decimal(size).as_str());
                line.append(" MB");
                lines.push(line);
                assert(lines.deep_view() =~= before.push(container_line(*entry)->0));
            },
            None => {},
        }
        i = i + 1;
    }
    assert(entries@.take(i as int) =~= entries@);
    lines
}

/// Every directory of the container is reported, once, and nothing else is.
pub proof fn every_directory_is_reported(entries: Seq<ContainerEntry>, line: Seq<char>)
    ensures
        container_lines(entries).len() == entries.filter(
            |entry: ContainerEntry| entry.size is Some,
        ).len(),
        container_lines(entries).contains(line) <==> exists|i: int|
            0 <= i < entries.len() && container_line(#[trigger] entries[i]) == Some(line),
    decreases entries.len(),
{
    reveal(Seq::filter);
    let found = exists|i: int|
        0 <= i < entries.len() && container_line(#[trigger] entries[i]) == Some(line);
    if entries.len() > 0 {
        let front = entries.drop_last();
        let before = container_lines(front);
        let all = container_lines(entries);
        every_directory_is_reported(front, line);
        if all.contains(line) {
            let k = choose|k: int| 0 <= k < all.len() && all[k] == line;
            if k < before.len() {
                assert(before[k] == line);
                let i = choose|i: int|
                    0 <= i < front.len() && container_line(#[trigger] front[i]) == Some(line);
                assert(entries[i] == front[i]);
            } else {
                assert(container_line(entries[entries.len() - 1]) == Some(line));
            }
        }
        if found {
            let i = choose|i: int|
                0 <= i < entries.len() && container_line(#[trigger] entries[i]) == Some(line);
            if i < front.len() {
                assert(container_line(front[i]) == Some(line));
                let k = choose|k: int| 0 <= k < before.len() && before[k] == line;
                assert(all[k] == line);
            } else {
                assert(all[before.len() as int] == line);
            }
        }
    }
}

/// A cleanup that freed bytes, however few, is reported with their number and the directory; one
/// that freed none is not.
pub proof fn freed_bytes_are_reported(removed_bytes: u64, tmp_dir: Seq<char>)
    ensures
        cleaned_line(0, tmp_dir) is None,
        removed_bytes > 0 ==> cleaned_line(removed_bytes, tmp_dir) == Some(
            "Cleaned "@ + one_decimal_text(removed_bytes as nat) + " MB of stale temp files from "@
                + tmp_dir,
        ),
{
}

/// The line on a directory holds its name and its byte total, however small or large; other entries
/// have no line.
pub proof fn directory_lines_hold_name_and_total(entry: ContainerEntry)
    ensures
        entry.size is None ==> container_line(entry) is None,
        entry.size matches Some(size) ==> container_line(entry) == Some(
            "Container dir "@ + entry.name@ + ": "@ + one_decimal_text(size as nat) + " MB"@,
        ),
{
}

/// The lines come in the order of the entries: those of two lists put together are the lines of the
/// first, then the lines of the second, and one entry gives its own line.
pub proof fn directories_are_reported_in_order(first: Seq<ContainerEntry>, second: Seq<ContainerEntry>)
    ensures
        container_lines(first + second) == container_lines(first) + container_lines(second),
        first.len() == 1 ==> container_lines(first) == match container_line(first[0]) {
            Some(line) => seq![line],
            None => Seq::<Seq<char>>::empty(),
        },
    decreases second.len(),
{
    if first.len() == 1 {
        assert(first.drop_last() =~= Seq::<ContainerEntry>::empty());
        assert(container_lines(first.drop_last()) =~= Seq::<Seq<char>>::empty());
        assert(container_lines(first) =~= match container_line(first[0]) {
            Some(line) => seq![line],
            None => Seq::<Seq<char>>::empty(),
        });
    }
    if second.len() == 0 {
        assert(first + second =~= first);
        assert(container_lines(first) + container_lines(second) =~= container_lines(first));
    } else {
        let front = second.drop_last();
        directories_are_reported_in_order(first, front);
        assert((first + second).drop_last() =~= first + front);
        assert((first + second).last() == second.last());
        assert(container_lines(first + second) =~= container_lines(first) + container_lines(
            second,
        ));
    }
}

/// The directory for temporary files is emptied before anything is reported, the freed bytes are
/// reported before the container, and the container is the parent directory where there is one.
pub proof fn cleanup_empties_first(has_parent: bool)
    ensures
        cleanup_schedule(has_parent).len() == 3,
        cleanup_schedule(has_parent)[0] is EmptyTempDir,
        cleanup_schedule(has_parent)[1] is ReportFreed,
        cleanup_schedule(has_parent)[2] matches CleanupStep::ReportContainer(container) && (
        container is ParentOfTempDir <==> has_parent),
{
}

} // verus!
