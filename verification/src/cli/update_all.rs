//! `update-all`: where the collections are, how a run is shown and reported.

use crate::cli::vector::visited;
use crate::config::collections::{Collections, EntryList};
use crate::config::dirs::{
    expand_tilde_from, expands_to, home_dir, home_text, spoken, str_view, Home,
};
use crate::config::error::ConfigError;
use crate::config::schema::{RuntimeConfig, MAX_EMBED_PARALLELISM};
use crate::embedding::{EmbedError, ModelCacheError};
use crate::ingest::error::IngestError;
use crate::ingest::writer::UpdateSummary;
use crate::paths::{same_path, same_path_spec};
use crate::reading::{
    find_number, find_passes, find_skips, number_behind, number_is_plain, regroup_three,
};
use crate::text::{decimal, decimal_spec, is_digit};
use vstd::prelude::*;
use vstd::string::StringExecFns;

verus! {

/// Why a run failed.
#[derive(Debug)]
pub enum UpdateAllError {
    Config(ConfigError),
    ModelCache(ModelCacheError),
    Embedding(EmbedError),
    Ingest(IngestError),
    FilesFailed(u64),
}

impl UpdateAllError {
    /// The text shown to the user.
    pub open spec fn message_spec(self) -> Seq<char> {
        match self {
            UpdateAllError::Config(e) => e.message_spec(),
            UpdateAllError::ModelCache(e) => e.message_spec(),
            UpdateAllError::Embedding(e) => e.message_spec(),
            UpdateAllError::Ingest(e) => e.message_spec(),
            UpdateAllError::FilesFailed(n) => decimal_spec(n as nat)
                + " file(s) failed during ingest — check warnings above for details"@,
        }
    }

    /// The text shown to the user.
    pub fn message(&self) -> (text: String)
        ensures
            text@ == self.message_spec(),
    {
        match self {
            UpdateAllError::Config(e) => e.message(),
            UpdateAllError::ModelCache(e) => e.message(),
            UpdateAllError::Embedding(e) => e.message(),
            UpdateAllError::Ingest(e) => e.message(),
            UpdateAllError::FilesFailed(n) => {
                let mut text: String = decimal(*n);
                text.append(" file(s) failed during ingest — check warnings above for details");
                text
            },
        }
    }
}

/// Files at a time, and whether the configured number was cut.
pub fn resolve_embed_parallelism(runtime: &RuntimeConfig) -> (resolved: (usize, bool))
    ensures
        resolved.0 == (if runtime.embed_parallelism <= MAX_EMBED_PARALLELISM {
            runtime.embed_parallelism
        } else {
            MAX_EMBED_PARALLELISM
        }),
        resolved.1 == (runtime.embed_parallelism > MAX_EMBED_PARALLELISM),
{
    let capped: usize = runtime.embed_parallelism_capped();
    (capped, capped < runtime.embed_parallelism)
}

/// A collection and the directory that it is in.
#[derive(Debug, Clone, PartialEq, Eq)]
pub struct CollectionRoot {
    pub name: String,
    pub root: String,
}

/// `roots` are the collections and their directories, in order: each path with
/// a leading `~` replaced by the home directory.
pub open spec fn are_roots(
    list: EntryList,
    home: Option<Seq<char>>,
    roots: Seq<CollectionRoot>,
) -> bool {
    &&& roots.len() == list.len()
    &&& forall|i: int|
        0 <= i < roots.len() ==> {
            &&& (#[trigger] roots[i]).name@ == list[i].0
            &&& expands_to(list[i].1.path, home, roots[i].root@)
        }
}

/// The collections and their directories, in order, with this home directory.
pub fn expand_collection_paths_from(collections: &Collections, home: Option<&str>) -> (roots: Vec<
    CollectionRoot,
>)
    ensures
        are_roots(collections.list(), str_view(home), roots@),
{
    let count: usize = collections.len();
    let mut roots: Vec<CollectionRoot> = Vec::new();
    for i in 0..count
        invariant
            count == collections.list().len(),
            roots@.len() == i,
            forall|j: int|
                0 <= j < i ==> {
                    let pair = collections.list()[j];
                    &&& (#[trigger] roots@[j]).name@ == pair.0
                    &&& expands_to(pair.1.path, str_view(home), roots@[j].root@)
                },
    {
        roots.push(
            CollectionRoot {
                name: collections.name_at(i).clone(),
                root: expand_tilde_from(collections.entry_at(i).path.as_str(), home),
            },
        );
    }
    roots
}

/// The collections and their directories, in order, with the user's home
/// directory, which is one for all of them.
pub fn expand_collection_paths(collections: &Collections) -> (roots: Vec<CollectionRoot>)
    ensures
        exists|home: Option<Seq<char>>| #[trigger] are_roots(collections.list(), home, roots@),
{
    let home: Home = home_dir();
    let roots: Vec<CollectionRoot> = expand_collection_paths_from(collections, spoken(&home));
    proof {
        assert(are_roots(collections.list(), home_text(home@), roots@));
    }
    roots
}

/// The line that reports a run.
pub open spec fn summary_line(s: UpdateSummary) -> Seq<char> {
    "Indexed "@ + decimal_spec(visited(s) as nat) + " documents (new: "@ + decimal_spec(
        s.new as nat,
    ) + ", updated: "@ + decimal_spec(s.updated as nat) + ", skipped: "@ + decimal_spec(
        s.skipped as nat,
    ) + ", removed: "@ + decimal_spec(s.removed as nat) + ", failed: "@ + decimal_spec(
        s.failed as nat,
    ) + ")."@
}

/// The line that reports a run.
pub fn format_summary(s: &UpdateSummary) -> (text: String)
    requires
        visited(*s) <= u64::MAX,
    ensures
        text@ == summary_line(*s),
{
    let total: u64 = s.new + s.updated + s.skipped + s.failed;
    let mut text: String = "Indexed ".to_string();
    text.append(decimal(total).as_str());
    text.append(" documents (new: ");
    text.append(decimal(s.new).as_str());
    text.append(", updated: ");
    text.append(decimal(s.updated).as_str());
    text.append(", skipped: ");
    text.append(decimal(s.skipped).as_str());
    text.append(", removed: ");
    text.append(decimal(s.removed).as_str());
    text.append(", failed: ");
    text.append(decimal(s.failed).as_str());
    text.append(").");
    text
}

/// How a run is reported to the shell: as failed where a file failed.
pub fn run_result(s: &UpdateSummary) -> (result: Result<(), UpdateAllError>)
    ensures
        match result {
            Ok(_) => s.failed == 0,
            Err(e) => s.failed > 0 && e == UpdateAllError::FilesFailed(s.failed),
        },
{
    if s.failed > 0 {
        Err(UpdateAllError::FilesFailed(s.failed))
    } else {
        Ok(())
    }
}

/// The lines on which the files in work are shown, and the count of those that
/// are finished.
#[derive(Debug)]
pub struct SlotPool {
    pub slots: Vec<Option<String>>,
    pub finished: u64,
}

/// The path on each line.
pub open spec fn shown(slots: Seq<Option<String>>) -> Seq<Option<Seq<char>>> {
    slots.map_values(
        |s: Option<String>|
            match s {
                Some(path) => Some(path@),
                None => None::<Seq<char>>,
            },
    )
}

/// Line `i` is the first that is free.
pub open spec fn first_free(lines: Seq<Option<Seq<char>>>, i: int) -> bool {
    &&& 0 <= i < lines.len()
    &&& lines[i] is None
    &&& forall|j: int| 0 <= j < i ==> #[trigger] lines[j] is Some
}

/// The line shows this path.
pub open spec fn shows(line: Option<Seq<char>>, path: Seq<char>) -> bool {
    line is Some && same_path_spec(line->Some_0, path)
}

/// Line `i` is the first that shows this path.
pub open spec fn first_showing(lines: Seq<Option<Seq<char>>>, path: Seq<char>, i: int) -> bool {
    &&& 0 <= i < lines.len()
    &&& shows(lines[i], path)
    &&& forall|j: int| 0 <= j < i ==> !shows(#[trigger] lines[j], path)
}

impl SlotPool {
    /// As many free lines as files at a time; at least one.
    pub fn with_parallelism(parallelism: usize) -> (pool: Self)
        ensures
            shown(pool.slots@) == Seq::new(
                (if parallelism == 0 {
                    1
                } else {
                    parallelism as int
                }) as nat,
                |i: int| None::<Seq<char>>,
            ),
            pool.finished == 0,
    {
        let size: usize = if parallelism == 0 {
            1
        } else {
            parallelism
        };
        let mut slots: Vec<Option<String>> = Vec::new();
        for i in 0..size
            invariant
                slots@.len() == i,
                forall|j: int| 0 <= j < i ==> #[trigger] slots@[j] is None,
        {
            slots.push(None);
        }
        proof {
            assert(shown(slots@) =~= Seq::new(size as nat, |i: int| None::<Seq<char>>));
        }
        SlotPool { slots, finished: 0 }
    }

    /// Shows a path on the first free line; where none is free, nothing
    /// changes.
    pub fn start_file(&mut self, path: &str) -> (line: Option<usize>)
        ensures
            final(self).finished == old(self).finished,
            match line {
                Some(i) => first_free(shown(old(self).slots@), i as int) && shown(
                    final(self).slots@,
                ) == shown(old(self).slots@).update(i as int, Some(path@)),
                None => final(self).slots == old(self).slots && forall|j: int|
                    0 <= j < old(self).slots@.len() ==> #[trigger] shown(
                        old(self).slots@,
                    )[j] is Some,
            },
    {
        let ghost lines = shown(self.slots@);
        let count: usize = self.slots.len();
        for i in 0..count
            invariant
                count == self.slots@.len(),
                lines == shown(self.slots@),
                self.slots == old(self).slots,
                self.finished == old(self).finished,
                forall|j: int| 0 <= j < i ==> #[trigger] lines[j] is Some,
        {
            if self.slots[i].is_none() {
                self.slots.set(i, Some(path.to_string()));
                proof {
                    assert(first_free(lines, i as int));
                    assert(shown(self.slots@) =~= lines.update(i as int, Some(path@)));
                }
                return Some(i);
            }
        }
        None
    }

    /// Frees the line of a path and counts the file, whether it was shown or
    /// not.
    pub fn finish_file(&mut self, path: &str) -> (line: Option<usize>)
        requires
            old(self).finished < u64::MAX,
        ensures
            final(self).finished == old(self).finished + 1,
            match line {
                Some(i) => first_showing(shown(old(self).slots@), path@, i as int) && shown(
                    final(self).slots@,
                ) == shown(old(self).slots@).update(i as int, None),
                None => final(self).slots == old(self).slots && forall|j: int|
                    0 <= j < old(self).slots@.len() ==> !shows(
                        #[trigger] shown(old(self).slots@)[j],
                        path@,
                    ),
            },
    {
        self.finished = self.finished + 1;
        let ghost lines = shown(self.slots@);
        let count: usize = self.slots.len();
        for i in 0..count
            invariant
                count == self.slots@.len(),
                lines == shown(self.slots@),
                self.slots == old(self).slots,
                self.finished == old(self).finished + 1,
                forall|j: int| 0 <= j < i ==> !shows(#[trigger] lines[j], path@),
        {
            let hit: bool = match &self.slots[i] {
                Some(here) => same_path(here.as_str(), path),
                None => false,
            };
            proof {
                assert(hit == shows(lines[i as int], path@));
            }
            if hit {
                self.slots.set(i, None);
                proof {
                    assert(first_showing(lines, path@, i as int));
                    assert(shown(self.slots@) =~= lines.update(i as int, None));
                }
                return Some(i);
            }
        }
        None
    }
}

/// A file that gets a line gives it back: where no other line shows its path,
/// the lines are as before once it is finished.
pub proof fn finish_undoes_start(
    lines: Seq<Option<Seq<char>>>,
    path: Seq<char>,
    at: int,
    freed: int,
)
    requires
        first_free(lines, at),
        forall|j: int| 0 <= j < lines.len() ==> !shows(#[trigger] lines[j], path),
        first_showing(lines.update(at, Some(path)), path, freed),
    ensures
        freed == at,
        lines.update(at, Some(path)).update(freed, None) == lines,
{
    let busy = lines.update(at, Some(path));
    assert(shows(busy[at], path));
    if freed != at {
        assert(busy[freed] == lines[freed]);
    }
    assert(busy.update(at, None) =~= lines);
}

proof fn summary_reads_back_by_parts(s: UpdateSummary)
    ensures
        summary_line(s) == "Indexed "@ + (decimal_spec(visited(s) as nat) + (" documents (new: "@ + (decimal_spec(s.new as nat) + (", updated: "@ + (decimal_spec(s.updated as nat) + (", skipped: "@ + (decimal_spec(s.skipped as nat) + (", removed: "@ + (decimal_spec(s.removed as nat) + (", failed: "@ + (decimal_spec(s.failed as nat) + (")."@)))))))))))),
{
    let x0 = "Indexed "@;
    let x1 = decimal_spec(visited(s) as nat);
    let x2 = " documents (new: "@;
    let x3 = decimal_spec(s.new as nat);
    let x4 = ", updated: "@;
    let x5 = decimal_spec(s.updated as nat);
    let x6 = ", skipped: "@;
    let x7 = decimal_spec(s.skipped as nat);
    let x8 = ", removed: "@;
    let x9 = decimal_spec(s.removed as nat);
    let x10 = ", failed: "@;
    let x11 = decimal_spec(s.failed as nat);
    let x12 = ")."@;
    let s0 = x0;
    let s1 = s0 + x1;
    let s2 = s1 + x2;
    let s3 = s2 + x3;
    let s4 = s3 + x4;
    let s5 = s4 + x5;
    let s6 = s5 + x6;
    let s7 = s6 + x7;
    let s8 = s7 + x8;
    let s9 = s8 + x9;
    let s10 = s9 + x10;
    let s11 = s10 + x11;
    let s12 = s11 + x12;
    let r12 = x12;
    let r11 = x11 + r12;
    let r10 = x10 + r11;
    let r9 = x9 + r10;
    let r8 = x8 + r9;
    let r7 = x7 + r8;
    let r6 = x6 + r7;
    let r5 = x5 + r6;
    let r4 = x4 + r5;
    let r3 = x3 + r4;
    let r2 = x2 + r3;
    let r1 = x1 + r2;
    let r0 = x0 + r1;
    regroup_three(s10, x11, r12);
    regroup_three(s9, x10, r11);
    regroup_three(s8, x9, r10);
    regroup_three(s7, x8, r9);
    regroup_three(s6, x7, r8);
    regroup_three(s5, x6, r7);
    regroup_three(s4, x5, r6);
    regroup_three(s3, x4, r5);
    regroup_three(s2, x3, r4);
    regroup_three(s1, x2, r3);
    regroup_three(s0, x1, r2);
}

proof fn summary_reads_back_indexed(s: UpdateSummary)
    ensures
        number_behind(summary_line(s), "Indexed "@) == Some((s.new + s.updated + s.skipped + s.failed) as int),
{
    let mark = "Indexed "@;
    summary_reads_back_by_parts(s);
    assert(mark.len() == 8 && mark[0] == 'I') by {
        reveal_strlit("Indexed ");
    }
    let r13 = Seq::<char>::empty();
    let x12 = ")."@;
    let r12 = x12;
    let x11 = decimal_spec(s.failed as nat);
    let r11 = x11 + r12;
    let x10 = ", failed: "@;
    let r10 = x10 + r11;
    let x9 = decimal_spec(s.removed as nat);
    let r9 = x9 + r10;
    let x8 = ", removed: "@;
    let r8 = x8 + r9;
    let x7 = decimal_spec(s.skipped as nat);
    let r7 = x7 + r8;
    let x6 = ", skipped: "@;
    let r6 = x6 + r7;
    let x5 = decimal_spec(s.updated as nat);
    let r5 = x5 + r6;
    let x4 = ", updated: "@;
    let r4 = x4 + r5;
    let x3 = decimal_spec(s.new as nat);
    let r3 = x3 + r4;
    let x2 = " documents (new: "@;
    let r2 = x2 + r3;
    let x1 = decimal_spec(visited(s) as nat);
    let r1 = x1 + r2;
    let x0 = "Indexed "@;
    let r0 = x0 + r1;
    assert(r2.len() > 0 && !is_digit(r2[0])) by {
        reveal_strlit(" documents (new: ");
        reveal_strlit("Indexed ");
    }
    find_number(mark, visited(s) as nat, r2);
}

proof fn summary_reads_back_new(s: UpdateSummary)
    ensures
        number_behind(summary_line(s), "(new: "@) == Some(s.new as int),
{
    let mark = "(new: "@;
    summary_reads_back_by_parts(s);
    assert(mark.len() == 6 && mark[0] == '(') by {
        reveal_strlit("(new: ");
    }
    let r13 = Seq::<char>::empty();
    let x12 = ")."@;
    let r12 = x12;
    let x11 = decimal_spec(s.failed as nat);
    let r11 = x11 + r12;
    let x10 = ", failed: "@;
    let r10 = x10 + r11;
    let x9 = decimal_spec(s.removed as nat);
    let r9 = x9 + r10;
    let x8 = ", removed: "@;
    let r8 = x8 + r9;
    let x7 = decimal_spec(s.skipped as nat);
    let r7 = x7 + r8;
    let x6 = ", skipped: "@;
    let r6 = x6 + r7;
    let x5 = decimal_spec(s.updated as nat);
    let r5 = x5 + r6;
    let x4 = ", updated: "@;
    let r4 = x4 + r5;
    let x3 = decimal_spec(s.new as nat);
    let r3 = x3 + r4;
    let x2 = " documents (new: "@;
    let r2 = x2 + r3;
    let x1 = decimal_spec(visited(s) as nat);
    let r1 = x1 + r2;
    let x0 = "Indexed "@;
    let r0 = x0 + r1;
    assert(!x0.contains(mark[0])) by {
        reveal_strlit("Indexed ");
        reveal_strlit("(new: ");
    }
    find_skips(x0, r1, mark);
    number_is_plain(visited(s) as nat);
    find_skips(x1, r2, mark);
    assert(x2 =~= " documents "@ + mark && !" documents "@.contains(mark[0])) by {
        reveal_strlit(" documents (new: ");
        reveal_strlit(" documents ");
        reveal_strlit("(new: ");
    }
    regroup_three(" documents "@, mark, r3);
    find_skips(" documents "@, mark + r3, mark);
    assert(r4.len() > 0 && !is_digit(r4[0])) by {
        reveal_strlit(", updated: ");
        reveal_strlit("(new: ");
    }
    find_number(mark, s.new as nat, r4);
}

proof fn summary_reads_back_updated(s: UpdateSummary)
    ensures
        number_behind(summary_line(s), ", updated: "@) == Some(s.updated as int),
{
    let mark = ", updated: "@;
    summary_reads_back_by_parts(s);
    assert(mark.len() == 11 && mark[0] == ',') by {
        reveal_strlit(", updated: ");
    }
    let r13 = Seq::<char>::empty();
    let x12 = ")."@;
    let r12 = x12;
    let x11 = decimal_spec(s.failed as nat);
    let r11 = x11 + r12;
    let x10 = ", failed: "@;
    let r10 = x10 + r11;
    let x9 = decimal_spec(s.removed as nat);
    let r9 = x9 + r10;
    let x8 = ", removed: "@;
    let r8 = x8 + r9;
    let x7 = decimal_spec(s.skipped as nat);
    let r7 = x7 + r8;
    let x6 = ", skipped: "@;
    let r6 = x6 + r7;
    let x5 = decimal_spec(s.updated as nat);
    let r5 = x5 + r6;
    let x4 = ", updated: "@;
    let r4 = x4 + r5;
    let x3 = decimal_spec(s.new as nat);
    let r3 = x3 + r4;
    let x2 = " documents (new: "@;
    let r2 = x2 + r3;
    let x1 = decimal_spec(visited(s) as nat);
    let r1 = x1 + r2;
    let x0 = "Indexed "@;
    let r0 = x0 + r1;
    assert(!x0.contains(mark[0])) by {
        reveal_strlit("Indexed ");
        reveal_strlit(", updated: ");
    }
    find_skips(x0, r1, mark);
    number_is_plain(visited(s) as nat);
    find_skips(x1, r2, mark);
    assert(!x2.contains(mark[0])) by {
        reveal_strlit(" documents (new: ");
        reveal_strlit(", updated: ");
    }
    find_skips(x2, r3, mark);
    number_is_plain(s.new as nat);
    find_skips(x3, r4, mark);
    assert(r6.len() > 0 && !is_digit(r6[0])) by {
        reveal_strlit(", skipped: ");
        reveal_strlit(", updated: ");
    }
    find_number(mark, s.updated as nat, r6);
}

proof fn summary_reads_back_skipped(s: UpdateSummary)
    ensures
        number_behind(summary_line(s), ", skipped: "@) == Some(s.skipped as int),
{
    let mark = ", skipped: "@;
    summary_reads_back_by_parts(s);
    assert(mark.len() == 11 && mark[0] == ',') by {
        reveal_strlit(", skipped: ");
    }
    let r13 = Seq::<char>::empty();
    let x12 = ")."@;
    let r12 = x12;
    let x11 = decimal_spec(s.failed as nat);
    let r11 = x11 + r12;
    let x10 = ", failed: "@;
    let r10 = x10 + r11;
    let x9 = decimal_spec(s.removed as nat);
    let r9 = x9 + r10;
    let x8 = ", removed: "@;
    let r8 = x8 + r9;
    let x7 = decimal_spec(s.skipped as nat);
    let r7 = x7 + r8;
    let x6 = ", skipped: "@;
    let r6 = x6 + r7;
    let x5 = decimal_spec(s.updated as nat);
    let r5 = x5 + r6;
    let x4 = ", updated: "@;
    let r4 = x4 + r5;
    let x3 = decimal_spec(s.new as nat);
    let r3 = x3 + r4;
    let x2 = " documents (new: "@;
    let r2 = x2 + r3;
    let x1 = decimal_spec(visited(s) as nat);
    let r1 = x1 + r2;
    let x0 = "Indexed "@;
    let r0 = x0 + r1;
    assert(!x0.contains(mark[0])) by {
        reveal_strlit("Indexed ");
        reveal_strlit(", skipped: ");
    }
    find_skips(x0, r1, mark);
    number_is_plain(visited(s) as nat);
    find_skips(x1, r2, mark);
    assert(!x2.contains(mark[0])) by {
        reveal_strlit(" documents (new: ");
        reveal_strlit(", skipped: ");
    }
    find_skips(x2, r3, mark);
    number_is_plain(s.new as nat);
    find_skips(x3, r4, mark);
    assert(", updated: "@.len() > 2 && mark[2] != ", updated: "@[2] && !", updated: "@.skip(1).contains(mark[0])) by {
        reveal_strlit(", updated: ");
        reveal_strlit(", skipped: ");
    }
    find_passes(", updated: "@, r5, mark, 2);
    number_is_plain(s.updated as nat);
    find_skips(x5, r6, mark);
    assert(r8.len() > 0 && !is_digit(r8[0])) by {
        reveal_strlit(", removed: ");
        reveal_strlit(", skipped: ");
    }
    find_number(mark, s.skipped as nat, r8);
}

proof fn summary_reads_back_removed(s: UpdateSummary)
    ensures
        number_behind(summary_line(s), ", removed: "@) == Some(s.removed as int),
{
    let mark = ", removed: "@;
    summary_reads_back_by_parts(s);
    assert(mark.len() == 11 && mark[0] == ',') by {
        reveal_strlit(", removed: ");
    }
    let r13 = Seq::<char>::empty();
    let x12 = ")."@;
    let r12 = x12;
    let x11 = decimal_spec(s.failed as nat);
    let r11 = x11 + r12;
    let x10 = ", failed: "@;
    let r10 = x10 + r11;
    let x9 = decimal_spec(s.removed as nat);
    let r9 = x9 + r10;
    let x8 = ", removed: "@;
    let r8 = x8 + r9;
    let x7 = decimal_spec(s.skipped as nat);
    let r7 = x7 + r8;
    let x6 = ", skipped: "@;
    let r6 = x6 + r7;
    let x5 = decimal_spec(s.updated as nat);
    let r5 = x5 + r6;
    let x4 = ", updated: "@;
    let r4 = x4 + r5;
    let x3 = decimal_spec(s.new as nat);
    let r3 = x3 + r4;
    let x2 = " documents (new: "@;
    let r2 = x2 + r3;
    let x1 = decimal_spec(visited(s) as nat);
    let r1 = x1 + r2;
    let x0 = "Indexed "@;
    let r0 = x0 + r1;
    assert(!x0.contains(mark[0])) by {
        reveal_strlit("Indexed ");
        reveal_strlit(", removed: ");
    }
    find_skips(x0, r1, mark);
    number_is_plain(visited(s) as nat);
    find_skips(x1, r2, mark);
    assert(!x2.contains(mark[0])) by {
        reveal_strlit(" documents (new: ");
        reveal_strlit(", removed: ");
    }
    find_skips(x2, r3, mark);
    number_is_plain(s.new as nat);
    find_skips(x3, r4, mark);
    assert(", updated: "@.len() > 2 && mark[2] != ", updated: "@[2] && !", updated: "@.skip(1).contains(mark[0])) by {
        reveal_strlit(", updated: ");
        reveal_strlit(", removed: ");
    }
    find_passes(", updated: "@, r5, mark, 2);
    number_is_plain(s.updated as nat);
    find_skips(x5, r6, mark);
    assert(", skipped: "@.len() > 2 && mark[2] != ", skipped: "@[2] && !", skipped: "@.skip(1).contains(mark[0])) by {
        reveal_strlit(", skipped: ");
        reveal_strlit(", removed: ");
    }
    find_passes(", skipped: "@, r7, mark, 2);
    number_is_plain(s.skipped as nat);
    find_skips(x7, r8, mark);
    assert(r10.len() > 0 && !is_digit(r10[0])) by {
        reveal_strlit(", failed: ");
        reveal_strlit(", removed: ");
    }
    find_number(mark, s.removed as nat, r10);
}

proof fn summary_reads_back_failed(s: UpdateSummary)
    ensures
        number_behind(summary_line(s), ", failed: "@) == Some(s.failed as int),
{
    let mark = ", failed: "@;
    summary_reads_back_by_parts(s);
    assert(mark.len() == 10 && mark[0] == ',') by {
        reveal_strlit(", failed: ");
    }
    let r13 = Seq::<char>::empty();
    let x12 = ")."@;
    let r12 = x12;
    let x11 = decimal_spec(s.failed as nat);
    let r11 = x11 + r12;
    let x10 = ", failed: "@;
    let r10 = x10 + r11;
    let x9 = decimal_spec(s.removed as nat);
    let r9 = x9 + r10;
    let x8 = ", removed: "@;
    let r8 = x8 + r9;
    let x7 = decimal_spec(s.skipped as nat);
    let r7 = x7 + r8;
    let x6 = ", skipped: "@;
    let r6 = x6 + r7;
    let x5 = decimal_spec(s.updated as nat);
    let r5 = x5 + r6;
    let x4 = ", updated: "@;
    let r4 = x4 + r5;
    let x3 = decimal_spec(s.new as nat);
    let r3 = x3 + r4;
    let x2 = " documents (new: "@;
    let r2 = x2 + r3;
    let x1 = decimal_spec(visited(s) as nat);
    let r1 = x1 + r2;
    let x0 = "Indexed "@;
    let r0 = x0 + r1;
    assert(!x0.contains(mark[0])) by {
        reveal_strlit("Indexed ");
        reveal_strlit(", failed: ");
    }
    find_skips(x0, r1, mark);
    number_is_plain(visited(s) as nat);
    find_skips(x1, r2, mark);
    assert(!x2.contains(mark[0])) by {
        reveal_strlit(" documents (new: ");
        reveal_strlit(", failed: ");
    }
    find_skips(x2, r3, mark);
    number_is_plain(s.new as nat);
    find_skips(x3, r4, mark);
    assert(", updated: "@.len() > 2 && mark[2] != ", updated: "@[2] && !", updated: "@.skip(1).contains(mark[0])) by {
        reveal_strlit(", updated: ");
        reveal_strlit(", failed: ");
    }
    find_passes(", updated: "@, r5, mark, 2);
    number_is_plain(s.updated as nat);
    find_skips(x5, r6, mark);
    assert(", skipped: "@.len() > 2 && mark[2] != ", skipped: "@[2] && !", skipped: "@.skip(1).contains(mark[0])) by {
        reveal_strlit(", skipped: ");
        reveal_strlit(", failed: ");
    }
    find_passes(", skipped: "@, r7, mark, 2);
    number_is_plain(s.skipped as nat);
    find_skips(x7, r8, mark);
    assert(", removed: "@.len() > 2 && mark[2] != ", removed: "@[2] && !", removed: "@.skip(1).contains(mark[0])) by {
        reveal_strlit(", removed: ");
        reveal_strlit(", failed: ");
    }
    find_passes(", removed: "@, r9, mark, 2);
    number_is_plain(s.removed as nat);
    find_skips(x9, r10, mark);
    assert(r12.len() > 0 && !is_digit(r12[0])) by {
        reveal_strlit(").");
        reveal_strlit(", failed: ");
    }
    find_number(mark, s.failed as nat, r12);
}

/// Every count of a run is shown under its own name, and the first number is the
/// number of files that were visited: those of all outcomes together.
pub proof fn summary_reads_back(s: UpdateSummary)
    ensures
        number_behind(summary_line(s), "Indexed "@) == Some((s.new + s.updated + s.skipped + s.failed) as int),
        number_behind(summary_line(s), "(new: "@) == Some(s.new as int),
        number_behind(summary_line(s), ", updated: "@) == Some(s.updated as int),
        number_behind(summary_line(s), ", skipped: "@) == Some(s.skipped as int),
        number_behind(summary_line(s), ", removed: "@) == Some(s.removed as int),
        number_behind(summary_line(s), ", failed: "@) == Some(s.failed as int),
{
    summary_reads_back_indexed(s);
    summary_reads_back_new(s);
    summary_reads_back_updated(s);
    summary_reads_back_skipped(s);
    summary_reads_back_removed(s);
    summary_reads_back_failed(s);
}

} // verus!
