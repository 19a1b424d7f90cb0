//! Stored rows as the run needs them: by path, without those that cannot be
//! trusted.

use crate::ingest::incremental::{DbRow, RowView};
use crate::ingest::pathmap::{
    ascending, lookup, lookup_after_put, put, put_keeps_order, put_keys, Pairs, PathMap,
};
use crate::ingest::time::{micros_in_range, Timestamp};
use crate::paths::{
    component_views, components, components_spec, cur_dir_only_leads, is_absolute_spec,
    join_adds_components, join_spec, part_component, parts_listed, path_text, same_path_spec,
    taken_apart,
    text_of_parts_has_its_components, without_cur_dir, Component, ComponentView, PathPart,
};
use vstd::prelude::*;

verus! {

/// The component stays below the directory that it is taken from.
pub open spec fn stays_below(c: ComponentView) -> bool {
    c is Normal || c is CurDir
}

/// Every component of the path stays below the directory that it is taken
/// from: the path is relative and has no `..`.
pub open spec fn is_safe_relative(path: Seq<char>) -> bool {
    forall|i: int|
        0 <= i < components_spec(path).len() ==> stays_below(#[trigger] components_spec(path)[i])
}

/// Whether a path is relative and has no `..`.
pub fn safe_relative(path: &str) -> (yes: bool)
    ensures
        yes == is_safe_relative(path@),
{
    let found: Vec<Component> = components(path);
    for i in 0..found.len()
        invariant
            component_views(found@) == components_spec(path@),
            forall|j: int| 0 <= j < i ==> stays_below(#[trigger] components_spec(path@)[j]),
    {
        proof {
            assert(component_views(found@)[i as int] == found@[i as int]@);
        }
        match &found[i] {
            Component::Normal(_) => {},
            Component::CurDir => {},
            _ => {
                proof {
                    assert(!stays_below(components_spec(path@)[i as int]));
                }
                return false;
            },
        }
    }
    true
}

/// A path is safe exactly where the machine takes it apart into names and `.`
/// alone: one with a prefix, a root or a `..` is refused.
pub proof fn safe_by_its_parts(parts: Seq<PathPart>)
    requires
        taken_apart(parts),
    ensures
        is_safe_relative(path_text(parts_listed(parts))) <==> forall|i: int|
            0 <= i < parts.len() ==> (#[trigger] parts[i] is Normal || parts[i] is CurDir),
{
    let listed = parts_listed(parts);
    let all = parts.map_values(|p: PathPart| part_component(p));
    text_of_parts_has_its_components(parts);
    assert forall|i: int| 0 <= i < parts.len() implies #[trigger] all[i] == part_component(
        parts[i],
    ) by {}
    if parts.len() > 1 && parts[0] is Prefix && parts[1] is RootDir {
        assert(listed[0] == all[1]);
        assert(!stays_below(components_spec(path_text(listed))[0]));
    } else if is_safe_relative(path_text(listed)) {
        assert forall|i: int| 0 <= i < parts.len() implies (#[trigger] parts[i] is Normal
            || parts[i] is CurDir) by {
            assert(all[i] == part_component(parts[i]));
            assert(stays_below(components_spec(path_text(listed))[i]));
        }
    }
}

/// The stored path, where it is relative and has no `..`.
pub fn validate_relative_path(s: &str) -> (path: Option<String>)
    ensures
        match path {
            Some(p) => is_safe_relative(s@) && p@ == s@,
            None => !is_safe_relative(s@),
        },
{
    if safe_relative(s) {
        Some(s.to_string())
    } else {
        None
    }
}

/// A row of the `chunks` table as it was read; a null is `None`.
#[derive(Debug, Clone, PartialEq, Eq)]
pub struct RawRow {
    pub path: Option<String>,
    pub modified_at: Option<i64>,
    pub source_hash: Option<String>,
}

/// A row of the `sources` table as it was read; a null is `None`.
#[derive(Debug, Clone, PartialEq, Eq)]
pub struct RawSource {
    pub path: Option<String>,
    pub source_hash: Option<String>,
}

/// The row can be used: nothing is null, the path stays below the root and the
/// time can be told.
pub open spec fn usable_row(row: RawRow) -> bool {
    &&& row.path is Some
    &&& row.modified_at is Some
    &&& row.source_hash is Some
    &&& is_safe_relative(row.path->Some_0@)
    &&& micros_in_range(row.modified_at->Some_0 as int)
}

/// What a usable row says.
pub open spec fn row_says(row: RawRow) -> RowView {
    RowView {
        modified_at: row.modified_at->Some_0 * 1_000,
        source_hash: row.source_hash->Some_0@,
    }
}

/// What remains of the rows of the `chunks` table: every usable row at its
/// path, a later one in place of an earlier one.
pub open spec fn rows_by_path(rows: Seq<RawRow>) -> Pairs<RowView>
    decreases rows.len(),
{
    if rows.len() == 0 {
        Pairs::<RowView>::empty()
    } else {
        let before = rows_by_path(rows.drop_last());
        if usable_row(rows.last()) {
            put(before, rows.last().path->Some_0@, row_says(rows.last()))
        } else {
            before
        }
    }
}

/// A list of rows, the rows by their views.
pub open spec fn row_views(list: Pairs<DbRow>) -> Pairs<RowView> {
    list.map_values(|p: (Seq<char>, DbRow)| (p.0, p.1@))
}

proof fn views_after_put(list: Pairs<DbRow>, path: Seq<char>, row: DbRow)
    ensures
        row_views(put(list, path, row)) == put(row_views(list), path, row@),
    decreases list.len(),
{
    let views = row_views(list);
    if list.len() > 0 {
        assert(views[0].0 == list[0].0);
        assert(row_views(list.skip(1)) =~= views.skip(1));
        views_after_put(list.skip(1), path, row);
    }
    assert(row_views(put(list, path, row)) =~= put(views, path, row@));
}

/// The stored rows by path.
pub fn extract_existing_rows(rows: &[RawRow]) -> (by_path: PathMap<DbRow>)
    ensures
        row_views(by_path.list()) == rows_by_path(rows@),
{
    let mut by_path: PathMap<DbRow> = PathMap::new();
    proof {
        assert(row_views(by_path.list()) =~= Pairs::<RowView>::empty());
    }
    for i in 0..rows.len()
        invariant
            row_views(by_path.list()) == rows_by_path(rows@.take(i as int)),
    {
        let row: &RawRow = &rows[i];
        let ghost before = by_path.list();
        proof {
            assert(rows@.take(i as int + 1).drop_last() =~= rows@.take(i as int));
            assert(rows@.take(i as int + 1).last() == *row);
        }
        if let (Some(text), Some(micros), Some(hash)) = (
            &row.path,
            row.modified_at,
            &row.source_hash,
        ) {
            if let Some(path) = validate_relative_path(text.as_str()) {
                if let Some(modified_at) = Timestamp::from_timestamp_micros(micros) {
                    let db = DbRow { modified_at, source_hash: hash.clone() };
                    by_path.insert(path, db);
                    proof {
                        views_after_put(before, text@, db);
                        assert(db@ == row_says(*row));
                    }
                }
            }
        }
    }
    proof {
        assert(rows@.take(rows@.len() as int) =~= rows@);
    }
    by_path
}

/// The row can be used: nothing is null and the path stays below the root.
pub open spec fn usable_source(row: RawSource) -> bool {
    &&& row.path is Some
    &&& row.source_hash is Some
    &&& is_safe_relative(row.path->Some_0@)
}

/// What remains of the rows of the `sources` table: the fingerprint of every
/// usable row at its path, a later one in place of an earlier one.
pub open spec fn sources_by_path(rows: Seq<RawSource>) -> Pairs<String>
    decreases rows.len(),
{
    if rows.len() == 0 {
        Pairs::<String>::empty()
    } else {
        let before = sources_by_path(rows.drop_last());
        if usable_source(rows.last()) {
            put(before, rows.last().path->Some_0@, rows.last().source_hash->Some_0)
        } else {
            before
        }
    }
}

/// The stored fingerprints of the sources by path.
pub fn extract_source_hashes(rows: &[RawSource]) -> (by_path: PathMap<String>)
    ensures
        by_path.list() == sources_by_path(rows@),
{
    let mut by_path: PathMap<String> = PathMap::new();
    for i in 0..rows.len()
        invariant
            by_path.list() == sources_by_path(rows@.take(i as int)),
    {
        let row: &RawSource = &rows[i];
        proof {
            assert(rows@.take(i as int + 1).drop_last() =~= rows@.take(i as int));
            assert(rows@.take(i as int + 1).last() == *row);
        }
        if let (Some(text), Some(hash)) = (&row.path, &row.source_hash) {
            if let Some(path) = validate_relative_path(text.as_str()) {
                by_path.insert(path, hash.clone());
            }
        }
    }
    proof {
        assert(rows@.take(rows@.len() as int) =~= rows@);
    }
    by_path
}

/// Every key of `list` is relative and has no `..`.
pub open spec fn keys_are_safe<V>(list: Pairs<V>) -> bool {
    forall|i: int| 0 <= i < list.len() ==> is_safe_relative((#[trigger] list[i]).0)
}

proof fn put_keeps_keys_safe<V>(list: Pairs<V>, path: Seq<char>, value: V)
    requires
        keys_are_safe(list),
        is_safe_relative(path),
    ensures
        keys_are_safe(put(list, path, value)),
{
    let changed = put(list, path, value);
    assert forall|i: int| 0 <= i < changed.len() implies is_safe_relative(
        (#[trigger] changed[i]).0,
    ) by {
        put_keys(list, path, value, i);
        if changed[i].0 != path {
            let j = choose|j: int| 0 <= j < list.len() && #[trigger] list[j].0 == changed[i].0;
            assert(is_safe_relative(list[j].0));
        }
    }
}

/// Whatever the table holds, no path that leaves the root is taken from it.
pub proof fn stored_rows_stay_below_root(rows: Seq<RawRow>)
    ensures
        keys_are_safe(rows_by_path(rows)),
    decreases rows.len(),
{
    if rows.len() > 0 {
        stored_rows_stay_below_root(rows.drop_last());
        if usable_row(rows.last()) {
            let before = rows_by_path(rows.drop_last());
            put_keeps_keys_safe(before, rows.last().path->Some_0@, row_says(rows.last()));
        }
    }
}

/// Whatever the table holds, no path that leaves the root is taken from it.
pub proof fn stored_sources_stay_below_root(rows: Seq<RawSource>)
    ensures
        keys_are_safe(sources_by_path(rows)),
    decreases rows.len(),
{
    if rows.len() > 0 {
        stored_sources_stay_below_root(rows.drop_last());
        if usable_source(rows.last()) {
            let before = sources_by_path(rows.drop_last());
            put_keeps_keys_safe(
                before,
                rows.last().path->Some_0@,
                rows.last().source_hash->Some_0,
            );
        }
    }
}

/// A path that is relative and has no `..` stays below the root that it is
/// joined to: the root's components lead, and names alone follow.
pub proof fn safe_path_stays_below_root(root: Seq<char>, rel: Seq<char>)
    requires
        root.len() > 0,
        is_safe_relative(rel),
    ensures
        ({
            let whole = components_spec(join_spec(root, rel));
            let base = components_spec(root);
            &&& base.is_prefix_of(whole)
            &&& forall|i: int|
                base.len() <= i < whole.len() ==> #[trigger] whole[i] is Normal
        }),
{
    if is_absolute_spec(rel) {
        assert(components_spec(rel)[0] is RootDir);
        assert(!stays_below(components_spec(rel)[0]));
    }
    join_adds_components(root, rel);
    cur_dir_only_leads(rel);
    let base = components_spec(root);
    let added = without_cur_dir(components_spec(rel));
    let whole = base + added;
    assert forall|i: int| base.len() <= i < whole.len() implies #[trigger] whole[i] is Normal by {
        let k = i - base.len();
        let j = if components_spec(rel)[0] is CurDir {
            k + 1
        } else {
            k
        };
        assert(whole[i] == components_spec(rel)[j]);
        assert(stays_below(components_spec(rel)[j]));
    }
}

proof fn rows_ascend(rows: Seq<RawRow>)
    ensures
        ascending(rows_by_path(rows)),
    decreases rows.len(),
{
    if rows.len() > 0 {
        let before = rows_by_path(rows.drop_last());
        rows_ascend(rows.drop_last());
        if usable_row(rows.last()) {
            put_keeps_order(before, rows.last().path->Some_0@, row_says(rows.last()));
        }
    }
}

proof fn sources_ascend(rows: Seq<RawSource>)
    ensures
        ascending(sources_by_path(rows)),
    decreases rows.len(),
{
    if rows.len() > 0 {
        let before = sources_by_path(rows.drop_last());
        sources_ascend(rows.drop_last());
        if usable_source(rows.last()) {
            put_keeps_order(before, rows.last().path->Some_0@, rows.last().source_hash->Some_0);
        }
    }
}

/// The row tells of `path`: none of its columns is null, its path is this one
/// and stays below the root, and its time can be told.
pub open spec fn row_tells_of(row: RawRow, path: Seq<char>) -> bool {
    row matches RawRow { path: Some(p), modified_at: Some(micros), source_hash: Some(_) }
        && same_path_spec(p@, path) && is_safe_relative(p@) && micros_in_range(micros as int)
}

/// However many rows there are, the last one that tells of a path says what is
/// stored of it: its time, to the microsecond, and its fingerprint.
pub proof fn last_row_of_a_path_counts(rows: Seq<RawRow>, path: Seq<char>, i: int)
    requires
        0 <= i < rows.len(),
        row_tells_of(rows[i], path),
        forall|j: int| i < j < rows.len() ==> !row_tells_of(#[trigger] rows[j], path),
    ensures
        lookup(rows_by_path(rows), path) == Some(
            RowView {
                modified_at: rows[i].modified_at->Some_0 * 1_000,
                source_hash: rows[i].source_hash->Some_0@,
            },
        ),
    decreases rows.len(),
{
    let short = rows.drop_last();
    let last = rows.last();
    rows_ascend(short);
    if usable_row(last) {
        lookup_after_put(rows_by_path(short), last.path->Some_0@, row_says(last), path);
    }
    if i < short.len() {
        assert(!row_tells_of(rows[rows.len() - 1], path));
        assert forall|j: int| i < j < short.len() implies !row_tells_of(
            #[trigger] short[j],
            path,
        ) by {
            assert(short[j] == rows[j]);
        }
        assert(short[i] == rows[i]);
        last_row_of_a_path_counts(short, path, i);
    }
}

/// A path that no row tells of has no row.
pub proof fn unnamed_path_has_no_row(rows: Seq<RawRow>, path: Seq<char>)
    requires
        forall|j: int| 0 <= j < rows.len() ==> !row_tells_of(#[trigger] rows[j], path),
    ensures
        lookup(rows_by_path(rows), path) is None,
    decreases rows.len(),
{
    if rows.len() > 0 {
        let short = rows.drop_last();
        let last = rows.last();
        rows_ascend(short);
        assert(!row_tells_of(rows[rows.len() - 1], path));
        assert forall|j: int| 0 <= j < short.len() implies !row_tells_of(
            #[trigger] short[j],
            path,
        ) by {
            assert(short[j] == rows[j]);
        }
        unnamed_path_has_no_row(short, path);
        if usable_row(last) {
            lookup_after_put(rows_by_path(short), last.path->Some_0@, row_says(last), path);
        }
    }
}

/// The source tells of `path`: neither column is null, and its path is this one
/// and stays below the root.
pub open spec fn source_tells_of(row: RawSource, path: Seq<char>) -> bool {
    row matches RawSource { path: Some(p), source_hash: Some(_) } && same_path_spec(p@, path)
        && is_safe_relative(p@)
}

/// However many sources there are, the last one that tells of a path gives its
/// fingerprint.
pub proof fn last_source_of_a_path_counts(rows: Seq<RawSource>, path: Seq<char>, i: int)
    requires
        0 <= i < rows.len(),
        source_tells_of(rows[i], path),
        forall|j: int| i < j < rows.len() ==> !source_tells_of(#[trigger] rows[j], path),
    ensures
        lookup(sources_by_path(rows), path) == rows[i].source_hash,
    decreases rows.len(),
{
    let short = rows.drop_last();
    let last = rows.last();
    sources_ascend(short);
    if usable_source(last) {
        lookup_after_put(
            sources_by_path(short),
            last.path->Some_0@,
            last.source_hash->Some_0,
            path,
        );
    }
    if i < short.len() {
        assert(!source_tells_of(rows[rows.len() - 1], path));
        assert forall|j: int| i < j < short.len() implies !source_tells_of(
            #[trigger] short[j],
            path,
        ) by {
            assert(short[j] == rows[j]);
        }
        assert(short[i] == rows[i]);
        last_source_of_a_path_counts(short, path, i);
    }
}

/// A path that no source tells of has no fingerprint.
pub proof fn unnamed_path_has_no_source(rows: Seq<RawSource>, path: Seq<char>)
    requires
        forall|j: int| 0 <= j < rows.len() ==> !source_tells_of(#[trigger] rows[j], path),
    ensures
        lookup(sources_by_path(rows), path) is None,
    decreases rows.len(),
{
    if rows.len() > 0 {
        let short = rows.drop_last();
        let last = rows.last();
        sources_ascend(short);
        assert(!source_tells_of(rows[rows.len() - 1], path));
        assert forall|j: int| 0 <= j < short.len() implies !source_tells_of(
            #[trigger] short[j],
            path,
        ) by {
            assert(short[j] == rows[j]);
        }
        unnamed_path_has_no_source(short, path);
        if usable_source(last) {
            lookup_after_put(
                sources_by_path(short),
                last.path->Some_0@,
                last.source_hash->Some_0,
                path,
            );
        }
    }
}

} // verus!
