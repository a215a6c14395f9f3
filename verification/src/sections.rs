//! The verified heart of the pipeline: turning the diff engine's per-hunk
//! change records into the ordered, filtered list of changed line sections.

use vstd::prelude::*;

verus! {

/// One changed span of lines in one file, the sole output entity.
///
/// `line_end` is an exclusive bound: `line_start` plus the number of lines the
/// hunk carries on its post-change side. A hunk touching exactly one line has
/// `line_end == line_start + 1`; one adding no lines has `line_end == line_start`.
#[derive(Debug, PartialEq)]
pub struct Section {
    pub file_name: String,
    pub line_start: u32,
    pub line_end: u32,
}

/// How a file delta is classified by the diff engine.
#[derive(Debug, Clone, Copy, PartialEq, Eq, Structural)]
pub enum DeltaStatus {
    Unmodified,
    Added,
    Deleted,
    Modified,
    Renamed,
    Copied,
    Ignored,
    Untracked,
    TypeChanged,
    Unreadable,
    Conflicted,
}

/// One hunk of one file delta, as the diff engine reports it: the delta's
/// status, the post-change path (absent when the engine reports none), the
/// 1-based starting line of the span in the post-change file, and how many
/// lines the span holds there.
#[derive(Debug)]
pub struct ChangeRecord {
    pub status: DeltaStatus,
    pub file_name: Option<String>,
    pub new_start: u32,
    pub new_lines: u32,
}

/// True when `suffix` is a literal suffix of `whole`.
pub open spec fn is_suffix_of(suffix: Seq<char>, whole: Seq<char>) -> bool {
    &&& suffix.len() <= whole.len()
    &&& whole.subrange(whole.len() - suffix.len(), whole.len() as int) == suffix
}

/// Only additions and modifications contribute sections.
pub open spec fn status_kept(status: DeltaStatus) -> bool {
    status == DeltaStatus::Added || status == DeltaStatus::Modified
}

/// A record contributes a section exactly when its delta was an addition or a
/// modification and its post-change path is present and ends with `extension`.
pub open spec fn record_kept(record: ChangeRecord, extension: Seq<char>) -> bool {
    &&& status_kept(record.status)
    &&& match record.file_name {
        Some(path) => is_suffix_of(extension, path@),
        None => false,
    }
}

/// The section a kept record yields, as a (path, line_start, line_end) triple:
/// the hunk's post-change path and starting line, and the exclusive end
/// `line_start + new_lines`.
pub open spec fn record_section(record: ChangeRecord) -> (Seq<char>, int, int) {
    match record.file_name {
        Some(path) => (path@, record.new_start as int, record.new_start + record.new_lines),
        None => (Seq::<char>::empty(), 0int, 0int),
    }
}

/// A `Section` value as a (path, line_start, line_end) triple.
pub open spec fn section_view(section: Section) -> (Seq<char>, int, int) {
    (section.file_name@, section.line_start as int, section.line_end as int)
}

/// The sections that a sequence of change records yields: one per kept record,
/// in the records' own order, nothing merged, split or reordered.
pub open spec fn spec_sections(records: Seq<ChangeRecord>, extension: Seq<char>) -> Seq<
    (Seq<char>, int, int),
>
    decreases records.len(),
{
    if records.len() == 0 {
        Seq::empty()
    } else {
        let rest = spec_sections(records.drop_last(), extension);
        if record_kept(records.last(), extension) {
            rest.push(record_section(records.last()))
        } else {
            rest
        }
    }
}

/// True when `text` ends with `suffix`, by a literal comparison of characters.
pub fn str_ends_with(text: &str, suffix: &str) -> (r: bool)
    ensures
        r == is_suffix_of(suffix@, text@),
{
    let n: usize = text.unicode_len();
    let m: usize = suffix.unicode_len();
    if m > n {
        return false;
    }
    let mut i: usize = 0;
    while i < m
        invariant
            m <= n,
            n == text@.len(),
            m == suffix@.len(),
            i <= m,
            forall|j: int| 0 <= j < i ==> text@[n - m + j] == suffix@[j],
        decreases m - i,
    {
        if text.get_char(n - m + i) != suffix.get_char(i) {
            proof {
                assert(text@.subrange(n - m, n as int)[i as int] == text@[n - m + i]);
            }
            return false;
        }
        i += 1;
    }
    proof {
        assert(text@.subrange(n - m, n as int) =~= suffix@);
    }
    true
}

/// Walks the change records once and emits one `Section` per kept record, in
/// the records' own order. This is the whole extraction step: status filter,
/// extension filter, and the start/exclusive-end range normalization.
pub fn extract_sections(records: &Vec<ChangeRecord>, extension: &str) -> (sections: Vec<Section>)
    requires
        forall|k: int|
            0 <= k < records@.len() ==> (#[trigger] records@[k]).new_start + records@[k].new_lines
                <= u32::MAX,
    ensures
        sections@.map_values(|s: Section| section_view(s)) == spec_sections(
            records@,
            extension@,
        ),
{
    let mut sections: Vec<Section> = Vec::new();
    let mut i: usize = 0;
    while i < records.len()
        invariant
            i <= records@.len(),
            forall|k: int|
                0 <= k < records@.len() ==> (#[trigger] records@[k]).new_start
                    + records@[k].new_lines <= u32::MAX,
            sections@.map_values(|s: Section| section_view(s)) == spec_sections(
                records@.take(i as int),
                extension@,
            ),
        decreases records@.len() - i,
    {
        let record = &records[i];
        let ghost prev = sections@;
        match &record.file_name {
            Some(path) => {
                let kept = (record.status == DeltaStatus::Added || record.status
                    == DeltaStatus::Modified) && str_ends_with(path.as_str(), extension);
                if kept {
                    let line_end = record.new_start + record.new_lines;
                    sections.push(
                        Section {
                            file_name: path.clone(),
                            line_start: record.new_start,
                            line_end,
                        },
                    );
                }
            },
            None => {},
        }
        proof {
            assert(records@.take(i + 1).drop_last() =~= records@.take(i as int));
            assert(records@.take(i + 1).last() == records@[i as int]);
            if record_kept(records@[i as int], extension@) {
                assert(sections@.map_values(|s: Section| section_view(s)) =~= prev.map_values(
                    |s: Section| section_view(s),
                ).push(record_section(records@[i as int])));
            }
        }
        i += 1;
    }
    proof {
        assert(records@.take(records@.len() as int) =~= records@);
    }
    sections
}

/// True exactly when every record's range fits: its exclusive end
/// `new_start + new_lines` does not pass the largest representable line
/// number.
pub fn records_in_range(records: &Vec<ChangeRecord>) -> (ok: bool)
    ensures
        ok == forall|k: int|
            0 <= k < records@.len() ==> (#[trigger] records@[k]).new_start + records@[k].new_lines
                <= u32::MAX,
{
    let mut i: usize = 0;
    while i < records.len()
        invariant
            i <= records@.len(),
            forall|k: int|
                0 <= k < i ==> (#[trigger] records@[k]).new_start + records@[k].new_lines
                    <= u32::MAX,
        decreases records@.len() - i,
    {
        if records[i].new_start > u32::MAX - records[i].new_lines {
            assert(!(records@[i as int].new_start + records@[i as int].new_lines <= u32::MAX));
            return false;
        }
        i += 1;
    }
    true
}

/// Lexicographic order on paths, character by character.
pub open spec fn path_le(a: Seq<char>, b: Seq<char>) -> bool
    decreases a.len(),
{
    if a.len() == 0 {
        true
    } else if b.len() == 0 {
        false
    } else if a[0] == b[0] {
        path_le(a.subrange(1, a.len() as int), b.subrange(1, b.len() as int))
    } else {
        (a[0] as u32) < (b[0] as u32)
    }
}

/// The order sections are owed in: lexicographic by path, then ascending by
/// starting line.
pub open spec fn section_le(a: (Seq<char>, int, int), b: (Seq<char>, int, int)) -> bool {
    if a.0 == b.0 {
        a.1 <= b.1
    } else {
        path_le(a.0, b.0)
    }
}

/// Every pair of sections stands in order.
pub open spec fn sections_ordered(sections: Seq<(Seq<char>, int, int)>) -> bool {
    forall|i: int, j: int|
        0 <= i < j < sections.len() ==> section_le(
            #[trigger] sections[i],
            #[trigger] sections[j],
        )
}

/// No qualifying change yields no section: when not one record is kept, the
/// result is empty.
pub proof fn lemma_no_kept_records_empty(records: Seq<ChangeRecord>, extension: Seq<char>)
    requires
        forall|i: int| 0 <= i < records.len() ==> !record_kept(#[trigger] records[i], extension),
    ensures
        spec_sections(records, extension) == Seq::<(Seq<char>, int, int)>::empty(),
    decreases records.len(),
{
    if records.len() > 0 {
        let prefix = records.drop_last();
        assert forall|i: int| 0 <= i < prefix.len() implies !record_kept(
            #[trigger] prefix[i],
            extension,
        ) by {
            assert(prefix[i] == records[i]);
        }
        assert(records.last() == records[records.len() - 1]);
        lemma_no_kept_records_empty(prefix, extension);
    }
}

/// The extension and status filters are exact and total: the sections are
/// precisely the kept records, in order, each mapped to its own section — no
/// kept hunk is dropped, and no other record contributes anything.
pub proof fn lemma_sections_are_kept_hunks(records: Seq<ChangeRecord>, extension: Seq<char>)
    ensures
        spec_sections(records, extension) == records.filter(
            |r: ChangeRecord| record_kept(r, extension),
        ).map_values(|r: ChangeRecord| record_section(r)),
    decreases records.len(),
{
    reveal(Seq::filter);
    let pred = |r: ChangeRecord| record_kept(r, extension);
    let f = |r: ChangeRecord| record_section(r);
    if records.len() == 0 {
        assert(spec_sections(records, extension) =~= records.filter(pred).map_values(f));
    } else {
        let prefix = records.drop_last();
        lemma_sections_are_kept_hunks(prefix, extension);
        if pred(records.last()) {
            assert(records.filter(pred).map_values(f) =~= prefix.filter(pred).map_values(f).push(
                f(records.last()),
            ));
        }
        assert(spec_sections(records, extension) =~= records.filter(pred).map_values(f));
    }
}

/// A record that is not kept — a deletion, a rename, a type change, an
/// unmodified delta, or a path that does not end with the extension —
/// contributes nothing, wherever in the stream it stands.
pub proof fn lemma_skipped_record_contributes_nothing(
    before: Seq<ChangeRecord>,
    record: ChangeRecord,
    after: Seq<ChangeRecord>,
    extension: Seq<char>,
)
    requires
        !record_kept(record, extension),
    ensures
        spec_sections(before + seq![record] + after, extension) == spec_sections(
            before + after,
            extension,
        ),
    decreases after.len(),
{
    if after.len() == 0 {
        assert((before + seq![record] + after) =~= before.push(record));
        assert((before + after) =~= before);
        assert(before.push(record).drop_last() =~= before);
        assert(before.push(record).last() == record);
    } else {
        let shorter = after.drop_last();
        lemma_skipped_record_contributes_nothing(before, record, shorter, extension);
        let whole = before + seq![record] + after;
        let part = before + after;
        assert(whole.drop_last() =~= before + seq![record] + shorter);
        assert(part.drop_last() =~= before + shorter);
        assert(whole.last() == after.last());
        assert(part.last() == after.last());
    }
}

/// A deleted file contributes no section, whatever line range its deletion
/// would otherwise have covered.
pub proof fn lemma_deleted_file_contributes_nothing(
    before: Seq<ChangeRecord>,
    record: ChangeRecord,
    after: Seq<ChangeRecord>,
    extension: Seq<char>,
)
    requires
        record.status == DeltaStatus::Deleted,
    ensures
        spec_sections(before + seq![record] + after, extension) == spec_sections(
            before + after,
            extension,
        ),
{
    lemma_skipped_record_contributes_nothing(before, record, after, extension);
}

/// Every section comes from some kept record: the one whose hunk it reports.
pub proof fn lemma_sections_from_kept(records: Seq<ChangeRecord>, extension: Seq<char>, k: int)
    requires
        0 <= k < spec_sections(records, extension).len(),
    ensures
        exists|i: int|
            0 <= i < records.len() && record_kept(#[trigger] records[i], extension)
                && spec_sections(records, extension)[k] == record_section(records[i]),
    decreases records.len(),
{
    let out = spec_sections(records, extension);
    if records.len() > 0 {
        let prefix = records.drop_last();
        let rest = spec_sections(prefix, extension);
        if record_kept(records.last(), extension) && k == rest.len() {
            let w = records.len() - 1;
            assert(records[w] == records.last());
            assert(0 <= w < records.len() && record_kept(records[w], extension) && out[k]
                == record_section(records[w]));
        } else {
            lemma_sections_from_kept(prefix, extension, k);
            let i = choose|i: int|
                0 <= i < prefix.len() && record_kept(#[trigger] prefix[i], extension) && rest[k]
                    == record_section(prefix[i]);
            assert(records[i] == prefix[i]);
            assert(out[k] == rest[k]);
            assert(0 <= i < records.len() && record_kept(records[i], extension) && out[k]
                == record_section(records[i]));
        }
    }
}

/// Ordering is deterministic and preserved: when the diff engine hands the kept
/// records over ordered by path and then by starting line, the sections stand
/// in exactly that order — nothing is re-sorted.
pub proof fn lemma_extract_preserves_order(records: Seq<ChangeRecord>, extension: Seq<char>)
    requires
        forall|i: int, j: int|
            0 <= i < j < records.len() && record_kept(#[trigger] records[i], extension)
                && record_kept(#[trigger] records[j], extension) ==> section_le(
                record_section(records[i]),
                record_section(records[j]),
            ),
    ensures
        sections_ordered(spec_sections(records, extension)),
    decreases records.len(),
{
    if records.len() > 0 {
        let prefix = records.drop_last();
        assert forall|i: int, j: int|
            0 <= i < j < prefix.len() && record_kept(#[trigger] prefix[i], extension)
                && record_kept(#[trigger] prefix[j], extension) implies section_le(
            record_section(prefix[i]),
            record_section(prefix[j]),
        ) by {
            assert(prefix[i] == records[i]);
            assert(prefix[j] == records[j]);
        }
        lemma_extract_preserves_order(prefix, extension);
        let rest = spec_sections(prefix, extension);
        let out = spec_sections(records, extension);
        if record_kept(records.last(), extension) {
            let w = records.len() - 1;
            assert(records[w] == records.last());
            assert forall|k: int| 0 <= k < rest.len() implies section_le(
                rest[k],
                record_section(records[w]),
            ) by {
                lemma_sections_from_kept(prefix, extension, k);
                let i = choose|i: int|
                    0 <= i < prefix.len() && record_kept(#[trigger] prefix[i], extension)
                        && rest[k] == record_section(prefix[i]);
                assert(prefix[i] == records[i]);
            }
            assert forall|i: int, j: int| 0 <= i < j < out.len() implies section_le(
                #[trigger] out[i],
                #[trigger] out[j],
            ) by {
                if j < rest.len() {
                    assert(out[i] == rest[i] && out[j] == rest[j]);
                } else {
                    assert(out[j] == record_section(records[w]));
                    assert(out[i] == rest[i]);
                }
            }
        }
    }
}

/// Every emitted section is well formed: its exclusive end is at or after its
/// start, and its path ends with the extension.
pub proof fn lemma_sections_wf(records: Seq<ChangeRecord>, extension: Seq<char>)
    ensures
        forall|k: int|
            0 <= k < spec_sections(records, extension).len() ==> (#[trigger] spec_sections(
                records,
                extension,
            )[k]).1 <= spec_sections(records, extension)[k].2 && is_suffix_of(
                extension,
                spec_sections(records, extension)[k].0,
            ),
    decreases records.len(),
{
    if records.len() > 0 {
        let prefix = records.drop_last();
        lemma_sections_wf(prefix, extension);
        let rest = spec_sections(prefix, extension);
        let out = spec_sections(records, extension);
        assert forall|k: int| 0 <= k < out.len() implies (#[trigger] out[k]).1 <= out[k].2
            && is_suffix_of(extension, out[k].0) by {
            if record_kept(records.last(), extension) && k == rest.len() {
                assert(out[k] == record_section(records.last()));
            } else {
                assert(out[k] == rest[k]);
            }
        }
    }
}

/// Range semantics: a kept hunk that starts at post-change line `S` and spans
/// `C` post-change lines yields exactly the section `(path, S, S + C)`.
pub proof fn lemma_range_semantics(record: ChangeRecord, extension: Seq<char>)
    requires
        record_kept(record, extension),
    ensures
        record.file_name matches Some(path) && record_section(record) == (
            path@,
            record.new_start as int,
            record.new_start + record.new_lines as int,
        ),
{
}

} // verus!

