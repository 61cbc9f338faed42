//! Word-level differences between a selection and its correction.

use vstd::prelude::*;
use vstd::string::StringExecFns;

verus! {

/// What a run of text is on each side of a correction.
#[derive(Debug, Clone, Copy, PartialEq, Eq, Structural)]
pub enum DiffKind {
    Equal,
    Insert,
    Delete,
}

/// A maximal run of text of one kind.
#[derive(Debug, Clone)]
pub struct DiffSegment {
    pub kind: DiffKind,
    pub text: String,
}

/// A segment as a pair of kind and characters.
pub open spec fn segment_view(s: DiffSegment) -> (DiffKind, Seq<char>) {
    (s.kind, s.text@)
}

/// A list of segments as pairs of kind and characters.
pub open spec fn segments_view(v: Seq<DiffSegment>) -> Seq<(DiffKind, Seq<char>)> {
    v.map_values(|s: DiffSegment| segment_view(s))
}

/// A list of changes as pairs of kind and characters.
pub open spec fn changes_view(v: Seq<(DiffKind, String)>) -> Seq<(DiffKind, Seq<char>)> {
    v.map_values(|c: (DiffKind, String)| (c.0, c.1@))
}

/// The word-level changes that `similar::TextDiff::from_words(before, after)`
/// yields from `iter_all_changes`, each as its tag and value.
pub uninterp spec fn word_changes(before: Seq<char>, after: Seq<char>) -> Seq<(DiffKind, Seq<char>)>;

/// The text of all changes except those of kind `skip`, concatenated in order.
/// Skipping insertions gives the old side, skipping deletions the new side.
pub open spec fn side_text(c: Seq<(DiffKind, Seq<char>)>, skip: DiffKind) -> Seq<char>
    decreases c.len(),
{
    if c.len() == 0 {
        Seq::empty()
    } else {
        side_text(c.drop_last(), skip) + if c.last().0 == skip {
            Seq::<char>::empty()
        } else {
            c.last().1
        }
    }
}

/// Consecutive changes of the same kind joined into one run.
pub open spec fn merged_runs(c: Seq<(DiffKind, Seq<char>)>) -> Seq<(DiffKind, Seq<char>)>
    decreases c.len(),
{
    if c.len() == 0 {
        Seq::empty()
    } else {
        let m = merged_runs(c.drop_last());
        let k = c.last().0;
        let t = c.last().1;
        if m.len() > 0 && m.last().0 == k {
            m.update(m.len() - 1, (k, m.last().1 + t))
        } else {
            m.push((k, t))
        }
    }
}

/// The changes between `before` and `after`, word by word, from the `similar`
/// crate. Its diff operations cover both token lists in order, so the values
/// of the non-inserted changes spell `before` and those of the non-deleted
/// changes spell `after`; every token is non-empty. Identical texts split into
/// identical token lists, whose common prefix is the whole of both, so every
/// change is then an unchanged one.
#[verifier::external_body]
fn similar_word_changes(before: &str, after: &str) -> (r: Vec<(DiffKind, String)>)
    ensures
        changes_view(r@) == word_changes(before@, after@),
        side_text(changes_view(r@), DiffKind::Insert)
            == before@,
        side_text(changes_view(r@), DiffKind::Delete)
            == after@,
        forall|i: int| 0 <= i < r@.len() ==> (#[trigger] r@[i]).1@.len() > 0,
        before@ == after@ ==> forall|i: int| 0 <= i < r@.len() ==> (#[trigger] r@[i]).0 == DiffKind::Equal,
{
    similar::TextDiff::from_words(before, after).iter_all_changes().map(
        |change| {
            let kind = match change.tag() {
                similar::ChangeTag::Equal => DiffKind::Equal,
                similar::ChangeTag::Insert => DiffKind::Insert,
                similar::ChangeTag::Delete => DiffKind::Delete,
            };
            (kind, change.value().to_owned())
        },
    ).collect()
}

/// The word diff of `before` and `after`, with consecutive changes of the
/// same kind merged into one segment.
pub fn word_diff(before: &str, after: &str) -> (r: Vec<DiffSegment>)
    ensures
        segments_view(r@) == merged_runs(word_changes(before@, after@)),
        side_text(segments_view(r@), DiffKind::Insert) == before@,
        side_text(segments_view(r@), DiffKind::Delete) == after@,
        forall|i: int, j: int|
            0 <= i && j == i + 1 && j < r@.len() ==> (#[trigger] r@[i]).kind != (#[trigger] r@[j]).kind,
        forall|i: int| 0 <= i < r@.len() ==> (#[trigger] r@[i]).text@.len() > 0,
        (forall|i: int| 0 <= i < r@.len() ==> (#[trigger] r@[i]).kind == DiffKind::Equal)
            <==> before@ == after@,
{
    let changes = similar_word_changes(before, after);
    let done = merge_changes(&changes);
    proof {
        let c = changes_view(changes@);
        lemma_merged_side_text(c, DiffKind::Insert);
        lemma_merged_side_text(c, DiffKind::Delete);
        assert forall|j: int| 0 <= j < c.len() implies (#[trigger] c[j]).1.len() > 0 by {
            assert(c[j].1 == changes@[j].1@);
        }
        lemma_segment_facts(c, done@);
        if forall|i: int| 0 <= i < done@.len() ==> (#[trigger] done@[i]).kind == DiffKind::Equal {
            let v = segments_view(done@);
            assert forall|i: int| 0 <= i < v.len() implies (#[trigger] v[i]).0 == DiffKind::Equal by {
                assert(v[i] == segment_view(done@[i]));
            }
            lemma_all_equal_sides(v);
        }
        if before@ == after@ {
            assert forall|j: int| 0 <= j < c.len() implies (#[trigger] c[j]).0 == DiffKind::Equal by {
                assert(c[j].0 == changes@[j].0);
            }
            lemma_merged_all_equal(c);
            let v = segments_view(done@);
            assert forall|i: int| 0 <= i < done@.len() implies (#[trigger] done@[i]).kind == DiffKind::Equal by {
                assert(v[i] == segment_view(done@[i]));
            }
        }
    }
    done
}

/// Merging changes that all keep their text gives runs that all keep theirs.
proof fn lemma_merged_all_equal(c: Seq<(DiffKind, Seq<char>)>)
    requires
        forall|i: int| 0 <= i < c.len() ==> (#[trigger] c[i]).0 == DiffKind::Equal,
    ensures
        forall|i: int| 0 <= i < merged_runs(c).len() ==> (#[trigger] merged_runs(c)[i]).0 == DiffKind::Equal,
    decreases c.len(),
{
    if c.len() > 0 {
        let d = c.drop_last();
        assert forall|i: int| 0 <= i < d.len() implies (#[trigger] d[i]).0 == DiffKind::Equal by {
            assert(d[i] == c[i]);
        }
        lemma_merged_all_equal(d);
        let m = merged_runs(d);
        assert(c.last() == c[c.len() - 1]);
        let r = merged_runs(c);
        assert forall|i: int| 0 <= i < r.len() implies (#[trigger] r[i]).0 == DiffKind::Equal by {
            if i < m.len() {
                assert(r[i].0 == m[i].0);
            }
        }
    }
}

/// When every change keeps its text, both sides read the same.
pub proof fn lemma_all_equal_sides(c: Seq<(DiffKind, Seq<char>)>)
    requires
        forall|i: int| 0 <= i < c.len() ==> (#[trigger] c[i]).0 == DiffKind::Equal,
    ensures
        side_text(c, DiffKind::Insert) == side_text(c, DiffKind::Delete),
    decreases c.len(),
{
    if c.len() > 0 {
        let d = c.drop_last();
        assert forall|i: int| 0 <= i < d.len() implies (#[trigger] d[i]).0 == DiffKind::Equal by {
            assert(d[i] == c[i]);
        }
        lemma_all_equal_sides(d);
        assert(c.last() == c[c.len() - 1]);
    }
}

proof fn lemma_segment_facts(c: Seq<(DiffKind, Seq<char>)>, s: Seq<DiffSegment>)
    requires
        segments_view(s) == merged_runs(c),
        forall|i: int| 0 <= i < c.len() ==> (#[trigger] c[i]).1.len() > 0,
    ensures
        forall|i: int, j: int|
            0 <= i && j == i + 1 && j < s.len() ==> (#[trigger] s[i]).kind != (#[trigger] s[j]).kind,
        forall|i: int| 0 <= i < s.len() ==> (#[trigger] s[i]).text@.len() > 0,
{
    lemma_merged_alternates(c);
    lemma_merged_nonempty(c);
    let m = merged_runs(c);
    assert forall|i: int, j: int|
        0 <= i && j == i + 1 && j < s.len() implies (#[trigger] s[i]).kind != (#[trigger] s[j]).kind by {
        assert(segments_view(s)[i] == segment_view(s[i]));
        assert(segments_view(s)[j] == segment_view(s[j]));
        assert(m[i].0 != m[j].0);
    }
    assert forall|j: int| 0 <= j < s.len() implies (#[trigger] s[j]).text@.len() > 0 by {
        assert(segments_view(s)[j].1 == s[j].text@);
    }
}

proof fn lemma_merged_step(c: Seq<(DiffKind, Seq<char>)>, i: int)
    requires
        0 <= i < c.len(),
    ensures
        merged_runs(c.take(i + 1)) == ({
            let m = merged_runs(c.take(i));
            if m.len() > 0 && m.last().0 == c[i].0 {
                m.update(m.len() - 1, (c[i].0, m.last().1 + c[i].1))
            } else {
                m.push(c[i])
            }
        }),
{
    assert(c.take(i + 1).drop_last() =~= c.take(i));
    assert(c.take(i + 1).last() == c[i]);
}

proof fn lemma_segments_view_push(v: Seq<DiffSegment>, s: DiffSegment)
    ensures
        segments_view(v.push(s)) == segments_view(v).push(segment_view(s)),
{
    assert(segments_view(v.push(s)) =~= segments_view(v).push(segment_view(s)));
}

/// Joins consecutive changes of one kind.
pub fn merge_changes(changes: &Vec<(DiffKind, String)>) -> (r: Vec<DiffSegment>)
    ensures
        segments_view(r@) == merged_runs(changes_view(changes@)),
{
    let ghost c = changes_view(changes@);
    let mut done: Vec<DiffSegment> = Vec::new();
    let mut cur_kind = DiffKind::Equal;
    let mut cur_text = String::new();
    let mut i: usize = 0;
    assert(c.take(0) =~= Seq::<(DiffKind, Seq<char>)>::empty());
    assert(segments_view(done@) =~= Seq::<(DiffKind, Seq<char>)>::empty());
    while i < changes.len()
        invariant
            i <= changes@.len(),
            c == changes_view(changes@),
            merged_runs(c.take(i as int)) == if i == 0 {
                segments_view(done@)
            } else {
                segments_view(done@).push((cur_kind, cur_text@))
            },
            i == 0 ==> done@.len() == 0,
        decreases changes@.len() - i,
    {
        let kind = changes[i].0;
        proof {
            lemma_merged_step(c, i as int);
            assert(c[i as int] == (kind, changes@[i as int].1@));
        }
        if i > 0 && cur_kind == kind {
            cur_text.append(changes[i].1.as_str());
            assert(merged_runs(c.take(i + 1)) =~= segments_view(done@).push((cur_kind, cur_text@)));
        } else {
            if i > 0 {
                let seg = DiffSegment { kind: cur_kind, text: cur_text };
                proof {
                    lemma_segments_view_push(done@, seg);
                }
                done.push(seg);
            }
            cur_kind = kind;
            cur_text = changes[i].1.clone();
            assert(merged_runs(c.take(i + 1)) =~= segments_view(done@).push((cur_kind, cur_text@)));
        }
        i = i + 1;
    }
    if i > 0 {
        let seg = DiffSegment { kind: cur_kind, text: cur_text };
        proof {
            lemma_segments_view_push(done@, seg);
        }
        done.push(seg);
    }
    assert(c.take(i as int) =~= c);
    done
}

/// Whether any segment is an insertion or a deletion.
pub fn has_changes(segments: &[DiffSegment]) -> (b: bool)
    ensures
        b == exists|i: int| 0 <= i < segments@.len() && (#[trigger] segments@[i]).kind
            != DiffKind::Equal,
{
    let mut i: usize = 0;
    while i < segments.len()
        invariant
            i <= segments@.len(),
            forall|j: int| 0 <= j < i ==> (#[trigger] segments@[j]).kind == DiffKind::Equal,
        decreases segments@.len() - i,
    {
        if segments[i].kind != DiffKind::Equal {
            return true;
        }
        i = i + 1;
    }
    false
}

/// Merging runs keeps the text of each side.
pub proof fn lemma_merged_side_text(c: Seq<(DiffKind, Seq<char>)>, skip: DiffKind)
    ensures
        side_text(merged_runs(c), skip) == side_text(c, skip),
    decreases c.len(),
{
    if c.len() > 0 {
        let m = merged_runs(c.drop_last());
        lemma_merged_side_text(c.drop_last(), skip);
        let k = c.last().0;
        let t = c.last().1;
        if m.len() > 0 && m.last().0 == k {
            let m2 = m.update(m.len() - 1, (k, m.last().1 + t));
            assert(m2.drop_last() =~= m.drop_last());
            if k == skip {
                assert(side_text(m2, skip) =~= side_text(m, skip));
            } else {
                assert(side_text(m2, skip) =~= side_text(m.drop_last(), skip) + m.last().1 + t);
            }
            assert(side_text(c, skip) =~= side_text(c.drop_last(), skip) + if k == skip {
                Seq::<char>::empty()
            } else {
                t
            });
        } else {
            assert(m.push((k, t)).drop_last() =~= m);
        }
    }
}

/// Merged runs alternate in kind.
pub proof fn lemma_merged_alternates(c: Seq<(DiffKind, Seq<char>)>)
    ensures
        forall|i: int, j: int|
            0 <= i && j == i + 1 && j < merged_runs(c).len() ==> (#[trigger] merged_runs(c)[i]).0
                != (#[trigger] merged_runs(c)[j]).0,
        c.len() > 0 ==> merged_runs(c).len() > 0 && merged_runs(c).last().0 == c.last().0,
    decreases c.len(),
{
    if c.len() > 0 {
        let m = merged_runs(c.drop_last());
        lemma_merged_alternates(c.drop_last());
        let k = c.last().0;
        let t = c.last().1;
        let r = merged_runs(c);
        if m.len() > 0 && m.last().0 == k {
            assert(r == m.update(m.len() - 1, (k, m.last().1 + t)));
            assert forall|i: int, j: int| 0 <= i && j == i + 1 && j < r.len() implies (#[trigger] r[i]).0
                != (#[trigger] r[j]).0 by {
                assert(r[i].0 == m[i].0);
                assert(r[j].0 == m[j].0);
            }
        } else {
            assert(r == m.push((k, t)));
            assert forall|i: int, j: int| 0 <= i && j == i + 1 && j < r.len() implies (#[trigger] r[i]).0
                != (#[trigger] r[j]).0 by {
                assert(r[i] == m[i]);
                if j < m.len() {
                    assert(r[j] == m[j]);
                }
            }
        }
    }
}

/// Merged runs are non-empty when every change is.
pub proof fn lemma_merged_nonempty(c: Seq<(DiffKind, Seq<char>)>)
    requires
        forall|i: int| 0 <= i < c.len() ==> (#[trigger] c[i]).1.len() > 0,
    ensures
        forall|i: int| 0 <= i < merged_runs(c).len() ==> (#[trigger] merged_runs(c)[i]).1.len()
            > 0,
    decreases c.len(),
{
    if c.len() > 0 {
        let d = c.drop_last();
        assert forall|i: int| 0 <= i < d.len() implies (#[trigger] d[i]).1.len() > 0 by {
            assert(d[i] == c[i]);
        }
        lemma_merged_nonempty(d);
        let m = merged_runs(d);
        let k = c.last().0;
        let t = c.last().1;
        assert(t.len() > 0) by {
            assert(c.last() == c[c.len() - 1]);
        }
        let r = merged_runs(c);
        if m.len() > 0 && m.last().0 == k {
            assert forall|i: int| 0 <= i < r.len() implies (#[trigger] r[i]).1.len() > 0 by {
                if i < m.len() - 1 {
                    assert(r[i] == m[i]);
                } else {
                    assert(r[i].1 == m.last().1 + t);
                }
            }
        } else {
            assert forall|i: int| 0 <= i < r.len() implies (#[trigger] r[i]).1.len() > 0 by {
                if i < m.len() {
                    assert(r[i] == m[i]);
                }
            }
        }
    }
}

} // verus!
