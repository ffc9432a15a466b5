//! The dependency files found relevant, each with the reasons why: a mapping
//! from path to a set of reasons that keeps the order in which paths and
//! reasons were first seen.

use crate::text::{
    distinct, insert_unique, lemma_push_unique_distinct, push_unique, same_text,
};
use vstd::prelude::*;

verus! {

/// A dependency file and why it is relevant.
#[derive(Debug, Clone, PartialEq, Eq)]
pub struct RelevantFile {
    pub path: String,
    pub reasons: Vec<String>,
}

/// A `RelevantFile` as plain values.
pub struct RelevantModel {
    pub path: Seq<char>,
    pub reasons: Seq<Seq<char>>,
}

impl View for RelevantFile {
    type V = RelevantModel;

    open spec fn view(&self) -> RelevantModel {
        RelevantModel { path: self.path@, reasons: self.reasons.deep_view() }
    }
}

impl DeepView for RelevantFile {
    type V = RelevantModel;

    open spec fn deep_view(&self) -> RelevantModel {
        self@
    }
}

/// Whether `files` has an entry for `path`.
pub open spec fn has_path(files: Seq<RelevantModel>, path: Seq<char>) -> bool {
    exists|i: int| 0 <= i < files.len() && files[i].path == path
}

/// The place of an entry for `path` in `files`, which has one.
pub open spec fn index_of_path(files: Seq<RelevantModel>, path: Seq<char>) -> int {
    choose|i: int| 0 <= i < files.len() && files[i].path == path
}

/// No two entries of `files` are for the same path.
pub open spec fn paths_distinct(files: Seq<RelevantModel>) -> bool {
    forall|i: int, j: int| 0 <= i < j < files.len() ==> files[i].path != files[j].path
}

/// No entry of `files` holds a reason twice.
pub open spec fn reasons_distinct(files: Seq<RelevantModel>) -> bool {
    forall|i: int| 0 <= i < files.len() ==> distinct(#[trigger] files[i].reasons)
}

/// The reasons recorded for `path`; none if it has no entry.
pub open spec fn reasons_for(files: Seq<RelevantModel>, path: Seq<char>) -> Set<Seq<char>> {
    if has_path(files, path) {
        files[index_of_path(files, path)].reasons.to_set()
    } else {
        Set::empty()
    }
}

/// `files` after `reason` was recorded for `path`: the entry of `path` gains
/// the reason unless it has it, and a path without an entry gets one at the
/// end.
pub open spec fn with_reason(files: Seq<RelevantModel>, path: Seq<char>, reason: Seq<char>) -> Seq<
    RelevantModel,
> {
    if has_path(files, path) {
        let i = index_of_path(files, path);
        files.update(i, RelevantModel { path, reasons: push_unique(files[i].reasons, reason) })
    } else {
        files.push(RelevantModel { path, reasons: seq![reason] })
    }
}

/// `files` after each of `reasons` was recorded for `path`, in order.
pub open spec fn with_reasons(
    files: Seq<RelevantModel>,
    path: Seq<char>,
    reasons: Seq<Seq<char>>,
) -> Seq<RelevantModel>
    decreases reasons.len(),
{
    if reasons.len() == 0 {
        files
    } else {
        with_reason(with_reasons(files, path, reasons.drop_last()), path, reasons.last())
    }
}

/// Recording a reason keeps the paths distinct, and the reasons of each
/// path.
pub proof fn lemma_with_reason_distinct(
    files: Seq<RelevantModel>,
    path: Seq<char>,
    reason: Seq<char>,
)
    requires
        paths_distinct(files),
    ensures
        paths_distinct(with_reason(files, path, reason)),
        reasons_distinct(files) ==> reasons_distinct(with_reason(files, path, reason)),
{
    let out = with_reason(files, path, reason);
    if reasons_distinct(files) {
        assert forall|k: int| 0 <= k < out.len() implies distinct(#[trigger] out[k].reasons) by {
            if has_path(files, path) {
                let i = index_of_path(files, path);
                if k == i {
                    assert(distinct(files[i].reasons));
                    lemma_push_unique_distinct(files[i].reasons, reason);
                } else {
                    assert(out[k] == files[k]);
                }
            } else if k < files.len() {
                assert(out[k] == files[k]);
            } else {
                assert(out[k].reasons =~= seq![reason]);
            }
        }
    }
    if has_path(files, path) {
        let i = index_of_path(files, path);
        assert forall|a: int, b: int| 0 <= a < b < out.len() implies out[a].path != out[b].path by {
            assert(out[a].path == files[a].path);
            assert(out[b].path == files[b].path);
        }
    } else {
        assert forall|a: int, b: int| 0 <= a < b < out.len() implies out[a].path != out[b].path by {
            if b < files.len() {
                assert(out[a].path == files[a].path);
                assert(out[b].path == files[b].path);
            } else {
                assert(out[a].path == files[a].path);
            }
        }
    }
}

/// The collection behaves as a mapping from path to a set of reasons:
/// recording `reason` for `path` adds it to the set of `path` and leaves
/// every other path as it was.
pub proof fn lemma_with_reason_is_map_insert(
    files: Seq<RelevantModel>,
    path: Seq<char>,
    reason: Seq<char>,
    other: Seq<char>,
)
    requires
        paths_distinct(files),
    ensures
        reasons_for(with_reason(files, path, reason), path) == reasons_for(files, path).insert(
            reason,
        ),
        other != path ==> reasons_for(with_reason(files, path, reason), other) == reasons_for(
            files,
            other,
        ),
        has_path(with_reason(files, path, reason), path),
        other != path ==> (has_path(with_reason(files, path, reason), other) <==> has_path(
            files,
            other,
        )),
{
    let out = with_reason(files, path, reason);
    lemma_with_reason_distinct(files, path, reason);
    if has_path(files, path) {
        let i = index_of_path(files, path);
        assert(out[i].path == path);
        let k = index_of_path(out, path);
        assert(k == i) by {
            if k != i {
                assert(out[k].path == out[i].path);
            }
        }
        let old_reasons = files[i].reasons;
        let new_reasons = push_unique(old_reasons, reason);
        assert(new_reasons.to_set() =~= old_reasons.to_set().insert(reason)) by {
            let wanted = old_reasons.to_set().insert(reason);
            assert forall|x: Seq<char>| new_reasons.to_set().contains(x) <==> wanted.contains(x) by {
                if new_reasons.contains(x) {
                    let j = choose|j: int| 0 <= j < new_reasons.len() && new_reasons[j] == x;
                    if j < old_reasons.len() {
                        assert(old_reasons[j] == x);
                    }
                }
                if old_reasons.contains(x) {
                    let j = choose|j: int| 0 <= j < old_reasons.len() && old_reasons[j] == x;
                    assert(new_reasons[j] == x);
                }
                if x == reason && !old_reasons.contains(reason) {
                    assert(new_reasons[old_reasons.len() as int] == reason);
                }
            }
        }
        if other != path {
            if has_path(files, other) {
                let j = index_of_path(files, other);
                assert(out[j] == files[j]);
                let m = index_of_path(out, other);
                assert(m == j) by {
                    if m != j {
                        assert(out[m].path == out[j].path);
                    }
                }
            }
            if has_path(out, other) {
                let m = index_of_path(out, other);
                assert(files[m].path == other);
            }
        }
    } else {
        let n = files.len() as int;
        assert(out[n].path == path);
        let k = index_of_path(out, path);
        assert(k == n) by {
            if k != n {
                assert(files[k].path == path);
            }
        }
        assert(seq![reason].to_set() =~= Set::<Seq<char>>::empty().insert(reason)) by {
            assert(seq![reason][0] == reason);
        }
        if other != path {
            if has_path(files, other) {
                let j = index_of_path(files, other);
                assert(out[j] == files[j]);
                let m = index_of_path(out, other);
                assert(m == j) by {
                    if m != j {
                        assert(out[m].path == out[j].path);
                    }
                }
            }
            if has_path(out, other) {
                let m = index_of_path(out, other);
                assert(m < n);
                assert(files[m].path == other);
            }
        }
    }
}

/// The dependency files found relevant so far.
#[derive(Debug)]
pub struct RelevantFiles {
    entries: Vec<RelevantFile>,
}

impl View for RelevantFiles {
    type V = Seq<RelevantModel>;

    closed spec fn view(&self) -> Seq<RelevantModel> {
        self.entries.deep_view()
    }
}

impl RelevantFiles {
    #[verifier::type_invariant]
    spec fn kept_as_sets(self) -> bool {
        paths_distinct(self.entries.deep_view()) && reasons_distinct(self.entries.deep_view())
    }

    /// A collection without entries.
    pub fn new() -> (files: Self)
        ensures
            files@ == Seq::<RelevantModel>::empty(),
    {
        let entries: Vec<RelevantFile> = Vec::new();
        assert(entries.deep_view() =~= Seq::<RelevantModel>::empty());
        RelevantFiles { entries }
    }

    /// The number of files.
    pub fn len(&self) -> (n: usize)
        ensures
            n == self@.len(),
    {
        self.entries.len()
    }

    /// Whether no file was found relevant.
    pub fn is_empty(&self) -> (b: bool)
        ensures
            b == (self@.len() == 0),
    {
        self.entries.len() == 0
    }

    /// The files in the order in which they were first recorded, no path
    /// twice and no reason twice for a path.
    pub fn entries(&self) -> (entries: &Vec<RelevantFile>)
        ensures
            entries.deep_view() == self@,
            paths_distinct(self@),
            reasons_distinct(self@),
    {
        proof {
            use_type_invariant(self);
        }
        &self.entries
    }

    /// Records `reason` for `path`.
    pub fn add_reason(&mut self, path: &str, reason: &str)
        ensures
            final(self)@ == with_reason(old(self)@, path@, reason@),
    {
        proof {
            use_type_invariant(&*self);
        }
        let mut taken = RelevantFiles::new();
        std::mem::swap(self, &mut taken);
        let mut entries = taken.entries;
        let ghost before = entries.deep_view();
        let n = entries.len();
        let mut i: usize = 0;
        while i < n && !same_text(entries[i].path.as_str(), path)
            invariant
                i <= n,
                n == entries.len(),
                entries.deep_view() == before,
                forall|k: int| 0 <= k < i ==> before[k].path != path@,
            decreases n - i,
        {
            i += 1;
        }
        if i < n {
            assert(before[i as int].path == path@);
            assert(index_of_path(before, path@) == i) by {
                let k = index_of_path(before, path@);
                if k != i {
                    assert(before[k].path == before[i as int].path);
                }
            }
            let mut entry = entries.remove(i);
            insert_unique(&mut entry.reasons, reason);
            entries.insert(i, entry);
            assert(entries.deep_view() =~= with_reason(before, path@, reason@));
        } else {
            let mut reasons: Vec<String> = Vec::new();
            reasons.push(reason.to_owned());
            assert(reasons.deep_view() =~= seq![reason@]);
            entries.push(RelevantFile { path: path.to_owned(), reasons });
            assert(entries.deep_view() =~= with_reason(before, path@, reason@));
        }
        proof {
            lemma_with_reason_distinct(before, path@, reason@);
        }
        *self = RelevantFiles { entries };
    }
}

} // verus!
