//! Scanned files and change detection.
//!
//! The scanner (in the surrounding binary) walks a fixed list of subtrees
//! under the build root and hands over every regular file it found, as a path
//! plus a modification time. The change detector below selects the files
//! modified after the device's watermark — at or after it under force mode —
//! and reports the newest modification time among the selected files, which
//! is the candidate for the next watermark.

use vstd::prelude::*;

verus! {

/// A regular file found under one of the scanned build subtrees: its
/// absolute path as bytes, and its modification time in nanoseconds since
/// the Unix epoch.
pub struct ScannedFile {
    pub path: Vec<u8>,
    pub mtime: i64,
}

/// The mathematical content of a `ScannedFile`.
pub ghost struct ScannedFileView {
    pub path: Seq<u8>,
    pub mtime: i64,
}

impl View for ScannedFile {
    type V = ScannedFileView;

    open spec fn view(&self) -> ScannedFileView {
        ScannedFileView { path: self.path@, mtime: self.mtime }
    }
}

impl Clone for ScannedFile {
    fn clone(&self) -> (r: Self)
        ensures
            r@ == self@,
    {
        let path = self.path.clone();
        proof {
            assert forall|i: int| 0 <= i < self.path@.len() implies path@[i]
                == self.path@[i] by {}
            assert(path@ =~= self.path@);
        }
        ScannedFile { path, mtime: self.mtime }
    }
}

/// The views of a sequence of scanned files, in order.
pub open spec fn file_views(s: Seq<ScannedFile>) -> Seq<ScannedFileView> {
    s.map_values(|f: ScannedFile| f@)
}

/// Whether a file modified at `t` is a candidate against watermark `w`.
/// An absent watermark (no prior record) selects everything; otherwise the
/// comparison is strictly-after, or at-or-after under force mode.
pub open spec fn spec_selected(t: i64, w: Option<i64>, force: bool) -> bool {
    match w {
        Option::None => true,
        Option::Some(w0) => if force {
            t >= w0
        } else {
            t > w0
        },
    }
}

/// The subsequence of `files` selected against watermark `w`.
pub open spec fn spec_select(s: Seq<ScannedFileView>, w: Option<i64>, force: bool) -> Seq<
    ScannedFileView,
> {
    s.filter(|f: ScannedFileView| spec_selected(f.mtime, w, force))
}

/// The newest modification time in `s` (meaningful only when `s` is
/// non-empty).
pub open spec fn spec_max_mtime(s: Seq<ScannedFileView>) -> int
    decreases s.len(),
{
    if s.len() <= 1 {
        if s.len() == 0 {
            0
        } else {
            s[0].mtime as int
        }
    } else if s.last().mtime as int >= spec_max_mtime(s.drop_last()) {
        s.last().mtime as int
    } else {
        spec_max_mtime(s.drop_last())
    }
}

/// The change detector: the files of `files` whose modification time lies
/// after (or, under force mode, at or after) the watermark `w`, in scan
/// order. An absent watermark selects every file.
pub fn select_new_files(files: &Vec<ScannedFile>, w: Option<i64>, force: bool) -> (r: Vec<
    ScannedFile,
>)
    ensures
        file_views(r@) == spec_select(file_views(files@), w, force),
{
    let ghost pred = |f: ScannedFileView| spec_selected(f.mtime, w, force);
    let mut r: Vec<ScannedFile> = Vec::new();
    let mut i: usize = 0;
    proof {
        assert(file_views(files@.subrange(0, 0)) =~= Seq::<ScannedFileView>::empty());
        assert(file_views(r@) =~= Seq::<ScannedFileView>::empty());
        reveal(Seq::filter);
    }
    while i < files.len()
        invariant
            i <= files.len(),
            file_views(r@) == file_views(files@.subrange(0, i as int)).filter(pred),
            pred == (|f: ScannedFileView| spec_selected(f.mtime, w, force)),
        decreases files.len() - i,
    {
        let selected = match w {
            Option::None => true,
            Option::Some(w0) => if force {
                files[i].mtime >= w0
            } else {
                files[i].mtime > w0
            },
        };
        proof {
            let prefix = file_views(files@.subrange(0, i as int));
            let next = file_views(files@.subrange(0, i + 1 as int));
            assert(next.drop_last() =~= prefix);
            assert(next.last() == files@[i as int]@);
            reveal(Seq::filter);
        }
        if selected {
            r.push(files[i].clone());
            proof {
                let prev = file_views(r@.drop_last());
                assert(prev =~= file_views(r@).drop_last());
                assert(file_views(r@) =~= file_views(r@).drop_last().push(files@[i as int]@));
            }
        }
        i = i + 1;
    }
    proof {
        assert(files@.subrange(0, files@.len() as int) =~= files@);
    }
    r
}

/// The newest modification time among `files`; `None` when `files` is empty.
pub fn max_mtime(files: &Vec<ScannedFile>) -> (r: Option<i64>)
    ensures
        match r {
            Option::None => files@.len() == 0,
            Option::Some(m) => files@.len() > 0 && m as int == spec_max_mtime(file_views(files@)),
        },
{
    if files.len() == 0 {
        return None;
    }
    let mut m: i64 = files[0].mtime;
    let mut i: usize = 1;
    proof {
        assert(file_views(files@).subrange(0, 1).len() == 1);
        assert(file_views(files@).subrange(0, 1)[0] == files@[0]@);
    }
    while i < files.len()
        invariant
            1 <= i <= files.len(),
            files@.len() > 0,
            m as int == spec_max_mtime(file_views(files@).subrange(0, i as int)),
        decreases files.len() - i,
    {
        proof {
            let prefix = file_views(files@).subrange(0, i as int);
            let next = file_views(files@).subrange(0, i + 1 as int);
            assert(next.drop_last() =~= prefix);
            assert(next.last() == files@[i as int]@);
        }
        if files[i].mtime > m {
            m = files[i].mtime;
        }
        i = i + 1;
    }
    proof {
        assert(file_views(files@).subrange(0, files@.len() as int) =~= file_views(files@));
    }
    Some(m)
}

/// Every selected file's time lies at the selection boundary or after it, and
/// the maximum over a non-empty selection is itself selected, so it lies
/// strictly after the watermark in normal mode and at or after it under
/// force.
pub proof fn lemma_max_selected(s: Seq<ScannedFileView>, w: Option<i64>, force: bool)
    requires
        spec_select(s, w, force).len() > 0,
    ensures
        spec_selected(spec_max_mtime(spec_select(s, w, force)) as i64, w, force),
        forall|i: int|
            0 <= i < spec_select(s, w, force).len() ==> spec_select(s, w, force)[i].mtime as int
                <= spec_max_mtime(spec_select(s, w, force)),
    decreases s.len(),
{
    let sel = spec_select(s, w, force);
    lemma_max_in_range(sel);
    broadcast use vstd::seq_lib::group_filter_ensures;

    let m = spec_max_mtime(sel);
    let k = choose|k: int| 0 <= k < sel.len() && sel[k].mtime as int == m;
    assert(spec_selected(sel[k].mtime, w, force));
    assert(m <= i64::MAX && m >= i64::MIN);
}

/// The maximum of a non-empty sequence bounds every element and is attained.
pub proof fn lemma_max_in_range(s: Seq<ScannedFileView>)
    requires
        s.len() > 0,
    ensures
        forall|i: int| 0 <= i < s.len() ==> s[i].mtime as int <= spec_max_mtime(s),
        exists|i: int| 0 <= i < s.len() && s[i].mtime as int == spec_max_mtime(s),
    decreases s.len(),
{
    if s.len() == 1 {
        assert(s[0].mtime as int == spec_max_mtime(s));
    } else {
        lemma_max_in_range(s.drop_last());
        let m = spec_max_mtime(s);
        if s.last().mtime as int >= spec_max_mtime(s.drop_last()) {
            assert(s[s.len() - 1].mtime as int == m);
        } else {
            let j = choose|i: int|
                0 <= i < s.drop_last().len() && s.drop_last()[i].mtime as int == spec_max_mtime(
                    s.drop_last(),
                );
            assert(s[j].mtime as int == m);
        }
        assert forall|i: int| 0 <= i < s.len() implies s[i].mtime as int <= m by {
            if i < s.len() - 1 {
                assert(s.drop_last()[i] == s[i]);
            }
        }
    }
}

/// Idempotence of change detection: once the watermark stands at the maximum
/// modification time of the previously selected files — and no file changed —
/// a strict (non-force) detection selects nothing.
pub proof fn lemma_second_run_selects_nothing(s: Seq<ScannedFileView>, w: Option<i64>)
    requires
        spec_select(s, w, false).len() > 0,
    ensures
        spec_select(
            s,
            Some(spec_max_mtime(spec_select(s, w, false)) as i64),
            false,
        ).len() == 0,
{
    let m = spec_max_mtime(spec_select(s, w, false));
    lemma_max_selected(s, w, false);
    broadcast use vstd::seq_lib::group_filter_ensures;

    lemma_max_in_range(spec_select(s, w, false));
    let k = choose|k: int|
        0 <= k < spec_select(s, w, false).len() && spec_select(s, w, false)[k].mtime as int == m;
    assert(i64::MIN <= m <= i64::MAX);
    let sel2 = spec_select(s, Some(m as i64), false);
    if sel2.len() > 0 {
        let f = sel2[0];
        assert(sel2.contains(f));
        lemma_filter_member(s, |g: ScannedFileView| spec_selected(g.mtime, Some(m as i64), false), f);
        let i = choose|i: int| 0 <= i < s.len() && s[i] == f;
        assert(spec_selected(f.mtime, Some(m as i64), false));
        assert(f.mtime as int > m);
        lemma_selected_le_max(s, w, i);
        assert(false);
    }
}

/// Helper: whatever a filter keeps was in the sequence it filtered.
proof fn lemma_filter_member(
    s: Seq<ScannedFileView>,
    pred: spec_fn(ScannedFileView) -> bool,
    x: ScannedFileView,
)
    requires
        s.filter(pred).contains(x),
    ensures
        s.contains(x),
    decreases s.len(),
{
    reveal(Seq::filter);
    if s.len() > 0 {
        if s.last() == x {
            assert(s[s.len() - 1] == x);
        } else {
            assert(s.drop_last().filter(pred).contains(x));
            lemma_filter_member(s.drop_last(), pred, x);
            let i = choose|i: int| 0 <= i < s.drop_last().len() && s.drop_last()[i] == x;
            assert(s[i] == x);
        }
    }
}

/// First-run bootstrap: with no watermark to diff against, every scanned
/// file counts as new, in either mode.
pub proof fn lemma_first_run_selects_all(s: Seq<ScannedFileView>, force: bool)
    ensures
        spec_select(s, Option::None, force) == s,
    decreases s.len(),
{
    reveal(Seq::filter);
    if s.len() == 0 {
        assert(spec_select(s, Option::None, force) =~= s);
    } else {
        lemma_first_run_selects_all(s.drop_last(), force);
        assert(spec_select(s, Option::None, force) =~= s);
    }
}

/// Strict-vs-force boundary: a file modified exactly at the watermark is
/// excluded by normal detection and included by forced detection.
pub proof fn lemma_strict_vs_force_boundary(s: Seq<ScannedFileView>, i: int, w: i64)
    requires
        0 <= i < s.len(),
        s[i].mtime == w,
    ensures
        spec_select(s, Some(w), true).contains(s[i]),
        forall|j: int|
            0 <= j < spec_select(s, Some(w), false).len() ==> spec_select(s, Some(w), false)[
                j
            ].mtime != w,
{
    broadcast use vstd::seq_lib::group_filter_ensures;

    assert(spec_selected(s[i].mtime, Some(w), true));
    assert forall|j: int|
        0 <= j < spec_select(s, Some(w), false).len() implies spec_select(s, Some(w), false)[
        j
    ].mtime != w by {
        assert(spec_selected(spec_select(s, Some(w), false)[j].mtime, Some(w), false));
    }
}

/// Helper: an element of `s` that the strict detector selects lies at or
/// below the maximum of the selection.
proof fn lemma_selected_le_max(s: Seq<ScannedFileView>, w: Option<i64>, i: int)
    requires
        0 <= i < s.len(),
        spec_selected(s[i].mtime, w, false),
    ensures
        spec_select(s, w, false).len() > 0,
        s[i].mtime as int <= spec_max_mtime(spec_select(s, w, false)),
{
    broadcast use vstd::seq_lib::group_filter_ensures;

    let sel = spec_select(s, w, false);
    assert(sel.contains(s[i]));
    let k = choose|k: int| 0 <= k < sel.len() && sel[k] == s[i];
    lemma_max_in_range(sel);
}

} // verus!
