//! How the text of a Unix path splits at its separators, and how the
//! pieces become components.
use vstd::prelude::*;

use crate::path::{file_name_text, Comp};

verus! {

/// The texts between the separators `/` of a path, in order: a path with
/// `n` separators has `n + 1` of them, some possibly empty.
pub open spec fn segments(s: Seq<char>) -> Seq<Seq<char>>
    decreases s.len(),
{
    if s.len() == 0 {
        seq![Seq::empty()]
    } else {
        let r = segments(s.drop_last());
        if s.last() == '/' {
            r.push(Seq::empty())
        } else {
            r.update(r.len() - 1, r.last().push(s.last()))
        }
    }
}

/// The component that one segment stands for: none for an empty segment,
/// `.` only where a leading `.` is kept, `..` the parent directory, and any
/// other text a normal component.
pub open spec fn segment_comps(seg: Seq<char>, keep_cur: bool) -> Seq<Comp> {
    if seg.len() == 0 {
        Seq::empty()
    } else if seg == seq!['.'] {
        if keep_cur {
            seq![Comp::CurDir]
        } else {
            Seq::empty()
        }
    } else if seg == seq!['.', '.'] {
        seq![Comp::ParentDir]
    } else {
        seq![Comp::Normal(seg)]
    }
}

/// The components of a run of segments; a `.` is kept only as the very
/// first segment, and only where `keep_cur` allows it.
pub open spec fn segments_comps(ss: Seq<Seq<char>>, keep_cur: bool) -> Seq<Comp>
    decreases ss.len(),
{
    if ss.len() == 0 {
        Seq::empty()
    } else {
        segments_comps(ss.drop_last(), keep_cur) + segment_comps(ss.last(), keep_cur && ss.len() == 1)
    }
}

pub proof fn lemma_segments_nonempty(s: Seq<char>)
    ensures
        segments(s).len() >= 1,
    decreases s.len(),
{
    if s.len() > 0 {
        lemma_segments_nonempty(s.drop_last());
    }
}

/// No segment holds a separator.
pub proof fn lemma_segments_no_separator(s: Seq<char>)
    ensures
        forall|i: int| 0 <= i < segments(s).len() ==> !(#[trigger] segments(s)[i]).contains('/'),
    decreases s.len(),
{
    if s.len() > 0 {
        lemma_segments_no_separator(s.drop_last());
        lemma_segments_nonempty(s.drop_last());
        let r = segments(s.drop_last());
        if s.last() != '/' {
            assert forall|i: int| 0 <= i < segments(s).len() implies !(#[trigger] segments(s)[i]).contains('/') by {
                if i == r.len() - 1 {
                    let t = r.last().push(s.last());
                    assert(segments(s)[i] == t);
                    if t.contains('/') {
                        let j = choose|j: int| 0 <= j < t.len() && t[j] == '/';
                        if j < r.last().len() {
                            assert(r.last()[j] == '/');
                            assert(r[r.len() - 1].contains('/'));
                        }
                    }
                } else {
                    assert(segments(s)[i] == r[i]);
                }
            }
        } else {
            assert forall|i: int| 0 <= i < segments(s).len() implies !(#[trigger] segments(s)[i]).contains('/') by {
                if i < r.len() {
                    assert(segments(s)[i] == r[i]);
                } else {
                    assert(segments(s)[i] =~= Seq::<char>::empty());
                }
            }
        }
    }
}

/// Appending text with no separator extends the last segment.
pub proof fn lemma_segments_extend(s: Seq<char>, t: Seq<char>)
    requires
        !t.contains('/'),
    ensures
        segments(s + t) == segments(s).drop_last().push(segments(s).last() + t),
    decreases t.len(),
{
    lemma_segments_nonempty(s);
    if t.len() == 0 {
        assert(s + t =~= s);
        assert(segments(s).last() + t =~= segments(s).last());
        assert(segments(s).drop_last().push(segments(s).last()) =~= segments(s));
    } else {
        let t0 = t.drop_last();
        assert(!t0.contains('/')) by {
            if t0.contains('/') {
                let j = choose|j: int| 0 <= j < t0.len() && t0[j] == '/';
                assert(t[j] == '/');
            }
        }
        lemma_segments_extend(s, t0);
        assert((s + t).drop_last() =~= s + t0);
        assert((s + t).last() == t.last());
        assert(t.last() != '/') by {
            assert(t[t.len() - 1] == t.last());
        }
        let r = segments(s + t0);
        assert(r.len() == segments(s).len());
        assert(segments(s + t) == r.update(r.len() - 1, r.last().push(t.last())));
        assert(r.last() == segments(s).last() + t0);
        assert(r.last().push(t.last()) =~= segments(s).last() + t);
        assert(segments(s + t) =~= segments(s).drop_last().push(segments(s).last() + t));
    }
}

/// A separator between two texts puts their segments side by side.
pub proof fn lemma_segments_concat(a: Seq<char>, b: Seq<char>)
    ensures
        segments(a + seq!['/'] + b) == segments(a) + segments(b),
    decreases b.len(),
{
    let e = Seq::<char>::empty();
    if b.len() == 0 {
        assert(a + seq!['/'] + b =~= a.push('/'));
        assert(a.push('/').drop_last() =~= a);
        assert(segments(a) + segments(b) =~= segments(a).push(e));
    } else {
        let b0 = b.drop_last();
        let c = b.last();
        lemma_segments_concat(a, b0);
        lemma_segments_nonempty(b0);
        assert((a + seq!['/'] + b).drop_last() =~= a + seq!['/'] + b0);
        assert((a + seq!['/'] + b).last() == c);
        let r = segments(a + seq!['/'] + b0);
        if c == '/' {
            assert(segments(a) + segments(b) =~= (segments(a) + segments(b0)).push(e));
        } else {
            assert(segments(b) == segments(b0).update(segments(b0).len() - 1, segments(b0).last().push(c)));
            assert(segments(a) + segments(b) =~= r.update(r.len() - 1, r.last().push(c)));
        }
    }
}

/// Components of two runs of segments side by side.
pub proof fn lemma_segments_comps_concat(x: Seq<Seq<char>>, y: Seq<Seq<char>>, keep_cur: bool)
    ensures
        segments_comps(x + y, keep_cur) == segments_comps(x, keep_cur) + segments_comps(y, keep_cur && x.len() == 0),
    decreases y.len(),
{
    if y.len() == 0 {
        assert(x + y =~= x);
        assert(segments_comps(x, keep_cur) + Seq::<Comp>::empty() =~= segments_comps(x, keep_cur));
    } else {
        lemma_segments_comps_concat(x, y.drop_last(), keep_cur);
        assert((x + y).drop_last() =~= x + y.drop_last());
        assert((x + y).last() == y.last());
        assert(segments_comps(x + y, keep_cur) =~= segments_comps(x, keep_cur) + segments_comps(y, keep_cur && x.len() == 0));
    }
}

/// Where the first segment is not `.`, keeping a leading `.` changes
/// nothing; where it is, the components begin with `.`.
pub proof fn lemma_segments_comps_cur(ss: Seq<Seq<char>>)
    ensures
        !(ss.len() > 0 && ss[0] == seq!['.']) ==> segments_comps(ss, true) == segments_comps(ss, false),
        (ss.len() > 0 && ss[0] == seq!['.']) ==> segments_comps(ss, true).len() > 0
            && segments_comps(ss, true)[0] == Comp::CurDir,
    decreases ss.len(),
{
    let e = Seq::<Comp>::empty();
    if ss.len() > 1 {
        lemma_segments_comps_cur(ss.drop_last());
        assert(ss.drop_last()[0] == ss[0]);
        assert(segments_comps(ss, true) == segments_comps(ss.drop_last(), true) + segment_comps(ss.last(), false));
        assert(segments_comps(ss, false) == segments_comps(ss.drop_last(), false) + segment_comps(ss.last(), false));
    } else if ss.len() == 1 {
        assert(ss.drop_last() =~= Seq::<Seq<char>>::empty());
        assert(ss.last() == ss[0]);
        assert(segments_comps(ss.drop_last(), true) == e);
        assert(segments_comps(ss.drop_last(), false) == e);
        assert(segments_comps(ss, true) =~= segment_comps(ss[0], true));
        assert(segments_comps(ss, false) =~= segment_comps(ss[0], false));
    }
}

/// The shape of the components of a run of segments that hold no
/// separator: never the root, `.` only first and only where kept, and
/// every normal component a file name.
pub proof fn lemma_segments_comps_shape(ss: Seq<Seq<char>>, keep_cur: bool)
    requires
        forall|i: int| 0 <= i < ss.len() ==> !(#[trigger] ss[i]).contains('/'),
    ensures
        forall|i: int| 0 <= i < segments_comps(ss, keep_cur).len() ==> {
            let c = #[trigger] segments_comps(ss, keep_cur)[i];
            &&& c != Comp::RootDir
            &&& c == Comp::CurDir ==> i == 0 && keep_cur
            &&& c matches Comp::Normal(t) ==> file_name_text(t)
        },
    decreases ss.len(),
{
    if ss.len() > 0 {
        let init = ss.drop_last();
        assert forall|i: int| 0 <= i < init.len() implies !(#[trigger] init[i]).contains('/') by {
            assert(init[i] == ss[i]);
        }
        lemma_segments_comps_shape(init, keep_cur);
        let prev = segments_comps(init, keep_cur);
        let last = ss.last();
        assert(!last.contains('/')) by {
            assert(last == ss[ss.len() - 1]);
        }
        let k = keep_cur && ss.len() == 1;
        if k {
            assert(init.len() == 0);
            assert(prev =~= Seq::<Comp>::empty());
        }
        assert forall|i: int| 0 <= i < segments_comps(ss, keep_cur).len() implies {
            let c = #[trigger] segments_comps(ss, keep_cur)[i];
            &&& c != Comp::RootDir
            &&& c == Comp::CurDir ==> i == 0 && keep_cur
            &&& c matches Comp::Normal(t) ==> file_name_text(t)
        } by {
            if i < prev.len() {
                assert(segments_comps(ss, keep_cur)[i] == prev[i]);
            } else {
                assert(segments_comps(ss, keep_cur)[i] == segment_comps(last, k)[i - prev.len()]);
            }
        }
    }
}

} // verus!
