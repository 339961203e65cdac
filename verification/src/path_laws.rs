//! Laws of relative paths stated over the text of paths: joining
//! components gives a path that splits back into them, and the relative
//! path from a base, joined onto the base, leads where it should.
use vstd::prelude::*;

use crate::path::{
    comp_text, comps_absolute, file_name_text, join_comps, lemma_relative_no_path, lemma_unix_components,
    law_relative_comps_to_plain_base, law_relative_path_leads_to_target, needs_separator, parents,
    path_components_of, plain_comps, relative_comps, resolve_from, spec_path_relative_from, starts_at_root,
    all_normal, common_prefix_len, law_relative_none_at_parent, parts_on_parent, Comp,
};
use crate::split::{
    lemma_segments_comps_concat, lemma_segments_comps_cur, lemma_segments_concat, lemma_segments_extend,
    lemma_segments_nonempty, segment_comps, segments, segments_comps,
};

verus! {

/// The path that `PathBuf::join` makes of `base` and `s`: `s` itself where
/// it is absolute, else `base`, a separator unless `base` is empty or ends
/// in one, then `s`.
pub open spec fn join_text(base: Seq<char>, s: Seq<char>) -> Seq<char> {
    if starts_at_root(s) {
        s
    } else if needs_separator(base) {
        base + seq!['/'] + s
    } else {
        base + s
    }
}

/// Components that a path can be joined from: the root and `.` only
/// first, and every normal component a file name.
pub open spec fn joinable(cs: Seq<Comp>) -> bool {
    forall|i: int| 0 <= i < cs.len() ==> match #[trigger] cs[i] {
        Comp::RootDir => i == 0,
        Comp::CurDir => i == 0,
        Comp::ParentDir => true,
        Comp::Normal(t) => file_name_text(t),
    }
}

proof fn lemma_single_segment(t: Seq<char>)
    requires
        !t.contains('/'),
    ensures
        segments(t) == seq![t],
{
    let e = Seq::<char>::empty();
    lemma_segments_extend(e, t);
    assert(e + t =~= t);
    assert(segments(e) =~= seq![e]);
    assert(seq![e].drop_last().push(e + t) =~= seq![t]);
}

proof fn lemma_single_comps(t: Seq<char>, keep_cur: bool)
    ensures
        segments_comps(seq![t], keep_cur) == segment_comps(t, keep_cur),
{
    let ss = seq![t];
    assert(ss.drop_last() =~= Seq::<Seq<char>>::empty());
    assert(segments_comps(ss.drop_last(), keep_cur) =~= Seq::<Comp>::empty());
    assert(Seq::<Comp>::empty() + segment_comps(t, keep_cur) =~= segment_comps(t, keep_cur));
}

proof fn lemma_empty_path()
    ensures
        path_components_of(Seq::empty()) == Seq::<Comp>::empty(),
{
    let e = Seq::<char>::empty();
    assert(segments(e) =~= seq![e]);
    lemma_single_comps(e, true);
}

/// A trailing separator adds nothing to a non-empty path.
proof fn lemma_trailing_separator(p: Seq<char>)
    requires
        p.len() > 0,
    ensures
        path_components_of(p.push('/')) == path_components_of(p),
{
    let q = p.push('/');
    assert(q.drop_last() =~= p);
    lemma_segments_nonempty(p);
    let x = segments(p);
    let e = Seq::<char>::empty();
    assert(segments(q) == x.push(e));
    assert(q[0] == p[0]);
    lemma_single_comps(e, false);
    if starts_at_root(p) {
        assert(x.push(e).drop_first() =~= x.drop_first() + seq![e]);
        lemma_segments_comps_concat(x.drop_first(), seq![e], false);
        assert(segments_comps(x.drop_first(), false) + Seq::<Comp>::empty() =~= segments_comps(x.drop_first(), false));
    } else {
        assert(x.push(e) =~= x + seq![e]);
        lemma_segments_comps_concat(x, seq![e], true);
        assert(segments_comps(x, true) + Seq::<Comp>::empty() =~= segments_comps(x, true));
    }
}

/// Text after a separator adds the components of its segments, a leading
/// `.` among them left out.
proof fn lemma_after_separator(a: Seq<char>, s: Seq<char>)
    ensures
        path_components_of(a + seq!['/'] + s) == path_components_of(a + seq!['/']) + segments_comps(segments(s), false),
{
    let e = Seq::<char>::empty();
    lemma_segments_concat(a, s);
    lemma_segments_concat(a, e);
    assert(a + seq!['/'] + e =~= a + seq!['/']);
    assert(segments(e) =~= seq![e]);
    lemma_segments_nonempty(a);
    lemma_single_comps(e, false);
    let x = segments(a);
    let y = segments(s);
    let full = a + seq!['/'] + s;
    let half = a + seq!['/'];
    assert(full[0] == half[0]);
    if starts_at_root(half) {
        assert((x + y).drop_first() =~= x.drop_first() + y);
        assert((x + seq![e]).drop_first() =~= x.drop_first() + seq![e]);
        lemma_segments_comps_concat(x.drop_first(), y, false);
        lemma_segments_comps_concat(x.drop_first(), seq![e], false);
        assert(segments_comps(x.drop_first(), false) + Seq::<Comp>::empty() =~= segments_comps(x.drop_first(), false));
        assert(seq![Comp::RootDir] + (segments_comps(x.drop_first(), false) + segments_comps(y, false))
            =~= seq![Comp::RootDir] + segments_comps(x.drop_first(), false) + segments_comps(y, false));
    } else {
        lemma_segments_comps_concat(x, y, true);
        lemma_segments_comps_concat(x, seq![e], true);
        assert(segments_comps(x, true) + Seq::<Comp>::empty() =~= segments_comps(x, true));
    }
}

/// Joining a relative path without a leading `.` onto any base gives the
/// components of the base followed by those of the path.
pub proof fn law_join_text_components(base: Seq<char>, s: Seq<char>)
    requires
        !starts_at_root(s),
        forall|i: int| 0 <= i < path_components_of(s).len() ==> #[trigger] path_components_of(s)[i] != Comp::CurDir,
    ensures
        path_components_of(join_text(base, s)) == path_components_of(base) + path_components_of(s),
{
    let ss = segments(s);
    lemma_segments_comps_cur(ss);
    assert(segments_comps(ss, false) == path_components_of(s));
    if base.len() == 0 {
        assert(base + s =~= s);
        lemma_empty_path();
        assert(base =~= Seq::<char>::empty());
        assert(Seq::<Comp>::empty() + path_components_of(s) =~= path_components_of(s));
    } else if needs_separator(base) {
        lemma_after_separator(base, s);
        lemma_trailing_separator(base);
        assert(base + seq!['/'] =~= base.push('/'));
    } else {
        let a = base.drop_last();
        assert(base =~= a + seq!['/']);
        assert(base + s =~= a + seq!['/'] + s);
        lemma_after_separator(a, s);
    }
}

/// The text of a component that is neither the root nor empty.
proof fn lemma_comp_text_plain(c: Comp, first: bool)
    requires
        c != Comp::RootDir,
        c matches Comp::Normal(t) ==> file_name_text(t),
    ensures
        comp_text(c).len() > 0,
        !comp_text(c).contains('/'),
        comp_text(c).last() != '/',
        c != Comp::CurDir ==> segment_comps(comp_text(c), first) == seq![c],
        c == Comp::CurDir ==> segment_comps(comp_text(c), true) == seq![c],
{
    let t = comp_text(c);
    assert(t[t.len() - 1] == t.last());
    if t.contains('/') {
        let j = choose|j: int| 0 <= j < t.len() && t[j] == '/';
        match c {
            Comp::Normal(u) => {
                assert(u.contains('/'));
            },
            _ => {},
        }
    }
    match c {
        Comp::CurDir => {},
        Comp::ParentDir => {
            assert(t =~= seq!['.', '.']);
            assert(t != seq!['.']);
        },
        _ => {},
    }
}

/// Joined components split back into themselves.
pub proof fn law_join_splits_back(cs: Seq<Comp>)
    requires
        joinable(cs),
    ensures
        path_components_of(join_comps(cs)) == cs,
        cs.len() > 0 && cs.last() != Comp::RootDir ==> join_comps(cs).len() > 0 && join_comps(cs).last() != '/',
    decreases cs.len(),
{
    let e = Seq::<char>::empty();
    if cs.len() == 0 {
        lemma_empty_path();
        assert(cs =~= Seq::<Comp>::empty());
        return;
    }
    let init = cs.drop_last();
    let l = cs.last();
    let t = comp_text(l);
    assert(joinable(init)) by {
        assert forall|i: int| 0 <= i < init.len() implies match #[trigger] init[i] {
            Comp::RootDir => i == 0,
            Comp::CurDir => i == 0,
            Comp::ParentDir => true,
            Comp::Normal(t) => file_name_text(t),
        } by {
            assert(init[i] == cs[i]);
        }
    }
    assert(cs[cs.len() - 1] == l);
    law_join_splits_back(init);
    let acc = join_comps(init);
    if init.len() == 0 {
        assert(acc =~= e);
        assert(join_comps(cs) =~= t);
        assert(cs =~= seq![l]);
        if l == Comp::RootDir {
            assert(t =~= seq!['/']);
            assert(t.drop_last() =~= e);
            assert(segments(t) == segments(e).push(e));
            assert(segments(e) =~= seq![e]);
            assert(segments(t).drop_first() =~= seq![e]);
            lemma_single_comps(e, false);
            assert(path_components_of(t) =~= seq![Comp::RootDir]);
        } else {
            lemma_comp_text_plain(l, true);
            lemma_single_segment(t);
            lemma_single_comps(t, true);
            assert(t[0] != '/') by {
                assert(!t.contains('/'));
            }
        }
    } else if init =~= seq![Comp::RootDir] {
        assert(cs[1] == l);
        assert(l != Comp::RootDir && l != Comp::CurDir);
        assert(acc =~= seq!['/']) by {
            assert(init.drop_last() =~= Seq::<Comp>::empty());
            assert(init.last() == Comp::RootDir);
            assert(join_comps(init.drop_last()) =~= e);
            assert(!needs_separator(join_comps(init.drop_last())));
            assert(comp_text(init.last()) =~= seq!['/']);
            assert(e + seq!['/'] =~= seq!['/']);
        }
        assert(!needs_separator(acc));
        assert(join_comps(cs) == acc + t);
        lemma_comp_text_plain(l, false);
        lemma_single_segment(t);
        lemma_segments_concat(e, t);
        assert(e + seq!['/'] + t =~= acc + t);
        assert(segments(e) =~= seq![e]);
        assert(segments(acc + t) =~= seq![e] + seq![t]);
        assert((seq![e] + seq![t]).drop_first() =~= seq![t]);
        lemma_single_comps(t, false);
        assert((acc + t)[0] == '/');
        assert(path_components_of(acc + t) =~= seq![Comp::RootDir] + seq![l]);
        assert(cs =~= seq![Comp::RootDir] + seq![l]);
        assert(t[t.len() - 1] == (acc + t).last());
    } else {
        assert(init.last() != Comp::RootDir) by {
            if init.len() == 1 {
                assert(init =~= seq![init[0]]);
                assert(init[0] == init.last());
            } else {
                assert(init.last() == cs[init.len() - 1]);
            }
        }
        assert(needs_separator(acc));
        assert(l != Comp::RootDir && l != Comp::CurDir) by {
            assert(cs.len() - 1 > 0);
        }
        let j = acc + seq!['/'] + t;
        assert(join_comps(cs) == j);
        lemma_comp_text_plain(l, false);
        lemma_single_segment(t);
        lemma_segments_concat(acc, t);
        lemma_segments_nonempty(acc);
        lemma_single_comps(t, false);
        let x = segments(acc);
        assert(j[0] == acc[0]);
        if starts_at_root(acc) {
            assert((x + seq![t]).drop_first() =~= x.drop_first() + seq![t]);
            lemma_segments_comps_concat(x.drop_first(), seq![t], false);
            assert(seq![Comp::RootDir] + (segments_comps(x.drop_first(), false) + seq![l])
                =~= (seq![Comp::RootDir] + segments_comps(x.drop_first(), false)).push(l));
        } else {
            lemma_segments_comps_concat(x, seq![t], true);
            assert(segments_comps(x, true) + seq![l] =~= segments_comps(x, true).push(l));
        }
        assert(init.push(l) =~= cs);
        assert(t[t.len() - 1] == j.last());
    }
}

proof fn lemma_relative_extension(x: Seq<Comp>, y: Seq<Comp>)
    ensures
        relative_comps(x + y, x, Seq::empty()) == Some(y),
    decreases x.len(),
{
    let e = Seq::<Comp>::empty();
    if x.len() == 0 {
        assert(x + y =~= y);
        assert(e + y =~= y);
        if y.len() == 0 {
            assert(y =~= e);
        }
    } else {
        assert((x + y)[0] == x[0]);
        assert((x + y).drop_first() =~= x.drop_first() + y);
        lemma_relative_extension(x.drop_first(), y);
    }
}

proof fn lemma_relative_back(x: Seq<Comp>, y: Seq<Comp>)
    ensures
        relative_comps(x, x + y, Seq::empty()) == Some(parents(y.len())),
    decreases x.len(),
{
    let e = Seq::<Comp>::empty();
    if x.len() == 0 {
        assert(x + y =~= y);
        assert(x =~= e);
        lemma_relative_no_path(y, e);
        assert(e + parents(y.len()) =~= parents(y.len()));
    } else {
        assert((x + y)[0] == x[0]);
        assert((x + y).drop_first() =~= x.drop_first() + y);
        lemma_relative_back(x.drop_first(), y);
    }
}

/// Facts about a relative path of normal components only, and a base it is
/// joined onto.
proof fn lemma_normal_extension(base: Seq<char>, s: Seq<char>)
    requires
        all_normal(path_components_of(s)),
    ensures
        !starts_at_root(s),
        path_components_of(join_text(base, s)) == path_components_of(base) + path_components_of(s),
        comps_absolute(path_components_of(join_text(base, s))) == comps_absolute(path_components_of(base)),
{
    let sc = path_components_of(s);
    let bc = path_components_of(base);
    lemma_unix_components(s);
    if starts_at_root(s) {
        assert(sc[0] is Normal);
    }
    assert forall|i: int| 0 <= i < sc.len() implies #[trigger] sc[i] != Comp::CurDir by {
        assert(sc[i] is Normal);
    }
    law_join_text_components(base, s);
    if bc.len() > 0 {
        assert((bc + sc)[0] == bc[0]);
    } else {
        assert(bc + sc =~= sc);
        if sc.len() > 0 {
            assert(sc[0] is Normal);
        }
    }
}

/// The relative path to a base joined with a relative path of normal
/// components, from that base, is that relative path.
pub proof fn law_relative_to_extension(base: Seq<char>, s: Seq<char>)
    requires
        all_normal(path_components_of(s)),
    ensures
        spec_path_relative_from(join_text(base, s), base) == Some(join_comps(path_components_of(s))),
{
    lemma_normal_extension(base, s);
    lemma_relative_extension(path_components_of(base), path_components_of(s));
}

/// The relative path from a base joined with a relative path of `n` normal
/// components back to that base is `n` times `..`.
pub proof fn law_relative_from_extension(base: Seq<char>, s: Seq<char>)
    requires
        all_normal(path_components_of(s)),
    ensures
        spec_path_relative_from(base, join_text(base, s)) == Some(join_comps(parents(path_components_of(s).len()))),
{
    lemma_normal_extension(base, s);
    lemma_relative_back(path_components_of(base), path_components_of(s));
}

/// For an absolute path and an absolute base with no `..`, the relative
/// path exists, is relative, and joined onto the base leads, once `..` are
/// resolved, where the path itself does.
pub proof fn law_relative_text_round_trip(path: Seq<char>, base: Seq<char>)
    requires
        starts_at_root(path),
        starts_at_root(base),
        forall|i: int| 0 <= i < path_components_of(base).len() ==> #[trigger] path_components_of(base)[i] != Comp::ParentDir,
    ensures
        spec_path_relative_from(path, base) is Some,
        !starts_at_root(spec_path_relative_from(path, base)->0),
        resolve_from(Seq::empty(), path_components_of(join_text(base, spec_path_relative_from(path, base)->0)))
            == resolve_from(Seq::empty(), path_components_of(path)),
{
    let e = Seq::<Comp>::empty();
    let pc = path_components_of(path);
    let bc = path_components_of(base);
    lemma_unix_components(path);
    lemma_unix_components(base);
    assert(plain_comps(bc)) by {
        assert forall|i: int| 0 <= i < bc.len() implies (#[trigger] bc[i] is Normal || (i == 0 && bc[i] == Comp::RootDir)) by {
            if i > 0 {
                assert(bc[i] != Comp::RootDir && bc[i] != Comp::CurDir && bc[i] != Comp::ParentDir);
            }
        }
    }
    law_relative_path_leads_to_target(pc, bc);
    let p = pc.drop_first();
    let b = bc.drop_first();
    assert(all_normal(b)) by {
        assert forall|i: int| 0 <= i < b.len() implies #[trigger] b[i] is Normal by {
            assert(b[i] == bc[i + 1]);
        }
    }
    law_relative_comps_to_plain_base(p, b);
    assert(relative_comps(pc, bc, e) == relative_comps(p, b, e));
    let k = common_prefix_len(p, b);
    let rel = parents((b.len() - k) as nat) + p.skip(k as int);
    assert(relative_comps(pc, bc, e) == Some(rel));
    assert(joinable(rel) && forall|i: int| 0 <= i < rel.len() ==> #[trigger] rel[i] != Comp::CurDir && rel[i] != Comp::RootDir) by {
        assert forall|i: int| 0 <= i < rel.len() implies #[trigger] rel[i] != Comp::CurDir && rel[i] != Comp::RootDir && match rel[i] {
            Comp::RootDir => i == 0,
            Comp::CurDir => i == 0,
            Comp::ParentDir => true,
            Comp::Normal(t) => file_name_text(t),
        } by {
            let n = (b.len() - k) as int;
            if i < n {
                assert(rel[i] == Comp::ParentDir);
            } else {
                assert(rel[i] == pc[1 + k + (i - n)]);
            }
        }
    }
    let t = join_comps(rel);
    law_join_splits_back(rel);
    lemma_unix_components(t);
    if rel.len() > 0 {
        assert(rel[0] != Comp::RootDir);
    }
    assert(spec_path_relative_from(path, base) == Some(t));
    law_join_text_components(base, t);
}

/// The relative path between two texts is missing exactly where the base is
/// absolute and the path is not, or, where both are absolute or both
/// relative, where the base holds a `..` at the point where the two part.
pub proof fn law_relative_text_none(path: Seq<char>, base: Seq<char>)
    ensures
        (spec_path_relative_from(path, base) is None) == if starts_at_root(path) != starts_at_root(base) {
            starts_at_root(base)
        } else {
            parts_on_parent(path_components_of(path), path_components_of(base))
        },
{
    lemma_unix_components(path);
    lemma_unix_components(base);
    law_relative_none_at_parent(path_components_of(path), path_components_of(base));
}

} // verus!
