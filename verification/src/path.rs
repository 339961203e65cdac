//! Lexical path arithmetic: splitting a path into components, joining
//! components back into a path, and computing the path of one location
//! relative to another.
use vstd::prelude::*;

use crate::split::{
    lemma_segments_comps_shape, lemma_segments_no_separator, lemma_segments_nonempty, segments,
    segments_comps,
};

verus! {

/// The mathematical view of one path component.
pub enum Comp {
    RootDir,
    CurDir,
    ParentDir,
    Normal(Seq<char>),
}

/// One component of a path, as `std::path::Path::components` yields it
/// on Unix targets.
pub enum PathComponent {
    /// The leading `/` of an absolute path.
    RootDir,
    /// A leading `.`.
    CurDir,
    /// A `..`.
    ParentDir,
    /// Any other component, such as `src` in `src/lib.rs`.
    Normal(String),
}

impl DeepView for PathComponent {
    type V = Comp;

    open spec fn deep_view(&self) -> Comp {
        match self {
            PathComponent::RootDir => Comp::RootDir,
            PathComponent::CurDir => Comp::CurDir,
            PathComponent::ParentDir => Comp::ParentDir,
            PathComponent::Normal(s) => Comp::Normal(s@),
        }
    }
}

impl PathComponent {
    /// A copy of this component.
    pub fn duplicate(&self) -> (r: PathComponent)
        ensures
            r.deep_view() == self.deep_view(),
    {
        match self {
            PathComponent::RootDir => PathComponent::RootDir,
            PathComponent::CurDir => PathComponent::CurDir,
            PathComponent::ParentDir => PathComponent::ParentDir,
            PathComponent::Normal(s) => PathComponent::Normal(s.clone()),
        }
    }

    /// Whether two components are the same component.
    pub fn same_as(&self, other: &PathComponent) -> (r: bool)
        ensures
            r == (self.deep_view() == other.deep_view()),
    {
        match (self, other) {
            (PathComponent::RootDir, PathComponent::RootDir) => true,
            (PathComponent::CurDir, PathComponent::CurDir) => true,
            (PathComponent::ParentDir, PathComponent::ParentDir) => true,
            (PathComponent::Normal(a), PathComponent::Normal(b)) => a.eq(b),
            _ => false,
        }
    }
}

/// The components that `std::path::Path::components` yields for a path on
/// Unix: a leading `/` is the root directory; the rest splits at each `/`;
/// empty pieces (repeated or trailing separators) and `.` are left out,
/// except a `.` at the very start of a path without root; `..` is the
/// parent directory and any other piece a normal component.
pub open spec fn path_components_of(path: Seq<char>) -> Seq<Comp> {
    if starts_at_root(path) {
        seq![Comp::RootDir] + segments_comps(segments(path).drop_first(), false)
    } else {
        segments_comps(segments(path), true)
    }
}

/// Whether a normal component's text is a proper file name: not empty,
/// free of the separator `/`, and neither `.` nor `..`.
pub open spec fn file_name_text(s: Seq<char>) -> bool {
    s.len() > 0 && !s.contains('/') && s != seq!['.'] && s != seq!['.', '.']
}

/// The shape of the components of a path: the root directory comes first
/// and only first, and exactly when the text begins with `/`; a `.`
/// survives only as the first component; every normal component is a file
/// name.
pub open spec fn unix_components(path: Seq<char>, cs: Seq<Comp>) -> bool {
    &&& forall|i: int| 0 < i < cs.len() ==> #[trigger] cs[i] != Comp::RootDir && cs[i] != Comp::CurDir
    &&& forall|i: int| 0 <= i < cs.len() ==> (#[trigger] cs[i] matches Comp::Normal(t) ==> file_name_text(t))
    &&& comps_absolute(cs) == starts_at_root(path)
}

/// The components of every path have the shape of `unix_components`.
pub proof fn lemma_unix_components(path: Seq<char>)
    ensures
        unix_components(path, path_components_of(path)),
{
    lemma_segments_no_separator(path);
    lemma_segments_nonempty(path);
    let ss = segments(path);
    if starts_at_root(path) {
        let rest = ss.drop_first();
        assert forall|i: int| 0 <= i < rest.len() implies !(#[trigger] rest[i]).contains('/') by {
            assert(rest[i] == ss[i + 1]);
        }
        lemma_segments_comps_shape(rest, false);
        let tail = segments_comps(rest, false);
        let cs = path_components_of(path);
        assert forall|i: int| 0 < i < cs.len() implies #[trigger] cs[i] != Comp::RootDir && cs[i] != Comp::CurDir by {
            assert(cs[i] == tail[i - 1]);
        }
        assert forall|i: int| 0 <= i < cs.len() implies (#[trigger] cs[i] matches Comp::Normal(t) ==> file_name_text(t)) by {
            if i > 0 {
                assert(cs[i] == tail[i - 1]);
            }
        }
    } else {
        lemma_segments_comps_shape(ss, true);
    }
}

/// Splits `path` into its components with `std::path::Path::components`.
///
/// Trusted: the contract claims that the result is, converted one for one,
/// what std's documentation says `components` yields on Unix
/// (`path_components_of`): repeated separators and a trailing separator
/// are ignored, `.` is normalized away except at the beginning of the path,
/// the root directory comes before anything else and is there where the
/// path begins with `/`, `..` is the parent directory. On Unix std never
/// yields a `Prefix` component; the arm that converts one exists only
/// because the match must be exhaustive.
#[verifier::external_body]
fn std_path_components(path: &str) -> (r: Vec<PathComponent>)
    ensures
        r.deep_view() == path_components_of(path@),
{
    std::path::Path::new(path).components().map(|c| match c {
        std::path::Component::Prefix(p) => PathComponent::Normal(p.as_os_str().to_string_lossy().into_owned()),
        std::path::Component::RootDir => PathComponent::RootDir,
        std::path::Component::CurDir => PathComponent::CurDir,
        std::path::Component::ParentDir => PathComponent::ParentDir,
        std::path::Component::Normal(s) => PathComponent::Normal(s.to_string_lossy().into_owned()),
    }).collect()
}

/// The components of `path`.
pub fn components(path: &str) -> (r: Vec<PathComponent>)
    ensures
        r.deep_view() == path_components_of(path@),
        unix_components(path@, r.deep_view()),
{
    proof { lemma_unix_components(path@); }
    std_path_components(path)
}

/// A path is absolute when its components begin with the root directory.
pub open spec fn comps_absolute(cs: Seq<Comp>) -> bool {
    cs.len() > 0 && cs[0] == Comp::RootDir
}

/// Whether the path with these components is absolute.
pub fn is_absolute(cs: &Vec<PathComponent>) -> (r: bool)
    ensures
        r == comps_absolute(cs.deep_view()),
{
    if cs.len() == 0 {
        false
    } else {
        match &cs[0] {
            PathComponent::RootDir => true,
            _ => false,
        }
    }
}

/// `n` copies of the parent-directory component.
pub open spec fn parents(n: nat) -> Seq<Comp> {
    Seq::new(n, |i: int| Comp::ParentDir)
}

/// The components of the path that leads from the location `b` to the
/// location `a`, given the components `acc` gathered so far; `None` where
/// `b` climbs out through a `..` that cannot be undone.
pub open spec fn relative_comps(a: Seq<Comp>, b: Seq<Comp>, acc: Seq<Comp>) -> Option<Seq<Comp>>
    decreases a.len() + b.len(),
{
    if a.len() == 0 && b.len() == 0 {
        Some(acc)
    } else if b.len() == 0 {
        Some(acc + a)
    } else if a.len() == 0 {
        relative_comps(a, b.drop_first(), acc.push(Comp::ParentDir))
    } else if acc.len() == 0 && a[0] == b[0] {
        relative_comps(a.drop_first(), b.drop_first(), acc)
    } else if b[0] == Comp::CurDir {
        relative_comps(a.drop_first(), b.drop_first(), acc.push(a[0]))
    } else if b[0] == Comp::ParentDir {
        None
    } else {
        Some(acc.push(Comp::ParentDir) + parents((b.len() - 1) as nat) + a)
    }
}

/// Appends copies of `src[from..]` to `dst`.
fn extend_from(dst: &mut Vec<PathComponent>, src: &Vec<PathComponent>, from: usize)
    requires
        from <= src.len(),
    ensures
        final(dst).deep_view() == old(dst).deep_view() + src.deep_view().skip(from as int),
{
    let mut k = from;
    while k < src.len()
        invariant
            from <= k <= src.len(),
            dst.deep_view() == old(dst).deep_view() + src.deep_view().subrange(from as int, k as int),
        decreases src.len() - k,
    {
        let c = src[k].duplicate();
        let ghost before = dst.deep_view();
        dst.push(c);
        assert(dst.deep_view() =~= before.push(src.deep_view()[k as int]));
        k = k + 1;
        assert(dst.deep_view() =~= old(dst).deep_view() + src.deep_view().subrange(from as int, k as int));
    }
    assert(src.deep_view().subrange(from as int, src.len() as int) =~= src.deep_view().skip(from as int));
}

/// The components of the path that leads from the location with components
/// `base` to the location with components `path`. `None` where `base` holds
/// a `..` past the point where the two part ways.
pub fn relative_components(path: &Vec<PathComponent>, base: &Vec<PathComponent>) -> (r: Option<Vec<PathComponent>>)
    ensures
        r.deep_view() == relative_comps(path.deep_view(), base.deep_view(), Seq::empty()),
{
    let mut i: usize = 0;
    let mut j: usize = 0;
    let mut comps: Vec<PathComponent> = Vec::new();
    let ghost a = path.deep_view();
    let ghost b = base.deep_view();
    assert(a.skip(0) =~= a);
    assert(b.skip(0) =~= b);
    assert(comps.deep_view() =~= Seq::<Comp>::empty());
    loop
        invariant
            i <= path.len(),
            j <= base.len(),
            a == path.deep_view(),
            b == base.deep_view(),
            relative_comps(a.skip(i as int), b.skip(j as int), comps.deep_view())
                == relative_comps(a, b, Seq::empty()),
        decreases (path.len() - i) + (base.len() - j),
    {
        let ghost ai = a.skip(i as int);
        let ghost bj = b.skip(j as int);
        if i == path.len() && j == base.len() {
            assert(ai.len() == 0 && bj.len() == 0);
            return Some(comps);
        } else if j == base.len() {
            assert(bj.len() == 0);
            extend_from(&mut comps, path, i);
            return Some(comps);
        } else if i == path.len() {
            assert(ai.len() == 0);
            let ghost prev = comps.deep_view();
            comps.push(PathComponent::ParentDir);
            assert(comps.deep_view() =~= prev.push(Comp::ParentDir));
            j = j + 1;
            assert(bj.drop_first() =~= b.skip(j as int));
        } else if comps.len() == 0 && path[i].same_as(&base[j]) {
            assert(ai[0] == a[i as int] && bj[0] == b[j as int]);
            i = i + 1;
            j = j + 1;
            assert(ai.drop_first() =~= a.skip(i as int));
            assert(bj.drop_first() =~= b.skip(j as int));
        } else {
            assert(ai[0] == a[i as int] && bj[0] == b[j as int]);
            assert(comps.len() == 0 <==> comps.deep_view().len() == 0);
            match &base[j] {
                PathComponent::CurDir => {
                    let c = path[i].duplicate();
                    let ghost prev = comps.deep_view();
                    comps.push(c);
                    assert(comps.deep_view() =~= prev.push(ai[0]));
                    i = i + 1;
                    j = j + 1;
                    assert(ai.drop_first() =~= a.skip(i as int));
                    assert(bj.drop_first() =~= b.skip(j as int));
                },
                PathComponent::ParentDir => {
                    return None;
                },
                _ => {
                    let ghost before = comps.deep_view();
                    comps.push(PathComponent::ParentDir);
                    assert(comps.deep_view() =~= before.push(Comp::ParentDir));
                    let mut k = j + 1;
                    assert(comps.deep_view() =~= before.push(Comp::ParentDir) + parents(0));
                    while k < base.len()
                        invariant
                            j < k <= base.len(),
                            comps.deep_view() == before.push(Comp::ParentDir) + parents((k - j - 1) as nat),
                        decreases base.len() - k,
                    {
                        let ghost prev = comps.deep_view();
                        comps.push(PathComponent::ParentDir);
                        assert(comps.deep_view() =~= prev.push(Comp::ParentDir));
                        k = k + 1;
                        assert(comps.deep_view() =~= before.push(Comp::ParentDir) + parents((k - j - 1) as nat));
                    }
                    assert(path.deep_view().skip(i as int) == ai);
                    extend_from(&mut comps, path, i);
                    return Some(comps);
                },
            }
        }
    }
}

/// The text of one component.
pub open spec fn comp_text(c: Comp) -> Seq<char> {
    match c {
        Comp::RootDir => seq!['/'],
        Comp::CurDir => seq!['.'],
        Comp::ParentDir => seq!['.', '.'],
        Comp::Normal(s) => s,
    }
}

/// Whether appending a component to the text `acc` needs a separator first.
pub open spec fn needs_separator(acc: Seq<char>) -> bool {
    acc.len() > 0 && acc.last() != '/'
}

/// The path that pushing each of `cs` in turn onto an empty path builds:
/// the texts of the components, with a `/` between two of them unless the
/// text so far already ends in one.
pub open spec fn join_comps(cs: Seq<Comp>) -> Seq<char>
    decreases cs.len(),
{
    if cs.len() == 0 {
        Seq::empty()
    } else {
        let acc = join_comps(cs.drop_last());
        if needs_separator(acc) {
            acc + seq!['/'] + comp_text(cs.last())
        } else {
            acc + comp_text(cs.last())
        }
    }
}

/// Appends the text of one component.
fn push_text(out: &mut String, c: &PathComponent)
    ensures
        final(out)@ == old(out)@ + comp_text(c.deep_view()),
{
    match c {
        PathComponent::RootDir => {
            proof { reveal_strlit("/"); }
            out.append("/");
        },
        PathComponent::CurDir => {
            proof { reveal_strlit("."); }
            out.append(".");
        },
        PathComponent::ParentDir => {
            proof { reveal_strlit(".."); }
            out.append("..");
        },
        PathComponent::Normal(s) => {
            out.append(s.as_str());
        },
    }
}

/// The path that the components `cs` make up.
pub fn join(cs: &Vec<PathComponent>) -> (r: String)
    ensures
        r@ == join_comps(cs.deep_view()),
{
    let ghost dv = cs.deep_view();
    let mut out = String::new();
    let mut i: usize = 0;
    assert(dv.take(0) =~= Seq::<Comp>::empty());
    while i < cs.len()
        invariant
            i <= cs.len(),
            dv == cs.deep_view(),
            out@ == join_comps(dv.take(i as int)),
        decreases cs.len() - i,
    {
        let ghost acc = out@;
        let n = out.as_str().unicode_len();
        let sep = if n > 0 {
            let last = out.as_str().get_char(n - 1);
            last != '/'
        } else {
            false
        };
        assert(sep == needs_separator(acc));
        if sep {
            proof { reveal_strlit("/"); }
            out.append("/");
        }
        push_text(&mut out, &cs[i]);
        assert(dv.take(i + 1).drop_last() =~= dv.take(i as int));
        assert(dv.take(i + 1).last() == dv[i as int]);
        i = i + 1;
    }
    assert(dv.take(cs.len() as int) =~= dv);
    out
}

/// Whether the text of a path begins with the separator `/`.
pub open spec fn starts_at_root(path: Seq<char>) -> bool {
    path.len() > 0 && path[0] == '/'
}

/// The relative path from `base` to `path`: `path` itself where `path` is
/// absolute and `base` is not, `None` where `base` is absolute and `path`
/// is not, and otherwise the joined components of `relative_comps`.
pub open spec fn spec_path_relative_from(path: Seq<char>, base: Seq<char>) -> Option<Seq<char>> {
    let pc = path_components_of(path);
    let bc = path_components_of(base);
    if comps_absolute(pc) != comps_absolute(bc) {
        if comps_absolute(pc) {
            Some(path)
        } else {
            None
        }
    } else {
        match relative_comps(pc, bc, Seq::empty()) {
            Some(cs) => Some(join_comps(cs)),
            None => None,
        }
    }
}

/// Gets the relative path from the directory `base` to `path`, if it exists.
pub fn path_relative_from(path: &str, base: &str) -> (r: Option<String>)
    ensures
        r.deep_view() == spec_path_relative_from(path@, base@),
        starts_at_root(path@) && !starts_at_root(base@) ==> r.deep_view() == Some(path@),
        !starts_at_root(path@) && starts_at_root(base@) ==> r is None,
{
    let pc = components(path);
    let bc = components(base);
    let path_abs = is_absolute(&pc);
    let base_abs = is_absolute(&bc);
    if path_abs != base_abs {
        if path_abs {
            Some(path.to_owned())
        } else {
            None
        }
    } else {
        match relative_components(&pc, &bc) {
            Some(cs) => Some(join(&cs)),
            None => None,
        }
    }
}

/// One step of lexical resolution: `.` is dropped, `..` takes back the
/// last normal component where there is one, anything else is appended.
pub open spec fn resolve_step(acc: Seq<Comp>, c: Comp) -> Seq<Comp> {
    match c {
        Comp::CurDir => acc,
        Comp::ParentDir => if acc.len() > 0 && acc.last() is Normal {
            acc.drop_last()
        } else {
            acc.push(Comp::ParentDir)
        },
        _ => acc.push(c),
    }
}

/// Lexical resolution of the components `cs`, continuing from `acc`.
pub open spec fn resolve_from(acc: Seq<Comp>, cs: Seq<Comp>) -> Seq<Comp>
    decreases cs.len(),
{
    if cs.len() == 0 {
        acc
    } else {
        resolve_from(resolve_step(acc, cs[0]), cs.drop_first())
    }
}

/// Components with neither `.` nor `..`, and a root at most at the start:
/// what a canonical directory or file path is made of.
pub open spec fn plain_comps(cs: Seq<Comp>) -> bool {
    forall|i: int| 0 <= i < cs.len() ==> (#[trigger] cs[i] is Normal || (i == 0 && cs[i] == Comp::RootDir))
}

/// Components that are all normal.
pub open spec fn all_normal(cs: Seq<Comp>) -> bool {
    forall|i: int| 0 <= i < cs.len() ==> #[trigger] cs[i] is Normal
}

/// The number of leading components that `a` and `b` share.
pub open spec fn common_prefix_len(a: Seq<Comp>, b: Seq<Comp>) -> nat
    decreases a.len(),
{
    if a.len() > 0 && b.len() > 0 && a[0] == b[0] {
        1 + common_prefix_len(a.drop_first(), b.drop_first())
    } else {
        0
    }
}

proof fn lemma_resolve_append(acc: Seq<Comp>, s: Seq<Comp>, t: Seq<Comp>)
    ensures
        resolve_from(acc, s + t) == resolve_from(resolve_from(acc, s), t),
    decreases s.len(),
{
    if s.len() == 0 {
        assert(s + t =~= t);
    } else {
        assert((s + t).drop_first() =~= s.drop_first() + t);
        lemma_resolve_append(resolve_step(acc, s[0]), s.drop_first(), t);
    }
}

proof fn lemma_resolve_normals(acc: Seq<Comp>, n: Seq<Comp>)
    requires
        all_normal(n),
    ensures
        resolve_from(acc, n) == acc + n,
    decreases n.len(),
{
    if n.len() == 0 {
        assert(acc + n =~= acc);
    } else {
        assert(n[0] is Normal);
        assert(all_normal(n.drop_first())) by {
            assert forall|i: int| 0 <= i < n.drop_first().len() implies #[trigger] n.drop_first()[i] is Normal by {
                assert(n.drop_first()[i] == n[i + 1]);
            }
        }
        lemma_resolve_normals(acc.push(n[0]), n.drop_first());
        assert(acc.push(n[0]) + n.drop_first() =~= acc + n);
    }
}

proof fn lemma_resolve_parents(acc: Seq<Comp>, n: Seq<Comp>, j: nat)
    requires
        all_normal(n),
        j <= n.len(),
    ensures
        resolve_from(acc + n, parents(j)) == acc + n.take(n.len() - j),
    decreases j,
{
    if j == 0 {
        assert(n.take(n.len() as int) =~= n);
    } else {
        let m = (acc + n);
        assert(m.last() == n.last());
        assert(n[n.len() - 1] is Normal);
        assert(resolve_step(m, Comp::ParentDir) =~= acc + n.drop_last());
        assert(parents(j).drop_first() =~= parents((j - 1) as nat));
        assert(all_normal(n.drop_last())) by {
            assert forall|i: int| 0 <= i < n.drop_last().len() implies #[trigger] n.drop_last()[i] is Normal by {
                assert(n.drop_last()[i] == n[i]);
            }
        }
        lemma_resolve_parents(acc, n.drop_last(), (j - 1) as nat);
        assert(n.drop_last().take(n.drop_last().len() - (j - 1)) =~= n.take(n.len() - j));
    }
}

pub(crate) proof fn lemma_relative_no_path(b: Seq<Comp>, acc: Seq<Comp>)
    ensures
        relative_comps(Seq::empty(), b, acc) == Some(acc + parents(b.len())),
    decreases b.len(),
{
    if b.len() == 0 {
        assert(acc + parents(0) =~= acc);
    } else {
        lemma_relative_no_path(b.drop_first(), acc.push(Comp::ParentDir));
        assert(acc.push(Comp::ParentDir) + parents(b.drop_first().len()) =~= acc + parents(b.len()));
    }
}

/// The relative path to any `a` from a base `b` of normal components only:
/// a `..` for each component of `b` past the prefix that the two share,
/// then the rest of `a`.
pub proof fn law_relative_comps_to_plain_base(a: Seq<Comp>, b: Seq<Comp>)
    requires
        all_normal(b),
    ensures
        common_prefix_len(a, b) <= a.len(),
        common_prefix_len(a, b) <= b.len(),
        a.take(common_prefix_len(a, b) as int) == b.take(common_prefix_len(a, b) as int),
        relative_comps(a, b, Seq::empty()) == Some(
            parents((b.len() - common_prefix_len(a, b)) as nat) + a.skip(common_prefix_len(a, b) as int),
        ),
    decreases a.len(),
{
    let k = common_prefix_len(a, b);
    let e = Seq::<Comp>::empty();
    if a.len() == 0 {
        assert(a =~= e);
        lemma_relative_no_path(b, e);
        assert(e + parents(b.len()) =~= parents(b.len()) + a.skip(0));
    } else if b.len() == 0 {
        assert(e + a =~= parents(0) + a.skip(0));
        assert(a.take(0) =~= b.take(0));
    } else if a[0] == b[0] {
        assert(all_normal(b.drop_first())) by {
            assert forall|i: int| 0 <= i < b.drop_first().len() implies #[trigger] b.drop_first()[i] is Normal by {
                assert(b.drop_first()[i] == b[i + 1]);
            }
        }
        law_relative_comps_to_plain_base(a.drop_first(), b.drop_first());
        assert(relative_comps(a, b, e) == relative_comps(a.drop_first(), b.drop_first(), e));
        let k1 = common_prefix_len(a.drop_first(), b.drop_first());
        assert(k == k1 + 1);
        assert(a.drop_first().skip(k1 as int) =~= a.skip(k as int));
        assert(a.take(k as int) =~= seq![a[0]] + a.drop_first().take(k1 as int));
        assert(b.take(k as int) =~= seq![b[0]] + b.drop_first().take(k1 as int));
    } else {
        assert(b[0] is Normal);
        assert(b[0] != Comp::CurDir && b[0] != Comp::ParentDir);
        assert(relative_comps(a, b, e) == Some(e.push(Comp::ParentDir) + parents((b.len() - 1) as nat) + a));
        assert(k == 0);
        assert(e.push(Comp::ParentDir) + parents((b.len() - 1) as nat) + a =~= parents(b.len()) + a.skip(0));
        assert(a.take(0) =~= b.take(0));
    }
}

/// Where the path `a` and the base `b` part: after the prefix they share,
/// except that a base beginning with `.` where the path does not parts
/// one component later.
pub open spec fn parting_index(a: Seq<Comp>, b: Seq<Comp>) -> int {
    let k = common_prefix_len(a, b);
    if k == 0 && a.len() > 0 && b.len() > 0 && b[0] == Comp::CurDir {
        1
    } else {
        k as int
    }
}

/// Whether the base has a `..` where the two paths part.
pub open spec fn parts_on_parent(a: Seq<Comp>, b: Seq<Comp>) -> bool {
    let j = parting_index(a, b);
    j < a.len() && j < b.len() && b[j] == Comp::ParentDir
}

proof fn lemma_common_prefix(a: Seq<Comp>, b: Seq<Comp>)
    ensures
        common_prefix_len(a, b) <= a.len(),
        common_prefix_len(a, b) <= b.len(),
        forall|i: int| 0 <= i < common_prefix_len(a, b) ==> #[trigger] a[i] == b[i],
        common_prefix_len(a, b) < a.len() && common_prefix_len(a, b) < b.len()
            ==> a[common_prefix_len(a, b) as int] != b[common_prefix_len(a, b) as int],
        relative_comps(a, b, Seq::empty()) == relative_comps(
            a.skip(common_prefix_len(a, b) as int),
            b.skip(common_prefix_len(a, b) as int),
            Seq::empty(),
        ),
    decreases a.len(),
{
    if a.len() > 0 && b.len() > 0 && a[0] == b[0] {
        let a1 = a.drop_first();
        let b1 = b.drop_first();
        lemma_common_prefix(a1, b1);
        let k1 = common_prefix_len(a1, b1);
        assert(a1.skip(k1 as int) =~= a.skip(k1 + 1int));
        assert(b1.skip(k1 as int) =~= b.skip(k1 + 1int));
        assert forall|i: int| 0 <= i < k1 + 1 implies #[trigger] a[i] == b[i] by {
            if i > 0 {
                assert(a1[i - 1] == b1[i - 1]);
            }
        }
        if k1 < a1.len() && k1 < b1.len() {
            assert(a1[k1 as int] == a[k1 + 1int] && b1[k1 as int] == b[k1 + 1int]);
        }
    } else {
        assert(a.skip(0) =~= a);
        assert(b.skip(0) =~= b);
    }
}

/// The relative path is missing exactly when the base holds a `..` where
/// the two paths part. Stated for a base in which `.` can come only first,
/// as in every path's components.
pub proof fn law_relative_none_at_parent(a: Seq<Comp>, b: Seq<Comp>)
    requires
        forall|i: int| 0 < i < b.len() ==> #[trigger] b[i] != Comp::CurDir,
    ensures
        (relative_comps(a, b, Seq::empty()) is None) == parts_on_parent(a, b),
{
    let e = Seq::<Comp>::empty();
    lemma_common_prefix(a, b);
    let k = common_prefix_len(a, b);
    let x = a.skip(k as int);
    let y = b.skip(k as int);
    if k == a.len() {
        assert(x =~= e);
        lemma_relative_no_path(y, e);
        assert(relative_comps(a, b, e) is Some);
        assert(!parts_on_parent(a, b));
    } else if k == b.len() {
        assert(y.len() == 0);
        assert(x.len() > 0);
        assert(relative_comps(a, b, e) is Some);
        assert(!parts_on_parent(a, b));
    } else {
        assert(x[0] == a[k as int] && y[0] == b[k as int]);
        if b[k as int] == Comp::CurDir {
            assert(k == 0);
            assert(x =~= a && y =~= b);
            let acc = seq![a[0]];
            assert(e.push(a[0]) =~= acc);
            let x1 = a.drop_first();
            let y1 = b.drop_first();
            assert(relative_comps(a, b, e) == relative_comps(x1, y1, acc));
            assert(parting_index(a, b) == 1);
            if x1.len() == 0 {
                assert(x1 =~= e);
                lemma_relative_no_path(y1, acc);
                assert(relative_comps(x1, y1, acc) is Some);
                assert(!parts_on_parent(a, b));
            } else if y1.len() == 0 {
                assert(relative_comps(x1, y1, acc) is Some);
                assert(!parts_on_parent(a, b));
            } else {
                assert(y1[0] == b[1]);
                assert(b[1] != Comp::CurDir);
                assert(acc.len() == 1);
                if b[1] == Comp::ParentDir {
                    assert(relative_comps(x1, y1, acc) is None);
                    assert(parts_on_parent(a, b));
                } else {
                    assert(relative_comps(x1, y1, acc) is Some);
                    assert(!parts_on_parent(a, b));
                }
            }
            assert(relative_comps(a, b, e) == relative_comps(x1, y1, acc));
        } else {
            assert(parting_index(a, b) == k);
            assert(x[0] != y[0]);
            if b[k as int] == Comp::ParentDir {
                assert(relative_comps(x, y, e) is None);
                assert(parts_on_parent(a, b));
            } else {
                assert(relative_comps(x, y, e) is Some);
                assert(!parts_on_parent(a, b));
            }
            assert(relative_comps(a, b, e) == relative_comps(x, y, e));
        }
    }
}

/// The relative path from a directory to itself is empty.
pub proof fn law_relative_to_itself(path: Seq<char>)
    ensures
        spec_path_relative_from(path, path) == Some(Seq::<char>::empty()),
{
    let pc = path_components_of(path);
    lemma_relative_same(pc);
    assert(join_comps(Seq::empty()) =~= Seq::<char>::empty());
}

proof fn lemma_relative_same(a: Seq<Comp>)
    ensures
        relative_comps(a, a, Seq::empty()) == Some(Seq::<Comp>::empty()),
    decreases a.len(),
{
    if a.len() > 0 {
        lemma_relative_same(a.drop_first());
    }
}

/// Following the relative path from `base` leads to `path`: where `base`
/// is made of plain components (no `.` or `..`) and both are absolute or
/// both relative, the relative components exist, and resolving them after
/// `base` gives what resolving `path` gives; where `path` is plain too, that
/// is `path` itself.
pub proof fn law_relative_path_leads_to_target(path: Seq<Comp>, base: Seq<Comp>)
    requires
        plain_comps(base),
        comps_absolute(path) == comps_absolute(base),
    ensures
        relative_comps(path, base, Seq::empty()) is Some,
        resolve_from(Seq::empty(), base + relative_comps(path, base, Seq::empty())->0)
            == resolve_from(Seq::empty(), path),
        plain_comps(path) ==> resolve_from(Seq::empty(), base + relative_comps(path, base, Seq::empty())->0)
            == path,
{
    let e = Seq::<Comp>::empty();
    // The parts after an optional root.
    let start: int = if comps_absolute(path) { 1 } else { 0 };
    let p = path.skip(start);
    let b = base.skip(start);
    assert(all_normal(b)) by {
        assert forall|i: int| 0 <= i < b.len() implies #[trigger] b[i] is Normal by {
            assert(b[i] == base[i + start]);
            if start == 0 && i == 0 {
                assert(!comps_absolute(base));
            }
        }
    }
    law_relative_comps_to_plain_base(p, b);
    if start == 1 {
        assert(path[0] == base[0]);
        assert(path.drop_first() =~= p);
        assert(base.drop_first() =~= b);
    } else {
        assert(path =~= p);
        assert(base =~= b);
    }
    let k = common_prefix_len(p, b);
    let rel = parents((b.len() - k) as nat) + p.skip(k as int);
    assert(relative_comps(path, base, e) == Some(rel));
    let root = base.take(start);
    assert(base =~= root + b);
    assert(path =~= root + (p.take(k as int) + p.skip(k as int)));
    assert(all_normal(b.take(k as int))) by {
        assert forall|i: int| 0 <= i < b.take(k as int).len() implies #[trigger] b.take(k as int)[i] is Normal by {
            assert(b.take(k as int)[i] == b[i]);
        }
    }
    assert(resolve_from(e, root) == root) by {
        if start == 1 {
            assert(root =~= seq![Comp::RootDir]);
            assert(root.drop_first() =~= e);
            assert(root[0] == Comp::RootDir);
            assert(resolve_step(e, Comp::RootDir) == e.push(Comp::RootDir));
            assert(resolve_from(e.push(Comp::RootDir), e) == e.push(Comp::RootDir));
            assert(e.push(Comp::RootDir) =~= root);
        } else {
            assert(root =~= e);
        }
    }
    // Resolving base + rel.
    assert(base + rel =~= root + (b + (parents((b.len() - k) as nat) + p.skip(k as int))));
    assert(b + (parents((b.len() - k) as nat) + p.skip(k as int)) =~= (b + parents((b.len() - k) as nat)) + p.skip(k as int));
    lemma_resolve_append(e, root, b + (parents((b.len() - k) as nat) + p.skip(k as int)));
    lemma_resolve_append(root, b + parents((b.len() - k) as nat), p.skip(k as int));
    lemma_resolve_append(root, b, parents((b.len() - k) as nat));
    lemma_resolve_normals(root, b);
    lemma_resolve_parents(root, b, (b.len() - k) as nat);
    assert(b.take(b.len() - (b.len() - k)) =~= b.take(k as int));
    // Resolving path.
    lemma_resolve_append(e, root, p.take(k as int) + p.skip(k as int));
    lemma_resolve_append(root, p.take(k as int), p.skip(k as int));
    lemma_resolve_normals(root, b.take(k as int));
    assert(resolve_from(e, base + rel) == resolve_from(e, path));
    if plain_comps(path) {
        assert(all_normal(p.skip(k as int))) by {
            assert forall|i: int| 0 <= i < p.skip(k as int).len() implies #[trigger] p.skip(k as int)[i] is Normal by {
                assert(p.skip(k as int)[i] == path[i + k + start]);
                if start == 0 && i + k == 0 {
                    assert(!comps_absolute(path));
                }
            }
        }
        lemma_resolve_normals(root + b.take(k as int), p.skip(k as int));
        assert(root + b.take(k as int) + p.skip(k as int) =~= path);
    }
}

} // verus!
