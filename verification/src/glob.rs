//! Exclusion globs: how a glob becomes a regular expression, and whether it
//! matches a path.
use vstd::prelude::*;

verus! {

/// The regular-expression text that one glob character becomes: `.` is
/// escaped, `*` becomes `.*`, any other character stands for itself.
pub open spec fn glob_char_regex(c: char) -> Seq<char> {
    if c == '.' {
        seq!['\\', '.']
    } else if c == '*' {
        seq!['.', '*']
    } else {
        seq![c]
    }
}

/// The regular expression that a glob becomes, character by character.
pub open spec fn glob_to_regex(g: Seq<char>) -> Seq<char>
    decreases g.len(),
{
    if g.len() == 0 {
        Seq::empty()
    } else {
        glob_to_regex(g.drop_last()) + glob_char_regex(g.last())
    }
}

/// Converts an exclusion glob into the regular expression it stands for.
pub fn glob_regex(glob: &str) -> (r: String)
    ensures
        r@ == glob_to_regex(glob@),
{
    let n = glob.unicode_len();
    let mut out = String::new();
    let mut i: usize = 0;
    assert(glob@.take(0) =~= Seq::<char>::empty());
    while i < n
        invariant
            i <= n,
            n == glob@.len(),
            out@ == glob_to_regex(glob@.take(i as int)),
        decreases n - i,
    {
        let c = glob.get_char(i);
        if c == '.' {
            proof { reveal_strlit("\\."); }
            out.append("\\.");
        } else if c == '*' {
            proof { reveal_strlit(".*"); }
            out.append(".*");
        } else {
            let one = glob.substring_char(i, i + 1);
            assert(one@ =~= seq![c]);
            out.append(one);
        }
        assert(glob@.take(i + 1).drop_last() =~= glob@.take(i as int));
        assert(glob@.take(i + 1).last() == c);
        i = i + 1;
    }
    assert(glob@.take(n as int) =~= glob@);
    out
}

#[verifier::external_type_specification]
#[verifier::external_body]
pub struct ExRegex(regex::Regex);

/// Whether `regex::Regex::new` accepts the pattern.
pub uninterp spec fn regex_compiles(pattern: Seq<char>) -> bool;

/// Whether the regex that `regex::Regex::new` builds from the pattern
/// matches somewhere in the haystack (`regex::Regex::is_match`).
pub uninterp spec fn regex_finds(pattern: Seq<char>, haystack: Seq<char>) -> bool;

/// A regular expression together with the pattern it was compiled from.
/// The fields are private, and only `regex_new` builds one, from the
/// regex that `Regex::new` compiled out of `source`; `regex_is_match`
/// relies on that pairing.
pub struct Pattern {
    source: String,
    regex: regex::Regex,
}

/// Compiles a pattern with `regex::Regex::new` and keeps the regex beside
/// the pattern it came from.
///
/// Trusted: the contract claims only that success is the named outcome of
/// compiling this pattern (`Regex::new` depends on the pattern alone, with
/// the default size limit) and that the result holds the pattern it was
/// given. The body pairs the compiled regex with exactly that pattern.
#[verifier::external_body]
fn regex_new(pattern: String) -> (r: Option<Pattern>)
    ensures
        r is Some == regex_compiles(pattern@),
        r matches Some(p) ==> p@ == pattern@,
{
    match regex::Regex::new(&pattern) {
        Ok(regex) => Some(Pattern { source: pattern, regex }),
        Err(_) => None,
    }
}

impl View for Pattern {
    type V = Seq<char>;

    closed spec fn view(&self) -> Seq<char> {
        self.source@
    }
}

impl Pattern {
    /// Compiles `source`; `None` where the regex crate refuses it.
    pub fn compile(source: String) -> (r: Option<Pattern>)
        ensures
            r is Some == regex_compiles(source@),
            r matches Some(p) ==> p@ == source@,
    {
        regex_new(source)
    }

    /// Whether the pattern matches somewhere in `haystack`.
    pub fn is_match(&self, haystack: &str) -> (r: bool)
        ensures
            r == regex_finds(self@, haystack@),
    {
        regex_is_match(self, haystack)
    }
}

/// Searches `haystack` with `regex::Regex::is_match`.
///
/// Trusted: the contract claims that the answer is the named outcome of
/// searching `haystack` with the regex built from the pattern's source,
/// which holds because `regex_new` is the only place a `Pattern` is built
/// and pairs each regex with its source there.
#[verifier::external_body]
fn regex_is_match(p: &Pattern, haystack: &str) -> (r: bool)
    ensures
        r == regex_finds(p@, haystack@),
{
    p.regex.is_match(haystack)
}

/// Whether a glob is usable: its regular expression compiles.
pub open spec fn glob_valid(glob: Seq<char>) -> bool {
    regex_compiles(glob_to_regex(glob))
}

/// Whether a glob matches a path: its regular expression compiles and
/// matches somewhere in the path.
pub open spec fn glob_matches(glob: Seq<char>, path: Seq<char>) -> bool {
    glob_valid(glob) && regex_finds(glob_to_regex(glob), path)
}

/// Whether the regular expression of `glob` compiles.
pub fn is_valid_glob(glob: &str) -> (r: bool)
    ensures
        r == glob_valid(glob@),
{
    let re = glob_regex(glob);
    Pattern::compile(re).is_some()
}

/// Whether `glob` matches somewhere in `path`; an invalid glob matches
/// nothing.
pub fn matches_glob(glob: &str, path: &str) -> (r: bool)
    ensures
        r == glob_matches(glob@, path@),
{
    let re = glob_regex(glob);
    match Pattern::compile(re) {
        Some(p) => p.is_match(path),
        None => false,
    }
}

/// A glob with neither `.` nor `*` is used as a regular expression as it
/// stands.
pub proof fn law_plain_glob_unchanged(g: Seq<char>)
    requires
        forall|i: int| 0 <= i < g.len() ==> g[i] != '.' && g[i] != '*',
    ensures
        glob_to_regex(g) == g,
    decreases g.len(),
{
    if g.len() > 0 {
        law_plain_glob_unchanged(g.drop_last());
        assert(g.drop_last().push(g.last()) =~= g);
    } else {
        assert(g =~= Seq::<char>::empty());
    }
}

/// A glob is converted piece by piece: the regular expression of two globs
/// side by side is their two regular expressions side by side, and every
/// `*`, wherever it stands, becomes `.*`, every `.` becomes `\.`, and any
/// other character stands for itself.
pub proof fn law_glob_regex_piecewise(a: Seq<char>, b: Seq<char>, c: char)
    ensures
        glob_to_regex(a + b) == glob_to_regex(a) + glob_to_regex(b),
        glob_to_regex(seq!['*']) == seq!['.', '*'],
        glob_to_regex(seq!['.']) == seq!['\\', '.'],
        c != '.' && c != '*' ==> glob_to_regex(seq![c]) == seq![c],
        glob_to_regex(a.push('*')) == glob_to_regex(a) + seq!['.', '*'],
    decreases b.len(),
{
    let e = Seq::<char>::empty();
    assert(seq!['*'].drop_last() =~= e);
    assert(seq!['.'].drop_last() =~= e);
    assert(seq!['*'].last() == '*');
    assert(seq!['.'].last() == '.');
    assert(glob_to_regex(e) =~= e);
    assert(glob_char_regex('*') =~= seq!['.', '*']);
    assert(glob_char_regex('.') =~= seq!['\\', '.']);
    assert(seq![c].drop_last() =~= e);
    assert(e + seq!['.', '*'] =~= seq!['.', '*']);
    assert(e + seq!['\\', '.'] =~= seq!['\\', '.']);
    assert(e + seq![c] =~= seq![c]);
    assert(a.push('*').drop_last() =~= a);
    if b.len() == 0 {
        assert(a + b =~= a);
        assert(glob_to_regex(a) + e =~= glob_to_regex(a));
    } else {
        law_glob_regex_piecewise(a, b.drop_last(), c);
        assert((a + b).drop_last() =~= a + b.drop_last());
        assert((a + b).last() == b.last());
        assert(glob_to_regex(a) + glob_to_regex(b.drop_last()) + glob_char_regex(b.last())
            =~= glob_to_regex(a) + (glob_to_regex(b.drop_last()) + glob_char_regex(b.last())));
    }
}

} // verus!
