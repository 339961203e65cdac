//! The small value types that a configuration is made of.
use vstd::prelude::*;

verus! {

/// The kinds of test target that coverage is collected on.
#[derive(Clone, Copy, Debug, PartialEq, Eq, PartialOrd, Ord, Structural)]
pub enum RunType {
    Tests,
    Doctests,
    Benchmarks,
    Examples,
}

/// The report files that a run can generate.
#[derive(Clone, Copy, Debug, PartialEq, Eq, PartialOrd, Ord, Structural)]
pub enum OutputFile {
    Json,
    Toml,
    Stdout,
    Xml,
    Html,
    Lcov,
}

/// How long a test may run before it is stopped: whole seconds and the
/// nanoseconds beyond them.
#[derive(Clone, Copy, Debug, PartialEq, Eq, Structural)]
pub struct Timeout {
    pub secs: u64,
    pub nanos: u32,
}

/// The lower-case form of an ASCII upper-case letter; any other character
/// stands for itself.
pub open spec fn ascii_lower(c: char) -> int {
    if 'A' <= c && c <= 'Z' {
        (c as u32) + 32
    } else {
        c as u32 as int
    }
}

/// Whether two texts are equal once ASCII letters are taken without case.
pub open spec fn eq_ignore_ascii_case(a: Seq<char>, b: Seq<char>) -> bool {
    a.len() == b.len() && forall|i: int| 0 <= i < a.len() ==> ascii_lower(#[trigger] a[i]) == ascii_lower(b[i])
}

/// Whether two characters are the same letter up to ASCII case: equal, or
/// an upper-case ASCII letter and the character 32 places above it (its
/// lower-case form).
pub open spec fn same_char_up_to_case(a: char, b: char) -> bool {
    ||| a == b
    ||| 'A' <= a && a <= 'Z' && (b as u32) == (a as u32) + 32
    ||| 'A' <= b && b <= 'Z' && (a as u32) == (b as u32) + 32
}

/// Whether two texts are the same up to ASCII case, character by
/// character.
pub open spec fn same_up_to_ascii_case(x: Seq<char>, y: Seq<char>) -> bool {
    x.len() == y.len() && forall|i: int| 0 <= i < x.len() ==> same_char_up_to_case(#[trigger] x[i], y[i])
}

proof fn lemma_char_fold(a: char, b: char)
    ensures
        (ascii_lower(a) == ascii_lower(b)) == same_char_up_to_case(a, b),
{
    assert('A' as u32 == 65 && 'Z' as u32 == 90);
    assert(('A' <= a && a <= 'Z') == (65 <= (a as u32) && (a as u32) <= 90));
    assert(('A' <= b && b <= 'Z') == (65 <= (b as u32) && (b as u32) <= 90));
    if (a as u32) == (b as u32) {
        assert(a == b);
    }
}

/// Taking texts without ASCII case is a true ASCII case fold: two texts are
/// equal without case exactly when each pair of their characters is the
/// same letter up to case (`A`–`Z` against `a`–`z`).
pub proof fn law_ascii_case_fold(x: Seq<char>, y: Seq<char>)
    ensures
        eq_ignore_ascii_case(x, y) == same_up_to_ascii_case(x, y),
{
    assert forall|i: int| 0 <= i < x.len() && i < y.len() implies (ascii_lower(#[trigger] x[i]) == ascii_lower(y[i]))
        == same_char_up_to_case(x[i], y[i]) by {
        lemma_char_fold(x[i], y[i]);
    }
}

fn lower(c: char) -> (r: u32)
    ensures
        r == ascii_lower(c),
{
    if 'A' <= c && c <= 'Z' {
        (c as u32) + 32
    } else {
        c as u32
    }
}

/// Whether `a` equals `b` once ASCII letters are taken without case.
pub fn equals_ignore_ascii_case(a: &str, b: &str) -> (r: bool)
    ensures
        r == eq_ignore_ascii_case(a@, b@),
{
    let n = a.unicode_len();
    if n != b.unicode_len() {
        return false;
    }
    let mut i: usize = 0;
    while i < n
        invariant
            i <= n,
            n == a@.len(),
            n == b@.len(),
            forall|k: int| 0 <= k < i ==> ascii_lower(#[trigger] a@[k]) == ascii_lower(b@[k]),
        decreases n - i,
    {
        if lower(a.get_char(i)) != lower(b.get_char(i)) {
            return false;
        }
        i = i + 1;
    }
    true
}

proof fn lemma_names_distinct(a: Seq<char>, x: Seq<char>, y: Seq<char>, i: int)
    requires
        0 <= i < x.len(),
        i < y.len(),
        ascii_lower(x[i]) != ascii_lower(y[i]),
    ensures
        !(eq_ignore_ascii_case(a, x) && eq_ignore_ascii_case(a, y)),
{
    if eq_ignore_ascii_case(a, x) && eq_ignore_ascii_case(a, y) {
        assert(ascii_lower(a[i]) == ascii_lower(x[i]));
        assert(ascii_lower(a[i]) == ascii_lower(y[i]));
    }
}

impl RunType {
    /// The kind of test a name stands for, its variant's name taken without
    /// ASCII case; `None` for any other name.
    pub fn from_name(name: &str) -> (r: Option<RunType>)
        ensures
            (r == Some(RunType::Tests)) == eq_ignore_ascii_case(name@, "Tests"@),
            (r == Some(RunType::Tests)) == same_up_to_ascii_case(name@, "Tests"@),
            (r == Some(RunType::Doctests)) == eq_ignore_ascii_case(name@, "Doctests"@),
            (r == Some(RunType::Doctests)) == same_up_to_ascii_case(name@, "Doctests"@),
            (r == Some(RunType::Benchmarks)) == eq_ignore_ascii_case(name@, "Benchmarks"@),
            (r == Some(RunType::Benchmarks)) == same_up_to_ascii_case(name@, "Benchmarks"@),
            (r == Some(RunType::Examples)) == eq_ignore_ascii_case(name@, "Examples"@),
            (r == Some(RunType::Examples)) == same_up_to_ascii_case(name@, "Examples"@),
    {
        proof {
            reveal_strlit("Tests");
            reveal_strlit("Doctests");
            reveal_strlit("Benchmarks");
            reveal_strlit("Examples");
            lemma_names_distinct(name@, "Doctests"@, "Examples"@, 0);
            law_ascii_case_fold(name@, "Tests"@);
            law_ascii_case_fold(name@, "Doctests"@);
            law_ascii_case_fold(name@, "Benchmarks"@);
            law_ascii_case_fold(name@, "Examples"@);
        }
        if equals_ignore_ascii_case(name, "Tests") {
            Some(RunType::Tests)
        } else if equals_ignore_ascii_case(name, "Doctests") {
            Some(RunType::Doctests)
        } else if equals_ignore_ascii_case(name, "Benchmarks") {
            Some(RunType::Benchmarks)
        } else if equals_ignore_ascii_case(name, "Examples") {
            Some(RunType::Examples)
        } else {
            None
        }
    }
}

impl OutputFile {
    /// The report a name stands for, its variant's name taken without ASCII
    /// case; `None` for any other name.
    pub fn from_name(name: &str) -> (r: Option<OutputFile>)
        ensures
            (r == Some(OutputFile::Json)) == eq_ignore_ascii_case(name@, "Json"@),
            (r == Some(OutputFile::Json)) == same_up_to_ascii_case(name@, "Json"@),
            (r == Some(OutputFile::Toml)) == eq_ignore_ascii_case(name@, "Toml"@),
            (r == Some(OutputFile::Toml)) == same_up_to_ascii_case(name@, "Toml"@),
            (r == Some(OutputFile::Stdout)) == eq_ignore_ascii_case(name@, "Stdout"@),
            (r == Some(OutputFile::Stdout)) == same_up_to_ascii_case(name@, "Stdout"@),
            (r == Some(OutputFile::Xml)) == eq_ignore_ascii_case(name@, "Xml"@),
            (r == Some(OutputFile::Xml)) == same_up_to_ascii_case(name@, "Xml"@),
            (r == Some(OutputFile::Html)) == eq_ignore_ascii_case(name@, "Html"@),
            (r == Some(OutputFile::Html)) == same_up_to_ascii_case(name@, "Html"@),
            (r == Some(OutputFile::Lcov)) == eq_ignore_ascii_case(name@, "Lcov"@),
            (r == Some(OutputFile::Lcov)) == same_up_to_ascii_case(name@, "Lcov"@),
    {
        proof {
            reveal_strlit("Json");
            reveal_strlit("Toml");
            reveal_strlit("Stdout");
            reveal_strlit("Xml");
            reveal_strlit("Html");
            reveal_strlit("Lcov");
            lemma_names_distinct(name@, "Json"@, "Toml"@, 0);
            lemma_names_distinct(name@, "Json"@, "Html"@, 0);
            lemma_names_distinct(name@, "Json"@, "Lcov"@, 0);
            lemma_names_distinct(name@, "Toml"@, "Html"@, 0);
            lemma_names_distinct(name@, "Toml"@, "Lcov"@, 0);
            lemma_names_distinct(name@, "Html"@, "Lcov"@, 0);
            law_ascii_case_fold(name@, "Json"@);
            law_ascii_case_fold(name@, "Toml"@);
            law_ascii_case_fold(name@, "Stdout"@);
            law_ascii_case_fold(name@, "Xml"@);
            law_ascii_case_fold(name@, "Html"@);
            law_ascii_case_fold(name@, "Lcov"@);
        }
        if equals_ignore_ascii_case(name, "Json") {
            Some(OutputFile::Json)
        } else if equals_ignore_ascii_case(name, "Toml") {
            Some(OutputFile::Toml)
        } else if equals_ignore_ascii_case(name, "Stdout") {
            Some(OutputFile::Stdout)
        } else if equals_ignore_ascii_case(name, "Xml") {
            Some(OutputFile::Xml)
        } else if equals_ignore_ascii_case(name, "Html") {
            Some(OutputFile::Html)
        } else if equals_ignore_ascii_case(name, "Lcov") {
            Some(OutputFile::Lcov)
        } else {
            None
        }
    }
}

impl Timeout {
    /// A timeout of `secs` whole seconds.
    pub fn from_secs(secs: u64) -> (r: Timeout)
        ensures
            r.secs == secs,
            r.nanos == 0,
    {
        Timeout { secs, nanos: 0 }
    }
}

/// The continuous-integration service that a coverage report is sent from,
/// as the coveralls service distinguishes them.
#[derive(Clone, Debug)]
pub enum CiTool {
    Travis,
    TravisPro,
    Circle,
    Semaphore,
    Jenkins,
    Codeship,
    /// Any other service, by the name it was given.
    Other(String),
}

/// The service that a name stands for: one of the six known names, or else
/// `Other` with the name itself.
pub open spec fn ci_tool_named(t: CiTool, name: Seq<char>) -> bool {
    match t {
        CiTool::Travis => name == "travis-ci"@,
        CiTool::TravisPro => name == "travis-pro"@,
        CiTool::Circle => name == "circle-ci"@,
        CiTool::Semaphore => name == "semaphore"@,
        CiTool::Jenkins => name == "jenkins"@,
        CiTool::Codeship => name == "codeship"@,
        CiTool::Other(s) => s@ == name && name != "travis-ci"@ && name != "travis-pro"@
            && name != "circle-ci"@ && name != "semaphore"@ && name != "jenkins"@
            && name != "codeship"@,
    }
}

/// Reads a service name with `coveralls_api::CiService::from_str` and
/// converts the variant it returns one for one.
///
/// Trusted: the contract restates the match in `from_str` of
/// coveralls-api 0.4.0, which maps the six names "travis-ci", "travis-pro",
/// "circle-ci", "semaphore", "jenkins" and "codeship" to their variants,
/// and any other name to `Other` holding that name; it never returns `Err`,
/// so the `Err` arm, there because the match must be exhaustive, is never
/// taken.
#[verifier::external_body]
fn ci_service_from_str(name: &str) -> (r: CiTool)
    ensures
        ci_tool_named(r, name@),
{
    match <coveralls_api::CiService as std::str::FromStr>::from_str(name) {
        Ok(coveralls_api::CiService::Travis) => CiTool::Travis,
        Ok(coveralls_api::CiService::TravisPro) => CiTool::TravisPro,
        Ok(coveralls_api::CiService::Circle) => CiTool::Circle,
        Ok(coveralls_api::CiService::Semaphore) => CiTool::Semaphore,
        Ok(coveralls_api::CiService::Jenkins) => CiTool::Jenkins,
        Ok(coveralls_api::CiService::Codeship) => CiTool::Codeship,
        Ok(coveralls_api::CiService::Other(s)) => CiTool::Other(s),
        Err(()) => CiTool::Other(name.to_string()),
    }
}

impl CiTool {
    /// The service that `name` stands for.
    pub fn from_name(name: &str) -> (r: CiTool)
        ensures
            ci_tool_named(r, name@),
    {
        ci_service_from_str(name)
    }

    /// A copy of this value.
    pub fn duplicate(&self) -> (r: CiTool)
        ensures
            r == *self,
    {
        match self {
            CiTool::Travis => CiTool::Travis,
            CiTool::TravisPro => CiTool::TravisPro,
            CiTool::Circle => CiTool::Circle,
            CiTool::Semaphore => CiTool::Semaphore,
            CiTool::Jenkins => CiTool::Jenkins,
            CiTool::Codeship => CiTool::Codeship,
            CiTool::Other(s) => CiTool::Other(s.clone()),
        }
    }
}

} // verus!
