use tarpaulin_config::glob::{glob_regex, is_valid_glob, matches_glob, Pattern};
use tarpaulin_config::types::{CiTool, OutputFile, RunType};

#[test]
fn glob_to_regex_text() {
    assert_eq!(glob_regex("*.rs"), ".*\\.rs");
    assert_eq!(glob_regex("src/lib"), "src/lib");
    assert_eq!(glob_regex(""), "");
}

#[test]
fn glob_dot_is_literal() {
    assert!(matches_glob("a.rs", "src/a.rs"));
    assert!(!matches_glob("a.rs", "src/abrs"));
}

#[test]
fn glob_match_is_unanchored() {
    assert!(matches_glob("lib", "src/mylib/x.rs"));
    assert!(!matches_glob("lib", "src/main.rs"));
}

#[test]
fn invalid_glob() {
    assert!(!is_valid_glob("(abc"));
    assert!(is_valid_glob("abc*"));
    assert!(!matches_glob("(abc", "(abc"));
}

#[test]
fn pattern_compile_and_match() {
    assert!(Pattern::compile("[".to_string()).is_none());
    let p = Pattern::compile("^ab+c$".to_string()).unwrap();
    assert!(p.is_match("abbbc"));
    assert!(!p.is_match("ac"));
}

#[test]
fn ci_tool_names() {
    assert!(matches!(CiTool::from_name("travis-ci"), CiTool::Travis));
    assert!(matches!(CiTool::from_name("travis-pro"), CiTool::TravisPro));
    assert!(matches!(CiTool::from_name("circle-ci"), CiTool::Circle));
    assert!(matches!(CiTool::from_name("semaphore"), CiTool::Semaphore));
    assert!(matches!(CiTool::from_name("jenkins"), CiTool::Jenkins));
    assert!(matches!(CiTool::from_name("codeship"), CiTool::Codeship));
    match CiTool::from_name("coveralls-ruby") {
        CiTool::Other(s) => assert_eq!(s, "coveralls-ruby"),
        other => panic!("unexpected {:?}", other),
    }
}

#[test]
fn run_type_names() {
    assert_eq!(RunType::from_name("Tests"), Some(RunType::Tests));
    assert_eq!(RunType::from_name("doctests"), Some(RunType::Doctests));
    assert_eq!(RunType::from_name("BENCHMARKS"), Some(RunType::Benchmarks));
    assert_eq!(RunType::from_name("examples"), Some(RunType::Examples));
    assert_eq!(RunType::from_name("test"), None);
}

#[test]
fn output_file_names() {
    assert_eq!(OutputFile::from_name("Json"), Some(OutputFile::Json));
    assert_eq!(OutputFile::from_name("toml"), Some(OutputFile::Toml));
    assert_eq!(OutputFile::from_name("STDOUT"), Some(OutputFile::Stdout));
    assert_eq!(OutputFile::from_name("xml"), Some(OutputFile::Xml));
    assert_eq!(OutputFile::from_name("Html"), Some(OutputFile::Html));
    assert_eq!(OutputFile::from_name("lcov"), Some(OutputFile::Lcov));
    assert_eq!(OutputFile::from_name("yaml"), None);
}
