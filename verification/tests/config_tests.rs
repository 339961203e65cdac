use tarpaulin_config::config::{ArgValues, BaseDir, Config, ConfigError, ConfigWrapper};
use tarpaulin_config::types::{RunType, Timeout};

fn args_with_exclusions(globs: &[&str]) -> ArgValues {
    ArgValues {
        manifest: "/home/user/project/Cargo.toml".to_string(),
        root: None,
        run_types: vec![RunType::Tests],
        ignored: false,
        ignore_tests: false,
        ignore_panics: false,
        force_clean: false,
        verbose: false,
        debug: false,
        count: false,
        line: false,
        branch: false,
        generate: vec![],
        output_directory: "/home/user/project".to_string(),
        coveralls: None,
        ci_tool: None,
        report_uri: None,
        forward: false,
        all_features: false,
        no_default_features: false,
        features: vec![],
        unstable_features: vec![],
        all: false,
        workspace: false,
        packages: vec![],
        exclude: vec![],
        exclude_files: globs.iter().map(|s| s.to_string()).collect(),
        varargs: vec![],
        test_timeout: Timeout::from_secs(60),
        release: false,
        no_run: false,
        locked: false,
        frozen: false,
        target_dir: None,
        offline: false,
    }
}

const CWD: &str = "/home/user/project";

#[test]
fn exclude_paths() {
    let conf = ConfigWrapper::from_args(args_with_exclusions(&["*module*"])).0;
    assert_eq!(conf.len(), 1);
    assert!(conf[0].exclude_path("src/module/file.rs", CWD));
    assert!(!conf[0].exclude_path("src/mod.rs", CWD));
    assert!(!conf[0].exclude_path("unrelated.rs", CWD));
    assert!(conf[0].exclude_path("module.rs", CWD));
}

#[test]
fn no_exclusions() {
    let conf = ConfigWrapper::from_args(args_with_exclusions(&[])).0;
    assert_eq!(conf.len(), 1);
    assert!(!conf[0].exclude_path("src/module/file.rs", CWD));
    assert!(!conf[0].exclude_path("src/mod.rs", CWD));
    assert!(!conf[0].exclude_path("unrelated.rs", CWD));
    assert!(!conf[0].exclude_path("module.rs", CWD));
}

#[test]
fn exclude_exact_file() {
    let conf = ConfigWrapper::from_args(args_with_exclusions(&["*/lib.rs"])).0;
    assert_eq!(conf.len(), 1);
    assert!(conf[0].exclude_path("src/lib.rs", CWD));
    assert!(!conf[0].exclude_path("src/mod.rs", CWD));
    assert!(!conf[0].exclude_path("src/notlib.rs", CWD));
    assert!(!conf[0].exclude_path("lib.rs", CWD));
}

#[test]
fn exclude_path_is_relative_to_base_dir() {
    let conf = ConfigWrapper::from_args(args_with_exclusions(&["src/*"])).0;
    assert!(conf[0].exclude_path("/home/user/project/src/main.rs", CWD));
    assert!(!conf[0].exclude_path("/home/user/other/lib/main.rs", CWD));
    // Unanchored: the relative path "../other/src/main.rs" holds "src/".
    assert!(conf[0].exclude_path("/home/user/other/src/main.rs", CWD));
    assert!(!conf[0].exclude_path("/home/user/project/tests/main.rs", CWD));
}

#[test]
fn invalid_glob_excludes_nothing() {
    let conf = ConfigWrapper::from_args(args_with_exclusions(&["(src"])).0;
    assert!(!conf[0].exclude_path("(src/main.rs", CWD));
}

#[test]
fn strip_base_dir_gives_relative_path() {
    let conf = Config::default_with_manifest("Cargo.toml".to_string());
    assert_eq!(conf.strip_base_dir("/home/user/project/src/lib.rs", CWD), "src/lib.rs");
    assert_eq!(conf.strip_base_dir("src/lib.rs", CWD), "src/lib.rs");
    assert_eq!(conf.strip_base_dir("/home/user/other/lib.rs", CWD), "../other/lib.rs");
}

#[test]
fn default_config() {
    let conf = Config::default_with_manifest("/p/Cargo.toml".to_string());
    assert_eq!(conf.name, "");
    assert_eq!(conf.manifest, "/p/Cargo.toml");
    assert_eq!(conf.run_types, vec![RunType::Tests]);
    assert!(conf.line_coverage);
    assert!(!conf.branch_coverage);
    assert_eq!(conf.test_timeout, Timeout { secs: 60, nanos: 0 });
    assert!(conf.excluded_files_raw.is_empty());
    assert!(!conf.verbose && !conf.debug);
    assert!(conf.config.is_none() && conf.root.is_none());
}

#[test]
fn debug_implies_verbose() {
    let mut args = args_with_exclusions(&[]);
    args.debug = true;
    let conf = Config::from_args(args);
    assert!(conf.debug);
    assert!(conf.verbose);
}

#[test]
fn coverage_kinds_from_flags() {
    let conf = Config::from_args(args_with_exclusions(&[]));
    assert!(conf.line_coverage && conf.branch_coverage);
    let mut args = args_with_exclusions(&[]);
    args.line = true;
    let conf = Config::from_args(args);
    assert!(conf.line_coverage && !conf.branch_coverage);
    let mut args = args_with_exclusions(&[]);
    args.branch = true;
    let conf = Config::from_args(args);
    assert!(!conf.line_coverage && conf.branch_coverage);
}

#[test]
fn workspace_means_all() {
    let mut args = args_with_exclusions(&[]);
    args.workspace = true;
    let conf = Config::from_args(args);
    assert!(conf.all);
    let conf = Config::from_args(args_with_exclusions(&[]));
    assert!(!conf.all);
}

#[test]
fn is_coveralls_follows_key() {
    let mut conf = Config::default_with_manifest("Cargo.toml".to_string());
    assert!(!conf.is_coveralls());
    conf.coveralls = Some("hello".to_string());
    assert!(conf.is_coveralls());
}

#[test]
fn base_dir_choice() {
    let mut conf = Config::default_with_manifest("Cargo.toml".to_string());
    assert!(matches!(conf.get_base_dir(), BaseDir::CurrentDir));
    conf.root = Some("/abs/root".to_string());
    match conf.get_base_dir() {
        BaseDir::Root(d) => assert_eq!(d, "/abs/root"),
        other => panic!("unexpected {:?}", other),
    }
    conf.root = Some("rel/root".to_string());
    match conf.get_base_dir() {
        BaseDir::UnderCurrentDir(d) => assert_eq!(d, "rel/root"),
        other => panic!("unexpected {:?}", other),
    }
}

#[test]
fn default_output_dir_compares_components() {
    let mut conf = Config::default_with_manifest("Cargo.toml".to_string());
    conf.output_directory = "/a/b/".to_string();
    assert!(conf.is_default_output_dir("/a/b"));
    assert!(conf.is_default_output_dir("/a//b"));
    assert!(!conf.is_default_output_dir("/a/c"));
    assert!(!conf.is_default_output_dir("/a"));
}

fn table(name: &str) -> (String, Config) {
    (name.to_string(), Config::default_with_manifest("Cargo.toml".to_string()))
}

#[test]
fn tables_are_named() {
    let mut global = table("global");
    global.1.run_ignored = true;
    global.1.coveralls = Some("hello".to_string());
    let mut other = table("other");
    other.1.run_types = vec![RunType::Doctests, RunType::Tests];
    let configs = Config::from_tables(vec![global, other]).unwrap();
    assert_eq!(configs.len(), 2);
    assert_eq!(configs[0].name, "global");
    assert!(configs[0].run_ignored);
    assert_eq!(configs[0].coveralls, Some("hello".to_string()));
    assert_eq!(configs[1].name, "other");
    assert_eq!(configs[1].run_types, vec![RunType::Doctests, RunType::Tests]);
}

#[test]
fn no_tables_is_an_error() {
    assert!(matches!(Config::from_tables(vec![]), Err(ConfigError::NoConfigTables)));
}

#[test]
fn unreadable_file_falls_back_to_args() {
    let wrapper = ConfigWrapper::from_args_and_file(
        args_with_exclusions(&["*x*"]),
        "/p/tarpaulin.toml".to_string(),
        Err(ConfigError::InvalidData("bad".to_string())),
    );
    assert_eq!(wrapper.0.len(), 1);
    assert!(wrapper.0[0].config.is_none());
    assert_eq!(wrapper.0[0].excluded_files_raw, vec!["*x*".to_string()]);
}

#[test]
fn empty_file_falls_back_to_args() {
    let wrapper = ConfigWrapper::from_args_and_file(args_with_exclusions(&[]), "/p/t.toml".to_string(), Ok(vec![]));
    assert_eq!(wrapper.0.len(), 1);
    assert!(wrapper.0[0].config.is_none());
}

#[test]
fn file_configs_take_on_arguments() {
    let mut args = args_with_exclusions(&["*gen*"]);
    args.debug = true;
    let mut a = Config::default_with_manifest("Cargo.toml".to_string());
    a.name = "a".to_string();
    a.excluded_files_raw = vec!["*old*".to_string()];
    let mut b = Config::default_with_manifest("Cargo.toml".to_string());
    b.name = "b".to_string();
    let wrapper = ConfigWrapper::from_args_and_file(args, "/p/t.toml".to_string(), Ok(vec![a, b]));
    assert_eq!(wrapper.0.len(), 2);
    for c in &wrapper.0 {
        assert_eq!(c.config, Some("/p/t.toml".to_string()));
        assert!(c.debug && c.verbose);
    }
    assert_eq!(wrapper.0[0].excluded_files_raw, vec!["*old*".to_string(), "*gen*".to_string()]);
    assert_eq!(wrapper.0[1].excluded_files_raw, vec!["*gen*".to_string()]);
    assert!(wrapper.0[0].exclude_path("src/old/x.rs", CWD));
    assert!(wrapper.0[0].exclude_path("src/gen/x.rs", CWD));
}

#[test]
fn invalid_cli_globs_are_not_added() {
    let mut args = args_with_exclusions(&["(bad"]);
    args.verbose = true;
    let mut a = Config::default_with_manifest("Cargo.toml".to_string());
    a.excluded_files_raw = vec!["*old*".to_string()];
    let wrapper = ConfigWrapper::from_args_and_file(args, "/p/t.toml".to_string(), Ok(vec![a]));
    assert_eq!(wrapper.0[0].excluded_files_raw, vec!["*old*".to_string()]);
    assert!(wrapper.0[0].verbose);
    assert!(!wrapper.0[0].debug);
}
