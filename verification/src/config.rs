//! The configuration of a coverage run, how it is put together from the
//! command-line arguments and from the tables of a configuration file, and
//! the questions that the run asks of it.
use vstd::prelude::*;

use crate::glob::{glob_matches, glob_valid, is_valid_glob, matches_glob};
use crate::path::{Comp, resolve_from, comps_absolute, components, is_absolute, path_components_of, path_relative_from, spec_path_relative_from, starts_at_root};
use crate::path_laws::{join_text, law_relative_text_round_trip};
use crate::types::{CiTool, OutputFile, RunType, Timeout};

verus! {

/// Specifies the configuration that a coverage run uses.
#[derive(Clone, Debug)]
pub struct Config {
    /// The name of the table of the configuration file this came from.
    pub name: String,
    /// Path to the project's cargo manifest.
    pub manifest: String,
    /// Path to the configuration file this came from.
    pub config: Option<String>,
    /// Root directory of the project.
    pub root: Option<String>,
    /// Also run tests with the ignored attribute.
    pub run_ignored: bool,
    /// Ignore test functions in coverage statistics.
    pub ignore_tests: bool,
    /// Ignore panic macros in code.
    pub ignore_panics: bool,
    /// Add a clean step when preparing the target project.
    pub force_clean: bool,
    /// Print information to the user.
    pub verbose: bool,
    /// Print internal debugging information to the user.
    pub debug: bool,
    /// Count hits in coverage.
    pub count: bool,
    /// Collect line coverage.
    pub line_coverage: bool,
    /// Collect branch coverage.
    pub branch_coverage: bool,
    /// Directory to write output files to.
    pub output_directory: String,
    /// Key of the coveralls service or repository.
    pub coveralls: Option<String>,
    /// The CI tool in use.
    pub ci_tool: Option<CiTool>,
    /// Endpoint that the report is sent to in place of coveralls.
    pub report_uri: Option<String>,
    /// Forward unexpected signals back to the tracee.
    pub forward_signals: bool,
    /// Include all available features in the target build.
    pub all_features: bool,
    /// Do not include default features in the target build.
    pub no_default_features: bool,
    /// Build all packages in the workspace.
    pub all: bool,
    /// How long a test may run.
    pub test_timeout: Timeout,
    /// Build in release mode.
    pub release: bool,
    /// Build the tests only, without running coverage.
    pub no_run: bool,
    /// Don't update `Cargo.lock`.
    pub locked: bool,
    /// Don't update `Cargo.lock` or any caches.
    pub frozen: bool,
    /// Directory for generated artifacts.
    pub target_dir: Option<String>,
    /// Run without accessing the network.
    pub offline: bool,
    /// Kinds of test to collect coverage on.
    pub run_types: Vec<RunType>,
    /// Packages to include when building the target project.
    pub packages: Vec<String>,
    /// Packages to exclude from testing.
    pub exclude: Vec<String>,
    /// Globs of the files to exclude from the results.
    pub excluded_files_raw: Vec<String>,
    /// Arguments forwarded to the test executables.
    pub varargs: Vec<String>,
    /// Features to include in the target project build.
    pub features: Vec<String>,
    /// Unstable cargo features to use.
    pub unstable_features: Vec<String>,
    /// Output files to generate.
    pub generate: Vec<OutputFile>,
}

/// The values that a configuration takes from the command line, each as
/// the argument parser has read it.
pub struct ArgValues {
    /// The resolved path of the project's manifest.
    pub manifest: String,
    /// `--root`.
    pub root: Option<String>,
    /// `--run-types`, or its default.
    pub run_types: Vec<RunType>,
    /// `--ignored`.
    pub ignored: bool,
    /// `--ignore-tests`.
    pub ignore_tests: bool,
    /// `--ignore-panics`.
    pub ignore_panics: bool,
    /// `--force-clean`.
    pub force_clean: bool,
    /// `--verbose`.
    pub verbose: bool,
    /// `--debug`.
    pub debug: bool,
    /// `--count`.
    pub count: bool,
    /// `--line`.
    pub line: bool,
    /// `--branch`.
    pub branch: bool,
    /// `--out`.
    pub generate: Vec<OutputFile>,
    /// The resolved output directory.
    pub output_directory: String,
    /// `--coveralls`.
    pub coveralls: Option<String>,
    /// `--ciserver`.
    pub ci_tool: Option<CiTool>,
    /// `--report-uri`.
    pub report_uri: Option<String>,
    /// `--forward`.
    pub forward: bool,
    /// `--all-features`.
    pub all_features: bool,
    /// `--no-default-features`.
    pub no_default_features: bool,
    /// `--features`.
    pub features: Vec<String>,
    /// `-Z`.
    pub unstable_features: Vec<String>,
    /// `--all`.
    pub all: bool,
    /// `--workspace`.
    pub workspace: bool,
    /// `--packages`.
    pub packages: Vec<String>,
    /// `--exclude`.
    pub exclude: Vec<String>,
    /// `--exclude-files`.
    pub exclude_files: Vec<String>,
    /// `--args`.
    pub varargs: Vec<String>,
    /// `--timeout`, or its default.
    pub test_timeout: Timeout,
    /// `--release`.
    pub release: bool,
    /// `--no-run`.
    pub no_run: bool,
    /// `--locked`.
    pub locked: bool,
    /// `--frozen`.
    pub frozen: bool,
    /// `--target-dir`.
    pub target_dir: Option<String>,
    /// `--offline`.
    pub offline: bool,
}

/// Why the tables of a configuration file give no configuration.
#[derive(Debug)]
pub enum ConfigError {
    /// The file could not be read or decoded; the message says why.
    InvalidData(String),
    /// The file holds no table.
    NoConfigTables,
}

/// The configurations that one run goes through, one per table of the
/// configuration file, or the one that the arguments give.
pub struct ConfigWrapper(pub Vec<Config>);

/// Where the base directory of a run is: the root as given where it is
/// absolute, the root taken from the current directory where it is
/// relative, and the current directory where there is no root.
#[derive(Debug)]
pub enum BaseDir {
    Root(String),
    UnderCurrentDir(String),
    CurrentDir,
}

/// The configuration that the arguments give: `debug` implies `verbose`,
/// `--workspace` is the same as `--all`, a kind of coverage is collected
/// where it is asked for or where neither kind is, and every other field
/// is the argument as read.
pub open spec fn config_from_args(args: ArgValues, r: Config) -> bool {
    &&& r.name@ == Seq::<char>::empty()
    &&& r == Config {
        name: r.name,
        manifest: args.manifest,
        config: None,
        root: args.root,
        run_types: args.run_types,
        run_ignored: args.ignored,
        ignore_tests: args.ignore_tests,
        ignore_panics: args.ignore_panics,
        force_clean: args.force_clean,
        verbose: args.verbose || args.debug,
        debug: args.debug,
        count: args.count,
        line_coverage: args.line || !(args.line || args.branch),
        branch_coverage: args.branch || !(args.line || args.branch),
        generate: args.generate,
        output_directory: args.output_directory,
        coveralls: args.coveralls,
        ci_tool: args.ci_tool,
        report_uri: args.report_uri,
        forward_signals: args.forward,
        all_features: args.all_features,
        no_default_features: args.no_default_features,
        features: args.features,
        unstable_features: args.unstable_features,
        all: args.all || args.workspace,
        packages: args.packages,
        exclude: args.exclude,
        excluded_files_raw: args.exclude_files,
        varargs: args.varargs,
        test_timeout: args.test_timeout,
        release: args.release,
        no_run: args.no_run,
        locked: args.locked,
        frozen: args.frozen,
        target_dir: args.target_dir,
        offline: args.offline,
    }
}

/// Whether some glob of the list is valid.
pub open spec fn some_valid_glob(globs: Seq<String>) -> bool {
    exists|i: int| 0 <= i < globs.len() && glob_valid(#[trigger] globs[i]@)
}

/// A configuration `c` read from the file at `path`, after the arguments
/// are laid over it: it records the file, takes on `--debug` and
/// `--verbose` where they are given, and adds the exclusion globs of the
/// command line where at least one of them is valid.
pub open spec fn merged_config(c: Config, r: Config, path: String, debug: bool, verbose: bool, cli_globs: Seq<String>) -> bool {
    &&& r == Config {
        config: Some(path),
        debug: c.debug || debug,
        verbose: c.verbose || debug || verbose,
        excluded_files_raw: r.excluded_files_raw,
        ..c
    }
    &&& r.excluded_files_raw@ == if some_valid_glob(cli_globs) {
        c.excluded_files_raw@ + cli_globs
    } else {
        c.excluded_files_raw@
    }
}

/// The configuration of one table: the table's name, the table's
/// settings otherwise.
pub open spec fn named_config(name: String, c: Config, r: Config) -> bool {
    r == Config { name: name, ..c }
}

/// The text that a path is matched against: its path relative to the base
/// directory where there is one, else the path itself.
pub open spec fn stripped_path(path: Seq<char>, base_dir: Seq<char>) -> Seq<char> {
    match spec_path_relative_from(path, base_dir) {
        Some(p) => p,
        None => path,
    }
}

/// Whether some glob of the list matches `text`.
pub open spec fn excluded_by(globs: Seq<String>, text: Seq<char>) -> bool {
    exists|i: int| 0 <= i < globs.len() && glob_matches(#[trigger] globs[i]@, text)
}

/// Whether line coverage is collected: where `--line` is given, or where
/// neither `--line` nor `--branch` is.
pub fn get_line_cov(line: bool, branch: bool) -> (r: bool)
    ensures
        r == (line || !(line || branch)),
{
    line || !(line || branch)
}

/// Whether branch coverage is collected: where `--branch` is given, or
/// where neither `--line` nor `--branch` is.
pub fn get_branch_cov(line: bool, branch: bool) -> (r: bool)
    ensures
        r == (branch || !(line || branch)),
{
    branch || !(line || branch)
}

/// A copy of a list of strings.
fn copy_strings(v: &Vec<String>) -> (r: Vec<String>)
    ensures
        r@ == v@,
{
    let mut r: Vec<String> = Vec::new();
    let mut i: usize = 0;
    while i < v.len()
        invariant
            i <= v.len(),
            r@ == v@.take(i as int),
        decreases v.len() - i,
    {
        r.push(v[i].clone());
        assert(r@ =~= v@.take(i + 1));
        i = i + 1;
    }
    assert(v@.take(v.len() as int) =~= v@);
    r
}

/// Appends copies of `extra` to `v`.
fn append_strings(v: &mut Vec<String>, extra: &Vec<String>)
    ensures
        final(v)@ == old(v)@ + extra@,
{
    let mut i: usize = 0;
    while i < extra.len()
        invariant
            i <= extra.len(),
            v@ == old(v)@ + extra@.take(i as int),
        decreases extra.len() - i,
    {
        v.push(extra[i].clone());
        assert(v@ =~= old(v)@ + extra@.take(i + 1));
        i = i + 1;
    }
    assert(extra@.take(extra.len() as int) =~= extra@);
}

impl Config {
    /// The configuration that holds when nothing is given, for the project
    /// whose manifest is at `manifest`: tests are run, line coverage is
    /// collected, a test may run for sixty seconds, and every other flag is
    /// off and every list empty.
    pub fn default_with_manifest(manifest: String) -> (r: Config)
        ensures
            r.name@ == Seq::<char>::empty(),
            r.manifest == manifest,
            r.run_types@ == seq![RunType::Tests],
            (r.config is None),
            (r.root is None),
            !r.run_ignored && !r.ignore_tests && !r.ignore_panics && !r.force_clean,
            !r.verbose && !r.debug && !r.count,
            r.line_coverage && !r.branch_coverage,
            r.generate@.len() == 0,
            r.output_directory@ == Seq::<char>::empty(),
            (r.coveralls is None) && (r.ci_tool is None) && (r.report_uri is None),
            !r.forward_signals && !r.no_default_features && !r.all_features && !r.all,
            r.features@.len() == 0 && r.unstable_features@.len() == 0,
            r.packages@.len() == 0 && r.exclude@.len() == 0,
            r.excluded_files_raw@.len() == 0 && r.varargs@.len() == 0,
            r.test_timeout == (Timeout { secs: 60, nanos: 0 }),
            !r.release && !r.no_run && !r.locked && !r.frozen,
            (r.target_dir is None),
            !r.offline,
    {
        let mut run_types: Vec<RunType> = Vec::new();
        run_types.push(RunType::Tests);
        assert(run_types@ =~= seq![RunType::Tests]);
        Config {
            name: String::new(),
            run_types,
            manifest,
            config: None,
            root: None,
            run_ignored: false,
            ignore_tests: false,
            ignore_panics: false,
            force_clean: false,
            verbose: false,
            debug: false,
            count: false,
            line_coverage: true,
            branch_coverage: false,
            generate: Vec::new(),
            output_directory: String::new(),
            coveralls: None,
            ci_tool: None,
            report_uri: None,
            forward_signals: false,
            no_default_features: false,
            features: Vec::new(),
            unstable_features: Vec::new(),
            all: false,
            packages: Vec::new(),
            exclude: Vec::new(),
            excluded_files_raw: Vec::new(),
            varargs: Vec::new(),
            test_timeout: Timeout::from_secs(60),
            release: false,
            all_features: false,
            no_run: false,
            locked: false,
            frozen: false,
            target_dir: None,
            offline: false,
        }
    }

    /// The configuration that the command-line arguments give.
    pub fn from_args(args: ArgValues) -> (r: Config)
        ensures
            config_from_args(args, r),
    {
        let verbose = args.verbose || args.debug;
        let all = args.all || args.workspace;
        let line_coverage = get_line_cov(args.line, args.branch);
        let branch_coverage = get_branch_cov(args.line, args.branch);
        Config {
            name: String::new(),
            manifest: args.manifest,
            config: None,
            root: args.root,
            run_types: args.run_types,
            run_ignored: args.ignored,
            ignore_tests: args.ignore_tests,
            ignore_panics: args.ignore_panics,
            force_clean: args.force_clean,
            verbose,
            debug: args.debug,
            count: args.count,
            line_coverage,
            branch_coverage,
            generate: args.generate,
            output_directory: args.output_directory,
            coveralls: args.coveralls,
            ci_tool: args.ci_tool,
            report_uri: args.report_uri,
            forward_signals: args.forward,
            all_features: args.all_features,
            no_default_features: args.no_default_features,
            features: args.features,
            unstable_features: args.unstable_features,
            all,
            packages: args.packages,
            exclude: args.exclude,
            excluded_files_raw: args.exclude_files,
            varargs: args.varargs,
            test_timeout: args.test_timeout,
            release: args.release,
            no_run: args.no_run,
            locked: args.locked,
            frozen: args.frozen,
            target_dir: args.target_dir,
            offline: args.offline,
        }
    }

    /// The configurations of the tables of a configuration file: each
    /// table's settings under the table's name, in the order given.
    /// `NoConfigTables` where there is no table.
    pub fn from_tables(tables: Vec<(String, Config)>) -> (r: Result<Vec<Config>, ConfigError>)
        ensures
            tables@.len() == 0 <==> (r matches Err(ConfigError::NoConfigTables)),
            tables@.len() > 0 <==> (r is Ok),
            (r is Ok) ==> r->Ok_0@.len() == tables@.len(),
            (r is Ok) ==> forall|i: int| 0 <= i < tables@.len()
                ==> named_config(#[trigger] tables@[i].0, tables@[i].1, r->Ok_0@[i]),
    {
        let ghost t = tables@;
        let mut tables = tables;
        let mut result: Vec<Config> = Vec::new();
        let n = tables.len();
        let mut i: usize = 0;
        while i < n
            invariant
                i <= n,
                n == t.len(),
                tables@ == t.skip(i as int),
                result@.len() == i,
                forall|k: int| 0 <= k < i ==> named_config(#[trigger] t[k].0, t[k].1, result@[k]),
            decreases n - i,
        {
            let ghost before = result@;
            let (name, conf) = tables.remove(0);
            assert(t[i as int] == (name, conf));
            let mut conf = conf;
            conf.name = name;
            assert(named_config(t[i as int].0, t[i as int].1, conf));
            result.push(conf);
            assert(result@ == before.push(conf));
            assert(tables@ =~= t.skip(i + 1));
            i = i + 1;
        }
        if result.len() == 0 {
            Err(ConfigError::NoConfigTables)
        } else {
            Ok(result)
        }
    }

    /// Whether the report is sent to coveralls.
    pub fn is_coveralls(&self) -> (r: bool)
        ensures
            r == (self.coveralls is Some),
    {
        self.coveralls.is_some()
    }

    /// Where the base directory of the run is.
    pub fn get_base_dir(&self) -> (r: BaseDir)
        ensures
            (match self.root {
                Some(root) => if comps_absolute(path_components_of(root@)) {
                    (r matches BaseDir::Root(d) && d@ == root@)
                } else {
                    (r matches BaseDir::UnderCurrentDir(d) && d@ == root@)
                },
                None => (r is CurrentDir),
            }),
            (self.root matches Some(root) ==> ((r is Root) == starts_at_root(root@))),
    {
        match &self.root {
            Some(root) => {
                let cs = components(root.as_str());
                if is_absolute(&cs) {
                    BaseDir::Root(root.clone())
                } else {
                    BaseDir::UnderCurrentDir(root.clone())
                }
            },
            None => BaseDir::CurrentDir,
        }
    }

    /// The path of `path` relative to the base directory `base_dir`, or
    /// `path` itself where there is none.
    pub fn strip_base_dir(&self, path: &str, base_dir: &str) -> (r: String)
        ensures
            r@ == stripped_path(path@, base_dir@),
    {
        match path_relative_from(path, base_dir) {
            Some(p) => p,
            None => path.to_owned(),
        }
    }

    /// Whether `path` is excluded from the results: some exclusion glob
    /// matches its path relative to the base directory `base_dir`.
    pub fn exclude_path(&self, path: &str, base_dir: &str) -> (r: bool)
        ensures
            r == excluded_by(self.excluded_files_raw@, stripped_path(path@, base_dir@)),
    {
        let project = self.strip_base_dir(path, base_dir);
        let globs = &self.excluded_files_raw;
        let mut i: usize = 0;
        while i < globs.len()
            invariant
                i <= globs.len(),
                globs@ == self.excluded_files_raw@,
                project@ == stripped_path(path@, base_dir@),
                forall|k: int| 0 <= k < i ==> !glob_matches(#[trigger] globs@[k]@, project@),
            decreases globs.len() - i,
        {
            if matches_glob(globs[i].as_str(), project.as_str()) {
                assert(glob_matches(globs@[i as int]@, project@));
                return true;
            }
            i = i + 1;
        }
        false
    }

    /// Whether the output directory is the current directory `current_dir`:
    /// the two paths have the same components.
    pub fn is_default_output_dir(&self, current_dir: &str) -> (r: bool)
        ensures
            r == (path_components_of(self.output_directory@) == path_components_of(current_dir@)),
    {
        let a = components(self.output_directory.as_str());
        let b = components(current_dir);
        if a.len() != b.len() {
            assert(a.deep_view().len() != b.deep_view().len());
            return false;
        }
        let mut i: usize = 0;
        while i < a.len()
            invariant
                i <= a.len(),
                a.len() == b.len(),
                a.deep_view() == path_components_of(self.output_directory@),
                b.deep_view() == path_components_of(current_dir@),
                forall|k: int| 0 <= k < i ==> a.deep_view()[k] == b.deep_view()[k],
            decreases a.len() - i,
        {
            if !a[i].same_as(&b[i]) {
                assert(a.deep_view()[i as int] != b.deep_view()[i as int]);
                assert(a.deep_view() != b.deep_view());
                return false;
            }
            i = i + 1;
        }
        assert(a.deep_view() =~= b.deep_view());
        true
    }
}

/// Whether some glob of the list is valid.
fn any_valid_glob(globs: &Vec<String>) -> (r: bool)
    ensures
        r == some_valid_glob(globs@),
{
    let mut i: usize = 0;
    while i < globs.len()
        invariant
            i <= globs.len(),
            forall|k: int| 0 <= k < i ==> !glob_valid(#[trigger] globs@[k]@),
        decreases globs.len() - i,
    {
        if is_valid_glob(globs[i].as_str()) {
            return true;
        }
        i = i + 1;
    }
    false
}

/// Lays the arguments over one configuration of the file at `path`.
fn merge_one(c: Config, path: &String, debug: bool, verbose: bool, cli_valid: bool, cli_globs: &Vec<String>) -> (r: Config)
    requires
        cli_valid == some_valid_glob(cli_globs@),
    ensures
        merged_config(c, r, *path, debug, verbose, cli_globs@),
{
    let config = Some(path.clone());
    let mut raw = c.excluded_files_raw;
    if cli_valid {
        append_strings(&mut raw, cli_globs);
    }
    Config {
        config,
        debug: c.debug || debug,
        verbose: c.verbose || debug || verbose,
        excluded_files_raw: raw,
        ..c
    }
}

impl ConfigWrapper {
    /// The configurations of a run for which no configuration file is
    /// named: the one that the arguments give.
    pub fn from_args(args: ArgValues) -> (r: ConfigWrapper)
        ensures
            r.0@.len() == 1,
            config_from_args(args, r.0@[0]),
    {
        let c = Config::from_args(args);
        let mut v: Vec<Config> = Vec::new();
        v.push(c);
        ConfigWrapper(v)
    }

    /// The configurations of a run whose configuration file, at `path`,
    /// gave `loaded`: where it gave no configuration, the one that the
    /// arguments give; else each configuration of the file with the
    /// arguments laid over it (see `merged_config`).
    pub fn from_args_and_file(args: ArgValues, path: String, loaded: Result<Vec<Config>, ConfigError>) -> (r: ConfigWrapper)
        ensures
            r.0@.len() >= 1,
            (match loaded {
                Ok(confs) if confs@.len() > 0 => {
                    &&& r.0@.len() == confs@.len()
                    &&& forall|i: int| 0 <= i < confs@.len() ==> merged_config(
                        #[trigger] confs@[i],
                        r.0@[i],
                        path,
                        args.debug,
                        args.verbose,
                        args.exclude_files@,
                    )
                },
                _ => r.0@.len() == 1 && config_from_args(args, r.0@[0]),
            }),
    {
        let debug = args.debug;
        let verbose = args.verbose;
        let cli_globs = copy_strings(&args.exclude_files);
        let args_config = Config::from_args(args);
        match loaded {
            Err(_) => {
                let mut v: Vec<Config> = Vec::new();
                v.push(args_config);
                ConfigWrapper(v)
            },
            Ok(confs) => {
                if confs.len() == 0 {
                    let mut v: Vec<Config> = Vec::new();
                    v.push(args_config);
                    return ConfigWrapper(v);
                }
                let cli_valid = any_valid_glob(&cli_globs);
                let ghost t = confs@;
                let mut confs = confs;
                let mut result: Vec<Config> = Vec::new();
                let n = confs.len();
                let mut i: usize = 0;
                while i < n
                    invariant
                        i <= n,
                        n == t.len(),
                        confs@ == t.skip(i as int),
                        result@.len() == i,
                        cli_valid == some_valid_glob(cli_globs@),
                        forall|k: int| 0 <= k < i ==> merged_config(#[trigger] t[k], result@[k], path, debug, verbose, cli_globs@),
                    decreases n - i,
                {
                    let c = confs.remove(0);
                    assert(t[i as int] == c);
                    let c = merge_one(c, &path, debug, verbose, cli_valid, &cli_globs);
                    let ghost prev = result@;
                    result.push(c);
                    assert(result@ == prev.push(c));
                    assert(confs@ =~= t.skip(i + 1));
                    i = i + 1;
                }
                ConfigWrapper(result)
            },
        }
    }
}

/// Stripping the base directory from an absolute path, where the base is
/// absolute and holds no `..`, gives a relative path that, joined back onto
/// the base, leads (once `..` are resolved) where the path itself does.
pub proof fn law_strip_base_dir_round_trip(path: Seq<char>, base_dir: Seq<char>)
    requires
        starts_at_root(path),
        starts_at_root(base_dir),
        forall|i: int| 0 <= i < path_components_of(base_dir).len()
            ==> #[trigger] path_components_of(base_dir)[i] != Comp::ParentDir,
    ensures
        !starts_at_root(stripped_path(path, base_dir)),
        resolve_from(Seq::empty(), path_components_of(join_text(base_dir, stripped_path(path, base_dir))))
            == resolve_from(Seq::empty(), path_components_of(path)),
{
    law_relative_text_round_trip(path, base_dir);
}

/// What the configuration of the arguments holds, field by field: no name
/// and no file; reporting is verbose when `--verbose` or `--debug` is given;
/// `--all` or `--workspace` builds all packages; line coverage is collected
/// unless only `--branch` is given, branch coverage unless only `--line` is;
/// every other setting, the timeout among them, is the argument as given.
pub proof fn law_args_config_fields(args: ArgValues, r: Config)
    requires
        config_from_args(args, r),
    ensures
        r.name@.len() == 0,
        (r.config is None),
        r.verbose == (args.verbose || args.debug),
        r.all == (args.all || args.workspace),
        r.line_coverage == (args.line || !args.branch),
        r.branch_coverage == (args.branch || !args.line),
        r.manifest == args.manifest,
        r.root == args.root,
        r.run_types == args.run_types,
        r.run_ignored == args.ignored,
        r.ignore_tests == args.ignore_tests,
        r.ignore_panics == args.ignore_panics,
        r.force_clean == args.force_clean,
        r.debug == args.debug,
        r.count == args.count,
        r.generate == args.generate,
        r.output_directory == args.output_directory,
        r.coveralls == args.coveralls,
        r.ci_tool == args.ci_tool,
        r.report_uri == args.report_uri,
        r.forward_signals == args.forward,
        r.all_features == args.all_features,
        r.no_default_features == args.no_default_features,
        r.features == args.features,
        r.unstable_features == args.unstable_features,
        r.packages == args.packages,
        r.exclude == args.exclude,
        r.excluded_files_raw == args.exclude_files,
        r.varargs == args.varargs,
        r.test_timeout == args.test_timeout,
        r.release == args.release,
        r.no_run == args.no_run,
        r.locked == args.locked,
        r.frozen == args.frozen,
        r.target_dir == args.target_dir,
        r.offline == args.offline,
{
}

/// What laying the arguments over a configuration of the file keeps and
/// changes: it records the file; it turns on `debug` where `--debug` is
/// given and `verbose` where `--debug` or `--verbose` is, and never turns
/// either off; it keeps the file's exclusion globs, adding those of the
/// command line after them where one of them is valid; every other setting
/// is the file's.
pub proof fn law_merge_fields(
    c: Config,
    r: Config,
    path: String,
    debug: bool,
    verbose: bool,
    cli_globs: Seq<String>,
)
    requires
        merged_config(c, r, path, debug, verbose, cli_globs),
    ensures
        r.config == Some(path),
        r.debug == (c.debug || debug),
        r.verbose == (c.verbose || debug || verbose),
        c.debug ==> r.debug,
        c.verbose ==> r.verbose,
        r.excluded_files_raw@.len() >= c.excluded_files_raw@.len(),
        forall|i: int| 0 <= i < c.excluded_files_raw@.len() ==> #[trigger] r.excluded_files_raw@[i] == c.excluded_files_raw@[i],
        some_valid_glob(cli_globs) ==> r.excluded_files_raw@.len() == c.excluded_files_raw@.len() + cli_globs.len(),
        !some_valid_glob(cli_globs) ==> r.excluded_files_raw@ == c.excluded_files_raw@,
        r.name == c.name,
        r.manifest == c.manifest,
        r.root == c.root,
        r.run_ignored == c.run_ignored,
        r.ignore_tests == c.ignore_tests,
        r.ignore_panics == c.ignore_panics,
        r.force_clean == c.force_clean,
        r.count == c.count,
        r.line_coverage == c.line_coverage,
        r.branch_coverage == c.branch_coverage,
        r.output_directory == c.output_directory,
        r.coveralls == c.coveralls,
        r.ci_tool == c.ci_tool,
        r.report_uri == c.report_uri,
        r.forward_signals == c.forward_signals,
        r.all_features == c.all_features,
        r.no_default_features == c.no_default_features,
        r.all == c.all,
        r.test_timeout == c.test_timeout,
        r.release == c.release,
        r.no_run == c.no_run,
        r.locked == c.locked,
        r.frozen == c.frozen,
        r.target_dir == c.target_dir,
        r.offline == c.offline,
        r.run_types == c.run_types,
        r.packages == c.packages,
        r.exclude == c.exclude,
        r.varargs == c.varargs,
        r.features == c.features,
        r.unstable_features == c.unstable_features,
        r.generate == c.generate,
{
}

/// Naming a table's configuration sets its name to the table's and keeps
/// every other setting as read.
pub proof fn law_named_config_fields(name: String, c: Config, r: Config)
    requires
        named_config(name, c, r),
    ensures
        r.name == name,
        r.manifest == c.manifest,
        r.config == c.config,
        r.root == c.root,
        r.run_ignored == c.run_ignored,
        r.ignore_tests == c.ignore_tests,
        r.ignore_panics == c.ignore_panics,
        r.force_clean == c.force_clean,
        r.verbose == c.verbose,
        r.debug == c.debug,
        r.count == c.count,
        r.line_coverage == c.line_coverage,
        r.branch_coverage == c.branch_coverage,
        r.output_directory == c.output_directory,
        r.coveralls == c.coveralls,
        r.ci_tool == c.ci_tool,
        r.report_uri == c.report_uri,
        r.forward_signals == c.forward_signals,
        r.all_features == c.all_features,
        r.no_default_features == c.no_default_features,
        r.all == c.all,
        r.test_timeout == c.test_timeout,
        r.release == c.release,
        r.no_run == c.no_run,
        r.locked == c.locked,
        r.frozen == c.frozen,
        r.target_dir == c.target_dir,
        r.offline == c.offline,
        r.run_types == c.run_types,
        r.packages == c.packages,
        r.exclude == c.exclude,
        r.excluded_files_raw == c.excluded_files_raw,
        r.varargs == c.varargs,
        r.features == c.features,
        r.unstable_features == c.unstable_features,
        r.generate == c.generate,
{
}

/// Exclusion by a list of globs, built up one glob at a time: no glob
/// excludes nothing, and adding a glob excludes exactly what the list
/// excluded and what that glob matches.
pub proof fn law_excluded_by_each_glob(globs: Seq<String>, g: String, text: Seq<char>)
    ensures
        !excluded_by(Seq::<String>::empty(), text),
        excluded_by(globs.push(g), text) == (excluded_by(globs, text) || glob_matches(g@, text)),
{
    let gs = globs.push(g);
    if excluded_by(gs, text) {
        let i = choose|i: int| 0 <= i < gs.len() && glob_matches(#[trigger] gs[i]@, text);
        if i < globs.len() {
            assert(gs[i] == globs[i]);
        }
    }
    if excluded_by(globs, text) {
        let i = choose|i: int| 0 <= i < globs.len() && glob_matches(#[trigger] globs[i]@, text);
        assert(gs[i] == globs[i]);
    }
    if glob_matches(g@, text) {
        assert(gs[globs.len() as int] == g);
    }
}

/// Whether some glob of a list is valid, built up one glob at a time: none
/// of no globs is, and adding a glob adds whether that glob is.
pub proof fn law_some_valid_glob_each(globs: Seq<String>, g: String)
    ensures
        !some_valid_glob(Seq::<String>::empty()),
        some_valid_glob(globs.push(g)) == (some_valid_glob(globs) || glob_valid(g@)),
{
    let gs = globs.push(g);
    if some_valid_glob(gs) {
        let i = choose|i: int| 0 <= i < gs.len() && glob_valid(#[trigger] gs[i]@);
        if i < globs.len() {
            assert(gs[i] == globs[i]);
        }
    }
    if some_valid_glob(globs) {
        let i = choose|i: int| 0 <= i < globs.len() && glob_valid(#[trigger] globs[i]@);
        assert(gs[i] == globs[i]);
    }
    if glob_valid(g@) {
        assert(gs[globs.len() as int] == g);
    }
}

/// A configuration with no exclusion globs excludes no path.
pub proof fn law_no_globs_no_exclusions(c: Config, path: Seq<char>, base_dir: Seq<char>)
    requires
        c.excluded_files_raw@.len() == 0,
    ensures
        !excluded_by(c.excluded_files_raw@, stripped_path(path, base_dir)),
{
}

/// Laying the arguments over a configuration of the file never makes it
/// exclude fewer paths: every path that the file's configuration excluded,
/// the merged configuration excludes too.
pub proof fn law_merge_keeps_exclusions(
    c: Config,
    r: Config,
    path: String,
    debug: bool,
    verbose: bool,
    cli_globs: Seq<String>,
    text: Seq<char>,
)
    requires
        merged_config(c, r, path, debug, verbose, cli_globs),
        excluded_by(c.excluded_files_raw@, text),
    ensures
        excluded_by(r.excluded_files_raw@, text),
{
    let i = choose|i: int| 0 <= i < c.excluded_files_raw@.len() && glob_matches(#[trigger] c.excluded_files_raw@[i]@, text);
    if some_valid_glob(cli_globs) {
        assert(r.excluded_files_raw@[i] == c.excluded_files_raw@[i]);
    }
}

/// Once the arguments are laid over it, a configuration of the file
/// reports debugging information only when it also reports verbosely.
pub proof fn law_merged_debug_is_verbose(
    c: Config,
    r: Config,
    path: String,
    debug: bool,
    verbose: bool,
    cli_globs: Seq<String>,
)
    requires
        merged_config(c, r, path, debug, verbose, cli_globs),
        c.debug ==> c.verbose,
    ensures
        r.debug ==> r.verbose,
{
}

} // verus!
