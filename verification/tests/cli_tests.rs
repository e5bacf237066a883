use banditrs::cli::baseline::{
    checked_files, extract_output_format, failed_run, initialize, run_commands, targets_of, RepoFacts,
};
use banditrs::cli::config_generator::{id_error, parse_args, py_list_repr, render_profile, GenCommand};
use banditrs::cli::main::{
    apply_ini_options, choose_ini_file, epilog, exit_code, log_option_source, merge_cli_tests, selection_notes,
    template_misused, thresholds, Args, MultipleIniFiles, OutputTarget,
};
use banditrs::constants::Rank;
use banditrs::engine::config::BanditConfig;

fn v(items: &[&str]) -> Vec<String> {
    items.iter().map(|s| s.to_string()).collect()
}

fn ini(items: &[(&str, &str)]) -> Vec<(String, String)> {
    items.iter().map(|(k, v)| (k.to_string(), v.to_string())).collect()
}

#[test]
fn option_sources() {
    assert_eq!(log_option_source(None, Some("a"), Some("b"), "x"), (Some("a".to_string()), Some("Using command line arg for x".to_string())));
    assert_eq!(log_option_source(None, Some(""), Some("b"), "x"), (Some("b".to_string()), Some("Using ini file for x".to_string())));
    assert_eq!(log_option_source(None, None, Some(""), "x"), (None, None));
    assert_eq!(log_option_source(Some("d"), Some("d"), Some("i"), "x"), (Some("i".to_string()), None));
    assert_eq!(log_option_source(Some("d"), Some("d"), None, "x"), (Some("d".to_string()), None));
    assert_eq!(log_option_source(Some("d"), Some("c"), Some("i"), "x"), (Some("c".to_string()), None));
}

#[test]
fn ini_options_fill_defaults() {
    let mut a = Args::default();
    assert_eq!(a.excluded_paths, ".svn,CVS,.bzr,.hg,.git,__pycache__,.tox,.eggs,*.egg");
    a.tests = Some("B101".to_string());
    let notes = apply_ini_options(
        &mut a,
        &ini(&[
            ("targets", "src,lib"),
            ("recursive", "Yes"),
            ("skips", "B102"),
            ("tests", "B103"),
            ("number", "5"),
            ("level", "3"),
            ("format", "csv"),
            ("output", "out.csv"),
            ("quiet", "0"),
            ("exclude", "build"),
        ]),
        "txt",
    );
    assert_eq!(a.targets, v(&["src", "lib"]));
    assert!(a.recursive);
    assert_eq!(a.skips.as_deref(), Some("B102"));
    assert_eq!(a.tests.as_deref(), Some("B101"));
    assert_eq!(a.context_lines, 5);
    assert_eq!(a.severity, 3);
    assert_eq!(a.confidence, 1);
    assert_eq!(a.output_format.as_deref(), Some("csv"));
    assert!(matches!(&a.output_file, OutputTarget::File(f) if f == "out.csv"));
    assert!(!a.quiet);
    assert_eq!(a.excluded_paths, "build");
    assert_eq!(
        notes,
        v(&["Using ini file for skipped tests", "Using command line arg for selected tests", "Using ini file for selected targets"])
    );
}

#[test]
fn ini_options_keep_command_line() {
    let mut a = Args::default();
    a.targets = v(&["x.py"]);
    a.context_lines = 2;
    a.output_format = Some("json".to_string());
    let notes = apply_ini_options(&mut a, &ini(&[("targets", "y.py"), ("number", "7"), ("format", "csv"), ("number", "9")]), "screen");
    assert_eq!(a.targets, v(&["x.py"]));
    assert_eq!(a.context_lines, 2);
    assert_eq!(a.output_format.as_deref(), Some("json"));
    assert_eq!(notes, v(&["Using command line arg for selected targets"]));
    let mut b = Args::default();
    apply_ini_options(&mut b, &ini(&[("number", "0"), ("level", "x")]), "screen");
    assert_eq!(b.context_lines, -1);
    assert_eq!(b.severity, 1);
    assert_eq!(b.output_format.as_deref(), Some("screen"));
}

#[test]
fn ini_file_choice() {
    assert!(matches!(choose_ini_file(Some("a/.bandit"), v(&["b/.bandit"])), Ok((Some(p), None)) if p == "a/.bandit"));
    assert!(matches!(choose_ini_file(None, v(&[])), Ok((None, None))));
    match choose_ini_file(None, v(&["b/.bandit"])) {
        Ok((Some(p), Some(n))) => {
            assert_eq!(p, "b/.bandit");
            assert_eq!(n, "Found project level .bandit file: b/.bandit");
        }
        _ => panic!("one file is chosen"),
    }
    match choose_ini_file(None, v(&["a/.bandit", "b/.bandit"])) {
        Err(e) => assert_eq!(
            e.to_string(),
            "Multiple .bandit files found - scan separately or choose one with --ini\n\ta/.bandit, b/.bandit"
        ),
        Ok(_) => panic!("two files are refused"),
    }
    assert_eq!(MultipleIniFiles(v(&["x"])).0.len(), 1);
}

#[test]
fn thresholds_templates_and_exit_codes() {
    assert_eq!(thresholds(1, 1), (Rank::Undefined, Rank::Undefined));
    assert_eq!(thresholds(3, 2), (Rank::Medium, Rank::Low));
    assert_eq!(thresholds(0, 9), (Rank::Undefined, Rank::High));
    assert_eq!(exit_code(2, false), 1);
    assert_eq!(exit_code(2, true), 0);
    assert_eq!(exit_code(0, false), 0);
    let mut a = Args::default();
    assert!(!template_misused(&a));
    a.msg_template = Some("{msg}".to_string());
    assert!(template_misused(&a));
    a.output_format = Some("custom".to_string());
    assert!(!template_misused(&a));
}

#[test]
fn profile_merging() {
    let c = BanditConfig::default();
    let mut p = c.default_profile();
    let notes = selection_notes(&p, Some("B101,B102"), None);
    assert_eq!(
        notes,
        v(&["profile include tests: None", "profile exclude tests: None", "cli include tests: B101,B102", "cli exclude tests: None"])
    );
    let (warnings, err) = merge_cli_tests(&mut p, Some("B101,B999"), Some("B102"));
    assert_eq!(warnings, v(&["Unknown test found in profile: B999"]));
    assert!(err.is_none());
    let mut q = c.default_profile();
    let (_, err) = merge_cli_tests(&mut q, Some("B101,B102"), Some("B102,B101"));
    assert_eq!(err.unwrap(), "Non-exclusive include/exclude test sets: {'B101', 'B102'}");
}

#[test]
fn epilog_lists_sorted_tests() {
    let e = epilog();
    assert!(e.starts_with("\nCUSTOM FORMATTING\n-----------------\n"));
    assert!(e.contains("The following tests were discovered and loaded:\n-----------------------------------------------\n\tB101\tassert_used\n\tB102\texec_used"));
}

#[test]
fn baseline_arguments() {
    let args = v(&["-r", "src", "-f", "html", "lib"]);
    assert_eq!(extract_output_format(&args).as_deref(), Some("html"));
    assert_eq!(targets_of(&args), v(&["src", "lib"]));
    assert_eq!(extract_output_format(&v(&["x", "-f"])), None);
    assert_eq!(checked_files(), v(&["bandit_baseline_result.txt", "bandit_baseline_result.html", "bandit_baseline_result.json", "_bandit_baseline_run.json_"]));
    assert!(failed_run(2));
    assert!(!failed_run(1));
}

fn facts() -> RepoFacts {
    RepoFacts { git_available: true, inside_work_tree: true, dirty: false, existing: vec![] }
}

#[test]
fn baseline_initialize() {
    let r = initialize(&v(&["-f", "pdf", "x"]), &facts());
    assert_eq!(r.usage_error.unwrap(), "argument -f: invalid choice: 'pdf' (choose from 'txt', 'html', 'json')");
    let r = initialize(&v(&["-r"]), &facts());
    assert_eq!(r.usage_error.unwrap(), "the following arguments are required: targets");
    let r = initialize(&v(&["x"]), &facts());
    assert_eq!(r.infos, v(&["No output format specified, using terminal"]));
    let init = r.result.unwrap();
    assert_eq!(init.output_format, "terminal");
    assert_eq!(init.report_fname, "bandit_baseline_result.terminal");
    let mut f = facts();
    f.dirty = true;
    f.existing = v(&["bandit_baseline_result.json", "_bandit_baseline_run.json_"]);
    let r = initialize(&v(&["-f", "json", "x", "-o"]), &f);
    assert!(r.result.is_none());
    assert_eq!(
        r.errors,
        v(&[
            "Current working directory is dirty and must be resolved",
            "File bandit_baseline_result.json already exists, aborting",
            "Temporary file _bandit_baseline_run.json_ needs to be removed prior to running",
            "Bandit baseline must not be called with the -o option",
        ])
    );
    let mut g = facts();
    g.git_available = false;
    let r = initialize(&v(&["x"]), &g);
    assert_eq!(r.errors, v(&["Git not available, reinstall with baseline extra"]));
    let init = initialize(&v(&["-f", "txt", "x"]), &facts()).result.unwrap();
    let (first, second) = run_commands(&v(&["-f", "txt", "x"]), &init, "/tmp/t.json");
    assert_eq!(first, v(&["-f", "txt", "x", "-f", "json", "-o", "/tmp/t.json"]));
    assert_eq!(second, v(&["-f", "txt", "x", "-b", "/tmp/t.json", "-o", "bandit_baseline_result.txt"]));
}

#[test]
fn config_generator() {
    assert!(matches!(parse_args(&v(&["-t", "B101", "-h"])), GenCommand::Help));
    assert!(matches!(parse_args(&v(&["--bogus"])), GenCommand::Unrecognized(e) if e == "bandit-config-generator: error: unrecognized arguments: --bogus"));
    match parse_args(&v(&["--show-defaults", "-o", "p.yml", "-s", "B102"])) {
        GenCommand::Run { show_defaults, output_file, tests, skips } => {
            assert!(show_defaults);
            assert_eq!(output_file.as_deref(), Some("p.yml"));
            assert!(tests.is_none());
            assert_eq!(skips.as_deref(), Some("B102"));
        }
        _ => panic!("a run"),
    }
    assert_eq!(py_list_repr(&v(&["B101", "B406"])), "['B101', 'B406']");
    assert_eq!(id_error(&v(&["B999"]), &v(&["B998"])).unwrap(), "unknown ID in skips: B998");
    assert_eq!(id_error(&v(&["B999"]), &v(&["B101"])).unwrap(), "unknown ID in tests: B999");
    assert!(id_error(&v(&["B101"]), &v(&[])).is_none());
    let p = render_profile(&v(&["-o", "p.yml", "-t", "B101"]), "settings: 1", &v(&["B101"]), &v(&[]));
    assert!(p.starts_with("\n### Bandit config file generated from:\n# 'bandit-config-generator -o p.yml -t B101'\n"));
    assert!(p.contains("# Available tests:\n# B101 : assert_used\n# B102 : exec_used\n"));
    assert!(p.contains("\ntests: ['B101']\n"));
    assert!(p.contains("\nskips:\n"));
    assert!(p.ends_with("\nsettings: 1\n"));
}
