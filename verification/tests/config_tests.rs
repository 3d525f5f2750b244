use glob::Pattern;
use npm_bumpall::utility::{include_filter, Args, Config, OutputMethod, UpgradeStyle};

fn project() -> Option<String> {
    Some(String::from("npm-bumpall"))
}

fn words(list: &[&str]) -> Vec<String> {
    list.iter().map(|word| String::from(*word)).collect()
}

#[test]
fn default_on_no_args() {
    let args = Args::default();
    let result = Config::new_from_args(args, project());
    let expected = Config {
        additional_install_args: vec![],
        current_dir_name: Some(String::from("npm-bumpall")),
        include_glob: None,
        is_dry_run: false,
        is_patch_mode: false,
        stderr_method: OutputMethod::Null,
        stdout_method: OutputMethod::Null,
        upgrade_style: UpgradeStyle::Wanted,
    };
    assert_eq!(result, expected)
}

#[test]
fn handles_latest_arg() {
    let args_a = Args {
        latest: true,
        ..Args::default()
    };
    let result_a = Config::new_from_args(args_a, project());
    let expected = Config {
        additional_install_args: vec![],
        current_dir_name: Some(String::from("npm-bumpall")),
        include_glob: None,
        is_dry_run: false,
        is_patch_mode: false,
        stderr_method: OutputMethod::Null,
        stdout_method: OutputMethod::Null,
        upgrade_style: UpgradeStyle::Latest,
    };
    assert_eq!(result_a, expected);
}

#[test]
fn handles_legacy_deps_arg() {
    let args_a = Args {
        legacy_peer_deps: true,
        ..Args::default()
    };
    let result_a = Config::new_from_args(args_a, project());
    let expected = Config {
        additional_install_args: vec![String::from("--legacy-peer-deps")],
        current_dir_name: Some(String::from("npm-bumpall")),
        include_glob: None,
        is_dry_run: false,
        is_patch_mode: false,
        stderr_method: OutputMethod::Null,
        stdout_method: OutputMethod::Null,
        upgrade_style: UpgradeStyle::Wanted,
    };
    assert_eq!(result_a, expected);
}

#[test]
fn handles_verbose_arg() {
    let args_a = Args {
        verbose: true,
        ..Args::default()
    };
    let result_a = Config::new_from_args(args_a, project());
    let expected = Config {
        additional_install_args: vec![],
        current_dir_name: Some(String::from("npm-bumpall")),
        include_glob: None,
        is_dry_run: false,
        is_patch_mode: false,
        stderr_method: OutputMethod::Inherit,
        stdout_method: OutputMethod::Inherit,
        upgrade_style: UpgradeStyle::Wanted,
    };
    assert_eq!(result_a, expected);
}

#[test]
fn handles_dry_run_arg() {
    let args_a = Args {
        dry_run: true,
        ..Args::default()
    };
    let result_a = Config::new_from_args(args_a, project());
    let expected = Config {
        additional_install_args: vec![],
        current_dir_name: Some(String::from("npm-bumpall")),
        include_glob: None,
        is_dry_run: true,
        is_patch_mode: false,
        stderr_method: OutputMethod::Null,
        stdout_method: OutputMethod::Null,
        upgrade_style: UpgradeStyle::Wanted,
    };
    assert_eq!(result_a, expected);
}

#[test]
fn handles_running_dir() {
    let result = Config::new_from_args(Args { ..Args::default() }, Some(String::from("test_files")));
    let expected = Config {
        additional_install_args: vec![],
        current_dir_name: Some(String::from("test_files")),
        include_glob: None,
        is_dry_run: false,
        is_patch_mode: false,
        stderr_method: OutputMethod::Null,
        stdout_method: OutputMethod::Null,
        upgrade_style: UpgradeStyle::Wanted,
    };

    assert_eq!(result, expected);
}

#[test]
fn handles_patch_mode_arg() {
    let args_a = Args {
        patch: true,
        ..Args::default()
    };
    let result_a = Config::new_from_args(args_a, project());
    let expected = Config {
        additional_install_args: vec![],
        current_dir_name: Some(String::from("npm-bumpall")),
        include_glob: None,
        is_dry_run: false,
        is_patch_mode: true,
        stderr_method: OutputMethod::Null,
        stdout_method: OutputMethod::Null,
        upgrade_style: UpgradeStyle::Wanted,
    };
    assert_eq!(result_a, expected);
}

#[test]
fn handles_include_arg() {
    let args_a = Args {
        include_glob: Some(String::from("hello")),
        ..Args::default()
    };
    let result_a = Config::new_from_args(args_a, project());
    let expected = Config {
        additional_install_args: vec![],
        current_dir_name: Some(String::from("npm-bumpall")),
        include_glob: Some(Pattern::new("hello").unwrap()),
        is_dry_run: false,
        is_patch_mode: false,
        stderr_method: OutputMethod::Null,
        stdout_method: OutputMethod::Null,
        upgrade_style: UpgradeStyle::Wanted,
    };
    assert_eq!(result_a, expected);
}

#[test]
fn handles_combo_args() {
    let args_a = Args {
        dry_run: true,
        include_glob: Some(String::from(".*")),
        latest: true,
        legacy_peer_deps: true,
        patch: true,
        verbose: true,
    };
    let result_a = Config::new_from_args(args_a, project());
    let expected = Config {
        additional_install_args: vec![String::from("--legacy-peer-deps")],
        current_dir_name: Some(String::from("npm-bumpall")),
        include_glob: Some(Pattern::new(".*").unwrap()),
        is_dry_run: true,
        is_patch_mode: true,
        stderr_method: OutputMethod::Inherit,
        stdout_method: OutputMethod::Inherit,
        upgrade_style: UpgradeStyle::Latest,
    };
    assert_eq!(result_a, expected);
}

#[test]
fn a_pattern_that_does_not_compile_leaves_no_filter() {
    let args = Args {
        include_glob: Some(String::from("a***b")),
        ..Args::default()
    };
    let config = Config::new_from_args(args, project());
    assert_eq!(config.include_glob, None);
}

#[test]
fn an_unknown_directory_is_kept_unknown() {
    let config = Config::new_from_args(Args::default(), None);
    assert_eq!(config.current_dir_name, None);
}

#[test]
fn include_filter_keeps_a_compiled_pattern() {
    assert_eq!(
        include_filter(Pattern::new("@scope/*")),
        Some(Pattern::new("@scope/*").unwrap())
    );
    assert_eq!(include_filter(Pattern::new("[")), None);
}

#[test]
fn with_filter_takes_the_pattern_as_given() {
    let args = Args {
        include_glob: Some(String::from("hello")),
        ..Args::default()
    };
    let config = Config::with_filter(args, project(), Some(Pattern::new("other").unwrap()));
    assert_eq!(config.include_glob, Some(Pattern::new("other").unwrap()));
    let none = Config::with_filter(Args::default(), None, None);
    assert_eq!(none.include_glob, None);
    assert_eq!(none.current_dir_name, None);
}

#[test]
fn configs_differ_field_by_field() {
    let base = || Config::new_from_args(Args::default(), project());
    assert_eq!(base(), base());
    let mut other = base();
    other.additional_install_args.push(String::from("--x"));
    assert_ne!(base(), other);
    let mut other = base();
    other.additional_install_args = vec![String::from("a"), String::from("b")];
    let mut third = base();
    third.additional_install_args = vec![String::from("a"), String::from("c")];
    assert_ne!(other, third);
    let mut other = base();
    other.current_dir_name = None;
    assert_ne!(base(), other);
    let mut other = base();
    other.current_dir_name = Some(String::from("npm-bumpal"));
    assert_ne!(base(), other);
    let mut other = base();
    other.include_glob = Some(Pattern::new("a").unwrap());
    assert_ne!(base(), other);
    let mut third = base();
    third.include_glob = Some(Pattern::new("b").unwrap());
    assert_ne!(other, third);
    let mut other = base();
    other.is_dry_run = true;
    assert_ne!(base(), other);
    let mut other = base();
    other.is_patch_mode = true;
    assert_ne!(base(), other);
    let mut other = base();
    other.stderr_method = OutputMethod::Inherit;
    assert_eq!(base(), other);
    let mut other = base();
    other.stdout_method = OutputMethod::Inherit;
    assert_eq!(base(), other);
    let mut other = base();
    other.upgrade_style = UpgradeStyle::Latest;
    assert_ne!(base(), other);
}

#[test]
fn utility_default_on_no_args() {
    let args = vec![];
    let result = Config::new_from_flags(args);
    let expected = Config {
        additional_install_args: vec![],
        current_dir_name: None,
        include_glob: None,
        is_dry_run: false,
        is_patch_mode: false,
        stderr_method: OutputMethod::Null,
        stdout_method: OutputMethod::Null,
        upgrade_style: UpgradeStyle::Wanted,
    };
    assert_eq!(result, expected)
}

#[test]
fn utility_handles_latest_arg() {
    let args_a = vec![String::from("--latest")];
    let result_a = Config::new_from_flags(args_a);
    let args_b = vec![String::from("-l")];
    let result_b = Config::new_from_flags(args_b);
    let expected = Config {
        additional_install_args: vec![],
        current_dir_name: None,
        include_glob: None,
        is_dry_run: false,
        is_patch_mode: false,
        stderr_method: OutputMethod::Null,
        stdout_method: OutputMethod::Null,
        upgrade_style: UpgradeStyle::Latest,
    };
    assert_eq!(result_a, expected);
    assert_eq!(result_b, expected);
}

#[test]
fn utility_handles_legacy_deps_arg() {
    let args_a = vec![String::from("--legacy-peer-deps")];
    let result_a = Config::new_from_flags(args_a);
    let args_b = vec![String::from("-lpd")];
    let result_b = Config::new_from_flags(args_b);
    let expected = Config {
        additional_install_args: vec![String::from("--legacy-peer-deps")],
        current_dir_name: None,
        include_glob: None,
        is_dry_run: false,
        is_patch_mode: false,
        stderr_method: OutputMethod::Null,
        stdout_method: OutputMethod::Null,
        upgrade_style: UpgradeStyle::Wanted,
    };
    assert_eq!(result_a, expected);
    assert_eq!(result_b, expected);
}

#[test]
fn utility_handles_verbose_arg() {
    let args_a = vec![String::from("--verbose")];
    let result_a = Config::new_from_flags(args_a);
    let args_b = vec![String::from("-vb")];
    let result_b = Config::new_from_flags(args_b);
    let expected = Config {
        additional_install_args: vec![],
        current_dir_name: None,
        include_glob: None,
        is_dry_run: false,
        is_patch_mode: false,
        stderr_method: OutputMethod::Inherit,
        stdout_method: OutputMethod::Inherit,
        upgrade_style: UpgradeStyle::Wanted,
    };
    assert_eq!(result_a, expected);
    assert_eq!(result_b, expected);
}

#[test]
fn utility_handles_combo_args() {
    let args_a = vec![
        String::from("--latest"),
        String::from("-lpd"),
        String::from("--verbose"),
    ];
    let result_a = Config::new_from_flags(args_a);
    let args_b = vec![
        String::from("-l"),
        String::from("--legacy-peer-deps"),
        String::from("-vb"),
    ];
    let result_b = Config::new_from_flags(args_b);
    let expected = Config {
        additional_install_args: vec![String::from("--legacy-peer-deps")],
        current_dir_name: None,
        include_glob: None,
        is_dry_run: false,
        is_patch_mode: false,
        stderr_method: OutputMethod::Inherit,
        stdout_method: OutputMethod::Inherit,
        upgrade_style: UpgradeStyle::Latest,
    };
    assert_eq!(result_a, expected);
    assert_eq!(result_b, expected);
}

#[test]
fn new_from_flags_passes_over_other_words() {
    let config = Config::new_from_flags(words(&["npm-bumpall", "--Latest", "-v", "--verbose ", "x"]));
    assert_eq!(config.upgrade_style, UpgradeStyle::Wanted);
    assert_eq!(config.stdout_method, OutputMethod::Null);
    assert_eq!(config.stderr_method, OutputMethod::Null);
    assert!(config.additional_install_args.is_empty());
    assert!(!config.is_dry_run);
    assert!(!config.is_patch_mode);
    assert_eq!(config.current_dir_name, None);
    assert_eq!(config.include_glob, None);
}

#[test]
fn new_from_flags_takes_a_switch_at_any_place() {
    let config = Config::new_from_flags(words(&["a", "b", "-vb", "c", "-vb"]));
    assert_eq!(config.stdout_method, OutputMethod::Inherit);
    assert_eq!(config.stderr_method, OutputMethod::Inherit);
    assert_eq!(config.upgrade_style, UpgradeStyle::Wanted);
    assert!(config.additional_install_args.is_empty());
}

#[test]
fn new_from_flags_hands_on_each_legacy_switch() {
    let config = Config::new_from_flags(words(&[
        "--legacy-peer-deps",
        "-l",
        "-lpd",
        "x",
        "--legacy-peer-deps",
    ]));
    assert_eq!(
        config.additional_install_args,
        vec!["--legacy-peer-deps", "--legacy-peer-deps", "--legacy-peer-deps"]
    );
    assert_eq!(config.upgrade_style, UpgradeStyle::Latest);
}

#[test]
fn new_from_args_hands_on_the_legacy_switch_once() {
    let config = Config::new_from_args(
        Args {
            legacy_peer_deps: true,
            ..Args::default()
        },
        None,
    );
    assert_eq!(config.additional_install_args, vec!["--legacy-peer-deps"]);
}

#[test]
fn the_filter_holds_the_given_pattern() {
    for text in ["hello", "@scope/*", "a?c", "", "*", "[ab]*", "src/**"] {
        let args = Args {
            include_glob: Some(String::from(text)),
            ..Args::default()
        };
        let config = Config::new_from_args(args, project());
        assert_eq!(
            config.include_glob.map(|found| String::from(found.as_str())),
            Some(String::from(text))
        );
    }
}

#[test]
fn a_plain_pattern_always_compiles() {
    for text in ["", "a", "*", "?", "*a*b?*", "]", "!", "a-b", "@s/*", "\\*", "\u{e9}*"] {
        let args = Args {
            include_glob: Some(String::from(text)),
            ..Args::default()
        };
        assert!(Config::new_from_args(args, None).include_glob.is_some(), "{text:?}");
    }
}

#[test]
fn a_pattern_that_is_not_plain_may_fail() {
    for text in ["[", "a[b", "***", "a**", "[!"] {
        let args = Args {
            include_glob: Some(String::from(text)),
            ..Args::default()
        };
        assert_eq!(Config::new_from_args(args, None).include_glob, None, "{text:?}");
    }
}
