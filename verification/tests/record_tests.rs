use npm_bumpall::npm_cmd::PackageValue;
use npm_bumpall::package::{Package, ParseError, UpgradeType};
use npm_bumpall::record::{parse_line, split_name_and_version, val_or_err};
use npm_bumpall::utility::{Args, Config};

fn config(latest: bool, dir: Option<&str>) -> Config {
    Config::new_from_args(
        Args {
            latest,
            ..Args::default()
        },
        dir.map(String::from),
    )
}

fn record(
    name: &str,
    current: &str,
    wanted: &str,
    latest: &str,
    dependent: &str,
    location: &str,
) -> (String, PackageValue) {
    (
        String::from(name),
        PackageValue {
            current: String::from(current),
            wanted: String::from(wanted),
            latest: String::from(latest),
            dependent: String::from(dependent),
            location: String::from(location),
        },
    )
}

fn pair(name: &str, version: &str) -> Result<(String, String), ParseError> {
    Ok((String::from(name), String::from(version)))
}

#[test]
fn val_or_err_keeps_the_value() {
    assert_eq!(val_or_err(Some(5)), Ok(5));
    assert_eq!(val_or_err(Some("a")), Ok("a"));
}

#[test]
fn val_or_err_fails_on_none() {
    assert_eq!(val_or_err::<u8>(None), Err(ParseError));
}

#[test]
fn splits_a_plain_segment() {
    assert_eq!(
        split_name_and_version(Some("myPackage@1.23.0")),
        pair("myPackage", "1.23.0")
    );
}

#[test]
fn splits_a_scoped_segment() {
    assert_eq!(
        split_name_and_version(Some("@jonshort/cenv@1.0.3")),
        pair("@jonshort/cenv", "1.0.3")
    );
}

#[test]
fn split_passes_over_what_follows_the_version() {
    assert_eq!(split_name_and_version(Some("a@1@2")), pair("a", "1"));
    assert_eq!(split_name_and_version(Some("@s/a@1@2@3")), pair("@s/a", "1"));
}

#[test]
fn split_keeps_white_space_inside_the_parts() {
    assert_eq!(split_name_and_version(Some(" a @ 1 ")), pair(" a ", " 1 "));
}

#[test]
fn split_reads_the_missing_sentinel() {
    assert_eq!(split_name_and_version(Some("MISSING")), pair("", "MISSING"));
}

#[test]
fn split_reads_missing_as_a_version_like_any_other() {
    assert_eq!(
        split_name_and_version(Some("a@MISSING")),
        pair("a", "MISSING")
    );
}

#[test]
fn split_fails_on_what_only_resembles_the_sentinel() {
    assert_eq!(split_name_and_version(Some("MISSING ")), Err(ParseError));
    assert_eq!(split_name_and_version(Some("missing")), Err(ParseError));
    assert_eq!(split_name_and_version(Some("MISSIN")), Err(ParseError));
}

#[test]
fn split_fails_on_an_absent_segment() {
    assert_eq!(split_name_and_version(None), Err(ParseError));
}

#[test]
fn split_fails_without_a_version() {
    assert_eq!(split_name_and_version(Some("")), Err(ParseError));
    assert_eq!(split_name_and_version(Some("name")), Err(ParseError));
    assert_eq!(split_name_and_version(Some("@scope/name")), Err(ParseError));
    assert_eq!(split_name_and_version(Some("@")), Err(ParseError));
}

#[test]
fn split_fails_on_a_blank_part() {
    assert_eq!(split_name_and_version(Some("name@")), Err(ParseError));
    assert_eq!(split_name_and_version(Some("name@ ")), Err(ParseError));
    assert_eq!(split_name_and_version(Some("name@\t\r")), Err(ParseError));
    assert_eq!(split_name_and_version(Some("@1.0.0")), Err(ParseError));
    assert_eq!(split_name_and_version(Some(" @1.0.0")), Err(ParseError));
    assert_eq!(split_name_and_version(Some("@@1.0.0")), Err(ParseError));
    assert_eq!(split_name_and_version(Some("@ @1.0.0")), Err(ParseError));
    assert_eq!(
        split_name_and_version(Some("name@\u{3000}\u{a0}")),
        Err(ParseError)
    );
}

#[test]
fn parses_a_line() {
    assert_eq!(
        parse_line("location:myPackage@1.23.0:myPackage@1.7.3:myPackage@2.0.1:my_dir"),
        Ok(record(
            "myPackage",
            "1.7.3",
            "1.23.0",
            "2.0.1",
            "my_dir",
            "location"
        ))
    );
}

#[test]
fn parses_a_line_with_a_scoped_name() {
    assert_eq!(
        parse_line(
            "/p/node_modules/@jonshort/cenv:@jonshort/cenv@125.24567.2:@jonshort/cenv@125.24222.1:@jonshort/cenv@5412.0.0:a"
        ),
        Ok(record(
            "@jonshort/cenv",
            "125.24222.1",
            "125.24567.2",
            "5412.0.0",
            "a",
            "/p/node_modules/@jonshort/cenv"
        ))
    );
}

#[test]
fn parses_a_line_with_a_missing_current_version() {
    assert_eq!(
        parse_line("location:@jonshort/cenv@1.0.3:MISSING:@jonshort/cenv@1.0.3:somedir"),
        Ok(record(
            "@jonshort/cenv",
            "MISSING",
            "1.0.3",
            "1.0.3",
            "somedir",
            "location"
        ))
    );
}

#[test]
fn parses_a_line_whose_wanted_segment_is_missing() {
    assert_eq!(
        parse_line("location:MISSING:a@1.0.0:a@2.0.0:dir"),
        Ok(record("", "1.0.0", "MISSING", "2.0.0", "dir", "location"))
    );
}

#[test]
fn parses_a_line_without_a_directory() {
    assert_eq!(
        parse_line("location:a@1.1.0:a@1.0.0:a@2.0.0"),
        Ok(record("a", "1.0.0", "1.1.0", "2.0.0", "", "location"))
    );
    assert_eq!(
        parse_line("location:a@1.1.0:a@1.0.0:a@2.0.0:"),
        Ok(record("a", "1.0.0", "1.1.0", "2.0.0", "", "location"))
    );
    assert_eq!(
        parse_line("location:a@1.1.0:a@1.0.0:a@2.0.0: \r"),
        Ok(record("a", "1.0.0", "1.1.0", "2.0.0", "", "location"))
    );
}

#[test]
fn parses_a_directory_with_colons() {
    assert_eq!(
        parse_line("location:a@1.1.0:a@1.0.0:a@2.0.0:my-dir_with:special chars"),
        Ok(record(
            "a",
            "1.0.0",
            "1.1.0",
            "2.0.0",
            "my-dir_with:special chars",
            "location"
        ))
    );
    assert_eq!(
        parse_line("location:a@1.1.0:a@1.0.0:a@2.0.0:::"),
        Ok(record("a", "1.0.0", "1.1.0", "2.0.0", "::", "location"))
    );
}

#[test]
fn trims_the_directory() {
    assert_eq!(
        parse_line("location:a@1.1.0:a@1.0.0:a@2.0.0:test_files\r"),
        Ok(record(
            "a",
            "1.0.0",
            "1.1.0",
            "2.0.0",
            "test_files",
            "location"
        ))
    );
    assert_eq!(
        parse_line("location:a@1.1.0:a@1.0.0:a@2.0.0: \t my dir \u{a0}\r\n"),
        Ok(record("a", "1.0.0", "1.1.0", "2.0.0", "my dir", "location"))
    );
}

#[test]
fn parses_a_location_with_a_drive_letter() {
    assert_eq!(
        parse_line(
            "D:\\git\\npm:@jonshort/cenv@1.0.3:@jonshort/cenv@1.0.2:@jonshort/cenv@1.0.3:test_files\r"
        ),
        Ok(record(
            "@jonshort/cenv",
            "1.0.2",
            "1.0.3",
            "1.0.3",
            "test_files",
            "D:\\git\\npm"
        ))
    );
}

#[test]
fn a_drive_letter_takes_one_segment_more() {
    // without the drive prefix four segments are a record
    assert!(parse_line("D:a@1:a@2:a@3").is_ok());
    // with it the same number is one too few
    assert_eq!(parse_line("D:\\x:a@1:a@2"), Err(ParseError));
    assert_eq!(parse_line("D:\\x"), Err(ParseError));
    assert_eq!(
        parse_line("D:\\x:a@1:a@2:a@3"),
        Ok(record("a", "2", "1", "3", "", "D:\\x"))
    );
}

#[test]
fn a_backslash_elsewhere_is_no_drive_prefix() {
    assert_eq!(
        parse_line("C\\x:a@1:a@2:a@3:d"),
        Ok(record("a", "2", "1", "3", "d", "C\\x"))
    );
}

#[test]
fn parses_an_empty_location() {
    assert_eq!(
        parse_line(":a@1:a@2:a@3:d"),
        Ok(record("a", "2", "1", "3", "d", ""))
    );
}

#[test]
fn takes_the_name_of_the_wanted_segment() {
    assert_eq!(
        parse_line("l:first@1:second@2:third@3:d"),
        Ok(record("first", "2", "1", "3", "d", "l"))
    );
}

#[test]
fn fails_on_an_empty_line() {
    assert_eq!(parse_line(""), Err(ParseError));
}

#[test]
fn fails_on_an_empty_version() {
    assert_eq!(
        parse_line("location:name@2.0.0:name@1.0.0:name@"),
        Err(ParseError)
    );
}

#[test]
fn fails_on_too_few_segments() {
    assert_eq!(parse_line("location:name"), Err(ParseError));
    assert_eq!(parse_line("location"), Err(ParseError));
    assert_eq!(parse_line("location:"), Err(ParseError));
    assert_eq!(parse_line("location:a@1"), Err(ParseError));
    assert_eq!(parse_line("location:a@1:a@2"), Err(ParseError));
    assert_eq!(parse_line("location:a@1:a@2:"), Err(ParseError));
}

#[test]
fn fails_on_a_segment_that_cannot_be_read() {
    assert_eq!(parse_line("l:a:a@2:a@3:d"), Err(ParseError));
    assert_eq!(parse_line("l:a@1:a:a@3:d"), Err(ParseError));
    assert_eq!(parse_line("l:a@1:a@2:a:d"), Err(ParseError));
    assert_eq!(parse_line("l:@1:a@2:a@3:d"), Err(ParseError));
    assert_eq!(parse_line("l:a@1::a@3:d"), Err(ParseError));
}

#[test]
fn reads_back_what_was_written() {
    for name in ["a", "@s/a", "my package", "\u{e9}t\u{e9}"] {
        for dir in ["", "d", "a:b", "x y"] {
            let line = format!("some/where:{name}@W1:{name}@C1:{name}@L1:{dir}");
            assert_eq!(
                parse_line(&line),
                Ok(record(name, "C1", "W1", "L1", dir, "some/where"))
            );
        }
    }
}

#[test]
fn scenario_wanted_policy() {
    let line = "location:myPackage@1.23.0:myPackage@1.7.3:myPackage@2.0.1:my_dir";
    let pkg = Package::from_line(line, &config(false, Some("my_dir"))).unwrap();
    let expected = Package {
        current_version: String::from("1.7.3"),
        install_cmd: String::from("myPackage@1.23.0"),
        install_dir_name: String::from("my_dir"),
        latest_version: String::from("2.0.1"),
        name: String::from("myPackage"),
        skip: false,
        upgrade_type: UpgradeType::Safe,
        wanted_version: String::from("1.23.0"),
    };
    assert_eq!(pkg, expected);
}

#[test]
fn scenario_latest_policy() {
    let line = "location:myPackage@1.23.0:myPackage@1.7.3:myPackage@2.0.1:my_dir";
    let pkg = Package::from_line(line, &config(true, Some("my_dir"))).unwrap();
    let expected = Package {
        current_version: String::from("1.7.3"),
        install_cmd: String::from("myPackage@2.0.1"),
        install_dir_name: String::from("my_dir"),
        latest_version: String::from("2.0.1"),
        name: String::from("myPackage"),
        skip: false,
        upgrade_type: UpgradeType::Major,
        wanted_version: String::from("1.23.0"),
    };
    assert_eq!(pkg, expected);
}

#[test]
fn scenario_missing_current_version() {
    let line = "location:@jonshort/cenv@1.0.3:MISSING:@jonshort/cenv@1.0.3:somedir";
    let here = Package::from_line(line, &config(true, Some("somedir"))).unwrap();
    assert_eq!(here.current_version, "MISSING");
    assert_eq!(here.install_cmd, "@jonshort/cenv@1.0.3");
    assert_eq!(here.name, "@jonshort/cenv");
    assert_eq!(here.upgrade_type, UpgradeType::Safe);
    assert!(!here.skip);
    let elsewhere = Package::from_line(line, &config(true, Some("other"))).unwrap();
    assert!(elsewhere.skip);
    let unknown = Package::from_line(line, &config(true, None)).unwrap();
    assert!(unknown.skip);
}

#[test]
fn scenario_malformed_lines() {
    let config = config(false, Some("my_dir"));
    assert_eq!(Package::from_line("", &config), Err(ParseError));
    assert_eq!(
        Package::from_line("location:name@2.0.0:name@1.0.0:name@", &config),
        Err(ParseError)
    );
    assert_eq!(Package::from_line("location:name", &config), Err(ParseError));
}

#[test]
fn from_line_agrees_with_new() {
    let line = "D:\\git\\npm:@jonshort/cenv@1.0.3:@jonshort/cenv@1.0.2:@jonshort/cenv@2.0.0:test_files\r";
    for latest in [false, true] {
        for dir in [Some("test_files"), Some("npm-bumpall"), None] {
            let config = config(latest, dir);
            let (name, value) = parse_line(line).unwrap();
            assert_eq!(
                Package::from_line(line, &config),
                Package::new(name, &value, &config)
            );
        }
    }
}

#[test]
fn parse_error_message() {
    assert_eq!(ParseError.message(), "Unable to parse input");
}
