use native_versioning::{crate_version, identifier_suffix, version, Answer, Error, Probe};

fn absent() -> Probe {
    Probe::new().advance(&Answer::Absent)
}

fn with_head(head: &str) -> Probe {
    Probe::new()
        .advance(&Answer::Present)
        .advance(&Answer::Contents(head.to_string()))
}

#[test]
fn release_tag_has_three_numbers() {
    assert_eq!(crate_version("1", "2", "3", ""), Ok("v1_2_3".to_string()));
    assert_eq!(crate_version("0", "0", "0", ""), Ok("v0_0_0".to_string()));
    assert_eq!(crate_version("1", "23", "2", ""), Ok("v1_23_2".to_string()));
}

#[test]
fn pre_release_label_is_appended_when_not_empty() {
    assert_eq!(
        crate_version("1", "23", "2", "beta"),
        Ok("v1_23_2_beta".to_string())
    );
    assert_eq!(
        crate_version("1", "0", "0", "rc_1"),
        Ok("v1_0_0_rc_1".to_string())
    );
}

#[test]
fn empty_pre_release_label_leaves_no_separator() {
    let tag = crate_version("4", "5", "6", "").unwrap();
    assert_eq!(tag, "v4_5_6");
    assert!(!tag.ends_with('_'));
}

#[test]
fn leading_zeros_do_not_reach_the_tag() {
    assert_eq!(crate_version("007", "00", "010", ""), Ok("v7_0_10".to_string()));
    assert_eq!(crate_version("0", "000", "0001", ""), Ok("v0_0_1".to_string()));
}

#[test]
fn numbers_of_any_size_are_taken() {
    assert_eq!(
        crate_version("340282366920938463463374607431768211456", "18446744073709551616", "0", ""),
        Ok("v340282366920938463463374607431768211456_18446744073709551616_0".to_string())
    );
}

#[test]
fn malformed_major_is_rejected() {
    for bad in ["", "a", "-1", "+1", "1.0", " 1", "1 ", "1a", "٣"] {
        assert_eq!(
            crate_version(bad, "2", "3", ""),
            Err(Error::MalformedVersionField),
            "major {:?}",
            bad
        );
    }
}

#[test]
fn malformed_minor_or_patch_is_rejected() {
    assert_eq!(crate_version("1", "x", "3", ""), Err(Error::MalformedVersionField));
    assert_eq!(crate_version("1", "2", "", ""), Err(Error::MalformedVersionField));
    assert_eq!(crate_version("1", "2", "3-4", "pre"), Err(Error::MalformedVersionField));
}

#[test]
fn version_without_repository_has_no_marker() {
    assert_eq!(version("1", "2", "3", "", &absent()), Ok("v1_2_3".to_string()));
    assert_eq!(
        version("1", "2", "3", "alpha", &absent()),
        Ok("v1_2_3_alpha".to_string())
    );
    assert_eq!(version("10", "0", "7", "", &absent()), Ok("v10_0_7".to_string()));
}

#[test]
fn version_with_direct_head_uses_first_eight_characters() {
    let head = "0123456789abcdef0123456789abcdef01234567";
    assert_eq!(head.len(), 40);
    assert_eq!(
        version("1", "2", "3", "", &with_head(head)),
        Ok("v1_2_3_01234567".to_string())
    );
    assert_eq!(
        version("1", "2", "3", "beta", &with_head(head)),
        Ok("v1_2_3_beta_01234567".to_string())
    );
}

#[test]
fn version_follows_a_symbolic_head_once() {
    let probe = with_head("ref: refs/heads/master\n");
    assert_eq!(
        probe,
        Probe::Reference {
            path: "refs/heads/master".to_string()
        }
    );
    let probe = probe.advance(&Answer::Contents(
        "89abcdef0123456789abcdef0123456789abcdef\n".to_string(),
    ));
    assert_eq!(version("2", "0", "1", "", &probe), Ok("v2_0_1_89abcdef".to_string()));
}

#[test]
fn version_fails_on_short_reference() {
    let probe = with_head("0123456");
    assert_eq!(probe, Probe::Failed);
    assert_eq!(
        version("1", "2", "3", "", &probe),
        Err(Error::InvalidRepositoryState)
    );
    let probe = with_head("ref: refs/heads/main\n").advance(&Answer::Contents("abc\n".to_string()));
    assert_eq!(
        version("1", "2", "3", "", &probe),
        Err(Error::InvalidRepositoryState)
    );
}

#[test]
fn version_fails_on_unfinished_probe() {
    assert_eq!(
        version("1", "2", "3", "", &Probe::new()),
        Err(Error::InvalidRepositoryState)
    );
    assert_eq!(
        version("1", "2", "3", "", &Probe::new().advance(&Answer::Present)),
        Err(Error::InvalidRepositoryState)
    );
    assert_eq!(
        version("1", "2", "3", "", &with_head("ref: refs/heads/main\n")),
        Err(Error::InvalidRepositoryState)
    );
}

#[test]
fn malformed_field_comes_before_repository_state() {
    assert_eq!(
        version("one", "2", "3", "", &Probe::Failed),
        Err(Error::MalformedVersionField)
    );
    assert_eq!(
        version("1", "2", "", "", &with_head("short")),
        Err(Error::MalformedVersionField)
    );
}

#[test]
fn identifier_suffix_takes_letters_digits_and_underscores() {
    assert!(identifier_suffix(""));
    assert!(identifier_suffix("v1_2_3_beta_01234567"));
    assert!(identifier_suffix("AZaz09_"));
    assert!(!identifier_suffix("v1.2.3"));
    assert!(!identifier_suffix("beta-1"));
    assert!(!identifier_suffix("a b"));
    assert!(!identifier_suffix("ref: ref"));
    assert!(!identifier_suffix("é"));
}

#[test]
fn resolved_tag_is_an_identifier_suffix() {
    let head = "fedcba9876543210fedcba9876543210fedcba98";
    let tag = version("3", "14", "15", "rc2", &with_head(head)).unwrap();
    assert_eq!(tag, "v3_14_15_rc2_fedcba98");
    assert!(identifier_suffix(&tag));
}
