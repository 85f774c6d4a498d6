use native_versioning::{git_shorthash, head_target, revision_marker, Answer, Error, Probe};

fn contents(text: &str) -> Answer {
    Answer::Contents(text.to_string())
}

#[test]
fn marker_is_first_eight_characters() {
    assert_eq!(
        revision_marker("0123456789abcdef0123456789abcdef01234567\n"),
        Ok("01234567".to_string())
    );
    assert_eq!(revision_marker("abcdefgh"), Ok("abcdefgh".to_string()));
    assert_eq!(revision_marker("abcdefghi"), Ok("abcdefgh".to_string()));
}

#[test]
fn marker_of_short_contents_fails() {
    assert_eq!(revision_marker(""), Err(Error::InvalidRepositoryState));
    assert_eq!(revision_marker("abcdefg"), Err(Error::InvalidRepositoryState));
    assert_eq!(revision_marker("1234\n"), Err(Error::InvalidRepositoryState));
}

#[test]
fn marker_counts_characters() {
    assert_eq!(revision_marker("ééééééé"), Err(Error::InvalidRepositoryState));
    assert_eq!(revision_marker("éééééééé!"), Ok("éééééééé".to_string()));
}

#[test]
fn shorthash_without_repository_is_none() {
    let probe = Probe::new().advance(&Answer::Absent);
    assert!(probe.is_finished());
    assert_eq!(git_shorthash(&probe), Ok(None));
}

#[test]
fn shorthash_of_direct_head_is_first_eight_characters() {
    let probe = Probe::new()
        .advance(&Answer::Present)
        .advance(&contents("0123456789abcdef0123456789abcdef01234567\n"));
    assert_eq!(git_shorthash(&probe), Ok(Some("01234567".to_string())));
}

#[test]
fn shorthash_of_symbolic_head_is_read_from_its_target() {
    let probe = Probe::new()
        .advance(&Answer::Present)
        .advance(&contents("ref: refs/heads/master\n"))
        .advance(&contents("fedcba9876543210fedcba9876543210fedcba98\n"));
    assert_eq!(git_shorthash(&probe), Ok(Some("fedcba98".to_string())));
}

#[test]
fn shorthash_of_short_reference_fails() {
    let probe = Probe::new()
        .advance(&Answer::Present)
        .advance(&contents("0123456"));
    assert_eq!(git_shorthash(&probe), Err(Error::InvalidRepositoryState));
    let probe = Probe::new()
        .advance(&Answer::Present)
        .advance(&contents("ref: refs/heads/master\n"))
        .advance(&contents("abc\n"));
    assert_eq!(git_shorthash(&probe), Err(Error::InvalidRepositoryState));
}

#[test]
fn shorthash_of_unfinished_or_unreadable_probe_fails() {
    assert_eq!(git_shorthash(&Probe::new()), Err(Error::InvalidRepositoryState));
    assert_eq!(
        git_shorthash(&Probe::new().advance(&Answer::Present)),
        Err(Error::InvalidRepositoryState)
    );
    assert_eq!(
        git_shorthash(&Probe::new().advance(&Answer::Present).advance(&Answer::Unreadable)),
        Err(Error::InvalidRepositoryState)
    );
}

#[test]
fn head_target_reads_symbolic_reference() {
    assert_eq!(
        head_target("ref: refs/heads/master\n"),
        Some("refs/heads/master".to_string())
    );
    assert_eq!(
        head_target("ref: refs/heads/topic/a b \t\r\n"),
        Some("refs/heads/topic/a b".to_string())
    );
    assert_eq!(
        head_target("ref: refs/heads/wide\u{3000}\u{a0}\u{2003}"),
        Some("refs/heads/wide".to_string())
    );
    assert_eq!(head_target("ref: "), Some(String::new()));
    assert_eq!(head_target("ref:  x"), Some(" x".to_string()));
}

#[test]
fn head_target_of_direct_head_is_none() {
    assert_eq!(head_target("0123456789abcdef0123456789abcdef01234567\n"), None);
    assert_eq!(head_target("ref:refs/heads/master"), None);
    assert_eq!(head_target("Ref: refs/heads/master"), None);
    assert_eq!(head_target(" ref: refs/heads/master"), None);
    assert_eq!(head_target("ref:"), None);
    assert_eq!(head_target(""), None);
}

#[test]
fn probe_without_repository_is_done_without_marker() {
    let probe = Probe::new();
    assert_eq!(probe, Probe::Detect);
    assert!(!probe.is_finished());
    let probe = probe.advance(&Answer::Absent);
    assert_eq!(probe, Probe::Done { marker: None });
    assert!(probe.is_finished());
}

#[test]
fn probe_asks_for_head_then_reads_direct_revision() {
    let probe = Probe::new().advance(&Answer::Present);
    assert_eq!(probe, Probe::Head);
    assert!(!probe.is_finished());
    let probe = probe.advance(&contents("0123456789abcdef0123456789abcdef01234567\n"));
    assert_eq!(
        probe,
        Probe::Done {
            marker: Some("01234567".to_string())
        }
    );
}

#[test]
fn probe_follows_exactly_one_level() {
    let probe = Probe::new()
        .advance(&Answer::Present)
        .advance(&contents("ref: refs/heads/main\n"));
    assert_eq!(
        probe,
        Probe::Reference {
            path: "refs/heads/main".to_string()
        }
    );
    assert!(!probe.is_finished());
    let probe = probe.advance(&contents("ref: refs/heads/other\n"));
    assert_eq!(
        probe,
        Probe::Done {
            marker: Some("ref: ref".to_string())
        }
    );
    let probe = probe.advance(&contents("0123456789abcdef"));
    assert_eq!(
        probe,
        Probe::Done {
            marker: Some("ref: ref".to_string())
        }
    );
}

#[test]
fn probe_fails_on_truncated_reference() {
    let probe = Probe::new()
        .advance(&Answer::Present)
        .advance(&contents("ref: refs/heads/main\n"))
        .advance(&contents("0123456"));
    assert_eq!(probe, Probe::Failed);
    assert!(probe.is_finished());
    let probe = Probe::new().advance(&Answer::Present).advance(&contents(""));
    assert_eq!(probe, Probe::Failed);
}

#[test]
fn probe_fails_on_unreadable_file() {
    let probe = Probe::new()
        .advance(&Answer::Present)
        .advance(&Answer::Unreadable);
    assert_eq!(probe, Probe::Failed);
    let probe = Probe::new()
        .advance(&Answer::Present)
        .advance(&contents("ref: refs/heads/main"))
        .advance(&Answer::Unreadable);
    assert_eq!(probe, Probe::Failed);
}

#[test]
fn probe_fails_on_answer_it_did_not_ask_for() {
    assert_eq!(Probe::new().advance(&contents("0123456789")), Probe::Failed);
    assert_eq!(Probe::new().advance(&Answer::Unreadable), Probe::Failed);
    assert_eq!(
        Probe::new().advance(&Answer::Present).advance(&Answer::Present),
        Probe::Failed
    );
    assert_eq!(
        Probe::new().advance(&Answer::Present).advance(&Answer::Absent),
        Probe::Failed
    );
}

#[test]
fn finished_probe_stays_as_it_is() {
    let failed = Probe::Failed.advance(&Answer::Absent);
    assert_eq!(failed, Probe::Failed);
    let done = Probe::Done { marker: None }.advance(&contents("0123456789"));
    assert_eq!(done, Probe::Done { marker: None });
}

#[test]
fn probe_is_over_after_three_answers() {
    let answers = [
        Answer::Absent,
        Answer::Present,
        contents("ref: refs/heads/main\n"),
        contents("0123456789abcdef\n"),
        contents("short"),
        Answer::Unreadable,
    ];
    for first in &answers {
        for second in &answers {
            for third in &answers {
                let probe = Probe::new().advance(first).advance(second).advance(third);
                assert!(probe.is_finished());
            }
        }
    }
}
