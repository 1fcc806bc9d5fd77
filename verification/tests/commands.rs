use jj_spr::command::{Argument, CommandOutput};
use jj_spr::commands::amend::{
    amend, outcome, select, AmendNext, AmendStart, AmendStep, RevisionRange, Selection,
};
use jj_spr::commands::squash::{squash, FoundSource, PendingParent, ReadySquash, SquashOptions};
use jj_spr::jj::{prepare_commit, Found, Jujutsu, PreparedCommit};
use jj_spr::message::MessageSectionsMap;
use jj_spr::oid::Oid;
use jj_spr::rewrite::RewriteStep;

fn sections(title: Option<&str>) -> MessageSectionsMap {
    MessageSectionsMap {
        title: title.map(|title| title.to_string()),
        pull_request: None,
        others: vec![("Summary".to_string(), "Text".to_string())],
    }
}

fn printed(text: &str) -> CommandOutput {
    CommandOutput {
        success: true,
        code: Some(0),
        stdout: text.as_bytes().to_vec(),
        stderr: Vec::new(),
    }
}

fn workspace() -> Jujutsu {
    Jujutsu {
        repo_path: "/work/repo".to_string(),
    }
}

fn ready(found: FoundSource) -> ReadySquash {
    match found {
        FoundSource::Ready(ready) => ready,
        FoundSource::AskParent(_) => panic!("the target is known"),
    }
}

fn asks_parent(found: FoundSource) -> PendingParent {
    match found {
        FoundSource::AskParent(pending) => pending,
        FoundSource::Ready(_) => panic!("the target is not known"),
    }
}

fn commit(id: &str, number: Option<u64>) -> PreparedCommit {
    let mut message = sections(Some("Local"));
    message.pull_request = number.map(|number| format!("https://github.com/o/r/pull/{}", number));
    prepare_commit(
        Oid::from_str(id).unwrap(),
        Found {
            first_parent: None,
            message,
            number_in_field: number,
        },
    )
}

#[test]
fn nothing_to_amend() {
    match amend(Vec::new()) {
        AmendStart::Nothing { icon, text } => {
            assert_eq!(icon, "👋");
            assert_eq!(text, "No commits found - nothing to do. Good bye!");
        }
        AmendStart::Commits(_) => panic!("there are no commits"),
    }
}

/// Amends three commits, of which the second has no pull request.
fn amend_three(invalid: [bool; 3]) -> (Vec<PreparedCommit>, bool) {
    let mut run = match amend(vec![
        commit("a1", Some(1)),
        commit("a2", None),
        commit("a3", Some(3)),
    ]) {
        AmendStart::Commits(run) => run,
        AmendStart::Nothing { .. } => panic!("there are commits"),
    };
    assert_eq!(run.pull_requests(), vec![Some(1), None, Some(3)]);
    let mut seen = 0;
    loop {
        match run.advance() {
            AmendStep::Commit(pending) => {
                let number = pending.commit().pull_request_number;
                let fetched = match pending.shown() {
                    AmendNext::Fetch(pending) => {
                        assert_eq!(number, Some(pending.pull_request()));
                        pending.fetched(sections(Some("Remote")))
                    }
                    AmendNext::Validate(fetched) => {
                        assert_eq!(number, None);
                        fetched
                    }
                };
                assert_eq!(fetched.commit().message_changed, seen != 1);
                run = fetched.validated(invalid[seen]);
                seen += 1;
            }
            AmendStep::Finished(amended) => {
                assert_eq!(seen, 3);
                return (amended.commits, amended.failure);
            }
        }
    }
}

#[test]
fn messages_of_pull_requests() {
    let (commits, failure) = amend_three([false, false, false]);
    assert!(!failure);
    assert!(outcome(failure).is_ok());
    let titles: Vec<_> = commits
        .iter()
        .map(|commit| commit.message.title.as_deref().unwrap())
        .collect();
    assert_eq!(titles, vec!["Remote", "Local", "Remote"]);
    let changed: Vec<bool> = commits.iter().map(|commit| commit.message_changed).collect();
    assert_eq!(changed, vec![true, false, true]);
    assert_eq!(commits[2].pull_request_number, Some(3));
}

#[test]
fn amended_messages_are_rewritten() {
    let (commits, _) = amend_three([false, false, false]);
    let jj = workspace();
    let mut rewrite = jj.rewrite_commit_messages(commits);
    let mut described = Vec::new();
    let commits = loop {
        match rewrite.advance() {
            RewriteStep::Describe(pending) => {
                described.push(pending.commit().pull_request_number);
                let pending = pending.change_found(&jj, printed("qpvuntsm")).ok().unwrap();
                rewrite = pending.described(printed("")).ok().unwrap();
            }
            RewriteStep::Finished(commits) => break commits,
        }
    };
    assert_eq!(described, vec![Some(1), Some(3)]);
    assert_eq!(commits[0].message.title.as_deref(), Some("Remote"));
    assert_eq!(commits[1].message.title.as_deref(), Some("Local"));
    assert!(commits.iter().all(|commit| !commit.message_changed));
}

#[test]
fn one_invalid_message_is_a_failure() {
    for invalid in [[true, false, false], [false, true, false], [false, false, true]] {
        let (commits, failure) = amend_three(invalid);
        assert_eq!(commits.len(), 3);
        assert!(failure);
        assert!(outcome(failure).unwrap_err().messages.is_empty());
    }
}

#[test]
fn commits_to_amend() {
    let range = |use_range_mode: bool| RevisionRange {
        use_range_mode,
        base_rev: "main".to_string(),
        target_rev: "@-".to_string(),
        is_inclusive: true,
    };
    match select(range(true)) {
        Selection::Range {
            from_revision,
            to_revision,
            is_inclusive,
        } => {
            assert_eq!(from_revision, "main");
            assert_eq!(to_revision, "@-");
            assert!(is_inclusive);
        }
        other => panic!("unexpected selection {:?}", other),
    }
    match select(range(false)) {
        Selection::Single { revision } => assert_eq!(revision, "@-"),
        other => panic!("unexpected selection {:?}", other),
    }
}

#[test]
fn squash_without_options() {
    let start = squash(SquashOptions {
        revision: None,
        into: None,
        no_clipboard: false,
    });
    assert_eq!(start.source(), "@");
    let mut source = commit("a1", None);
    source.message = sections(None);
    let (found, notice) = start.found(&source, "Description".to_string());
    let ready = ready(found);
    assert_eq!(notice.icon, "⏸️ ");
    assert_eq!(notice.text, "Squashing: (no title)");
    assert_eq!(ready.source(), "@");
    assert!(ready.given_target().is_none());
    let done = ready.squashed();
    assert_eq!(done.target(), "@-");
    let target = Oid::from_str("0123456789abcdef0123456789abcdef01234567").unwrap();
    let options = done.resolved(target);
    assert_eq!(options.message.as_deref(), Some("Description"));
    assert_eq!(
        options.revision.as_deref(),
        Some("0123456789abcdef0123456789abcdef01234567")
    );
    assert!(!options.no_clipboard);
    assert!(options.base.is_none());
    assert!(!options.all && !options.update_message && !options.draft);
    assert!(!options.cherry_pick && !options.dry_run);
}

#[test]
fn squash_with_options() {
    let start = squash(SquashOptions {
        revision: Some("x".to_string()),
        into: Some("y".to_string()),
        no_clipboard: true,
    });
    assert_eq!(start.source(), "x");
    let (found, notice) = start.found(&commit("a1", None), "Description".to_string());
    let ready = ready(found);
    assert_eq!(notice.text, "Squashing: Local");
    assert_eq!(ready.source(), "x");
    assert_eq!(ready.given_target().map(|into| into.as_str()), Some("y"));
    let done = ready.squashed();
    assert_eq!(done.target(), "y");
    assert!(done.resolved(Oid::from_str("b").unwrap()).no_clipboard);
}

#[test]
fn squash_into_the_parent_of_the_source() {
    let jj = workspace();
    let options = || SquashOptions {
        revision: Some("@--".to_string()),
        into: None,
        no_clipboard: false,
    };
    let mut source = commit("a1", None);
    source.parent_oid = Oid::from_str("0123456789abcdef0123456789abcdef01234567").unwrap();
    let (found, notice) = squash(options()).found(&source, "Description".to_string());
    assert_eq!(notice.text, "Squashing: Local");
    let pending = asks_parent(found);
    let command = pending.parent_command(&jj);
    assert_eq!(command.directory.as_deref(), Some("/work/repo"));
    assert_eq!(command.arguments.len(), 6);
    match &command.arguments[3] {
        Argument::Text(revision) => {
            assert_eq!(revision, "0123456789abcdef0123456789abcdef01234567");
        }
        Argument::GitDir => panic!("the revision is text"),
    }
    let ready = pending.parent_found(&jj, printed("qpvuntsm\n")).ok().unwrap();
    assert_eq!(ready.source(), "@--");
    assert!(ready.given_target().is_none());
    let done = ready.squashed();
    assert_eq!(done.target(), "qpvuntsm");
    let options_of_diff = done.resolved(Oid::from_str("b").unwrap());
    assert_eq!(options_of_diff.message.as_deref(), Some("Description"));

    let (found, _) = squash(options()).found(&source, "Description".to_string());
    let mut output = printed("");
    output.success = false;
    output.code = Some(1);
    let error = asks_parent(found).parent_found(&jj, output).err().unwrap();
    assert_eq!(
        error.messages,
        vec!["jujutsu exited with code 1, stderr:\n".to_string()]
    );
}

#[test]
fn squash_of_the_working_copy_into_another_revision() {
    let start = squash(SquashOptions {
        revision: None,
        into: Some("y".to_string()),
        no_clipboard: false,
    });
    assert_eq!(start.source(), "@");
    let (found, _) = start.found(&commit("a1", None), "Description".to_string());
    assert_eq!(ready(found).squashed().target(), "y");
}

#[test]
fn squash_of_the_working_copy_by_name() {
    let start = squash(SquashOptions {
        revision: Some("@".to_string()),
        into: None,
        no_clipboard: false,
    });
    assert_eq!(start.source(), "@");
    let (found, _) = start.found(&commit("a1", None), "Description".to_string());
    let ready = ready(found);
    assert_eq!(ready.source(), "@");
    assert!(ready.given_target().is_none());
    assert_eq!(ready.squashed().target(), "@-");
}
