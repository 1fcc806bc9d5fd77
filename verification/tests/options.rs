use jj_spr::command::{Argument, CommandOutput};
use jj_spr::error::SprError;
use jj_spr::options::{
    needs_username, needs_workspace, not_initialized, parse_repository, repository_command, spr, Cli, Commands,
    Config, Lookups, OptionsError, Plan,
};

fn cli(command: Commands) -> Cli {
    Cli {
        github_auth_token: None,
        github_repository: None,
        branch_prefix: None,
        command,
    }
}

fn lookups() -> Lookups {
    Lookups {
        jj_repository: None,
        git_repository: Ok("git-owner/git.repo".to_string()),
        remote_name: None,
        master_branch: None,
        branch_prefix: Some("spr/test/".to_string()),
        github_username: None,
        require_approval: None,
        auth_token: Some("SECRET".to_string()),
    }
}

fn printed(success: bool, stdout: &[u8]) -> CommandOutput {
    CommandOutput {
        success,
        code: Some(0),
        stdout: stdout.to_vec(),
        stderr: Vec::new(),
    }
}

fn format_config(cli: Cli, lookups: Lookups) -> Config {
    match spr(cli, lookups, "0.1.0").unwrap() {
        Plan::Format { config } => config,
        other => panic!("unexpected plan {:?}", other),
    }
}

fn message_of(cli: Cli, lookups: Lookups) -> Vec<String> {
    spr(cli, lookups, "0.1.0").unwrap_err().messages
}

#[test]
fn repositories_as_the_expression_reads_them() {
    let expression = lazy_regex::Regex::new(r"^([\w\-\.]+)/([\w\-\.]+)$").unwrap();
    for text in [
        "owner/repo",
        "o/r",
        "LucioFranco/jj-spr",
        "a.b-c_d/e.f-g_1",
        "größe/名前",
        "",
        "/",
        "owner",
        "owner/",
        "/repo",
        "a/b/c",
        "a b/c",
        "owner/repo\n",
        " owner/repo",
        "owner/re:po",
        "€/x",
    ] {
        match expression.captures(text) {
            Some(groups) => assert_eq!(
                parse_repository(text).unwrap(),
                (groups[1].to_string(), groups[2].to_string())
            ),
            None => match parse_repository(text) {
                Err(OptionsError::InvalidRepository(given)) => assert_eq!(given, text),
                Ok(parts) => panic!("{:?} was read as {:?}", text, parts),
            },
        }
    }
    assert_eq!(
        parse_repository("owner/repo").unwrap(),
        ("owner".to_string(), "repo".to_string())
    );
}

#[test]
fn word_characters_of_ascii() {
    for c in '\0'..='\x7f' {
        let good = c.is_ascii_alphanumeric() || c == '_' || c == '-' || c == '.';
        assert_eq!(parse_repository(&format!("a{}/b", c)).is_ok(), good, "{:?}", c);
    }
}

#[test]
fn repository_that_is_none() {
    let mut options = cli(Commands::List);
    options.github_repository = Some("nonsense".to_string());
    let message =
        "GitHub repository must be given as 'OWNER/REPO', but given value was 'nonsense'";
    assert_eq!(message_of(options, lookups()), vec![message.to_string()]);
    assert_eq!(
        OptionsError::InvalidRepository("nonsense".to_string()).message(),
        message
    );
}

#[test]
fn where_the_repository_comes_from() {
    let config = format_config(cli(Commands::Format), lookups());
    assert_eq!((config.owner.as_str(), config.repo.as_str()), ("git-owner", "git.repo"));

    let mut found = lookups();
    found.jj_repository = Some(printed(true, b" jj-owner/jj-repo\n"));
    let config = format_config(cli(Commands::Format), found);
    assert_eq!((config.owner.as_str(), config.repo.as_str()), ("jj-owner", "jj-repo"));

    let mut found = lookups();
    found.jj_repository = Some(printed(false, b"jj-owner/jj-repo\n"));
    let config = format_config(cli(Commands::Format), found);
    assert_eq!(config.owner, "git-owner");

    let mut found = lookups();
    found.jj_repository = Some(printed(true, b"jj-owner/jj-repo\n"));
    let mut options = cli(Commands::Format);
    options.github_repository = Some("owner/repo".to_string());
    assert_eq!(format_config(options, found).owner, "owner");

    let mut found = lookups();
    found.jj_repository = Some(printed(true, b"\xff"));
    assert_eq!(
        message_of(cli(Commands::Format), found),
        vec![String::from_utf8(vec![0xff]).unwrap_err().to_string()]
    );

    let mut found = lookups();
    found.git_repository = Err("not configured".to_string());
    assert_eq!(
        message_of(cli(Commands::Format), found),
        vec!["not configured".to_string()]
    );
}

#[test]
fn what_stands_for_missing_values() {
    let config = format_config(cli(Commands::Format), lookups());
    assert_eq!(config.remote_name, "origin");
    assert_eq!(config.master_branch, "main");
    assert_eq!(config.branch_prefix, "spr/test/");
    assert!(!config.require_approval);

    let mut found = lookups();
    found.remote_name = Some("upstream".to_string());
    found.master_branch = Some("trunk".to_string());
    found.require_approval = Some(true);
    let config = format_config(cli(Commands::Format), found);
    assert_eq!(config.remote_name, "upstream");
    assert_eq!(config.master_branch, "trunk");
    assert!(config.require_approval);
}

#[test]
fn prefixes_of_branches() {
    let mut options = cli(Commands::Format);
    options.branch_prefix = Some("mine/".to_string());
    assert_eq!(format_config(options, lookups()).branch_prefix, "mine/");

    let mut found = lookups();
    found.branch_prefix = None;
    found.github_username = Some("someone".to_string());
    assert_eq!(
        format_config(cli(Commands::Format), found).branch_prefix,
        "spr/someone/"
    );

    let mut found = lookups();
    found.branch_prefix = None;
    assert_eq!(
        message_of(cli(Commands::Format), found),
        vec!["spr.branchPrefix must be configured".to_string()]
    );
}

#[test]
fn init_goes_ahead_without_configuration() {
    let mut found = lookups();
    found.git_repository = Err("not configured".to_string());
    found.branch_prefix = None;
    found.auth_token = None;
    assert!(matches!(
        spr(cli(Commands::Init), found, "0.1.0"),
        Ok(Plan::Init)
    ));
}

#[test]
fn asking_for_the_repository() {
    let texts: Vec<String> = repository_command()
        .arguments
        .into_iter()
        .map(|argument| match argument {
            Argument::Text(text) => text,
            Argument::GitDir => panic!("there is no repository yet"),
        })
        .collect();
    assert_eq!(texts, vec!["config", "get", "spr.githubRepository"]);
    let error = not_initialized(SprError::new("no workspace".to_string()));
    assert_eq!(
        error.messages,
        vec![
            "no workspace".to_string(),
            "could not initialize Jujutsu backend".to_string()
        ]
    );
}

#[test]
fn tokens() {
    let mut found = lookups();
    found.auth_token = None;
    assert!(spr(cli(Commands::Format), found, "0.1.0").is_ok());

    let mut found = lookups();
    found.auth_token = None;
    assert_eq!(
        message_of(cli(Commands::Diff), found),
        vec!["GitHub auth token must be configured".to_string()]
    );

    let mut options = cli(Commands::Amend);
    options.github_auth_token = Some("given".to_string());
    match spr(options, lookups(), "0.1.0").unwrap() {
        Plan::Online {
            auth_token,
            headers,
            config,
        } => {
            assert_eq!(auth_token, "given");
            assert_eq!(config.owner, "git-owner");
            let expected = [
                ("accept", "application/json"),
                ("user-agent", "spr/0.1.0"),
                ("authorization", "Bearer given"),
            ];
            assert_eq!(headers.len(), expected.len());
            for (header, (name, value)) in headers.iter().zip(expected) {
                assert_eq!(header.0, name);
                assert_eq!(header.1, value);
            }
        }
        other => panic!("unexpected plan {:?}", other),
    }
}

#[test]
fn asking_for_the_name_of_the_user() {
    let without_prefix = || {
        let mut found = lookups();
        found.branch_prefix = None;
        found
    };
    let asked = |options: &Cli, found: &Lookups| needs_username(options, found).cloned();
    let options = cli(Commands::Diff);
    assert_eq!(asked(&options, &lookups()), None);
    assert_eq!(asked(&options, &without_prefix()).as_deref(), Some("SECRET"));

    let mut given = cli(Commands::Diff);
    given.github_auth_token = Some("given".to_string());
    assert_eq!(asked(&given, &without_prefix()).as_deref(), Some("given"));
    given.branch_prefix = Some("mine/".to_string());
    assert_eq!(asked(&given, &without_prefix()), None);

    let mut found = without_prefix();
    found.auth_token = None;
    assert_eq!(asked(&options, &found), None);
    found.auth_token = Some("line\nfeed".to_string());
    assert_eq!(asked(&options, &found), None);

    let mut found = without_prefix();
    found.git_repository = Ok("no repository".to_string());
    assert_eq!(asked(&options, &found), None);
    found.git_repository = Err("not configured".to_string());
    assert_eq!(asked(&options, &found), None);
    found.jj_repository = Some(printed(true, b"jj-owner/jj-repo\n"));
    assert_eq!(asked(&options, &found).as_deref(), Some("SECRET"));
}

#[test]
fn name_of_the_user_without_a_repository() {
    for username in [None, Some("someone".to_string())] {
        let mut found = lookups();
        found.branch_prefix = None;
        found.github_username = username;
        found.git_repository = Err("not configured".to_string());
        assert_eq!(
            message_of(cli(Commands::Diff), found),
            vec!["not configured".to_string()]
        );
    }
}

#[test]
fn tokens_that_no_header_can_carry() {
    for token in ["", "plain", "with\ttab", "größe", "\u{80}", " ~"] {
        let mut options = cli(Commands::Diff);
        options.github_auth_token = Some(token.to_string());
        assert!(matches!(
            spr(options, lookups(), "0.1.0"),
            Ok(Plan::Online { .. })
        ));
    }
    for token in ["a\n", "\r", "\0", "\u{1f}", "\u{7f}"] {
        let mut options = cli(Commands::Diff);
        options.github_auth_token = Some(token.to_string());
        assert_eq!(
            message_of(options, lookups()),
            vec!["failed to parse header value".to_string()]
        );
        let mut options = cli(Commands::Format);
        options.github_auth_token = Some(token.to_string());
        assert!(spr(options, lookups(), "0.1.0").is_ok());
    }
    let complaint = spr(cli(Commands::Diff), lookups(), "0.1\n").unwrap_err();
    assert_eq!(
        complaint.messages,
        vec![reqwest::header::HeaderValue::from_str("0.1\n")
            .unwrap_err()
            .to_string()]
    );
}

#[test]
fn only_init_needs_no_workspace() {
    assert!(!needs_workspace(&cli(Commands::Init)));
    assert!(needs_workspace(&cli(Commands::Format)));
    assert!(needs_workspace(&cli(Commands::List)));
}
