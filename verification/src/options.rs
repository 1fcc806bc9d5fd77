//! What a command is to work on, from the command line and the configuration.

use vstd::prelude::*;
use vstd::utf8::{decode_utf8, encode_utf8, valid_utf8};

use crate::command::{Argument, CommandLine, CommandOutput, Program};
use crate::error::SprError;
use crate::text::{decode, encoded_text_is_shown, trim, trimmed, utf8_complaint};

verus! {

/// How a GitHub repository is written: owner and name, each made of word
/// characters, hyphens and dots, with a slash between them.
pub const REPOSITORY_PATTERN: &'static str = "^([\\w\\-\\.]+)/([\\w\\-\\.]+)$";

/// Under which key the repository is configured.
pub const REPOSITORY_KEY: &'static str = "spr.githubRepository";

/// Under which key the name of the remote is configured.
pub const REMOTE_NAME_KEY: &'static str = "spr.githubRemoteName";

/// Under which key the master branch is configured.
pub const MASTER_BRANCH_KEY: &'static str = "spr.githubMasterBranch";

/// Under which key the prefix for branches is configured.
pub const BRANCH_PREFIX_KEY: &'static str = "spr.branchPrefix";

/// Under which key it is configured whether pull requests have to be approved.
pub const REQUIRE_APPROVAL_KEY: &'static str = "spr.requireApproval";

/// Options that make no sense.
#[derive(Debug)]
pub enum OptionsError {
    InvalidRepository(String),
}

/// Whether a regular expression matches a text.
pub uninterp spec fn regex_matches(pattern: Seq<char>, text: Seq<char>) -> bool;

/// Whether `\w` matches `c`. Of the ASCII characters it matches the letters, the
/// digits and the underscore.
pub open spec fn word_character(c: char) -> bool {
    if c as u32 <= 0x7f {
        'a' <= c <= 'z' || 'A' <= c <= 'Z' || '0' <= c <= '9' || c == '_'
    } else {
        regex_matches("\\w"@, seq![c])
    }
}

/// Whether `text` can be the owner or the name of a repository.
pub open spec fn is_name(text: Seq<char>) -> bool {
    &&& text.len() > 0
    &&& forall|i: int|
        0 <= i < text.len() ==> word_character(#[trigger] text[i]) || text[i] == '-' || text[i]
            == '.'
}

/// Whether `text` is the repository `name` of `owner`.
pub open spec fn is_repository_of(text: Seq<char>, owner: Seq<char>, name: Seq<char>) -> bool {
    is_name(owner) && is_name(name) && text == owner + seq!['/'] + name
}

/// Whether `text` is a repository.
pub open spec fn is_repository(text: Seq<char>) -> bool {
    exists|owner: Seq<char>, name: Seq<char>| is_repository_of(text, owner, name)
}

/// What is told of a text that is no repository.
pub open spec fn invalid_repository(text: Seq<char>) -> Seq<char> {
    "GitHub repository must be given as 'OWNER/REPO', but given value was '"@ + text + "'"@
}

/// Calls `lazy_regex::Regex::captures` for the pattern of a repository, which
/// gives its two groups where the whole text is two stretches of word
/// characters, hyphens and dots with a slash between them, and nothing for any
/// other text. Which characters outside ASCII are word characters is left to
/// the expression `\w`.
#[verifier::external_body]
fn capture(pattern: &str, text: &str) -> (groups: Option<(String, String)>)
    requires
        pattern@ == REPOSITORY_PATTERN@,
    ensures
        groups is Some == regex_matches(pattern@, text@),
        match groups {
            Some((owner, name)) => is_repository_of(text@, owner@, name@),
            None => !is_repository(text@),
        },
{
    let groups = lazy_regex::Regex::new(pattern).unwrap().captures(text)?;
    Some((groups[1].to_string(), groups[2].to_string()))
}

impl OptionsError {
    /// What is told.
    pub fn message(&self) -> (text: String)
        ensures
            match self {
                OptionsError::InvalidRepository(given) => text@ == invalid_repository(given@),
            },
    {
        match self {
            OptionsError::InvalidRepository(given) => {
                let beginning = "GitHub repository must be given as 'OWNER/REPO', but given value was '";
                beginning.to_string().concat(given.as_str()).concat("'")
            },
        }
    }
}

/// Whether `parts` are the owner and the name of the repository `text`.
pub open spec fn parses(
    text: Seq<char>,
    parts: Result<(String, String), OptionsError>,
) -> bool {
    match parts {
        Ok((owner, name)) => is_repository_of(text, owner@, name@),
        Err(OptionsError::InvalidRepository(given)) => given@ == text && !is_repository(text),
    }
}

/// The owner and the name of a repository.
pub fn parse_repository(text: &str) -> (parts: Result<(String, String), OptionsError>)
    ensures
        parses(text@, parts),
{
    match capture(REPOSITORY_PATTERN, text) {
        Some(parts) => Ok(parts),
        None => Err(OptionsError::InvalidRepository(text.to_string())),
    }
}

/// A repository has one owner and one name: reading the two back from the text
/// that they make gives no others.
pub proof fn repository_reads_one_way(
    text: Seq<char>,
    owner: Seq<char>,
    name: Seq<char>,
    other_owner: Seq<char>,
    other_name: Seq<char>,
)
    requires
        is_repository_of(text, owner, name),
        is_repository_of(text, other_owner, other_name),
    ensures
        owner == other_owner,
        name == other_name,
{
    assert(text[owner.len() as int] == '/');
    assert(text[other_owner.len() as int] == '/');
    if owner.len() < other_owner.len() {
        assert(text[owner.len() as int] == other_owner[owner.len() as int]);
    }
    if other_owner.len() < owner.len() {
        assert(text[other_owner.len() as int] == owner[other_owner.len() as int]);
    }
    assert(owner =~= text.take(owner.len() as int));
    assert(other_owner =~= text.take(owner.len() as int));
    assert(name =~= text.skip(owner.len() as int + 1));
    assert(other_name =~= text.skip(owner.len() as int + 1));
}

/// Any two names make a repository.
pub proof fn names_make_a_repository(owner: Seq<char>, name: Seq<char>)
    requires
        is_name(owner),
        is_name(name),
    ensures
        is_repository(owner + seq!['/'] + name),
        is_repository_of(owner + seq!['/'] + name, owner, name),
{
    assert(is_repository_of(owner + seq!['/'] + name, owner, name));
}

/// The commands.
#[derive(Debug, Clone, Copy, PartialEq, Eq, Structural)]
pub enum Commands {
    /// Interactive assistant for configuring spr in a local repository.
    Init,
    /// Create a new or update an existing Pull Request on GitHub.
    Diff,
    /// Reformat commit message.
    Format,
    /// Land a reviewed Pull Request.
    Land,
    /// Update local commit message with content on GitHub.
    Amend,
    /// List open Pull Requests on GitHub and their review decision.
    List,
    /// Create a new branch with the contents of an existing Pull Request.
    Patch,
    /// Close a Pull request.
    Close,
    /// Remove orphan branches from the remote.
    Cleanup,
    /// Squash a commit into another and push as a derived commit.
    Squash,
}

/// The command line.
#[derive(Debug)]
pub struct Cli {
    /// GitHub personal access token (if not given taken from the configuration).
    pub github_auth_token: Option<String>,
    /// GitHub repository (if not given taken from the configuration).
    pub github_repository: Option<String>,
    /// Prefix to be used for branches created for pull requests (if not given
    /// taken from the configuration, defaulting to the name of the user under
    /// `spr/`).
    pub branch_prefix: Option<String>,
    pub command: Commands,
}

/// What the configuration holds, and what else can be found out.
#[derive(Debug)]
pub struct Lookups {
    /// What `jj config get` gave for the repository, none where it cannot be run.
    pub jj_repository: Option<CommandOutput>,
    /// What Git has configured for the repository, or its complaint.
    pub git_repository: Result<String, String>,
    pub remote_name: Option<String>,
    pub master_branch: Option<String>,
    pub branch_prefix: Option<String>,
    pub github_username: Option<String>,
    pub require_approval: Option<bool>,
    pub auth_token: Option<String>,
}

/// What a command works on.
#[derive(Debug)]
pub struct Config {
    pub owner: String,
    pub repo: String,
    pub remote_name: String,
    pub master_branch: String,
    pub branch_prefix: String,
    pub require_approval: bool,
}

/// What is to be done.
#[derive(Debug)]
pub enum Plan {
    /// Configure the repository: there is nothing to work on yet.
    Init,
    /// Reformat commit messages, for which GitHub is not needed.
    Format { config: Config },
    /// Run another command, with GitHub.
    Online { config: Config, auth_token: String, headers: Vec<(String, String)> },
}

/// Where the repository was found.
pub enum Repository {
    /// Here it is.
    Text(Seq<char>),
    /// What `jj` printed for it is not text, or it is not configured: here is the
    /// complaint.
    Unknown(Seq<char>),
}

/// The repository: the one on the command line, else the one that `jj` has
/// configured, else the one that Git has configured.
pub open spec fn chosen_repository(
    option: Option<String>,
    jj_repository: Option<CommandOutput>,
    git_repository: Result<String, String>,
) -> Repository {
    if option is Some {
        Repository::Text(option.unwrap()@)
    } else if jj_repository is Some && jj_repository.unwrap().success {
        let stdout = jj_repository.unwrap().stdout@;
        if valid_utf8(stdout) {
            Repository::Text(trimmed(decode_utf8(stdout)))
        } else {
            Repository::Unknown(utf8_complaint(stdout))
        }
    } else {
        match git_repository {
            Ok(text) => Repository::Text(text@),
            Err(complaint) => Repository::Unknown(complaint@),
        }
    }
}

/// Whether there is a repository to work on.
pub open spec fn has_repository(cli: Cli, lookups: Lookups) -> bool {
    chosen_repository(
        cli.github_repository,
        lookups.jj_repository,
        lookups.git_repository,
    ) matches Repository::Text(text) && is_repository(text)
}

/// The prefix for branches: the one on the command line, else the one that is
/// configured, else the name of the user under `spr/`.
pub open spec fn chosen_prefix(
    option: Option<String>,
    configured: Option<String>,
    username: Option<String>,
) -> Option<Seq<char>> {
    if option is Some {
        Some(option.unwrap()@)
    } else if configured is Some {
        Some(configured.unwrap()@)
    } else if username is Some {
        Some("spr/"@ + username.unwrap()@ + "/"@)
    } else {
        None
    }
}

/// A configured text, or what stands for one that is not configured.
pub open spec fn configured_or(text: Option<String>, default: Seq<char>) -> Seq<char> {
    match text {
        Some(text) => text@,
        None => default,
    }
}

/// The token for GitHub: the one on the command line, else the one that is
/// configured.
pub open spec fn chosen_token(cli: Cli, lookups: Lookups) -> Option<String> {
    if cli.github_auth_token is Some {
        cli.github_auth_token
    } else {
        lookups.auth_token
    }
}

/// What every request to GitHub carries.
pub open spec fn request_headers(version: Seq<char>, token: Seq<char>) -> Seq<
    (Seq<char>, Seq<char>),
> {
    seq![
        ("accept"@, "application/json"@),
        ("user-agent"@, "spr/"@ + version),
        ("authorization"@, "Bearer "@ + token),
    ]
}

/// Whether a header can carry `text`: it holds no control characters but tabs.
pub open spec fn is_header_text(text: Seq<char>) -> bool {
    forall|i: int|
        0 <= i < text.len() ==> (0x20 <= #[trigger] text[i] as u32 && text[i] as u32 != 0x7f)
            || text[i] == '\t'
}

/// Whether headers can carry all the values.
pub open spec fn can_be_sent(headers: Seq<(Seq<char>, Seq<char>)>) -> bool {
    forall|i: int| 0 <= i < headers.len() ==> is_header_text((#[trigger] headers[i]).1)
}

/// Calls `reqwest::header::HeaderValue::from_str`, which takes a text without
/// control characters, tabs aside, and refuses any other text with one and the
/// same error.
#[verifier::external_body]
fn header_complaint(text: &str) -> (complaint: Option<String>)
    ensures
        match complaint {
            Some(complaint) => !is_header_text(text@) && complaint@
                == "failed to parse header value"@,
            None => is_header_text(text@),
        },
{
    match reqwest::header::HeaderValue::from_str(text) {
        Ok(_) => None,
        Err(error) => Some(error.to_string()),
    }
}

/// What a list of headers holds.
pub open spec fn header_texts(headers: Seq<(String, String)>) -> Seq<(Seq<char>, Seq<char>)> {
    headers.map_values(|header: (String, String)| (header.0@, header.1@))
}

impl Config {
    /// Whether this is the configuration for a repository.
    pub open spec fn configures(
        self,
        repository: Seq<char>,
        prefix: Seq<char>,
        lookups: Lookups,
    ) -> bool {
        &&& is_repository_of(repository, self.owner@, self.repo@)
        &&& self.remote_name@ == configured_or(lookups.remote_name, "origin"@)
        &&& self.master_branch@ == configured_or(lookups.master_branch, "main"@)
        &&& self.branch_prefix@ == prefix
        &&& self.require_approval == (lookups.require_approval == Some(true))
    }
}

impl OptionsError {
    /// The error to end with.
    pub fn into_error(self) -> (error: SprError)
        ensures
            match self {
                OptionsError::InvalidRepository(given) => error@ == seq![
                    invalid_repository(given@),
                ],
            },
    {
        SprError::new(self.message())
    }
}

fn or_text(text: Option<String>, default: &str) -> (chosen: String)
    ensures
        chosen@ == configured_or(text, default@),
{
    match text {
        Some(text) => text,
        None => default.to_string(),
    }
}

/// The repository to work on.
fn choose_repository(
    option: &Option<String>,
    jj_repository: &Option<CommandOutput>,
    git_repository: &Result<String, String>,
) -> (text: Result<String, SprError>)
    ensures
        match chosen_repository(*option, *jj_repository, *git_repository) {
            Repository::Text(chosen) => text matches Ok(text) && text@ == chosen,
            Repository::Unknown(complaint) => text matches Err(error) && error@ == seq![complaint],
        },
{
    if let Some(option) = option {
        return Ok(option.clone());
    }
    if let Some(output) = jj_repository {
        if output.success {
            let stdout = output.stdout.clone();
            assert(stdout@ =~= output.stdout@);
            return match decode(stdout) {
                Ok(text) => Ok(trim(text.as_str()).to_string()),
                Err(complaint) => Err(SprError::new(complaint)),
            };
        }
    }
    match git_repository {
        Ok(text) => Ok(text.clone()),
        Err(complaint) => Err(SprError::new(complaint.clone())),
    }
}

/// The prefix for branches.
fn choose_prefix(
    option: Option<String>,
    configured: Option<String>,
    username: Option<String>,
) -> (prefix: Option<String>)
    ensures
        match prefix {
            Some(prefix) => chosen_prefix(option, configured, username) == Some(prefix@),
            None => chosen_prefix(option, configured, username) is None,
        },
{
    if option.is_some() {
        option
    } else if configured.is_some() {
        configured
    } else {
        match username {
            Some(username) => Some(
                "spr/".to_string().concat(username.as_str()).concat("/"),
            ),
            None => None,
        }
    }
}

/// Whether `command` asks `jj` for the repository that is configured.
pub open spec fn asks_for_repository(command: CommandLine) -> bool {
    &&& command.program == Program::Jj
    &&& command.argument_texts() == seq![Some("config"@), Some("get"@), Some(REPOSITORY_KEY@)]
    &&& command.directory is None
}

/// Asks `jj` for the repository that is configured.
pub fn repository_command() -> (command: CommandLine)
    ensures
        asks_for_repository(command),
{
    let mut arguments: Vec<Argument> = Vec::new();
    arguments.push(Argument::Text("config".to_string()));
    arguments.push(Argument::Text("get".to_string()));
    arguments.push(Argument::Text(REPOSITORY_KEY.to_string()));
    let command = CommandLine { program: Program::Jj, arguments, directory: None };
    assert(command.argument_texts() =~= seq![
        Some("config"@),
        Some("get"@),
        Some(REPOSITORY_KEY@),
    ]);
    command
}

/// What is told where the workspace cannot be used: what is wrong with it, and
/// what was being done.
pub fn not_initialized(error: SprError) -> (told: SprError)
    ensures
        told@ == error@.push("could not initialize Jujutsu backend"@),
{
    error.context("could not initialize Jujutsu backend".to_string())
}

/// Whether the command works on a workspace.
pub open spec fn works_on_workspace(command: Commands) -> bool {
    command != Commands::Init
}

/// Whether a workspace is needed.
pub fn needs_workspace(cli: &Cli) -> (needed: bool)
    ensures
        needed == works_on_workspace(cli.command),
{
    cli.command != Commands::Init
}

/// Whether GitHub is to be asked for the name of the user: the prefix of branches
/// is made of it, the repository is a valid one, and there is a token to ask with.
pub open spec fn asks_for_username(cli: Cli, lookups: Lookups) -> bool {
    &&& chosen_prefix(cli.branch_prefix, lookups.branch_prefix, None) is None
    &&& has_repository(cli, lookups)
    &&& chosen_token(cli, lookups) matches Some(token) && is_header_text("Bearer "@ + token@)
}

/// The token to ask GitHub with for the name of the user, where that is needed.
pub fn needs_username<'a>(cli: &'a Cli, lookups: &'a Lookups) -> (token: Option<&'a String>)
    ensures
        match token {
            Some(token) => asks_for_username(*cli, *lookups) && chosen_token(*cli, *lookups)
                == Some(*token),
            None => !asks_for_username(*cli, *lookups),
        },
{
    if cli.branch_prefix.is_some() || lookups.branch_prefix.is_some() {
        return None;
    }
    let token = match (&cli.github_auth_token, &lookups.auth_token) {
        (Some(token), _) => token,
        (None, Some(token)) => token,
        (None, None) => return None,
    };
    if header_complaint("Bearer ".to_string().concat(token.as_str()).as_str()).is_some() {
        return None;
    }
    match choose_repository(
        &cli.github_repository,
        &lookups.jj_repository,
        &lookups.git_repository,
    ) {
        Ok(text) => match parse_repository(text.as_str()) {
            Ok(_) => {
                assert(is_repository(text@));
                Some(token)
            },
            Err(_) => None,
        },
        Err(_) => None,
    }
}

/// What every request to GitHub carries, where headers can carry it.
fn headers_for(version: &str, token: &str) -> (headers: Result<Vec<(String, String)>, SprError>)
    ensures
        match headers {
            Ok(headers) => can_be_sent(request_headers(version@, token@)) && header_texts(headers@)
                == request_headers(version@, token@),
            Err(error) => !can_be_sent(request_headers(version@, token@)) && error@ == seq![
                "failed to parse header value"@,
            ],
        },
{
    let ghost wanted = request_headers(version@, token@);
    let mut headers: Vec<(String, String)> = Vec::new();
    headers.push(("accept".to_string(), "application/json".to_string()));
    headers.push(("user-agent".to_string(), "spr/".to_string().concat(version)));
    headers.push(("authorization".to_string(), "Bearer ".to_string().concat(token)));
    assert(header_texts(headers@) =~= wanted);
    let mut i: usize = 0;
    while i < headers.len()
        invariant
            i <= headers@.len(),
            wanted == request_headers(version@, token@),
            header_texts(headers@) == wanted,
            forall|k: int| 0 <= k < i ==> is_header_text((#[trigger] wanted[k]).1),
        decreases headers@.len() - i,
    {
        assert(wanted[i as int].1 == headers@[i as int].1@);
        if let Some(complaint) = header_complaint(headers[i].1.as_str()) {
            return Err(SprError::new(complaint));
        }
        i = i + 1;
    }
    Ok(headers)
}

/// Whether `plan` is what is to be done for a command line, with all that could
/// be looked up, by version `version` of the program.
pub open spec fn planned(
    cli: Cli,
    lookups: Lookups,
    version: Seq<char>,
    plan: Result<Plan, SprError>,
) -> bool {
    let prefix = chosen_prefix(
        cli.branch_prefix,
        lookups.branch_prefix,
        lookups.github_username,
    );
    let token = chosen_token(cli, lookups);
    if cli.command == Commands::Init {
        plan matches Ok(plan) && plan is Init
    } else {
        match chosen_repository(
            cli.github_repository,
            lookups.jj_repository,
            lookups.git_repository,
        ) {
            Repository::Unknown(complaint) => plan matches Err(error) && error@ == seq![complaint],
            Repository::Text(repository) => if !is_repository(repository) {
                plan matches Err(error) && error@ == seq![invalid_repository(repository)]
            } else if prefix is None {
                plan matches Err(error) && error@ == seq!["spr.branchPrefix must be configured"@]
            } else if cli.command == Commands::Format {
                plan matches Ok(Plan::Format { config }) && config.configures(
                    repository,
                    prefix.unwrap(),
                    lookups,
                )
            } else if token is None {
                plan matches Err(error) && error@ == seq!["GitHub auth token must be configured"@]
            } else if !can_be_sent(request_headers(version, token.unwrap()@)) {
                plan matches Err(error) && error@ == seq!["failed to parse header value"@]
            } else {
                plan matches Ok(Plan::Online { config, auth_token, headers }) && config.configures(
                    repository,
                    prefix.unwrap(),
                    lookups,
                ) && auth_token == token.unwrap() && header_texts(headers@) == request_headers(
                    version,
                    auth_token@,
                )
            },
        }
    }
}

/// What is to be done for a command line.
pub fn spr(cli: Cli, lookups: Lookups, version: &str) -> (plan: Result<Plan, SprError>)
    ensures
        planned(cli, lookups, version@, plan),
{
    if cli.command == Commands::Init {
        return Ok(Plan::Init);
    }
    let text = match choose_repository(
        &cli.github_repository,
        &lookups.jj_repository,
        &lookups.git_repository,
    ) {
        Ok(text) => text,
        Err(error) => return Err(error),
    };
    let (owner, repo) = match parse_repository(text.as_str()) {
        Ok(parts) => parts,
        Err(error) => return Err(error.into_error()),
    };
    assert(is_repository(text@));
    let branch_prefix = match choose_prefix(
        cli.branch_prefix,
        lookups.branch_prefix,
        lookups.github_username,
    ) {
        Some(prefix) => prefix,
        None => return Err(SprError::new("spr.branchPrefix must be configured".to_string())),
    };
    let config = Config {
        owner,
        repo,
        remote_name: or_text(lookups.remote_name, "origin"),
        master_branch: or_text(lookups.master_branch, "main"),
        branch_prefix,
        require_approval: match lookups.require_approval {
            Some(required) => required,
            None => false,
        },
    };
    if cli.command == Commands::Format {
        return Ok(Plan::Format { config });
    }
    let auth_token = match cli.github_auth_token {
        Some(token) => token,
        None => match lookups.auth_token {
            Some(token) => token,
            None => return Err(SprError::new("GitHub auth token must be configured".to_string())),
        },
    };
    match headers_for(version, auth_token.as_str()) {
        Ok(headers) => Ok(Plan::Online { config, auth_token, headers }),
        Err(error) => Err(error),
    }
}

/// `init` needs nothing that could be looked up.
pub proof fn init_needs_no_configuration(
    cli: Cli,
    lookups: Lookups,
    other: Lookups,
    version: Seq<char>,
    plan: Result<Plan, SprError>,
)
    requires
        cli.command == Commands::Init,
    ensures
        planned(cli, lookups, version, plan) == planned(cli, other, version, plan),
        planned(cli, lookups, version, Ok(Plan::Init)),
{
}

/// `format` needs no token for GitHub.
pub proof fn format_needs_no_token(
    cli: Cli,
    lookups: Lookups,
    auth_token: Option<String>,
    version: Seq<char>,
    plan: Result<Plan, SprError>,
)
    requires
        cli.command == Commands::Format,
    ensures
        planned(cli, lookups, version, plan) == planned(
            cli,
            Lookups { auth_token, ..lookups },
            version,
            plan,
        ),
{
    let other = Lookups { auth_token, ..lookups };
    assert(forall|config: Config, repository: Seq<char>, prefix: Seq<char>|
        config.configures(repository, prefix, lookups) == config.configures(
            repository,
            prefix,
            other,
        ));
}

/// What is given on the command line is used, whatever is configured.
pub proof fn command_line_comes_first(cli: Cli, lookups: Lookups)
    ensures
        cli.github_repository is Some ==> chosen_repository(
            cli.github_repository,
            lookups.jj_repository,
            lookups.git_repository,
        ) == Repository::Text(cli.github_repository.unwrap()@),
        cli.branch_prefix is Some ==> chosen_prefix(
            cli.branch_prefix,
            lookups.branch_prefix,
            lookups.github_username,
        ) == Some(cli.branch_prefix.unwrap()@),
        cli.github_auth_token is Some ==> chosen_token(cli, lookups) == cli.github_auth_token,
{
}

/// The name of the user matters only where there is a repository and no other
/// prefix.
pub proof fn username_matters_where_it_is_needed(
    cli: Cli,
    lookups: Lookups,
    github_username: Option<String>,
    version: Seq<char>,
    plan: Result<Plan, SprError>,
)
    requires
        !has_repository(cli, lookups) || chosen_prefix(
            cli.branch_prefix,
            lookups.branch_prefix,
            None,
        ) is Some,
    ensures
        planned(cli, lookups, version, plan) == planned(
            cli,
            Lookups { github_username, ..lookups },
            version,
            plan,
        ),
{
    let other = Lookups { github_username, ..lookups };
    assert(forall|config: Config, repository: Seq<char>, prefix: Seq<char>|
        config.configures(repository, prefix, lookups) == config.configures(
            repository,
            prefix,
            other,
        ));
}

/// A request can be sent where neither the version nor the token holds anything
/// that a header cannot carry.
pub proof fn version_and_token_decide_what_can_be_sent(version: Seq<char>, token: Seq<char>)
    ensures
        can_be_sent(request_headers(version, token)) == (is_header_text(version)
            && is_header_text(token)),
{
    reveal_strlit("application/json");
    reveal_strlit("spr/");
    reveal_strlit("Bearer ");
    let headers = request_headers(version, token);
    lemma_header_text_in_two("spr/"@, version);
    lemma_header_text_in_two("Bearer "@, token);
    assert(headers[1].1 == "spr/"@ + version);
    assert(headers[2].1 == "Bearer "@ + token);
}

proof fn lemma_header_text_in_two(first: Seq<char>, second: Seq<char>)
    requires
        is_header_text(first),
    ensures
        is_header_text(first + second) == is_header_text(second),
{
    let text = first + second;
    if is_header_text(text) {
        assert forall|i: int| 0 <= i < second.len() implies (0x20 <= #[trigger] second[i] as u32
            && second[i] as u32 != 0x7f) || second[i] == '\t' by {
            assert(text[first.len() + i] == second[i]);
        }
    }
}

/// The keys of the configuration, and how `jj` is asked for one of them.
pub proof fn keys_of_the_configuration(command: CommandLine)
    ensures
        REPOSITORY_KEY@ == "spr.githubRepository"@,
        REMOTE_NAME_KEY@ == "spr.githubRemoteName"@,
        MASTER_BRANCH_KEY@ == "spr.githubMasterBranch"@,
        BRANCH_PREFIX_KEY@ == "spr.branchPrefix"@,
        REQUIRE_APPROVAL_KEY@ == "spr.requireApproval"@,
        asks_for_repository(command) ==> command.program == Program::Jj
            && command.argument_texts() == seq![
            Some("config"@),
            Some("get"@),
            Some("spr.githubRepository"@),
        ] && command.directory is None,
{
}

/// A name is a stretch of word characters, hyphens and dots. Of the characters of
/// ASCII these are the letters, the digits, the underscore, the hyphen and the dot.
pub proof fn characters_of_a_name(c: char)
    requires
        c as u32 <= 0x7f,
    ensures
        is_name(seq![c]) <==> {
            ||| 'a' <= c <= 'z' || 'A' <= c <= 'Z' || '0' <= c <= '9'
            ||| c == '_' || c == '-' || c == '.'
        },
        word_character(c) <==> is_name(seq![c]) && c != '-' && c != '.',
{
    let name = seq![c];
    assert(name[0] == c);
    if is_name(name) {
        assert(word_character(name[0]) || name[0] == '-' || name[0] == '.');
    }
}

/// Two names make a longer one, and each part of a name is a name.
pub proof fn names_are_made_of_names(first: Seq<char>, second: Seq<char>)
    requires
        first.len() > 0,
        second.len() > 0,
    ensures
        is_name(first + second) <==> is_name(first) && is_name(second),
        !is_name(Seq::<char>::empty()),
{
    let both = first + second;
    if is_name(both) {
        assert forall|i: int| 0 <= i < first.len() implies word_character(#[trigger] first[i])
            || first[i] == '-' || first[i] == '.' by {
            assert(both[i] == first[i]);
        }
        assert forall|i: int| 0 <= i < second.len() implies word_character(#[trigger] second[i])
            || second[i] == '-' || second[i] == '.' by {
            assert(both[first.len() + i] == second[i]);
        }
    }
}

/// A repository is read as its owner and its name, with the slash between them,
/// and nothing is lost. What is not two names with one slash between them is
/// refused, and told.
pub proof fn repository_is_owner_and_name(
    text: Seq<char>,
    parts: Result<(String, String), OptionsError>,
)
    requires
        parses(text, parts),
    ensures
        parts matches Ok((owner, name)) ==> {
            &&& text == owner@ + seq!['/'] + name@
            &&& is_name(owner@) && !owner@.contains('/')
            &&& is_name(name@) && !name@.contains('/')
        },
        parts matches Err(OptionsError::InvalidRepository(given)) ==> given@ == text,
        parts is Ok <==> exists|owner: Seq<char>, name: Seq<char>|
            is_name(owner) && is_name(name) && text == #[trigger] (owner + seq!['/'] + name),
        invalid_repository(text)
            == "GitHub repository must be given as 'OWNER/REPO', but given value was '"@ + text
            + "'"@,
{
    if let Ok((owner, name)) = parts {
        assert forall|part: Seq<char>| is_name(part) implies !(#[trigger] part.contains('/')) by {
            if part.contains('/') {
                let i = choose|i: int| 0 <= i < part.len() && part[i] == '/';
                assert(word_character(part[i]) || part[i] == '-' || part[i] == '.');
            }
        }
        assert(text == owner@ + seq!['/'] + name@);
    }
    if exists|owner: Seq<char>, name: Seq<char>|
        is_name(owner) && is_name(name) && text == #[trigger] (owner + seq!['/'] + name) {
        let (owner, name): (Seq<char>, Seq<char>) = choose|owner: Seq<char>, name: Seq<char>|
            is_name(owner) && is_name(name) && text == #[trigger] (owner + seq!['/'] + name);
        assert(is_repository_of(text, owner, name));
    }
}

impl Plan {
    /// What the command works on, where it works on something.
    pub open spec fn config(self) -> Option<Config> {
        match self {
            Plan::Init => None,
            Plan::Format { config } => Some(config),
            Plan::Online { config, .. } => Some(config),
        }
    }
}

/// Whether approval is required is taken over as it is configured, and it is not
/// required where that is not configured.
pub proof fn approval_is_as_configured(
    cli: Cli,
    lookups: Lookups,
    version: Seq<char>,
    plan: Plan,
    config: Config,
)
    requires
        planned(cli, lookups, version, Ok(plan)),
        plan.config() == Some(config),
    ensures
        forall|required: bool|
            lookups.require_approval == Some(required) ==> config.require_approval == required,
        lookups.require_approval is None ==> !config.require_approval,
{
}

/// The remote and the master branch are those that are configured, each under its
/// own key, and `origin` and `main` where they are not.
pub proof fn remote_and_branch_are_as_configured(
    cli: Cli,
    lookups: Lookups,
    version: Seq<char>,
    plan: Plan,
    config: Config,
)
    requires
        planned(cli, lookups, version, Ok(plan)),
        plan.config() == Some(config),
    ensures
        lookups.remote_name matches Some(name) ==> config.remote_name@ == name@,
        lookups.remote_name is None ==> config.remote_name@ == "origin"@,
        lookups.master_branch matches Some(name) ==> config.master_branch@ == name@,
        lookups.master_branch is None ==> config.master_branch@ == "main"@,
{
}

/// The prefix for branches is the one on the command line, else the one that is
/// configured, else the name of the user between `spr/` and a slash.
pub proof fn prefix_of_branches(
    cli: Cli,
    lookups: Lookups,
    version: Seq<char>,
    plan: Plan,
    config: Config,
)
    requires
        planned(cli, lookups, version, Ok(plan)),
        plan.config() == Some(config),
    ensures
        match (cli.branch_prefix, lookups.branch_prefix, lookups.github_username) {
            (Some(prefix), _, _) => config.branch_prefix@ == prefix@,
            (None, Some(prefix), _) => config.branch_prefix@ == prefix@,
            (None, None, Some(name)) => config.branch_prefix@ == "spr/"@ + name@ + "/"@,
            (None, None, None) => false,
        },
{
}

/// The repository is the one on the command line as it is given, else what `jj`
/// prints, trimmed, where it succeeds, else the one that Git has configured as it
/// is. Owner and name make it up.
pub proof fn repository_to_work_on(
    cli: Cli,
    lookups: Lookups,
    version: Seq<char>,
    plan: Plan,
    config: Config,
    printed: Seq<char>,
)
    requires
        planned(cli, lookups, version, Ok(plan)),
        plan.config() == Some(config),
    ensures
        is_name(config.owner@),
        is_name(config.repo@),
        cli.github_repository matches Some(text) ==> text@ == config.owner@ + seq!['/']
            + config.repo@,
        cli.github_repository is None ==> (match lookups.jj_repository {
            Some(output) => output.success ==> valid_utf8(output.stdout@) && (output.stdout@
                == encode_utf8(printed) ==> trimmed(printed) == config.owner@ + seq!['/']
                + config.repo@),
            None => true,
        }),
        cli.github_repository is None && (lookups.jj_repository is None
            || !lookups.jj_repository.unwrap().success) ==> (lookups.git_repository matches Ok(text)
            && text@ == config.owner@ + seq!['/'] + config.repo@),
{
    encoded_text_is_shown(printed, Seq::empty());
}

/// A command other than `init` and `format` goes to GitHub with the token on the
/// command line, else with the one that is configured. Every request accepts JSON,
/// says which version of the program it comes from, and carries the token.
pub proof fn requests_carry_the_token(
    cli: Cli,
    lookups: Lookups,
    version: Seq<char>,
    config: Config,
    auth_token: String,
    headers: Vec<(String, String)>,
)
    requires
        planned(cli, lookups, version, Ok(Plan::Online { config, auth_token, headers })),
    ensures
        cli.command != Commands::Init && cli.command != Commands::Format,
        cli.github_auth_token matches Some(token) ==> auth_token == token,
        cli.github_auth_token is None ==> lookups.auth_token == Some(auth_token),
        headers@.len() == 3,
        headers@[0].0@ == "accept"@ && headers@[0].1@ == "application/json"@,
        headers@[1].0@ == "user-agent"@ && headers@[1].1@ == "spr/"@ + version,
        headers@[2].0@ == "authorization"@ && headers@[2].1@ == "Bearer "@ + auth_token@,
        is_header_text(auth_token@) && is_header_text(version),
{
    let texts = header_texts(headers@);
    assert(texts.len() == headers@.len());
    assert(texts[0] == (headers@[0].0@, headers@[0].1@));
    assert(texts[1] == (headers@[1].0@, headers@[1].1@));
    assert(texts[2] == (headers@[2].0@, headers@[2].1@));
    version_and_token_decide_what_can_be_sent(version, auth_token@);
}

/// `init` is always run, and needs nothing. Any other command is run where there is
/// a repository and a prefix, and all of them but `format` need a token that a header
/// can carry. `format` is planned for `format` alone.
pub proof fn when_a_command_is_run(
    cli: Cli,
    lookups: Lookups,
    version: Seq<char>,
    plan: Result<Plan, SprError>,
)
    requires
        planned(cli, lookups, version, plan),
    ensures
        plan matches Ok(plan) ==> {
            &&& plan is Init <==> cli.command == Commands::Init
            &&& plan is Format <==> cli.command == Commands::Format
        },
        plan is Ok <==> cli.command == Commands::Init || {
            &&& has_repository(cli, lookups)
            &&& cli.branch_prefix is Some || lookups.branch_prefix is Some
                || lookups.github_username is Some
            &&& cli.command == Commands::Format || {
                &&& cli.github_auth_token is Some || lookups.auth_token is Some
                &&& is_header_text(version)
                &&& is_header_text(
                    (match cli.github_auth_token {
                        Some(token) => token,
                        None => lookups.auth_token.unwrap(),
                    })@,
                )
            }
        },
{
    let token = match cli.github_auth_token {
        Some(token) => token,
        None => lookups.auth_token.unwrap(),
    };
    version_and_token_decide_what_can_be_sent(version, token@);
}

/// What is told where a command cannot be run is the first thing that is wrong: the
/// repository is not known, or is none, there is no prefix, there is no token, or no
/// header can carry what is sent.
pub proof fn what_is_told_where_a_command_is_not_run(
    cli: Cli,
    lookups: Lookups,
    version: Seq<char>,
    error: SprError,
    printed: Seq<char>,
)
    requires
        planned(cli, lookups, version, Err(error)),
    ensures
        error@.len() == 1,
        cli.github_repository matches Some(text) ==> !is_repository(text@) ==> error@[0]
            == invalid_repository(text@),
        cli.github_repository is None ==> (match lookups.jj_repository {
            Some(output) => if output.success {
                &&& !valid_utf8(output.stdout@) ==> error@[0] == utf8_complaint(output.stdout@)
                &&& output.stdout@ == encode_utf8(printed) && !is_repository(trimmed(printed))
                    ==> error@[0] == invalid_repository(trimmed(printed))
            } else {
                git_is_to_blame(lookups.git_repository, error@[0])
            },
            None => git_is_to_blame(lookups.git_repository, error@[0]),
        }),
        has_repository(cli, lookups) ==> if cli.branch_prefix is None && lookups.branch_prefix
            is None && lookups.github_username is None {
            error@[0] == "spr.branchPrefix must be configured"@
        } else if cli.github_auth_token is None && lookups.auth_token is None {
            error@[0] == "GitHub auth token must be configured"@
        } else {
            error@[0] == "failed to parse header value"@
        },
{
    encoded_text_is_shown(printed, Seq::empty());
}

/// Whether `message` is told of what Git has configured for the repository, where
/// that is wrong.
pub open spec fn git_is_to_blame(
    git_repository: Result<String, String>,
    message: Seq<char>,
) -> bool {
    match git_repository {
        Ok(text) => !is_repository(text@) ==> message == invalid_repository(text@),
        Err(complaint) => message == complaint@,
    }
}

/// There is a repository where the text that comes first is one: that on the command
/// line, what a `jj` that succeeds prints, or what Git has configured.
pub proof fn where_the_repository_comes_from(cli: Cli, lookups: Lookups, printed: Seq<char>)
    ensures
        match (cli.github_repository, lookups.jj_repository, lookups.git_repository) {
            (Some(text), _, _) => has_repository(cli, lookups) == is_repository(text@),
            (None, Some(output), _) if output.success => {
                &&& !valid_utf8(output.stdout@) ==> !has_repository(cli, lookups)
                &&& output.stdout@ == encode_utf8(printed) ==> has_repository(cli, lookups)
                    == is_repository(trimmed(printed))
            },
            (None, _, Ok(text)) => has_repository(cli, lookups) == is_repository(text@),
            (None, _, Err(_)) => !has_repository(cli, lookups),
        },
{
    encoded_text_is_shown(printed, Seq::empty());
}

/// GitHub is asked for the name of the user where neither the command line nor the
/// configuration has a prefix, and only with a repository and a token that can be
/// sent; a name is never asked for in vain.
pub proof fn when_the_name_of_the_user_is_asked_for(cli: Cli, lookups: Lookups)
    ensures
        asks_for_username(cli, lookups) <==> {
            &&& cli.branch_prefix is None && lookups.branch_prefix is None
            &&& has_repository(cli, lookups)
            &&& cli.github_auth_token is Some || lookups.auth_token is Some
            &&& is_header_text(
                (match cli.github_auth_token {
                    Some(token) => token,
                    None => lookups.auth_token.unwrap(),
                })@,
            )
        },
{
    reveal_strlit("Bearer ");
    let token = match cli.github_auth_token {
        Some(token) => token,
        None => lookups.auth_token.unwrap(),
    };
    lemma_header_text_in_two("Bearer "@, token@);
}

/// A workspace is needed by every command that works on something, and by no other.
pub proof fn when_a_workspace_is_needed(
    cli: Cli,
    lookups: Lookups,
    version: Seq<char>,
    plan: Plan,
)
    requires
        planned(cli, lookups, version, Ok(plan)),
    ensures
        works_on_workspace(cli.command) <==> plan.config() is Some,
        works_on_workspace(cli.command) <==> plan !is Init,
{
}

/// A header carries text of which no character is a control character of ASCII, but
/// for the tab.
pub proof fn characters_that_a_header_carries(c: char)
    ensures
        is_header_text(seq![c]) <==> c == '\t' || (c >= ' ' && c != '\u{7f}'),
{
    let text = seq![c];
    assert(text[0] == c);
    if is_header_text(text) {
        assert((0x20 <= text[0] as u32 && text[0] as u32 != 0x7f) || text[0] == '\t');
    }
}

/// A header carries two texts, one behind the other, where it carries each of them.
pub proof fn header_carries_both_texts(first: Seq<char>, second: Seq<char>)
    ensures
        is_header_text(first + second) <==> is_header_text(first) && is_header_text(second),
        is_header_text(Seq::<char>::empty()),
{
    let text = first + second;
    if is_header_text(text) {
        assert forall|i: int| 0 <= i < first.len() implies (0x20 <= #[trigger] first[i] as u32
            && first[i] as u32 != 0x7f) || first[i] == '\t' by {
            assert(text[i] == first[i]);
        }
        lemma_header_text_in_two(first, second);
    }
}

} // verus!
