//! Credentials for a remote: which one to offer at each attempt, and how
//! the answer of a credential helper is read.

use vstd::prelude::*;
use vstd::string::*;
use crate::path_parts::begins_with;
use crate::path_parts::chars_begin_with;
use crate::text::chars_of;
use crate::text::string_of;

verus! {

/// The kinds of credential that the remote accepts.
#[derive(Debug, Clone, Copy, PartialEq, Eq, Structural)]
pub struct AllowedCredentials {
    pub ssh_key: bool,
    pub user_pass_plaintext: bool,
    pub default: bool,
}

/// The private key files that are tried, in this order.
#[derive(Debug, Clone, Copy, PartialEq, Eq, Structural)]
pub enum KeyFile {
    Ed25519,
    Rsa,
    Ecdsa,
}

/// What to do at one attempt to authenticate.
#[derive(Debug, Clone, Copy, PartialEq, Eq, Structural)]
pub enum CredentialPlan {
    /// Too many attempts were made: fail.
    GiveUp,
    /// Offer an SSH key: from the agent where `try_agent` is set, and where
    /// that yields nothing from `key_file`, where one is left to try.
    Ssh { try_agent: bool, key_file: Option<KeyFile> },
    /// Offer a user name and password: from the configured helper where
    /// `try_helper` is set, and where that yields nothing from the `git`
    /// program.
    UserPass { try_helper: bool },
    /// Offer the default credential of the system.
    Default,
    /// The remote accepts nothing that can be offered: fail.
    Unsupported,
}

/// The attempts after which no credential is offered any more.
pub const MAX_CREDENTIAL_ATTEMPTS: u32 = 5;

/// The key file that is tried at index `index`, where there is one.
pub open spec fn key_file_at(index: int) -> Option<KeyFile> {
    if index == 0 {
        Some(KeyFile::Ed25519)
    } else if index == 1 {
        Some(KeyFile::Rsa)
    } else if index == 2 {
        Some(KeyFile::Ecdsa)
    } else {
        None
    }
}

/// What to do at the attempt that follows `tries` earlier ones. SSH keys
/// come before passwords, and those before the system's default. The first
/// attempt asks the agent or the helper; it and the next try the first key
/// file, and each later attempt the next one.
pub open spec fn planned(tries: u32, allowed: AllowedCredentials) -> CredentialPlan {
    if tries >= MAX_CREDENTIAL_ATTEMPTS {
        CredentialPlan::GiveUp
    } else if allowed.ssh_key {
        CredentialPlan::Ssh {
            try_agent: tries == 0,
            key_file: key_file_at(
                if tries == 0 {
                    0
                } else {
                    tries - 1
                },
            ),
        }
    } else if allowed.user_pass_plaintext {
        CredentialPlan::UserPass { try_helper: tries == 0 }
    } else if allowed.default {
        CredentialPlan::Default
    } else {
        CredentialPlan::Unsupported
    }
}

/// What to do at the attempt that follows `tries` earlier ones.
pub fn credential_plan(tries: u32, allowed: AllowedCredentials) -> (plan: CredentialPlan)
    ensures
        plan == planned(tries, allowed),
{
    if tries >= MAX_CREDENTIAL_ATTEMPTS {
        CredentialPlan::GiveUp
    } else if allowed.ssh_key {
        let index: u32 = if tries == 0 {
            0
        } else {
            tries - 1
        };
        let key_file = if index == 0 {
            Some(KeyFile::Ed25519)
        } else if index == 1 {
            Some(KeyFile::Rsa)
        } else if index == 2 {
            Some(KeyFile::Ecdsa)
        } else {
            None
        };
        CredentialPlan::Ssh { try_agent: tries == 0, key_file }
    } else if allowed.user_pass_plaintext {
        CredentialPlan::UserPass { try_helper: tries == 0 }
    } else if allowed.default {
        CredentialPlan::Default
    } else {
        CredentialPlan::Unsupported
    }
}

impl KeyFile {
    /// The name of the private key file.
    pub open spec fn name(self) -> Seq<char> {
        match self {
            KeyFile::Ed25519 => "id_ed25519"@,
            KeyFile::Rsa => "id_rsa"@,
            KeyFile::Ecdsa => "id_ecdsa"@,
        }
    }

    /// The name of the private key file.
    pub fn private_name(self) -> (name: &'static str)
        ensures
            name@ == self.name(),
    {
        match self {
            KeyFile::Ed25519 => "id_ed25519",
            KeyFile::Rsa => "id_rsa",
            KeyFile::Ecdsa => "id_ecdsa",
        }
    }

    /// The name of the public key file: that of the private one with `.pub`
    /// after it.
    pub fn public_name(self) -> (name: String)
        ensures
            name@ == self.name() + ".pub"@,
    {
        String::from_str(self.private_name()).concat(".pub")
    }
}

/// What is said where a plan yields no credential. The system's default
/// credential fails in the engine's own words.
pub open spec fn failure_text(plan: CredentialPlan) -> Option<Seq<char>> {
    match plan {
        CredentialPlan::GiveUp => Some(
            "too many credential attempts — no valid credentials found"@,
        ),
        CredentialPlan::Ssh { .. } => Some("no SSH credentials found"@),
        CredentialPlan::UserPass { .. } => Some(
            "no credentials found — configure a Git credential helper or use SSH"@,
        ),
        CredentialPlan::Default => None,
        CredentialPlan::Unsupported => Some("no valid credential type"@),
    }
}

/// What is said where `plan` yields no credential.
pub fn plan_failure(plan: CredentialPlan) -> (text: Option<&'static str>)
    ensures
        match text {
            Some(words) => failure_text(plan) == Some(words@),
            None => failure_text(plan) is None,
        },
{
    match plan {
        CredentialPlan::GiveUp => Some("too many credential attempts — no valid credentials found"),
        CredentialPlan::Ssh { .. } => Some("no SSH credentials found"),
        CredentialPlan::UserPass { .. } => Some(
            "no credentials found — configure a Git credential helper or use SSH",
        ),
        CredentialPlan::Default => None,
        CredentialPlan::Unsupported => Some("no valid credential type"),
    }
}

/// The user name to authenticate as: the one the remote asks for, or `git`.
pub fn remote_user<'a>(username: Option<&'a str>) -> (user: &'a str)
    ensures
        user@ == match username {
            Some(given) => given@,
            None => "git"@,
        },
{
    match username {
        Some(given) => given,
        None => "git",
    }
}

/// What is asked of the `git` program for the remote at `url`.
pub fn credential_request(url: &str) -> (input: String)
    ensures
        input@ == "url="@ + url@ + "\n\n"@,
{
    String::from_str("url=").concat(url).concat("\n\n")
}

/// Where the reading of a helper's answer stands: the user name and the
/// password read so far, and the characters of the line being read.
pub struct AnswerState {
    pub username: Seq<char>,
    pub password: Seq<char>,
    pub line: Seq<char>,
}

/// A line that ended in a line feed, without the carriage return before
/// it, where there is one.
pub open spec fn line_content(line: Seq<char>) -> Seq<char> {
    if line.len() > 0 && line.last() == '\r' {
        line.drop_last()
    } else {
        line
    }
}

/// The state after `line` was read: a line that begins with `username=`
/// sets the user name to what follows, one that begins with `password=`
/// the password; any other line changes nothing. The next line starts
/// empty.
pub open spec fn after_line(state: AnswerState, line: Seq<char>) -> AnswerState {
    if begins_with(line, "username="@) {
        AnswerState {
            username: line.skip("username="@.len() as int),
            password: state.password,
            line: Seq::empty(),
        }
    } else if begins_with(line, "password="@) {
        AnswerState {
            username: state.username,
            password: line.skip("password="@.len() as int),
            line: Seq::empty(),
        }
    } else {
        AnswerState { line: Seq::empty(), ..state }
    }
}

/// The state after the first `n` characters of `answer`.
pub open spec fn answer_scan(answer: Seq<char>, n: int) -> AnswerState
    decreases n,
{
    if n <= 0 {
        AnswerState { username: Seq::empty(), password: Seq::empty(), line: Seq::empty() }
    } else {
        let before = answer_scan(answer, n - 1);
        if answer[n - 1] == '\n' {
            after_line(before, line_content(before.line))
        } else {
            AnswerState { line: before.line.push(answer[n - 1]), ..before }
        }
    }
}

/// The state once all of `answer` is read. A last line without a line
/// feed counts as it stands.
pub open spec fn answer_read(answer: Seq<char>) -> AnswerState {
    let state = answer_scan(answer, answer.len() as int);
    if state.line.len() > 0 {
        after_line(state, state.line)
    } else {
        state
    }
}

/// The user name and the password that `answer` gives, where it gives
/// both. Of several lines for one of them the last counts.
pub open spec fn credentials_in(answer: Seq<char>) -> Option<(Seq<char>, Seq<char>)> {
    let state = answer_read(answer);
    if state.username.len() > 0 && state.password.len() > 0 {
        Some((state.username, state.password))
    } else {
        None
    }
}

fn rest_of(line: &Vec<char>, from: usize) -> (rest: Vec<char>)
    requires
        from <= line@.len(),
    ensures
        rest@ == line@.skip(from as int),
{
    let mut rest: Vec<char> = Vec::new();
    let mut i: usize = from;
    while i < line.len()
        invariant
            from <= i <= line@.len(),
            rest@ == line@.subrange(from as int, i as int),
        decreases line@.len() - i,
    {
        rest.push(line[i]);
        assert(line@.subrange(from as int, i + 1) =~= line@.subrange(from as int, i as int).push(
            line@[i as int],
        ));
        i += 1;
    }
    assert(rest@ =~= line@.skip(from as int));
    rest
}

fn take_line(username: &mut Vec<char>, password: &mut Vec<char>, line: &Vec<char>)
    ensures
        final(username)@ == after_line(
            AnswerState { username: old(username)@, password: old(password)@, line: line@ },
            line@,
        ).username,
        final(password)@ == after_line(
            AnswerState { username: old(username)@, password: old(password)@, line: line@ },
            line@,
        ).password,
{
    let user_key = chars_of("username=");
    let pass_key = chars_of("password=");
    if chars_begin_with(line.as_slice(), user_key.as_slice()) {
        *username = rest_of(line, user_key.len());
    } else if chars_begin_with(line.as_slice(), pass_key.as_slice()) {
        *password = rest_of(line, pass_key.len());
    }
}

/// Reads the answer of a credential helper: the user name and the password
/// it gives, where it gives both.
pub fn parse_credentials(answer: &str) -> (found: Option<(String, String)>)
    ensures
        match found {
            Some(pair) => credentials_in(answer@) == Some((pair.0@, pair.1@)),
            None => credentials_in(answer@) is None,
        },
{
    let chars = chars_of(answer);
    let mut username: Vec<char> = Vec::new();
    let mut password: Vec<char> = Vec::new();
    let mut line: Vec<char> = Vec::new();
    let mut i: usize = 0;
    while i < chars.len()
        invariant
            i <= chars@.len(),
            chars@ == answer@,
            username@ == answer_scan(answer@, i as int).username,
            password@ == answer_scan(answer@, i as int).password,
            line@ == answer_scan(answer@, i as int).line,
        decreases chars@.len() - i,
    {
        if chars[i] == '\n' {
            if line.len() > 0 && line[line.len() - 1] == '\r' {
                line.pop();
                assert(line@ =~= line_content(answer_scan(answer@, i as int).line));
            }
            take_line(&mut username, &mut password, &line);
            line = Vec::new();
        } else {
            line.push(chars[i]);
        }
        i += 1;
    }
    if line.len() > 0 {
        take_line(&mut username, &mut password, &line);
    }
    if username.len() > 0 && password.len() > 0 {
        Some((string_of(username.as_slice()), string_of(password.as_slice())))
    } else {
        None
    }
}

} // verus!
