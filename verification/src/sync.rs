//! Private GitHub sync: its configuration, the repository addresses it accepts, the
//! status it reports, and the decisions it makes around Git's answers.
use vstd::prelude::*;

use crate::text::{
    chars_of, contains_seq, lowercase, push_char, trim, trimmed,
};
use crate::text_format::{decimal, describe_number};

verus! {

/// The version of the sync configuration file.
pub const CONFIG_VERSION: u32 = 1;

/// Where and how the document is synchronised.
#[derive(Clone, Debug, PartialEq, Eq)]
pub struct SyncConfig {
    pub version: u32,
    pub repository: String,
    pub branch: String,
}

/// The files and directories that sync uses.
#[derive(Clone, Debug)]
pub struct SyncPaths {
    pub config: String,
    pub repository: String,
    pub archives: String,
    pub conflicts: String,
}

/// Why sync could not be set up.
#[derive(Debug)]
pub enum SyncError {
    NoHomeDirectory,
    Io { path: String, message: String },
    InvalidConfig(String),
}

/// Where the sync configuration is kept.
#[derive(Clone, Debug)]
pub struct ConfigStore {
    pub path: String,
}

/// The state of sync as the header shows it.
#[derive(Clone, Debug, PartialEq, Eq)]
pub enum SyncStatus {
    LocalOnly,
    Connecting,
    Syncing,
    Synced,
    Pending,
    Offline(String),
    Error(String),
    Conflict(String),
}

/// Which copy to keep when local and GitHub data both changed.
#[derive(Clone, Copy, Debug, PartialEq, Eq, Structural)]
pub enum ConflictChoice {
    KeepLocal,
    UseRemote,
}

/// The branch a new configuration uses.
pub open spec fn main_branch() -> Seq<char> {
    "main"@
}

/// The version of the sync configuration file.
pub fn config_version() -> (version: u32)
    ensures
        version == CONFIG_VERSION,
{
    CONFIG_VERSION
}

/// The branch a new configuration uses.
pub fn default_branch() -> (branch: String)
    ensures
        branch@ == main_branch(),
{
    String::from_str("main")
}

impl SyncConfig {
    /// A configuration for `repository` on the default branch.
    pub fn new(repository: String) -> (config: SyncConfig)
        ensures
            config.version == CONFIG_VERSION,
            config.repository == repository,
            config.branch@ == main_branch(),
    {
        SyncConfig { version: CONFIG_VERSION, repository, branch: default_branch() }
    }
}

impl ConfigStore {
    /// A store for the configuration file at `path`.
    pub fn new(path: String) -> (store: ConfigStore)
        ensures
            store.path == path,
    {
        ConfigStore { path }
    }
}

/// `relative` below `base`, with a separator between them where needed.
pub open spec fn join_path(base: Seq<char>, relative: Seq<char>) -> Seq<char> {
    if base.len() == 0 {
        relative
    } else if base.last() == '/' {
        base + relative
    } else {
        base + seq!['/'] + relative
    }
}

/// `relative` below `base`, as `Path::join` does for a relative path.
pub fn join(base: &str, relative: &str) -> (path: String)
    ensures
        path@ == join_path(base@, relative@),
{
    let n = base.unicode_len();
    let mut path = String::from_str(base);
    if n > 0 && base.get_char(n - 1) != '/' {
        push_char(&mut path, '/');
    }
    path.append(relative);
    path
}

/// An environment value, where an empty one counts as unset.
pub open spec fn set_value(value: Option<String>) -> Option<Seq<char>> {
    match value {
        Some(v) => if v@.len() > 0 { Some(v@) } else { None },
        None => None,
    }
}

/// An environment value, where an empty one counts as unset.
pub fn nonempty(value: Option<String>) -> (kept: Option<String>)
    ensures
        kept matches Some(v) ==> set_value(value) == Some(v@),
        kept is None <==> set_value(value) is None,
{
    match value {
        Some(v) => if v.as_str().unicode_len() > 0 { Some(v) } else { None },
        None => None,
    }
}

impl SyncPaths {
    /// The sync paths below the data directory (`$XDG_DATA_HOME`, or `~/.local/share`) and
    /// the configuration directory (`$XDG_CONFIG_HOME`, or `~/.config`, or the data
    /// directory), given the values of `HOME`, `XDG_DATA_HOME` and `XDG_CONFIG_HOME`.
    pub fn discover(
        home: Option<String>,
        xdg_data_home: Option<String>,
        xdg_config_home: Option<String>,
    ) -> (paths: Result<SyncPaths, SyncError>)
        ensures
            paths is Err <==> (set_value(xdg_data_home) is None && set_value(home) is None),
            paths matches Err(e) ==> e is NoHomeDirectory,
            paths matches Ok(p) ==> {
                let data = match set_value(xdg_data_home) {
                    Some(d) => d,
                    None => join_path(set_value(home)->0, ".local/share"@),
                };
                let config_dir = match set_value(xdg_config_home) {
                    Some(c) => c,
                    None => match set_value(home) {
                        Some(h) => join_path(h, ".config"@),
                        None => data,
                    },
                };
                &&& p.config@ == join_path(config_dir, "who-me/config.toml"@)
                &&& p.repository@ == join_path(join_path(data, "who-me"@), "github-sync"@)
                &&& p.archives@ == join_path(join_path(data, "who-me"@), "sync-archives"@)
                &&& p.conflicts@ == join_path(join_path(data, "who-me"@), "conflicts"@)
            },
    {
        let home = nonempty(home);
        let data = match nonempty(xdg_data_home) {
            Some(d) => d,
            None => match &home {
                Some(h) => join(h.as_str(), ".local/share"),
                None => {
                    return Err(SyncError::NoHomeDirectory);
                },
            },
        };
        let config_dir = match nonempty(xdg_config_home) {
            Some(c) => c,
            None => match &home {
                Some(h) => join(h.as_str(), ".config"),
                None => data.clone(),
            },
        };
        let base = join(data.as_str(), "who-me");
        Ok(SyncPaths {
            config: join(config_dir.as_str(), "who-me/config.toml"),
            repository: join(base.as_str(), "github-sync"),
            archives: join(base.as_str(), "sync-archives"),
            conflicts: join(base.as_str(), "conflicts"),
        })
    }

    /// The sync paths kept together below one directory.
    pub fn in_directory(root: &str) -> (paths: SyncPaths)
        ensures
            paths.config@ == join_path(root@, "config.toml"@),
            paths.repository@ == join_path(root@, "github-sync"@),
            paths.archives@ == join_path(root@, "archives"@),
            paths.conflicts@ == join_path(root@, "conflicts"@),
    {
        SyncPaths {
            config: join(root, "config.toml"),
            repository: join(root, "github-sync"),
            archives: join(root, "archives"),
            conflicts: join(root, "conflicts"),
        }
    }
}

// ---------------------------------------------------------------------------------------
// Repository addresses
// ---------------------------------------------------------------------------------------

/// Whether `s` begins with `prefix`.
pub open spec fn has_prefix(s: Seq<char>, prefix: Seq<char>) -> bool {
    prefix.len() <= s.len() && s.take(prefix.len() as int) == prefix
}

/// Whether `s` ends with `suffix`.
pub open spec fn has_suffix(s: Seq<char>, suffix: Seq<char>) -> bool {
    suffix.len() <= s.len() && s.skip(s.len() - suffix.len()) == suffix
}

/// Whether `c` occurs in `s`.
pub open spec fn has_char(s: Seq<char>, c: char) -> bool {
    exists|i: int| 0 <= i < s.len() && s[i] == c
}

/// The number of times `c` occurs in `s`.
pub open spec fn count_char(s: Seq<char>, c: char) -> nat
    decreases s.len(),
{
    if s.len() == 0 {
        0
    } else {
        count_char(s.drop_last(), c) + if s.last() == c { 1nat } else { 0nat }
    }
}

/// The repository path after the GitHub host, if the address names the host in one of
/// the accepted forms.
pub open spec fn github_path(url: Seq<char>) -> Option<Seq<char>> {
    if has_prefix(url, "https://github.com/"@) {
        Some(url.skip(19))
    } else if has_prefix(url, "git@github.com:"@) {
        Some(url.skip(15))
    } else if has_prefix(url, "ssh://git@github.com/"@) {
        Some(url.skip(21))
    } else {
        None
    }
}

/// The repository path without a trailing `.git`.
pub open spec fn without_git_suffix(path: Seq<char>) -> Seq<char> {
    if has_suffix(path, ".git"@) {
        path.take(path.len() - 4)
    } else {
        path
    }
}

/// Whether a repository path is `owner/repository`: two non-empty parts and no query,
/// fragment or space.
pub open spec fn is_owner_and_repository(path: Seq<char>) -> bool {
    &&& count_char(path, '/') == 1
    &&& path.len() > 0
    &&& path[0] != '/'
    &&& path.last() != '/'
    &&& !has_char(path, '?')
    &&& !has_char(path, '#')
    &&& !has_char(path, ' ')
}

/// The answer to a repository address: `Ok` for a GitHub repository without credentials,
/// or the message that explains the refusal.
pub open spec fn github_url_verdict(value: Seq<char>) -> Result<(), Seq<char>> {
    let url = trim(value);
    if has_char(url, '@') && has_prefix(url, "https://"@) {
        Err("URLs containing credentials are not allowed"@)
    } else {
        match github_path(url) {
            None => Err("use a GitHub HTTPS or SSH repository URL"@),
            Some(path) => if is_owner_and_repository(without_git_suffix(path)) {
                Ok(())
            } else {
                Err("expected a repository URL like https://github.com/owner/repository"@)
            },
        }
    }
}

/// Whether `chars` begins with the characters of `prefix`.
fn starts_with(chars: &Vec<char>, prefix: &str) -> (found: bool)
    ensures
        found == has_prefix(chars@, prefix@),
{
    let m = prefix.unicode_len();
    if m > chars.len() {
        return false;
    }
    let mut i: usize = 0;
    while i < m
        invariant
            m == prefix@.len(),
            m <= chars@.len(),
            i <= m,
            forall|k: int| 0 <= k < i ==> chars@[k] == prefix@[k],
        decreases m - i,
    {
        if chars[i] != prefix.get_char(i) {
            assert(chars@.take(m as int)[i as int] != prefix@[i as int]);
            return false;
        }
        i = i + 1;
    }
    assert(chars@.take(m as int) =~= prefix@);
    true
}

/// Whether `chars[from..]` ends with the characters of `suffix`.
fn ends_with(chars: &Vec<char>, from: usize, suffix: &str) -> (found: bool)
    requires
        from <= chars@.len(),
    ensures
        found == has_suffix(chars@.skip(from as int), suffix@),
{
    let ghost s = chars@.skip(from as int);
    let m = suffix.unicode_len();
    let n = chars.len();
    if m > n - from {
        return false;
    }
    let start = n - m;
    let mut i: usize = 0;
    while i < m
        invariant
            m == suffix@.len(),
            n == chars@.len(),
            start == n - m,
            from <= start,
            s == chars@.skip(from as int),
            i <= m,
            forall|k: int| 0 <= k < i ==> chars@[start + k] == suffix@[k],
        decreases m - i,
    {
        if chars[start + i] != suffix.get_char(i) {
            assert(s.skip(s.len() - m)[i as int] != suffix@[i as int]);
            return false;
        }
        i = i + 1;
    }
    assert(s.skip(s.len() - m) =~= suffix@);
    true
}

/// Whether `c` occurs in `chars[from..to]`.
fn holds_char(chars: &Vec<char>, from: usize, to: usize, c: char) -> (found: bool)
    requires
        from <= to <= chars@.len(),
    ensures
        found == has_char(chars@.subrange(from as int, to as int), c),
{
    let ghost s = chars@.subrange(from as int, to as int);
    let mut i = from;
    while i < to
        invariant
            from <= i <= to,
            to <= chars@.len(),
            s == chars@.subrange(from as int, to as int),
            forall|k: int| 0 <= k < i - from ==> s[k] != c,
        decreases to - i,
    {
        if chars[i] == c {
            assert(s[i - from] == c);
            return true;
        }
        i = i + 1;
    }
    false
}

/// The number of times `c` occurs in `chars[from..to]`.
fn count_in(chars: &Vec<char>, from: usize, to: usize, c: char) -> (count: usize)
    requires
        from <= to <= chars@.len(),
    ensures
        count == count_char(chars@.subrange(from as int, to as int), c),
{
    let mut count: usize = 0;
    let mut i = from;
    while i < to
        invariant
            from <= i <= to,
            to <= chars@.len(),
            count == count_char(chars@.subrange(from as int, i as int), c),
            count <= i - from,
        decreases to - i,
    {
        assert(chars@.subrange(from as int, i + 1).drop_last() =~= chars@.subrange(
            from as int,
            i as int,
        ));
        if chars[i] == c {
            count = count + 1;
        }
        i = i + 1;
    }
    count
}

/// Accepts a GitHub repository address given over HTTPS or SSH, without credentials, that
/// names an owner and a repository; otherwise explains the refusal.
pub fn validate_github_url(value: &str) -> (verdict: Result<(), String>)
    ensures
        verdict is Ok <==> github_url_verdict(value@) is Ok,
        verdict matches Err(m) ==> github_url_verdict(value@) == Err::<(), Seq<char>>(m@),
{
    let url = trimmed(value);
    let chars = chars_of(url.as_str());
    let n = chars.len();
    let https = starts_with(&chars, "https://");
    if https && holds_char(&chars, 0, n, '@') {
        proof {
            assert(chars@.subrange(0, n as int) =~= chars@);
        }
        return Err(String::from_str("URLs containing credentials are not allowed"));
    }
    proof {
        assert(chars@.subrange(0, n as int) =~= chars@);
        reveal_strlit("https://github.com/");
        reveal_strlit("git@github.com:");
        reveal_strlit("ssh://git@github.com/");
    }
    let start: usize = if starts_with(&chars, "https://github.com/") {
        19
    } else if starts_with(&chars, "git@github.com:") {
        15
    } else if starts_with(&chars, "ssh://git@github.com/") {
        21
    } else {
        return Err(String::from_str("use a GitHub HTTPS or SSH repository URL"));
    };
    proof {
        reveal_strlit(".git");
        assert(chars@.skip(start as int) =~= chars@.subrange(start as int, n as int));
    }
    let end: usize = if ends_with(&chars, start, ".git") {
        n - 4
    } else {
        n
    };
    let ghost path = chars@.subrange(start as int, end as int);
    assert(path =~= without_git_suffix(chars@.skip(start as int)));
    let slashes = count_in(&chars, start, end, '/');
    let fine = slashes == 1 && end > start && chars[start] != '/' && chars[end - 1] != '/'
        && !holds_char(&chars, start, end, '?') && !holds_char(&chars, start, end, '#')
        && !holds_char(&chars, start, end, ' ');
    if fine {
        Ok(())
    } else {
        Err(String::from_str("expected a repository URL like https://github.com/owner/repository"))
    }
}

// ---------------------------------------------------------------------------------------
// Configuration
// ---------------------------------------------------------------------------------------

/// Whether `c` may stand in a branch name: an ASCII letter or digit, or one of `/._-`.
pub open spec fn branch_char(c: char) -> bool {
    ||| ('a' <= c && c <= 'z')
    ||| ('A' <= c && c <= 'Z')
    ||| ('0' <= c && c <= '9')
    ||| c == '/'
    ||| c == '.'
    ||| c == '_'
    ||| c == '-'
}

/// Whether `pair` occurs in `s` as two adjacent characters.
pub open spec fn has_pair(s: Seq<char>, first: char, second: char) -> bool {
    exists|i: int| #![trigger s[i]] 0 <= i && i + 1 < s.len() && s[i] == first && s[i + 1] == second
}

/// Whether a branch name is one that sync accepts.
pub open spec fn branch_ok(branch: Seq<char>) -> bool {
    &&& branch.len() > 0
    &&& branch[0] != '-'
    &&& !has_pair(branch, '.', '.')
    &&& !has_pair(branch, '@', '{')
    &&& forall|i: int| 0 <= i < branch.len() ==> branch_char(#[trigger] branch[i])
}

/// The message for a configuration that sync refuses, or `None` when it is accepted.
pub open spec fn config_problem(config: SyncConfig) -> Option<Seq<char>> {
    if config.version != CONFIG_VERSION {
        Some("unsupported version "@ + decimal(config.version as nat))
    } else if github_url_verdict(config.repository@) is Err {
        Some(github_url_verdict(config.repository@)->Err_0)
    } else if !branch_ok(config.branch@) {
        Some("invalid Git branch name"@)
    } else {
        None
    }
}

/// A configuration that sync accepts never keeps credentials in an HTTPS address: its
/// repository, trimmed, holds no `@` when it starts with `https://`.
pub proof fn lemma_accepted_config_has_no_credentials(config: SyncConfig)
    requires
        config_problem(config) is None,
    ensures
        !(has_char(trim(config.repository@), '@') && has_prefix(trim(config.repository@), "https://"@)),
{
}

/// Whether a branch name is one that sync accepts.
pub fn valid_branch(branch: &str) -> (ok: bool)
    ensures
        ok == branch_ok(branch@),
{
    let chars = chars_of(branch);
    let n = chars.len();
    if n == 0 || chars[0] == '-' {
        return false;
    }
    let mut i: usize = 0;
    while i < n
        invariant
            n == chars@.len(),
            chars@ == branch@,
            n > 0,
            chars@[0] != '-',
            i <= n,
            forall|k: int| 0 <= k < i ==> branch_char(#[trigger] chars@[k]),
            forall|k: int| #![trigger chars@[k]] 0 <= k && k + 1 < i ==> !(chars@[k] == '.' && chars@[k + 1] == '.'),
            forall|k: int| #![trigger chars@[k]] 0 <= k && k + 1 < i ==> !(chars@[k] == '@' && chars@[k + 1] == '{'),
        decreases n - i,
    {
        let c = chars[i];
        let allowed = ('a' <= c && c <= 'z') || ('A' <= c && c <= 'Z') || ('0' <= c && c <= '9')
            || c == '/' || c == '.' || c == '_' || c == '-';
        if !allowed {
            return false;
        }
        if i > 0 && chars[i - 1] == '.' && c == '.' {
            assert(has_pair(branch@, '.', '.'));
            return false;
        }
        if i > 0 && chars[i - 1] == '@' && c == '{' {
            assert(has_pair(branch@, '@', '{'));
            return false;
        }
        i = i + 1;
    }
    true
}

/// Accepts a configuration of the current version with a valid repository address and
/// branch name.
pub fn validate_config(config: &SyncConfig) -> (verdict: Result<(), SyncError>)
    ensures
        verdict is Ok <==> config_problem(*config) is None,
        verdict matches Err(e) ==> e matches SyncError::InvalidConfig(m) && Some(m@) == config_problem(*config),
{
    if config.version != CONFIG_VERSION {
        let mut m = String::from_str("unsupported version ");
        describe_number(&mut m, config.version as u64);
        return Err(SyncError::InvalidConfig(m));
    }
    match validate_github_url(config.repository.as_str()) {
        Ok(()) => {},
        Err(m) => {
            return Err(SyncError::InvalidConfig(m));
        },
    }
    if !valid_branch(config.branch.as_str()) {
        return Err(SyncError::InvalidConfig(String::from_str("invalid Git branch name")));
    }
    Ok(())
}

// ---------------------------------------------------------------------------------------
// Status
// ---------------------------------------------------------------------------------------

impl SyncStatus {
    /// The word the header shows for the status.
    pub open spec fn label_text(&self) -> Seq<char> {
        match self {
            SyncStatus::LocalOnly => "Local"@,
            SyncStatus::Connecting => "Connecting"@,
            SyncStatus::Syncing => "Syncing"@,
            SyncStatus::Synced => "Synced"@,
            SyncStatus::Pending => "Pending"@,
            SyncStatus::Offline(_) => "Offline"@,
            SyncStatus::Error(_) => "Error"@,
            SyncStatus::Conflict(_) => "Conflict"@,
        }
    }

    /// The status before any sync is configured.
    pub fn default_status() -> (status: SyncStatus)
        ensures
            status is LocalOnly,
    {
        SyncStatus::LocalOnly
    }

    /// The word the header shows for the status.
    pub fn label(&self) -> (label: &'static str)
        ensures
            label@ == self.label_text(),
    {
        match self {
            SyncStatus::LocalOnly => "Local",
            SyncStatus::Connecting => "Connecting",
            SyncStatus::Syncing => "Syncing",
            SyncStatus::Synced => "Synced",
            SyncStatus::Pending => "Pending",
            SyncStatus::Offline(_) => "Offline",
            SyncStatus::Error(_) => "Error",
            SyncStatus::Conflict(_) => "Conflict",
        }
    }

    /// The message that goes with an offline, error or conflict status.
    pub fn detail(&self) -> (detail: Option<&str>)
        ensures
            match self {
                SyncStatus::Offline(m) | SyncStatus::Error(m) | SyncStatus::Conflict(m) => detail
                    matches Some(d) && d@ == m@,
                _ => detail is None,
            },
    {
        match self {
            SyncStatus::Offline(message) | SyncStatus::Error(message) | SyncStatus::Conflict(
                message,
            ) => Some(message.as_str()),
            _ => None,
        }
    }
}

/// The phrases of Git's messages that mean a retry will not help.
pub open spec fn permanent_failure(lower: Seq<char>) -> bool {
    ||| contains_seq(lower, "invalid github data"@)
    ||| contains_seq(lower, "authentication"@)
    ||| contains_seq(lower, "permission denied"@)
    ||| contains_seq(lower, "repository not found"@)
    ||| contains_seq(lower, "could not read username"@)
    ||| contains_seq(lower, "could not read from remote repository"@)
    ||| contains_seq(lower, "not a git repository"@)
}

/// The status for a failed Git operation: an error when the message shows that retrying
/// cannot help, and offline otherwise.
pub open spec fn failure_status(error: String) -> SyncStatus {
    if permanent_failure(lowercase(error@)) {
        SyncStatus::Error(error)
    } else {
        SyncStatus::Offline(error)
    }
}

/// The status for a failed Git operation: an error when the message shows that retrying
/// cannot help, and offline otherwise.
pub fn git_failure_status(error: String) -> (status: SyncStatus)
    ensures
        status == failure_status(error),
{
    let lower = crate::text::lowercase_of(error.as_str());
    let l = lower.as_str();
    if crate::text::occurs(l, "invalid github data") || crate::text::occurs(l, "authentication")
        || crate::text::occurs(l, "permission denied") || crate::text::occurs(
        l,
        "repository not found",
    ) || crate::text::occurs(l, "could not read username") || crate::text::occurs(
        l,
        "could not read from remote repository",
    ) || crate::text::occurs(l, "not a git repository") {
        SyncStatus::Error(error)
    } else {
        SyncStatus::Offline(error)
    }
}

/// A failed Git operation whose message, ignoring case, speaks of authentication, of
/// permission denied, of a repository not found or not a Git repository, of a username or
/// a remote repository that could not be read, or of invalid GitHub data, is a permanent
/// error, never offline: retrying cannot help. Any other failure is offline. Either way the
/// status carries the message.
pub proof fn lemma_failure_status_by_phrase(error: String)
    ensures
        ({
            let lower = lowercase(error@);
            contains_seq(lower, "authentication"@) || contains_seq(lower, "permission denied"@)
                || contains_seq(lower, "repository not found"@) || contains_seq(lower, "not a git repository"@)
                || contains_seq(lower, "could not read username"@)
                || contains_seq(lower, "could not read from remote repository"@)
                || contains_seq(lower, "invalid github data"@)
        }) ==> failure_status(error) == SyncStatus::Error(error),
        !({
            let lower = lowercase(error@);
            contains_seq(lower, "authentication"@) || contains_seq(lower, "permission denied"@)
                || contains_seq(lower, "repository not found"@) || contains_seq(lower, "not a git repository"@)
                || contains_seq(lower, "could not read username"@)
                || contains_seq(lower, "could not read from remote repository"@)
                || contains_seq(lower, "invalid github data"@)
        }) ==> failure_status(error) == SyncStatus::Offline(error),
{
}

/// A character found at a position is counted.
proof fn lemma_count_char_found(s: Seq<char>, c: char, i: int)
    requires
        0 <= i < s.len(),
        s[i] == c,
    ensures
        count_char(s, c) >= 1,
    decreases s.len(),
{
    if i < s.len() - 1 {
        lemma_count_char_found(s.drop_last(), c, i);
    }
}

/// A character found at two positions is counted at least twice.
proof fn lemma_count_char_found_twice(s: Seq<char>, c: char, i: int, j: int)
    requires
        0 <= i < j < s.len(),
        s[i] == c,
        s[j] == c,
    ensures
        count_char(s, c) >= 2,
    decreases s.len(),
{
    if j < s.len() - 1 {
        lemma_count_char_found_twice(s.drop_last(), c, i, j);
    } else {
        lemma_count_char_found(s.drop_last(), c, i);
    }
}

/// A character counted at least once is found somewhere.
proof fn lemma_count_char_somewhere(s: Seq<char>, c: char)
    requires
        count_char(s, c) >= 1,
    ensures
        exists|k: int| 0 <= k < s.len() && s[k] == c,
    decreases s.len(),
{
    if s.last() != c {
        lemma_count_char_somewhere(s.drop_last(), c);
        let k = choose|k: int| 0 <= k < s.drop_last().len() && s.drop_last()[k] == c;
        assert(s[k] == c);
    } else {
        assert(s[s.len() - 1] == c);
    }
}

/// An accepted repository address names exactly an owner and a repository: its path after
/// the GitHub host, without a trailing `.git`, is two non-empty parts that hold no `/`,
/// joined by a single `/`.
pub proof fn lemma_accepted_url_names_owner_and_repository(value: Seq<char>)
    requires
        github_url_verdict(value) is Ok,
    ensures
        github_path(trim(value)) is Some,
        exists|owner: Seq<char>, repository: Seq<char>|
            owner.len() > 0 && repository.len() > 0 && !has_char(owner, '/') && !has_char(repository, '/')
                && without_git_suffix(github_path(trim(value))->0) == #[trigger] (owner + seq!['/'] + repository),
        !has_char(without_git_suffix(github_path(trim(value))->0), '?'),
        !has_char(without_git_suffix(github_path(trim(value))->0), '#'),
        !has_char(without_git_suffix(github_path(trim(value))->0), ' '),
        !(has_prefix(trim(value), "https://"@) && has_char(trim(value), '@')),
{
    let path = without_git_suffix(github_path(trim(value))->0);
    assert(count_char(path, '/') == 1);
    lemma_count_char_somewhere(path, '/');
    let k = choose|k: int| 0 <= k < path.len() && path[k] == '/';
    let owner = path.take(k);
    let repository = path.skip(k + 1);
    assert forall|i: int| 0 <= i < owner.len() implies owner[i] != '/' by {
        if owner[i] == '/' {
            lemma_count_char_found_twice(path, '/', i, k);
        }
    }
    assert forall|i: int| 0 <= i < repository.len() implies repository[i] != '/' by {
        if repository[i] == '/' {
            lemma_count_char_found_twice(path, '/', k, k + 1 + i);
        }
    }
    assert(k != 0);
    assert(k != path.len() - 1);
    assert(owner + seq!['/'] + repository =~= path);
}

/// An address whose repository path holds a second `/`, such as
/// `https://github.com/owner/repository/tree/main`, is refused.
pub proof fn lemma_deeper_paths_refused(value: Seq<char>, i: int, j: int)
    requires
        github_path(trim(value)) is Some,
        0 <= i < j < without_git_suffix(github_path(trim(value))->0).len(),
        without_git_suffix(github_path(trim(value))->0)[i] == '/',
        without_git_suffix(github_path(trim(value))->0)[j] == '/',
    ensures
        github_url_verdict(value) is Err,
{
    lemma_count_char_found_twice(without_git_suffix(github_path(trim(value))->0), '/', i, j);
}

/// What to do with a repository's local Git identity setting.
#[derive(Clone, Copy, Debug, PartialEq, Eq, Structural)]
pub enum IdentityAction {
    Unset,
    Keep,
    Fail,
}

/// The decision for one local identity setting, given the exit code of
/// `git config --local --get` and what it printed: a value that the app once wrote itself
/// is removed, any other value or none is kept, and any other exit is a failure.
pub fn legacy_identity_action(exit_code: Option<i32>, output: &str, legacy_value: &str) -> (action:
    IdentityAction)
    ensures
        exit_code == Some(0i32) && trim(output@) == legacy_value@ ==> action is Unset,
        exit_code == Some(0i32) && trim(output@) != legacy_value@ ==> action is Keep,
        exit_code == Some(1i32) ==> action is Keep,
        exit_code != Some(0i32) && exit_code != Some(1i32) ==> action is Fail,
{
    match exit_code {
        Some(0) => {
            let value = trimmed(output);
            if crate::model::equal_text(value.as_str(), legacy_value) {
                IdentityAction::Unset
            } else {
                IdentityAction::Keep
            }
        },
        Some(1) => IdentityAction::Keep,
        _ => IdentityAction::Fail,
    }
}

/// The branch named by the output of `git symbolic-ref --short HEAD`: its trimmed text, or
/// an error when that is empty.
pub fn branch_from_output(output: &str) -> (branch: Result<String, String>)
    ensures
        branch matches Ok(b) ==> b@ == trim(output@) && b@.len() > 0,
        branch is Err <==> trim(output@).len() == 0,
        branch matches Err(m) ==> m@ == "could not determine the repository branch"@,
{
    let value = trimmed(output);
    if value.as_str().unicode_len() == 0 {
        Err(String::from_str("could not determine the repository branch"))
    } else {
        Ok(value)
    }
}


impl SyncError {
    /// What the error says.
    pub open spec fn message_text(self) -> Seq<char> {
        match self {
            SyncError::NoHomeDirectory => "HOME is not set; cannot determine sync paths"@,
            SyncError::Io { path, message } => path@ + ": "@ + message@,
            SyncError::InvalidConfig(reason) => "invalid sync configuration: "@ + reason@,
        }
    }

    /// What the error says.
    pub fn message(&self) -> (text: String)
        ensures
            text@ == self.message_text(),
    {
        match self {
            SyncError::NoHomeDirectory => String::from_str("HOME is not set; cannot determine sync paths"),
            SyncError::Io { path, message } => {
                let mut text = String::from_str(path.as_str());
                text.append(": ");
                text.append(message.as_str());
                text
            },
            SyncError::InvalidConfig(reason) => {
                let mut text = String::from_str("invalid sync configuration: ");
                text.append(reason.as_str());
                text
            },
        }
    }
}

/// The pieces of `s` between line breaks, the last one being read.
pub open spec fn pieces_read(s: Seq<char>) -> (Seq<Seq<char>>, Seq<char>)
    decreases s.len(),
{
    if s.len() == 0 {
        (Seq::empty(), Seq::empty())
    } else {
        let (done, current) = pieces_read(s.drop_last());
        if s.last() == '\n' {
            (done.push(current), Seq::empty())
        } else {
            (done, current.push(s.last()))
        }
    }
}

/// The pieces of `s` between line breaks.
pub open spec fn pieces(s: Seq<char>) -> Seq<Seq<char>> {
    pieces_read(s).0.push(pieces_read(s).1)
}

/// The pieces trimmed, without the blank ones: the lines of text that say something.
pub open spec fn kept_lines(ps: Seq<Seq<char>>) -> Seq<Seq<char>>
    decreases ps.len(),
{
    if ps.len() == 0 {
        Seq::empty()
    } else {
        let rest = kept_lines(ps.drop_last());
        if trim(ps.last()).len() > 0 {
            rest.push(trim(ps.last()))
        } else {
            rest
        }
    }
}

/// Whether a line of Git's output tells what went wrong: it starts with `fatal:` or
/// `error:`, or speaks of authentication, permissions, a missing repository, or
/// something Git could not do (ignoring case).
pub open spec fn telling(line: Seq<char>) -> bool {
    let lower = lowercase(line);
    ||| has_prefix(lower, "fatal:"@)
    ||| has_prefix(lower, "error:"@)
    ||| contains_seq(lower, "authentication"@)
    ||| contains_seq(lower, "permission denied"@)
    ||| contains_seq(lower, "repository not found"@)
    ||| contains_seq(lower, "could not"@)
}

/// The first line that tells what went wrong, if any.
pub open spec fn first_telling(lines: Seq<Seq<char>>) -> Option<Seq<char>>
    decreases lines.len(),
{
    if lines.len() == 0 {
        None
    } else if telling(lines[0]) {
        Some(lines[0])
    } else {
        first_telling(lines.skip(1))
    }
}

/// The message for a failed Git command: the first line of its error output, then of its
/// output, that tells what went wrong; else the first line; else a general message.
pub open spec fn command_error_text(stderr: Seq<char>, stdout: Seq<char>) -> Seq<char> {
    let lines = kept_lines(pieces(stderr) + pieces(stdout));
    match first_telling(lines) {
        Some(line) => line,
        None => if lines.len() > 0 {
            lines[0]
        } else {
            "git command failed"@
        },
    }
}

/// Whether `s` begins with `prefix`.
pub fn starts_with_text(s: &str, prefix: &str) -> (starts: bool)
    ensures
        starts == has_prefix(s@, prefix@),
{
    let n = prefix.unicode_len();
    if n > s.unicode_len() {
        return false;
    }
    let mut i: usize = 0;
    while i < n
        invariant
            n == prefix@.len(),
            n <= s@.len(),
            i <= n,
            forall|k: int| 0 <= k < i ==> s@[k] == prefix@[k],
        decreases n - i,
    {
        if s.get_char(i) != prefix.get_char(i) {
            assert(s@.take(n as int)[i as int] != prefix@[i as int]);
            return false;
        }
        i = i + 1;
    }
    assert(s@.take(n as int) =~= prefix@);
    true
}

/// Whether a line of Git's output tells what went wrong.
fn is_telling(line: &str) -> (tells: bool)
    ensures
        tells == telling(line@),
{
    let lower = crate::text::lowercase_of(line);
    let l = lower.as_str();
    starts_with_text(l, "fatal:") || starts_with_text(l, "error:") || crate::text::occurs(
        l,
        "authentication",
    ) || crate::text::occurs(l, "permission denied") || crate::text::occurs(l, "repository not found")
        || crate::text::occurs(l, "could not")
}

/// Adds the trimmed lines of `text` that are not blank to `lines`.
fn push_kept_lines(lines: &mut Vec<String>, text: &str)
    ensures
        crate::cli::texts(final(lines)@) == crate::cli::texts(old(lines)@) + kept_lines(pieces(text@)),
{
    let chars = chars_of(text);
    let mut current = String::new();
    let mut i: usize = 0;
    let ghost start = crate::cli::texts(lines@);
    while i < chars.len()
        invariant
            i <= chars@.len(),
            chars@ == text@,
            crate::cli::texts(lines@) == start + kept_lines(pieces_read(chars@.take(i as int)).0),
            current@ == pieces_read(chars@.take(i as int)).1,
        decreases chars@.len() - i,
    {
        proof {
            assert(chars@.take(i + 1).drop_last() =~= chars@.take(i as int));
        }
        let c = chars[i];
        if c == '\n' {
            let line = trimmed(current.as_str());
            let ghost before = crate::cli::texts(lines@);
            let ghost done = pieces_read(chars@.take(i as int)).0;
            if line.as_str().unicode_len() > 0 {
                lines.push(line);
                proof {
                    assert(crate::cli::texts(lines@) =~= before.push(trim(current@)));
                }
            }
            proof {
                assert(done.push(current@).drop_last() =~= done);
                assert(start + kept_lines(done.push(current@)) =~= crate::cli::texts(lines@));
            }
            current = String::new();
        } else {
            push_char(&mut current, c);
        }
        i = i + 1;
    }
    proof {
        assert(chars@.take(chars@.len() as int) =~= text@);
    }
    let line = trimmed(current.as_str());
    let ghost before = crate::cli::texts(lines@);
    let ghost done = pieces_read(text@).0;
    if line.as_str().unicode_len() > 0 {
        lines.push(line);
        proof {
            assert(crate::cli::texts(lines@) =~= before.push(trim(current@)));
        }
    }
    proof {
        assert(done.push(current@).drop_last() =~= done);
        assert(start + kept_lines(done.push(current@)) =~= crate::cli::texts(lines@));
    }
}

/// Keeping the lines of two texts is keeping those of each in turn.
pub proof fn lemma_kept_lines_concat(a: Seq<Seq<char>>, b: Seq<Seq<char>>)
    ensures
        kept_lines(a + b) == kept_lines(a) + kept_lines(b),
    decreases b.len(),
{
    if b.len() == 0 {
        assert(a + b =~= a);
        assert(kept_lines(a) + kept_lines(b) =~= kept_lines(a));
    } else {
        lemma_kept_lines_concat(a, b.drop_last());
        assert((a + b).drop_last() =~= a + b.drop_last());
        assert((a + b).last() == b.last());
        if trim(b.last()).len() > 0 {
            assert(kept_lines(a) + kept_lines(b.drop_last()).push(trim(b.last())) =~= (kept_lines(a)
                + kept_lines(b.drop_last())).push(trim(b.last())));
        }
    }
}

/// The message for a failed Git command, from what it wrote to its error output and to
/// its output.
pub fn command_error(stderr: &str, stdout: &str) -> (message: String)
    ensures
        message@ == command_error_text(stderr@, stdout@),
{
    let mut lines: Vec<String> = Vec::new();
    push_kept_lines(&mut lines, stderr);
    push_kept_lines(&mut lines, stdout);
    let ghost all = kept_lines(pieces(stderr@) + pieces(stdout@));
    proof {
        lemma_kept_lines_concat(pieces(stderr@), pieces(stdout@));
        assert(crate::cli::texts(lines@) =~= all);
        assert(all.skip(0) =~= all);
    }
    let mut i: usize = 0;
    while i < lines.len()
        invariant
            i <= lines@.len(),
            crate::cli::texts(lines@) == all,
            all == kept_lines(pieces(stderr@) + pieces(stdout@)),
            first_telling(all) == first_telling(all.skip(i as int)),
        decreases lines@.len() - i,
    {
        proof {
            assert(all.skip(i as int)[0] == lines@[i as int]@);
            assert(all.skip(i as int).skip(1) =~= all.skip(i + 1));
        }
        if is_telling(lines[i].as_str()) {
            proof {
                assert(first_telling(all.skip(i as int)) == Some(lines@[i as int]@));
            }
            return lines[i].clone();
        }
        i = i + 1;
    }
    if lines.len() > 0 {
        proof {
            assert(all.skip(lines@.len() as int) =~= Seq::<Seq<char>>::empty());
        }
        return lines[0].clone();
    }
    proof {
        assert(all.skip(0) =~= all);
    }
    String::from_str("git command failed")
}

/// Whether `git show` failed because the data file is not in that revision.
pub fn is_missing_file_error(error: &str) -> (missing: bool)
    ensures
        missing == (contains_seq(error@, "does not exist"@) || contains_seq(error@, "exists on disk"@)),
{
    crate::text::occurs(error, "does not exist") || crate::text::occurs(error, "exists on disk")
}

/// What to do with the data on first connecting to a repository.
#[derive(Clone, Copy, Debug, PartialEq, Eq, Structural)]
pub enum FirstConnection {
    /// Both sides have identities and they differ: the user must choose.
    Conflict,
    /// Only GitHub has identities: take its copy.
    TakeRemote,
    /// Otherwise: merge the local copy into GitHub's.
    Merge,
}

/// The decision on first connecting: a conflict when both copies have identities and
/// differ, GitHub's copy when only it has identities, else a merge; always a merge later.
pub open spec fn first_connection_verdict(first_connection: bool, local: crate::model::Document, remote: Option<crate::model::Document>) -> FirstConnection {
    match remote {
        Some(r) => if first_connection && local.topics@.len() > 0 && r.topics@.len() > 0
            && !crate::model::same_document(r, local) {
            FirstConnection::Conflict
        } else if first_connection && local.topics@.len() == 0 && r.topics@.len() > 0 {
            FirstConnection::TakeRemote
        } else {
            FirstConnection::Merge
        },
        None => FirstConnection::Merge,
    }
}

/// The decision on first connecting (or on any later synchronisation when
/// `first_connection` is false): a conflict when both copies have identities and differ,
/// GitHub's copy when only it has identities, else a merge.
pub fn first_connection_choice(first_connection: bool, local: &crate::model::Document, remote: &Option<crate::model::Document>) -> (choice: FirstConnection)
    ensures
        choice == first_connection_verdict(first_connection, *local, *remote),
{
    if first_connection {
        match remote {
            Some(r) => {
                if local.topics.len() > 0 && r.topics.len() > 0 && !r.same_as(local) {
                    return FirstConnection::Conflict;
                }
                if local.topics.len() == 0 && r.topics.len() > 0 {
                    return FirstConnection::TakeRemote;
                }
            },
            None => {},
        }
    }
    FirstConnection::Merge
}

/// What to do after `git diff --cached --quiet` exits with `exit_code`.
#[derive(Clone, Copy, Debug, PartialEq, Eq, Structural)]
pub enum StagedChanges {
    /// Nothing changed: there is nothing to commit.
    Unchanged,
    /// Something changed: commit it.
    Commit,
    /// Git failed.
    Fail,
}

/// The step after checking for staged changes: exit 0 means none, exit 1 means some,
/// anything else is a failure.
pub fn staged_changes(exit_code: Option<i32>) -> (step: StagedChanges)
    ensures
        step is Unchanged <==> exit_code == Some(0i32),
        step is Commit <==> exit_code == Some(1i32),
        step is Fail <==> (exit_code != Some(0i32) && exit_code != Some(1i32)),
{
    match exit_code {
        Some(0) => StagedChanges::Unchanged,
        Some(1) => StagedChanges::Commit,
        _ => StagedChanges::Fail,
    }
}

} // verus!
