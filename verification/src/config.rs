//! The settings of a deck, read from the variables of its environment.

use vstd::prelude::*;
use vstd::string::StrSliceExecFns;

use crate::decimal;
use crate::outside;
use crate::paths;
use crate::text;
use crate::text::CharSet;

verus! {

/// The slots that are made where none are configured.
pub const DEFAULT_AGENT_SLOTS: &'static str = "codex";

/// How many characters the name of a slot can have.
pub const MAX_AGENT_SLOT_CHARS: usize = 32;

/// The most hours that a span of time can have.
pub const MAX_TTL_HOURS: i64 = 2562047788015;

/// A slot that should exist, and the folder it works in.
#[derive(Debug)]
pub struct AgentSlotSeed {
    pub name: String,
    pub workdir: String,
}

/// A link on the home page.
#[derive(Debug)]
pub struct Link {
    pub name: String,
    pub url: String,
    pub category: String,
    pub description: String,
}

/// The settings of a deck.
pub struct Config {
    pub bind: String,
    pub db_path: String,
    pub download_dir: String,
    pub agent_default_workdir: String,
    pub agent_upload_dir: String,
    pub agent_codex_bin: String,
    pub agent_codex_args: Vec<String>,
    pub codex_home: String,
    pub codex_reset_command: Option<Vec<String>>,
    pub agent_slots: Vec<AgentSlotSeed>,
    pub ytdlp: String,
    pub js_runtime: Option<String>,
    pub max_active: usize,
    pub job_ttl_hours: i64,
    pub user: String,
    pub password_hash: Option<String>,
    pub cookie_secret: Vec<u8>,
    pub auth_disabled: bool,
    pub links: Vec<Link>,
}

/// The variables that the settings are read from, and what the machine says:
/// the home directory, the agent's command where none is set, whether the
/// runtime's path exists, and the links of the file that is named.
pub struct Variables {
    pub bind: Option<String>,
    pub db: Option<String>,
    pub download_dir: Option<String>,
    pub agent_default_workdir: Option<String>,
    pub agent_upload_dir: Option<String>,
    pub agent_codex_bin: Option<String>,
    pub agent_codex_args: Option<String>,
    pub codex_home: Option<String>,
    pub codex_reset_command: Option<String>,
    pub agent_slots: Option<String>,
    pub ytdlp: Option<String>,
    pub js_runtime: Option<String>,
    pub max_active: Option<String>,
    pub job_ttl_hours: Option<String>,
    pub user: Option<String>,
    pub password_hash: Option<String>,
    pub auth_disabled: Option<String>,
    pub cookie_secret: Option<String>,
    pub home: String,
    pub default_codex_bin: String,
    pub js_runtime_exists: bool,
    pub links: Vec<Link>,
}

/// Why the settings cannot be used.
#[derive(Clone, Copy, Debug, PartialEq, Eq, Structural)]
pub enum ConfigError {
    /// There is no password, and passwords are not switched off.
    MissingPassword,
}

impl ConfigError {
    pub fn message(&self) -> (res: &'static str)
        ensures
            res@ == "PLUGDECK_PASSWORD_HASH is required unless PLUGDECK_AUTH_DISABLED=1"@,
    {
        match self {
            ConfigError::MissingPassword =>
                "PLUGDECK_PASSWORD_HASH is required unless PLUGDECK_AUTH_DISABLED=1",
        }
    }
}

#[verifier::ext_equal]
pub struct SeedView {
    pub name: Seq<char>,
    pub workdir: Seq<char>,
}

#[verifier::ext_equal]
pub struct LinkView {
    pub name: Seq<char>,
    pub url: Seq<char>,
    pub category: Seq<char>,
    pub description: Seq<char>,
}

#[verifier::ext_equal]
pub struct ConfigView {
    pub bind: Seq<char>,
    pub db_path: Seq<char>,
    pub download_dir: Seq<char>,
    pub agent_default_workdir: Seq<char>,
    pub agent_upload_dir: Seq<char>,
    pub agent_codex_bin: Seq<char>,
    pub agent_codex_args: Seq<Seq<char>>,
    pub codex_home: Seq<char>,
    pub codex_reset_command: Option<Seq<Seq<char>>>,
    pub agent_slots: Seq<SeedView>,
    pub ytdlp: Seq<char>,
    pub js_runtime: Option<Seq<char>>,
    pub max_active: int,
    pub job_ttl_hours: int,
    pub user: Seq<char>,
    pub password_hash: Option<Seq<char>>,
    pub cookie_secret: Seq<u8>,
    pub auth_disabled: bool,
    pub links: Seq<LinkView>,
}

impl View for AgentSlotSeed {
    type V = SeedView;

    open spec fn view(&self) -> SeedView {
        SeedView { name: self.name@, workdir: self.workdir@ }
    }
}

impl View for Link {
    type V = LinkView;

    open spec fn view(&self) -> LinkView {
        LinkView {
            name: self.name@,
            url: self.url@,
            category: self.category@,
            description: self.description@,
        }
    }
}

pub open spec fn seed_views(seeds: Seq<AgentSlotSeed>) -> Seq<SeedView> {
    seeds.map_values(|s: AgentSlotSeed| s@)
}

pub open spec fn link_views(links: Seq<Link>) -> Seq<LinkView> {
    links.map_values(|l: Link| l@)
}

pub open spec fn opt_texts(list: Option<Vec<String>>) -> Option<Seq<Seq<char>>> {
    match list {
        Some(list) => Some(text::texts(list@)),
        None => None,
    }
}

impl View for Config {
    type V = ConfigView;

    open spec fn view(&self) -> ConfigView {
        ConfigView {
            bind: self.bind@,
            db_path: self.db_path@,
            download_dir: self.download_dir@,
            agent_default_workdir: self.agent_default_workdir@,
            agent_upload_dir: self.agent_upload_dir@,
            agent_codex_bin: self.agent_codex_bin@,
            agent_codex_args: text::texts(self.agent_codex_args@),
            codex_home: self.codex_home@,
            codex_reset_command: opt_texts(self.codex_reset_command),
            agent_slots: seed_views(self.agent_slots@),
            ytdlp: self.ytdlp@,
            js_runtime: text::opt_text(self.js_runtime),
            max_active: self.max_active as int,
            job_ttl_hours: self.job_ttl_hours as int,
            user: self.user@,
            password_hash: text::opt_text(self.password_hash),
            cookie_secret: self.cookie_secret@,
            auth_disabled: self.auth_disabled,
            links: link_views(self.links@),
        }
    }
}

// ---------------------------------------------------------------------------
// Single values
// ---------------------------------------------------------------------------

fn value_or(value: Option<String>, other: &str) -> (res: String)
    ensures
        res@ == text::text_or(text::opt_text(value), other@),
{
    match value {
        Some(value) => value,
        None => other.to_owned(),
    }
}

/// The words of a command line.
pub fn split_env_args(value: &str) -> (res: Vec<String>)
    ensures
        text::texts(res@) == text::words(value@),
{
    text::split_words(value)
}

/// Whether a value switches a flag on.
pub open spec fn is_on(value: Seq<char>) -> bool {
    let value = text::lowered(text::trimmed(value));
    value == "1"@ || value == "true"@ || value == "yes"@ || value == "on"@
}

/// The state of a flag, with `default` where it is not set.
pub open spec fn flag_of(value: Option<Seq<char>>, default: bool) -> bool {
    match value {
        Some(value) => is_on(value),
        None => default,
    }
}

/// Reads a flag.
pub fn env_flag(value: Option<&str>, default: bool) -> (res: bool)
    ensures
        res == flag_of(text::opt_str(value), default),
{
    match value {
        Some(value) => {
            let value = text::lower(text::trim(value));
            text::same(value.as_str(), "1") || text::same(value.as_str(), "true") || text::same(
                value.as_str(),
                "yes",
            ) || text::same(value.as_str(), "on")
        },
        None => default,
    }
}

/// The name of a slot: letters, digits, `-` and `_`, in lower case.
pub open spec fn slot_name(value: Seq<char>) -> Seq<char> {
    text::lowered(text::kept(text::trimmed(value), CharSet::SlotName))
}

pub fn normalize_agent_slot_name(value: &str) -> (res: String)
    ensures
        res@ == slot_name(value@),
{
    let name = text::keep(text::trim(value), CharSet::SlotName);
    text::lower(name.as_str())
}

/// The slot that one item of a list means: a name, and after a colon the
/// folder. An item with an empty or overlong name means none.
pub open spec fn seed_of(item: Seq<char>, default_workdir: Seq<char>, home: Seq<char>) -> Option<
    SeedView,
> {
    let item = text::trimmed(item);
    let (name, workdir) = match text::split_at_first(item, ':') {
        Some((name, workdir)) => (slot_name(name), paths::expanded(workdir, home)),
        None => (slot_name(item), default_workdir),
    };
    if name.len() == 0 || name.len() > MAX_AGENT_SLOT_CHARS {
        None
    } else {
        Some(SeedView { name, workdir })
    }
}

pub open spec fn seeds_of(
    items: Seq<Seq<char>>,
    default_workdir: Seq<char>,
    home: Seq<char>,
) -> Seq<SeedView>
    decreases items.len(),
{
    if items.len() == 0 {
        Seq::empty()
    } else {
        let before = seeds_of(items.drop_last(), default_workdir, home);
        match seed_of(items.last(), default_workdir, home) {
            Some(seed) => before.push(seed),
            None => before,
        }
    }
}

/// The slots that a list with commas means; the default ones where there is no list.
pub open spec fn slot_seeds(
    raw: Option<Seq<char>>,
    default_workdir: Seq<char>,
    home: Seq<char>,
) -> Seq<SeedView> {
    let raw = match raw {
        Some(raw) => raw,
        None => DEFAULT_AGENT_SLOTS@,
    };
    seeds_of(text::split_on(raw, ','), default_workdir, home)
}

fn read_seed(item: &str, default_workdir: &str, home: &str) -> (res: Option<AgentSlotSeed>)
    ensures
        match res {
            Some(seed) => seed_of(item@, default_workdir@, home@) == Some(seed@),
            None => seed_of(item@, default_workdir@, home@) is None,
        },
{
    let item = text::trim(item);
    let (name, workdir) = match text::split_once(item, ':') {
        Some((name, workdir)) => (
            normalize_agent_slot_name(name),
            paths::expand_local_path(workdir, home),
        ),
        None => (normalize_agent_slot_name(item), default_workdir.to_owned()),
    };
    let length = name.as_str().unicode_len();
    if length == 0 || length > MAX_AGENT_SLOT_CHARS {
        None
    } else {
        Some(AgentSlotSeed { name, workdir })
    }
}

pub fn parse_agent_slot_seeds(raw: Option<&str>, default_workdir: &str, home: &str) -> (res: Vec<
    AgentSlotSeed,
>)
    ensures
        seed_views(res@) == slot_seeds(text::opt_str(raw), default_workdir@, home@),
{
    let raw = match raw {
        Some(raw) => raw,
        None => DEFAULT_AGENT_SLOTS,
    };
    let items = text::split(raw, ',');
    let ghost all = text::texts(items@);
    let mut seeds: Vec<AgentSlotSeed> = Vec::new();
    let mut i: usize = 0;
    assert(seed_views(seeds@) =~= Seq::empty());
    while i < items.len()
        invariant
            i <= items@.len(),
            all == text::texts(items@),
            seed_views(seeds@) == seeds_of(all.take(i as int), default_workdir@, home@),
        decreases items@.len() - i,
    {
        assert(all.take(i + 1).drop_last() =~= all.take(i as int));
        assert(all[i as int] == items@[i as int]@);
        if let Some(seed) = read_seed(items[i].as_str(), default_workdir, home) {
            let ghost prior = seeds@;
            seeds.push(seed);
            assert(seed_views(seeds@) =~= seed_views(prior).push(seed@));
        }
        i += 1;
    }
    assert(all.take(i as int) =~= all);
    seeds
}

/// Where the user's own launcher of the agent would be.
pub open spec fn launcher_path(home: Seq<char>) -> Seq<char> {
    paths::under(home, ".local/bin/codexunsafe"@)
}

pub fn launcher_alias(home: &str) -> (res: String)
    ensures
        res@ == launcher_path(home@),
{
    paths::join(home, ".local/bin/codexunsafe")
}

/// The agent's command where none is set: the launcher that the search path
/// has, else the user's own, else the plain command.
pub fn default_codex_bin(launcher_in_path: bool, launcher_in_home: bool, home: &str) -> (res: String)
    ensures
        res@ == if launcher_in_path {
            "codexunsafe"@
        } else if launcher_in_home {
            launcher_path(home@)
        } else {
            "codex"@
        },
{
    if launcher_in_path {
        "codexunsafe".to_owned()
    } else if launcher_in_home {
        launcher_alias(home)
    } else {
        "codex".to_owned()
    }
}

/// The agent's command line, for people to read.
pub fn agent_command_label(config: &Config) -> (res: String)
    ensures
        res@ == command_label(config@),
{
    let mut parts: Vec<String> = Vec::new();
    parts.push(config.agent_codex_bin.clone());
    let mut i: usize = 0;
    let ghost all = command_parts(config@);
    assert(text::texts(parts@) =~= all.take(1));
    while i < config.agent_codex_args.len()
        invariant
            i <= config.agent_codex_args@.len(),
            all == command_parts(config@),
            text::texts(parts@) == all.take(i + 1),
        decreases config.agent_codex_args@.len() - i,
    {
        let part = config.agent_codex_args[i].clone();
        let ghost prior = parts@;
        parts.push(part);
        assert(text::texts(parts@) =~= text::texts(prior).push(part@));
        assert(all.take(i + 2) =~= all.take(i + 1).push(all[i + 1]));
        i += 1;
    }
    assert(all.take(i + 1) =~= all);
    text::join(&parts, " ")
}

pub open spec fn command_parts(config: ConfigView) -> Seq<Seq<char>> {
    seq![config.agent_codex_bin] + config.agent_codex_args
}

pub open spec fn command_label(config: ConfigView) -> Seq<char> {
    text::joined(command_parts(config), " "@)
}

// ---------------------------------------------------------------------------
// All settings
// ---------------------------------------------------------------------------

/// A number above zero; `default` where the text is none.
pub open spec fn positive_or(value: Option<int>, default: int) -> int {
    match value {
        Some(n) => if n > 0 {
            n
        } else {
            default
        },
        None => default,
    }
}

/// How many hours a finished download is kept.
pub open spec fn ttl_hours(value: Option<String>) -> int {
    match value {
        Some(value) => match decimal::parsed_i64(value@) {
            Some(n) => positive_or(Some(n as int), 24),
            None => 24,
        },
        None => 24,
    }
}

/// How many downloads run at a time.
pub open spec fn active_limit(value: Option<String>) -> int {
    match value {
        Some(value) => positive_or(decimal::parsed_up_to(value@, usize::MAX as nat), 1),
        None => 1,
    }
}

/// The text, unless it is blank.
pub open spec fn unless_blank(value: Option<String>) -> Option<Seq<char>> {
    match value {
        Some(value) => if text::is_blank(value@) {
            None
        } else {
            Some(value@)
        },
        None => None,
    }
}

/// The secret that sessions are signed with: the one that is set, if it has 32
/// bytes or more, and a fresh one otherwise.
pub open spec fn secret_of(value: Option<String>, fresh: Seq<u8>) -> Seq<u8> {
    match value {
        Some(value) => match outside::hex_bytes(text::trimmed(value@)) {
            Some(bytes) => if bytes.len() >= 32 {
                bytes
            } else {
                fresh
            },
            None => fresh,
        },
        None => fresh,
    }
}

/// The words of a command, unless there are none.
pub open spec fn command_of(value: Option<String>) -> Option<Seq<Seq<char>>> {
    match value {
        Some(value) => if text::words(value@).len() == 0 {
            None
        } else {
            Some(text::words(value@))
        },
        None => None,
    }
}

/// The settings cannot be used: there is no password, and passwords are not switched off.
pub open spec fn lacks_password(vars: Variables) -> bool {
    unless_blank(vars.password_hash) is None && !flag_of(text::opt_text(vars.auth_disabled), false)
}

/// The settings that the variables mean.
pub open spec fn settings(vars: Variables, fresh_secret: Seq<u8>) -> ConfigView {
    let home = vars.home@;
    let download_dir = text::text_or(text::opt_text(vars.download_dir), "data/downloads"@);
    let workdir = match vars.agent_default_workdir {
        Some(value) => paths::expanded(value@, home),
        None => home,
    };
    ConfigView {
        bind: text::text_or(text::opt_text(vars.bind), "127.0.0.1:8789"@),
        db_path: text::text_or(text::opt_text(vars.db), "data/plugdeck.sqlite"@),
        download_dir,
        agent_default_workdir: workdir,
        agent_upload_dir: text::text_or(
            text::opt_text(vars.agent_upload_dir),
            paths::under(download_dir, "agent-uploads"@),
        ),
        agent_codex_bin: text::text_or(text::opt_text(vars.agent_codex_bin), vars.default_codex_bin@),
        agent_codex_args: match vars.agent_codex_args {
            Some(value) => text::words(value@),
            None => Seq::empty(),
        },
        codex_home: text::text_or(text::opt_text(vars.codex_home), paths::under(home, ".codex"@)),
        codex_reset_command: command_of(vars.codex_reset_command),
        agent_slots: slot_seeds(text::opt_text(vars.agent_slots), workdir, home),
        ytdlp: text::text_or(text::opt_text(vars.ytdlp), "yt-dlp"@),
        js_runtime: if vars.js_runtime_exists {
            unless_blank(vars.js_runtime)
        } else {
            None
        },
        max_active: active_limit(vars.max_active),
        job_ttl_hours: ttl_hours(vars.job_ttl_hours),
        user: text::text_or(text::opt_text(vars.user), "plugdeck"@),
        password_hash: unless_blank(vars.password_hash),
        cookie_secret: secret_of(vars.cookie_secret, fresh_secret),
        auth_disabled: flag_of(text::opt_text(vars.auth_disabled), false),
        links: link_views(vars.links@),
    }
}

fn filled(value: Option<String>) -> (res: Option<String>)
    ensures
        text::opt_text(res) == unless_blank(value),
{
    match value {
        Some(value) => if text::blank(value.as_str()) {
            None
        } else {
            Some(value)
        },
        None => None,
    }
}

fn read_limit(value: &Option<String>) -> (res: usize)
    ensures
        res == active_limit(*value),
{
    match value {
        Some(value) => match decimal::parse_natural(value.as_str(), usize::MAX as u64) {
            Some(n) => if n > 0 {
                n as usize
            } else {
                1
            },
            None => 1,
        },
        None => 1,
    }
}

fn read_hours(value: &Option<String>) -> (res: i64)
    ensures
        res == ttl_hours(*value),
{
    match value {
        Some(value) => match decimal::parse_integer(value.as_str()) {
            Some(n) => if n > 0 {
                n
            } else {
                24
            },
            None => 24,
        },
        None => 24,
    }
}

fn read_secret(value: &Option<String>, fresh: Vec<u8>) -> (res: Vec<u8>)
    ensures
        res@ == secret_of(*value, fresh@),
{
    if let Some(value) = value {
        if let Some(bytes) = outside::hex_decode(text::trim(value.as_str())) {
            if bytes.len() >= 32 {
                return bytes;
            }
        }
    }
    fresh
}

fn read_command(value: &Option<String>) -> (res: Option<Vec<String>>)
    ensures
        opt_texts(res) == command_of(*value),
{
    match value {
        Some(value) => {
            let parts = split_env_args(value.as_str());
            assert(parts@.len() == text::words(value@).len());
            if parts.len() == 0 {
                None
            } else {
                Some(parts)
            }
        },
        None => None,
    }
}

fn as_opt_str(value: &Option<String>) -> (res: Option<&str>)
    ensures
        text::opt_str(res) == text::opt_text(*value),
{
    match value {
        Some(value) => Some(value.as_str()),
        None => None,
    }
}

/// A fresh secret of 32 bytes.
pub fn random_secret() -> (res: Vec<u8>)
    ensures
        res@.len() == 32,
{
    outside::random_bytes(32)
}

impl Config {
    /// Reads the settings; `fresh_secret` signs sessions where no usable secret is set.
    pub fn from_variables(vars: Variables, fresh_secret: Vec<u8>) -> (res: Result<
        Config,
        ConfigError,
    >)
        requires
            lacks_password(vars) || ttl_hours(vars.job_ttl_hours) <= MAX_TTL_HOURS,
        ensures
            match res {
                Ok(config) => !lacks_password(vars) && config@ == settings(vars, fresh_secret@),
                Err(e) => lacks_password(vars) && e == ConfigError::MissingPassword,
            },
    {
        let home = vars.home;
        let download_dir = value_or(vars.download_dir, "data/downloads");
        let workdir = match &vars.agent_default_workdir {
            Some(value) => paths::expand_local_path(value.as_str(), home.as_str()),
            None => home.clone(),
        };
        let agent_slots = parse_agent_slot_seeds(
            as_opt_str(&vars.agent_slots),
            workdir.as_str(),
            home.as_str(),
        );
        let password_hash = filled(vars.password_hash);
        let auth_disabled = env_flag(as_opt_str(&vars.auth_disabled), false);
        if password_hash.is_none() && !auth_disabled {
            return Err(ConfigError::MissingPassword);
        }
        let default_upload = paths::join(download_dir.as_str(), "agent-uploads");
        let default_codex_home = paths::join(home.as_str(), ".codex");
        let agent_codex_args = match &vars.agent_codex_args {
            Some(value) => split_env_args(value.as_str()),
            None => Vec::new(),
        };
        let ghost no_args = text::texts(Seq::<String>::empty());
        assert(no_args =~= Seq::empty());
        let js_runtime = if vars.js_runtime_exists {
            filled(vars.js_runtime)
        } else {
            None
        };
        Ok(
            Config {
                bind: value_or(vars.bind, "127.0.0.1:8789"),
                db_path: value_or(vars.db, "data/plugdeck.sqlite"),
                download_dir,
                agent_default_workdir: workdir,
                agent_upload_dir: value_or(vars.agent_upload_dir, default_upload.as_str()),
                agent_codex_bin: value_or(vars.agent_codex_bin, vars.default_codex_bin.as_str()),
                agent_codex_args,
                codex_home: value_or(vars.codex_home, default_codex_home.as_str()),
                codex_reset_command: read_command(&vars.codex_reset_command),
                agent_slots,
                ytdlp: value_or(vars.ytdlp, "yt-dlp"),
                js_runtime,
                max_active: read_limit(&vars.max_active),
                job_ttl_hours: read_hours(&vars.job_ttl_hours),
                user: value_or(vars.user, "plugdeck"),
                password_hash,
                cookie_secret: read_secret(&vars.cookie_secret, fresh_secret),
                auth_disabled,
                links: vars.links,
            },
        )
    }

    /// Reads the settings; a random secret signs sessions where no usable one is set.
    pub fn from_env(vars: Variables) -> (res: Result<Config, ConfigError>)
        requires
            lacks_password(vars) || ttl_hours(vars.job_ttl_hours) <= MAX_TTL_HOURS,
        ensures
            match res {
                Ok(config) => !lacks_password(vars) && exists|fresh: Seq<u8>|
                    fresh.len() == 32 && config@ == #[trigger] settings(vars, fresh),
                Err(e) => lacks_password(vars) && e == ConfigError::MissingPassword,
            },
    {
        let fresh = random_secret();
        Config::from_variables(vars, fresh)
    }
}

impl Variables {
    /// Whether settings can be read: they lack a password, which is an error of
    /// its own, or finished downloads are kept for a number of hours that can be
    /// used.
    pub fn readable(&self) -> (res: bool)
        ensures
            res == (lacks_password(*self) || ttl_hours(self.job_ttl_hours) <= MAX_TTL_HOURS),
    {
        let has_password = match &self.password_hash {
            Some(value) => !text::blank(value.as_str()),
            None => false,
        };
        if !has_password && !env_flag(as_opt_str(&self.auth_disabled), false) {
            return true;
        }
        read_hours(&self.job_ttl_hours) <= MAX_TTL_HOURS
    }
}

// ---------------------------------------------------------------------------
// What holds of the settings
// ---------------------------------------------------------------------------

/// The name of a slot holds lower-case letters, digits, `-` and `_` only.
pub proof fn slot_names_are_plain(value: Seq<char>)
    ensures
        forall|i: int|
            0 <= i < slot_name(value).len() ==> {
                let c = #[trigger] slot_name(value)[i];
                'a' <= c <= 'z' || '0' <= c <= '9' || c == '-' || c == '_'
            },
{
    let kept = text::kept(text::trimmed(value), CharSet::SlotName);
    text::kept_belongs(text::trimmed(value), CharSet::SlotName);
    assert forall|i: int| 0 <= i < slot_name(value).len() implies {
        let c = #[trigger] slot_name(value)[i];
        'a' <= c <= 'z' || '0' <= c <= '9' || c == '-' || c == '_'
    } by {
        assert(CharSet::SlotName.has(kept[i]));
    }
}

/// Every slot that is configured has a name of 1 to 32 plain characters.
pub proof fn configured_slots_have_names(
    items: Seq<Seq<char>>,
    default_workdir: Seq<char>,
    home: Seq<char>,
)
    ensures
        forall|i: int|
            0 <= i < seeds_of(items, default_workdir, home).len() ==> 0 < (#[trigger] seeds_of(
                items,
                default_workdir,
                home,
            )[i]).name.len() <= MAX_AGENT_SLOT_CHARS,
    decreases items.len(),
{
    if items.len() > 0 {
        configured_slots_have_names(items.drop_last(), default_workdir, home);
        let before = seeds_of(items.drop_last(), default_workdir, home);
        let all = seeds_of(items, default_workdir, home);
        assert forall|i: int| 0 <= i < all.len() implies 0 < (#[trigger] all[i]).name.len()
            <= MAX_AGENT_SLOT_CHARS by {
            if i < before.len() {
                assert(all[i] == before[i]);
            }
        }
    }
}

/// Settings that can be used have a password or have passwords switched off,
/// allow at least one download, keep downloads for an hour or more, and sign
/// sessions with 32 bytes or more.
pub proof fn settings_are_sound(vars: Variables, fresh_secret: Seq<u8>)
    requires
        !lacks_password(vars),
        fresh_secret.len() >= 32,
    ensures
        ({
            let config = settings(vars, fresh_secret);
            &&& config.password_hash is Some || config.auth_disabled
            &&& config.max_active >= 1
            &&& config.job_ttl_hours >= 1
            &&& config.cookie_secret.len() >= 32
            &&& config.password_hash matches Some(hash) ==> !text::is_blank(hash)
        }),
{
}

/// A variable that is set is taken as it is.
pub proof fn what_is_set_is_taken(vars: Variables, fresh: Seq<u8>)
    ensures
        ({
            let config = settings(vars, fresh);
            &&& vars.bind matches Some(v) ==> config.bind == v@
            &&& vars.db matches Some(v) ==> config.db_path == v@
            &&& vars.download_dir matches Some(v) ==> config.download_dir == v@
            &&& vars.agent_default_workdir matches Some(v) ==> config.agent_default_workdir
                == paths::expanded(v@, vars.home@)
            &&& vars.agent_upload_dir matches Some(v) ==> config.agent_upload_dir == v@
            &&& vars.agent_codex_bin matches Some(v) ==> config.agent_codex_bin == v@
            &&& vars.agent_codex_args matches Some(v) ==> config.agent_codex_args == text::words(v@)
            &&& vars.codex_home matches Some(v) ==> config.codex_home == v@
            &&& vars.ytdlp matches Some(v) ==> config.ytdlp == v@
            &&& vars.user matches Some(v) ==> config.user == v@
            &&& vars.password_hash matches Some(v) ==> !text::is_blank(v@) ==> config.password_hash
                == Some(v@)
            &&& vars.js_runtime matches Some(v) ==> vars.js_runtime_exists && !text::is_blank(v@)
                ==> config.js_runtime == Some(v@)
            &&& vars.codex_reset_command matches Some(v) ==> !text::is_blank(v@)
                ==> config.codex_reset_command == Some(text::words(v@))
            &&& config.links.len() == vars.links@.len()
            &&& forall|i: int|
                0 <= i < config.links.len() ==> #[trigger] config.links[i] == vars.links@[i]@
        }),
{
    if let Some(v) = vars.codex_reset_command {
        if !text::is_blank(v@) {
            some_word_is_there(v@);
        }
    }
}

proof fn some_word_is_there(s: Seq<char>)
    requires
        !text::is_blank(s),
    ensures
        text::words(s).len() > 0,
{
    text::trimming_the_start_takes_a_run(s, CharSet::Space);
    let t = text::trimmed_start(s, CharSet::Space);
    if t.len() == 0 {
        let none = Seq::<char>::empty();
        assert(t =~= none);
        assert(text::trimmed(s).len() == 0);
    }
}

/// What is not set has the value that the deck comes with.
pub proof fn what_is_not_set_has_a_default(vars: Variables, fresh: Seq<u8>)
    ensures
        ({
            let config = settings(vars, fresh);
            &&& vars.bind is None ==> config.bind == "127.0.0.1:8789"@
            &&& vars.db is None ==> config.db_path == "data/plugdeck.sqlite"@
            &&& vars.download_dir is None ==> config.download_dir == "data/downloads"@
            &&& vars.agent_default_workdir is None ==> config.agent_default_workdir == vars.home@
            &&& vars.agent_upload_dir is None ==> config.agent_upload_dir == paths::under(
                config.download_dir,
                "agent-uploads"@,
            )
            &&& vars.agent_codex_bin is None ==> config.agent_codex_bin == vars.default_codex_bin@
            &&& vars.agent_codex_args is None ==> config.agent_codex_args.len() == 0
            &&& vars.codex_home is None ==> config.codex_home == paths::under(
                vars.home@,
                ".codex"@,
            )
            &&& vars.codex_reset_command is None ==> config.codex_reset_command is None
            &&& vars.ytdlp is None ==> config.ytdlp == "yt-dlp"@
            &&& vars.js_runtime is None || !vars.js_runtime_exists ==> config.js_runtime is None
            &&& vars.max_active is None ==> config.max_active == 1
            &&& vars.job_ttl_hours is None ==> config.job_ttl_hours == 24
            &&& vars.user is None ==> config.user == "plugdeck"@
            &&& vars.password_hash is None ==> config.password_hash is None
            &&& vars.cookie_secret is None ==> config.cookie_secret == fresh
            &&& vars.auth_disabled is None ==> !config.auth_disabled
            &&& vars.agent_slots is None ==> config.agent_slots == slot_seeds(
                Some("codex"@),
                config.agent_default_workdir,
                vars.home@,
            )
        }),
{
}

/// A number that is positive is taken; any other, and what is no number, counts
/// as not set.
pub proof fn only_positive_numbers_are_taken(value: String)
    ensures
        decimal::parsed_i64(value@) matches Some(n) ==> n >= 1 ==> ttl_hours(Some(value)) == n,
        decimal::parsed_i64(value@) matches Some(n) ==> n < 1 ==> ttl_hours(Some(value)) == 24,
        decimal::parsed_i64(value@) is None ==> ttl_hours(Some(value)) == 24,
        decimal::parsed_up_to(value@, usize::MAX as nat) matches Some(n) ==> n >= 1 ==> active_limit(
            Some(value),
        ) == n,
        decimal::parsed_up_to(value@, usize::MAX as nat) matches Some(n) ==> n < 1 ==> active_limit(
            Some(value),
        ) == 1,
        decimal::parsed_up_to(value@, usize::MAX as nat) is None ==> active_limit(Some(value)) == 1,
{
}

/// A secret is taken where it is at least thirty-two bytes in hexadecimal; else a
/// fresh one is.
pub proof fn short_secrets_are_replaced(value: String, fresh: Seq<u8>)
    ensures
        outside::hex_bytes(text::trimmed(value@)) matches Some(bytes) ==> bytes.len() >= 32
            ==> secret_of(Some(value), fresh) == bytes,
        outside::hex_bytes(text::trimmed(value@)) matches Some(bytes) ==> bytes.len() < 32
            ==> secret_of(Some(value), fresh) == fresh,
        outside::hex_bytes(text::trimmed(value@)) is None ==> secret_of(Some(value), fresh) == fresh,
{
}

/// A switch is on where its word, case and white space aside, is one of those for
/// it, and off for every other word.
pub proof fn switches_have_words(value: Seq<char>, default: bool)
    ensures
        ({
            let word = text::lowered(text::trimmed(value));
            flag_of(Some(value), default) <==> word == "1"@ || word == "true"@ || word == "yes"@
                || word == "on"@
        }),
        flag_of(None, default) == default,
{
}

/// A deck lacks a password exactly where none is set and passwords are not
/// switched off.
pub proof fn decks_need_a_password_or_a_switch(vars: Variables)
    ensures
        lacks_password(vars) <==> {
            &&& vars.password_hash matches Some(v) ==> text::is_blank(v@)
            &&& vars.auth_disabled matches Some(v) ==> !is_on(v@)
        },
{
}

/// A slot is set by its name, or by its name, a colon and its folder; a slot
/// without a folder works in the default one, and one whose name is empty or too
/// long is left out.
pub proof fn slots_are_set_by_name_and_folder(
    item: Seq<char>,
    name: Seq<char>,
    folder: Seq<char>,
    default_workdir: Seq<char>,
    home: Seq<char>,
)
    requires
        !name.contains(':'),
        0 < slot_name(name).len() <= 32,
    ensures
        text::trimmed(item) == name + seq![':'] + folder ==> seed_of(item, default_workdir, home)
            == Some(SeedView { name: slot_name(name), workdir: paths::expanded(folder, home) }),
        text::trimmed(item) == name ==> seed_of(item, default_workdir, home) == Some(
            SeedView { name: slot_name(name), workdir: default_workdir },
        ),
{
    text::splits_are_at_the_first(name, ':', folder);
}

/// A name of which nothing is left, or more than thirty-two characters, makes no
/// slot.
pub proof fn unusable_names_make_no_slot(
    item: Seq<char>,
    name: Seq<char>,
    default_workdir: Seq<char>,
    home: Seq<char>,
)
    requires
        text::trimmed(item) == name,
        !name.contains(':'),
        slot_name(name).len() == 0 || slot_name(name).len() > 32,
    ensures
        seed_of(item, default_workdir, home) is None,
{
    text::splits_are_at_the_first(name, ':', Seq::empty());
}

/// A slot's name is kept, in small letters, where it is plain already.
pub proof fn plain_slot_names_are_kept(name: Seq<char>)
    requires
        text::all_in(name, CharSet::SlotName),
    ensures
        slot_name(name) == text::lowered(name),
{
    if name.len() > 0 {
        assert(CharSet::SlotName.has(name[0]));
        assert(CharSet::SlotName.has(name[name.len() - 1]));
        assert(text::trimmed(name) == name);
    } else {
        assert(text::trimmed(name) == name);
    }
    text::keeping_goes_by_characters(name, Seq::empty(), 'a', CharSet::SlotName);
}

/// Slots are set in the order of the list, which commas part.
pub proof fn slots_keep_their_order(
    items: Seq<Seq<char>>,
    item: Seq<char>,
    default_workdir: Seq<char>,
    home: Seq<char>,
    raw: Seq<char>,
)
    ensures
        seeds_of(Seq::empty(), default_workdir, home).len() == 0,
        seed_of(item, default_workdir, home) matches Some(seed) ==> seeds_of(
            items.push(item),
            default_workdir,
            home,
        ) == seeds_of(items, default_workdir, home).push(seed),
        seed_of(item, default_workdir, home) is None ==> seeds_of(
            items.push(item),
            default_workdir,
            home,
        ) == seeds_of(items, default_workdir, home),
        slot_seeds(Some(raw), default_workdir, home) == seeds_of(
            text::split_on(raw, ','),
            default_workdir,
            home,
        ),
{
    assert(items.push(item).drop_last() =~= items);
}

/// The agent's command is its program and then its arguments, with a space
/// between two of them.
pub proof fn commands_are_shown_with_their_arguments(config: ConfigView)
    ensures
        config.agent_codex_args.len() == 0 ==> command_label(config) == config.agent_codex_bin,
        config.agent_codex_args.len() > 0 ==> command_label(config) == config.agent_codex_bin + " "@
            + text::joined(config.agent_codex_args, " "@),
        command_parts(config).len() == config.agent_codex_args.len() + 1,
        command_parts(config)[0] == config.agent_codex_bin,
        command_parts(config).skip(1) == config.agent_codex_args,
{
    text::joining_goes_by_parts(config.agent_codex_bin, config.agent_codex_args, " "@);
    assert(command_parts(config).skip(1) =~= config.agent_codex_args);
    if config.agent_codex_args.len() == 0 {
        assert(command_parts(config) =~= seq![config.agent_codex_bin]);
    }
}

/// A blank word counts as not set for the password, the script runtime and the
/// reset command; and the launcher in the home folder has its place there.
pub proof fn blank_words_are_not_set(vars: Variables, fresh: Seq<u8>, home: Seq<char>)
    ensures
        ({
            let config = settings(vars, fresh);
            &&& vars.password_hash matches Some(v) ==> text::is_blank(v@) ==> config.password_hash
                is None
            &&& vars.js_runtime matches Some(v) ==> text::is_blank(v@) ==> config.js_runtime is None
            &&& vars.codex_reset_command matches Some(v) ==> text::words(v@).len() == 0
                ==> config.codex_reset_command is None
        }),
        launcher_path(home) == paths::under(home, ".local/bin/codexunsafe"@),
{
}

} // verus!
