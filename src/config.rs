//! The command registry and the decisions of the task orchestrator:
//! loading command definitions, resolving them for a host, splitting a
//! command line, and the per-command tag colour.
use crate::krate::opt_view;
use std::hash::DefaultHasher;
use std::hash::Hasher;
use vstd::prelude::*;
use vstd::std_specs::hash::DefaultHasherAdditionalSpecFns;
use vstd::string::StringSliceAdditionalSpecFns;

verus! {

/// Per-host lines of a platform-specific command, with a fallback line.
pub struct PlatformCommands {
    pub windows: Option<String>,
    pub linux: Option<String>,
    pub darwin: Option<String>,
    pub command: Option<String>,
    pub working_dir: Option<String>,
    pub env: Option<Vec<(String, String)>>,
}

/// A named command definition.
pub enum Command {
    Simple {
        key: String,
        command: String,
        working_dir: Option<String>,
        env: Option<Vec<(String, String)>>,
    },
    PlatformSpecific { key: String, commands: PlatformCommands },
}

/// The registry: command definitions in the order they were read. A name
/// defined twice means its later definition.
pub struct Config {
    pub cmd: Vec<Command>,
}

/// A value inside a command's table, as read from the configuration file.
pub enum FieldValue {
    Str(String),
    /// A table whose entries are strings (`Some`) or anything else (`None`).
    Table(Vec<(String, Option<String>)>),
    Other,
}

/// The value of one entry of the `cmd` table, as read from the configuration file.
pub enum ConfigValue {
    Str(String),
    Table(Vec<(String, FieldValue)>),
    Other,
}

/// Failures of loading the registry.
#[derive(PartialEq, Eq, Structural, Clone, Copy, Debug)]
pub enum ConfigError {
    /// A command is defined by something other than a string or a table.
    Format,
}

/// A command resolved for one host: what to run, where, and with which
/// environment overrides.
pub struct ResolvedCommand {
    pub key: String,
    pub line: String,
    pub working_dir: String,
    pub env: Vec<(String, String)>,
}

pub open spec fn pairs_view(v: Seq<(String, String)>) -> Seq<(Seq<char>, Seq<char>)> {
    v.map_values(|p: (String, String)| (p.0@, p.1@))
}

pub open spec fn opt_pairs_view(v: Option<Vec<(String, String)>>) -> Option<
    Seq<(Seq<char>, Seq<char>)>,
> {
    match v {
        Some(p) => Some(pairs_view(p@)),
        None => None,
    }
}

/// The first of the first `n` entries under `key`.
pub open spec fn find_field(es: Seq<(String, FieldValue)>, key: Seq<char>, n: nat) -> Option<
    FieldValue,
>
    decreases n,
{
    if n == 0 {
        None
    } else {
        match find_field(es, key, (n - 1) as nat) {
            Some(v) => Some(v),
            None => if es[n - 1].0@ == key {
                Some(es[n - 1].1)
            } else {
                None
            },
        }
    }
}

/// The string under `key`; `None` when it is missing or not a string.
pub open spec fn field_text(es: Seq<(String, FieldValue)>, key: Seq<char>) -> Option<Seq<char>> {
    match find_field(es, key, es.len()) {
        Some(FieldValue::Str(s)) => Some(s@),
        _ => None,
    }
}

/// The string entries among the first `n` of an environment table.
pub open spec fn env_entries(ps: Seq<(String, Option<String>)>, n: nat) -> Seq<
    (Seq<char>, Seq<char>),
>
    decreases n,
{
    if n == 0 {
        Seq::empty()
    } else {
        let prev = env_entries(ps, (n - 1) as nat);
        match ps[n - 1].1 {
            Some(v) => prev.push((ps[n - 1].0@, v@)),
            None => prev,
        }
    }
}

/// The environment overrides under `env`; `None` when it is missing or not a table.
pub open spec fn field_env(es: Seq<(String, FieldValue)>) -> Option<Seq<(Seq<char>, Seq<char>)>> {
    match find_field(es, "env"@, es.len()) {
        Some(FieldValue::Table(ps)) => Some(env_entries(ps@, ps@.len())),
        _ => None,
    }
}

pub open spec fn command_key(c: Command) -> Seq<char> {
    match c {
        Command::Simple { key, .. } => key@,
        Command::PlatformSpecific { key, .. } => key@,
    }
}

/// `c` is the command that the configuration entry `key = v` defines.
pub open spec fn defines(key: Seq<char>, v: ConfigValue, c: Command) -> bool {
    match v {
        ConfigValue::Str(s) => c matches Command::Simple { key: k, command, working_dir, env }
            && k@ == key && command@ == s@ && working_dir is None && env is None,
        ConfigValue::Table(es) => c matches Command::PlatformSpecific { key: k, commands } && k@
            == key && opt_view(commands.windows) == field_text(es@, "windows"@) && opt_view(
            commands.linux,
        ) == field_text(es@, "linux"@) && opt_view(commands.darwin) == field_text(
            es@,
            "darwin"@,
        ) && opt_view(commands.command) == field_text(es@, "command"@) && opt_view(
            commands.working_dir,
        ) == field_text(es@, "working_dir"@) && opt_pairs_view(commands.env) == field_env(es@),
        ConfigValue::Other => false,
    }
}

/// The line a platform-specific command gives on `os`: the host's own line,
/// else the fallback, else nothing.
pub open spec fn platform_line(p: PlatformCommands, os: Seq<char>) -> Seq<char> {
    let own = if os == "windows"@ {
        p.windows
    } else if os == "linux"@ {
        p.linux
    } else if os == "darwin"@ {
        p.darwin
    } else {
        p.command
    };
    match own {
        Some(l) => l@,
        None => match p.command {
            Some(l) => l@,
            None => Seq::empty(),
        },
    }
}

pub open spec fn resolved_line(c: Command, os: Seq<char>) -> Seq<char> {
    match c {
        Command::Simple { command, .. } => command@,
        Command::PlatformSpecific { commands, .. } => platform_line(commands, os),
    }
}

pub open spec fn resolved_dir(c: Command, cwd: Seq<char>) -> Seq<char> {
    let wd = match c {
        Command::Simple { working_dir, .. } => working_dir,
        Command::PlatformSpecific { commands, .. } => commands.working_dir,
    };
    match wd {
        Some(d) => d@,
        None => cwd,
    }
}

pub open spec fn resolved_env(c: Command) -> Seq<(Seq<char>, Seq<char>)> {
    let env = match c {
        Command::Simple { env, .. } => env,
        Command::PlatformSpecific { commands, .. } => commands.env,
    };
    match env {
        Some(e) => pairs_view(e@),
        None => Seq::empty(),
    }
}

/// `r` is `c` resolved for host `os` in working directory `cwd`.
pub open spec fn resolves_to(c: Command, os: Seq<char>, cwd: Seq<char>, r: ResolvedCommand) -> bool {
    &&& r.key@ == command_key(c)
    &&& r.line@ == resolved_line(c, os)
    &&& r.working_dir@ == resolved_dir(c, cwd)
    &&& pairs_view(r.env@) == resolved_env(c)
}

/// Unicode white space, as `char::is_whitespace` takes it.
pub open spec fn is_space(c: char) -> bool {
    ('\u{9}' <= c && c <= '\u{d}') || c == ' ' || c == '\u{85}' || c == '\u{a0}' || c
        == '\u{1680}' || ('\u{2000}' <= c && c <= '\u{200a}') || c == '\u{2028}' || c == '\u{2029}'
        || c == '\u{202f}' || c == '\u{205f}' || c == '\u{3000}'
}

/// After the first `n` characters of `s`: the finished words and the word
/// being read.
pub open spec fn split_state(s: Seq<char>, n: nat) -> (Seq<Seq<char>>, Seq<char>)
    decreases n,
{
    if n == 0 {
        (Seq::empty(), Seq::empty())
    } else {
        let (ws, cur) = split_state(s, (n - 1) as nat);
        let c = s[n - 1];
        if is_space(c) {
            if cur.len() > 0 {
                (ws.push(cur), Seq::empty())
            } else {
                (ws, Seq::empty())
            }
        } else {
            (ws, cur.push(c))
        }
    }
}

/// The words of `s`: its maximal runs of characters other than white space.
pub open spec fn words(s: Seq<char>) -> Seq<Seq<char>> {
    let (ws, cur) = split_state(s, s.len());
    if cur.len() > 0 {
        ws.push(cur)
    } else {
        ws
    }
}

pub open spec fn strings_view(v: Seq<String>) -> Seq<Seq<char>> {
    v.map_values(|s: String| s@)
}

/// The red, green and blue bytes of a hash: its bits 16..24, 8..16 and 0..8.
pub open spec fn rgb_of(hash: u64) -> (u8, u8, u8) {
    (((hash / 0x10000) % 0x100) as u8, ((hash / 0x100) % 0x100) as u8, (hash % 0x100) as u8)
}

/// The hash of a key: std's `DefaultHasher` fed as `str`'s `Hash` feeds it,
/// the key's UTF-8 bytes and then the byte 0xff.
pub open spec fn key_hash(key: &str) -> u64 {
    DefaultHasher::spec_finish(seq![key.spec_bytes(), seq![0xffu8]])
}

fn is_space_char(c: char) -> (r: bool)
    ensures
        r == is_space(c),
{
    ('\u{9}' <= c && c <= '\u{d}') || c == ' ' || c == '\u{85}' || c == '\u{a0}' || c
        == '\u{1680}' || ('\u{2000}' <= c && c <= '\u{200a}') || c == '\u{2028}' || c == '\u{2029}'
        || c == '\u{202f}' || c == '\u{205f}' || c == '\u{3000}'
}

/// Splits a command line at white space into the program and its
/// arguments; an empty line gives an empty program.
pub fn parse_command(command: &str) -> (r: (String, Vec<String>))
    ensures
        words(command@).len() == 0 ==> r.0@.len() == 0 && r.1@.len() == 0,
        words(command@).len() > 0 ==> r.0@ == words(command@)[0] && strings_view(r.1@)
            == words(command@).drop_first(),
{
    let n = command.unicode_len();
    let mut parts: Vec<String> = Vec::new();
    let mut start: usize = 0;
    let mut i: usize = 0;
    while i < n
        invariant
            n == command@.len(),
            start <= i <= n,
            split_state(command@, i as nat) == (strings_view(parts@), command@.subrange(
                start as int,
                i as int,
            )),
        decreases n - i,
    {
        let c = command.get_char(i);
        let ghost prev = strings_view(parts@);
        if is_space_char(c) {
            if start < i {
                let w = command.substring_char(start, i).to_owned();
                parts.push(w);
                assert(strings_view(parts@) =~= prev.push(command@.subrange(start as int, i as int)));
            }
            start = i + 1;
            assert(command@.subrange(start as int, (i + 1) as int) =~= Seq::<char>::empty());
        } else {
            assert(command@.subrange(start as int, (i + 1) as int) =~= command@.subrange(
                start as int,
                i as int,
            ).push(c));
        }
        i = i + 1;
    }
    if start < n {
        let w = command.substring_char(start, n).to_owned();
        let ghost prev = strings_view(parts@);
        parts.push(w);
        assert(strings_view(parts@) =~= prev.push(command@.subrange(start as int, n as int)));
    }
    assert(strings_view(parts@) == words(command@));
    if parts.len() == 0 {
        (String::new(), parts)
    } else {
        let program = parts.remove(0);
        assert(strings_view(parts@) =~= words(command@).drop_first());
        (program, parts)
    }
}

proof fn lemma_words_nonempty(s: Seq<char>, n: nat)
    requires
        n <= s.len(),
    ensures
        forall|i: int| 0 <= i < split_state(s, n).0.len() ==> (#[trigger] split_state(s, n).0[i]).len() > 0,
    decreases n,
{
    if n > 0 {
        lemma_words_nonempty(s, (n - 1) as nat);
        let prev = split_state(s, (n - 1) as nat);
        let now = split_state(s, n);
        assert forall|i: int| 0 <= i < now.0.len() implies (#[trigger] now.0[i]).len() > 0 by {
            if i < prev.0.len() {
                assert(now.0[i] == prev.0[i]);
            } else {
                assert(now.0[i] == prev.1);
            }
        }
    }
}

/// The program and arguments to launch for a resolved command, or `None`
/// when its line holds no word: such a command is a no-op to report, not a
/// process to spawn.
pub fn launch_args(rc: &ResolvedCommand) -> (r: Option<(String, Vec<String>)>)
    ensures
        r is None <==> words(rc.line@).len() == 0,
        r matches Some(pa) ==> pa.0@ == words(rc.line@)[0] && strings_view(pa.1@) == words(
            rc.line@,
        ).drop_first(),
{
    let (program, args) = parse_command(rc.line.as_str());
    proof {
        lemma_words_nonempty(rc.line@, rc.line@.len());
        if words(rc.line@).len() > 0 {
            assert(words(rc.line@)[0].len() > 0);
        }
    }
    if program.unicode_len() == 0 {
        None
    } else {
        Some((program, args))
    }
}

/// The hash that picks a command's tag colour.
pub fn hash_key(key: &str) -> (r: u64)
    ensures
        r == key_hash(key),
{
    let mut hasher = DefaultHasher::new();
    hasher.write(key.as_bytes());
    let end: [u8; 1] = [0xffu8];
    hasher.write(end.as_slice());
    proof {
        assert(end@ =~= seq![0xffu8]);
        assert(hasher@ =~= seq![key.spec_bytes(), seq![0xffu8]]);
    }
    hasher.finish()
}

/// The red, green and blue bytes of a colour taken from a hash.
pub fn hash_to_rgb(hash: u64) -> (r: (u8, u8, u8))
    ensures
        r == rgb_of(hash),
{
    let r = ((hash & 0xFF0000) >> 16u64) as u8;
    let g = ((hash & 0x00FF00) >> 8u64) as u8;
    let b = (hash & 0x0000FF) as u8;
    assert((hash & 0xFF0000) >> 16u64 == (hash / 0x10000) % 0x100) by (bit_vector);
    assert((hash & 0x00FF00) >> 8u64 == (hash / 0x100) % 0x100) by (bit_vector);
    assert(hash & 0x0000FF == hash % 0x100) by (bit_vector);
    (r, g, b)
}

/// The tag colour of a command: the same key always gets the same colour.
pub fn key_color(key: &str) -> (r: (u8, u8, u8))
    ensures
        r == rgb_of(key_hash(key)),
{
    hash_to_rgb(hash_key(key))
}

/// The string under `key` in a command's table.
fn text_field(es: &Vec<(String, FieldValue)>, key: &str) -> (r: Option<String>)
    ensures
        opt_view(r) == field_text(es@, key@),
{
    let k = String::from_str(key);
    let mut i: usize = 0;
    while i < es.len()
        invariant
            i <= es@.len(),
            k@ == key@,
            find_field(es@, key@, i as nat) is None,
        decreases es@.len() - i,
    {
        if es[i].0.eq(&k) {
            proof {
                lemma_find_field_stays(es@, key@, (i + 1) as nat, es@.len());
            }
            return match &es[i].1 {
                FieldValue::Str(s) => Some(s.clone()),
                _ => None,
            };
        }
        i = i + 1;
    }
    None
}

/// The environment overrides under `env` in a command's table.
fn env_field(es: &Vec<(String, FieldValue)>) -> (r: Option<Vec<(String, String)>>)
    ensures
        opt_pairs_view(r) == field_env(es@),
{
    proof {
        reveal_strlit("env");
    }
    let k = String::from_str("env");
    let mut i: usize = 0;
    while i < es.len()
        invariant
            i <= es@.len(),
            k@ == "env"@,
            find_field(es@, "env"@, i as nat) is None,
        decreases es@.len() - i,
    {
        if es[i].0.eq(&k) {
            proof {
                lemma_find_field_stays(es@, "env"@, (i + 1) as nat, es@.len());
            }
            return match &es[i].1 {
                FieldValue::Table(ps) => Some(string_entries(ps)),
                _ => None,
            };
        }
        i = i + 1;
    }
    None
}

proof fn lemma_find_field_stays(es: Seq<(String, FieldValue)>, key: Seq<char>, m: nat, n: nat)
    requires
        m <= n <= es.len(),
        find_field(es, key, m) is Some,
    ensures
        find_field(es, key, n) == find_field(es, key, m),
    decreases n - m,
{
    if m < n {
        lemma_find_field_stays(es, key, m, (n - 1) as nat);
    }
}

/// The entries of an environment table that hold strings, in order.
fn string_entries(ps: &Vec<(String, Option<String>)>) -> (r: Vec<(String, String)>)
    ensures
        pairs_view(r@) == env_entries(ps@, ps@.len()),
{
    let mut out: Vec<(String, String)> = Vec::new();
    let mut i: usize = 0;
    while i < ps.len()
        invariant
            i <= ps@.len(),
            pairs_view(out@) == env_entries(ps@, i as nat),
        decreases ps@.len() - i,
    {
        match &ps[i].1 {
            Some(v) => {
                let ghost prev = out@;
                out.push((ps[i].0.clone(), v.clone()));
                assert(pairs_view(out@) =~= pairs_view(prev).push((ps@[i as int].0@, v@)));
            },
            None => {},
        }
        i = i + 1;
    }
    out
}

/// The command that the configuration entry `key = v` defines.
fn command_of(key: &String, v: &ConfigValue) -> (r: Result<Command, ConfigError>)
    ensures
        v is Other <==> r is Err,
        r matches Ok(c) ==> defines(key@, *v, c),
        r matches Err(e) ==> e == ConfigError::Format,
{
    match v {
        ConfigValue::Str(s) => Ok(
            Command::Simple { key: key.clone(), command: s.clone(), working_dir: None, env: None },
        ),
        ConfigValue::Table(es) => {
            let commands = PlatformCommands {
                windows: text_field(es, "windows"),
                linux: text_field(es, "linux"),
                darwin: text_field(es, "darwin"),
                command: text_field(es, "command"),
                working_dir: text_field(es, "working_dir"),
                env: env_field(es),
            };
            proof {
                reveal_strlit("windows");
                reveal_strlit("linux");
                reveal_strlit("darwin");
                reveal_strlit("command");
                reveal_strlit("working_dir");
            }
            Ok(Command::PlatformSpecific { key: key.clone(), commands })
        },
        ConfigValue::Other => Err(ConfigError::Format),
    }
}

fn copy_pairs(v: &Vec<(String, String)>) -> (r: Vec<(String, String)>)
    ensures
        pairs_view(r@) == pairs_view(v@),
{
    let mut out: Vec<(String, String)> = Vec::new();
    let mut i: usize = 0;
    while i < v.len()
        invariant
            i <= v@.len(),
            pairs_view(out@) == pairs_view(v@.subrange(0, i as int)),
        decreases v@.len() - i,
    {
        let ghost prev = out@;
        out.push((v[i].0.clone(), v[i].1.clone()));
        assert(v@.subrange(0, i + 1) =~= v@.subrange(0, i as int).push(v@[i as int]));
        assert(pairs_view(out@) =~= pairs_view(prev).push((v@[i as int].0@, v@[i as int].1@)));
        assert(pairs_view(out@) =~= pairs_view(v@.subrange(0, i + 1)));
        i = i + 1;
    }
    assert(v@.subrange(0, v@.len() as int) =~= v@);
    out
}

fn same_os(os: &str, name: &str) -> (r: bool)
    ensures
        r == (os@ == name@),
{
    String::from_str(os).eq(&String::from_str(name))
}

impl Command {
    /// The command's name.
    pub fn key(&self) -> (r: &String)
        ensures
            r@ == command_key(*self),
    {
        match self {
            Command::Simple { key, .. } => key,
            Command::PlatformSpecific { key, .. } => key,
        }
    }

    /// The command resolved for host `host_os`: a simple command passes its
    /// line through; a platform-specific one takes the host's line, else the
    /// fallback, else an empty line. An unset working directory is `cwd`.
    pub fn resolve(&self, host_os: &str, cwd: &str) -> (r: ResolvedCommand)
        ensures
            resolves_to(*self, host_os@, cwd@, r),
    {
        match self {
            Command::Simple { key, command, working_dir, env } => {
                let wd = match working_dir {
                    Some(d) => d.clone(),
                    None => String::from_str(cwd),
                };
                let e = match env {
                    Some(e) => copy_pairs(e),
                    None => Vec::new(),
                };
                proof {
                    assert(pairs_view(Seq::<(String, String)>::empty()) =~= Seq::empty());
                }
                ResolvedCommand { key: key.clone(), line: command.clone(), working_dir: wd, env: e }
            },
            Command::PlatformSpecific { key, commands } => {
                proof {
                    reveal_strlit("windows");
                    reveal_strlit("linux");
                    reveal_strlit("darwin");
                }
                let own = if same_os(host_os, "windows") {
                    &commands.windows
                } else if same_os(host_os, "linux") {
                    &commands.linux
                } else if same_os(host_os, "darwin") {
                    &commands.darwin
                } else {
                    &commands.command
                };
                let line = match own {
                    Some(l) => l.clone(),
                    None => match &commands.command {
                        Some(l) => l.clone(),
                        None => String::new(),
                    },
                };
                let wd = match &commands.working_dir {
                    Some(d) => d.clone(),
                    None => String::from_str(cwd),
                };
                let e = match &commands.env {
                    Some(e) => copy_pairs(e),
                    None => Vec::new(),
                };
                proof {
                    assert(pairs_view(Seq::<(String, String)>::empty()) =~= Seq::empty());
                }
                ResolvedCommand { key: key.clone(), line, working_dir: wd, env: e }
            },
        }
    }
}

impl Config {
    /// Whether a command is called `name`.
    pub open spec fn has_command(&self, name: Seq<char>) -> bool {
        exists|i: int| 0 <= i < self.cmd@.len() && command_key(self.cmd@[i]) == name
    }

    /// The position of the definition that counts for `name`: the last one.
    pub open spec fn command_index(&self, name: Seq<char>) -> int {
        choose|i: int|
            0 <= i < self.cmd@.len() && command_key(self.cmd@[i]) == name && forall|j: int|
                i < j < self.cmd@.len() ==> command_key(self.cmd@[j]) != name
    }

    /// The registry defined by the entries of a configuration's `cmd` table:
    /// a string defines a simple command, a table a platform-specific one.
    /// Any other value fails the whole load.
    pub fn from_values(entries: &Vec<(String, ConfigValue)>) -> (r: Result<Config, ConfigError>)
        ensures
            r is Ok <==> forall|i: int| 0 <= i < entries@.len() ==> !(#[trigger] entries@[i].1 is Other),
            r matches Err(e) ==> e == ConfigError::Format,
            r matches Ok(c) ==> c.cmd@.len() == entries@.len() && forall|i: int|
                0 <= i < entries@.len() ==> defines(entries@[i].0@, entries@[i].1, #[trigger] c.cmd@[i]),
    {
        let mut cmd: Vec<Command> = Vec::new();
        let mut i: usize = 0;
        while i < entries.len()
            invariant
                i <= entries@.len(),
                cmd@.len() == i,
                forall|j: int| 0 <= j < i ==> !(#[trigger] entries@[j].1 is Other),
                forall|j: int| 0 <= j < i ==> defines(entries@[j].0@, entries@[j].1, #[trigger] cmd@[j]),
            decreases entries@.len() - i,
        {
            match command_of(&entries[i].0, &entries[i].1) {
                Ok(c) => cmd.push(c),
                Err(e) => return Err(e),
            }
            i = i + 1;
        }
        Ok(Config { cmd })
    }

    /// The definition that counts for `name`: the last one of that name.
    pub fn get(&self, name: &str) -> (r: Option<&Command>)
        ensures
            r is Some <==> self.has_command(name@),
            r matches Some(c) ==> *c == self.cmd@[self.command_index(name@)],
    {
        let mut i: usize = self.cmd.len();
        while i > 0
            invariant
                i <= self.cmd@.len(),
                forall|j: int| i <= j < self.cmd@.len() ==> command_key(self.cmd@[j]) != name@,
            decreases i,
        {
            let c = &self.cmd[i - 1];
            if same_os(c.key().as_str(), name) {
                let ghost k = (i - 1) as int;
                assert(self.has_command(name@));
                let ghost ci = self.command_index(name@);
                assert(ci == k) by {
                    if ci < k {
                    } else if ci > k {
                    }
                }
                return Some(c);
            }
            i = i - 1;
        }
        None
    }

    /// The commands to launch for a batch of names, in order: each known
    /// name resolved for the host, `None` for a name to report and skip. An
    /// unknown name never keeps another from being launched.
    pub fn plan_batch(&self, names: &Vec<String>, host_os: &str, cwd: &str) -> (r: Vec<
        Option<ResolvedCommand>,
    >)
        ensures
            batch_plan(*self, names@, host_os@, cwd@, r@),
    {
        let mut out: Vec<Option<ResolvedCommand>> = Vec::new();
        let mut i: usize = 0;
        while i < names.len()
            invariant
                i <= names@.len(),
                out@.len() == i,
                forall|j: int|
                    0 <= j < i ==> plan_entry(*self, names@[j]@, host_os@, cwd@, #[trigger] out@[j]),
            decreases names@.len() - i,
        {
            let planned = match self.get(names[i].as_str()) {
                Some(c) => Some(c.resolve(host_os, cwd)),
                None => None,
            };
            out.push(planned);
            i = i + 1;
        }
        out
    }
}

/// What the batch does with `name`: nothing when no command has that name,
/// else the command that counts for it, resolved.
pub open spec fn plan_entry(
    c: Config,
    name: Seq<char>,
    os: Seq<char>,
    cwd: Seq<char>,
    p: Option<ResolvedCommand>,
) -> bool {
    match p {
        None => !c.has_command(name),
        Some(rc) => c.has_command(name) && resolves_to(c.cmd@[c.command_index(name)], os, cwd, rc),
    }
}

pub open spec fn batch_plan(
    c: Config,
    names: Seq<String>,
    os: Seq<char>,
    cwd: Seq<char>,
    plan: Seq<Option<ResolvedCommand>>,
) -> bool {
    &&& plan.len() == names.len()
    &&& forall|j: int| 0 <= j < names.len() ==> plan_entry(c, names[j]@, os, cwd, #[trigger] plan[j])
}

/// In a batch, every known name is launched, whatever the other names are:
/// unknown names are skipped without keeping the rest from running.
pub proof fn lemma_known_names_launch(
    c: Config,
    names: Seq<String>,
    os: Seq<char>,
    cwd: Seq<char>,
    plan: Seq<Option<ResolvedCommand>>,
)
    requires
        batch_plan(c, names, os, cwd, plan),
    ensures
        forall|j: int|
            0 <= j < names.len() && c.has_command(#[trigger] names[j]@) ==> (plan[j] matches Some(
                rc,
            ) && resolves_to(c.cmd@[c.command_index(names[j]@)], os, cwd, rc)),
        forall|j: int| 0 <= j < names.len() && !c.has_command(#[trigger] names[j]@) ==> plan[j] is None,
{
    assert forall|j: int| 0 <= j < names.len() implies plan_entry(c, names[j]@, os, cwd, plan[j]) by {}
}

/// A platform-specific command with only a fallback line resolves to that
/// line on every host.
pub proof fn lemma_fallback_on_every_host(p: PlatformCommands, os: Seq<char>)
    requires
        p.windows is None,
        p.linux is None,
        p.darwin is None,
        p.command is Some,
    ensures
        platform_line(p, os) == p.command->0@,
{
}

} // verus!
