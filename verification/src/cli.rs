//! The command line of the controller: global options for the host and the
//! remote working directory, and one subcommand.
//!
//! The grammar read here is the plain form of each command: options with
//! their value in the next word or after `=`, values that do not start with
//! `-`, each option at most once.  Anything else (help, version, `--`,
//! clustered short options) is refused here and left to the full
//! command-line reader of the program.
use vstd::prelude::*;
use crate::error::Error;
use crate::text::{chars_of, str_eq, string_from_chars, sub_chars};

verus! {

/// What the controller is asked to do.
pub enum Command {
    /// List the hosts of the account.
    Devices,
    /// Enroll this controller.
    Enroll,
    /// Pair with a host, with the pairing code or, without one, after a
    /// hidden prompt.
    Pair { code: Option<String> },
    /// Refresh and check the relay session.
    Session,
    /// Revoke this controller and remove its identity.
    Unenroll,
    /// Exchange one initialize message with a host.
    Probe { device: String },
    /// Revoke another client of this account.
    RevokeClient { client_id: String },
}

/// A command line: the host, the remote working directory and the command,
/// each when given.
pub struct Cli {
    pub device: Option<String>,
    pub remote_cwd: Option<String>,
    pub command: Option<Command>,
}

pub enum CommandV {
    Devices,
    Enroll,
    Pair(Option<Seq<char>>),
    Session,
    Unenroll,
    Probe(Seq<char>),
    RevokeClient(Seq<char>),
}

pub struct CliV {
    pub device: Option<Seq<char>>,
    pub remote_cwd: Option<Seq<char>>,
    pub command: Option<CommandV>,
}

pub open spec fn opt_str(o: Option<String>) -> Option<Seq<char>> {
    match o {
        Some(s) => Some(s@),
        None => None,
    }
}

impl View for Command {
    type V = CommandV;

    open spec fn view(&self) -> CommandV {
        match self {
            Command::Devices => CommandV::Devices,
            Command::Enroll => CommandV::Enroll,
            Command::Pair { code } => CommandV::Pair(opt_str(*code)),
            Command::Session => CommandV::Session,
            Command::Unenroll => CommandV::Unenroll,
            Command::Probe { device } => CommandV::Probe(device@),
            Command::RevokeClient { client_id } => CommandV::RevokeClient(client_id@),
        }
    }
}

impl View for Cli {
    type V = CliV;

    open spec fn view(&self) -> CliV {
        CliV {
            device: opt_str(self.device),
            remote_cwd: opt_str(self.remote_cwd),
            command: match self.command {
                Some(c) => Some(c@),
                None => None,
            },
        }
    }
}

/// Whether `s` starts with `p`.
pub open spec fn has_prefix(s: Seq<char>, p: Seq<char>) -> bool {
    p.len() <= s.len() && s.take(p.len() as int) == p
}

/// Whether a word is read as a value: it is not empty and does not start
/// with `-`.
pub open spec fn is_value(t: Seq<char>) -> bool {
    t.len() > 0 && t[0] != '-'
}

/// The value of a word `<name>=<value>` with a nonempty value.
pub open spec fn attached_value(t: Seq<char>, name: Seq<char>) -> Option<Seq<char>> {
    let p = name + "="@;
    if has_prefix(t, p) && t.len() > p.len() {
        Some(t.skip(p.len() as int))
    } else {
        None
    }
}

/// A subcommand and its arguments.
pub open spec fn subcommand(name: Seq<char>, rest: Seq<Seq<char>>) -> Option<CommandV> {
    if name == "devices"@ && rest.len() == 0 {
        Some(CommandV::Devices)
    } else if name == "enroll"@ && rest.len() == 0 {
        Some(CommandV::Enroll)
    } else if name == "session"@ && rest.len() == 0 {
        Some(CommandV::Session)
    } else if name == "unenroll"@ && rest.len() == 0 {
        Some(CommandV::Unenroll)
    } else if name == "pair"@ {
        if rest.len() == 0 {
            Some(CommandV::Pair(None))
        } else if rest.len() == 1 && is_value(rest[0]) {
            Some(CommandV::Pair(Some(rest[0])))
        } else {
            None
        }
    } else if name == "probe"@ {
        if rest.len() == 2 && rest[0] == "--device"@ && is_value(rest[1]) {
            Some(CommandV::Probe(rest[1]))
        } else if rest.len() == 1 && attached_value(rest[0], "--device"@) is Some {
            Some(CommandV::Probe(attached_value(rest[0], "--device"@)->Some_0))
        } else {
            None
        }
    } else if name == "revoke-client"@ {
        if rest.len() == 1 && is_value(rest[0]) {
            Some(CommandV::RevokeClient(rest[0]))
        } else {
            None
        }
    } else {
        None
    }
}

/// The global options, then the subcommand.
pub open spec fn parse_words(words: Seq<Seq<char>>, device: Option<Seq<char>>, cwd: Option<Seq<char>>) -> Option<CliV>
    decreases words.len(),
{
    if words.len() == 0 {
        Some(CliV { device, remote_cwd: cwd, command: None })
    } else {
        let t = words[0];
        if t == "--device"@ {
            if device is None && words.len() >= 2 && is_value(words[1]) {
                parse_words(words.skip(2), Some(words[1]), cwd)
            } else {
                None
            }
        } else if attached_value(t, "--device"@) is Some {
            if device is None {
                parse_words(words.skip(1), attached_value(t, "--device"@), cwd)
            } else {
                None
            }
        } else if t == "-C"@ || t == "--cd"@ {
            if cwd is None && words.len() >= 2 && is_value(words[1]) {
                parse_words(words.skip(2), device, Some(words[1]))
            } else {
                None
            }
        } else if attached_value(t, "--cd"@) is Some {
            if cwd is None {
                parse_words(words.skip(1), device, attached_value(t, "--cd"@))
            } else {
                None
            }
        } else {
            match subcommand(t, words.skip(1)) {
                Some(c) => Some(CliV { device, remote_cwd: cwd, command: Some(c) }),
                None => None,
            }
        }
    }
}

/// The command line that the words of `args` (the program's name first)
/// give.
pub open spec fn parse_command_line(args: Seq<Seq<char>>) -> Option<CliV> {
    if args.len() == 0 {
        None
    } else {
        parse_words(args.skip(1), None, None)
    }
}

fn is_value_exec(t: &str) -> (r: bool)
    ensures
        r == is_value(t@),
{
    let c = chars_of(t);
    c.len() > 0 && c[0] != '-'
}

fn attached_value_exec(t: &str, name: &str) -> (r: Option<String>)
    ensures
        opt_str(r) == attached_value(t@, name@),
{
    let c = chars_of(t);
    let mut p = chars_of(name);
    p.push('=');
    let ghost pv = name@ + "="@;
    proof {
        reveal_strlit("=");
    }
    assert(p@ =~= pv);
    if c.len() <= p.len() {
        return None;
    }
    let mut i: usize = 0;
    while i < p.len()
        invariant
            i <= p@.len() < c@.len(),
            p@ == pv,
            pv == name@ + "="@,
            c@ == t@,
            forall|k: int| 0 <= k < i ==> c@[k] == p@[k],
        decreases p@.len() - i,
    {
        if c[i] != p[i] {
            assert(t@.take(pv.len() as int)[i as int] != pv[i as int]);
            return None;
        }
        i += 1;
    }
    assert(t@.take(pv.len() as int) =~= pv);
    let rest = sub_chars(&c, p.len(), c.len());
    assert(rest@ =~= t@.skip(pv.len() as int));
    Some(string_from_chars(rest.as_slice()))
}

fn subcommand_exec(name: &str, words: &[&str], from: usize) -> (r: Option<Command>)
    requires
        from <= words@.len(),
    ensures
        match r {
            Some(c) => subcommand(name@, words@.map_values(|w: &str| w@).skip(from as int)) == Some(
                c@,
            ),
            None => subcommand(name@, words@.map_values(|w: &str| w@).skip(from as int)) is None,
        },
{
    let ghost rv = words@.map_values(|w: &str| w@).skip(from as int);
    let n = words.len() - from;
    assert(rv.len() == n);
    assert(n >= 1 ==> rv[0] == words@[from as int]@);
    assert(n >= 2 ==> rv[1] == words@[from + 1]@);
    if str_eq(name, "devices") && n == 0 {
        return Some(Command::Devices);
    }
    if str_eq(name, "enroll") && n == 0 {
        return Some(Command::Enroll);
    }
    if str_eq(name, "session") && n == 0 {
        return Some(Command::Session);
    }
    if str_eq(name, "unenroll") && n == 0 {
        return Some(Command::Unenroll);
    }
    if str_eq(name, "pair") {
        if n == 0 {
            return Some(Command::Pair { code: None });
        }
        if n == 1 && is_value_exec(words[from]) {
            return Some(Command::Pair { code: Some(words[from].to_owned()) });
        }
        return None;
    }
    if str_eq(name, "probe") {
        if n == 2 && str_eq(words[from], "--device") && is_value_exec(words[from + 1]) {
            return Some(Command::Probe { device: words[from + 1].to_owned() });
        }
        if n == 1 {
            match attached_value_exec(words[from], "--device") {
                Some(v) => return Some(Command::Probe { device: v }),
                None => return None,
            }
        }
        return None;
    }
    if str_eq(name, "revoke-client") {
        if n == 1 && is_value_exec(words[from]) {
            return Some(Command::RevokeClient { client_id: words[from].to_owned() });
        }
        return None;
    }
    None
}

fn parse_words_exec(words: &[&str], from: usize, device: Option<String>, cwd: Option<String>) -> (r: Option<Cli>)
    requires
        from <= words@.len(),
    ensures
        match r {
            Some(c) => parse_words(
                words@.map_values(|w: &str| w@).skip(from as int),
                opt_str(device),
                opt_str(cwd),
            ) == Some(c@),
            None => parse_words(
                words@.map_values(|w: &str| w@).skip(from as int),
                opt_str(device),
                opt_str(cwd),
            ) is None,
        },
    decreases words@.len() - from,
{
    let ghost all = words@.map_values(|w: &str| w@);
    let ghost wv = all.skip(from as int);
    if from == words.len() {
        assert(wv.len() == 0);
        return Some(Cli { device, remote_cwd: cwd, command: None });
    }
    let t = words[from];
    assert(wv[0] == t@);
    assert(from + 1 < words@.len() ==> wv[1] == words@[from + 1]@);
    assert(wv.skip(1) =~= all.skip(from + 1));
    assert(from + 2 <= words@.len() ==> wv.skip(2) =~= all.skip(from + 2));
    if str_eq(t, "--device") {
        if device.is_none() && words.len() - from >= 2 && is_value_exec(words[from + 1]) {
            return parse_words_exec(words, from + 2, Some(words[from + 1].to_owned()), cwd);
        }
        return None;
    }
    match attached_value_exec(t, "--device") {
        Some(v) => {
            if device.is_none() {
                return parse_words_exec(words, from + 1, Some(v), cwd);
            }
            return None;
        },
        None => {},
    }
    if str_eq(t, "-C") || str_eq(t, "--cd") {
        if cwd.is_none() && words.len() - from >= 2 && is_value_exec(words[from + 1]) {
            return parse_words_exec(words, from + 2, device, Some(words[from + 1].to_owned()));
        }
        return None;
    }
    match attached_value_exec(t, "--cd") {
        Some(v) => {
            if cwd.is_none() {
                return parse_words_exec(words, from + 1, device, Some(v));
            }
            return None;
        },
        None => {},
    }
    match subcommand_exec(t, words, from + 1) {
        Some(c) => Some(Cli { device, remote_cwd: cwd, command: Some(c) }),
        None => None,
    }
}

impl Cli {
    /// Reads a command line whose first word is the program's name.
    pub fn try_parse_from(args: &[&str]) -> (r: Result<Cli, Error>)
        ensures
            match r {
                Ok(c) => parse_command_line(args@.map_values(|w: &str| w@)) == Some(c@),
                Err(e) => e == Error::UnrecognisedCommandLine && parse_command_line(
                    args@.map_values(|w: &str| w@),
                ) is None,
            },
    {
        if args.len() == 0 {
            return Err(Error::UnrecognisedCommandLine);
        }
        match parse_words_exec(args, 1, None, None) {
            Some(c) => Ok(c),
            None => Err(Error::UnrecognisedCommandLine),
        }
    }
}

} // verus!
