//! Where the bar's configuration comes from: the command line, the format of a
//! configuration file, and the command that starts a provider.
use crate::text::{chars_of, range_eq, string_of_range};
use vstd::prelude::*;

verus! {

/// The bar's command line: files to read instead of those in the configuration directory.
pub struct Args {
    pub providers: Option<String>,
    pub layout: Option<String>,
}

/// The formats a configuration file may have.
#[derive(Clone, Copy, Debug, PartialEq, Eq, Structural)]
pub enum ConfigFormat {
    Yaml,
    Kdl,
}

/// The format a file extension names: `yaml` and `yml` for YAML, `kdl` for KDL.
pub open spec fn format_of_extension(ext: Seq<char>) -> Option<ConfigFormat> {
    if ext == "yaml"@ || ext == "yml"@ {
        Some(ConfigFormat::Yaml)
    } else if ext == "kdl"@ {
        Some(ConfigFormat::Kdl)
    } else {
        None
    }
}

/// The format of a configuration file with extension `ext`.
pub fn config_format(ext: &str) -> (r: Option<ConfigFormat>)
    ensures
        r == format_of_extension(ext@),
{
    let v = chars_of(ext);
    assert(v@.subrange(0, v.len() as int) =~= v@);
    proof {
        reveal_strlit("yaml");
        reveal_strlit("yml");
        reveal_strlit("kdl");
        assert("yaml"@ =~= seq!['y', 'a', 'm', 'l']);
        assert("yml"@ =~= seq!['y', 'm', 'l']);
        assert("kdl"@ =~= seq!['k', 'd', 'l']);
    }
    if range_eq(&v, 0, v.len(), &['y', 'a', 'm', 'l']) || range_eq(&v, 0, v.len(), &['y', 'm', 'l']) {
        Some(ConfigFormat::Yaml)
    } else if range_eq(&v, 0, v.len(), &['k', 'd', 'l']) {
        Some(ConfigFormat::Kdl)
    } else {
        None
    }
}

/// The order in which the configuration directory is searched when no file is named.
pub fn search_order() -> (r: Vec<(ConfigFormat, &'static str)>)
    ensures
        r@.len() == 3,
        r@[0].0 == ConfigFormat::Kdl && r@[0].1@ == "kdl"@,
        r@[1].0 == ConfigFormat::Yaml && r@[1].1@ == "yaml"@,
        r@[2].0 == ConfigFormat::Yaml && r@[2].1@ == "yml"@,
{
    let mut r: Vec<(ConfigFormat, &'static str)> = Vec::new();
    r.push((ConfigFormat::Kdl, "kdl"));
    r.push((ConfigFormat::Yaml, "yaml"));
    r.push((ConfigFormat::Yaml, "yml"));
    r
}

/// How a provider's program path refers to the home directory.
#[derive(Clone, Debug, PartialEq, Eq)]
pub enum HomePath {
    /// `~`: the home directory itself.
    Home,
    /// `~/rest`: `rest` under the home directory.
    UnderHome(String),
    /// Any other path, as it is.
    Plain(String),
}

/// What a program path means: `~` is the home directory, `~/rest` is `rest`
/// under it, anything else stands as written.
pub open spec fn home_path_spec(path: Seq<char>) -> (u8, Seq<char>) {
    if path == seq!['~'] {
        (0, Seq::empty())
    } else if path.len() >= 2 && path[0] == '~' && path[1] == '/' {
        (1, path.subrange(2, path.len() as int))
    } else {
        (2, path)
    }
}

/// Splits a program path at a leading `~`.
pub fn expand_home(path: &str) -> (r: HomePath)
    ensures
        match r {
            HomePath::Home => home_path_spec(path@).0 == 0,
            HomePath::UnderHome(rest) => home_path_spec(path@).0 == 1 && rest@ == home_path_spec(path@).1,
            HomePath::Plain(p) => home_path_spec(path@).0 == 2 && p@ == path@,
        },
{
    let v = chars_of(path);
    let tilde: &[char] = &['~'];
    assert(tilde@ =~= seq!['~']);
    assert(v@.subrange(0, v.len() as int) =~= v@);
    if range_eq(&v, 0, v.len(), tilde) {
        HomePath::Home
    } else if v.len() >= 2 && v[0] == '~' && v[1] == '/' {
        HomePath::UnderHome(string_of_range(&v, 2, v.len()))
    } else {
        HomePath::Plain(path.to_owned())
    }
}

/// Why a provider could not be started.
#[derive(Clone, Debug, PartialEq, Eq)]
pub enum ProviderErrorKind {
    /// Its command is empty.
    ProgramMissing,
    /// Its program does not exist.
    ProgramNotFound(String),
    /// Starting the program failed.
    SpawnError { program: String, args: Vec<String> },
}

/// The program of a provider's command and its arguments.
pub fn split_command(command: &Vec<String>) -> (r: Result<(String, Vec<String>), ProviderErrorKind>)
    ensures
        match r {
            Ok((program, args)) => command@.len() > 0 && program == command@[0] && args@ == command@.drop_first(),
            Err(e) => command@.len() == 0 && e == ProviderErrorKind::ProgramMissing,
        },
{
    if command.len() == 0 {
        return Err(ProviderErrorKind::ProgramMissing);
    }
    let program = command[0].clone();
    let mut args: Vec<String> = Vec::new();
    let mut i: usize = 1;
    while i < command.len()
        invariant
            1 <= i <= command.len(),
            args@ == command@.subrange(1, i as int),
        decreases command.len() - i,
    {
        args.push(command[i].clone());
        i += 1;
        assert(args@ =~= command@.subrange(1, i as int));
    }
    assert(args@ =~= command@.drop_first());
    Ok((program, args))
}

} // verus!
