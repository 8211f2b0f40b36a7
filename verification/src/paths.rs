//! Where tailcloak keeps its files, after the XDG base directory convention.
//!
//! Paths are held as text. The environment (the variables and the home
//! directory) is read by the caller and handed in.
use vstd::prelude::*;
use vstd::string::*;

use crate::text::push_char;

verus! {

/// `Path::join` on Unix: an absolute `rel` replaces `base`; otherwise `rel` is
/// appended, with a `/` in between unless `base` is empty or ends in one.
pub open spec fn path_join(base: Seq<char>, rel: Seq<char>) -> Seq<char> {
    if rel.len() > 0 && rel[0] == '/' {
        rel
    } else if base.len() == 0 || base.last() == '/' {
        base + rel
    } else {
        base + seq!['/'] + rel
    }
}

/// Why a directory could not be determined.
#[derive(Clone, Copy, PartialEq, Eq, Structural, Debug)]
pub enum DirError {
    /// The variable was unset or empty and there is no home directory.
    NoHomeDirectory,
}

impl DirError {
    /// The error's text.
    pub fn message(&self) -> (m: &'static str)
        ensures
            m@ == "could not determine home directory"@,
    {
        "could not determine home directory"
    }
}

/// An XDG base directory: the variable's value where it is set and not empty,
/// else `fallback` under the home directory, else an error.
pub open spec fn xdg_dir(var: Option<Seq<char>>, home: Option<Seq<char>>, fallback: Seq<char>) -> Result<
    Seq<char>,
    DirError,
> {
    match var {
        Some(v) if v.len() > 0 => Ok(v),
        _ => match home {
            Some(h) => Ok(path_join(h, fallback)),
            None => Err(DirError::NoHomeDirectory),
        },
    }
}

/// `xdg_dir(var, home, fallback)` with `sub` joined to it.
pub open spec fn xdg_subdir(
    var: Option<Seq<char>>,
    home: Option<Seq<char>>,
    fallback: Seq<char>,
    sub: Seq<char>,
) -> Result<Seq<char>, DirError> {
    match xdg_dir(var, home, fallback) {
        Ok(d) => Ok(path_join(d, sub)),
        Err(e) => Err(e),
    }
}

/// The view of an optional string slice.
pub open spec fn opt_view(o: Option<&str>) -> Option<Seq<char>> {
    match o {
        Some(s) => Some(s@),
        None => None,
    }
}

/// The view of a path result.
pub open spec fn path_result_view(r: Result<String, DirError>) -> Result<Seq<char>, DirError> {
    match r {
        Ok(s) => Ok(s@),
        Err(e) => Err(e),
    }
}

/// `Path::join`.
pub fn join(base: &str, rel: &str) -> (p: String)
    ensures
        p@ == path_join(base@, rel@),
{
    let rel_len = rel.unicode_len();
    if rel_len > 0 && rel.get_char(0) == '/' {
        return rel.to_string();
    }
    let mut p = base.to_string();
    let base_len = base.unicode_len();
    if base_len > 0 && base.get_char(base_len - 1) != '/' {
        push_char(&mut p, '/');
    }
    p.append(rel);
    p
}

fn xdg_dir_join(var: Option<&str>, home: Option<&str>, fallback: &str, sub: &str) -> (r: Result<
    String,
    DirError,
>)
    ensures
        path_result_view(r) == xdg_subdir(opt_view(var), opt_view(home), fallback@, sub@),
{
    match var {
        Some(v) if v.unicode_len() > 0 => {
            return Ok(join(v, sub));
        },
        _ => {},
    }
    match home {
        Some(h) => {
            let d = join(h, fallback);
            Ok(join(d.as_str(), sub))
        },
        None => Err(DirError::NoHomeDirectory),
    }
}

/// tailcloak's configuration directory: `$XDG_CONFIG_HOME/tailcloak`, or
/// `~/.config/tailcloak` where that variable is unset or empty.
pub fn config_dir(xdg_config_home: Option<&str>, home: Option<&str>) -> (r: Result<
    String,
    DirError,
>)
    ensures
        path_result_view(r) == xdg_subdir(
            opt_view(xdg_config_home),
            opt_view(home),
            ".config"@,
            "tailcloak"@,
        ),
{
    xdg_dir_join(xdg_config_home, home, ".config", "tailcloak")
}

/// tailcloak's runtime-state directory (the pause window):
/// `$XDG_STATE_HOME/tailcloak`, or `~/.local/state/tailcloak`.
pub fn state_dir(xdg_state_home: Option<&str>, home: Option<&str>) -> (r: Result<
    String,
    DirError,
>)
    ensures
        path_result_view(r) == xdg_subdir(
            opt_view(xdg_state_home),
            opt_view(home),
            ".local/state"@,
            "tailcloak"@,
        ),
{
    xdg_dir_join(xdg_state_home, home, ".local/state", "tailcloak")
}

/// The configuration file: `config.toml` in the configuration directory.
pub fn config_path(xdg_config_home: Option<&str>, home: Option<&str>) -> (r: Result<
    String,
    DirError,
>)
    ensures
        path_result_view(r) == match xdg_subdir(
            opt_view(xdg_config_home),
            opt_view(home),
            ".config"@,
            "tailcloak"@,
        ) {
            Ok(d) => Ok(path_join(d, "config.toml"@)),
            Err(e) => Err(e),
        },
{
    match config_dir(xdg_config_home, home) {
        Ok(d) => Ok(join(d.as_str(), "config.toml")),
        Err(e) => Err(e),
    }
}

/// The pause file: `pause-until` in the state directory.
pub fn pause_path(xdg_state_home: Option<&str>, home: Option<&str>) -> (r: Result<
    String,
    DirError,
>)
    ensures
        path_result_view(r) == match xdg_subdir(
            opt_view(xdg_state_home),
            opt_view(home),
            ".local/state"@,
            "tailcloak"@,
        ) {
            Ok(d) => Ok(path_join(d, "pause-until"@)),
            Err(e) => Err(e),
        },
{
    match state_dir(xdg_state_home, home) {
        Ok(d) => Ok(join(d.as_str(), "pause-until")),
        Err(e) => Err(e),
    }
}

} // verus!
