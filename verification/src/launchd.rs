//! The launchd LaunchAgent that runs the daemon (macOS).
//!
//! The agent's plist points at the binary that installs it; it is kept in
//! `~/Library/LaunchAgents/` and loaded with `launchctl` into the user's GUI
//! domain. This module renders the plist and computes the paths and launchctl
//! targets; the caller writes the files and runs `launchctl`.
use vstd::prelude::*;
use vstd::string::*;
use vstd::utf8::{decode_utf8, valid_utf8};

use crate::paths::{join, path_join};
use crate::text::{
    chars_of, contains_text, decimal_string, decimal_text, lemma_contains_middle, string_of, trim,
    trim_bounds,
};

verus! {

/// Reverse-DNS service identifier: the launchd job `Label`, the plist's file
/// name and the `SCDynamicStore` session name.
pub const LABEL: &'static str = "dev.fmeier.tailcloak";

/// The text of the plist before the label.
pub open spec fn plist_head() -> Seq<char> {
    "<?xml version=\"1.0\" encoding=\"UTF-8\"?>\n<!DOCTYPE plist PUBLIC \"-//Apple//DTD PLIST 1.0//EN\" \"http://www.apple.com/DTDs/PropertyList-1.0.dtd\">\n<plist version=\"1.0\">\n<dict>\n    <key>Label</key>\n    <string>"@
}

/// The text between the label and the program path.
pub open spec fn plist_after_label() -> Seq<char> {
    "</string>\n    <key>ProgramArguments</key>\n    <array>\n        <string>"@
}

/// The text between the program path and the first log path.
pub open spec fn plist_after_exe() -> Seq<char> {
    "</string>\n    </array>\n    <key>RunAtLoad</key>\n    <true/>\n    <key>KeepAlive</key>\n    <dict>\n        <key>SuccessfulExit</key>\n        <false/>\n    </dict>\n    <key>StandardOutPath</key>\n    <string>"@
}

/// The text between the two log paths.
pub open spec fn plist_between_logs() -> Seq<char> {
    "</string>\n    <key>StandardErrorPath</key>\n    <string>"@
}

/// The text after the second log path.
pub open spec fn plist_tail() -> Seq<char> {
    "</string>\n</dict>\n</plist>\n"@
}

/// The LaunchAgent plist for the binary at `exe` logging to `log`: the job
/// runs at load, is restarted unless it exits successfully, and sends both
/// standard output and standard error to `log`.
pub open spec fn plist_spec(exe: Seq<char>, log: Seq<char>) -> Seq<char> {
    plist_head() + LABEL@ + plist_after_label() + exe + plist_after_exe() + log
        + plist_between_logs() + log + plist_tail()
}

/// The plist keeps the agent alive after an unsuccessful exit (launchd
/// restarts a crashed daemon, but not one that exited successfully), runs it
/// at load, and names its program, its label and its log in `<string>`
/// elements, for every program and log path.
pub proof fn law_plist_keeps_agent_alive(exe: Seq<char>, log: Seq<char>)
    ensures
        contains_text(
            plist_spec(exe, log),
            "<key>KeepAlive</key>\n    <dict>\n        <key>SuccessfulExit</key>\n        <false/>\n    </dict>"@,
        ),
        contains_text(plist_spec(exe, log), "<key>RunAtLoad</key>\n    <true/>"@),
        contains_text(plist_spec(exe, log), "<string>"@ + exe + "</string>"@),
        contains_text(plist_spec(exe, log), "<string>"@ + log + "</string>"@),
        contains_text(plist_spec(exe, log), "<string>"@ + "dev.fmeier.tailcloak"@ + "</string>"@),
{
    let h = plist_head();
    let l = LABEL@;
    let a = plist_after_label();
    let e = plist_after_exe();
    let b = plist_between_logs();
    let t = plist_tail();
    let s = plist_spec(exe, log);
    let open_tag = "<string>"@;
    let close_tag = "</string>"@;
    let keep = "<key>KeepAlive</key>\n    <dict>\n        <key>SuccessfulExit</key>\n        <false/>\n    </dict>"@;
    let run = "<key>RunAtLoad</key>\n    <true/>"@;
    reveal_strlit("<?xml version=\"1.0\" encoding=\"UTF-8\"?>\n<!DOCTYPE plist PUBLIC \"-//Apple//DTD PLIST 1.0//EN\" \"http://www.apple.com/DTDs/PropertyList-1.0.dtd\">\n<plist version=\"1.0\">\n<dict>\n    <key>Label</key>\n    <string>");
    reveal_strlit("dev.fmeier.tailcloak");
    reveal_strlit("</string>\n    <key>ProgramArguments</key>\n    <array>\n        <string>");
    reveal_strlit("</string>\n    </array>\n    <key>RunAtLoad</key>\n    <true/>\n    <key>KeepAlive</key>\n    <dict>\n        <key>SuccessfulExit</key>\n        <false/>\n    </dict>\n    <key>StandardOutPath</key>\n    <string>");
    reveal_strlit("</string>\n    <key>StandardErrorPath</key>\n    <string>");
    reveal_strlit("<key>KeepAlive</key>\n    <dict>\n        <key>SuccessfulExit</key>\n        <false/>\n    </dict>");
    reveal_strlit("<key>RunAtLoad</key>\n    <true/>");
    reveal_strlit("<string>");
    reveal_strlit("</string>");
    // KeepAlive and RunAtLoad stand inside the text after the program path.
    assert(e.subrange(64, 158) =~= keep);
    assert(e.subrange(27, 59) =~= run);
    let before_e = h + l + a + exe;
    let after_e = log + b + log + t;
    assert(s =~= (before_e + e.subrange(0, 64)) + keep + (e.subrange(158, e.len() as int) + after_e));
    lemma_contains_middle(before_e + e.subrange(0, 64), keep, e.subrange(158, e.len() as int) + after_e);
    assert(s =~= (before_e + e.subrange(0, 27)) + run + (e.subrange(59, e.len() as int) + after_e));
    lemma_contains_middle(before_e + e.subrange(0, 27), run, e.subrange(59, e.len() as int) + after_e);
    // The program path between the tags that close `a` and open `e`.
    assert(a.subrange(a.len() - 8, a.len() as int) =~= open_tag);
    assert(e.subrange(0, 9) =~= close_tag);
    assert(s =~= (h + l + a.subrange(0, a.len() - 8)) + (open_tag + exe + close_tag) + (e.subrange(
        9,
        e.len() as int,
    ) + after_e));
    lemma_contains_middle(
        h + l + a.subrange(0, a.len() - 8),
        open_tag + exe + close_tag,
        e.subrange(9, e.len() as int) + after_e,
    );
    // The log path between the tags that close `e` and open `b`.
    assert(e.subrange(e.len() - 8, e.len() as int) =~= open_tag);
    assert(b.subrange(0, 9) =~= close_tag);
    assert(s =~= (h + l + a + exe + e.subrange(0, e.len() - 8)) + (open_tag + log + close_tag) + (
    b.subrange(9, b.len() as int) + log + t));
    lemma_contains_middle(
        h + l + a + exe + e.subrange(0, e.len() - 8),
        open_tag + log + close_tag,
        b.subrange(9, b.len() as int) + log + t,
    );
    // The label between the tags that close `h` and open `a`.
    assert(h.subrange(h.len() - 8, h.len() as int) =~= open_tag);
    assert(a.subrange(0, 9) =~= close_tag);
    assert(s =~= h.subrange(0, h.len() - 8) + (open_tag + l + close_tag) + (a.subrange(
        9,
        a.len() as int,
    ) + exe + e + after_e));
    lemma_contains_middle(
        h.subrange(0, h.len() - 8),
        open_tag + l + close_tag,
        a.subrange(9, a.len() as int) + exe + e + after_e,
    );
}

/// Renders the LaunchAgent plist. The paths are put in as they are: they are
/// assumed to hold no XML metacharacters (`& < >`), as normal macOS home paths
/// do.
pub fn plist_contents(exe: &str, log: &str) -> (s: String)
    ensures
        s@ == plist_spec(exe@, log@),
        contains_text(
            s@,
            "<key>KeepAlive</key>\n    <dict>\n        <key>SuccessfulExit</key>\n        <false/>\n    </dict>"@,
        ),
        contains_text(s@, "<key>RunAtLoad</key>\n    <true/>"@),
        contains_text(s@, "<string>"@ + exe@ + "</string>"@),
        contains_text(s@, "<string>"@ + log@ + "</string>"@),
        contains_text(s@, "<string>"@ + "dev.fmeier.tailcloak"@ + "</string>"@),
{
    proof {
        law_plist_keeps_agent_alive(exe@, log@);
    }
    let mut s = "<?xml version=\"1.0\" encoding=\"UTF-8\"?>\n<!DOCTYPE plist PUBLIC \"-//Apple//DTD PLIST 1.0//EN\" \"http://www.apple.com/DTDs/PropertyList-1.0.dtd\">\n<plist version=\"1.0\">\n<dict>\n    <key>Label</key>\n    <string>".to_string();
    s.append(LABEL);
    s.append("</string>\n    <key>ProgramArguments</key>\n    <array>\n        <string>");
    s.append(exe);
    s.append("</string>\n    </array>\n    <key>RunAtLoad</key>\n    <true/>\n    <key>KeepAlive</key>\n    <dict>\n        <key>SuccessfulExit</key>\n        <false/>\n    </dict>\n    <key>StandardOutPath</key>\n    <string>");
    s.append(log);
    s.append("</string>\n    <key>StandardErrorPath</key>\n    <string>");
    s.append(log);
    s.append("</string>\n</dict>\n</plist>\n");
    s
}

/// Why an agent step failed.
#[derive(Clone, Copy, PartialEq, Eq, Structural, Debug)]
pub enum LaunchdError {
    /// `$HOME` is not set.
    HomeNotSet,
    /// `id -u` exited unsuccessfully.
    IdFailed,
    /// `id -u` printed something that is not UTF-8: the bytes before
    /// `valid_up_to` are UTF-8; `error_len` is the length of the invalid
    /// sequence that follows, or `None` where the output ends in the middle of
    /// a character.
    IdOutputNotUtf8 { valid_up_to: usize, error_len: Option<usize> },
}

impl LaunchdError {
    /// The text of an error.
    pub open spec fn message_spec(self) -> Seq<char> {
        match self {
            LaunchdError::HomeNotSet => "HOME is not set"@,
            LaunchdError::IdFailed => "`id -u` failed"@,
            LaunchdError::IdOutputNotUtf8 { valid_up_to, error_len } => match error_len {
                Some(n) => "invalid utf-8 sequence of "@ + decimal_text(n as nat)
                    + " bytes from index "@ + decimal_text(valid_up_to as nat),
                None => "incomplete utf-8 byte sequence from index "@ + decimal_text(
                    valid_up_to as nat,
                ),
            },
        }
    }

    /// The error's text; for output that is not UTF-8, the text of std's
    /// `Utf8Error`.
    pub fn message(&self) -> (m: String)
        ensures
            m@ == self.message_spec(),
    {
        match self {
            LaunchdError::HomeNotSet => "HOME is not set".to_string(),
            LaunchdError::IdFailed => "`id -u` failed".to_string(),
            LaunchdError::IdOutputNotUtf8 { valid_up_to, error_len } => match error_len {
                Some(n) => {
                    let mut m = "invalid utf-8 sequence of ".to_string();
                    let count = decimal_string(*n as u64);
                    m.append(count.as_str());
                    m.append(" bytes from index ");
                    let index = decimal_string(*valid_up_to as u64);
                    m.append(index.as_str());
                    m
                },
                None => {
                    let mut m = "incomplete utf-8 byte sequence from index ".to_string();
                    let index = decimal_string(*valid_up_to as u64);
                    m.append(index.as_str());
                    m
                },
            },
        }
    }
}

/// The view of a path result.
pub open spec fn launchd_result_view(r: Result<String, LaunchdError>) -> Result<
    Seq<char>,
    LaunchdError,
> {
    match r {
        Ok(s) => Ok(s@),
        Err(e) => Err(e),
    }
}

/// The agent's plist: `<LABEL>.plist` in `$HOME/Library/LaunchAgents` (an
/// Apple path, taken from `$HOME` directly rather than through XDG).
pub fn plist_path(home: Option<&str>) -> (r: Result<String, LaunchdError>)
    ensures
        launchd_result_view(r) == match home {
            Some(h) => Ok(path_join(path_join(h@, "Library/LaunchAgents"@), LABEL@ + ".plist"@)),
            None => Err(LaunchdError::HomeNotSet),
        },
{
    match home {
        Some(h) => {
            let dir = join(h, "Library/LaunchAgents");
            let mut name = LABEL.to_string();
            name.append(".plist");
            Ok(join(dir.as_str(), name.as_str()))
        },
        None => Err(LaunchdError::HomeNotSet),
    }
}

/// Where launchd sends the daemon's output: `$HOME/Library/Logs/tailcloak.log`.
pub fn log_path(home: Option<&str>) -> (r: Result<String, LaunchdError>)
    ensures
        launchd_result_view(r) == match home {
            Some(h) => Ok(path_join(h@, "Library/Logs/tailcloak.log"@)),
            None => Err(LaunchdError::HomeNotSet),
        },
{
    match home {
        Some(h) => Ok(join(h, "Library/Logs/tailcloak.log")),
        None => Err(LaunchdError::HomeNotSet),
    }
}

/// What `Utf8Error::error_len` gives for bytes that are not UTF-8: the length
/// of the invalid sequence after the valid prefix, or `None` where the bytes end
/// in the middle of a character.
pub uninterp spec fn utf8_error_len(bytes: Seq<u8>) -> Option<usize>;

/// `valid_up_to` is the longest prefix of `bytes` that is UTF-8, as
/// `Utf8Error::valid_up_to` documents it: the greatest index up to which the
/// bytes decode.
pub open spec fn is_valid_up_to(bytes: Seq<u8>, valid_up_to: usize) -> bool {
    &&& valid_up_to <= bytes.len()
    &&& valid_utf8(bytes.take(valid_up_to as int))
    &&& forall|j: int|
        valid_up_to < j <= bytes.len() ==> !valid_utf8(#[trigger] bytes.take(j))
}

/// `String::from_utf8`: the text that `bytes` encode, where they are UTF-8;
/// else the error's `valid_up_to` and `error_len`.
///
/// Claimed of it: success exactly on valid UTF-8, with the decoded text;
/// on failure `valid_up_to` is the greatest index up to which the bytes
/// decode, as std documents it. `error_len` is left to a name
/// (`utf8_error_len`): std defines it by the maximal invalid subpart, which
/// is not written out here.
#[verifier::external_body]
fn utf8_string(bytes: Vec<u8>) -> (r: Result<String, (usize, Option<usize>)>)
    ensures
        r is Ok <==> valid_utf8(bytes@),
        r matches Ok(s) ==> s@ == decode_utf8(bytes@),
        r matches Err(e) ==> is_valid_up_to(bytes@, e.0) && e.1 == utf8_error_len(bytes@),
{
    match String::from_utf8(bytes) {
        Ok(s) => Ok(s),
        Err(e) => Err((e.utf8_error().valid_up_to(), e.utf8_error().error_len())),
    }
}

/// The numeric user id from a run of `id -u`: its standard output, decoded as
/// UTF-8 and trimmed, where the run succeeded.
pub fn uid_from_output(success: bool, stdout: Vec<u8>) -> (r: Result<String, LaunchdError>)
    ensures
        !success ==> r == Err::<String, LaunchdError>(LaunchdError::IdFailed),
        success && !valid_utf8(stdout@) ==> (r matches Err(
            LaunchdError::IdOutputNotUtf8 { valid_up_to, error_len },
        ) && is_valid_up_to(stdout@, valid_up_to) && error_len == utf8_error_len(stdout@)),
        success && valid_utf8(stdout@) ==> (r matches Ok(uid) && uid@ == trim(
            decode_utf8(stdout@),
        )),
{
    if !success {
        return Err(LaunchdError::IdFailed);
    }
    match utf8_string(stdout) {
        Err((valid_up_to, error_len)) => Err(LaunchdError::IdOutputNotUtf8 { valid_up_to, error_len }),
        Ok(text) => {
            let cs = chars_of(text.as_str());
            let (lo, hi) = trim_bounds(&cs);
            let mut kept: Vec<char> = Vec::new();
            let mut i = lo;
            while i < hi
                invariant
                    lo <= i <= hi <= cs.len(),
                    kept@ == cs@.subrange(lo as int, i as int),
                decreases hi - i,
            {
                kept.push(cs[i]);
                assert(cs@.subrange(lo as int, i + 1) =~= cs@.subrange(lo as int, i as int).push(
                    cs@[i as int],
                ));
                i = i + 1;
            }
            Ok(string_of(&kept))
        },
    }
}

/// The user's GUI launchd domain: `gui/<uid>`.
pub fn gui_domain(uid: &str) -> (d: String)
    ensures
        d@ == "gui/"@ + uid@,
{
    let mut d = "gui/".to_string();
    d.append(uid);
    d
}

/// The agent's launchctl service target: `gui/<uid>/<LABEL>`.
pub fn service_target(uid: &str) -> (t: String)
    ensures
        t@ == "gui/"@ + uid@ + "/"@ + LABEL@,
{
    let mut t = gui_domain(uid);
    t.append("/");
    t.append(LABEL);
    t
}

/// What the exit of `launchctl bootstrap` means: success, or the error text
/// `launchctl bootstrap failed (<status>)`.
pub fn bootstrap_outcome(success: bool, status: &str) -> (r: Result<(), String>)
    ensures
        success ==> r == Ok::<(), String>(()),
        !success ==> (r matches Err(m) && m@ == "launchctl bootstrap failed ("@ + status@
            + ")"@),
{
    if success {
        Ok(())
    } else {
        let mut m = "launchctl bootstrap failed (".to_string();
        m.append(status);
        m.append(")");
        Err(m)
    }
}

} // verus!
