//! Finding the Tailscale CLI and turning Tailscale up or down with it.
//!
//! The library decides which program to run with which argument and what its
//! exit means; the caller looks at the file system and runs the program.
use vstd::prelude::*;
use vstd::string::*;

verus! {

/// Where the Tailscale CLI is looked for, in this order: the Tailscale.app CLI
/// shim or Intel Homebrew, Apple Silicon Homebrew, the app bundle, the system.
pub open spec fn candidate_paths() -> Seq<Seq<char>> {
    seq![
        "/usr/local/bin/tailscale"@,
        "/opt/homebrew/bin/tailscale"@,
        "/Applications/Tailscale.app/Contents/MacOS/Tailscale"@,
        "/usr/bin/tailscale"@,
    ]
}

/// The number of candidate locations.
pub const NUM_CANDIDATES: usize = 4;

/// The `i`-th candidate location.
pub fn candidate_path(i: usize) -> (p: &'static str)
    requires
        i < NUM_CANDIDATES,
    ensures
        p@ == candidate_paths()[i as int],
{
    if i == 0 {
        "/usr/local/bin/tailscale"
    } else if i == 1 {
        "/opt/homebrew/bin/tailscale"
    } else if i == 2 {
        "/Applications/Tailscale.app/Contents/MacOS/Tailscale"
    } else {
        "/usr/bin/tailscale"
    }
}

/// `is_file` answered `answer` when asked about the `i`-th candidate.
pub open spec fn answered<F: Fn(&str) -> bool>(is_file: F, i: int, answer: bool) -> bool {
    exists|p: &str| p@ == candidate_paths()[i] && #[trigger] call_ensures(is_file, (p,), answer)
}

/// `found` is what resolving gives where `is_file` answers as it did: the
/// first candidate it said yes to, after a no for each before it; `None` after a
/// no for every candidate.
pub open spec fn resolved<F: Fn(&str) -> bool>(is_file: F, found: Option<&'static str>) -> bool {
    match found {
        Some(p) => exists|i: int|
            0 <= i < NUM_CANDIDATES && p@ == candidate_paths()[i] && answered(is_file, i, true)
                && forall|j: int| 0 <= j < i ==> answered(is_file, j, false),
        None => forall|j: int| 0 <= j < NUM_CANDIDATES ==> answered(is_file, j, false),
    }
}

/// An absolute path: it starts at the root.
pub open spec fn is_absolute(p: Seq<char>) -> bool {
    p.len() > 0 && p[0] == '/'
}

/// Every candidate location is an absolute path, so none depends on the
/// working directory or `$PATH`.
pub proof fn lemma_candidates_absolute()
    ensures
        forall|i: int| 0 <= i < NUM_CANDIDATES ==> is_absolute(#[trigger] candidate_paths()[i]),
{
    reveal_strlit("/usr/local/bin/tailscale");
    reveal_strlit("/opt/homebrew/bin/tailscale");
    reveal_strlit("/Applications/Tailscale.app/Contents/MacOS/Tailscale");
    reveal_strlit("/usr/bin/tailscale");
    assert(is_absolute(candidate_paths()[0]));
    assert(is_absolute(candidate_paths()[1]));
    assert(is_absolute(candidate_paths()[2]));
    assert(is_absolute(candidate_paths()[3]));
}

/// `is_file` answers about the candidates as the file system `present` says:
/// whatever it answered about the `i`-th candidate is `present[i]`.
pub open spec fn answers_as<F: Fn(&str) -> bool>(is_file: F, present: Seq<bool>) -> bool {
    &&& present.len() == NUM_CANDIDATES
    &&& forall|i: int, b: bool| 0 <= i < NUM_CANDIDATES && #[trigger] answered(is_file, i, b) ==> b == present[i]
}

/// Two resolutions against the same files at the candidate locations give the
/// same location, whatever else differs between them (the working directory,
/// `$PATH`): the result depends on the four file tests alone.
pub proof fn law_resolve_depends_only_on_files<F: Fn(&str) -> bool, G: Fn(&str) -> bool>(
    f: F,
    g: G,
    present: Seq<bool>,
    r1: Option<&'static str>,
    r2: Option<&'static str>,
)
    requires
        answers_as(f, present),
        answers_as(g, present),
        resolved(f, r1),
        resolved(g, r2),
    ensures
        match (r1, r2) {
            (Some(a), Some(b)) => a@ == b@,
            (None, None) => true,
            _ => false,
        },
{
    match r1 {
        Some(a) => {
            let i = choose|i: int|
                0 <= i < NUM_CANDIDATES && a@ == candidate_paths()[i] && answered(f, i, true)
                    && forall|j: int| 0 <= j < i ==> answered(f, j, false);
            assert(present[i]);
            match r2 {
                Some(b) => {
                    let k = choose|k: int|
                        0 <= k < NUM_CANDIDATES && b@ == candidate_paths()[k] && answered(g, k, true)
                            && forall|j: int| 0 <= j < k ==> answered(g, j, false);
                    assert(present[k]);
                    if k < i {
                        assert(answered(f, k, false));
                    }
                    if i < k {
                        assert(answered(g, i, false));
                    }
                },
                None => {
                    assert(answered(g, i, false));
                },
            }
        },
        None => {
            match r2 {
                Some(b) => {
                    let k = choose|k: int|
                        0 <= k < NUM_CANDIDATES && b@ == candidate_paths()[k] && answered(g, k, true)
                            && forall|j: int| 0 <= j < k ==> answered(g, j, false);
                    assert(present[k]);
                    assert(answered(f, k, false));
                },
                None => {},
            }
        },
    }
}

/// The first candidate location that is a file, asking `is_file` about each in
/// turn (symbolic links followed, as `Path::is_file` does) and stopping at the
/// first yes.
pub fn resolve<F: Fn(&str) -> bool>(is_file: F) -> (r: Option<&'static str>)
    requires
        forall|p: &str| call_requires(is_file, (p,)),
    ensures
        resolved(is_file, r),
        r matches Some(p) ==> is_absolute(p@),
{
    proof {
        lemma_candidates_absolute();
    }
    let mut i: usize = 0;
    while i < NUM_CANDIDATES
        invariant
            i <= NUM_CANDIDATES,
            forall|p: &str| call_requires(is_file, (p,)),
            forall|j: int| 0 <= j < i ==> answered(is_file, j, false),
            forall|j: int| 0 <= j < NUM_CANDIDATES ==> is_absolute(#[trigger] candidate_paths()[j]),
        decreases NUM_CANDIDATES - i,
    {
        let p = candidate_path(i);
        let found = is_file(p);
        assert(call_ensures(is_file, (p,), found));
        if found {
            assert(answered(is_file, i as int, true));
            return Some(p);
        }
        assert(answered(is_file, i as int, false));
        i = i + 1;
    }
    None
}

/// The two things tailcloak asks of Tailscale.
#[derive(Clone, Copy, PartialEq, Eq, Structural, Debug)]
pub enum Toggle {
    Up,
    Down,
}

impl Toggle {
    /// The CLI argument of the toggle.
    pub open spec fn arg_spec(self) -> Seq<char> {
        match self {
            Toggle::Up => "up"@,
            Toggle::Down => "down"@,
        }
    }

    /// The CLI argument: `up` or `down`.
    pub fn arg(&self) -> (a: &'static str)
        ensures
            a@ == self.arg_spec(),
    {
        match self {
            Toggle::Up => "up",
            Toggle::Down => "down",
        }
    }
}

/// A run of the Tailscale CLI: `program arg`.
#[derive(Clone, Copy, PartialEq, Eq, Debug)]
pub struct Invocation {
    pub program: &'static str,
    pub toggle: Toggle,
}

/// Why Tailscale could not be toggled.
#[derive(PartialEq, Eq, Debug)]
pub enum TailscaleError {
    /// No candidate location holds the CLI.
    CliNotFound,
    /// The CLI ran and exited unsuccessfully, with this exit status text.
    Failed { toggle: Toggle, status: String },
}

impl TailscaleError {
    /// The text of an error.
    pub open spec fn message_spec(self) -> Seq<char> {
        match self {
            TailscaleError::CliNotFound => "tailscale CLI not found"@,
            TailscaleError::Failed { toggle, status } => "tailscale "@ + toggle.arg_spec()
                + " exited with "@ + status@,
        }
    }

    /// The error's text: `tailscale CLI not found`, or
    /// `tailscale <arg> exited with <status>`.
    pub fn message(&self) -> (m: String)
        ensures
            m@ == self.message_spec(),
    {
        match self {
            TailscaleError::CliNotFound => "tailscale CLI not found".to_string(),
            TailscaleError::Failed { toggle, status } => {
                let mut m = "tailscale ".to_string();
                m.append(toggle.arg());
                m.append(" exited with ");
                m.append(status.as_str());
                m
            },
        }
    }
}

/// What running the CLI for a toggle is to do, from what resolving found.
pub open spec fn invocation_spec(found: Option<&'static str>, toggle: Toggle) -> Result<
    Invocation,
    TailscaleError,
> {
    match found {
        Some(p) => Ok(Invocation { program: p, toggle }),
        None => Err(TailscaleError::CliNotFound),
    }
}

/// Resolves the CLI and returns the run to make for `toggle`.
fn invocation<F: Fn(&str) -> bool>(is_file: F, toggle: Toggle) -> (r: Result<
    Invocation,
    TailscaleError,
>)
    requires
        forall|p: &str| call_requires(is_file, (p,)),
    ensures
        exists|found: Option<&'static str>|
            r == invocation_spec(found, toggle) && #[trigger] resolved(is_file, found),
{
    let found = resolve(is_file);
    let r = match found {
        Some(program) => Ok(Invocation { program, toggle }),
        None => Err(TailscaleError::CliNotFound),
    };
    assert(r == invocation_spec(found, toggle) && resolved(is_file, found));
    r
}

/// Turning Tailscale up: the CLI found by `resolve`, run with `up`, or an
/// error where no candidate location holds it.
pub fn up<F: Fn(&str) -> bool>(is_file: F) -> (r: Result<Invocation, TailscaleError>)
    requires
        forall|p: &str| call_requires(is_file, (p,)),
    ensures
        exists|found: Option<&'static str>|
            r == invocation_spec(found, Toggle::Up) && #[trigger] resolved(is_file, found),
{
    invocation(is_file, Toggle::Up)
}

/// Turning Tailscale down: the CLI found by `resolve`, run with `down`, or an
/// error where no candidate location holds it.
pub fn down<F: Fn(&str) -> bool>(is_file: F) -> (r: Result<Invocation, TailscaleError>)
    requires
        forall|p: &str| call_requires(is_file, (p,)),
    ensures
        exists|found: Option<&'static str>|
            r == invocation_spec(found, Toggle::Down) && #[trigger] resolved(is_file, found),
{
    invocation(is_file, Toggle::Down)
}

/// What a finished run means: success where the CLI exited successfully, else
/// the failure with the exit status text.
pub fn exit_outcome(toggle: Toggle, success: bool, status: &str) -> (r: Result<(), TailscaleError>)
    ensures
        success ==> r == Ok::<(), TailscaleError>(()),
        !success ==> (r matches Err(TailscaleError::Failed { toggle: t, status: s }) && t == toggle
            && s@ == status@),
{
    if success {
        Ok(())
    } else {
        Err(TailscaleError::Failed { toggle, status: status.to_string() })
    }
}

} // verus!
