//! The command line: which command the arguments name, and what each command
//! reports.
use vstd::prelude::*;
use vstd::string::*;

use crate::mac::{mac_text, MacAddr};
use crate::text::{
    decimal_string, decimal_text, lemma_decimal_text, lemma_parse_decimal_text, parse_u64, parsed_u64,
    str_eq, trim,
};

verus! {

/// Why a `pause` command cannot run.
#[derive(Clone, Copy, PartialEq, Eq, Structural, Debug)]
pub enum CliError {
    /// No number of minutes was given.
    PauseUsage,
    /// The minutes are not an unsigned whole number.
    PauseNotANumber,
}

impl CliError {
    /// The text of an error.
    pub open spec fn message_spec(self) -> Seq<char> {
        match self {
            CliError::PauseUsage => "usage: tailcloak pause <minutes>"@,
            CliError::PauseNotANumber => "pause expects a whole number of minutes"@,
        }
    }

    /// The error's text.
    pub fn message(&self) -> (m: &'static str)
        ensures
            m@ == self.message_spec(),
    {
        match self {
            CliError::PauseUsage => "usage: tailcloak pause <minutes>",
            CliError::PauseNotANumber => "pause expects a whole number of minutes",
        }
    }
}

/// A command of the binary.
#[derive(PartialEq, Eq, Debug)]
pub enum Command {
    /// No argument: run the daemon in the foreground.
    Daemon,
    /// `run-once`: reconcile once and exit.
    RunOnce,
    /// `trust-current`: trust the current network's gateway.
    TrustCurrent,
    /// `distrust-current`: stop trusting the current network's gateway.
    DistrustCurrent,
    /// `show-trusted`: list the trusted gateways.
    ShowTrusted,
    /// `pause <minutes>`: suspend toggling for that long; `0` resumes.
    Pause { minutes: u64 },
    /// `pause` with a missing or malformed number of minutes.
    PauseInvalid { error: CliError },
    /// `resume`: resume toggling now.
    Resume,
    /// `service install`: install and start the LaunchAgent.
    ServiceInstall,
    /// `service uninstall`: stop and remove the LaunchAgent.
    ServiceUninstall,
    /// `service` without a known sub-command (the unknown one, if any).
    ServiceUsage { unknown: Option<String> },
    /// `--help`, `-h` or `help`.
    Help,
    /// `--version` or `-V`.
    Version,
    /// Any other first argument.
    Unknown { arg: String },
}

/// A command with its texts as character sequences.
pub enum CommandModel {
    Daemon,
    RunOnce,
    TrustCurrent,
    DistrustCurrent,
    ShowTrusted,
    Pause { minutes: u64 },
    PauseInvalid { error: CliError },
    Resume,
    ServiceInstall,
    ServiceUninstall,
    ServiceUsage { unknown: Option<Seq<char>> },
    Help,
    Version,
    Unknown { arg: Seq<char> },
}

impl Command {
    /// The command with its texts as character sequences.
    pub open spec fn model(self) -> CommandModel {
        match self {
            Command::Daemon => CommandModel::Daemon,
            Command::RunOnce => CommandModel::RunOnce,
            Command::TrustCurrent => CommandModel::TrustCurrent,
            Command::DistrustCurrent => CommandModel::DistrustCurrent,
            Command::ShowTrusted => CommandModel::ShowTrusted,
            Command::Pause { minutes } => CommandModel::Pause { minutes },
            Command::PauseInvalid { error } => CommandModel::PauseInvalid { error },
            Command::Resume => CommandModel::Resume,
            Command::ServiceInstall => CommandModel::ServiceInstall,
            Command::ServiceUninstall => CommandModel::ServiceUninstall,
            Command::ServiceUsage { unknown } => CommandModel::ServiceUsage {
                unknown: match unknown {
                    Some(u) => Some(u@),
                    None => None,
                },
            },
            Command::Help => CommandModel::Help,
            Command::Version => CommandModel::Version,
            Command::Unknown { arg } => CommandModel::Unknown { arg: arg@ },
        }
    }
}

/// The `i`-th argument, if there is one.
pub open spec fn arg_at(args: Seq<Seq<char>>, i: int) -> Option<Seq<char>> {
    if 0 <= i < args.len() {
        Some(args[i])
    } else {
        None
    }
}

/// The `pause` command for its argument.
pub open spec fn pause_command(minutes: Option<Seq<char>>) -> CommandModel {
    match minutes {
        None => CommandModel::PauseInvalid { error: CliError::PauseUsage },
        Some(m) => match parsed_u64(m) {
            Some(n) => CommandModel::Pause { minutes: n },
            None => CommandModel::PauseInvalid { error: CliError::PauseNotANumber },
        },
    }
}

/// The `service` command for its sub-command.
pub open spec fn service_command(sub: Option<Seq<char>>) -> CommandModel {
    match sub {
        Some(s) if s == "install"@ => CommandModel::ServiceInstall,
        Some(s) if s == "uninstall"@ => CommandModel::ServiceUninstall,
        _ => CommandModel::ServiceUsage { unknown: sub },
    }
}

/// The command that the arguments (the program's name first) name.
pub open spec fn command_spec(args: Seq<Seq<char>>) -> CommandModel {
    match arg_at(args, 1) {
        None => CommandModel::Daemon,
        Some(a) => if a == "run-once"@ {
            CommandModel::RunOnce
        } else if a == "trust-current"@ {
            CommandModel::TrustCurrent
        } else if a == "distrust-current"@ {
            CommandModel::DistrustCurrent
        } else if a == "show-trusted"@ {
            CommandModel::ShowTrusted
        } else if a == "pause"@ {
            pause_command(arg_at(args, 2))
        } else if a == "resume"@ {
            CommandModel::Resume
        } else if a == "service"@ {
            service_command(arg_at(args, 2))
        } else if a == "--help"@ || a == "-h"@ || a == "help"@ {
            CommandModel::Help
        } else if a == "--version"@ || a == "-V"@ {
            CommandModel::Version
        } else {
            CommandModel::Unknown { arg: a }
        },
    }
}

/// The views of the arguments.
pub open spec fn args_view(args: Seq<String>) -> Seq<Seq<char>> {
    args.map_values(|s: String| s@)
}

fn parse_pause(minutes: Option<&String>) -> (c: Command)
    ensures
        c.model() == pause_command(
            match minutes {
                Some(m) => Some(m@),
                None => None,
            },
        ),
{
    match minutes {
        None => Command::PauseInvalid { error: CliError::PauseUsage },
        Some(m) => match parse_u64(m.as_str()) {
            Some(n) => Command::Pause { minutes: n },
            None => Command::PauseInvalid { error: CliError::PauseNotANumber },
        },
    }
}

fn parse_service(sub: Option<&String>) -> (c: Command)
    ensures
        c.model() == service_command(
            match sub {
                Some(s) => Some(s@),
                None => None,
            },
        ),
{
    match sub {
        Some(s) => {
            if str_eq(s.as_str(), "install") {
                Command::ServiceInstall
            } else if str_eq(s.as_str(), "uninstall") {
                Command::ServiceUninstall
            } else {
                Command::ServiceUsage { unknown: Some(s.clone()) }
            }
        },
        None => Command::ServiceUsage { unknown: None },
    }
}

/// The command that the arguments name (`args[0]` being the program's name).
pub fn parse_args(args: &Vec<String>) -> (c: Command)
    ensures
        c.model() == command_spec(args_view(args@)),
{
    let ghost view = args_view(args@);
    let second = if args.len() > 2 {
        Some(&args[2])
    } else {
        None
    };
    assert(match second {
        Some(s) => arg_at(view, 2) == Some(s@),
        None => arg_at(view, 2) is None,
    });
    if args.len() < 2 {
        return Command::Daemon;
    }
    let a = args[1].as_str();
    assert(arg_at(view, 1) == Some(a@));
    if str_eq(a, "run-once") {
        Command::RunOnce
    } else if str_eq(a, "trust-current") {
        Command::TrustCurrent
    } else if str_eq(a, "distrust-current") {
        Command::DistrustCurrent
    } else if str_eq(a, "show-trusted") {
        Command::ShowTrusted
    } else if str_eq(a, "pause") {
        parse_pause(second)
    } else if str_eq(a, "resume") {
        Command::Resume
    } else if str_eq(a, "service") {
        parse_service(second)
    } else if str_eq(a, "--help") || str_eq(a, "-h") || str_eq(a, "help") {
        Command::Help
    } else if str_eq(a, "--version") || str_eq(a, "-V") {
        Command::Version
    } else {
        Command::Unknown { arg: a.to_string() }
    }
}

// ---------------------------------------------------------------------------
// Reports
// ---------------------------------------------------------------------------

/// What `trust-current` reports, given whether the gateway was newly added.
pub open spec fn trust_report_spec(mac: MacAddr, added: bool) -> Seq<char> {
    if added {
        "Now trusting gateway "@ + mac_text(mac)
    } else {
        "Gateway "@ + mac_text(mac) + " is already trusted"@
    }
}

/// `Now trusting gateway <mac>`, or `Gateway <mac> is already trusted`.
pub fn trust_report(mac: MacAddr, added: bool) -> (s: String)
    ensures
        s@ == trust_report_spec(mac, added),
{
    let t = mac.to_string();
    if added {
        let mut s = "Now trusting gateway ".to_string();
        s.append(t.as_str());
        s
    } else {
        let mut s = "Gateway ".to_string();
        s.append(t.as_str());
        s.append(" is already trusted");
        s
    }
}

/// What `distrust-current` reports, given whether the gateway was removed.
pub open spec fn distrust_report_spec(mac: MacAddr, removed: bool) -> Seq<char> {
    if removed {
        "No longer trusting gateway "@ + mac_text(mac)
    } else {
        "Gateway "@ + mac_text(mac) + " was not trusted"@
    }
}

/// `No longer trusting gateway <mac>`, or `Gateway <mac> was not trusted`.
pub fn distrust_report(mac: MacAddr, removed: bool) -> (s: String)
    ensures
        s@ == distrust_report_spec(mac, removed),
{
    let t = mac.to_string();
    if removed {
        let mut s = "No longer trusting gateway ".to_string();
        s.append(t.as_str());
        s
    } else {
        let mut s = "Gateway ".to_string();
        s.append(t.as_str());
        s.append(" was not trusted");
        s
    }
}

/// What `pause <minutes>` reports.
pub open spec fn pause_report_spec(minutes: u64) -> Seq<char> {
    if minutes == 0 {
        "tailcloak: resumed"@
    } else {
        "tailcloak: paused for "@ + decimal_text(minutes as nat)
            + " min — manual `tailscale up`/`down` will stick until it ends"@
    }
}

/// `tailcloak: resumed` for `0`, else
/// `tailcloak: paused for <minutes> min — manual ... will stick until it ends`.
pub fn pause_report(minutes: u64) -> (s: String)
    ensures
        s@ == pause_report_spec(minutes),
{
    if minutes == 0 {
        "tailcloak: resumed".to_string()
    } else {
        let mut s = "tailcloak: paused for ".to_string();
        let m = decimal_string(minutes);
        s.append(m.as_str());
        s.append(" min — manual `tailscale up`/`down` will stick until it ends");
        s
    }
}

/// What an unknown first argument reports.
pub fn unknown_argument_report(arg: &str) -> (s: String)
    ensures
        s@ == "Unknown argument "@ + arg@ + "\nRun `tailcloak --help` for usage."@,
{
    let mut s = "Unknown argument ".to_string();
    s.append(arg);
    s.append("\nRun `tailcloak --help` for usage.");
    s
}

// ---------------------------------------------------------------------------
// Laws of the command line
// ---------------------------------------------------------------------------

/// `pause <minutes>` reads the whole minutes argument: for every number of
/// minutes, its decimal text names a pause of exactly that many minutes,
/// whatever the program is called.
pub proof fn law_pause_reads_whole_number(program: Seq<char>, minutes: u64)
    ensures
        command_spec(seq![program, "pause"@, decimal_text(minutes as nat)]) == (CommandModel::Pause {
            minutes,
        }),
{
    reveal_strlit("pause");
    reveal_strlit("run-once");
    reveal_strlit("trust-current");
    reveal_strlit("distrust-current");
    reveal_strlit("show-trusted");
    let args = seq![program, "pause"@, decimal_text(minutes as nat)];
    assert(arg_at(args, 1) == Some("pause"@));
    assert(arg_at(args, 2) == Some(decimal_text(minutes as nat)));
    assert("pause"@[0] == 'p');
    assert("run-once"@[0] == 'r');
    assert("trust-current"@[0] == 't');
    assert("distrust-current"@[0] == 'd');
    assert("show-trusted"@[0] == 's');
    assert("pause"@ != "run-once"@);
    assert("pause"@ != "trust-current"@);
    assert("pause"@ != "distrust-current"@);
    assert("pause"@ != "show-trusted"@);
    lemma_parse_decimal_text(minutes);
    assert(parsed_u64(decimal_text(minutes as nat)) == Some(minutes));
}

} // verus!
