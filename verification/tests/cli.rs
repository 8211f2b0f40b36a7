use tailcloak::cli::{
    distrust_report, parse_args, pause_report, trust_report, unknown_argument_report, CliError,
    Command,
};
use tailcloak::mac::MacAddr;

fn args(list: &[&str]) -> Vec<String> {
    let mut v = vec!["tailcloak".to_string()];
    v.extend(list.iter().map(|s| s.to_string()));
    v
}

#[test]
fn commands_by_name() {
    assert_eq!(parse_args(&args(&[])), Command::Daemon);
    assert_eq!(parse_args(&args(&["run-once"])), Command::RunOnce);
    assert_eq!(parse_args(&args(&["trust-current"])), Command::TrustCurrent);
    assert_eq!(parse_args(&args(&["distrust-current"])), Command::DistrustCurrent);
    assert_eq!(parse_args(&args(&["show-trusted"])), Command::ShowTrusted);
    assert_eq!(parse_args(&args(&["resume"])), Command::Resume);
    assert_eq!(parse_args(&args(&["-h"])), Command::Help);
    assert_eq!(parse_args(&args(&["help"])), Command::Help);
    assert_eq!(parse_args(&args(&["--help"])), Command::Help);
    assert_eq!(parse_args(&args(&["-V"])), Command::Version);
    assert_eq!(parse_args(&args(&["--version"])), Command::Version);
    assert_eq!(
        parse_args(&args(&["frobnicate"])),
        Command::Unknown { arg: "frobnicate".to_string() }
    );
}

#[test]
fn pause_minutes() {
    assert_eq!(parse_args(&args(&["pause", "5"])), Command::Pause { minutes: 5 });
    assert_eq!(parse_args(&args(&["pause", "0"])), Command::Pause { minutes: 0 });
    assert_eq!(
        parse_args(&args(&["pause"])),
        Command::PauseInvalid { error: CliError::PauseUsage }
    );
    assert_eq!(
        parse_args(&args(&["pause", "five"])),
        Command::PauseInvalid { error: CliError::PauseNotANumber }
    );
    assert_eq!(CliError::PauseUsage.message(), "usage: tailcloak pause <minutes>");
    assert_eq!(
        CliError::PauseNotANumber.message(),
        "pause expects a whole number of minutes"
    );
}

#[test]
fn service_subcommands() {
    assert_eq!(parse_args(&args(&["service", "install"])), Command::ServiceInstall);
    assert_eq!(parse_args(&args(&["service", "uninstall"])), Command::ServiceUninstall);
    assert_eq!(
        parse_args(&args(&["service", "restart"])),
        Command::ServiceUsage { unknown: Some("restart".to_string()) }
    );
    assert_eq!(parse_args(&args(&["service"])), Command::ServiceUsage { unknown: None });
}

#[test]
fn reports() {
    let m = MacAddr(0xd8, 0xec, 0xe5, 0xaf, 0xd0, 0x29);
    assert_eq!(trust_report(m, true), "Now trusting gateway d8:ec:e5:af:d0:29");
    assert_eq!(trust_report(m, false), "Gateway d8:ec:e5:af:d0:29 is already trusted");
    assert_eq!(distrust_report(m, true), "No longer trusting gateway d8:ec:e5:af:d0:29");
    assert_eq!(distrust_report(m, false), "Gateway d8:ec:e5:af:d0:29 was not trusted");
    assert_eq!(pause_report(0), "tailcloak: resumed");
    assert_eq!(
        pause_report(5),
        "tailcloak: paused for 5 min — manual `tailscale up`/`down` will stick until it ends"
    );
    assert_eq!(
        unknown_argument_report("x"),
        "Unknown argument x\nRun `tailcloak --help` for usage."
    );
}
