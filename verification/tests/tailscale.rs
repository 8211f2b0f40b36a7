use std::cell::Cell;

use tailcloak::tailscale::{
    candidate_path, down, exit_outcome, resolve, up, Invocation, TailscaleError, Toggle,
    NUM_CANDIDATES,
};

#[test]
fn resolve_takes_first_existing_candidate() {
    let found = resolve(|p: &str| p == "/opt/homebrew/bin/tailscale" || p == "/usr/bin/tailscale");
    assert_eq!(found, Some("/opt/homebrew/bin/tailscale"));
}

#[test]
fn resolve_stops_at_first_hit() {
    let asked = Cell::new(0);
    let found = resolve(|_p: &str| {
        asked.set(asked.get() + 1);
        true
    });
    assert_eq!(found, Some("/usr/local/bin/tailscale"));
    assert_eq!(asked.get(), 1);
}

#[test]
fn resolve_without_cli_is_none() {
    assert_eq!(resolve(|_p: &str| false), None);
    assert_eq!(NUM_CANDIDATES, 4);
    assert_eq!(candidate_path(2), "/Applications/Tailscale.app/Contents/MacOS/Tailscale");
}

#[test]
fn up_and_down_name_the_argument() {
    let yes = |p: &str| p == "/usr/bin/tailscale";
    assert_eq!(
        up(yes),
        Ok(Invocation { program: "/usr/bin/tailscale", toggle: Toggle::Up })
    );
    assert_eq!(
        down(yes),
        Ok(Invocation { program: "/usr/bin/tailscale", toggle: Toggle::Down })
    );
    assert_eq!(Toggle::Up.arg(), "up");
    assert_eq!(Toggle::Down.arg(), "down");
    let err = up(|_p: &str| false).unwrap_err();
    assert_eq!(err, TailscaleError::CliNotFound);
    assert_eq!(err.message(), "tailscale CLI not found");
}

#[test]
fn failed_exit_is_reported() {
    assert_eq!(exit_outcome(Toggle::Up, true, "exit status: 0"), Ok(()));
    let err = exit_outcome(Toggle::Down, false, "exit status: 1").unwrap_err();
    assert_eq!(err.message(), "tailscale down exited with exit status: 1");
}

#[test]
fn resolve_depends_only_on_the_candidate_files() {
    let present = |p: &str| p == "/usr/bin/tailscale";
    let first = resolve(present);
    let second = resolve(|p: &str| present(p));
    assert_eq!(first, second);
    assert!(first.unwrap().starts_with('/'));
}
