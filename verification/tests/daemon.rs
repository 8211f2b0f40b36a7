use tailcloak::config::Config;
use tailcloak::daemon::{pause_toggle, reconcile, report, Reconciliation};
use tailcloak::mac::MacAddr;
use tailcloak::pause::PauseUpdate;
use tailcloak::tailscale::Toggle;

fn gw() -> MacAddr {
    MacAddr(0xd8, 0xec, 0xe5, 0xaf, 0xd0, 0x29)
}

#[test]
fn trusted_gateway_takes_tailscale_down() {
    let mut config = Config::new();
    config.add_trusted_gateway(gw());
    assert_eq!(
        reconcile(&config, Some(gw()), false),
        Reconciliation::Apply { trusted: true, toggle: Toggle::Down }
    );
}

#[test]
fn untrusted_or_missing_gateway_brings_tailscale_up() {
    let mut config = Config::new();
    config.add_trusted_gateway(MacAddr(0, 0x11, 0x22, 0x33, 0x44, 0x55));
    let up = Reconciliation::Apply { trusted: false, toggle: Toggle::Up };
    assert_eq!(reconcile(&config, Some(gw()), false), up);
    assert_eq!(reconcile(&config, None, false), up);
}

#[test]
fn distrusting_brings_tailscale_back_up() {
    let mut config = Config::new();
    config.add_trusted_gateway(gw());
    config.remove_trusted_gateway(gw());
    assert_eq!(
        reconcile(&config, Some(gw()), false),
        Reconciliation::Apply { trusted: false, toggle: Toggle::Up }
    );
}

#[test]
fn paused_daemon_toggles_nothing() {
    let mut config = Config::new();
    config.add_trusted_gateway(gw());
    assert_eq!(reconcile(&config, Some(gw()), true), Reconciliation::Paused);
    assert_eq!(reconcile(&config, None, true), Reconciliation::Paused);
}

#[test]
fn report_lines() {
    assert_eq!(
        report(Some(gw()), true),
        "tailcloak: gateway d8:ec:e5:af:d0:29 trusted -> tailscale down"
    );
    assert_eq!(report(None, false), "tailcloak: gateway none untrusted -> tailscale up");
}

#[test]
fn starting_a_pause_takes_tailscale_down() {
    let start = PauseUpdate::Start { until_secs: 10, contents: "10".to_string() };
    assert_eq!(pause_toggle(&start), Some(Toggle::Down));
    assert_eq!(pause_toggle(&PauseUpdate::Clear), None);
}
