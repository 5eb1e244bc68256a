use proxmox_tui_installer::locales::{CountryEntry, LocaleInfo};
use proxmox_tui_installer::options::{
    BootdiskOptions, Disk, NetworkCandidate, PasswordCandidate, TimezoneOptions,
};
use proxmox_tui_installer::validate::PasswordError;
use proxmox_tui_installer::wizard::{StartupError, StepInput, ValidationError, Wizard, WizardStep};

fn disk(path: &str, size_bytes: u64) -> Disk {
    Disk { path: path.to_owned(), size_bytes }
}

fn locales() -> LocaleInfo {
    LocaleInfo {
        countries: vec![CountryEntry {
            code: "at".to_owned(),
            name: "Austria".to_owned(),
            zones: vec!["Europe/Vienna".to_owned()],
        }],
        keyboard_layouts: vec![],
    }
}

fn wizard() -> Wizard {
    Wizard::new(vec![disk("/dev/vda", 17179869184)], locales()).unwrap()
}

fn timezone_input() -> StepInput {
    StepInput::Timezone {
        candidate: TimezoneOptions {
            country_code: "at".to_owned(),
            timezone: "Europe/Vienna".to_owned(),
            keyboard_layout: "de".to_owned(),
        },
    }
}

fn password_input(password: &str, confirm: &str) -> StepInput {
    StepInput::Password {
        candidate: PasswordCandidate {
            root_password: password.to_owned(),
            confirm_password: confirm.to_owned(),
            admin_email: "admin@example.com".to_owned(),
        },
    }
}

fn network_input() -> StepInput {
    StepInput::Network {
        candidate: NetworkCandidate {
            interface_name: "eth0".to_owned(),
            fqdn: "node1.example.com".to_owned(),
            address_text: "192.168.0.10/24".to_owned(),
            gateway_text: "192.168.0.1".to_owned(),
            dns_text: "1.1.1.1".to_owned(),
        },
    }
}

#[test]
fn wizard_needs_a_disk_to_start() {
    let r = Wizard::new(Vec::new(), locales());
    assert_eq!(r.unwrap_err(), StartupError::NoDisksDetected);
    assert_eq!(StartupError::NoDisksDetected.message(), "no disks detected");
}

#[test]
fn wizard_starts_at_the_license_with_defaults() {
    let w = wizard();
    assert!(w.step == WizardStep::License);
    assert!(!w.aborted);
    assert!(!w.reboot_after_install);
    assert_eq!(w.config.bootdisk.selected_disks[0].path, "/dev/vda");
    assert_eq!(w.config.timezone.timezone, "UTC");
}

#[test]
fn full_walkthrough_reaches_the_summary() {
    let mut w = wizard();
    assert!(w.advance(StepInput::License { agree: true }).is_ok());
    assert!(w.step == WizardStep::Bootdisk);
    let bootdisk = BootdiskOptions::defaults_from(&w.available_disks[0]);
    assert!(w.advance(StepInput::Bootdisk { candidate: bootdisk }).is_ok());
    assert!(w.step == WizardStep::Timezone);
    assert!(w.advance(timezone_input()).is_ok());
    assert!(w.step == WizardStep::Password);
    assert!(w.advance(password_input("abcde", "abcde")).is_ok());
    assert!(w.step == WizardStep::Network);
    assert!(w.advance(network_input()).is_ok());
    assert!(w.step == WizardStep::Summary);
    assert!(w.is_finished());
    assert_eq!(w.config.password.root_password, "abcde");
    assert_eq!(w.config.network.fqdn, "node1.example.com");
    w.set_reboot_after_install(true);
    assert!(w.reboot_after_install);
}

#[test]
fn declining_the_license_aborts() {
    let mut w = wizard();
    assert!(w.advance(StepInput::License { agree: false }).is_ok());
    assert!(w.aborted);
    assert!(w.step == WizardStep::License);
}

#[test]
fn a_rejected_candidate_leaves_the_wizard_unchanged() {
    let mut w = wizard();
    w.advance(StepInput::License { agree: true }).unwrap();
    let bootdisk = BootdiskOptions::defaults_from(&w.available_disks[0]);
    w.advance(StepInput::Bootdisk { candidate: bootdisk }).unwrap();
    w.advance(timezone_input()).unwrap();
    let before = w.config.password.root_password.clone();
    let r = w.advance(password_input("abcd", "abcd"));
    assert_eq!(r.unwrap_err(), ValidationError::Password(PasswordError::TooShort));
    assert!(w.step == WizardStep::Password);
    assert_eq!(w.config.password.root_password, before);
}

#[test]
fn retreat_keeps_committed_values_and_readvance_recommits_them() {
    let mut w = wizard();
    w.advance(StepInput::License { agree: true }).unwrap();
    let bootdisk = BootdiskOptions::defaults_from(&w.available_disks[0]);
    w.advance(StepInput::Bootdisk { candidate: bootdisk }).unwrap();
    w.advance(timezone_input()).unwrap();
    w.advance(password_input("abcde", "abcde")).unwrap();
    assert!(w.step == WizardStep::Network);
    // Step back to the credentials step: the committed values stay.
    w.retreat();
    assert!(w.step == WizardStep::Password);
    assert_eq!(w.config.password.root_password, "abcde");
    // Re-advancing with the same input commits the same value again.
    w.advance(password_input("abcde", "abcde")).unwrap();
    assert!(w.step == WizardStep::Network);
    assert_eq!(w.config.password.root_password, "abcde");
    assert_eq!(w.config.password.admin_email, "admin@example.com");
}

#[test]
fn retreat_stops_at_the_license() {
    let mut w = wizard();
    w.retreat();
    assert!(w.step == WizardStep::License);
}

#[test]
fn abort_needs_confirmation() {
    let mut w = wizard();
    w.abort(false);
    assert!(!w.aborted);
    w.abort(true);
    assert!(w.aborted);
}

#[test]
fn validation_errors_surface_their_reason() {
    let e = ValidationError::Password(PasswordError::Mismatch);
    assert_eq!(e.message(), "passwords do not match");
}
