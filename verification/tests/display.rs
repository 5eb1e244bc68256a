use proxmox_tui_installer::ip::{CidrAddress, IpAddress};
use proxmox_tui_installer::options::{
    BootdiskOptions, Configuration, Disk, NetworkOptions, PasswordOptions, TimezoneOptions,
};
use proxmox_tui_installer::summary::SummaryOption;
use proxmox_tui_installer::text::u64_to_string;

fn configuration() -> Configuration {
    let disk = Disk { path: "/dev/vda".to_owned(), size_bytes: 17179869184 };
    Configuration {
        bootdisk: BootdiskOptions::defaults_from(&disk),
        timezone: TimezoneOptions {
            country_code: "at".to_owned(),
            timezone: "Europe/Vienna".to_owned(),
            keyboard_layout: "de".to_owned(),
        },
        password: PasswordOptions {
            root_password: "abcde".to_owned(),
            admin_email: "admin@example.com".to_owned(),
        },
        network: NetworkOptions {
            interface_name: "eth0".to_owned(),
            fqdn: "node1.example.com".to_owned(),
            address: CidrAddress { addr: IpAddress::V4(192, 168, 0, 10), prefix_len: 24 },
            gateway: IpAddress::V4(192, 168, 0, 1),
            dns_server: IpAddress::V4(1, 1, 1, 1),
        },
    }
}

#[test]
fn summary_lists_the_fields_in_a_fixed_order() {
    let rows = configuration().to_summary();
    let names: Vec<String> = rows.iter().map(|r| r.name.clone()).collect();
    assert_eq!(
        names,
        vec![
            "bootdisk",
            "total size",
            "swap size",
            "max root size",
            "max data size",
            "min free space",
            "filesystem",
            "country",
            "timezone",
            "keyboard layout",
            "admin email",
            "management interface",
            "host address (CIDR)",
            "gateway",
            "dns server",
            "hostname (FQDN)",
        ]
    );
}

#[test]
fn summary_renders_the_selected_values() {
    let rows = configuration().to_summary();
    assert_eq!(rows[0].value, "/dev/vda");
    assert_eq!(rows[1].value, "17179869184");
    assert_eq!(rows[2].value, "4194304");
    assert_eq!(rows[5].value, "16777216");
    assert_eq!(rows[6].value, "ext4");
    assert_eq!(rows[8].value, "Europe/Vienna");
    assert_eq!(rows[10].value, "admin@example.com");
    assert_eq!(rows[12].value, "192.168.0.10/24");
    assert_eq!(rows[13].value, "192.168.0.1");
    assert_eq!(rows[15].value, "node1.example.com");
}

#[test]
fn summary_never_shows_the_root_password() {
    let config = configuration();
    let rows = config.to_summary();
    for row in rows.iter() {
        assert_ne!(row.value, "abcde");
        assert_ne!(row.name, "root password");
    }
}

#[test]
fn summary_option_columns() {
    let row = SummaryOption::new("timezone", "UTC".to_owned());
    assert_eq!(row.get_column("name"), "timezone");
    assert_eq!(row.get_column("value"), "UTC");
}

#[test]
fn decimal_rendering() {
    assert_eq!(u64_to_string(0), "0");
    assert_eq!(u64_to_string(7), "7");
    assert_eq!(u64_to_string(1234567890), "1234567890");
    assert_eq!(u64_to_string(u64::MAX), "18446744073709551615");
}
