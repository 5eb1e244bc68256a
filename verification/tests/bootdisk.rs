use proxmox_tui_installer::options::{BootdiskOptions, Disk, FsType, LvmLayout};
use proxmox_tui_installer::validate::{validate_bootdisk, BootdiskError};

fn disk(path: &str, size_bytes: u64) -> Disk {
    Disk { path: path.to_owned(), size_bytes }
}

fn available() -> Vec<Disk> {
    vec![disk("/dev/vda", 17179869184), disk("/dev/vdb", 8589934592)]
}

fn default_candidate() -> BootdiskOptions {
    BootdiskOptions::defaults_from(&disk("/dev/vda", 17179869184))
}

#[test]
fn default_candidate_is_accepted() {
    let r = validate_bootdisk(&available(), default_candidate());
    assert!(r.is_ok());
}

#[test]
fn empty_selection_is_rejected() {
    let mut c = default_candidate();
    c.selected_disks = Vec::new();
    let r = validate_bootdisk(&available(), c);
    assert_eq!(r.unwrap_err(), BootdiskError::NoDiskSelected);
}

#[test]
fn overcommitted_swap_and_reserve_are_rejected() {
    let mut c = default_candidate();
    c.layout.swap_size = c.layout.total_size;
    c.layout.min_free_space = 1;
    let r = validate_bootdisk(&available(), c);
    assert_eq!(r.unwrap_err(), BootdiskError::SwapAndReserveExceedTotal);
}

#[test]
fn total_beyond_the_disk_is_rejected() {
    let mut c = default_candidate();
    c.layout.total_size = c.layout.disk.size_bytes + 1;
    let r = validate_bootdisk(&available(), c);
    assert_eq!(r.unwrap_err(), BootdiskError::TotalExceedsDisk);
}

#[test]
fn unenumerated_disk_is_rejected() {
    let c = BootdiskOptions::defaults_from(&disk("/dev/vdz", 17179869184));
    let r = validate_bootdisk(&available(), c);
    assert_eq!(r.unwrap_err(), BootdiskError::DiskNotAvailable);
}

#[test]
fn swap_rule_wins_over_total_rule() {
    // Rules are ordered: the swap/reserve rule fires although the
    // total exceeds the disk as well.
    let d = disk("/dev/vda", 17179869184);
    let c = BootdiskOptions {
        selected_disks: vec![d.duplicate()],
        filesystem: FsType::Xfs,
        layout: LvmLayout {
            disk: d,
            total_size: 17179869185,
            swap_size: 17179869185,
            max_root_size: 0,
            max_data_size: 0,
            min_free_space: 1,
        },
    };
    let r = validate_bootdisk(&available(), c);
    assert_eq!(r.unwrap_err(), BootdiskError::SwapAndReserveExceedTotal);
}
