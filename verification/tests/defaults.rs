use proxmox_tui_installer::options::{BootdiskOptions, Disk, FsType, LvmLayout};

fn disk(path: &str, size_bytes: u64) -> Disk {
    Disk { path: path.to_owned(), size_bytes }
}

#[test]
fn defaults_for_sixteen_gib_disk() {
    let d = disk("/dev/vda", 17179869184);
    let layout = LvmLayout::defaults_for(&d);
    assert_eq!(layout.min_free_space, 16777216);
    assert_eq!(layout.swap_size, 4194304);
    assert_eq!(layout.total_size, 17179869184);
    assert_eq!(layout.max_root_size, 0);
    assert_eq!(layout.max_data_size, 0);
    assert_eq!(layout.disk.path, "/dev/vda");
    assert_eq!(layout.disk.size_bytes, 17179869184);
}

#[test]
fn defaults_for_small_disk_reserves_an_eighth() {
    let d = disk("/dev/vdb", 64 * 1024 * 1024);
    let layout = LvmLayout::defaults_for(&d);
    assert_eq!(layout.min_free_space, 8 * 1024 * 1024);
    assert_eq!(layout.total_size, 64 * 1024 * 1024);
}

#[test]
fn defaults_for_boundary_disk_sizes() {
    // Exactly 128 MiB is not "greater", so an eighth applies; that
    // eighth happens to be 16 MiB as well.
    let at_boundary = LvmLayout::defaults_for(&disk("/dev/vdc", 128 * 1024 * 1024));
    assert_eq!(at_boundary.min_free_space, 16 * 1024 * 1024);
    let above = LvmLayout::defaults_for(&disk("/dev/vdd", 128 * 1024 * 1024 + 1));
    assert_eq!(above.min_free_space, 16 * 1024 * 1024);
    let tiny = LvmLayout::defaults_for(&disk("/dev/vde", 8 * 1024 * 1024));
    assert_eq!(tiny.min_free_space, 1024 * 1024);
}

#[test]
fn bootdisk_defaults_select_the_disk_with_ext4() {
    let d = disk("/dev/vda", 17179869184);
    let options = BootdiskOptions::defaults_from(&d);
    assert_eq!(options.selected_disks.len(), 1);
    assert_eq!(options.selected_disks[0].path, "/dev/vda");
    assert!(options.filesystem == FsType::Ext4);
    assert_eq!(options.layout.total_size, 17179869184);
}
