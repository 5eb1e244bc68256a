//! Typed records for each configuration domain, and the derivation
//! rules that compute their defaults from the detected hardware.

use vstd::prelude::*;

verus! {

/// One mebibyte, in bytes.
pub const MIB: u64 = 1024 * 1024;

/// A disk as handed in by hardware discovery: its device path and its
/// capacity in bytes.
#[derive(Debug)]
pub struct Disk {
    pub path: String,
    pub size_bytes: u64,
}

impl Disk {
    /// An enumerated disk always has a strictly positive capacity.
    pub open spec fn wf(&self) -> bool {
        self.size_bytes > 0
    }

    /// Copies the record field by field.
    pub fn duplicate(&self) -> (r: Disk)
        ensures
            r == *self,
    {
        Disk { path: self.path.clone(), size_bytes: self.size_bytes }
    }
}

/// The filesystem to install onto the target disk.
#[derive(Clone, Copy, Debug, PartialEq, Eq, Structural)]
pub enum FsType {
    Ext4,
    Xfs,
}

/// The LVM size budget for one target disk.  A value of `0` for
/// `max_root_size` or `max_data_size` means "use all remaining space".
#[derive(Debug)]
pub struct LvmLayout {
    pub disk: Disk,
    pub total_size: u64,
    pub swap_size: u64,
    pub max_root_size: u64,
    pub max_data_size: u64,
    pub min_free_space: u64,
}

/// The layout that `LvmLayout::defaults_for` derives from a disk:
/// the whole disk is budgeted, swap is a fixed placeholder of 4 MiB
/// (a future rule may derive it from installed memory), and the free
/// reserve is 16 MiB, or an eighth of the disk when the disk is at
/// most 128 MiB.
pub open spec fn spec_defaults_for(d: Disk) -> LvmLayout {
    LvmLayout {
        disk: d,
        total_size: d.size_bytes,
        swap_size: (4 * MIB) as u64,
        max_root_size: 0,
        max_data_size: 0,
        min_free_space: if d.size_bytes > 128 * MIB {
            (16 * MIB) as u64
        } else {
            d.size_bytes / 8
        },
    }
}

impl LvmLayout {
    /// The size budget fits the disk: the budgeted total does not
    /// exceed the disk, and swap plus the free reserve leave a
    /// non-negative remainder for the root and data volumes.
    pub open spec fn wf(&self) -> bool {
        &&& self.total_size <= self.disk.size_bytes
        &&& self.swap_size + self.min_free_space <= self.total_size
    }

    /// Derives the default layout for one disk; pure, no error cases.
    pub fn defaults_for(disk: &Disk) -> (r: LvmLayout)
        ensures
            r == spec_defaults_for(*disk),
    {
        let min_free_space: u64 = if disk.size_bytes > 128 * MIB {
            16 * MIB
        } else {
            disk.size_bytes / 8
        };
        LvmLayout {
            disk: disk.duplicate(),
            total_size: disk.size_bytes,
            swap_size: 4 * MIB,
            max_root_size: 0,
            max_data_size: 0,
            min_free_space,
        }
    }
}

/// The boot disk step's record: which disks are selected, the
/// filesystem, and the LVM size budget.
#[derive(Debug)]
pub struct BootdiskOptions {
    pub selected_disks: Vec<Disk>,
    pub filesystem: FsType,
    pub layout: LvmLayout,
}

/// `d` reads as one of the enumerated disks: same path, same size.
pub open spec fn disk_listed(available: Seq<Disk>, d: Disk) -> bool {
    exists|k: int|
        0 <= k < available.len() && (#[trigger] available[k]).path@ == d.path@
            && available[k].size_bytes == d.size_bytes
}

impl BootdiskOptions {
    /// Every selected disk comes from the enumerated set `available`,
    /// at least one disk is selected, and the size budget fits.
    pub open spec fn wf(&self, available: Seq<Disk>) -> bool {
        &&& self.selected_disks.len() > 0
        &&& forall|i: int|
            0 <= i < self.selected_disks@.len() ==> disk_listed(
                available,
                #[trigger] self.selected_disks@[i],
            )
        &&& self.layout.wf()
    }

    /// Derives the boot disk defaults for one disk.
    pub fn defaults_from(disk: &Disk) -> (r: BootdiskOptions)
        ensures
            r.selected_disks@ == seq![*disk],
            r.filesystem == FsType::Ext4,
            r.layout == spec_defaults_for(*disk),
    {
        let mut selected_disks: Vec<Disk> = Vec::new();
        selected_disks.push(disk.duplicate());
        proof {
            assert(selected_disks@ =~= seq![*disk]);
        }
        BootdiskOptions {
            selected_disks,
            filesystem: FsType::Ext4,
            layout: LvmLayout::defaults_for(disk),
        }
    }
}

/// The timezone step's record: country, timezone name, and keyboard
/// layout identifier.
#[derive(Debug)]
pub struct TimezoneOptions {
    pub country_code: String,
    pub timezone: String,
    pub keyboard_layout: String,
}

impl Default for TimezoneOptions {
    /// An empty country and layout, with the always-valid `"UTC"`
    /// timezone.
    fn default() -> (r: Self)
        ensures
            r.country_code@ == Seq::<char>::empty(),
            r.timezone@ == "UTC"@,
            r.keyboard_layout@ == Seq::<char>::empty(),
    {
        TimezoneOptions {
            country_code: String::new(),
            timezone: "UTC".to_owned(),
            keyboard_layout: String::new(),
        }
    }
}

/// The credentials step's candidate input.  The confirmation value is
/// transient: it is compared during validation and never persisted.
#[derive(Debug)]
pub struct PasswordCandidate {
    pub root_password: String,
    pub confirm_password: String,
    pub admin_email: String,
}

/// The credentials step's accepted record.
#[derive(Debug)]
pub struct PasswordOptions {
    pub root_password: String,
    pub admin_email: String,
}

impl Default for PasswordOptions {
    /// Empty credentials, to be filled in at the credentials step.
    fn default() -> (r: Self)
        ensures
            r.root_password@ == Seq::<char>::empty(),
            r.admin_email@ == Seq::<char>::empty(),
    {
        PasswordOptions { root_password: String::new(), admin_email: String::new() }
    }
}

/// The network step's candidate input: raw field values as the
/// rendering layer hands them over, addresses still in text form.
#[derive(Debug)]
pub struct NetworkCandidate {
    pub interface_name: String,
    pub fqdn: String,
    pub address_text: String,
    pub gateway_text: String,
    pub dns_text: String,
}

/// The network step's accepted record, addresses parsed.
#[derive(Debug)]
pub struct NetworkOptions {
    pub interface_name: String,
    pub fqdn: String,
    pub address: crate::ip::CidrAddress,
    pub gateway: crate::ip::IpAddress,
    pub dns_server: crate::ip::IpAddress,
}

impl Default for NetworkOptions {
    /// Empty names with all-zero IPv4 addresses, to be revised at the
    /// network step.
    fn default() -> (r: Self)
        ensures
            r.interface_name@ == Seq::<char>::empty(),
            r.fqdn@ == Seq::<char>::empty(),
            r.address == (crate::ip::CidrAddress {
                addr: crate::ip::IpAddress::V4(0, 0, 0, 0),
                prefix_len: 0,
            }),
            r.gateway == crate::ip::IpAddress::V4(0, 0, 0, 0),
            r.dns_server == crate::ip::IpAddress::V4(0, 0, 0, 0),
    {
        NetworkOptions {
            interface_name: String::new(),
            fqdn: String::new(),
            address: crate::ip::CidrAddress {
                addr: crate::ip::IpAddress::V4(0, 0, 0, 0),
                prefix_len: 0,
            },
            gateway: crate::ip::IpAddress::V4(0, 0, 0, 0),
            dns_server: crate::ip::IpAddress::V4(0, 0, 0, 0),
        }
    }
}

/// The aggregate configuration: one record per step, owned by the
/// wizard session and committed field by field as steps are accepted.
#[derive(Debug)]
pub struct Configuration {
    pub bootdisk: BootdiskOptions,
    pub timezone: TimezoneOptions,
    pub password: PasswordOptions,
    pub network: NetworkOptions,
}

/// What the step-derived defaults hold: the boot disk options derived
/// from the first disk, the always-valid `"UTC"` timezone, and empty
/// strings with all-zero IPv4 addresses everywhere else.
pub open spec fn spec_is_default_config(c: Configuration, first: Disk) -> bool {
    &&& c.bootdisk.selected_disks@ == seq![first]
    &&& c.bootdisk.filesystem == FsType::Ext4
    &&& c.bootdisk.layout == spec_defaults_for(first)
    &&& c.timezone.country_code@ == Seq::<char>::empty()
    &&& c.timezone.timezone@ == "UTC"@
    &&& c.timezone.keyboard_layout@ == Seq::<char>::empty()
    &&& c.password.root_password@ == Seq::<char>::empty()
    &&& c.password.admin_email@ == Seq::<char>::empty()
    &&& c.network.interface_name@ == Seq::<char>::empty()
    &&& c.network.fqdn@ == Seq::<char>::empty()
    &&& c.network.address == (crate::ip::CidrAddress {
        addr: crate::ip::IpAddress::V4(0, 0, 0, 0),
        prefix_len: 0,
    })
    &&& c.network.gateway == crate::ip::IpAddress::V4(0, 0, 0, 0)
    &&& c.network.dns_server == crate::ip::IpAddress::V4(0, 0, 0, 0)
}

impl Configuration {
    /// The step-derived defaults for a wizard that starts with
    /// `first_disk` as its boot disk.
    pub fn defaults(first_disk: &Disk) -> (r: Configuration)
        ensures
            spec_is_default_config(r, *first_disk),
    {
        Configuration {
            bootdisk: BootdiskOptions::defaults_from(first_disk),
            timezone: TimezoneOptions::default(),
            password: PasswordOptions::default(),
            network: NetworkOptions::default(),
        }
    }
}

} // verus!
