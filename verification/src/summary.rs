//! The summary projector: flattens the finished configuration into
//! an ordered list of label/value pairs for display.  It is pure,
//! deterministic, uses the same field order on every call, and never
//! includes the root password.

use vstd::prelude::*;
use crate::ip::{cidr_to_string, ip_to_string, spec_cidr_str, spec_ip_str};
use crate::options::{Configuration, FsType};
use crate::text::{dec_str, u64_to_string};

verus! {

/// One row of the summary table: an option's label and its selected
/// value, rendered.
#[derive(Debug)]
pub struct SummaryOption {
    pub name: String,
    pub value: String,
}

impl SummaryOption {
    /// Builds one row.
    pub fn new(name: &'static str, value: String) -> (r: Self)
        ensures
            r.name@ == name@,
            r.value == value,
    {
        SummaryOption { name: name.to_owned(), value }
    }

    /// Reads one column of the row by its column name; only the two
    /// column names `"name"` and `"value"` exist.
    pub fn get_column(&self, name: &str) -> (r: String)
        requires
            name@ == "name"@ || name@ == "value"@,
        ensures
            name@ == "name"@ ==> r@ == self.name@,
            name@ != "name"@ ==> r@ == self.value@,
    {
        if crate::text::str_eq(name, "name") {
            self.name.clone()
        } else {
            self.value.clone()
        }
    }
}

impl FsType {
    /// The filesystem's display name.
    pub open spec fn spec_name(&self) -> Seq<char> {
        match self {
            FsType::Ext4 => "ext4"@,
            FsType::Xfs => "xfs"@,
        }
    }

    /// Renders the filesystem's display name.
    pub fn name(&self) -> (r: String)
        ensures
            r@ == self.spec_name(),
    {
        match self {
            FsType::Ext4 => "ext4".to_owned(),
            FsType::Xfs => "xfs".to_owned(),
        }
    }
}

/// The row holds this label and this value.
pub open spec fn entry_is(e: SummaryOption, name: Seq<char>, value: Seq<char>) -> bool {
    e.name@ == name && e.value@ == value
}

impl Configuration {
    /// Projects the configuration into its display rows, in a fixed
    /// order: the boot disk and its size budget, the filesystem, the
    /// locale selections, the administrator email (never the
    /// password), and the network values.
    pub fn to_summary(&self) -> (r: Vec<SummaryOption>)
        ensures
            r@.len() == 16,
            entry_is(r@[0], "bootdisk"@, self.bootdisk.layout.disk.path@),
            entry_is(r@[1], "total size"@, dec_str(self.bootdisk.layout.total_size as nat)),
            entry_is(r@[2], "swap size"@, dec_str(self.bootdisk.layout.swap_size as nat)),
            entry_is(r@[3], "max root size"@, dec_str(self.bootdisk.layout.max_root_size as nat)),
            entry_is(r@[4], "max data size"@, dec_str(self.bootdisk.layout.max_data_size as nat)),
            entry_is(
                r@[5],
                "min free space"@,
                dec_str(self.bootdisk.layout.min_free_space as nat),
            ),
            entry_is(r@[6], "filesystem"@, self.bootdisk.filesystem.spec_name()),
            entry_is(r@[7], "country"@, self.timezone.country_code@),
            entry_is(r@[8], "timezone"@, self.timezone.timezone@),
            entry_is(r@[9], "keyboard layout"@, self.timezone.keyboard_layout@),
            entry_is(r@[10], "admin email"@, self.password.admin_email@),
            entry_is(r@[11], "management interface"@, self.network.interface_name@),
            entry_is(r@[12], "host address (CIDR)"@, spec_cidr_str(self.network.address)),
            entry_is(r@[13], "gateway"@, spec_ip_str(self.network.gateway)),
            entry_is(r@[14], "dns server"@, spec_ip_str(self.network.dns_server)),
            entry_is(r@[15], "hostname (FQDN)"@, self.network.fqdn@),
    {
        let mut r: Vec<SummaryOption> = Vec::new();
        r.push(SummaryOption::new("bootdisk", self.bootdisk.layout.disk.path.clone()));
        r.push(SummaryOption::new("total size", u64_to_string(self.bootdisk.layout.total_size)));
        r.push(SummaryOption::new("swap size", u64_to_string(self.bootdisk.layout.swap_size)));
        r.push(
            SummaryOption::new("max root size", u64_to_string(self.bootdisk.layout.max_root_size)),
        );
        r.push(
            SummaryOption::new("max data size", u64_to_string(self.bootdisk.layout.max_data_size)),
        );
        r.push(
            SummaryOption::new(
                "min free space",
                u64_to_string(self.bootdisk.layout.min_free_space),
            ),
        );
        r.push(SummaryOption::new("filesystem", self.bootdisk.filesystem.name()));
        r.push(SummaryOption::new("country", self.timezone.country_code.clone()));
        r.push(SummaryOption::new("timezone", self.timezone.timezone.clone()));
        r.push(SummaryOption::new("keyboard layout", self.timezone.keyboard_layout.clone()));
        r.push(SummaryOption::new("admin email", self.password.admin_email.clone()));
        r.push(SummaryOption::new("management interface", self.network.interface_name.clone()));
        r.push(SummaryOption::new("host address (CIDR)", cidr_to_string(&self.network.address)));
        r.push(SummaryOption::new("gateway", ip_to_string(&self.network.gateway)));
        r.push(SummaryOption::new("dns server", ip_to_string(&self.network.dns_server)));
        r.push(SummaryOption::new("hostname (FQDN)", self.network.fqdn.clone()));
        r
    }
}

} // verus!
