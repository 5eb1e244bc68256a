//! The per-domain validators.  Each is a pure function from a
//! candidate record to the accepted record or a reason for rejection;
//! rules are ordered and short-circuiting, so the operator sees one
//! actionable message per attempt.

use vstd::prelude::*;
use crate::ip::{parse_cidr, parse_ip, spec_parse_cidr, spec_parse_ip};
use crate::locales::LocaleInfo;
use crate::options::{
    disk_listed, BootdiskOptions, Disk, NetworkCandidate, NetworkOptions, PasswordCandidate,
    PasswordOptions, TimezoneOptions,
};
use crate::text::{all_digits, seq_ends_with, str_all_digits, str_ends_with, str_eq};

verus! {

/// Why a boot disk candidate was rejected.
#[derive(Clone, Copy, Debug, PartialEq, Eq)]
pub enum BootdiskError {
    NoDiskSelected,
    DiskNotAvailable,
    SwapAndReserveExceedTotal,
    TotalExceedsDisk,
}

/// Why a timezone candidate was rejected.
#[derive(Clone, Copy, Debug, PartialEq, Eq)]
pub enum TimezoneError {
    ZoneNotSelectable,
}

/// Why a credentials candidate was rejected.
#[derive(Clone, Copy, Debug, PartialEq, Eq)]
pub enum PasswordError {
    TooShort,
    Mismatch,
    ReservedEmailSuffix,
}

/// Why a network candidate was rejected.  The three parse failures
/// are raised before any family-consistency rule runs.
#[derive(Clone, Copy, Debug, PartialEq, Eq)]
pub enum NetworkError {
    BadAddress,
    BadGateway,
    BadDns,
    GatewayFamilyMismatch,
    DnsFamilyMismatch,
    NumericFqdn,
}

impl BootdiskError {
    /// The human-readable reason.
    pub open spec fn spec_message(&self) -> Seq<char> {
        match self {
            BootdiskError::NoDiskSelected => "no boot disk selected"@,
            BootdiskError::DiskNotAvailable => "selected disk is not an available disk"@,
            BootdiskError::SwapAndReserveExceedTotal => "swap and free reserve exceed the total size"@,
            BootdiskError::TotalExceedsDisk => "total size exceeds the disk size"@,
        }
    }

    /// Renders the reason.
    pub fn message(&self) -> (r: String)
        ensures
            r@ == self.spec_message(),
    {
        match self {
            BootdiskError::NoDiskSelected => "no boot disk selected".to_owned(),
            BootdiskError::DiskNotAvailable => "selected disk is not an available disk".to_owned(),
            BootdiskError::SwapAndReserveExceedTotal => "swap and free reserve exceed the total size".to_owned(),
            BootdiskError::TotalExceedsDisk => "total size exceeds the disk size".to_owned(),
        }
    }
}

impl TimezoneError {
    /// The human-readable reason.
    pub open spec fn spec_message(&self) -> Seq<char> {
        "timezone is not selectable for this country"@
    }

    /// Renders the reason.
    pub fn message(&self) -> (r: String)
        ensures
            r@ == self.spec_message(),
    {
        "timezone is not selectable for this country".to_owned()
    }
}

impl PasswordError {
    /// The human-readable reason.
    pub open spec fn spec_message(&self) -> Seq<char> {
        match self {
            PasswordError::TooShort => "password too short"@,
            PasswordError::Mismatch => "passwords do not match"@,
            PasswordError::ReservedEmailSuffix => "invalid email address"@,
        }
    }

    /// Renders the reason.
    pub fn message(&self) -> (r: String)
        ensures
            r@ == self.spec_message(),
    {
        match self {
            PasswordError::TooShort => "password too short".to_owned(),
            PasswordError::Mismatch => "passwords do not match".to_owned(),
            PasswordError::ReservedEmailSuffix => "invalid email address".to_owned(),
        }
    }
}

impl NetworkError {
    /// The human-readable reason.
    pub open spec fn spec_message(&self) -> Seq<char> {
        match self {
            NetworkError::BadAddress => "malformed host address"@,
            NetworkError::BadGateway => "malformed gateway address"@,
            NetworkError::BadDns => "malformed DNS server address"@,
            NetworkError::GatewayFamilyMismatch => "host and gateway IP address version must not differ"@,
            NetworkError::DnsFamilyMismatch => "host and DNS IP address version must not differ"@,
            NetworkError::NumericFqdn => "hostname cannot be purely numeric"@,
        }
    }

    /// Renders the reason.
    pub fn message(&self) -> (r: String)
        ensures
            r@ == self.spec_message(),
    {
        match self {
            NetworkError::BadAddress => "malformed host address".to_owned(),
            NetworkError::BadGateway => "malformed gateway address".to_owned(),
            NetworkError::BadDns => "malformed DNS server address".to_owned(),
            NetworkError::GatewayFamilyMismatch => "host and gateway IP address version must not differ".to_owned(),
            NetworkError::DnsFamilyMismatch => "host and DNS IP address version must not differ".to_owned(),
            NetworkError::NumericFqdn => "hostname cannot be purely numeric".to_owned(),
        }
    }
}

/// What the boot disk validator decides: reject an empty selection,
/// an over-committed budget (swap plus reserve beyond the total), a
/// total beyond the disk, or a selected disk that was never
/// enumerated; accept the candidate unchanged otherwise.
pub open spec fn spec_validate_bootdisk(available: Seq<Disk>, o: BootdiskOptions) -> Result<
    BootdiskOptions,
    BootdiskError,
> {
    if o.selected_disks@.len() == 0 {
        Err(BootdiskError::NoDiskSelected)
    } else if o.layout.swap_size + o.layout.min_free_space > o.layout.total_size {
        Err(BootdiskError::SwapAndReserveExceedTotal)
    } else if o.layout.total_size > o.layout.disk.size_bytes {
        Err(BootdiskError::TotalExceedsDisk)
    } else if !(forall|i: int|
        0 <= i < o.selected_disks@.len() ==> disk_listed(available, #[trigger] o.selected_disks@[i])) {
        Err(BootdiskError::DiskNotAvailable)
    } else {
        Ok(o)
    }
}

/// Whether `d` reads as one of the enumerated disks.
fn disk_available(available: &Vec<Disk>, d: &Disk) -> (r: bool)
    ensures
        r == disk_listed(available@, *d),
{
    let mut k: usize = 0;
    while k < available.len()
        invariant
            0 <= k <= available@.len(),
            forall|j: int|
                0 <= j < k ==> !((#[trigger] available@[j]).path@ == d.path@
                    && available@[j].size_bytes == d.size_bytes),
        decreases available@.len() - k,
    {
        if available[k].size_bytes == d.size_bytes && str_eq(
            available[k].path.as_str(),
            d.path.as_str(),
        ) {
            return true;
        }
        k += 1;
    }
    false
}

/// Validates the boot disk step.
pub fn validate_bootdisk(available: &Vec<Disk>, o: BootdiskOptions) -> (r: Result<
    BootdiskOptions,
    BootdiskError,
>)
    ensures
        r == spec_validate_bootdisk(available@, o),
        r matches Ok(accepted) ==> accepted.layout.wf() && accepted.wf(available@),
{
    if o.selected_disks.len() == 0 {
        return Err(BootdiskError::NoDiskSelected);
    }
    if o.layout.swap_size > u64::MAX - o.layout.min_free_space
        || o.layout.swap_size + o.layout.min_free_space > o.layout.total_size {
        return Err(BootdiskError::SwapAndReserveExceedTotal);
    }
    if o.layout.total_size > o.layout.disk.size_bytes {
        return Err(BootdiskError::TotalExceedsDisk);
    }
    let mut i: usize = 0;
    while i < o.selected_disks.len()
        invariant
            0 <= i <= o.selected_disks@.len(),
            o.selected_disks@.len() > 0,
            o.layout.swap_size + o.layout.min_free_space <= o.layout.total_size,
            o.layout.total_size <= o.layout.disk.size_bytes,
            forall|j: int| 0 <= j < i ==> disk_listed(available@, #[trigger] o.selected_disks@[j]),
        decreases o.selected_disks@.len() - i,
    {
        if !disk_available(available, &o.selected_disks[i]) {
            proof {
                assert(!disk_listed(available@, o.selected_disks@[i as int]));
            }
            return Err(BootdiskError::DiskNotAvailable);
        }
        i += 1;
    }
    Ok(o)
}

/// A zone named `tz` stands in the list.
pub open spec fn zone_listed(zones: Seq<String>, tz: Seq<char>) -> bool {
    exists|i: int| 0 <= i < zones.len() && (#[trigger] zones[i])@ == tz
}

/// What the timezone validator decides: accept when the timezone
/// belongs to the zone list of the candidate's country, or is the
/// always-valid `"UTC"` sentinel; reject otherwise.
pub open spec fn spec_validate_timezone(locales: &LocaleInfo, o: TimezoneOptions) -> Result<
    TimezoneOptions,
    TimezoneError,
> {
    if o.timezone@ == "UTC"@ || zone_listed(locales.spec_zones_of(o.country_code@), o.timezone@) {
        Ok(o)
    } else {
        Err(TimezoneError::ZoneNotSelectable)
    }
}

/// Validates the timezone step.
pub fn validate_timezone(locales: &LocaleInfo, o: TimezoneOptions) -> (r: Result<
    TimezoneOptions,
    TimezoneError,
>)
    ensures
        r == spec_validate_timezone(locales, o),
{
    if str_eq(o.timezone.as_str(), "UTC") {
        return Ok(o);
    }
    let zones = locales.zones_of(o.country_code.as_str());
    let ghost spec_zones = locales.spec_zones_of(o.country_code@);
    let mut i: usize = 0;
    while i < zones.len()
        invariant
            0 <= i <= zones@.len(),
            spec_zones == locales.spec_zones_of(o.country_code@),
            zones@.len() == spec_zones.len(),
            forall|j: int| 0 <= j < zones@.len() ==> (#[trigger] zones@[j])@ == spec_zones[j]@,
            forall|j: int| 0 <= j < i ==> (#[trigger] spec_zones[j])@ != o.timezone@,
        decreases zones@.len() - i,
    {
        if str_eq(zones[i].as_str(), o.timezone.as_str()) {
            proof {
                assert((spec_zones[i as int])@ == o.timezone@);
                assert(zone_listed(spec_zones, o.timezone@));
            }
            return Ok(o);
        }
        i += 1;
    }
    Err(TimezoneError::ZoneNotSelectable)
}

/// What the credentials validator decides, first failing rule first:
/// a password of fewer than five characters is too short, the
/// confirmation must match, and the administrator email must not end
/// in the reserved test suffix `.invalid`; the accepted record keeps
/// the password and email and drops the confirmation.
pub open spec fn spec_validate_password(c: PasswordCandidate) -> Result<
    PasswordOptions,
    PasswordError,
> {
    if c.root_password@.len() < 5 {
        Err(PasswordError::TooShort)
    } else if c.root_password@ != c.confirm_password@ {
        Err(PasswordError::Mismatch)
    } else if seq_ends_with(c.admin_email@, ".invalid"@) {
        Err(PasswordError::ReservedEmailSuffix)
    } else {
        Ok(PasswordOptions { root_password: c.root_password, admin_email: c.admin_email })
    }
}

/// Validates the credentials step.
pub fn validate_password(c: PasswordCandidate) -> (r: Result<PasswordOptions, PasswordError>)
    ensures
        r == spec_validate_password(c),
{
    if c.root_password.as_str().unicode_len() < 5 {
        return Err(PasswordError::TooShort);
    }
    if !str_eq(c.root_password.as_str(), c.confirm_password.as_str()) {
        return Err(PasswordError::Mismatch);
    }
    if str_ends_with(c.admin_email.as_str(), ".invalid") {
        return Err(PasswordError::ReservedEmailSuffix);
    }
    Ok(PasswordOptions { root_password: c.root_password, admin_email: c.admin_email })
}

/// What the network validator decides, first failing rule first: the
/// three addresses must parse (host, then gateway, then DNS), the
/// gateway and the DNS server must share the host's address family,
/// and the FQDN must not be purely numeric; the accepted record
/// carries the parsed addresses.
pub open spec fn spec_validate_network(c: NetworkCandidate) -> Result<
    NetworkOptions,
    NetworkError,
> {
    match spec_parse_cidr(c.address_text@) {
        None => Err(NetworkError::BadAddress),
        Some(address) => match spec_parse_ip(c.gateway_text@) {
            None => Err(NetworkError::BadGateway),
            Some(gateway) => match spec_parse_ip(c.dns_text@) {
                None => Err(NetworkError::BadDns),
                Some(dns_server) => {
                    if address.addr.spec_is_ipv4() != gateway.spec_is_ipv4() {
                        Err(NetworkError::GatewayFamilyMismatch)
                    } else if address.addr.spec_is_ipv4() != dns_server.spec_is_ipv4() {
                        Err(NetworkError::DnsFamilyMismatch)
                    } else if all_digits(c.fqdn@) {
                        Err(NetworkError::NumericFqdn)
                    } else {
                        Ok(
                            NetworkOptions {
                                interface_name: c.interface_name,
                                fqdn: c.fqdn,
                                address,
                                gateway,
                                dns_server,
                            },
                        )
                    }
                },
            },
        },
    }
}

/// Validates the network step.  Every accepted record has its three
/// addresses in one family and a prefix length that fits it.
pub fn validate_network(c: NetworkCandidate) -> (r: Result<NetworkOptions, NetworkError>)
    ensures
        r == spec_validate_network(c),
        r matches Ok(o) ==> {
            &&& o.gateway.same_family(&o.address.addr)
            &&& o.dns_server.same_family(&o.address.addr)
            &&& o.address.wf()
        },
{
    let address = match parse_cidr(c.address_text.as_str()) {
        Some(address) => address,
        None => { return Err(NetworkError::BadAddress); },
    };
    let gateway = match parse_ip(c.gateway_text.as_str()) {
        Some(gateway) => gateway,
        None => { return Err(NetworkError::BadGateway); },
    };
    let dns_server = match parse_ip(c.dns_text.as_str()) {
        Some(dns_server) => dns_server,
        None => { return Err(NetworkError::BadDns); },
    };
    if address.addr.is_ipv4() != gateway.is_ipv4() {
        return Err(NetworkError::GatewayFamilyMismatch);
    }
    if address.addr.is_ipv4() != dns_server.is_ipv4() {
        return Err(NetworkError::DnsFamilyMismatch);
    }
    if str_all_digits(c.fqdn.as_str()) {
        return Err(NetworkError::NumericFqdn);
    }
    Ok(NetworkOptions { interface_name: c.interface_name, fqdn: c.fqdn, address, gateway, dns_server })
}

} // verus!
