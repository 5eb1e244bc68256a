//! The library's stated laws: properties that hold of every input,
//! proved once here rather than checked case by case.

use vstd::prelude::*;
use crate::locales::LocaleInfo;
use crate::options::{
    spec_defaults_for, BootdiskOptions, Disk, NetworkCandidate, PasswordCandidate,
    TimezoneOptions, MIB,
};
use crate::text::seq_ends_with;
use crate::validate::{
    spec_validate_bootdisk, spec_validate_network, spec_validate_password, spec_validate_timezone,
};

verus! {

/// The derived free-space reserve is 16 MiB for every disk above
/// 128 MiB, and an eighth of the disk (rounding toward zero)
/// otherwise; the other defaults are the fixed 4 MiB swap
/// placeholder, the whole disk as the total, and unbounded root and
/// data volumes.
pub proof fn lemma_derived_defaults(d: Disk)
    ensures
        spec_defaults_for(d).min_free_space == if d.size_bytes > 128 * MIB {
            (16 * MIB) as u64
        } else {
            d.size_bytes / 8
        },
        spec_defaults_for(d).swap_size == 4 * MIB,
        spec_defaults_for(d).total_size == d.size_bytes,
        spec_defaults_for(d).max_root_size == 0,
        spec_defaults_for(d).max_data_size == 0,
        spec_defaults_for(d).disk == d,
{
}

/// Every layout that the boot disk validator accepts fits its disk:
/// swap plus the free reserve stay within the budgeted total, and
/// the total stays within the disk.
pub proof fn lemma_accepted_layout_fits(available: Seq<Disk>, o: BootdiskOptions)
    requires
        spec_validate_bootdisk(available, o) is Ok,
    ensures
        ({
            let l = spec_validate_bootdisk(available, o)->Ok_0.layout;
            l.swap_size + l.min_free_space <= l.total_size <= l.disk.size_bytes
        }),
{
}

/// Every record that the network validator accepts holds three
/// addresses of one family: the gateway and the DNS server share the
/// host address's family.
pub proof fn lemma_accepted_network_one_family(c: NetworkCandidate)
    requires
        spec_validate_network(c) is Ok,
    ensures
        ({
            let o = spec_validate_network(c)->Ok_0;
            &&& o.gateway.spec_is_ipv4() == o.address.addr.spec_is_ipv4()
            &&& o.dns_server.spec_is_ipv4() == o.address.addr.spec_is_ipv4()
        }),
{
}

/// The credentials validator accepts exactly the candidates whose
/// password has at least five characters, matches its confirmation,
/// and whose email does not end in the reserved `.invalid` suffix —
/// so a five-character password is accepted and a four-character one
/// is not.
pub proof fn lemma_password_acceptance(c: PasswordCandidate)
    ensures
        spec_validate_password(c) is Ok <==> {
            &&& c.root_password@.len() >= 5
            &&& c.root_password@ == c.confirm_password@
            &&& !seq_ends_with(c.admin_email@, ".invalid"@)
        },
{
}

/// The `"UTC"` sentinel passes timezone validation for every
/// country, also for one with no matched zones of its own.
pub proof fn lemma_utc_always_selectable(locales: &LocaleInfo, o: TimezoneOptions)
    requires
        o.timezone@ == "UTC"@,
    ensures
        spec_validate_timezone(locales, o) is Ok,
{
}

} // verus!
