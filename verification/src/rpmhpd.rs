//! SC7180 RPMh power-domain provider.
//!
//! Domain resource addresses and level counts come from the Command DB. An
//! enabled domain is held at the highest corner that the firmware supports.

use vstd::prelude::*;

use crate::bytes::{be32, first_index, first_index_is_first};
use crate::cmd_db::{aux_data, halfwords, lookup, memory_of, read_address, read_aux_u16, CommandDb};

pub mod laws;

verus! {

pub const SC7180_CX: usize = 0;

pub const SC7180_CX_AO: usize = 1;

pub const SC7180_GFX: usize = 2;

pub const SC7180_MX: usize = 3;

pub const SC7180_MX_AO: usize = 4;

pub const SC7180_LMX: usize = 5;

pub const SC7180_LCX: usize = 6;

pub const SC7180_MSS: usize = 7;

pub const SC7180_DOMAIN_COUNT: usize = 8;

pub const RPMH_ARC_MAX_LEVELS: usize = 32;

// Corners.

pub open spec fn is_zero() -> spec_fn(u16) -> bool {
    |level: u16| level == 0
}

/// The highest corner of a level table: its first level can be zero, and
/// zeros behind it are padding.
pub open spec fn highest_corner(levels: Seq<u16>) -> Result<u32, &'static str> {
    if levels.len() == 0 || levels.len() > RPMH_ARC_MAX_LEVELS {
        Err("qcom-sc7180-rpmhpd: invalid ARC level count")
    } else {
        Ok(
            (match first_index(levels, is_zero(), 1) {
                Some(padding) => padding - 1,
                None => levels.len() - 1,
            }) as u32,
        )
    }
}

pub fn maximum_corner(levels: &[u16]) -> (r: Result<u32, &'static str>)
    ensures
        r == highest_corner(levels@),
{
    let length: usize = levels.len();
    if length == 0 || length > RPMH_ARC_MAX_LEVELS {
        return Err("qcom-sc7180-rpmhpd: invalid ARC level count");
    }
    let mut index: usize = 1;
    while index < length
        invariant
            1 <= index <= length <= 32,
            length == levels@.len(),
            first_index(levels@, is_zero(), 1) == first_index(levels@, is_zero(), index as int),
        decreases length - index,
    {
        if levels[index] == 0 {
            return Ok((index - 1) as u32);
        }
        index += 1;
    }
    Ok((length - 1) as u32)
}

// Domains.

#[derive(Clone, Copy, Debug)]
pub struct RpmhPowerDomain {
    pub label: &'static str,
    pub address: u32,
    pub maximum_corner: u32,
    /// The domain that must be on first.
    pub parent: Option<usize>,
    pub enabled: bool,
}

/// What the Command DB says of a domain: its address and its highest corner.
pub open spec fn resource_of(memory: Option<Seq<u8>>, name: Seq<char>) -> Result<
    (u32, u32),
    &'static str,
> {
    match lookup(memory, name) {
        None => Err("qcom-sc7180-rpmhpd: Command DB resource is missing"),
        Some(entry) => {
            let data = aux_data(memory, name)->0;
            if data.len() == 0 || data.len() % 2 != 0 {
                Err("qcom-sc7180-rpmhpd: Command DB ARC levels are missing")
            } else {
                match highest_corner(halfwords(data)) {
                    Ok(corner) => Ok((entry.address, corner)),
                    Err(e) => Err(e),
                }
            }
        },
    }
}

impl RpmhPowerDomain {
    pub fn new(
        database: Option<&CommandDb>,
        label: &'static str,
        resource_name: &str,
        parent: Option<usize>,
    ) -> (r: Result<RpmhPowerDomain, &'static str>)
        ensures
            match resource_of(memory_of(database), resource_name@) {
                Ok((address, maximum_corner)) => r == Ok::<RpmhPowerDomain, &'static str>(
                    RpmhPowerDomain { label, address, maximum_corner, parent, enabled: false },
                ),
                Err(e) => r == Err::<RpmhPowerDomain, &'static str>(e),
            },
    {
        let address: u32 = match read_address(database, resource_name) {
            Some(address) => address,
            None => {
                return Err("qcom-sc7180-rpmhpd: Command DB resource is missing");
            },
        };
        let levels = match read_aux_u16(database, resource_name) {
            Some(levels) => levels,
            None => {
                return Err("qcom-sc7180-rpmhpd: Command DB ARC levels are missing");
            },
        };
        match maximum_corner(&levels) {
            Ok(maximum_corner) => Ok(
                RpmhPowerDomain { label, address, maximum_corner, parent, enabled: false },
            ),
            Err(e) => Err(e),
        }
    }
}

// The provider.

#[derive(Debug)]
pub struct Sc7180RpmhPdProvider {
    pub domains: Vec<RpmhPowerDomain>,
}

/// The resources in the order in which they are looked up.
pub open spec fn resource_names() -> Seq<Seq<char>> {
    seq!["mx.lvl"@, "cx.lvl"@, "gfx.lvl"@, "lmx.lvl"@, "lcx.lvl"@, "mss.lvl"@]
}

/// The first resource that cannot be used, if any.
pub open spec fn first_fault(memory: Option<Seq<u8>>, names: Seq<Seq<char>>) -> Option<
    &'static str,
>
    decreases names.len(),
{
    if names.len() == 0 {
        None
    } else {
        match resource_of(memory, names[0]) {
            Err(e) => Some(e),
            Ok(_) => first_fault(memory, names.skip(1)),
        }
    }
}

pub open spec fn domain_of(
    memory: Option<Seq<u8>>,
    label: &'static str,
    name: Seq<char>,
    parent: Option<usize>,
) -> RpmhPowerDomain {
    let (address, maximum_corner) = resource_of(memory, name)->Ok_0;
    RpmhPowerDomain { label, address, maximum_corner, parent, enabled: false }
}

/// The domains by number. CX depends on MX, and so do their always-on
/// counterparts.
pub open spec fn all_domains(memory: Option<Seq<u8>>) -> Seq<RpmhPowerDomain> {
    seq![
        domain_of(memory, "cx", "cx.lvl"@, Some(SC7180_MX)),
        domain_of(memory, "cx_ao", "cx.lvl"@, Some(SC7180_MX_AO)),
        domain_of(memory, "gfx", "gfx.lvl"@, None),
        domain_of(memory, "mx", "mx.lvl"@, None),
        domain_of(memory, "mx_ao", "mx.lvl"@, None),
        domain_of(memory, "lmx", "lmx.lvl"@, None),
        domain_of(memory, "lcx", "lcx.lvl"@, None),
        domain_of(memory, "mss", "mss.lvl"@, None),
    ]
}

/// A vote to send to the coordinator.
#[derive(Clone, Copy, Debug, Eq, PartialEq, Structural)]
pub struct Vote {
    /// The domain that the vote is about.
    pub domain: usize,
    pub address: u32,
    pub corner: u32,
}

/// The vote that enabling a domain calls for next: its parent comes first.
pub open spec fn enable_vote(domains: Seq<RpmhPowerDomain>, index: int) -> Option<Vote> {
    if domains[index].enabled {
        None
    } else {
        let target = match domains[index].parent {
            Some(parent) => if domains[parent as int].enabled {
                index
            } else {
                parent as int
            },
            None => index,
        };
        Some(
            Vote {
                domain: target as usize,
                address: domains[target].address,
                corner: domains[target].maximum_corner,
            },
        )
    }
}

impl Sc7180RpmhPdProvider {
    pub open spec fn wf(&self) -> bool {
        &&& self.domains@.len() == SC7180_DOMAIN_COUNT
        &&& forall|i: int|
            0 <= i < SC7180_DOMAIN_COUNT ==> match (#[trigger] self.domains@[i]).parent {
                Some(parent) => parent < SC7180_DOMAIN_COUNT && parent != i
                    && self.domains@[parent as int].parent is None,
                None => true,
            }
    }

    /// All domains of the SoC, switched off.
    pub fn new(database: Option<&CommandDb>) -> (r: Result<Sc7180RpmhPdProvider, &'static str>)
        ensures
            match first_fault(memory_of(database), resource_names()) {
                Some(e) => r == Err::<Sc7180RpmhPdProvider, &'static str>(e),
                None => r matches Ok(provider) && provider.wf() && provider.domains@
                    == all_domains(memory_of(database)),
            },
    {
        proof {
            let names = resource_names();
            reveal_with_fuel(first_fault, 7);
            assert(names.skip(1)[0] == "cx.lvl"@);
            assert(names.skip(1).skip(1)[0] == "gfx.lvl"@);
            assert(names.skip(1).skip(1).skip(1)[0] == "lmx.lvl"@);
            assert(names.skip(1).skip(1).skip(1).skip(1)[0] == "lcx.lvl"@);
            assert(names.skip(1).skip(1).skip(1).skip(1).skip(1)[0] == "mss.lvl"@);
        }
        let mx = match RpmhPowerDomain::new(database, "mx", "mx.lvl", None) {
            Ok(domain) => domain,
            Err(e) => {
                return Err(e);
            },
        };
        let mx_ao = match RpmhPowerDomain::new(database, "mx_ao", "mx.lvl", None) {
            Ok(domain) => domain,
            Err(e) => {
                return Err(e);
            },
        };
        let cx = match RpmhPowerDomain::new(database, "cx", "cx.lvl", Some(SC7180_MX)) {
            Ok(domain) => domain,
            Err(e) => {
                return Err(e);
            },
        };
        let cx_ao = match RpmhPowerDomain::new(database, "cx_ao", "cx.lvl", Some(SC7180_MX_AO)) {
            Ok(domain) => domain,
            Err(e) => {
                return Err(e);
            },
        };
        let gfx = match RpmhPowerDomain::new(database, "gfx", "gfx.lvl", None) {
            Ok(domain) => domain,
            Err(e) => {
                return Err(e);
            },
        };
        let lmx = match RpmhPowerDomain::new(database, "lmx", "lmx.lvl", None) {
            Ok(domain) => domain,
            Err(e) => {
                return Err(e);
            },
        };
        let lcx = match RpmhPowerDomain::new(database, "lcx", "lcx.lvl", None) {
            Ok(domain) => domain,
            Err(e) => {
                return Err(e);
            },
        };
        let mss = match RpmhPowerDomain::new(database, "mss", "mss.lvl", None) {
            Ok(domain) => domain,
            Err(e) => {
                return Err(e);
            },
        };
        let mut domains: Vec<RpmhPowerDomain> = Vec::new();
        domains.push(cx);
        domains.push(cx_ao);
        domains.push(gfx);
        domains.push(mx);
        domains.push(mx_ao);
        domains.push(lmx);
        domains.push(lcx);
        domains.push(mss);
        assert(domains@ =~= all_domains(memory_of(database)));
        Ok(Sc7180RpmhPdProvider { domains })
    }

    pub fn power_domain_cells(&self) -> (r: usize)
        ensures
            r == 1,
    {
        1
    }

    /// The number of the domain that a specifier names.
    pub fn get_domain(&self, specifier: &[u32]) -> (r: Result<usize, &'static str>)
        requires
            self.wf(),
        ensures
            r == (if specifier@.len() != 1 {
                Err::<usize, &'static str>("qcom-sc7180-rpmhpd: expected one domain cell")
            } else if specifier@[0] >= SC7180_DOMAIN_COUNT {
                Err("qcom-sc7180-rpmhpd: unsupported domain id")
            } else {
                Ok(specifier@[0] as usize)
            }),
    {
        if specifier.len() != 1 {
            return Err("qcom-sc7180-rpmhpd: expected one domain cell");
        }
        let index: usize = specifier[0] as usize;
        if index >= self.domains.len() {
            return Err("qcom-sc7180-rpmhpd: unsupported domain id");
        }
        Ok(index)
    }

    /// The next vote to send for enabling a domain; none once it is on.
    pub fn enable(&self, index: usize) -> (r: Option<Vote>)
        requires
            self.wf(),
            index < SC7180_DOMAIN_COUNT,
        ensures
            r == enable_vote(self.domains@, index as int),
            r matches Some(vote) ==> vote.domain < SC7180_DOMAIN_COUNT,
    {
        let domain = self.domains[index];
        if domain.enabled {
            return None;
        }
        let mut target: usize = index;
        if let Some(parent) = domain.parent {
            if !self.domains[parent].enabled {
                target = parent;
            }
        }
        let chosen = self.domains[target];
        Some(Vote { domain: target, address: chosen.address, corner: chosen.maximum_corner })
    }

    /// The vote to send for disabling a domain; none if it is off.
    pub fn disable(&self, index: usize) -> (r: Option<Vote>)
        requires
            self.wf(),
            index < SC7180_DOMAIN_COUNT,
        ensures
            r == (if self.domains@[index as int].enabled {
                Some(
                    Vote {
                        domain: index,
                        address: self.domains@[index as int].address,
                        corner: 0,
                    },
                )
            } else {
                None
            }),
    {
        let domain = self.domains[index];
        if !domain.enabled {
            return None;
        }
        Some(Vote { domain: index, address: domain.address, corner: 0 })
    }

    /// Notes that the coordinator took a vote. A vote that failed changes
    /// nothing.
    pub fn voted(&mut self, index: usize, enabled: bool)
        requires
            old(self).wf(),
            index < SC7180_DOMAIN_COUNT,
        ensures
            final(self).wf(),
            final(self).domains@ == old(self).domains@.update(
                index as int,
                RpmhPowerDomain { enabled, ..old(self).domains@[index as int] },
            ),
    {
        let ghost start = self.domains@;
        let mut domain = self.domains[index];
        domain.enabled = enabled;
        self.domains.set(index, domain);
        assert forall|i: int| 0 <= i < SC7180_DOMAIN_COUNT implies match (
        #[trigger] self.domains@[i]).parent {
            Some(parent) => parent < SC7180_DOMAIN_COUNT && parent != i
                && self.domains@[parent as int].parent is None,
            None => true,
        } by {
            assert(self.domains@[i].parent == start[i].parent);
            if let Some(parent) = start[i].parent {
                assert(self.domains@[parent as int].parent == start[parent as int].parent);
            }
        }
    }

    pub fn is_enabled(&self, index: usize) -> (r: bool)
        requires
            self.wf(),
            index < SC7180_DOMAIN_COUNT,
        ensures
            r == self.domains@[index as int].enabled,
    {
        self.domains[index].enabled
    }

    pub fn label(&self, index: usize) -> (r: &'static str)
        requires
            self.wf(),
            index < SC7180_DOMAIN_COUNT,
        ensures
            r == self.domains@[index as int].label,
    {
        self.domains[index].label
    }
}

/// The handle of the provider: the first of its two properties that is there.
pub fn read_phandle(phandle: Option<&[u8]>, linux_phandle: Option<&[u8]>) -> (r: Result<
    u32,
    &'static str,
>)
    ensures
        ({
            let property = if phandle is Some {
                phandle
            } else {
                linux_phandle
            };
            r == (match property {
                None => Err::<u32, &'static str>("qcom-sc7180-rpmhpd: missing phandle"),
                Some(value) => if value@.len() != 4 {
                    Err("qcom-sc7180-rpmhpd: malformed phandle")
                } else {
                    Ok(be32(value@, 0) as u32)
                },
            })
        }),
{
    let property = match phandle {
        Some(value) => Some(value),
        None => linux_phandle,
    };
    match property {
        None => Err("qcom-sc7180-rpmhpd: missing phandle"),
        Some(value) => {
            if value.len() != 4 {
                return Err("qcom-sc7180-rpmhpd: malformed phandle");
            }
            Ok(crate::bytes::read_be_u32(value, 0).unwrap())
        },
    }
}

// Laws.

/// The highest corner has a level that is not padding, and none behind it is
/// used.
pub proof fn the_highest_corner_is_no_padding(levels: Seq<u16>)
    requires
        highest_corner(levels) is Ok,
    ensures
        ({
            let corner = highest_corner(levels)->Ok_0 as int;
            &&& corner < levels.len()
            &&& forall|i: int| 1 <= i <= corner ==> #[trigger] levels[i] != 0
            &&& corner + 1 < levels.len() ==> levels[corner + 1] == 0
        }),
{
    first_index_is_first(levels, is_zero(), 1);
    let corner = highest_corner(levels)->Ok_0 as int;
    assert forall|i: int| 1 <= i <= corner implies #[trigger] levels[i] != 0 by {
        assert(!is_zero()(levels[i]));
    }
    match first_index(levels, is_zero(), 1) {
        Some(padding) => {
            assert(is_zero()(levels[padding]));
        },
        None => {},
    }
}

/// A domain is voted on only once its parent is on.
pub proof fn parents_are_enabled_first(provider: Sc7180RpmhPdProvider, index: int)
    requires
        provider.wf(),
        0 <= index < SC7180_DOMAIN_COUNT,
    ensures
        enable_vote(provider.domains@, index) matches Some(vote) ==> {
            let domain = provider.domains@[vote.domain as int];
            &&& !domain.enabled
            &&& domain.parent matches Some(parent) ==> provider.domains@[parent as int].enabled
        },
{
}

/// Enabling a domain takes at most two votes: one for its parent and one for
/// itself.
pub proof fn two_votes_enable_a_domain(provider: Sc7180RpmhPdProvider, index: int)
    requires
        provider.wf(),
        0 <= index < SC7180_DOMAIN_COUNT,
        enable_vote(provider.domains@, index) is Some,
    ensures
        ({
            let first = enable_vote(provider.domains@, index)->0.domain as int;
            let after = provider.domains@.update(
                first,
                RpmhPowerDomain { enabled: true, ..provider.domains@[first] },
            );
            first == index || enable_vote(after, index)->0.domain == index
        }),
{
}

/// Keeps the driver linked into builds that load it by name.
pub fn force_link() {
}

} // verus!
