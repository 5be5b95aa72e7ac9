//! How the power domains belong together.

use vstd::prelude::*;

use crate::bytes::{first_index, first_index_is_first};
use crate::cmd_db::lookup;
use crate::rpmhpd::{
    all_domains, first_fault, highest_corner, is_zero, resource_names, resource_of,
    Sc7180RpmhPdProvider, Vote, SC7180_CX, SC7180_CX_AO, SC7180_GFX, SC7180_LCX, SC7180_LMX,
    SC7180_MSS, SC7180_MX, SC7180_MX_AO,
};

verus! {

/// The core domain stands on the memory domain, and each active-only domain is
/// the same resource as its plain one and stands on the active-only memory
/// domain. No other domain stands on another, and all start disabled.
pub proof fn domains_stand_on_their_parents(memory: Option<Seq<u8>>)
    ensures
        ({
            let all = all_domains(memory);
            &&& all.len() == 8
            &&& all[0].parent == Some(3usize) && all[1].parent == Some(4usize)
            &&& forall|i: int| 2 <= i < 8 ==> (#[trigger] all[i]).parent is None
            &&& forall|i: int| 0 <= i < 8 ==> !(#[trigger] all[i]).enabled
            &&& all[1].address == all[0].address && all[1].maximum_corner == all[0].maximum_corner
            &&& all[4].address == all[3].address && all[4].maximum_corner == all[3].maximum_corner
            &&& all[0].label == "cx" && all[3].label == "mx"
        }),
{
}

/// A domain is voted up to its highest corner, itself or first the parent that
/// it stands on, and down to none; one that is in that state already is not
/// voted on.
pub proof fn votes_go_all_the_way(
    provider: Sc7180RpmhPdProvider,
    index: usize,
    up: Option<Vote>,
    down: Option<Vote>,
)
    requires
        provider.wf(),
        index < 8,
        call_ensures(Sc7180RpmhPdProvider::enable, (&provider, index), up),
        call_ensures(Sc7180RpmhPdProvider::disable, (&provider, index), down),
    ensures
        ({
            let domains = provider.domains@;
            let domain = domains[index as int];
            &&& up is None <==> domain.enabled
            &&& up matches Some(vote) ==> {
                &&& vote.address == domains[vote.domain as int].address
                &&& vote.corner == domains[vote.domain as int].maximum_corner
                &&& vote.domain == index || domain.parent == Some(vote.domain)
                &&& vote.domain == index <==> (domain.parent matches Some(parent)
                    ==> domains[parent as int].enabled)
            }
            &&& down is Some <==> domain.enabled
            &&& down matches Some(vote) ==> vote == (Vote {
                domain: index,
                address: domain.address,
                corner: 0,
            })
        }),
{
}

/// The highest corner is the last level before the padding: zeros behind the
/// first level. A table has one to 32 levels.
pub proof fn corners_end_before_the_padding(levels: Seq<u16>, corner: int)
    requires
        0 <= corner < levels.len(),
        forall|i: int| 0 < i <= corner ==> #[trigger] levels[i] != 0,
        corner + 1 < levels.len() ==> levels[corner + 1] == 0,
    ensures
        levels.len() <= 32 ==> highest_corner(levels) == Ok::<u32, &'static str>(corner as u32),
        levels.len() > 32 ==> highest_corner(levels) is Err,
        highest_corner(Seq::empty()) is Err,
{
    first_index_is_first(levels, is_zero(), 1);
    match first_index(levels, is_zero(), 1) {
        Some(padding) => {
            assert(is_zero()(levels[padding]));
            assert(padding > corner);
            if padding > corner + 1 {
                assert(!is_zero()(levels[corner + 1]));
            }
        },
        None => {
            if corner + 1 < levels.len() {
                assert(!is_zero()(levels[corner + 1]));
            }
        },
    }
}

/// The domains are six resources of the command database, and the first that
/// is missing there fails them all.
pub proof fn domains_are_six_resources(memory: Option<Seq<u8>>, index: int)
    requires
        0 <= index < 6,
    ensures
        resource_names() == seq![
            "mx.lvl"@,
            "cx.lvl"@,
            "gfx.lvl"@,
            "lmx.lvl"@,
            "lcx.lvl"@,
            "mss.lvl"@,
        ],
        first_fault(memory, resource_names()) is None ==> resource_of(
            memory,
            resource_names()[index],
        ) is Ok,
        first_fault(memory, resource_names()) is None ==> lookup(memory, resource_names()[index])
            is Some,
{
    if first_fault(memory, resource_names()) is None {
        faultless_resources_are_there(memory, resource_names(), index);
    }
}

proof fn faultless_resources_are_there(memory: Option<Seq<u8>>, names: Seq<Seq<char>>, index: int)
    requires
        0 <= index < names.len(),
        first_fault(memory, names) is None,
    ensures
        resource_of(memory, names[index]) is Ok,
    decreases names.len(),
{
    if index > 0 {
        assert(names.skip(1)[index - 1] == names[index]);
        faultless_resources_are_there(memory, names.skip(1), index - 1);
    }
}

/// A domain is named by one cell below eight.
pub proof fn domains_are_named_by_one_cell(
    provider: Sc7180RpmhPdProvider,
    specifier: &[u32],
    r: Result<usize, &'static str>,
)
    requires
        call_ensures(Sc7180RpmhPdProvider::get_domain, (&provider, specifier), r),
    ensures
        r is Ok <==> specifier@.len() == 1 && specifier@[0] < 8,
        r matches Ok(index) ==> index == specifier@[0],
{
}

/// A domain has the address and the highest corner of the resource whose name
/// it bears.
pub proof fn domains_have_their_resource(memory: Option<Seq<u8>>)
    ensures
        ({
            let all = all_domains(memory);
            let of = |index: usize, name: Seq<char>|
                resource_of(memory, name) is Ok ==> (
                    all[index as int].address,
                    all[index as int].maximum_corner,
                ) == resource_of(memory, name)->Ok_0;
            &&& of(SC7180_CX, "cx.lvl"@) && of(SC7180_CX_AO, "cx.lvl"@)
            &&& of(SC7180_GFX, "gfx.lvl"@)
            &&& of(SC7180_MX, "mx.lvl"@) && of(SC7180_MX_AO, "mx.lvl"@)
            &&& of(SC7180_LMX, "lmx.lvl"@)
            &&& of(SC7180_LCX, "lcx.lvl"@)
            &&& of(SC7180_MSS, "mss.lvl"@)
        }),
{
}

} // verus!
