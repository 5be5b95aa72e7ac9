//! Where the time comes from.

use vstd::prelude::*;

use crate::bytes::{le32_bytes, le32_of_bytes};
use crate::device_tree::{first_cell, last_property, lists_text, property_of, NodeView};
use crate::rtc::{
    clock_among, clock_in, clock_in_any, clock_of_pmic, clock_of_pmics, clock_place,
    features_result, node_is, plausible, value_result, Counter, CounterAsk, CounterStage, Search,
    Seed, SeedAsk, SeedEventView, SeedStage, Source,
};

verus! {

/// A time is plausible from the first day of 2000 up to the last of 2099.
pub proof fn plausible_times_lie_in_this_century(seconds: u32)
    ensures
        plausible(seconds) <==> 10_957 <= seconds as int / 86_400 < 47_482,
{
}

/// The controller's time is read as it was sent.
pub proof fn sent_times_are_read_back(seconds: u32, reply: Seq<u8>)
    ensures
        value_result(Some(le32_bytes(seconds as int))) == Ok::<u32, &'static str>(seconds),
        value_result(Some(reply)) is Ok <==> reply.len() == 4,
        value_result(None) is Err,
{
    le32_of_bytes(seconds);
}

/// A controller keeps time exactly where it sets feature 27, the fourth bit of
/// the fourth byte of its eight.
pub proof fn the_clock_is_a_feature(reply: Seq<u8>)
    requires
        reply.len() == 8,
    ensures
        features_result(Some(reply)) is Ok <==> reply[3] as int / 8 % 2 == 1,
{
    let low = reply[0] + 0x100 * reply[1] + 0x1_0000 * reply[2];
    assert(crate::bytes::le32(reply, 0) == low + 0x100_0000 * reply[3]);
    assert((low + 0x100_0000 * reply[3]) / 0x800_0000 == reply[3] as int / 8);
}

/// The clock is set to the very time that the source gave, in nanoseconds, and
/// to the controller's if that is plausible.
pub proof fn the_given_time_is_set(seed: Seed, seconds: u32)
    requires
        plausible(seconds),
    ensures
        seed.at(SeedStage::Value).step(
            SeedEventView::Reply { reply: Some(le32_bytes(seconds as int)) },
        ).1 == (SeedAsk::SetClock {
            source: Source::ChromeEc,
            epoch_ns: (seconds * 1_000_000_000) as u64,
        }),
        seed.at(SeedStage::Counter).step(SeedEventView::Seconds { seconds: Ok(seconds) }).1 == (
        SeedAsk::SetClock {
            source: Source::Pm6150,
            epoch_ns: (seconds * 1_000_000_000) as u64,
        }),
        seconds * 1_000_000_000 <= u64::MAX,
{
    le32_of_bytes(seconds);
}

/// A clock that somebody has set already is no failure; any other failure of
/// the controller's time leads to the PMIC.
pub proof fn a_set_clock_is_no_failure(seed: Seed, error: &'static str, source: Source)
    ensures
        ({
            let stage = seed.at(SeedStage::Clock { source });
            let failed = stage.step(SeedEventView::Clock { result: Err(error) });
            &&& stage.step(SeedEventView::Clock { result: Ok(()) }).1 == (SeedAsk::Finished {
                controller: seed.controller_error,
                pmic: None,
            })
            &&& error@ == "wall clock already initialized"@ ==> failed.1 == (SeedAsk::Finished {
                controller: seed.controller_error,
                pmic: None,
            })
            &&& error@ != "wall clock already initialized"@ ==> match source {
                Source::ChromeEc => failed.1 is FindArbiter && failed.0.controller_error == Some(
                    error,
                ),
                Source::Pm6150 => failed.1 == (SeedAsk::Finished {
                    controller: seed.controller_error,
                    pmic: Some(error),
                }),
            }
        }),
{
}

/// A counter is believed once its lowest byte has not fallen since the whole of
/// it was read; otherwise it is read again as a whole.
pub proof fn a_carry_is_noticed(counter: Counter, first: u32, lowest: u8, second: u32)
    requires
        counter.stage is First,
    ensures
        ({
            let a = counter.step(Ok(le32_bytes(first as int)));
            let b = a.0.step(Ok(seq![lowest]));
            let c = b.0.step(Ok(le32_bytes(second as int)));
            &&& a.1 == (CounterAsk::Read { sid: counter.sid, address: counter.address, length: 1 })
            &&& lowest >= first % 0x100 ==> b.1 == (CounterAsk::Finished { result: Ok(first) })
            &&& lowest < first % 0x100 ==> {
                &&& b.1 == (CounterAsk::Read {
                    sid: counter.sid,
                    address: counter.address,
                    length: 4,
                })
                &&& c.1 == (CounterAsk::Finished { result: Ok(second) })
            }
        }),
{
    le32_of_bytes(first);
    le32_of_bytes(second);
}

/// The counter's registers lie 0x48 behind its base, and four are read first.
pub proof fn the_counter_is_read_from_its_registers(
    sid: u8,
    base: u16,
    r: Result<(Counter, CounterAsk), &'static str>,
)
    requires
        call_ensures(Counter::read_raw_seconds, (sid, base), r),
    ensures
        r is Ok <==> base <= 0xffff - 0x48,
        r matches Ok((counter, ask)) ==> {
            &&& counter.stage == CounterStage::First
            &&& counter.sid == sid
            &&& counter.address == base + 0x48
            &&& ask == (CounterAsk::Read { sid, address: counter.address, length: 4 })
        },
{
}

proof fn a_clock_among_stands_there(children: Seq<NodeView>, from: int, sid: u8)
    requires
        0 <= from,
    ensures
        clock_among(children, from, sid) matches Search::Found { sid: found, base } ==> found == sid
            && exists|i: int|
            from <= i < children.len() && node_is(#[trigger] children[i], "qcom,pm8941-rtc"@)
                && first_cell(property_of(children[i], "reg"@)) == Some(base as u32),
    decreases children.len() - from,
{
    if from < children.len() && !node_is(children[from], "qcom,pm8941-rtc"@) {
        a_clock_among_stands_there(children, from + 1, sid);
    }
}

/// A clock that is found is a real-time clock below a PMIC of the right kind, at
/// the register that its node names, and the PMIC has the identifier that its
/// own node names.
pub proof fn a_found_clock_belongs_to_its_pmic(pmics: Seq<NodeView>, from: int)
    requires
        0 <= from,
    ensures
        clock_of_pmics(pmics, from) matches Search::Found { sid, base } ==> exists|p: int, i: int|
            #![trigger pmics[p], pmics[p].children[i]]
            {
                &&& from <= p < pmics.len() && 0 <= i < pmics[p].children.len()
                &&& node_is(pmics[p], "qcom,pm6150"@)
                &&& first_cell(property_of(pmics[p], "reg"@)) == Some(sid as u32)
                &&& node_is(pmics[p].children[i], "qcom,pm8941-rtc"@)
                &&& first_cell(property_of(pmics[p].children[i], "reg"@)) == Some(base as u32)
            },
    decreases pmics.len() - from,
{
    if from < pmics.len() {
        match clock_of_pmic(pmics[from]) {
            Search::NotHere => {
                a_found_clock_belongs_to_its_pmic(pmics, from + 1);
            },
            Search::Found { sid, base } => {
                let own = first_cell(property_of(pmics[from], "reg"@))->Some_0 as u8;
                a_clock_among_stands_there(pmics[from].children, 0, own);
                let i = choose|i: int|
                    0 <= i < pmics[from].children.len() && node_is(
                        #[trigger] pmics[from].children[i],
                        "qcom,pm8941-rtc"@,
                    ) && first_cell(property_of(pmics[from].children[i], "reg"@)) == Some(
                        base as u32,
                    );
                assert(node_is(pmics[from].children[i], "qcom,pm8941-rtc"@));
            },
            Search::GivenUp => {},
        }
    }
}

/// A clock is looked for in a bus node before its children, and in a later
/// child before an earlier one; a search that was given up ends it.
pub proof fn clocks_are_looked_for_in_order(node: NodeView, rest: Seq<NodeView>, last: NodeView)
    ensures
        node_is(node, "qcom,spmi-pmic-arb"@) && clock_of_pmics(node.children, 0) !is NotHere
            ==> clock_in(node) == clock_of_pmics(node.children, 0),
        !node_is(node, "qcom,spmi-pmic-arb"@) || clock_of_pmics(node.children, 0) is NotHere
            ==> clock_in(node) == clock_in_any(node.children),
        clock_in(last) !is NotHere ==> clock_in_any(rest.push(last)) == clock_in(last),
        clock_in(last) is NotHere ==> clock_in_any(rest.push(last)) == clock_in_any(rest),
        clock_in_any(Seq::empty()) is NotHere,
        clock_in(node) matches Search::Found { sid, base } ==> clock_place(Some(node)) == Some(
            (sid, base),
        ),
        clock_in(node) !is Found ==> clock_place(Some(node)) is None,
        clock_place(None) is None,
{
    assert(rest.push(last).drop_last() =~= rest);
}

/// A feature bitmap has eight bytes.
pub proof fn feature_bitmaps_have_eight_bytes(reply: Seq<u8>)
    ensures
        reply.len() != 8 ==> features_result(Some(reply)) is Err,
        features_result(None) is Err,
{
}

/// A node is what the texts of its last compatible property name.
pub proof fn nodes_are_what_they_are_compatible_with(node: NodeView, name: Seq<char>)
    ensures
        last_property(node.properties, "compatible"@) matches Some(value) ==> (node_is(node, name)
            <==> lists_text(value, 0, vstd::utf8::encode_utf8(name))),
        last_property(node.properties, "compatible"@) is None ==> !node_is(node, name),
{
}

} // verus!
