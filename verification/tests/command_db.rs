//! The Command DB, and what the power domains and the interconnect read from
//! it.

use coachz_drivers::cmd_db::{
    check_resource, probe, read_address, read_aux_data, read_aux_u16, CommandDb, EntryHeader,
};
use coachz_drivers::rpmhpd::{
    maximum_corner, read_phandle, RpmhPowerDomain, Sc7180RpmhPdProvider, Vote, SC7180_CX,
    SC7180_CX_AO, SC7180_GFX, SC7180_MSS, SC7180_MX,
};

/// A database with one resource kind: identifier, address, data.
fn database(entries: &[(&str, u32, Vec<u8>)]) -> Vec<u8> {
    let header_size = entries.len() * 24;
    let mut memory = vec![0u8; 144];
    memory[4..8].copy_from_slice(&[0xdb, 0x30, 0x03, 0x0c]);
    memory[8..10].copy_from_slice(&3u16.to_le_bytes());
    memory[10..12].copy_from_slice(&0u16.to_le_bytes());
    memory[12..14].copy_from_slice(&(header_size as u16).to_le_bytes());
    memory[14..16].copy_from_slice(&(entries.len() as u16).to_le_bytes());
    let mut data = Vec::new();
    for (id, address, bytes) in entries {
        let mut entry = [0u8; 24];
        entry[..id.len()].copy_from_slice(id.as_bytes());
        entry[16..20].copy_from_slice(&address.to_le_bytes());
        entry[20..22].copy_from_slice(&(bytes.len() as u16).to_le_bytes());
        entry[22..24].copy_from_slice(&(data.len() as u16).to_le_bytes());
        memory.extend_from_slice(&entry);
        data.extend_from_slice(bytes);
    }
    memory.extend_from_slice(&data);
    memory
}

fn levels(values: &[u16]) -> Vec<u8> {
    values.iter().flat_map(|value| value.to_le_bytes()).collect()
}

#[test]
fn entries_are_found_by_their_identifier() {
    let memory = database(&[
        ("cx.lvl", 0x30080, levels(&[0, 16, 48])),
        ("SH0", 0x50000, vec![1, 2, 3]),
    ]);
    let db = probe(memory).unwrap();
    assert!(db.has_valid_magic());
    assert_eq!(
        db.find("SH0"),
        Some(EntryHeader { address: 0x50000, data_length: 3, data_offset: 144 + 48 + 6 })
    );
    assert_eq!(read_address(Some(&db), "cx.lvl"), Some(0x30080));
    assert_eq!(read_aux_data(Some(&db), "SH0"), Some(vec![1, 2, 3]));
    assert_eq!(read_aux_u16(Some(&db), "cx.lvl"), Some(vec![0, 16, 48]));
    // An odd number of bytes is no list of words.
    assert_eq!(read_aux_u16(Some(&db), "SH0"), None);
    assert_eq!(read_address(Some(&db), "SH"), None);
    assert_eq!(read_address(Some(&db), ""), None);
    assert_eq!(read_address(Some(&db), "ninechars"), None);
    assert_eq!(read_address(None, "SH0"), None);
    assert_eq!(read_aux_data(None, "SH0"), None);
    assert_eq!(read_aux_u16(None, "SH0"), None);
}

#[test]
fn data_outside_the_memory_is_not_found() {
    let mut memory = database(&[("a", 1, vec![9; 4]), ("b", 2, vec![8; 4])]);
    memory.truncate(memory.len() - 1);
    let db = CommandDb { memory };
    assert_eq!(read_aux_data(Some(&db), "a"), Some(vec![9; 4]));
    assert_eq!(read_aux_data(Some(&db), "b"), None);
    // The table itself is cut off.
    let db = CommandDb { memory: database(&[("a", 1, vec![])])[..150].to_vec() };
    assert_eq!(read_address(Some(&db), "a"), None);
}

#[test]
fn a_database_without_its_magic_is_refused() {
    let mut memory = database(&[]);
    memory[7] = 0;
    assert!(probe(memory).is_err());
    assert!(probe(vec![0; 3]).is_err());
    assert!(check_resource(None).is_err());
    assert!(check_resource(Some((0x1000, 0x0fff))).is_err());
    assert_eq!(check_resource(Some((0x1000, 0x1fff))), Ok(0x1000));
}

#[test]
fn maximum_corner_ignores_zero_padding() {
    assert_eq!(maximum_corner(&[0, 16, 48, 64, 0, 0]), Ok(3));
}

#[test]
fn corners_must_be_there_and_few() {
    assert!(maximum_corner(&[]).is_err());
    assert!(maximum_corner(&[0; 33]).is_err());
    assert_eq!(maximum_corner(&[16]), Ok(0));
    assert_eq!(maximum_corner(&[0, 16]), Ok(1));
}

fn domains() -> Sc7180RpmhPdProvider {
    let corners = levels(&[0, 16, 48, 64, 0]);
    let memory = database(&[
        ("cx.lvl", 0x30000, corners.clone()),
        ("gfx.lvl", 0x30010, corners.clone()),
        ("mx.lvl", 0x30020, corners.clone()),
        ("lmx.lvl", 0x30030, corners.clone()),
        ("lcx.lvl", 0x30040, corners.clone()),
        ("mss.lvl", 0x30050, corners),
    ]);
    Sc7180RpmhPdProvider::new(Some(&CommandDb { memory })).unwrap()
}

#[test]
fn a_parent_is_voted_for_first() {
    let mut provider = domains();
    assert_eq!(provider.power_domain_cells(), 1);
    assert_eq!(provider.get_domain(&[0]), Ok(SC7180_CX));
    assert!(provider.get_domain(&[8]).is_err());
    assert!(provider.get_domain(&[]).is_err());
    assert!(provider.get_domain(&[0, 0]).is_err());

    let first = provider.enable(SC7180_CX).unwrap();
    assert_eq!(first, Vote { domain: SC7180_MX, address: 0x30020, corner: 3 });
    provider.voted(first.domain, true);
    let second = provider.enable(SC7180_CX).unwrap();
    assert_eq!(second, Vote { domain: SC7180_CX, address: 0x30000, corner: 3 });
    provider.voted(second.domain, true);
    assert_eq!(provider.enable(SC7180_CX), None);
    assert!(provider.is_enabled(SC7180_CX));

    let down = provider.disable(SC7180_CX).unwrap();
    assert_eq!(down, Vote { domain: SC7180_CX, address: 0x30000, corner: 0 });
    provider.voted(down.domain, false);
    assert!(!provider.is_enabled(SC7180_CX));
    assert!(provider.is_enabled(SC7180_MX));
    assert_eq!(provider.disable(SC7180_CX), None);
}

#[test]
fn a_domain_without_a_parent_needs_one_vote() {
    let provider = domains();
    assert_eq!(
        provider.enable(SC7180_GFX),
        Some(Vote { domain: SC7180_GFX, address: 0x30010, corner: 3 })
    );
    assert_eq!(
        provider.enable(SC7180_MSS),
        Some(Vote { domain: SC7180_MSS, address: 0x30050, corner: 3 })
    );
    assert_ne!(provider.label(SC7180_CX), provider.label(SC7180_CX_AO));
}

#[test]
fn missing_domain_data_is_reported() {
    assert!(Sc7180RpmhPdProvider::new(None).is_err());
    let memory = database(&[("cx.lvl", 0x30000, vec![1])]);
    let db = CommandDb { memory };
    assert!(RpmhPowerDomain::new(Some(&db), "cx", "cx.lvl", None).is_err());
    assert!(RpmhPowerDomain::new(Some(&db), "mx", "mx.lvl", None).is_err());
}

#[test]
fn a_provider_needs_a_handle() {
    assert_eq!(read_phandle(Some(&[0, 0, 0, 5]), None), Ok(5));
    assert_eq!(read_phandle(None, Some(&[0, 0, 0, 6])), Ok(6));
    assert!(read_phandle(None, None).is_err());
}
