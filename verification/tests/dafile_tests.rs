//! The Download Agent container: parsing, selection, hash-slot search.
use penumbra::dafile::{da_code_of, DAFile, DAType};

/// Builds a container with the given entries; each entry is
/// `(hw_code, regions)`, each region a byte payload loaded at `0x200000 + i`.
fn build_container(v6: bool, entries: &[(u16, Vec<Vec<u8>>)]) -> Vec<u8> {
    let esz = 0xDC;
    let table_end = 0x6C + esz * entries.len().max(1);
    let mut header = vec![0u8; 0x6C];
    header[0..0x12].copy_from_slice(b"MTK_DOWNLOAD_AGENT");
    if v6 {
        header[0x20..0x29].copy_from_slice(b"MTK_DA_v6");
    }
    header[0x68..0x6C].copy_from_slice(&(entries.len() as u32).to_le_bytes());
    let mut blob_off = table_end;
    let mut entry_table = Vec::new();
    let mut blobs = Vec::new();
    for (hw_code, regions) in entries {
        let mut e = vec![0u8; esz];
        e[0..2].copy_from_slice(&0xDADAu16.to_le_bytes());
        e[2..4].copy_from_slice(&hw_code.to_le_bytes());
        e[4..6].copy_from_slice(&0xCA00u16.to_le_bytes());
        e[0x12..0x14].copy_from_slice(&(regions.len() as u16).to_le_bytes());
        for (i, region) in regions.iter().enumerate() {
            let rec = 0x14 + 20 * i;
            e[rec..rec + 4].copy_from_slice(&(blob_off as u32).to_le_bytes());
            e[rec + 4..rec + 8].copy_from_slice(&(region.len() as u32).to_le_bytes());
            e[rec + 8..rec + 12].copy_from_slice(&(0x200000u32 + i as u32).to_le_bytes());
            e[rec + 16..rec + 20].copy_from_slice(&0u32.to_le_bytes());
            blob_off += region.len();
            blobs.extend_from_slice(region);
        }
        entry_table.extend_from_slice(&e);
    }
    let mut out = header;
    out.extend_from_slice(&entry_table);
    while out.len() < table_end {
        out.push(0);
    }
    out.extend_from_slice(&blobs);
    while out.len() < 0x148 {
        out.push(0);
    }
    out
}

fn three_regions(tag: u8) -> Vec<Vec<u8>> {
    vec![vec![tag; 16], vec![tag + 1; 32], vec![tag + 2; 24]]
}

#[test]
fn parse_da_reads_entries_and_regions() {
    let raw = build_container(false, &[(0x6768, three_regions(0x10)), (0x6765, three_regions(0x40))]);
    let f = DAFile::parse_da(&raw).unwrap();
    assert_eq!(f.da_type, DAType::V5);
    assert_eq!(f.das.len(), 2);
    assert_eq!(f.das[0].magic, 0xDADA);
    assert_eq!(f.das[0].hw_code, 0x6768);
    assert_eq!(f.das[0].hw_sub_code, 0xCA00);
    assert_eq!(f.das[0].regions.len(), 3);
    assert_eq!(f.das[0].regions[1].data, vec![0x11; 32]);
    assert_eq!(f.das[0].regions[1].addr, 0x200001);
    assert_eq!(f.das[0].regions[1].length, 32);
    assert_eq!(f.das[0].regions[1].region_length, 32);
    assert_eq!(f.das[1].hw_code, 0x6765);
    assert_eq!(f.das[1].regions[2].data, vec![0x42; 24]);
}

#[test]
fn parse_da_classifies_v6() {
    let raw = build_container(true, &[(0x989, three_regions(1))]);
    let f = DAFile::parse_da(&raw).unwrap();
    assert_eq!(f.da_type, DAType::V6);
    assert_eq!(f.das[0].da_type, DAType::V6);
}

#[test]
fn parse_da_downgrades_secro_entry() {
    let mut regions = three_regions(1);
    regions[2] = b"xxAND_SECRO_v77yy".to_vec();
    let raw = build_container(false, &[(0x321, regions)]);
    let f = DAFile::parse_da(&raw).unwrap();
    assert_eq!(f.da_type, DAType::V5);
    assert_eq!(f.das[0].da_type, DAType::Legacy);
}

#[test]
fn parse_da_rejects_malformed() {
    // Too small.
    assert!(DAFile::parse_da(&[0u8; 0x100]).is_err());
    // Missing the download-agent tag.
    let mut raw = build_container(false, &[(0x707, three_regions(1))]);
    raw[0] = b'X';
    assert!(DAFile::parse_da(&raw).is_err());
    // A region overrunning the container.
    let mut raw = build_container(false, &[(0x707, three_regions(1))]);
    let rec = 0x6C + 0x14;
    raw[rec + 4..rec + 8].copy_from_slice(&0xFFFF_FFF0u32.to_le_bytes());
    assert!(DAFile::parse_da(&raw).is_err());
}

#[test]
fn selection_follows_the_lookup_table() {
    // For pairs of the table, the selected entry carries the mapped code.
    let pairs = [
        (0x707u16, 0x6768u16),
        (0x766, 0x6765),
        (0x279, 0x6797),
        (0x989, 0x6833),
        (0x1066, 0x6781),
        (0x8176, 0x8173),
    ];
    let entries: Vec<(u16, Vec<Vec<u8>>)> =
        pairs.iter().map(|&(_, da)| (da, three_regions(1))).collect();
    let raw = build_container(false, &entries);
    let f = DAFile::parse_da(&raw).unwrap();
    for &(hw, expected) in &pairs {
        let da = f.get_da_from_hw_code(hw).unwrap();
        assert_eq!(da.hw_code, expected);
        assert_eq!(da.hw_code, da_code_of(hw));
    }
    // An unlisted code maps to itself.
    assert_eq!(da_code_of(0x6768), 0x6768);
    assert!(f.get_da_from_hw_code(0x6768).is_some());
    assert!(f.get_da_from_hw_code(0x1234).is_none());
}

#[test]
fn stage_accessors() {
    let raw = build_container(false, &[(0x707, three_regions(0x20))]);
    let f = DAFile::parse_da(&raw).unwrap();
    let da = &f.das[0];
    assert_eq!(da.get_da1().unwrap().data, vec![0x21; 32]);
    assert_eq!(da.get_da2().unwrap().data, vec![0x22; 24]);
    let raw2 = build_container(false, &[(0x707, vec![vec![1; 8]])]);
    let f2 = DAFile::parse_da(&raw2).unwrap();
    assert!(f2.das[0].get_da1().is_none());
    assert!(f2.das[0].get_da2().is_none());
}

#[test]
fn hash_offset_v5_sits_before_the_banner() {
    let mut da1 = vec![0u8; 0x100];
    da1[0x80..0x8B].copy_from_slice(b"MMU MAP: VA");
    let regions = vec![vec![0; 4], da1, vec![0; 16]];
    let raw = build_container(false, &[(0x707, regions)]);
    let f = DAFile::parse_da(&raw).unwrap();
    assert_eq!(f.das[0].find_da_hash_offset(), Some(0x50));
}

#[test]
fn hash_offset_v6_sits_before_the_signature() {
    // DA1 of 0x100 bytes with a 0x20-byte signature; the slot's last four
    // bytes are zero.
    let mut da1 = vec![1u8; 0x100];
    let sig_len = 0x20u32;
    let search_end = 0x100 - 0x20;
    for k in (search_end - 4)..search_end {
        da1[k] = 0;
    }
    let regions = vec![vec![0; 4], da1, vec![0; 16]];
    let mut raw = build_container(true, &[(0x989, regions)]);
    // Record the signature length of region 1.
    let rec = 0x6C + 0x14 + 20;
    raw[rec + 16..rec + 20].copy_from_slice(&sig_len.to_le_bytes());
    let f = DAFile::parse_da(&raw).unwrap();
    assert_eq!(f.das[0].find_da_hash_offset(), Some(search_end - 0x30));
}

#[test]
fn arm64_stub_detection() {
    let mut regions = three_regions(1);
    regions[2] = vec![0xC6, 0x01, 0x00, 0x58, 0xAA];
    let raw = build_container(false, &[(0x707, regions)]);
    let f = DAFile::parse_da(&raw).unwrap();
    assert!(f.das[0].is_arm64());
    let raw2 = build_container(false, &[(0x707, three_regions(1))]);
    let f2 = DAFile::parse_da(&raw2).unwrap();
    assert!(!f2.das[0].is_arm64());
}
