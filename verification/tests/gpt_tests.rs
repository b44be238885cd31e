//! The GUID partition table parser and the storage records.
use penumbra::storage::{
    parse_gpt, sector_size, EmmcPartition, EmmcStorage, PartitionKind, Storage, StorageType,
    UfsLu, UfsStorage,
};

fn put_entry(data: &mut [u8], base: usize, first: u64, last: u64, name: &str) {
    data[base] = 0xEE;  // a non-null type identifier
    data[base + 32..base + 40].copy_from_slice(&first.to_le_bytes());
    data[base + 40..base + 48].copy_from_slice(&last.to_le_bytes());
    for (i, c) in name.chars().enumerate() {
        let unit = (c as u16).to_le_bytes();
        data[base + 56 + 2 * i..base + 58 + 2 * i].copy_from_slice(&unit);
    }
}

fn gpt_fixture(count: u32) -> Vec<u8> {
    let mut data = vec![0u8; 2 * 512 + 128 * count as usize];
    data[512..520].copy_from_slice(b"EFI PART");
    data[512 + 80..512 + 84].copy_from_slice(&count.to_le_bytes());
    data
}

#[test]
fn parses_in_use_entries_in_order() {
    let mut data = gpt_fixture(4);
    put_entry(&mut data, 1024, 0x400, 0x4FF, "boot");
    // Entry 1 left null: skipped.
    put_entry(&mut data, 1024 + 2 * 128, 0x500, 0x6FF, "system");
    put_entry(&mut data, 1024 + 3 * 128, 0x700, 0x700, "lk");
    let parts = parse_gpt(&data, StorageType::Emmc).unwrap();
    assert_eq!(parts.len(), 3);
    assert_eq!(parts[0].name, b"boot".to_vec());
    assert_eq!(parts[0].address, 0x400 * 512);
    assert_eq!(parts[0].size, 0x100 * 512);
    assert_eq!(parts[0].kind, PartitionKind::Emmc(EmmcPartition::User));
    assert_eq!(parts[1].name, b"system".to_vec());
    assert_eq!(parts[1].size, 0x200 * 512);
    assert_eq!(parts[2].name, b"lk".to_vec());
    assert_eq!(parts[2].size, 512);
}

#[test]
fn ufs_uses_large_sectors() {
    let mut data = vec![0u8; 2 * 4096 + 128];
    data[4096..4104].copy_from_slice(b"EFI PART");
    data[4096 + 80..4096 + 84].copy_from_slice(&1u32.to_le_bytes());
    put_entry(&mut data, 8192, 2, 3, "userdata");
    let parts = parse_gpt(&data, StorageType::Ufs).unwrap();
    assert_eq!(parts.len(), 1);
    assert_eq!(parts[0].address, 2 * 4096);
    assert_eq!(parts[0].size, 2 * 4096);
    assert_eq!(parts[0].kind, PartitionKind::Ufs(UfsLu::Lu2));
    assert_eq!(sector_size(StorageType::Ufs), 4096);
    assert_eq!(sector_size(StorageType::Emmc), 512);
}

#[test]
fn rejects_bad_signature_and_overrun() {
    let mut data = gpt_fixture(1);
    data[512] = b'X';
    assert!(parse_gpt(&data, StorageType::Emmc).is_err());
    // Announcing more entries than the buffer holds.
    let mut data = gpt_fixture(1);
    data[512 + 80..512 + 84].copy_from_slice(&100u32.to_le_bytes());
    assert!(parse_gpt(&data, StorageType::Emmc).is_err());
    // Reversed sector range in an in-use entry.
    let mut data = gpt_fixture(1);
    put_entry(&mut data, 1024, 0x500, 0x400, "bad");
    assert!(parse_gpt(&data, StorageType::Emmc).is_err());
}

#[test]
fn non_ascii_name_units_become_placeholders() {
    let mut data = gpt_fixture(1);
    put_entry(&mut data, 1024, 1, 1, "a\u{4e2d}b");
    let parts = parse_gpt(&data, StorageType::Emmc).unwrap();
    assert_eq!(parts[0].name, b"a?b".to_vec());
}

#[test]
fn emmc_info_record_layout() {
    let mut resp = vec![0u8; 68];
    resp[4..12].copy_from_slice(&0x40000u64.to_le_bytes());
    resp[12..20].copy_from_slice(&0x40000u64.to_le_bytes());
    resp[20..28].copy_from_slice(&0x100000u64.to_le_bytes());
    resp[60..68].copy_from_slice(&0x1000000000u64.to_le_bytes());
    let s = EmmcStorage::from_response(&resp).unwrap();
    assert_eq!(s.boot1_size, 0x40000);
    assert_eq!(s.boot2_size, 0x40000);
    assert_eq!(s.rpmb_size, 0x100000);
    assert_eq!(s.ua_size, 0x1000000000);
    assert!(EmmcStorage::from_response(&resp[..60]).is_err());
    let st = Storage::Emmc(s);
    assert_eq!(st.kind(), StorageType::Emmc);
    assert_eq!(st.get_pl_part1(), PartitionKind::Emmc(EmmcPartition::Boot1));
    assert_eq!(st.get_pl_part2(), PartitionKind::Emmc(EmmcPartition::Boot2));
    assert_eq!(st.get_user_part(), PartitionKind::Emmc(EmmcPartition::User));
    assert_eq!(st.get_pl1_size(), 0x40000);
}

#[test]
fn ufs_info_record_layout() {
    let mut resp = vec![0u8; 32];
    resp[8..16].copy_from_slice(&0x400000u64.to_le_bytes());
    resp[16..24].copy_from_slice(&0x400000u64.to_le_bytes());
    resp[24..32].copy_from_slice(&0x2000000000u64.to_le_bytes());
    let s = UfsStorage::from_response(&resp).unwrap();
    assert_eq!(s.lu0_size, 0x400000);
    assert_eq!(s.lu2_size, 0x2000000000);
    let st = Storage::Ufs(s);
    assert_eq!(st.get_pl_part1(), PartitionKind::Ufs(UfsLu::Lu0));
    assert_eq!(st.get_user_part(), PartitionKind::Ufs(UfsLu::Lu2));
    assert!(UfsStorage::from_response(&resp[..31]).is_err());
}

#[test]
fn wire_codes() {
    assert_eq!(StorageType::Emmc.as_u32(), 1);
    assert_eq!(StorageType::Nand.as_u32(), 2);
    assert_eq!(StorageType::Ufs.as_u32(), 0x30);
    assert_eq!(PartitionKind::Emmc(EmmcPartition::User).as_u32(), 8);
    assert_eq!(PartitionKind::Emmc(EmmcPartition::Boot1).as_u32(), 1);
    assert_eq!(PartitionKind::Emmc(EmmcPartition::Rpmb).as_u32(), 3);
    assert_eq!(PartitionKind::Ufs(UfsLu::Lu2).as_u32(), 2);
}
