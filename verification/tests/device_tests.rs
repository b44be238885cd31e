//! The device façade over a scripted port.
use penumbra::device::{Device, DeviceBuilder};
use penumbra::port::{ConnectionType, ReplayPort};
use penumbra::storage::{EmmcPartition, Partition, PartitionKind};

fn init_transcript() -> Vec<u8> {
    let mut input = Vec::new();
    // SoC identifier: echo, length, blob, status.
    input.push(0xE7);
    input.extend_from_slice(&4u32.to_be_bytes());
    input.extend_from_slice(&[0xDE, 0xAD, 0xBE, 0xEF]);
    input.extend_from_slice(&[0x00, 0x00]);
    // Equipment identifier.
    input.push(0xE1);
    input.extend_from_slice(&4u32.to_be_bytes());
    input.extend_from_slice(&[0x01, 0x02, 0x03, 0x04]);
    input.extend_from_slice(&[0x00, 0x00]);
    // Hardware code 0x707, payload big-endian, status little-endian.
    input.extend_from_slice(&[0xFD, 0x07, 0x07, 0x00, 0x00]);
    // Target configuration 0x00000007.
    input.extend_from_slice(&[0xD8, 0x00, 0x00, 0x00, 0x07, 0x00, 0x00]);
    input
}

#[test]
fn builder_requires_a_port() {
    let builder: DeviceBuilder<ReplayPort> = DeviceBuilder::default();
    assert!(builder.build().is_err());
    let port = ReplayPort::new(Vec::new(), ConnectionType::Brom, 115200);
    let builder = DeviceBuilder::default().with_mtk_port(port);
    assert!(builder.build().is_ok());
}

#[test]
fn init_fills_the_device_record() {
    // An agent-stage port needs no handshake; the queries run directly.
    let port = ReplayPort::new(init_transcript(), ConnectionType::Da, 921600);
    let mut dev = DeviceBuilder::default().with_mtk_port(port).build().unwrap();
    dev.init().unwrap();
    assert!(dev.connected);
    assert_eq!(dev.dev_info.hw_code(), 0x707);
    assert_eq!(dev.dev_info.soc_id(), &vec![0xDE, 0xAD, 0xBE, 0xEF]);
    assert_eq!(dev.dev_info.meid(), &vec![0x01, 0x02, 0x03, 0x04]);
    assert_eq!(dev.dev_info.target_config(), 0x00000007);
    // All three security capabilities read as set.
    assert!(dev.dev_info.sbc_enabled());
    assert!(dev.dev_info.sla_enabled());
    assert!(dev.dev_info.daa_enabled());
}

#[test]
fn operations_demand_the_boot_dialog_first() {
    let port = ReplayPort::new(Vec::new(), ConnectionType::Da, 921600);
    let mut dev: Device<ReplayPort> =
        DeviceBuilder::default().with_mtk_port(port).build().unwrap();
    assert!(dev.enter_da_mode().is_err());
    assert!(dev.read_partition("boot").is_err());
    assert!(dev.write_partition("boot", &[1, 2, 3]).is_err());
    assert!(dev.read_offset(0, 4, PartitionKind::Emmc(EmmcPartition::User)).is_err());
    assert!(dev.download("boot", &[1]).is_err());
}

#[test]
fn partition_lookup_guards_writes() {
    let port = ReplayPort::new(init_transcript(), ConnectionType::Da, 921600);
    let mut dev = DeviceBuilder::default().with_mtk_port(port).build().unwrap();
    dev.init().unwrap();
    dev.dev_info.set_partitions(vec![Partition::new(
        b"lk".to_vec(),
        0x10,
        0x8000,
        PartitionKind::Emmc(EmmcPartition::User),
    )]);
    // An unknown partition is refused before anything goes on the wire.
    assert!(dev.read_partition("boot").is_err());
    // A file larger than the partition is refused.
    assert!(dev.write_partition("lk", &[0u8; 0x11]).is_err());
}

#[test]
fn unknown_hardware_code_fails_init() {
    // A container whose only entry serves another chip: entry selection
    // fails after the queries.
    let mut raw = vec![0u8; 0x400];
    raw[0..0x12].copy_from_slice(b"MTK_DOWNLOAD_AGENT");
    raw[0x68..0x6C].copy_from_slice(&1u32.to_le_bytes());
    let e = 0x6C;
    raw[e..e + 2].copy_from_slice(&0xDADAu16.to_le_bytes());
    raw[e + 2..e + 4].copy_from_slice(&0x9999u16.to_le_bytes());
    let port = ReplayPort::new(init_transcript(), ConnectionType::Da, 921600);
    let mut dev =
        DeviceBuilder::default().with_mtk_port(port).with_da_data(raw).build().unwrap();
    assert!(dev.init().is_err());
}

fn frame(payload: &[u8]) -> Vec<u8> {
    let mut out = vec![0xEF, 0xEE, 0xEE, 0xFE, 0x01, 0x00, 0x00, 0x00];
    out.extend_from_slice(&(payload.len() as u32).to_le_bytes());
    out.extend_from_slice(payload);
    out
}

fn status_ok_frame() -> Vec<u8> {
    frame(&[0x00, 0x00])
}

fn sync_frame() -> Vec<u8> {
    frame(&0x434E5953u32.to_le_bytes())
}

/// A single-entry container for the chip selected by hardware code 0x707:
/// the table maps it to 0x6768. Stage 1 loads at 0x201000, stage 2 at
/// 0x40000000.
fn da_container(da1: &[u8], da2: &[u8]) -> Vec<u8> {
    let esz = 0xDC;
    let table_end = 0x6C + esz;
    let mut raw = vec![0u8; 0x6C];
    raw[0..0x12].copy_from_slice(b"MTK_DOWNLOAD_AGENT");
    raw[0x68..0x6C].copy_from_slice(&1u32.to_le_bytes());
    let mut e = vec![0u8; esz];
    e[0..2].copy_from_slice(&0xDADAu16.to_le_bytes());
    e[2..4].copy_from_slice(&0x6768u16.to_le_bytes());
    e[4..6].copy_from_slice(&0xCA00u16.to_le_bytes());
    e[0x12..0x14].copy_from_slice(&3u16.to_le_bytes());
    let regions: [(&[u8], u32); 3] = [(&[0u8; 4], 0), (da1, 0x201000), (da2, 0x40000000)];
    let mut blob_off = table_end;
    let mut blobs = Vec::new();
    for (i, (data, addr)) in regions.iter().enumerate() {
        let rec = 0x14 + 20 * i;
        e[rec..rec + 4].copy_from_slice(&(blob_off as u32).to_le_bytes());
        e[rec + 4..rec + 8].copy_from_slice(&(data.len() as u32).to_le_bytes());
        e[rec + 8..rec + 12].copy_from_slice(&addr.to_le_bytes());
        blob_off += data.len();
        blobs.extend_from_slice(data);
    }
    raw.extend_from_slice(&e);
    raw.extend_from_slice(&blobs);
    while raw.len() < 0x148 {
        raw.push(0);
    }
    raw
}

fn gpt_with(names: &[&str]) -> Vec<u8> {
    let mut data = vec![0u8; 2 * 512 + 128 * names.len()];
    data[512..520].copy_from_slice(b"EFI PART");
    data[512 + 80..512 + 84].copy_from_slice(&(names.len() as u32).to_le_bytes());
    for (j, name) in names.iter().enumerate() {
        let base = 1024 + 128 * j;
        data[base] = 0xEE;
        let first = (0x400 + 0x100 * j) as u64;
        let last = first + 0xFF;
        data[base + 32..base + 40].copy_from_slice(&first.to_le_bytes());
        data[base + 40..base + 48].copy_from_slice(&last.to_le_bytes());
        for (i, c) in name.chars().enumerate() {
            let unit = (c as u16).to_le_bytes();
            data[base + 56 + 2 * i..base + 58 + 2 * i].copy_from_slice(&unit);
        }
    }
    data
}

#[test]
fn enter_da_mode_lists_partitions() {
    let da1 = vec![0xA5u8; 32];
    let da2 = vec![0x5Au8; 64];
    let gpt = gpt_with(&["boot", "system"]);
    let mut input = init_transcript();
    // Stage-1 upload.
    input.push(0xD7);
    input.extend_from_slice(&0x00201000u32.to_be_bytes());
    input.extend_from_slice(&32u32.to_be_bytes());
    input.extend_from_slice(&0u32.to_be_bytes());
    input.extend_from_slice(&[0x00, 0x00, 0x12, 0x34, 0x00, 0x00]);
    input.push(0xD5);
    input.extend_from_slice(&0x00201000u32.to_le_bytes());
    input.extend_from_slice(&[0x00, 0x00]);
    input.push(0xC0);
    input.extend_from_slice(&status_ok_frame());
    input.extend_from_slice(&status_ok_frame());
    input.extend_from_slice(&sync_frame());
    // Packet-length negotiation, stage-2 boot, renegotiation.
    let mut plen = 0x2000u32.to_le_bytes().to_vec();
    plen.extend_from_slice(&0x2000u32.to_le_bytes());
    input.extend_from_slice(&status_ok_frame());
    input.extend_from_slice(&status_ok_frame());
    input.extend_from_slice(&frame(&plen));
    input.extend_from_slice(&status_ok_frame());
    input.extend_from_slice(&status_ok_frame());
    input.extend_from_slice(&status_ok_frame());
    input.extend_from_slice(&sync_frame());
    input.extend_from_slice(&status_ok_frame());
    input.extend_from_slice(&status_ok_frame());
    input.extend_from_slice(&frame(&plen));
    input.extend_from_slice(&status_ok_frame());
    // Storage probes: a live eMMC record, then an all-zero UFS record.
    let mut emmc = vec![0u8; 68];
    emmc[4..12].copy_from_slice(&0x40000u64.to_le_bytes());
    emmc[12..20].copy_from_slice(&0x40000u64.to_le_bytes());
    emmc[60..68].copy_from_slice(&0x100000u64.to_le_bytes());
    input.extend_from_slice(&status_ok_frame());
    input.extend_from_slice(&status_ok_frame());
    input.extend_from_slice(&frame(&emmc));
    input.extend_from_slice(&status_ok_frame());
    input.extend_from_slice(&status_ok_frame());
    input.extend_from_slice(&status_ok_frame());
    input.extend_from_slice(&status_ok_frame());
    input.extend_from_slice(&frame(&vec![0u8; 32]));
    input.extend_from_slice(&status_ok_frame());
    input.extend_from_slice(&status_ok_frame());
    // The partition table read back by name.
    input.extend_from_slice(&status_ok_frame());
    input.extend_from_slice(&status_ok_frame());
    input.extend_from_slice(&frame(&(gpt.len() as u64).to_le_bytes()));
    input.extend_from_slice(&status_ok_frame());
    input.extend_from_slice(&frame(&gpt));
    input.extend_from_slice(&status_ok_frame());
    let port = ReplayPort::new(input, ConnectionType::Da, 921600);
    let mut dev = DeviceBuilder::default()
        .with_mtk_port(port)
        .with_da_data(da_container(&da1, &da2))
        .build()
        .unwrap();
    dev.init().unwrap();
    dev.enter_da_mode().unwrap();
    let names: Vec<Vec<u8>> =
        dev.dev_info.partitions().iter().map(|p| p.name.clone()).collect();
    assert!(names.contains(&b"preloader".to_vec()));
    assert!(names.contains(&b"preloader_backup".to_vec()));
    assert!(names.contains(&b"boot".to_vec()));
    assert!(names.contains(&b"system".to_vec()));
    assert_eq!(dev.dev_info.partitions()[0].size, 0x40000);
}
