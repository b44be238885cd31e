//! The XFlash dialect over a scripted port: agent bring-up, framed reads
//! and the zero-padded checksummed write stream.
use penumbra::connection::Connection;
use penumbra::dafile::{DA, DAEntryRegion, DAType};
use penumbra::devinfo::DeviceInfo;
use penumbra::port::{ConnectionType, ReplayPort};
use penumbra::storage::{EmmcPartition, EmmcStorage, PartitionKind, Storage};
use penumbra::xflash::flash::checksum16;
use penumbra::xflash::XFlash;

fn frame(payload: &[u8]) -> Vec<u8> {
    let mut out = vec![0xEF, 0xEE, 0xEE, 0xFE, 0x01, 0x00, 0x00, 0x00];
    out.extend_from_slice(&(payload.len() as u32).to_le_bytes());
    out.extend_from_slice(payload);
    out
}

fn status_ok_frame() -> Vec<u8> {
    frame(&[0x00, 0x00])
}

fn sync_frame() -> Vec<u8> {
    frame(&0x434E5953u32.to_le_bytes())
}

fn region(data: Vec<u8>, addr: u32) -> DAEntryRegion {
    let length = data.len() as u32;
    DAEntryRegion { data, offset: 0, length, addr, region_length: length, sig_len: 0 }
}

fn test_da(da1: Vec<u8>, da2: Vec<u8>) -> DA {
    DA {
        da_type: DAType::V5,
        regions: vec![region(vec![0; 4], 0), region(da1, 0x201000), region(da2, 0x40000000)],
        magic: 0xDADA,
        hw_code: 0x6768,
        hw_sub_code: 0xCA00,
    }
}

fn xflash_over(input: Vec<u8>) -> XFlash<ReplayPort> {
    let port = ReplayPort::new(input, ConnectionType::Preloader, 921600);
    XFlash::new(
        Connection::new(port),
        test_da(vec![0xA5; 32], vec![0x5A; 64]),
        DeviceInfo::new(),
    )
}

fn contains(haystack: &[u8], needle: &[u8]) -> bool {
    haystack.windows(needle.len()).any(|w| w == needle)
}

#[test]
fn upload_da_full_exchange() {
    let da1_len = 32u32;
    let mut input = Vec::new();
    // Stage-1 upload over the preloader: echoes, statuses, checksum.
    input.push(0xD7);
    input.extend_from_slice(&0x00201000u32.to_be_bytes());
    input.extend_from_slice(&da1_len.to_be_bytes());
    input.extend_from_slice(&0u32.to_be_bytes());
    input.extend_from_slice(&[0x00, 0x00]);
    input.extend_from_slice(&[0x12, 0x34]);
    input.extend_from_slice(&[0x00, 0x00]);
    // The jump.
    input.push(0xD5);
    input.extend_from_slice(&0x00201000u32.to_le_bytes());
    input.extend_from_slice(&[0x00, 0x00]);
    // The agent greets with the sync byte.
    input.push(0xC0);
    // Environment and hardware-init statuses, then the sync signal.
    input.extend_from_slice(&status_ok_frame());
    input.extend_from_slice(&status_ok_frame());
    input.extend_from_slice(&sync_frame());
    // First packet-length negotiation.
    input.extend_from_slice(&status_ok_frame());
    input.extend_from_slice(&status_ok_frame());
    let mut plen = 0x2000u32.to_le_bytes().to_vec();
    plen.extend_from_slice(&0x2000u32.to_le_bytes());
    input.extend_from_slice(&frame(&plen));
    input.extend_from_slice(&status_ok_frame());
    // Stage-2 boot: command status, transfer status, sync.
    input.extend_from_slice(&status_ok_frame());
    input.extend_from_slice(&status_ok_frame());
    input.extend_from_slice(&sync_frame());
    // Second negotiation at agent speed.
    input.extend_from_slice(&status_ok_frame());
    input.extend_from_slice(&status_ok_frame());
    input.extend_from_slice(&frame(&plen));
    input.extend_from_slice(&status_ok_frame());
    let mut x = xflash_over(input);
    assert_eq!(x.upload_da().unwrap(), true);
    assert_eq!(x.write_packet_length, Some(0x2000));
    assert_eq!(x.read_packet_length, Some(0x2000));
    let written = x.conn.port.written().clone();
    // Stage 1 went out through the preloader commands.
    assert_eq!(written[0], 0xD7);
    assert!(contains(&written, &[0xA5; 32]));
    // Stage 2 went out as a frame of its own.
    assert!(contains(&written, &frame(&[0x5A; 64])));
    // The boot command named the stage-2 load address and length.
    let mut boot_param = (0x40000000u64).to_le_bytes().to_vec();
    boot_param.extend_from_slice(&64u64.to_le_bytes());
    assert!(contains(&written, &frame(&boot_param)));
}

#[test]
fn read_flash_returns_the_device_frames() {
    // Reading the first 0x200 bytes of the user area.
    let fixture: Vec<u8> = (0..0x200).map(|i| (i % 251) as u8).collect();
    let mut input = Vec::new();
    input.extend_from_slice(&status_ok_frame());  // read command
    input.extend_from_slice(&status_ok_frame());  // parameter
    input.extend_from_slice(&frame(&fixture));  // one data frame
    input.extend_from_slice(&status_ok_frame());  // acknowledgment
    let mut x = xflash_over(input);
    x.dev_info.set_storage(Storage::Emmc(EmmcStorage {
        boot1_size: 0x40000,
        boot2_size: 0x40000,
        rpmb_size: 0,
        ua_size: 0x100000,
    }));
    let out = x.read_flash(0x0, 0x200, PartitionKind::Emmc(EmmcPartition::User)).unwrap();
    assert_eq!(out, fixture);
    // The 44-byte parameter named eMMC, the user section, offset and size.
    let mut param = Vec::new();
    param.extend_from_slice(&1u32.to_le_bytes());
    param.extend_from_slice(&8u32.to_le_bytes());
    param.extend_from_slice(&0u64.to_le_bytes());
    param.extend_from_slice(&0x200u64.to_le_bytes());
    param.extend_from_slice(&[0u8; 32]);
    assert!(contains(x.conn.port.written(), &frame(&param)));
}

#[test]
fn write_then_readback_pads_with_zeros() {
    // A 40-byte file into a 48-byte region, chunked by 16: the stream
    // carries the file and then zeros, so reading the region back gives
    // the file followed by zeros.
    let data: Vec<u8> = (1..=40u8).collect();
    let mut padded = data.clone();
    padded.resize(48, 0);
    let mut input = Vec::new();
    input.extend_from_slice(&status_ok_frame());  // write command
    input.extend_from_slice(&status_ok_frame());  // parameter
    input.extend_from_slice(&status_ok_frame());  // chunk 1
    input.extend_from_slice(&status_ok_frame());  // chunk 2
    input.extend_from_slice(&status_ok_frame());  // chunk 3
    let mut x = xflash_over(input);
    x.dev_info.set_storage(Storage::Emmc(EmmcStorage {
        boot1_size: 0,
        boot2_size: 0,
        rpmb_size: 0,
        ua_size: 0x100000,
    }));
    x.write_packet_length = Some(16);
    x.write_flash(0x8000, 48, &data, PartitionKind::Emmc(EmmcPartition::User)).unwrap();
    let written = x.conn.port.written().clone();
    // Each chunk travels as a zero word, its checksum, and the bytes.
    for (i, chunk) in padded.chunks(16).enumerate() {
        assert!(contains(&written, &frame(chunk)), "chunk {} missing", i);
        assert!(contains(&written, &frame(&checksum16(chunk).to_le_bytes())));
    }
    // The final chunk ends in the zero padding, byte for byte.
    assert_eq!(&padded[32..], &[33, 34, 35, 36, 37, 38, 39, 40, 0, 0, 0, 0, 0, 0, 0, 0]);
    // Reading the region back yields the padded file.
    let mut input = Vec::new();
    input.extend_from_slice(&status_ok_frame());
    input.extend_from_slice(&status_ok_frame());
    input.extend_from_slice(&frame(&padded));
    input.extend_from_slice(&status_ok_frame());
    let mut x2 = xflash_over(input);
    x2.dev_info.set_storage(Storage::Emmc(EmmcStorage {
        boot1_size: 0,
        boot2_size: 0,
        rpmb_size: 0,
        ua_size: 0x100000,
    }));
    let back = x2.read_flash(0x8000, 48, PartitionKind::Emmc(EmmcPartition::User)).unwrap();
    assert_eq!(&back[..data.len()], &data[..]);
    assert!(back[data.len()..].iter().all(|&b| b == 0));
}

#[test]
fn download_streams_name_size_then_chunks() {
    let data: Vec<u8> = (0..32u8).collect();
    let mut input = Vec::new();
    input.extend_from_slice(&status_ok_frame());  // download command
    input.extend_from_slice(&status_ok_frame());  // name and size
    input.extend_from_slice(&status_ok_frame());  // chunk 1
    input.extend_from_slice(&status_ok_frame());  // chunk 2
    let mut x = xflash_over(input);
    x.write_packet_length = Some(16);
    x.download("logo", &data).unwrap();
    let written = x.conn.port.written().clone();
    assert!(contains(&written, &frame(b"logo")));
    assert!(contains(&written, &frame(&32u64.to_le_bytes())));
    assert!(contains(&written, &frame(&data[0..16])));
    assert!(contains(&written, &frame(&data[16..32])));
}

#[test]
fn upload_reads_size_then_chunks() {
    let content: Vec<u8> = (0..48u8).collect();
    let mut input = Vec::new();
    input.extend_from_slice(&status_ok_frame());  // upload command
    input.extend_from_slice(&status_ok_frame());  // name
    input.extend_from_slice(&frame(&48u64.to_le_bytes()));  // total size
    input.extend_from_slice(&status_ok_frame());
    input.extend_from_slice(&frame(&content[0..32]));
    input.extend_from_slice(&status_ok_frame());  // acknowledgment
    input.extend_from_slice(&frame(&content[32..48]));
    input.extend_from_slice(&status_ok_frame());  // acknowledgment
    let mut x = xflash_over(input);
    assert_eq!(x.upload("boot").unwrap(), content);
}

#[test]
fn register_access_over_device_control() {
    // Reading a register: three statuses for the control exchange, the
    // value frame, a closing status.
    let mut input = Vec::new();
    input.extend_from_slice(&status_ok_frame());
    input.extend_from_slice(&status_ok_frame());
    input.extend_from_slice(&status_ok_frame());
    input.extend_from_slice(&frame(&0xCAFEF00Du32.to_le_bytes()));
    input.extend_from_slice(&status_ok_frame());
    let mut x = xflash_over(input);
    assert_eq!(x.read32(0x1000A000).unwrap(), 0xCAFEF00D);
    // A short value frame is a transport failure.
    let mut input = Vec::new();
    input.extend_from_slice(&status_ok_frame());
    input.extend_from_slice(&status_ok_frame());
    input.extend_from_slice(&status_ok_frame());
    input.extend_from_slice(&frame(&[0x01, 0x02]));
    input.extend_from_slice(&status_ok_frame());
    let mut x = xflash_over(input);
    assert_eq!(x.read32(0x1000A000), Err(penumbra::error::Error::Io));
    // Writing a register: the parameter carries address then value.
    let mut input = Vec::new();
    input.extend_from_slice(&status_ok_frame());
    input.extend_from_slice(&status_ok_frame());
    input.extend_from_slice(&status_ok_frame());
    let mut x = xflash_over(input);
    x.write32(0x1000A000, 0x12345678).unwrap();
    let mut param = 0x1000A000u32.to_le_bytes().to_vec();
    param.extend_from_slice(&0x12345678u32.to_le_bytes());
    assert!(contains(x.conn.port.written(), &frame(&param)));
}

#[test]
fn stage_one_rejects_a_wrong_greeting() {
    let da1_len = 32u32;
    let mut input = Vec::new();
    input.push(0xD7);
    input.extend_from_slice(&0x00201000u32.to_be_bytes());
    input.extend_from_slice(&da1_len.to_be_bytes());
    input.extend_from_slice(&0u32.to_be_bytes());
    input.extend_from_slice(&[0x00, 0x00, 0x12, 0x34, 0x00, 0x00]);
    input.push(0xD5);
    input.extend_from_slice(&0x00201000u32.to_le_bytes());
    input.extend_from_slice(&[0x00, 0x00]);
    input.push(0x55);  // not the expected greeting byte
    let mut x = xflash_over(input);
    assert_eq!(
        x.upload_stage1(0x201000, 32, &[0xA5; 32], 0),
        Err(penumbra::error::Error::Proto)
    );
}

#[test]
fn shutdown_sends_one_command_word() {
    let mut x = xflash_over(status_ok_frame());
    x.shutdown().unwrap();
    assert_eq!(x.conn.port.written(), &frame(&0x010007u32.to_le_bytes()));
}

#[test]
fn status_interpretation() {
    // A bare magic word as a four-byte status reads as success.
    let mut x = xflash_over(frame(&0xFEEEEEEFu32.to_le_bytes()));
    assert_eq!(x.get_status().unwrap(), 0);
    // A non-zero status surfaces as the device's code.
    let mut x = xflash_over(frame(&0xC0010004u32.to_le_bytes()));
    assert!(x.get_status().is_err());
    // A two-byte zero status reads as success.
    let mut x = xflash_over(frame(&[0x00, 0x00]));
    assert_eq!(x.get_status().unwrap(), 0);
}
