//! The stage-2 patcher: signatures, Thumb encodings, and the no-op rule.
use penumbra::dafile::DAEntryRegion;
use penumbra::patch::{boot_to_marker, encode_bl, encode_ldr, patch_boot_to, to_thumb_addr};

fn region(data: Vec<u8>, addr: u32) -> DAEntryRegion {
    let length = data.len() as u32;
    DAEntryRegion { data, offset: 0, length, addr, region_length: length, sig_len: 0 }
}

/// A stage-2 image carrying all four signature sites and a pointer slot
/// that references the unsupported-command handler.
fn patchable_da2(addr: u32) -> Vec<u8> {
    let mut data = vec![0u8; 0x400];
    // Command-registration site at 0x40.
    data[0x40..0x4A].copy_from_slice(&[0x08, 0xB5, 0x4F, 0xF4, 0x60, 0x20, 0x00, 0x21, 0x99, 0xF7]);
    // Register-read handler at 0x100.
    data[0x100..0x10A]
        .copy_from_slice(&[0x30, 0xB5, 0x00, 0x23, 0x85, 0xB0, 0x04, 0x46, 0x01, 0x93]);
    // Unsupported-command handler at 0x200.
    data[0x200..0x208].copy_from_slice(&[0x08, 0x4B, 0x13, 0xB5, 0x04, 0x46, 0x01, 0x93]);
    // Registrar at 0x300.
    data[0x300..0x308].copy_from_slice(&[0x38, 0xB5, 0x05, 0x46, 0x10, 0x20, 0x0C, 0x46]);
    // Pointer slot holding the unsupported handler's Thumb address, placed
    // within the short reach of the spliced PC-relative load.
    let unsupported_thumb = (addr + 0x200) | 1;
    data[0x60..0x64].copy_from_slice(&unsupported_thumb.to_le_bytes());
    data
}

#[test]
fn patch_skips_when_command_is_present() {
    let mut data = vec![0u8; 0x80];
    data[0x10..0x1C].copy_from_slice(b"cmd_boot_to\0");
    let before = data.clone();
    let mut da = region(data, 0x40000000);
    let payload = b"payload".to_vec();
    assert_eq!(patch_boot_to(&mut da, &payload), Ok(false));
    assert_eq!(da.data, before);
}

#[test]
fn patch_plants_payload_and_keeps_length() {
    let addr = 0x40000000u32;
    let data = patchable_da2(addr);
    let old_len = data.len();
    let mut da = region(data, addr);
    let mut payload = b"....cmd_boot_to\0....".to_vec();
    payload[0] = 0x7F;
    let r = patch_boot_to(&mut da, &payload);
    assert_eq!(r, Ok(true));
    assert_eq!(da.data.len(), old_len);
    // The command marker arrived with the payload.
    let marker = boot_to_marker();
    assert!(da.data.windows(marker.len()).any(|w| w == &marker[..]));
    // The payload sits over the register-read handler.
    assert_eq!(&da.data[0x100..0x100 + payload.len()], &payload[..]);
    // The pointer slot now carries the handler's Thumb address.
    let expected = ((addr + 0x100) | 1).to_le_bytes();
    assert_eq!(&da.data[0x60..0x64], &expected);
    // The registration splice begins with the opcode load.
    assert_eq!(&da.data[0x42..0x48], &[0x4F, 0xF4, 0x80, 0x30, 0x08, 0x30]);
    // And ends in the two wide no-ops.
    assert_eq!(&da.data[0x4E..0x56], &[0xAF, 0xF3, 0x00, 0x80, 0xAF, 0xF3, 0x00, 0x80]);
}

#[test]
fn patch_fails_without_signatures() {
    let mut da = region(vec![0u8; 0x200], 0x1000);
    assert!(patch_boot_to(&mut da, b"cmd_boot_to\0").is_err());
}

#[test]
fn thumb_addresses() {
    assert_eq!(to_thumb_addr(0x100, 0x40000000), Some(0x40000101));
    assert_eq!(to_thumb_addr(0x101, 0x40000000), Some(0x40000101));
    assert_eq!(to_thumb_addr(0x10, 0xFFFFFFFF), None);
}

#[test]
fn bl_encoding_concrete() {
    // A forward call of 0xFFC bytes: high halfword bare, low carrying the
    // halved offset.
    assert_eq!(encode_bl(0x1000, 0x2000), vec![0x00, 0xF0, 0xFE, 0xFF]);
    // Calling the next instruction: offset zero.
    assert_eq!(encode_bl(0x1000, 0x1004), vec![0x00, 0xF0, 0x00, 0xF8]);
}

#[test]
fn ldr_encoding_concrete() {
    // An instruction at file offset 8, loading the word at offset 0x10 of
    // a region at a 4-aligned address: pc base 0xC, displacement 4 bytes,
    // one word.
    let r = encode_ldr(1, 8, 0x10, 0x1000).unwrap();
    assert_eq!(r, vec![0x01, 0x49]);
    // A misaligned word is refused.
    assert!(encode_ldr(1, 8, 0x11, 0x1000).is_none());
    // A word behind the instruction is refused.
    assert!(encode_ldr(1, 0x100, 0x10, 0x1000).is_none());
}
