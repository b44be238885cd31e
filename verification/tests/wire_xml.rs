//! The XML dialect over a scripted port: command documents, lifetime
//! markers, and the download sub-protocol with its announced packet size.
use penumbra::connection::Connection;
use penumbra::dafile::{DA, DAEntryRegion, DAType};
use penumbra::devinfo::DeviceInfo;
use penumbra::port::{ConnectionType, ReplayPort};
use penumbra::xml::cmds::{
    BootTo, FileSystemOp, ReadFlash, SetRuntimeParameter, WritePartition, XmlCmdLifetime,
    XmlCommand,
};
use penumbra::xml::Xml;

fn frame(payload: &[u8]) -> Vec<u8> {
    let mut out = vec![0xEF, 0xEE, 0xEE, 0xFE, 0x01, 0x00, 0x00, 0x00];
    out.extend_from_slice(&(payload.len() as u32).to_le_bytes());
    out.extend_from_slice(payload);
    out
}

fn ok_frame() -> Vec<u8> {
    frame(b"OK\0")
}

fn start_frame() -> Vec<u8> {
    frame(b"<command>CMD:START</command>\0")
}

fn end_frame() -> Vec<u8> {
    frame(b"<command>CMD:END</command>\0")
}

fn region(data: Vec<u8>, addr: u32) -> DAEntryRegion {
    let length = data.len() as u32;
    DAEntryRegion { data, offset: 0, length, addr, region_length: length, sig_len: 0 }
}

fn xml_over(input: Vec<u8>) -> Xml<ReplayPort> {
    let port = ReplayPort::new(input, ConnectionType::Preloader, 921600);
    let da = DA {
        da_type: DAType::V6,
        regions: vec![region(vec![0; 4], 0), region(vec![1; 16], 0x201000), region(
            vec![2; 32],
            0x40000000,
        )],
        magic: 0xDADA,
        hw_code: 0x989,
        hw_sub_code: 0xCA00,
    };
    Xml::new(Connection::new(port), da, DeviceInfo::new())
}

fn contains(haystack: &[u8], needle: &[u8]) -> bool {
    haystack.windows(needle.len()).any(|w| w == needle)
}

#[test]
fn command_documents_take_the_documented_shape() {
    let cmd = WritePartition { partition: String::from("logo") };
    let doc = cmd.to_xml();
    let expected = b"<?xml version=\"1.0\" encoding=\"utf-8\"?><da><version>1.0</version>\
<command>CMD:WRITE-PARTITION</command><arg><partition>logo</partition>\
<source_file>logo.bin</source_file></arg></da>\0";
    assert_eq!(doc, expected.to_vec());
}

#[test]
fn boot_to_document_renders_addresses() {
    let cmd = BootTo { at_addr: 0x40000000, jmp_addr: 0x40000000, host_offset: 0, length: 0x20 };
    let doc = cmd.to_xml();
    assert!(contains(&doc, b"<command>CMD:BOOT-TO</command>"));
    assert!(contains(&doc, b"<at_address>0x40000000</at_address>"));
    assert!(contains(&doc, b"<jmp_address>0x40000000</jmp_address>"));
    assert!(contains(&doc, b"<source_file>MEM://0x0:0x20</source_file>"));
    assert_eq!(*doc.last().unwrap(), 0);
}

#[test]
fn runtime_parameter_document_has_two_sections() {
    let cmd = SetRuntimeParameter {
        checksum_level: String::from("NONE"),
        battery_exist: String::from("AUTO-DETECT"),
        da_log_level: String::from("INFO"),
        log_channel: String::from("UART"),
        system_os: String::from("LINUX"),
        init_dram: String::from("YES"),
    };
    let doc = cmd.to_xml();
    assert!(contains(&doc, b"<version>1.1</version>"));
    assert!(contains(&doc, b"<command>CMD:SET-RUNTIME-PARAMETER</command>"));
    assert!(contains(&doc, b"<arg><checksum_level>NONE</checksum_level>"));
    assert!(contains(&doc, b"<adv><initialize_dram>YES</initialize_dram></adv>"));
}

#[test]
fn read_flash_document_renders_range() {
    let cmd = ReadFlash {
        partition: String::from("EMMC-USER"),
        length: 0x200,
        offset: 0x4000,
    };
    let doc = cmd.to_xml();
    assert!(contains(&doc, b"<command>CMD:READ-FLASH</command>"));
    assert!(contains(&doc, b"<length>0x200</length>"));
    assert!(contains(&doc, b"<offset>0x4000</offset>"));
}

#[test]
fn download_streams_in_announced_packets() {
    // Flashing 40 bytes with an announced packet length of 16: the host
    // issues the download sub-protocol and sends three chunks.
    let data: Vec<u8> = (1..=40u8).collect();
    let dl_doc = b"<?xml version=\"1.0\" encoding=\"utf-8\"?><da><version>1.0</version>\
<command>CMD:DOWNLOAD-FILE</command><arg><checksum>NONE</checksum>\
<info>logo.bin</info><packet_length>0x10</packet_length></arg></da>\0";
    let mut input = Vec::new();
    input.extend_from_slice(&start_frame());  // the command opens
    input.extend_from_slice(&ok_frame());  // document accepted
    input.extend_from_slice(&frame(dl_doc));  // device requests the file
    input.extend_from_slice(&ok_frame());  // size accepted
    for _ in 0..3 {
        input.extend_from_slice(&ok_frame());  // chunk slot granted
        input.extend_from_slice(&ok_frame());  // chunk accepted
    }
    input.extend_from_slice(&end_frame());  // the command closes
    let mut x = xml_over(input);
    x.download("logo", &data).unwrap();
    let written = x.conn.port.written().clone();
    // The write command went out as its document.
    let cmd = WritePartition { partition: String::from("logo") };
    assert!(contains(&written, &frame(&cmd.to_xml())));
    // The size was announced in hexadecimal.
    assert!(contains(&written, &frame(b"OK@0x28\0")));
    // The data travelled in chunks of the announced packet length.
    assert!(contains(&written, &frame(&data[0..16])));
    assert!(contains(&written, &frame(&data[16..32])));
    assert!(contains(&written, &frame(&data[32..40])));
    // Each chunk was announced with a zero status.
    assert!(contains(&written, &frame(b"OK@0x0\0")));
    // The closing marker was acknowledged last.
    assert!(written.ends_with(&ok_frame()));
}

#[test]
fn upload_collects_device_chunks() {
    let content: Vec<u8> = (0..40u8).collect();
    let up_doc = b"<?xml version=\"1.0\" encoding=\"utf-8\"?><da><version>1.0</version>\
<command>CMD:UPLOAD-FILE</command><arg><packet_length>0x10</packet_length></arg></da>\0";
    let mut input = Vec::new();
    input.extend_from_slice(&start_frame());
    input.extend_from_slice(&ok_frame());
    input.extend_from_slice(&frame(up_doc));
    input.extend_from_slice(&frame(b"OK@0x28\0"));  // the total size
    for chunk in content.chunks(16) {
        input.extend_from_slice(&ok_frame());
        input.extend_from_slice(&frame(chunk));
    }
    input.extend_from_slice(&end_frame());
    let mut x = xml_over(input);
    assert_eq!(x.upload("boot").unwrap(), content);
}

#[test]
fn unsupported_command_consumes_the_closing_marker() {
    let mut input = Vec::new();
    input.extend_from_slice(&start_frame());
    input.extend_from_slice(&frame(b"ERR!UNSUPPORTED\0"));
    input.extend_from_slice(&end_frame());
    let mut x = xml_over(input);
    let cmd = WritePartition { partition: String::from("logo") };
    assert_eq!(x.send_cmd(&cmd).unwrap(), false);
}

#[test]
fn acks_and_markers() {
    // A malformed acknowledgment is rejected.
    let mut x = xml_over(frame(b"NO\0"));
    assert!(x.read_ack().is_err());
    // A zero-valued acknowledgment passes.
    let mut x = xml_over(frame(b"OK@0x0\0"));
    assert!(x.read_ack().is_ok());
    // A quiet device is taken as already past the marker.
    let mut x = xml_over(Vec::new());
    assert!(x.lifetime_ack(XmlCmdLifetime::CmdStart).is_ok());
    assert_eq!(x.conn.port.written(), &frame(b"OK\0"));
}

#[test]
fn reboot_names_its_action() {
    let mut input = Vec::new();
    input.extend_from_slice(&start_frame());
    input.extend_from_slice(&ok_frame());
    input.extend_from_slice(&end_frame());
    let mut x = xml_over(input);
    x.reboot("IMMEDIATE").unwrap();
    assert!(contains(
        x.conn.port.written(),
        b"<command>CMD:REBOOT</command><arg><action>IMMEDIATE</action></arg>",
    ));
}

#[test]
fn erase_partition_names_the_partition() {
    let mut input = Vec::new();
    input.extend_from_slice(&start_frame());
    input.extend_from_slice(&ok_frame());
    input.extend_from_slice(&end_frame());
    let mut x = xml_over(input);
    x.erase_partition("cache").unwrap();
    assert!(contains(
        x.conn.port.written(),
        b"<command>CMD:ERASE-PARTITION</command><arg><partition>cache</partition></arg>",
    ));
}

#[test]
fn file_system_operations_answer_canned() {
    assert_eq!(FileSystemOp::MkDir.default(), b"MKDIR\0".to_vec());
    assert_eq!(FileSystemOp::Exists.default(), b"NOT-EXISTS\0".to_vec());
    assert_eq!(FileSystemOp::Remove.default(), b"REMOVE\0".to_vec());
    assert_eq!(FileSystemOp::RemoveAll.default(), b"REMOVE-ALL\0".to_vec());
    assert_eq!(FileSystemOp::FileSize(0x1A2B).default(), b"1A2B".to_vec());
}
