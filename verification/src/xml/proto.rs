//! The XML protocol driver: NUL-terminated documents over the shared
//! framing, `OK` acknowledgments, lifetime markers, and the device-driven
//! file-transfer sub-commands.
use vstd::prelude::*;

use crate::ascii::ascii_of;
use crate::connection::Connection;
use crate::dafile::DA;
use crate::devinfo::DeviceInfo;
use crate::error::{Error, XmlErrorKind};
use crate::framing::{spec_frame, DT_PROTOCOL_FLOW};
use crate::port::MtkPort;
use crate::scan::{find_bytes, match_at};
use crate::xml::cmds::{hex_lower, FileSystemOp, XmlCmdLifetime, XmlCommand};

verus! {

broadcast use crate::bytes::lemma_prefix_reflexive, crate::bytes::lemma_prefix_chain;

/// The plain acknowledgment, NUL-terminated.
pub open spec fn spec_ok_bytes() -> Seq<u8> {
    ascii_of("OK"@).push(0)
}

/// A valued acknowledgment: `OK@0x`, the value, NUL.
pub open spec fn spec_ok_value_bytes(v: Seq<u8>) -> Seq<u8> {
    ascii_of("OK@0x"@) + v + seq![0u8]
}

/// The chunk stream of a host-to-device file transfer: each chunk is
/// announced with a zero-status acknowledgment and sent in its own frame.
pub open spec fn spec_xml_dl_chunks(data: Seq<u8>, packet: int) -> Seq<u8>
    decreases data.len(),
{
    if packet <= 0 || data.len() == 0 {
        Seq::empty()
    } else {
        let c = if data.len() <= packet {
            data
        } else {
            data.take(packet)
        };
        let rest = if data.len() <= packet {
            Seq::<u8>::empty()
        } else {
            data.skip(packet)
        };
        spec_frame(DT_PROTOCOL_FLOW, spec_ok_value_bytes(ascii_of("0"@))) + spec_frame(
            DT_PROTOCOL_FLOW,
            c,
        ) + spec_xml_dl_chunks(rest, packet)
    }
}

/// What the upload sub-protocol collects, as a function of the byte
/// stream the device delivers: an acknowledgment frame, then a data frame,
/// repeated until the announced size is reached. The value on a
/// successful run; the malformed branches never complete successfully.
pub open spec fn spec_xml_ul_chunks(av: Seq<u8>, size: int) -> Seq<u8>
    decreases av.len(),
{
    if size <= 0 || !crate::xflash::proto::spec_frame_shape(av) {
        Seq::empty()
    } else {
        let a1 = av.skip(crate::xflash::proto::spec_frame_len(av));
        if !crate::xflash::proto::spec_frame_shape(a1) {
            Seq::empty()
        } else {
            let c = crate::xflash::proto::spec_frame_payload(a1);
            let rest = a1.skip(crate::xflash::proto::spec_frame_len(a1));
            if c.len() == 0 {
                Seq::empty()
            } else if c.len() >= size {
                c
            } else {
                c + spec_xml_ul_chunks(rest, size - c.len())
            }
        }
    }
}

/// The runtime-parameter document stage 1 sends.
pub open spec fn spec_runtime_doc() -> Seq<u8> {
    crate::xml::cmds::spec_xml_doc(
        "1.1"@,
        "SET-RUNTIME-PARAMETER"@,
        seq![
            (
                "arg"@,
                seq![
                    ("checksum_level"@, ascii_of("NONE"@)),
                    ("battery_exist"@, ascii_of("AUTO-DETECT"@)),
                    ("da_log_level"@, ascii_of("INFO"@)),
                    ("log_channel"@, ascii_of("UART"@)),
                    ("system_os"@, ascii_of("LINUX"@)),
                ],
            ),
            ("adv"@, seq![("initialize_dram"@, ascii_of("YES"@))]),
        ],
    )
}

/// The capability announcement document.
pub open spec fn spec_caps_doc() -> Seq<u8> {
    crate::xml::cmds::spec_xml_doc(
        "1.0"@,
        "HOST-SUPPORTED-COMMANDS"@,
        seq![
            (
                "arg"@,
                seq![
                    (
                        "host_capability"@,
                        ascii_of(
                            "CMD:DOWNLOAD-FILE^1@CMD:FILE-SYS-OPERATION^1@CMD:PROGRESS-REPORT^1@CMD:UPLOAD-FILE^1@"@,
                        ),
                    ),
                ],
            ),
        ],
    )
}

/// The hardware-init request document.
pub open spec fn spec_notify_doc() -> Seq<u8> {
    crate::xml::cmds::spec_xml_doc(
        "1.0"@,
        "NOTIFY-INIT-HW"@,
        Seq::<(Seq<char>, Seq<(Seq<char>, Seq<u8>)>)>::empty(),
    )
}

/// The hardware-record query document.
pub open spec fn spec_hw_info_doc() -> Seq<u8> {
    crate::xml::cmds::spec_xml_doc(
        "1.0"@,
        "GET-HW-INFO"@,
        seq![("arg"@, seq![("target_file"@, ascii_of("MEM://0x0:0x200000"@))])],
    )
}

/// The preloader-level bytes stage 1 begins with: the upload of the stage
/// and the jump into it.
pub open spec fn spec_stage1_lead(addr: u32, length: u32, sig_len: u32, data: Seq<u8>) -> Seq<u8> {
    seq![crate::connection::CMD_SEND_DA] + crate::bytes::be32_bytes(addr)
        + crate::bytes::be32_bytes(length) + crate::bytes::be32_bytes(sig_len) + data + seq![
        crate::connection::CMD_JUMP_DA,
    ] + crate::bytes::le32_bytes(addr)
}

/// The write-partition document for a given name.
pub open spec fn spec_write_partition_doc(name: Seq<char>) -> Seq<u8> {
    crate::xml::cmds::spec_xml_doc(
        "1.0"@,
        "WRITE-PARTITION"@,
        seq![
            (
                "arg"@,
                seq![
                    ("partition"@, ascii_of(name)),
                    ("source_file"@, ascii_of(name) + ascii_of(".bin"@)),
                ],
            ),
        ],
    )
}

/// The read-partition document for a given name.
pub open spec fn spec_read_partition_doc(name: Seq<char>) -> Seq<u8> {
    crate::xml::cmds::spec_xml_doc(
        "1.0"@,
        "READ-PARTITION"@,
        seq![
            (
                "arg"@,
                seq![
                    ("partition"@, ascii_of(name)),
                    ("target_file"@, ascii_of(name) + ascii_of(".bin"@)),
                ],
            ),
        ],
    )
}

/// The reboot document for a given action.
pub open spec fn spec_reboot_doc(action: Seq<char>) -> Seq<u8> {
    crate::xml::cmds::spec_xml_doc(
        "1.0"@,
        "REBOOT"@,
        seq![("arg"@, seq![("action"@, ascii_of(action))])],
    )
}

/// The request document that erases a whole partition by name.
pub open spec fn spec_erase_doc(partition: Seq<char>) -> Seq<u8> {
    crate::xml::cmds::spec_xml_doc(
        "1.0"@,
        "ERASE-PARTITION"@,
        seq![("arg"@, seq![("partition"@, ascii_of(partition))])],
    )
}

/// The end-of-transmission payload of a progress report.
pub open spec fn spec_eot_bytes() -> Seq<u8> {
    ascii_of("OK!EOT"@).push(0)
}

/// Whether a progress run over `av` reaches the end marker.
pub open spec fn spec_eot_found(av: Seq<u8>) -> bool
    decreases av.len(),
{
    if !crate::xflash::proto::spec_frame_shape(av) {
        false
    } else if crate::xflash::proto::spec_frame_payload(av) == spec_eot_bytes() {
        true
    } else {
        spec_eot_found(av.skip(crate::xflash::proto::spec_frame_len(av)))
    }
}

/// How many frames the run acknowledges, the end marker included.
pub open spec fn spec_eot_frames(av: Seq<u8>) -> int
    decreases av.len(),
{
    if !crate::xflash::proto::spec_frame_shape(av) {
        0
    } else if crate::xflash::proto::spec_frame_payload(av) == spec_eot_bytes() {
        1
    } else {
        1 + spec_eot_frames(av.skip(crate::xflash::proto::spec_frame_len(av)))
    }
}

/// How many bytes of `av` the run consumes, the end marker included.
pub open spec fn spec_eot_consumed(av: Seq<u8>) -> int
    decreases av.len(),
{
    if !crate::xflash::proto::spec_frame_shape(av) {
        0
    } else if crate::xflash::proto::spec_frame_payload(av) == spec_eot_bytes() {
        crate::xflash::proto::spec_frame_len(av)
    } else {
        crate::xflash::proto::spec_frame_len(av) + spec_eot_consumed(
            av.skip(crate::xflash::proto::spec_frame_len(av)),
        )
    }
}

/// The marker bytes of a lifetime boundary.
pub open spec fn spec_lifetime_marker(l: XmlCmdLifetime) -> Seq<u8> {
    if l is CmdStart {
        ascii_of("<command>CMD:START</command>"@)
    } else {
        ascii_of("<command>CMD:END</command>"@)
    }
}

/// The canned answer of a pseudo-filesystem operation.
pub open spec fn spec_fs_answer(op: FileSystemOp) -> Seq<u8> {
    match op {
        FileSystemOp::MkDir => ascii_of("MKDIR"@).push(0),
        FileSystemOp::Exists => ascii_of("NOT-EXISTS"@).push(0),
        FileSystemOp::FileSize(n) => crate::xml::cmds::spec_hex_upper(n as nat),
        FileSystemOp::RemoveAll => ascii_of("REMOVE-ALL"@).push(0),
        FileSystemOp::Remove => ascii_of("REMOVE"@).push(0),
    }
}

/// `n` plain acknowledgment frames in a row.
pub open spec fn spec_ok_frames(n: int) -> Seq<u8>
    decreases n,
{
    if n <= 0 {
        Seq::empty()
    } else {
        spec_ok_frames(n - 1) + spec_frame(DT_PROTOCOL_FLOW, spec_ok_bytes())
    }
}

/// Decimal value of ASCII digits.
pub open spec fn spec_dec_of(s: Seq<u8>) -> int
    decreases s.len(),
{
    if s.len() == 0 {
        0
    } else {
        spec_dec_of(s.drop_last()) * 10 + (s.last() - 0x30)
    }
}

/// Hexadecimal value of ASCII digits, either case.
pub open spec fn spec_hex_of(s: Seq<u8>) -> int
    decreases s.len(),
{
    if s.len() == 0 {
        0
    } else {
        spec_hex_of(s.drop_last()) * 16 + spec_hex_digit_val(s.last())
    }
}

/// Value of one hexadecimal digit byte.
pub open spec fn spec_hex_digit_val(b: u8) -> int {
    if 0x30 <= b <= 0x39 {
        b - 0x30
    } else if 0x61 <= b <= 0x66 {
        b - 0x57
    } else {
        b - 0x37
    }
}

/// A byte is a decimal digit.
pub open spec fn spec_is_dec(b: u8) -> bool {
    0x30 <= b <= 0x39
}

/// A byte is a hexadecimal digit.
pub open spec fn spec_is_hex(b: u8) -> bool {
    (0x30 <= b <= 0x39) || (0x41 <= b <= 0x46) || (0x61 <= b <= 0x66)
}

/// Parses non-empty ASCII hexadecimal digits; `None` on a stray byte or a
/// value beyond `u64`.
#[verifier::loop_isolation(false)]
pub fn parse_hex(s: &[u8]) -> (r: Option<u64>)
    ensures
        r is Some ==> s@.len() > 0 && (forall|i: int| 0 <= i < s@.len() ==> spec_is_hex(#[trigger] s@[i]))
            && r->0 == spec_hex_of(s@),
{
    if s.len() == 0 {
        return None;
    }
    let mut value: u64 = 0;
    let mut i: usize = 0;
    while i < s.len()
        invariant
            i <= s@.len(),
            value == spec_hex_of(s@.take(i as int)),
            spec_hex_of(s@.take(i as int)) <= u64::MAX,
            forall|k: int| 0 <= k < i ==> spec_is_hex(#[trigger] s@[k]),
        decreases s@.len() - i,
    {
        let b = s[i];
        let d: u64 = if 0x30 <= b && b <= 0x39 {
            (b - 0x30) as u64
        } else if 0x61 <= b && b <= 0x66 {
            (b - 0x57) as u64
        } else if 0x41 <= b && b <= 0x46 {
            (b - 0x37) as u64
        } else {
            return None;
        };
        if value > (u64::MAX - d) / 16 {
            return None;
        }
        proof {
            assert(s@.take(i + 1).drop_last() =~= s@.take(i as int));
            assert(s@.take(i + 1).last() == s@[i as int]);
        }
        value = value * 16 + d;
        i = i + 1;
    }
    proof {
        assert(s@.take(s@.len() as int) =~= s@);
    }
    Some(value)
}

/// Parses non-empty ASCII decimal digits; `None` on a stray byte or a value
/// beyond `u64`.
#[verifier::loop_isolation(false)]
pub fn parse_dec(s: &[u8]) -> (r: Option<u64>)
    ensures
        r is Some ==> s@.len() > 0 && (forall|i: int| 0 <= i < s@.len() ==> spec_is_dec(#[trigger] s@[i]))
            && r->0 == spec_dec_of(s@),
{
    if s.len() == 0 {
        return None;
    }
    let mut value: u64 = 0;
    let mut i: usize = 0;
    while i < s.len()
        invariant
            i <= s@.len(),
            value == spec_dec_of(s@.take(i as int)),
            spec_dec_of(s@.take(i as int)) <= u64::MAX,
            forall|k: int| 0 <= k < i ==> spec_is_dec(#[trigger] s@[k]),
        decreases s@.len() - i,
    {
        let b = s[i];
        if !(0x30 <= b && b <= 0x39) {
            return None;
        }
        let d = (b - 0x30) as u64;
        if value > (u64::MAX - d) / 10 {
            return None;
        }
        proof {
            assert(s@.take(i + 1).drop_last() =~= s@.take(i as int));
            assert(s@.take(i + 1).last() == s@[i as int]);
        }
        value = value * 10 + d;
        i = i + 1;
    }
    proof {
        assert(s@.take(s@.len() as int) =~= s@);
    }
    Some(value)
}

/// Extracts the content of the first element tagged `tag`: the bytes
/// between the first opening marker and the first closing marker after it.
pub fn get_tag(doc: &[u8], tag: &str) -> (r: Result<Vec<u8>, Error>)
    requires
        tag.is_ascii(),
    ensures
        r is Ok ==> exists|a: int, b: int|
            #![trigger match_at(doc@, ascii_of("<"@ + tag@ + ">"@), a), match_at(doc@, ascii_of("</"@ + tag@ + ">"@), b)]
            {
                &&& match_at(doc@, ascii_of("<"@ + tag@ + ">"@), a)
                &&& match_at(doc@, ascii_of("</"@ + tag@ + ">"@), b)
                &&& a + ascii_of("<"@ + tag@ + ">"@).len() <= b
                &&& r->Ok_0@ == doc@.subrange(a + ascii_of("<"@ + tag@ + ">"@).len(), b)
            },
{
    proof {
        reveal_strlit("<");
        reveal_strlit(">");
        reveal_strlit("</");
    }
    let mut open: Vec<u8> = crate::ascii::str_bytes("<");
    crate::ascii::push_str_bytes(&mut open, tag);
    crate::ascii::push_str_bytes(&mut open, ">");
    proof {
        assert(open@ =~= ascii_of("<"@ + tag@ + ">"@));
    }
    let mut close: Vec<u8> = crate::ascii::str_bytes("</");
    crate::ascii::push_str_bytes(&mut close, tag);
    crate::ascii::push_str_bytes(&mut close, ">");
    proof {
        assert(close@ =~= ascii_of("</"@ + tag@ + ">"@));
    }
    let a = match find_bytes(doc, open.as_slice(), 0) {
        Some(p) => p,
        None => {
            return Err(Error::Xml(XmlErrorKind::MalformedResponse));
        },
    };
    let doc_len = doc.len();
    assert(a + open@.len() <= doc_len);
    let content_start = a + open.len();
    let b = match find_bytes(doc, close.as_slice(), content_start) {
        Some(p) => p,
        None => {
            return Err(Error::Xml(XmlErrorKind::MalformedResponse));
        },
    };
    Ok(crate::dafile::copy_range(doc, content_start, b))
}

/// The XML driver over a port.
pub struct Xml<P: MtkPort> {
    /// The preloader connection the driver was built on.
    pub conn: Connection<P>,
    /// The agent entry being driven.
    pub da: DA,
    /// Shared device record.
    pub dev_info: DeviceInfo,
    /// Negotiated size of frames the host may read.
    pub read_packet_length: Option<usize>,
    /// Negotiated size of chunks the host may write.
    pub write_packet_length: Option<usize>,
}

impl<P: MtkPort> Xml<P> {
    /// The driver's bookkeeping is untouched.
    pub open spec fn meta_kept(self, o: Self) -> bool {
        self.conn.meta_kept(o.conn)
    }

    /// A driver over a fresh connection.
    pub fn new(conn: Connection<P>, da: DA, dev_info: DeviceInfo) -> (r: Xml<P>)
        ensures
            r.conn == conn,
            r.da == da,
            r.read_packet_length is None,
            r.write_packet_length is None,
    {
        Xml { conn, da, dev_info, read_packet_length: None, write_packet_length: None }
    }

    /// Writes one frame.
    #[verifier::loop_isolation(false)]
    pub fn send_frame(&mut self, payload: &[u8]) -> (r: Result<(), Error>)
        ensures
            final(self).meta_kept(*old(self)),
            final(self).da == old(self).da,
            final(self).dev_info == old(self).dev_info,
            old(self).conn.port.sent().is_prefix_of(final(self).conn.port.sent()),
            r is Ok ==> final(self).conn.port.sent() == old(self).conn.port.sent() + spec_frame(
                DT_PROTOCOL_FLOW,
                payload@,
            ) && final(self).conn.port.avail() == old(self).conn.port.avail(),
    {
        if payload.len() > u32::MAX as usize {
            proof {
                crate::bytes::lemma_prefix_refl(self.conn.port.sent());
            }
            return Err(Error::Core);
        }
        let hdr = crate::framing::generate_header(DT_PROTOCOL_FLOW, payload.len());
        match self.conn.port.write_all(hdr.as_slice()) {
            Ok(_) => {},
            Err(e) => {
                return Err(e);
            },
        }
        let ghost s1 = self.conn.port.sent();
        match self.conn.port.write_all(payload) {
            Ok(_) => {},
            Err(e) => {
                proof {
                    crate::bytes::lemma_prefix_trans(
                        old(self).conn.port.sent(),
                        s1,
                        self.conn.port.sent(),
                    );
                }
                return Err(e);
            },
        }
        proof {
            assert(self.conn.port.sent() =~= old(self).conn.port.sent() + spec_frame(
                DT_PROTOCOL_FLOW,
                payload@,
            ));
            crate::bytes::lemma_prefix_append(
                old(self).conn.port.sent(),
                spec_frame(DT_PROTOCOL_FLOW, payload@),
            );
        }
        Ok(())
    }

    /// Reads one frame and hands its payload back.
    pub fn read_frame(&mut self) -> (r: Result<Vec<u8>, Error>)
        ensures
            final(self).meta_kept(*old(self)),
            final(self).da == old(self).da,
            final(self).dev_info == old(self).dev_info,
            final(self).conn.port.sent() == old(self).conn.port.sent(),
            r is Err ==> r->Err_0 is Io || r->Err_0 is Timeout || r->Err_0 is Proto,
            r is Ok ==> {
                let av = old(self).conn.port.avail();
                &&& crate::xflash::proto::spec_frame_shape(av)
                &&& r->Ok_0@ == crate::xflash::proto::spec_frame_payload(av)
                &&& final(self).conn.port.avail() == av.skip(
                    crate::xflash::proto::spec_frame_len(av),
                )
            },
    {
        let hdr = match self.conn.port.read_exact(12) {
            Ok(h) => h,
            Err(e) => {
                return Err(e);
            },
        };
        let (_dtype, len) = match crate::framing::parse_header(hdr.as_slice()) {
            Ok(p) => p,
            Err(e) => {
                return Err(e);
            },
        };
        let data = match self.conn.port.read_exact(len as usize) {
            Ok(d) => d,
            Err(e) => {
                return Err(e);
            },
        };
        proof {
            let av = old(self).conn.port.avail();
            assert(hdr@ =~= av.take(12));
            assert(av.take(12).subrange(0, 4) =~= av.subrange(0, 4));
            assert(av.take(12).subrange(4, 8) =~= av.subrange(4, 8));
            assert(av.take(12).subrange(8, 12) =~= av.subrange(8, 12));
            assert(av.skip(12).take(len as int) =~= av.subrange(12, 12 + len));
            assert(av.skip(12).skip(len as int) =~= av.skip(12 + len));
        }
        Ok(data)
    }

    /// Sends the plain acknowledgment.
    pub fn ack_ok(&mut self) -> (r: Result<(), Error>)
        ensures
            final(self).meta_kept(*old(self)),
            final(self).da == old(self).da,
            final(self).dev_info == old(self).dev_info,
            old(self).conn.port.sent().is_prefix_of(final(self).conn.port.sent()),
            r is Ok ==> final(self).conn.port.sent() == old(self).conn.port.sent() + spec_frame(
                DT_PROTOCOL_FLOW,
                spec_ok_bytes(),
            ) && final(self).conn.port.avail() == old(self).conn.port.avail(),
    {
        proof {
            reveal_strlit("OK");
        }
        let mut ok = crate::ascii::str_bytes("OK");
        ok.push(0);
        self.send_frame(ok.as_slice())
    }

    /// Sends a valued acknowledgment: `OK@0x`, the digits, NUL.
    pub fn ack_value(&mut self, value: &[u8]) -> (r: Result<(), Error>)
        ensures
            final(self).meta_kept(*old(self)),
            final(self).da == old(self).da,
            final(self).dev_info == old(self).dev_info,
            old(self).conn.port.sent().is_prefix_of(final(self).conn.port.sent()),
            r is Ok ==> final(self).conn.port.sent() == old(self).conn.port.sent() + spec_frame(
                DT_PROTOCOL_FLOW,
                spec_ok_value_bytes(value@),
            ) && final(self).conn.port.avail() == old(self).conn.port.avail(),
    {
        proof {
            reveal_strlit("OK@0x");
        }
        let mut ok = crate::ascii::str_bytes("OK@0x");
        let mut i: usize = 0;
        while i < value.len()
            invariant
                i <= value@.len(),
                ok@ == ascii_of("OK@0x"@) + value@.take(i as int),
            decreases value@.len() - i,
        {
            ok.push(value[i]);
            assert(ok@ =~= ascii_of("OK@0x"@) + value@.take(i + 1));
            i = i + 1;
        }
        ok.push(0);
        proof {
            assert(value@.take(value@.len() as int) =~= value@);
            assert(ok@ =~= spec_ok_value_bytes(value@));
        }
        self.send_frame(ok.as_slice())
    }

    /// Reads the device's acknowledgment: the plain or zero-valued `OK` is
    /// success; `ERR!UNSUPPORTED` surfaces as the unsupported-command
    /// error; anything else is malformed.
    pub fn read_ack(&mut self) -> (r: Result<(), Error>)
        ensures
            final(self).meta_kept(*old(self)),
            final(self).da == old(self).da,
            final(self).dev_info == old(self).dev_info,
            final(self).conn.port.sent() == old(self).conn.port.sent(),
            r is Ok ==> {
                let av = old(self).conn.port.avail();
                &&& crate::xflash::proto::spec_frame_shape(av)
                &&& (crate::xflash::proto::spec_frame_payload(av) == spec_ok_bytes()
                    || crate::xflash::proto::spec_frame_payload(av) == spec_ok_value_bytes(
                    ascii_of("0"@),
                ))
                &&& final(self).conn.port.avail() == av.skip(
                    crate::xflash::proto::spec_frame_len(av),
                )
            },
            r == Err::<(), Error>(Error::Xml(XmlErrorKind::UnsupportedCmd)) ==> {
                let av = old(self).conn.port.avail();
                &&& crate::xflash::proto::spec_frame_shape(av)
                &&& crate::scan::contains_bytes(
                    crate::xflash::proto::spec_frame_payload(av),
                    ascii_of("ERR!UNSUPPORTED"@),
                )
                &&& final(self).conn.port.avail() == av.skip(
                    crate::xflash::proto::spec_frame_len(av),
                )
            },
    {
        let resp = match self.read_frame() {
            Ok(d) => d,
            Err(e) => {
                proof {
                    assert(e is Io || e is Timeout || e is Proto);
                    assert(e != Error::Xml(XmlErrorKind::UnsupportedCmd));
                }
                return Err(e);
            },
        };
        proof {
            reveal_strlit("OK");
            reveal_strlit("OK@0x");
            reveal_strlit("0");
            reveal_strlit("ERR!UNSUPPORTED");
        }
        let mut ok = crate::ascii::str_bytes("OK");
        ok.push(0);
        let mut ok0 = crate::ascii::str_bytes("OK@0x");
        crate::ascii::push_str_bytes(&mut ok0, "0");
        ok0.push(0);
        proof {
            assert(ok@ =~= spec_ok_bytes());
            assert(ok0@ =~= spec_ok_value_bytes(ascii_of("0"@)));
        }
        if resp.len() == ok.len() && crate::scan::is_match_at(resp.as_slice(), ok.as_slice(), 0) {
            proof {
                assert(resp@.subrange(0, ok@.len() as int) =~= resp@);
            }
            return Ok(());
        }
        if resp.len() == ok0.len() && crate::scan::is_match_at(resp.as_slice(), ok0.as_slice(), 0) {
            proof {
                assert(resp@.subrange(0, ok0@.len() as int) =~= resp@);
            }
            return Ok(());
        }
        let unsupported = crate::ascii::str_bytes("ERR!UNSUPPORTED");
        if crate::scan::has_bytes(resp.as_slice(), unsupported.as_slice()) {
            proof {
                assert(unsupported@ == ascii_of("ERR!UNSUPPORTED"@));
                assert(crate::scan::contains_bytes(resp@, ascii_of("ERR!UNSUPPORTED"@)));
                assert(resp@ == crate::xflash::proto::spec_frame_payload(
                    old(self).conn.port.avail(),
                ));
                assert(crate::xflash::proto::spec_frame_shape(old(self).conn.port.avail()));
                assert(self.conn.port.avail() == old(self).conn.port.avail().skip(
                    crate::xflash::proto::spec_frame_len(old(self).conn.port.avail()),
                ));
            }
            return Err(Error::Xml(XmlErrorKind::UnsupportedCmd));
        }
        Err(Error::Xml(XmlErrorKind::MalformedResponse))
    }

    /// Waits for a lifetime marker and acknowledges it. A quiet device is
    /// taken as already past the marker.
    pub fn lifetime_ack(&mut self, lifetime: XmlCmdLifetime) -> (r: Result<(), Error>)
        ensures
            final(self).meta_kept(*old(self)),
            final(self).da == old(self).da,
            final(self).dev_info == old(self).dev_info,
            old(self).conn.port.sent().is_prefix_of(final(self).conn.port.sent()),
            r is Ok ==> final(self).conn.port.sent() == old(self).conn.port.sent() + spec_frame(
                DT_PROTOCOL_FLOW,
                spec_ok_bytes(),
            ),
            r is Ok ==> final(self).conn.port.avail() == old(self).conn.port.avail() || (
            crate::xflash::proto::spec_frame_shape(old(self).conn.port.avail())
                && crate::scan::contains_bytes(
                crate::xflash::proto::spec_frame_payload(old(self).conn.port.avail()),
                spec_lifetime_marker(lifetime),
            ) && final(self).conn.port.avail() == old(self).conn.port.avail().skip(
                crate::xflash::proto::spec_frame_len(old(self).conn.port.avail()),
            )),
    {
        proof {
            reveal_strlit("<command>CMD:START</command>");
            reveal_strlit("<command>CMD:END</command>");
        }
        let pattern: Vec<u8> = match lifetime {
            XmlCmdLifetime::CmdStart => crate::ascii::str_bytes("<command>CMD:START</command>"),
            XmlCmdLifetime::CmdEnd => crate::ascii::str_bytes("<command>CMD:END</command>"),
        };
        let ghost s0 = self.conn.port.sent();
        let hdr = self.conn.port.read_exact_timeout(12, 700);
        match hdr {
            Ok(h) => {
                let (_dtype, len) = match crate::framing::parse_header(h.as_slice()) {
                    Ok(p) => p,
                    Err(e) => {
                        proof {
                            crate::bytes::lemma_prefix_refl(self.conn.port.sent());
                        }
                        return Err(e);
                    },
                };
                let data = match self.conn.port.read_exact(len as usize) {
                    Ok(d) => d,
                    Err(e) => {
                        proof {
                            crate::bytes::lemma_prefix_refl(self.conn.port.sent());
                        }
                        return Err(e);
                    },
                };
                if !crate::scan::has_bytes(data.as_slice(), pattern.as_slice()) {
                    proof {
                        crate::bytes::lemma_prefix_refl(self.conn.port.sent());
                    }
                    return Err(Error::Proto);
                }
                proof {
                    let av = old(self).conn.port.avail();
                    assert(h@ =~= av.take(12));
                    assert(av.take(12).subrange(0, 4) =~= av.subrange(0, 4));
                    assert(av.take(12).subrange(8, 12) =~= av.subrange(8, 12));
                    assert(crate::xflash::proto::spec_frame_shape(av));
                    assert(data@ =~= crate::xflash::proto::spec_frame_payload(av));
                    assert(self.conn.port.avail() =~= av.skip(
                        crate::xflash::proto::spec_frame_len(av),
                    ));
                    assert(pattern@ == spec_lifetime_marker(lifetime));
                }
            },
            Err(_) => {
                // A marker that never comes: the device is already inside
                // the exchange.
            },
        }
        let ghost s1 = self.conn.port.sent();
        let r = self.ack_ok();
        proof {
            crate::bytes::lemma_prefix_trans(s0, s1, self.conn.port.sent());
        }
        r
    }

    /// Sends a command document: waits out the opening marker, sends the
    /// document, and reads the acknowledgment. An unsupported command
    /// consumes its closing marker and reports `false`.
    pub fn send_cmd<C: XmlCommand>(&mut self, cmd: &C) -> (r: Result<bool, Error>)
        requires
            cmd.spec_wf(),
        ensures
            final(self).meta_kept(*old(self)),
            final(self).da == old(self).da,
            final(self).dev_info == old(self).dev_info,
            old(self).conn.port.sent().is_prefix_of(final(self).conn.port.sent()),
            r == Ok::<bool, Error>(true) ==> final(self).conn.port.sent() == old(
                self,
            ).conn.port.sent() + spec_frame(DT_PROTOCOL_FLOW, spec_ok_bytes()) + spec_frame(
                DT_PROTOCOL_FLOW,
                cmd.spec_xml(),
            ),
            r == Ok::<bool, Error>(false) ==> final(self).conn.port.sent() == old(
                self,
            ).conn.port.sent() + spec_frame(DT_PROTOCOL_FLOW, spec_ok_bytes()) + spec_frame(
                DT_PROTOCOL_FLOW,
                cmd.spec_xml(),
            ) + spec_frame(DT_PROTOCOL_FLOW, spec_ok_bytes()),
            r is Ok ==> exists|k: int|
                #![trigger old(self).conn.port.avail().skip(k)]
                0 <= k <= old(self).conn.port.avail().len() && final(self).conn.port.avail()
                    == old(self).conn.port.avail().skip(k),
    {
        let ghost s0 = self.conn.port.sent();
        match self.lifetime_ack(XmlCmdLifetime::CmdStart) {
            Ok(_) => {},
            Err(e) => {
                return Err(e);
            },
        }
        let ghost av1 = self.conn.port.avail();
        let doc = cmd.to_xml();
        let ghost s1 = self.conn.port.sent();
        match self.send_frame(doc.as_slice()) {
            Ok(_) => {},
            Err(e) => {
                proof {
                    crate::bytes::lemma_prefix_trans(s0, s1, self.conn.port.sent());
                }
                return Err(e);
            },
        }
        proof {
            crate::bytes::lemma_prefix_trans(s0, s1, self.conn.port.sent());
        }
        let ghost s2 = self.conn.port.sent();
        match self.read_ack() {
            Ok(_) => {
                proof {
                    let av0 = old(self).conn.port.avail();
                    let f0: int = if av1 == av0 {
                        0
                    } else {
                        crate::xflash::proto::spec_frame_len(av0)
                    };
                    assert(av0.skip(0) =~= av0);
                    assert(av1 == av0.skip(f0));
                    let f1 = crate::xflash::proto::spec_frame_len(av1);
                    assert(self.conn.port.avail() == av1.skip(f1));
                    assert(self.conn.port.avail() =~= av0.skip(f0 + f1));
                    assert(0 <= f0 + f1 <= av0.len());
                }
                Ok(true)
            },
            Err(Error::Xml(XmlErrorKind::UnsupportedCmd)) => {
                let ghost s3 = self.conn.port.sent();
                let ghost av3 = self.conn.port.avail();
                match self.lifetime_ack(XmlCmdLifetime::CmdEnd) {
                    Ok(_) => {},
                    Err(e) => {
                        proof {
                            crate::bytes::lemma_prefix_trans(s0, s3, self.conn.port.sent());
                        }
                        return Err(e);
                    },
                }
                proof {
                    crate::bytes::lemma_prefix_trans(s0, s3, self.conn.port.sent());
                    let av0 = old(self).conn.port.avail();
                    let f0: int = if av1 == av0 {
                        0
                    } else {
                        crate::xflash::proto::spec_frame_len(av0)
                    };
                    assert(av0.skip(0) =~= av0);
                    assert(av1 == av0.skip(f0));
                    let f1 = crate::xflash::proto::spec_frame_len(av1);
                    assert(av3 == av1.skip(f1));
                    let f3: int = if self.conn.port.avail() == av3 {
                        0
                    } else {
                        crate::xflash::proto::spec_frame_len(av3)
                    };
                    assert(av3.skip(0) =~= av3);
                    assert(self.conn.port.avail() == av3.skip(f3));
                    assert(self.conn.port.avail() =~= av0.skip(f0 + f1 + f3));
                    assert(0 <= f0 + f1 + f3 <= av0.len());
                }
                Ok(false)
            },
            Err(e) => Err(e),
        }
    }

    /// Serves the device's download sub-command: confirms the request,
    /// announces the size, and streams `data` in chunks of the packet
    /// length the device announced, each chunk behind a zero-status
    /// acknowledgment.
    #[verifier::loop_isolation(false)]
    #[verifier::rlimit(100)]
    #[verifier::spinoff_prover]
    pub fn download_file(&mut self, data: &[u8]) -> (r: Result<(), Error>)
        ensures
            final(self).meta_kept(*old(self)),
            final(self).da == old(self).da,
            final(self).dev_info == old(self).dev_info,
            old(self).conn.port.sent().is_prefix_of(final(self).conn.port.sent()),
            r is Ok ==> exists|plen: int|
                plen > 0 && final(self).conn.port.sent() == old(self).conn.port.sent()
                    + spec_frame(DT_PROTOCOL_FLOW, spec_ok_bytes()) + spec_frame(
                    DT_PROTOCOL_FLOW,
                    spec_ok_value_bytes(
                        crate::xml::cmds::spec_hex_lower(data@.len() as nat),
                    ),
                ) + #[trigger] spec_xml_dl_chunks(data@, plen),
            r is Ok ==> crate::xflash::proto::spec_frame_shape(old(self).conn.port.avail())
                && crate::scan::contains_bytes(
                crate::xflash::proto::spec_frame_payload(old(self).conn.port.avail()),
                ascii_of("CMD:DOWNLOAD-FILE"@),
            ),
    {
        proof {
            reveal_strlit("CMD:DOWNLOAD-FILE");
            reveal_strlit("command");
            reveal_strlit("packet_length");
            reveal_strlit("0");
        }
        let ghost s0 = self.conn.port.sent();
        let doc = match self.read_frame() {
            Ok(d) => d,
            Err(e) => {
                proof {
                    crate::bytes::lemma_prefix_refl(self.conn.port.sent());
                }
                return Err(e);
            },
        };
        proof {
            crate::bytes::lemma_prefix_refl(self.conn.port.sent());
        }
        let cmd = match get_tag(doc.as_slice(), "command") {
            Ok(c) => c,
            Err(e) => {
                return Err(e);
            },
        };
        let expected = crate::ascii::str_bytes("CMD:DOWNLOAD-FILE");
        if !(cmd.len() == expected.len() && crate::scan::is_match_at(
            cmd.as_slice(),
            expected.as_slice(),
            0,
        )) {
            return Err(Error::Proto);
        }
        proof {
            assert(cmd@.subrange(0, expected@.len() as int) =~= cmd@);
            assert(cmd@ == expected@);
            let olen = ascii_of("<"@ + "command"@ + ">"@).len() as int;
            let w = choose|a: int, b: int|
                match_at(doc@, ascii_of("<"@ + "command"@ + ">"@), a) && match_at(
                    doc@,
                    ascii_of("</"@ + "command"@ + ">"@),
                    b,
                ) && a + ascii_of("<"@ + "command"@ + ">"@).len() <= b && cmd@ == doc@.subrange(
                    a + ascii_of("<"@ + "command"@ + ">"@).len(),
                    b,
                );
            assert(cmd@ == doc@.subrange(w.0 + olen, w.1));
            assert(w.1 == w.0 + olen + cmd@.len());
            assert(doc@.subrange(w.0 + olen, w.0 + olen + cmd@.len() as int) =~= cmd@);
            assert(match_at(doc@, ascii_of("CMD:DOWNLOAD-FILE"@), w.0 + olen));
        }
        match self.ack_ok() {
            Ok(_) => {},
            Err(e) => {
                return Err(e);
            },
        }
        let size_hex = hex_lower(data.len() as u64);
        let ghost s1 = self.conn.port.sent();
        match self.ack_value(size_hex.as_slice()) {
            Ok(_) => {},
            Err(e) => {
                proof {
                    crate::bytes::lemma_prefix_trans(s0, s1, self.conn.port.sent());
                }
                return Err(e);
            },
        }
        proof {
            crate::bytes::lemma_prefix_trans(s0, s1, self.conn.port.sent());
        }
        let ghost s2 = self.conn.port.sent();
        match self.read_ack() {
            Ok(_) => {},
            Err(e) => {
                return Err(e);
            },
        }
        let plen_bytes = match get_tag(doc.as_slice(), "packet_length") {
            Ok(c) => c,
            Err(e) => {
                return Err(e);
            },
        };
        let packet_length = match parse_packet_length(plen_bytes.as_slice()) {
            Some(v) => v,
            None => {
                return Err(Error::Proto);
            },
        };
        if packet_length == 0 || packet_length > usize::MAX as u64 {
            return Err(Error::Proto);
        }
        let plen = packet_length as usize;
        let ghost s3 = self.conn.port.sent();
        match self.send_dl_chunks(data, plen) {
            Ok(_) => {},
            Err(e) => {
                proof {
                    crate::bytes::lemma_prefix_trans(s0, s3, self.conn.port.sent());
                }
                return Err(e);
            },
        }
        proof {
            crate::bytes::lemma_prefix_trans(s0, s3, self.conn.port.sent());
            assert(self.conn.port.sent() =~= s0 + spec_frame(DT_PROTOCOL_FLOW, spec_ok_bytes())
                + spec_frame(
                DT_PROTOCOL_FLOW,
                spec_ok_value_bytes(crate::xml::cmds::spec_hex_lower(data@.len() as nat)),
            ) + spec_xml_dl_chunks(data@, plen as int));
        }
        Ok(())
    }

    /// Streams `data` in chunks of `plen` bytes, each behind a zero-status
    /// acknowledgment, waiting out the device's reply to each.
    #[verifier::loop_isolation(false)]
    #[verifier::rlimit(100)]
    #[verifier::spinoff_prover]
    fn send_dl_chunks(&mut self, data: &[u8], plen: usize) -> (r: Result<(), Error>)
        requires
            plen > 0,
        ensures
            final(self).meta_kept(*old(self)),
            final(self).da == old(self).da,
            final(self).dev_info == old(self).dev_info,
            old(self).conn.port.sent().is_prefix_of(final(self).conn.port.sent()),
            r is Ok ==> final(self).conn.port.sent() == old(self).conn.port.sent()
                + spec_xml_dl_chunks(data@, plen as int),
    {
        proof {
            reveal_strlit("0");
        }
        let size = data.len();
        let ghost base = self.conn.port.sent();
        proof {
            assert(data@.skip(0) =~= data@);
            crate::bytes::lemma_prefix_refl(base);
        }
        let mut pos: usize = 0;
        while pos < size
            invariant
                pos <= size,
                plen > 0,
                size == data@.len(),
                self.conn.meta_kept(old(self).conn),
                self.da == old(self).da,
                self.dev_info == old(self).dev_info,
                old(self).conn.port.sent().is_prefix_of(self.conn.port.sent()),
                self.conn.port.sent() + spec_xml_dl_chunks(data@.skip(pos as int), plen as int)
                    == base + spec_xml_dl_chunks(data@, plen as int),
            decreases size - pos,
        {
            let to_write = if size - pos < plen {
                size - pos
            } else {
                plen
            };
            let chunk = crate::dafile::copy_range(data, pos, pos + to_write);
            let ghost si = self.conn.port.sent();
            let zero: Vec<u8> = crate::ascii::str_bytes("0");
            match self.ack_value(zero.as_slice()) {
                Ok(_) => {},
                Err(e) => {
                    proof {
                        crate::bytes::lemma_prefix_trans(
                            old(self).conn.port.sent(),
                            si,
                            self.conn.port.sent(),
                        );
                    }
                    return Err(e);
                },
            }
            match self.read_ack() {
                Ok(_) => {},
                Err(e) => {
                    proof {
                        crate::bytes::lemma_prefix_trans(
                            old(self).conn.port.sent(),
                            si,
                            self.conn.port.sent(),
                        );
                    }
                    return Err(e);
                },
            }
            match self.send_frame(chunk.as_slice()) {
                Ok(_) => {},
                Err(e) => {
                    proof {
                        crate::bytes::lemma_prefix_trans(
                            old(self).conn.port.sent(),
                            si,
                            self.conn.port.sent(),
                        );
                    }
                    return Err(e);
                },
            }
            match self.read_ack() {
                Ok(_) => {},
                Err(e) => {
                    proof {
                        crate::bytes::lemma_prefix_trans(
                            old(self).conn.port.sent(),
                            si,
                            self.conn.port.sent(),
                        );
                    }
                    return Err(e);
                },
            }
            proof {
                crate::bytes::lemma_prefix_trans(
                    old(self).conn.port.sent(),
                    si,
                    self.conn.port.sent(),
                );
                let rest = data@.skip(pos as int);
                assert(rest.len() == size - pos);
                if rest.len() <= plen {
                    assert(chunk@ =~= rest);
                } else {
                    assert(chunk@ =~= rest.take(plen as int));
                    assert(rest.skip(plen as int) =~= data@.skip(pos + plen));
                }
                reveal_strlit("0");
                assert(zero@ == ascii_of("0"@));
                assert(rest.len() > 0 && plen as int > 0);
                assert(spec_xml_dl_chunks(rest, plen as int) == spec_frame(
                    DT_PROTOCOL_FLOW,
                    spec_ok_value_bytes(ascii_of("0"@)),
                ) + spec_frame(
                    DT_PROTOCOL_FLOW,
                    (if rest.len() <= plen as int {
                        rest
                    } else {
                        rest.take(plen as int)
                    }),
                ) + spec_xml_dl_chunks(
                    (if rest.len() <= plen as int {
                        Seq::<u8>::empty()
                    } else {
                        rest.skip(plen as int)
                    }),
                    plen as int,
                ));
                assert(spec_xml_dl_chunks(rest, plen as int) =~= spec_frame(
                    DT_PROTOCOL_FLOW,
                    spec_ok_value_bytes(ascii_of("0"@)),
                ) + spec_frame(DT_PROTOCOL_FLOW, chunk@) + spec_xml_dl_chunks(
                    data@.skip(pos + to_write),
                    plen as int,
                ));
                assert(self.conn.port.sent() + spec_xml_dl_chunks(
                    data@.skip(pos + to_write),
                    plen as int,
                ) =~= base + spec_xml_dl_chunks(data@, plen as int));
            }
            pos = pos + to_write;
        }
        proof {
            assert(data@.skip(size as int) =~= Seq::<u8>::empty());
            assert(self.conn.port.sent() + spec_xml_dl_chunks(
                data@.skip(size as int),
                plen as int,
            ) =~= self.conn.port.sent());
        }
        Ok(())
    }

    /// Serves the device's upload sub-command: confirms the request, learns
    /// the size from the device's valued acknowledgment, and collects the
    /// pushed chunks. The result is exactly the data the device framed
    /// after announcing the size.
    #[verifier::rlimit(100)]
    #[verifier::spinoff_prover]
    pub fn upload_file(&mut self) -> (r: Result<Vec<u8>, Error>)
        ensures
            final(self).meta_kept(*old(self)),
            final(self).da == old(self).da,
            final(self).dev_info == old(self).dev_info,
            old(self).conn.port.sent().is_prefix_of(final(self).conn.port.sent()),
            r is Ok ==> {
                let av = old(self).conn.port.avail();
                let a1 = av.skip(crate::xflash::proto::spec_frame_len(av));
                let a2 = a1.skip(crate::xflash::proto::spec_frame_len(a1));
                let p1 = crate::xflash::proto::spec_frame_payload(a1);
                let end = if p1.len() > 5 && p1[p1.len() - 1] == 0 {
                    p1.len() - 1
                } else {
                    p1.len() as int
                };
                let total = spec_hex_of(p1.subrange(5, end));
                &&& crate::xflash::proto::spec_frame_shape(av)
                &&& crate::xflash::proto::spec_frame_shape(a1)
                &&& p1.len() >= 5
                &&& p1.subrange(0, 5) == ascii_of("OK@0x"@)
                &&& total <= usize::MAX
                &&& r->Ok_0@ == spec_xml_ul_chunks(a2, total as int)
                &&& crate::scan::contains_bytes(
                    crate::xflash::proto::spec_frame_payload(av),
                    ascii_of("CMD:UPLOAD-FILE"@),
                )
            },
    {
        proof {
            reveal_strlit("CMD:UPLOAD-FILE");
            reveal_strlit("command");
            reveal_strlit("OK@0x");
        }
        let ghost s0 = self.conn.port.sent();
        let doc = match self.read_frame() {
            Ok(d) => d,
            Err(e) => {
                proof {
                    crate::bytes::lemma_prefix_refl(self.conn.port.sent());
                }
                return Err(e);
            },
        };
        proof {
            crate::bytes::lemma_prefix_refl(self.conn.port.sent());
        }
        let cmd = match get_tag(doc.as_slice(), "command") {
            Ok(c) => c,
            Err(e) => {
                return Err(e);
            },
        };
        let expected = crate::ascii::str_bytes("CMD:UPLOAD-FILE");
        if !(cmd.len() == expected.len() && crate::scan::is_match_at(
            cmd.as_slice(),
            expected.as_slice(),
            0,
        )) {
            return Err(Error::Proto);
        }
        proof {
            assert(cmd@.subrange(0, expected@.len() as int) =~= cmd@);
            assert(cmd@ == expected@);
            let olen = ascii_of("<"@ + "command"@ + ">"@).len() as int;
            let w = choose|a: int, b: int|
                match_at(doc@, ascii_of("<"@ + "command"@ + ">"@), a) && match_at(
                    doc@,
                    ascii_of("</"@ + "command"@ + ">"@),
                    b,
                ) && a + ascii_of("<"@ + "command"@ + ">"@).len() <= b && cmd@ == doc@.subrange(
                    a + ascii_of("<"@ + "command"@ + ">"@).len(),
                    b,
                );
            assert(cmd@ == doc@.subrange(w.0 + olen, w.1));
            assert(w.1 == w.0 + olen + cmd@.len());
            assert(doc@.subrange(w.0 + olen, w.0 + olen + cmd@.len() as int) =~= cmd@);
            assert(match_at(doc@, ascii_of("CMD:UPLOAD-FILE"@), w.0 + olen));
        }
        match self.ack_ok() {
            Ok(_) => {},
            Err(e) => {
                return Err(e);
            },
        }
        let ghost s1 = self.conn.port.sent();
        let length_resp = match self.read_frame() {
            Ok(d) => d,
            Err(e) => {
                return Err(e);
            },
        };
        let size64 = match parse_ok_value(length_resp.as_slice()) {
            Some(v) => v,
            None => {
                return Err(Error::Proto);
            },
        };
        if size64 > usize::MAX as u64 {
            return Err(Error::Proto);
        }
        let size = size64 as usize;
        match self.ack_ok() {
            Ok(_) => {},
            Err(e) => {
                proof {
                    crate::bytes::lemma_prefix_trans(s0, s1, self.conn.port.sent());
                }
                return Err(e);
            },
        }
        proof {
            crate::bytes::lemma_prefix_trans(s0, s1, self.conn.port.sent());
        }
        let ghost s2 = self.conn.port.sent();
        let r = self.recv_ul_chunks(size);
        proof {
            crate::bytes::lemma_prefix_trans(s0, s2, self.conn.port.sent());
        }
        r
    }

    /// Collects the device's pushed chunks: an acknowledgment frame, an
    /// answering plain acknowledgment, the chunk frame and another plain
    /// acknowledgment, until `size` bytes are in.
    #[verifier::loop_isolation(false)]
    #[verifier::rlimit(100)]
    #[verifier::spinoff_prover]
    fn recv_ul_chunks(&mut self, size: usize) -> (r: Result<Vec<u8>, Error>)
        ensures
            final(self).meta_kept(*old(self)),
            final(self).da == old(self).da,
            final(self).dev_info == old(self).dev_info,
            old(self).conn.port.sent().is_prefix_of(final(self).conn.port.sent()),
            r is Ok ==> r->Ok_0@ == spec_xml_ul_chunks(old(self).conn.port.avail(), size as int),
    {
        let ghost av0 = self.conn.port.avail();
        let mut out: Vec<u8> = Vec::new();
        proof {
            crate::bytes::lemma_prefix_refl(self.conn.port.sent());
        }
        while out.len() < size
            invariant
                self.conn.meta_kept(old(self).conn),
                self.da == old(self).da,
                self.dev_info == old(self).dev_info,
                old(self).conn.port.sent().is_prefix_of(self.conn.port.sent()),
                out@.len() < size ==> spec_xml_ul_chunks(av0, size as int) == out@
                    + spec_xml_ul_chunks(self.conn.port.avail(), size - out@.len()),
                out@.len() >= size ==> out@ == spec_xml_ul_chunks(av0, size as int),
            decreases (if out@.len() >= size {
                0int
            } else {
                size - out@.len()
            }),
        {
            let ghost av_h = self.conn.port.avail();
            let ghost rem = size - out@.len();
            let ghost out_start = out@.len();
            let ghost si = self.conn.port.sent();
            match self.read_ack() {
                Ok(_) => {},
                Err(e) => {
                    return Err(e);
                },
            }
            match self.ack_ok() {
                Ok(_) => {},
                Err(e) => {
                    proof {
                        crate::bytes::lemma_prefix_trans(
                            old(self).conn.port.sent(),
                            si,
                            self.conn.port.sent(),
                        );
                    }
                    return Err(e);
                },
            }
            proof {
                crate::bytes::lemma_prefix_trans(
                    old(self).conn.port.sent(),
                    si,
                    self.conn.port.sent(),
                );
            }
            let chunk = match self.read_frame() {
                Ok(d) => d,
                Err(e) => {
                    return Err(e);
                },
            };
            if chunk.len() == 0 {
                return Err(Error::Proto);
            }
            let ghost out_pre = out@;
            let mut k: usize = 0;
            while k < chunk.len()
                invariant
                    k <= chunk@.len(),
                    out@ == out_pre + chunk@.take(k as int),
                decreases chunk@.len() - k,
            {
                if out.len() == usize::MAX {
                    return Err(Error::Proto);
                }
                out.push(chunk[k]);
                assert(out@ =~= out_pre + chunk@.take(k + 1));
                k = k + 1;
            }
            proof {
                assert(chunk@.take(chunk@.len() as int) =~= chunk@);
                assert(out@ == out_pre + chunk@);
                if chunk@.len() >= rem {
                    assert(spec_xml_ul_chunks(av_h, rem) == chunk@);
                    assert(out@ =~= out_pre + spec_xml_ul_chunks(av_h, rem));
                } else {
                    assert(spec_xml_ul_chunks(av_h, rem) == chunk@ + spec_xml_ul_chunks(
                        self.conn.port.avail(),
                        rem - chunk@.len(),
                    ));
                    assert(out_pre + spec_xml_ul_chunks(av_h, rem) =~= out@ + spec_xml_ul_chunks(
                        self.conn.port.avail(),
                        rem - chunk@.len(),
                    ));
                }
            }
            let ghost sj = self.conn.port.sent();
            match self.ack_ok() {
                Ok(_) => {},
                Err(e) => {
                    proof {
                        crate::bytes::lemma_prefix_trans(
                            old(self).conn.port.sent(),
                            sj,
                            self.conn.port.sent(),
                        );
                    }
                    return Err(e);
                },
            }
            proof {
                crate::bytes::lemma_prefix_trans(
                    old(self).conn.port.sent(),
                    sj,
                    self.conn.port.sent(),
                );
            }
        }
        proof {
            if size == 0 {
                assert(out@ =~= spec_xml_ul_chunks(av0, size as int));
            }
        }
        Ok(out)
    }

    /// Consumes the device's progress report: acknowledged progress frames
    /// until the end-of-transmission marker.
    #[verifier::loop_isolation(false)]
    pub fn progress_report(&mut self) -> (r: Result<(), Error>)
        ensures
            final(self).meta_kept(*old(self)),
            final(self).da == old(self).da,
            final(self).dev_info == old(self).dev_info,
            old(self).conn.port.sent().is_prefix_of(final(self).conn.port.sent()),
            r is Ok ==> spec_eot_found(old(self).conn.port.avail())
                && final(self).conn.port.sent() == old(self).conn.port.sent() + spec_ok_frames(
                spec_eot_frames(old(self).conn.port.avail()),
            ) && final(self).conn.port.avail() == old(self).conn.port.avail().skip(
                spec_eot_consumed(old(self).conn.port.avail()),
            ),
    {
        proof {
            reveal_strlit("OK!EOT");
        }
        let mut eot = crate::ascii::str_bytes("OK!EOT");
        eot.push(0);
        let ghost s0 = self.conn.port.sent();
        let ghost av0 = self.conn.port.avail();
        let ghost mut consumed: int = 0;
        proof {
            crate::bytes::lemma_prefix_refl(s0);
            assert(eot@ =~= spec_eot_bytes());
            assert(av0.skip(0) =~= av0);
        }
        let mut rounds: u32 = 0;
        while rounds < 0x10000
            invariant
                self.conn.meta_kept(old(self).conn),
                self.da == old(self).da,
                self.dev_info == old(self).dev_info,
                old(self).conn.port.sent().is_prefix_of(self.conn.port.sent()),
                self.conn.port.sent() == s0 + spec_ok_frames(rounds as int),
                av0 == old(self).conn.port.avail(),
                eot@ == spec_eot_bytes(),
                0 <= consumed <= av0.len(),
                self.conn.port.avail() == av0.skip(consumed),
                spec_eot_found(av0) == spec_eot_found(self.conn.port.avail()),
                spec_eot_frames(av0) == rounds + spec_eot_frames(self.conn.port.avail()),
                spec_eot_consumed(av0) == consumed + spec_eot_consumed(self.conn.port.avail()),
            decreases 0x10000 - rounds,
        {
            let ghost si = self.conn.port.sent();
            let ghost av_h = self.conn.port.avail();
            let resp = match self.read_frame() {
                Ok(d) => d,
                Err(e) => {
                    return Err(e);
                },
            };
            proof {
                let c_old = consumed;
                consumed = consumed + crate::xflash::proto::spec_frame_len(av_h);
                assert(av_h == av0.skip(c_old));
                assert(crate::xflash::proto::spec_frame_len(av_h) >= 12);
                assert(crate::xflash::proto::spec_frame_len(av_h) <= av_h.len());
                assert(av_h.len() == av0.len() - c_old);
                assert(consumed <= av0.len());
                assert(self.conn.port.avail() == av_h.skip(
                    crate::xflash::proto::spec_frame_len(av_h),
                ));
                assert forall|k: int|
                    0 <= k < self.conn.port.avail().len() implies self.conn.port.avail()[k]
                    == av0.skip(consumed)[k] by {
                    assert(self.conn.port.avail()[k] == av_h[crate::xflash::proto::spec_frame_len(
                        av_h,
                    ) + k]);
                    assert(av_h[crate::xflash::proto::spec_frame_len(av_h) + k] == av0[c_old
                        + crate::xflash::proto::spec_frame_len(av_h) + k]);
                };
                assert(self.conn.port.avail() =~= av0.skip(consumed));
            }
            match self.ack_ok() {
                Ok(_) => {},
                Err(e) => {
                    proof {
                        crate::bytes::lemma_prefix_trans(
                            old(self).conn.port.sent(),
                            si,
                            self.conn.port.sent(),
                        );
                    }
                    return Err(e);
                },
            }
            proof {
                crate::bytes::lemma_prefix_trans(
                    old(self).conn.port.sent(),
                    si,
                    self.conn.port.sent(),
                );
                assert(self.conn.port.sent() =~= s0 + spec_ok_frames(rounds + 1));
            }
            if resp.len() == eot.len() && crate::scan::is_match_at(
                resp.as_slice(),
                eot.as_slice(),
                0,
            ) {
                proof {
                    assert(resp@ =~= spec_eot_bytes()) by {
                        assert(resp@.subrange(0, eot@.len() as int) =~= resp@);
                    }
                    assert(spec_eot_found(av_h));
                    assert(spec_eot_frames(av_h) == 1);
                    assert(spec_eot_consumed(av_h) == crate::xflash::proto::spec_frame_len(av_h));
                }
                return Ok(());
            }
            proof {
                assert(resp@ != spec_eot_bytes()) by {
                    if resp@.len() == eot@.len() {
                        assert(resp@.subrange(0, eot@.len() as int) =~= resp@);
                    }
                }
                assert(spec_eot_found(av_h) == spec_eot_found(self.conn.port.avail()));
                assert(spec_eot_frames(av_h) == 1 + spec_eot_frames(self.conn.port.avail()));
                assert(spec_eot_consumed(av_h) == crate::xflash::proto::spec_frame_len(av_h)
                    + spec_eot_consumed(self.conn.port.avail()));
            }
            rounds = rounds + 1;
        }
        Err(Error::Proto)
    }

    /// Answers the device's pseudo-filesystem request with the canned
    /// reply for `op`.
    pub fn file_system_op(&mut self, op: FileSystemOp) -> (r: Result<(), Error>)
        ensures
            final(self).meta_kept(*old(self)),
            final(self).da == old(self).da,
            final(self).dev_info == old(self).dev_info,
            old(self).conn.port.sent().is_prefix_of(final(self).conn.port.sent()),
            r is Ok ==> {
                let av = old(self).conn.port.avail();
                &&& crate::xflash::proto::spec_frame_shape(av)
                &&& crate::scan::contains_bytes(
                    crate::xflash::proto::spec_frame_payload(av),
                    ascii_of("CMD:FILE-SYS-OPERATION"@),
                )
                &&& final(self).conn.port.avail() == av.skip(
                    crate::xflash::proto::spec_frame_len(av),
                )
                &&& final(self).conn.port.sent() == old(self).conn.port.sent() + spec_frame(
                    DT_PROTOCOL_FLOW,
                    spec_ok_bytes(),
                ) + spec_frame(DT_PROTOCOL_FLOW, spec_ok_value_bytes(spec_fs_answer(op)))
            },
    {
        proof {
            reveal_strlit("CMD:FILE-SYS-OPERATION");
            reveal_strlit("command");
        }
        let ghost s0 = self.conn.port.sent();
        let doc = match self.read_frame() {
            Ok(d) => d,
            Err(e) => {
                proof {
                    crate::bytes::lemma_prefix_refl(self.conn.port.sent());
                }
                return Err(e);
            },
        };
        proof {
            crate::bytes::lemma_prefix_refl(self.conn.port.sent());
        }
        let cmd = match get_tag(doc.as_slice(), "command") {
            Ok(c) => c,
            Err(e) => {
                return Err(e);
            },
        };
        let expected = crate::ascii::str_bytes("CMD:FILE-SYS-OPERATION");
        if !(cmd.len() == expected.len() && crate::scan::is_match_at(
            cmd.as_slice(),
            expected.as_slice(),
            0,
        )) {
            return Err(Error::Proto);
        }
        proof {
            assert(cmd@.subrange(0, expected@.len() as int) =~= cmd@);
            assert(cmd@ == expected@);
            let olen = ascii_of("<"@ + "command"@ + ">"@).len() as int;
            let w = choose|a: int, b: int|
                match_at(doc@, ascii_of("<"@ + "command"@ + ">"@), a) && match_at(
                    doc@,
                    ascii_of("</"@ + "command"@ + ">"@),
                    b,
                ) && a + ascii_of("<"@ + "command"@ + ">"@).len() <= b && cmd@ == doc@.subrange(
                    a + ascii_of("<"@ + "command"@ + ">"@).len(),
                    b,
                );
            assert(cmd@ == doc@.subrange(w.0 + olen, w.1));
            assert(w.1 == w.0 + olen + cmd@.len());
            assert(doc@.subrange(w.0 + olen, w.0 + olen + cmd@.len() as int) =~= cmd@);
            assert(match_at(doc@, ascii_of("CMD:FILE-SYS-OPERATION"@), w.0 + olen));
        }
        match self.ack_ok() {
            Ok(_) => {},
            Err(e) => {
                return Err(e);
            },
        }
        let answer = op.default();
        proof {
            assert(answer@ == spec_fs_answer(op));
        }
        let ghost s1 = self.conn.port.sent();
        let r = self.ack_value(answer.as_slice());
        proof {
            crate::bytes::lemma_prefix_trans(s0, s1, self.conn.port.sent());
        }
        r
    }
}

/// Parses a packet length rendered either as decimal digits or as
/// `0x`-prefixed hexadecimal.
pub fn parse_packet_length(s: &[u8]) -> (r: Option<u64>)
    ensures
        r is Some ==> s@.len() > 0,
{
    if s.len() >= 2 {
        let b0 = s[0];
        let b1 = s[1];
        if b0 == 0x30 && (b1 == 0x78 || b1 == 0x58) {
            let digits = crate::dafile::copy_range(s, 2, s.len());
            return parse_hex(digits.as_slice());
        }
    }
    parse_dec(s)
}

/// Parses the device's valued acknowledgment `OK@0x<hex>`, NUL-terminated
/// or not.
pub fn parse_ok_value(s: &[u8]) -> (r: Option<u64>)
    ensures
        r is Some ==> {
            let end = if s@.len() > 5 && s@[s@.len() - 1] == 0 {
                s@.len() - 1
            } else {
                s@.len() as int
            };
            &&& s@.len() >= 5
            &&& s@.subrange(0, 5) == ascii_of("OK@0x"@)
            &&& r->0 == spec_hex_of(s@.subrange(5, end))
        },
{
    proof {
        reveal_strlit("OK@0x");
    }
    let prefix = crate::ascii::str_bytes("OK@0x");
    if s.len() < prefix.len() {
        return None;
    }
    if !crate::scan::is_match_at(s, prefix.as_slice(), 0) {
        return None;
    }
    let end = if s.len() > 5 && s[s.len() - 1] == 0 {
        s.len() - 1
    } else {
        s.len()
    };
    let digits = crate::dafile::copy_range(s, 5, end);
    parse_hex(digits.as_slice())
}


impl<P: MtkPort> Xml<P> {
    /// Uploads stage 1 through the preloader, jumps into it, and performs
    /// the runtime-parameter, capability and hardware-init exchanges.
    #[verifier::rlimit(100)]
    #[verifier::spinoff_prover]
    pub fn upload_stage1(&mut self, addr: u32, length: u32, data: &[u8], sig_len: u32) -> (r:
        Result<(), Error>)
        ensures
            final(self).meta_kept(*old(self)),
            final(self).da == old(self).da,
            old(self).conn.port.sent().is_prefix_of(final(self).conn.port.sent()),
            r is Ok ==> spec_stage1_lead(addr, length, sig_len, data@).is_prefix_of(
                final(self).conn.port.sent().skip(old(self).conn.port.sent().len() as int),
            ),
            r is Ok ==> crate::scan::contains_bytes(
                final(self).conn.port.sent().skip(old(self).conn.port.sent().len() as int),
                spec_frame(DT_PROTOCOL_FLOW, spec_runtime_doc()),
            ),
    {
        proof {
            reveal_strlit("NONE");
            reveal_strlit("AUTO-DETECT");
            reveal_strlit("INFO");
            reveal_strlit("UART");
            reveal_strlit("LINUX");
            reveal_strlit("YES");
        }
        let ghost s0 = self.conn.port.sent();
        match self.conn.send_da(data, length, addr, sig_len) {
            Ok(_) => {},
            Err(e) => {
                proof {
                    crate::bytes::lemma_prefix_refl(self.conn.port.sent());
                }
                return Err(e);
            },
        }
        proof {
            crate::bytes::lemma_prefix_append(
                s0,
                self.conn.port.sent().skip(s0.len() as int),
            );
            assert(s0 + self.conn.port.sent().skip(s0.len() as int) =~= self.conn.port.sent());
        }
        let ghost s_da = self.conn.port.sent();
        match self.conn.jump_da(addr) {
            Ok(_) => {},
            Err(e) => {
                proof {
                    lemma_sent_extends(s0, s_da, self.conn.port.sent());
                }
                return Err(e);
            },
        }
        let ghost s1 = self.conn.port.sent();
        proof {
            lemma_sent_extends(s0, s_da, self.conn.port.sent());
            let lead = spec_stage1_lead(addr, length, sig_len, data@);
            let head = seq![crate::connection::CMD_SEND_DA] + crate::bytes::be32_bytes(addr)
                + crate::bytes::be32_bytes(length) + crate::bytes::be32_bytes(sig_len) + data@;
            let tail = seq![crate::connection::CMD_JUMP_DA] + crate::bytes::le32_bytes(addr);
            assert(lead =~= head + tail);
            assert(s_da == s0 + head);
            assert(s1 == s_da + tail);
            assert(s1 =~= s0 + lead);
        }
        let runtime = crate::xml::cmds::SetRuntimeParameter {
            checksum_level: String::from_str("NONE"),
            battery_exist: String::from_str("AUTO-DETECT"),
            da_log_level: String::from_str("INFO"),
            log_channel: String::from_str("UART"),
            system_os: String::from_str("LINUX"),
            init_dram: String::from_str("YES"),
        };
        proof {
            assert(runtime.spec_xml() == spec_runtime_doc());
        }
        let ghost s2 = self.conn.port.sent();
        match self.send_cmd(&runtime) {
            Ok(true) => {},
            Ok(false) => {
                proof {
                    lemma_sent_extends(s0, s2, self.conn.port.sent());
                }
                return Err(Error::Xml(XmlErrorKind::UnsupportedCmd));
            },
            Err(e) => {
                proof {
                    lemma_sent_extends(s0, s2, self.conn.port.sent());
                }
                return Err(e);
            },
        }
        let ghost s3 = self.conn.port.sent();
        proof {
            // The runtime document sits right after the opening-marker
            // acknowledgment of its exchange.
            let f = spec_frame(DT_PROTOCOL_FLOW, spec_runtime_doc());
            let okf = spec_frame(DT_PROTOCOL_FLOW, spec_ok_bytes());
            assert(s3 =~= s2 + (okf + f));
            let app = s3.skip(s0.len() as int);
            let off = s2.len() - s0.len() + okf.len();
            assert forall|k: int| 0 <= k < f.len() implies app[off + k] == f[k] by {
                assert(app[off + k] == s3[s2.len() + okf.len() + k]);
                assert(s3[s2.len() + okf.len() + k] == (okf + f)[okf.len() + k]);
                assert((okf + f)[okf.len() + k] == f[k]);
            };
            assert(app.subrange(off, off + f.len() as int) =~= f);
            assert(crate::scan::match_at(app, f, off));
        }
        match self.lifetime_ack(XmlCmdLifetime::CmdEnd) {
            Ok(_) => {},
            Err(e) => {
                proof {
                    lemma_sent_extends(s0, s3, self.conn.port.sent());
                    crate::scan::lemma_contains_in_extension(
                        s3,
                        self.conn.port.sent(),
                        s0.len() as int,
                        spec_frame(DT_PROTOCOL_FLOW, spec_runtime_doc()),
                    );
                    crate::bytes::lemma_skip_prefix(s0.len() as int, s1, self.conn.port.sent());
                }
                return Err(e);
            },
        }
        let ghost s4 = self.conn.port.sent();
        let r = self.setup_after_boot();
        proof {
            lemma_sent_extends(s0, s4, self.conn.port.sent());
            crate::scan::lemma_contains_in_extension(
                s3,
                self.conn.port.sent(),
                s0.len() as int,
                spec_frame(DT_PROTOCOL_FLOW, spec_runtime_doc()),
            );
            crate::bytes::lemma_skip_prefix(s0.len() as int, s1, self.conn.port.sent());
            assert(s1.skip(s0.len() as int) =~= spec_stage1_lead(addr, length, sig_len, data@));
        }
        r
    }

    /// The capability announcement and hardware-init wait shared by both
    /// stages: the host lists the sub-commands it answers, asks for the
    /// hardware, and consumes the progress report and the closing marker.
    #[verifier::rlimit(100)]
    #[verifier::spinoff_prover]
    pub fn setup_after_boot(&mut self) -> (r: Result<(), Error>)
        ensures
            final(self).meta_kept(*old(self)),
            final(self).da == old(self).da,
            old(self).conn.port.sent().is_prefix_of(final(self).conn.port.sent()),
            r is Ok ==> crate::scan::contains_bytes(
                final(self).conn.port.sent().skip(old(self).conn.port.sent().len() as int),
                spec_frame(DT_PROTOCOL_FLOW, spec_caps_doc()),
            ) && crate::scan::contains_bytes(
                final(self).conn.port.sent().skip(old(self).conn.port.sent().len() as int),
                spec_frame(DT_PROTOCOL_FLOW, spec_notify_doc()),
            ),
    {
        proof {
            reveal_strlit(
                "CMD:DOWNLOAD-FILE^1@CMD:FILE-SYS-OPERATION^1@CMD:PROGRESS-REPORT^1@CMD:UPLOAD-FILE^1@",
            );
        }
        let ghost s0 = self.conn.port.sent();
        let caps = crate::xml::cmds::HostSupportedCommands {
            host_capability: String::from_str(crate::xml::cmds::HOST_CMDS),
        };
        proof {
            assert(caps.spec_xml() == spec_caps_doc());
        }
        let caps_taken = match self.send_cmd(&caps) {
            Ok(b) => b,
            Err(e) => {
                return Err(e);
            },
        };
        let ghost s1 = self.conn.port.sent();
        proof {
            // Either outcome sent the announcement right after the opening
            // acknowledgment.
            let f = spec_frame(DT_PROTOCOL_FLOW, spec_caps_doc());
            let okf = spec_frame(DT_PROTOCOL_FLOW, spec_ok_bytes());
            if caps_taken {
                assert(s1 =~= s0 + (okf + f));
            } else {
                assert(s1 =~= s0 + (okf + f) + okf);
            }
            let app = s1.skip(s0.len() as int);
            assert forall|k: int| 0 <= k < f.len() implies app[okf.len() + k] == f[k] by {
                assert(app[okf.len() + k] == s1[s0.len() + okf.len() + k]);
                if caps_taken {
                    assert(s1[s0.len() + okf.len() + k] == (okf + f)[okf.len() + k]);
                } else {
                    assert(s1[s0.len() + okf.len() + k] == (okf + f)[okf.len() + k]);
                }
                assert((okf + f)[okf.len() + k] == f[k]);
            };
            assert(app.subrange(okf.len() as int, okf.len() + f.len() as int) =~= f);
            assert(crate::scan::match_at(app, f, okf.len() as int));
        }
        match self.lifetime_ack(XmlCmdLifetime::CmdEnd) {
            Ok(_) => {},
            Err(e) => {
                proof {
                    lemma_sent_extends(s0, s1, self.conn.port.sent());
                }
                return Err(e);
            },
        }
        let notify = crate::xml::cmds::NotifyInitHw {};
        proof {
            assert(notify.spec_xml() == spec_notify_doc());
        }
        let ghost s2 = self.conn.port.sent();
        let notify_taken = match self.send_cmd(&notify) {
            Ok(b) => b,
            Err(e) => {
                proof {
                    lemma_sent_extends(s0, s2, self.conn.port.sent());
                }
                return Err(e);
            },
        };
        let ghost s3 = self.conn.port.sent();
        proof {
            let f = spec_frame(DT_PROTOCOL_FLOW, spec_notify_doc());
            let okf = spec_frame(DT_PROTOCOL_FLOW, spec_ok_bytes());
            if notify_taken {
                assert(s3 =~= s2 + (okf + f));
            } else {
                assert(s3 =~= s2 + (okf + f) + okf);
            }
            let app = s3.skip(s0.len() as int);
            let off = s2.len() - s0.len() + okf.len();
            assert forall|k: int| 0 <= k < f.len() implies app[off + k] == f[k] by {
                assert(app[off + k] == s3[s2.len() + okf.len() + k]);
                assert(s3[s2.len() + okf.len() + k] == (okf + f)[okf.len() + k]);
                assert((okf + f)[okf.len() + k] == f[k]);
            };
            assert(app.subrange(off, off + f.len() as int) =~= f);
            assert(crate::scan::match_at(app, f, off));
            crate::scan::lemma_contains_in_extension(
                s1,
                s3,
                s0.len() as int,
                spec_frame(DT_PROTOCOL_FLOW, spec_caps_doc()),
            );
        }
        match self.progress_report() {
            Ok(_) => {},
            Err(e) => {
                proof {
                    lemma_sent_extends(s0, s3, self.conn.port.sent());
                }
                return Err(e);
            },
        }
        let ghost s4 = self.conn.port.sent();
        let r = self.lifetime_ack(XmlCmdLifetime::CmdEnd);
        proof {
            lemma_sent_extends(s0, s4, self.conn.port.sent());
            crate::scan::lemma_contains_in_extension(
                s3,
                self.conn.port.sent(),
                s0.len() as int,
                spec_frame(DT_PROTOCOL_FLOW, spec_caps_doc()),
            );
            crate::scan::lemma_contains_in_extension(
                s3,
                self.conn.port.sent(),
                s0.len() as int,
                spec_frame(DT_PROTOCOL_FLOW, spec_notify_doc()),
            );
        }
        r
    }

    /// Pushes stage 2 to its load address through the boot command and the
    /// download sub-protocol, and consumes the closing marker.
    pub fn boot_to(&mut self, addr: u32, data: &[u8]) -> (r: Result<bool, Error>)
        ensures
            final(self).meta_kept(*old(self)),
            final(self).da == old(self).da,
            old(self).conn.port.sent().is_prefix_of(final(self).conn.port.sent()),
            r is Ok ==> r->Ok_0 == true,
            r is Ok ==> exists|plen: int|
                plen > 0 && final(self).conn.port.sent() == old(self).conn.port.sent()
                    + spec_frame(DT_PROTOCOL_FLOW, spec_ok_bytes()) + spec_frame(
                    DT_PROTOCOL_FLOW,
                    (crate::xml::cmds::BootTo {
                        at_addr: addr as u64,
                        jmp_addr: addr as u64,
                        host_offset: 0,
                        length: data@.len() as u64,
                    }).spec_xml(),
                ) + spec_frame(DT_PROTOCOL_FLOW, spec_ok_bytes()) + spec_frame(
                    DT_PROTOCOL_FLOW,
                    spec_ok_value_bytes(
                        crate::xml::cmds::spec_hex_lower(data@.len() as nat),
                    ),
                ) + #[trigger] spec_xml_dl_chunks(data@, plen) + spec_frame(
                    DT_PROTOCOL_FLOW,
                    spec_ok_bytes(),
                ),
    {
        let cmd = crate::xml::cmds::BootTo {
            at_addr: addr as u64,
            jmp_addr: addr as u64,
            host_offset: 0,
            length: data.len() as u64,
        };
        let ghost s0 = self.conn.port.sent();
        match self.send_cmd(&cmd) {
            Ok(true) => {},
            Ok(false) => {
                return Err(Error::Xml(XmlErrorKind::UnsupportedCmd));
            },
            Err(e) => {
                return Err(e);
            },
        }
        let ghost s1 = self.conn.port.sent();
        match self.download_file(data) {
            Ok(_) => {},
            Err(e) => {
                proof {
                    lemma_sent_extends(s0, s1, self.conn.port.sent());
                }
                return Err(e);
            },
        }
        let ghost s2 = self.conn.port.sent();
        let r = self.lifetime_ack(XmlCmdLifetime::CmdEnd);
        proof {
            lemma_sent_extends(s0, s2, self.conn.port.sent());
        }
        match r {
            Ok(_) => Ok(true),
            Err(e) => Err(e),
        }
    }

    /// Brings the agent up: stage 1 with its setup, then stage 2 without
    /// its trailing signature, then the capability and hardware exchanges
    /// at the agent's speed.
    #[verifier::rlimit(100)]
    #[verifier::spinoff_prover]
    pub fn upload_da(&mut self) -> (r: Result<bool, Error>)
        ensures
            final(self).meta_kept(*old(self)),
            old(self).conn.port.sent().is_prefix_of(final(self).conn.port.sent()),
            r is Ok ==> r->Ok_0 == true && old(self).da.regions@.len() >= 3,
            r is Ok ==> spec_stage1_lead(
                old(self).da.regions@[1].addr,
                old(self).da.regions@[1].length,
                old(self).da.regions@[1].sig_len,
                old(self).da.regions@[1].data@,
            ).is_prefix_of(
                final(self).conn.port.sent().skip(old(self).conn.port.sent().len() as int),
            ),
            r is Ok ==> crate::scan::contains_bytes(
                final(self).conn.port.sent().skip(old(self).conn.port.sent().len() as int),
                spec_frame(
                    DT_PROTOCOL_FLOW,
                    (crate::xml::cmds::BootTo {
                        at_addr: old(self).da.regions@[2].addr as u64,
                        jmp_addr: old(self).da.regions@[2].addr as u64,
                        host_offset: 0,
                        length: crate::xflash::proto::spec_da2_payload(old(self).da).len() as u64,
                    }).spec_xml(),
                ),
            ),
            r is Ok ==> crate::scan::contains_bytes(
                final(self).conn.port.sent().skip(old(self).conn.port.sent().len() as int),
                spec_frame(DT_PROTOCOL_FLOW, spec_caps_doc()),
            ),
    {
        let ghost s0 = self.conn.port.sent();
        let da1 = match self.da.get_da1() {
            Some(region) => region.duplicate(),
            None => {
                return Err(Error::Core);
            },
        };
        match self.upload_stage1(da1.addr, da1.length, da1.data.as_slice(), da1.sig_len) {
            Ok(_) => {},
            Err(e) => {
                return Err(e);
            },
        }
        let ghost s1 = self.conn.port.sent();
        let da2 = match self.da.get_da2() {
            Some(region) => region.duplicate(),
            None => {
                return Err(Error::Core);
            },
        };
        let da2_end = if (da2.sig_len as u64) <= da2.data.len() as u64 {
            da2.data.len() - da2.sig_len as usize
        } else {
            0
        };
        let da2_data = crate::dafile::copy_range(da2.data.as_slice(), 0, da2_end);
        proof {
            assert(da2_data@ =~= crate::xflash::proto::spec_da2_payload(self.da));
        }
        let ghost s2 = self.conn.port.sent();
        match self.boot_to(da2.addr, da2_data.as_slice()) {
            Ok(true) => {},
            Ok(false) => {
                proof {
                    lemma_sent_extends(s0, s2, self.conn.port.sent());
                }
                return Err(Error::Proto);
            },
            Err(e) => {
                proof {
                    lemma_sent_extends(s0, s2, self.conn.port.sent());
                }
                return Err(e);
            },
        }
        let ghost s3 = self.conn.port.sent();
        proof {
            lemma_sent_extends(s0, s2, self.conn.port.sent());
            // The boot document sits after the opening acknowledgment of
            // its exchange.
            let f = spec_frame(
                DT_PROTOCOL_FLOW,
                (crate::xml::cmds::BootTo {
                    at_addr: da2.addr as u64,
                    jmp_addr: da2.addr as u64,
                    host_offset: 0,
                    length: da2_data@.len() as u64,
                }).spec_xml(),
            );
            let okf = spec_frame(DT_PROTOCOL_FLOW, spec_ok_bytes());
            let app = s3.skip(s0.len() as int);
            let off = s2.len() - s0.len() + okf.len();
            assert forall|k: int| 0 <= k < f.len() implies app[off + k] == f[k] by {
                assert(app[off + k] == s3[s2.len() + okf.len() + k]);
            };
            assert(app.subrange(off, off + f.len() as int) =~= f);
            assert(crate::scan::match_at(app, f, off));
        }
        let ghost s4 = self.conn.port.sent();
        match self.setup_after_boot() {
            Ok(_) => {},
            Err(e) => {
                proof {
                    lemma_sent_extends(s0, s4, self.conn.port.sent());
                }
                return Err(e);
            },
        }
        proof {
            lemma_sent_extends(s0, s4, self.conn.port.sent());
            crate::bytes::lemma_skip_prefix(s0.len() as int, s1, self.conn.port.sent());
            crate::bytes::lemma_prefix_trans(
                spec_stage1_lead(da1.addr, da1.length, da1.sig_len, da1.data@),
                s1.skip(s0.len() as int),
                self.conn.port.sent().skip(s0.len() as int),
            );
            crate::scan::lemma_contains_in_extension(
                s3,
                self.conn.port.sent(),
                s0.len() as int,
                spec_frame(
                    DT_PROTOCOL_FLOW,
                    (crate::xml::cmds::BootTo {
                        at_addr: da2.addr as u64,
                        jmp_addr: da2.addr as u64,
                        host_offset: 0,
                        length: da2_data@.len() as u64,
                    }).spec_xml(),
                ),
            );
            // The capability announcement of the post-boot setup lands in
            // the same window.
            let caps = spec_frame(DT_PROTOCOL_FLOW, spec_caps_doc());
            let i = choose|i: int|
                crate::scan::match_at(self.conn.port.sent().skip(s4.len() as int), caps, i);
            assert(self.conn.port.sent().skip(s0.len() as int).subrange(
                s4.len() - s0.len() + i,
                s4.len() - s0.len() + i + caps.len() as int,
            ) =~= self.conn.port.sent().skip(s4.len() as int).subrange(i, i + caps.len() as int));
            assert(crate::scan::match_at(
                self.conn.port.sent().skip(s0.len() as int),
                caps,
                s4.len() - s0.len() + i,
            ));
        }
        Ok(true)
    }

    /// Flashes a whole partition by name through the write command and the
    /// download sub-protocol.
    pub fn download(&mut self, part_name: &str, data: &[u8]) -> (r: Result<(), Error>)
        requires
            part_name.is_ascii(),
        ensures
            final(self).meta_kept(*old(self)),
            final(self).da == old(self).da,
            old(self).conn.port.sent().is_prefix_of(final(self).conn.port.sent()),
            r is Ok ==> exists|plen: int|
                plen > 0 && final(self).conn.port.sent() == old(self).conn.port.sent()
                    + spec_frame(DT_PROTOCOL_FLOW, spec_ok_bytes()) + spec_frame(
                    DT_PROTOCOL_FLOW,
                    spec_write_partition_doc(part_name@),
                ) + spec_frame(DT_PROTOCOL_FLOW, spec_ok_bytes()) + spec_frame(
                    DT_PROTOCOL_FLOW,
                    spec_ok_value_bytes(
                        crate::xml::cmds::spec_hex_lower(data@.len() as nat),
                    ),
                ) + #[trigger] spec_xml_dl_chunks(data@, plen) + spec_frame(
                    DT_PROTOCOL_FLOW,
                    spec_ok_bytes(),
                ),
    {
        let cmd = crate::xml::cmds::WritePartition { partition: String::from_str(part_name) };
        proof {
            assert(cmd.spec_xml() == spec_write_partition_doc(part_name@));
        }
        let ghost s0 = self.conn.port.sent();
        match self.send_cmd(&cmd) {
            Ok(true) => {},
            Ok(false) => {
                return Err(Error::Xml(XmlErrorKind::UnsupportedCmd));
            },
            Err(e) => {
                return Err(e);
            },
        }
        let ghost s1 = self.conn.port.sent();
        match self.download_file(data) {
            Ok(_) => {},
            Err(e) => {
                proof {
                    lemma_sent_extends(s0, s1, self.conn.port.sent());
                }
                return Err(e);
            },
        }
        let ghost s2 = self.conn.port.sent();
        let r = self.lifetime_ack(XmlCmdLifetime::CmdEnd);
        proof {
            lemma_sent_extends(s0, s2, self.conn.port.sent());
        }
        r
    }

    /// Reads a whole partition back by name through the read command and
    /// the upload sub-protocol.
    pub fn upload(&mut self, part_name: &str) -> (r: Result<Vec<u8>, Error>)
        requires
            part_name.is_ascii(),
        ensures
            final(self).meta_kept(*old(self)),
            final(self).da == old(self).da,
            final(self).dev_info == old(self).dev_info,
            old(self).conn.port.sent().is_prefix_of(final(self).conn.port.sent()),
            r is Ok ==> (spec_frame(DT_PROTOCOL_FLOW, spec_ok_bytes()) + spec_frame(
                DT_PROTOCOL_FLOW,
                spec_read_partition_doc(part_name@),
            )).is_prefix_of(
                final(self).conn.port.sent().skip(old(self).conn.port.sent().len() as int),
            ),
    {
        let cmd = crate::xml::cmds::ReadPartition { partition: String::from_str(part_name) };
        proof {
            assert(cmd.spec_xml() == spec_read_partition_doc(part_name@));
        }
        let ghost s0 = self.conn.port.sent();
        match self.send_cmd(&cmd) {
            Ok(true) => {},
            Ok(false) => {
                return Err(Error::Xml(XmlErrorKind::UnsupportedCmd));
            },
            Err(e) => {
                return Err(e);
            },
        }
        proof {
            let lead = spec_frame(DT_PROTOCOL_FLOW, spec_ok_bytes()) + spec_frame(
                DT_PROTOCOL_FLOW,
                spec_read_partition_doc(part_name@),
            );
            assert(lead.is_prefix_of(self.conn.port.sent().skip(s0.len() as int))) by {
                assert(self.conn.port.sent().skip(s0.len() as int) =~= lead);
            }
        }
        let ghost s1 = self.conn.port.sent();
        let data = match self.upload_file() {
            Ok(d) => d,
            Err(e) => {
                proof {
                    lemma_sent_extends(s0, s1, self.conn.port.sent());
                }
                return Err(e);
            },
        };
        let ghost s2 = self.conn.port.sent();
        match self.lifetime_ack(XmlCmdLifetime::CmdEnd) {
            Ok(_) => {},
            Err(e) => {
                proof {
                    lemma_sent_extends(s0, s2, self.conn.port.sent());
                }
                return Err(e);
            },
        }
        proof {
            lemma_sent_extends(s0, s2, self.conn.port.sent());
        }
        Ok(data)
    }

    /// Probes the storage through the hardware-info query and caches the
    /// record parsed from the reported sizes.
    #[verifier::rlimit(100)]
    #[verifier::spinoff_prover]
    pub fn get_or_detect_storage(&mut self) -> (r: Option<crate::storage::Storage>)
        ensures
            final(self).meta_kept(*old(self)),
            final(self).da == old(self).da,
            old(self).conn.port.sent().is_prefix_of(final(self).conn.port.sent()),
            old(self).dev_info.data.storage is Some ==> r == old(self).dev_info.data.storage,
            r is Some ==> final(self).dev_info.data.storage == r,
            r is None ==> final(self).dev_info.data.storage == old(self).dev_info.data.storage,
            old(self).dev_info.data.storage is None && r is Some ==> crate::scan::contains_bytes(
                final(self).conn.port.sent().skip(old(self).conn.port.sent().len() as int),
                spec_frame(DT_PROTOCOL_FLOW, spec_hw_info_doc()),
            ),
            old(self).dev_info.data.storage is None && r is Some ==> {
                let av = old(self).conn.port.avail();
                exists|p: int|
                    #![trigger av.skip(p)]
                    {
                        let avr = av.skip(p);
                        let a1 = avr.skip(crate::xflash::proto::spec_frame_len(avr));
                        let a2 = a1.skip(crate::xflash::proto::spec_frame_len(a1));
                        let p1 = crate::xflash::proto::spec_frame_payload(a1);
                        let end = if p1.len() > 5 && p1[p1.len() - 1] == 0 {
                            p1.len() - 1
                        } else {
                            p1.len() as int
                        };
                        let record = spec_xml_ul_chunks(a2, spec_hex_of(p1.subrange(5, end)) as int);
                        &&& 0 <= p <= av.len()
                        &&& crate::xflash::proto::spec_frame_shape(avr)
                        &&& crate::xflash::proto::spec_frame_shape(a1)
                        &&& crate::scan::contains_bytes(
                            crate::xflash::proto::spec_frame_payload(avr),
                            ascii_of("CMD:UPLOAD-FILE"@),
                        )
                        &&& (r->0 is Emmc ==> crate::scan::contains_bytes(
                            record,
                            ascii_of("<storage>EMMC"@),
                        ))
                        &&& (r->0 is Ufs ==> crate::scan::contains_bytes(
                            record,
                            ascii_of("<storage>UFS"@),
                        ))
                    }
            },
    {
        proof {
            reveal_strlit("storage");
            reveal_strlit("EMMC");
            reveal_strlit("UFS");
            reveal_strlit("<");
            reveal_strlit(">");
            reveal_strlit("<storage>EMMC");
            reveal_strlit("<storage>UFS");
            reveal_strlit("boot1_size");
            reveal_strlit("boot2_size");
            reveal_strlit("rpmb_size");
            reveal_strlit("user_size");
            reveal_strlit("lua0_size");
            reveal_strlit("lua1_size");
            reveal_strlit("lua2_size");
        }
        if let Some(s) = self.dev_info.storage() {
            proof {
                crate::bytes::lemma_prefix_refl(self.conn.port.sent());
            }
            return Some(s);
        }
        let ghost s0 = self.conn.port.sent();
        let ghost av0 = self.conn.port.avail();
        let cmd = crate::xml::cmds::GetHwInfo {};
        proof {
            reveal_strlit("MEM://0x0:0x200000");
            assert(cmd.spec_xml() == spec_hw_info_doc());
        }
        let hw_taken = match self.send_cmd(&cmd) {
            Ok(b) => b,
            Err(_) => {
                return None;
            },
        };
        let ghost kc: int = choose|k: int|
            0 <= k <= av0.len() && self.conn.port.avail() == av0.skip(k);
        let ghost avr0 = self.conn.port.avail();
        let ghost s1 = self.conn.port.sent();
        proof {
            let f = spec_frame(DT_PROTOCOL_FLOW, spec_hw_info_doc());
            let okf = spec_frame(DT_PROTOCOL_FLOW, spec_ok_bytes());
            if hw_taken {
                assert(s1 =~= s0 + (okf + f));
            } else {
                assert(s1 =~= s0 + (okf + f) + okf);
            }
            let app = s1.skip(s0.len() as int);
            assert forall|k: int| 0 <= k < f.len() implies app[okf.len() + k] == f[k] by {
                assert(app[okf.len() + k] == s1[s0.len() + okf.len() + k]);
                assert(s1[s0.len() + okf.len() + k] == (okf + f)[okf.len() + k]);
                assert((okf + f)[okf.len() + k] == f[k]);
            };
            assert(app.subrange(okf.len() as int, okf.len() + f.len() as int) =~= f);
            assert(crate::scan::match_at(app, f, okf.len() as int));
        }
        let resp = match self.upload_file() {
            Ok(d) => d,
            Err(_) => {
                proof {
                    lemma_sent_extends(s0, s1, self.conn.port.sent());
                }
                return None;
            },
        };
        let ghost s2 = self.conn.port.sent();
        let _ = self.lifetime_ack(XmlCmdLifetime::CmdEnd);
        proof {
            lemma_sent_extends(s0, s2, self.conn.port.sent());
        }
        let kind = match get_tag(resp.as_slice(), "storage") {
            Ok(k) => k,
            Err(_) => {
                return None;
            },
        };
        let emmc_tag = crate::ascii::str_bytes("EMMC");
        let ufs_tag = crate::ascii::str_bytes("UFS");
        if kind.len() == emmc_tag.len() && crate::scan::is_match_at(
            kind.as_slice(),
            emmc_tag.as_slice(),
            0,
        ) {
            let boot1 = read_size_tag(resp.as_slice(), "boot1_size");
            let boot2 = read_size_tag(resp.as_slice(), "boot2_size");
            let rpmb = read_size_tag(resp.as_slice(), "rpmb_size");
            let user = read_size_tag(resp.as_slice(), "user_size");
            if boot1.is_some() && boot2.is_some() {
                let storage = crate::storage::Storage::Emmc(
                    crate::storage::EmmcStorage {
                        boot1_size: boot1.unwrap(),
                        boot2_size: boot2.unwrap(),
                        rpmb_size: rpmb.unwrap_or(0),
                        ua_size: user.unwrap_or(0),
                    },
                );
                self.dev_info.set_storage(storage);
                proof {
                    crate::scan::lemma_contains_in_extension(
                        s1,
                        self.conn.port.sent(),
                        s0.len() as int,
                        spec_frame(DT_PROTOCOL_FLOW, spec_hw_info_doc()),
                    );
                    assert(kind@.subrange(0, emmc_tag@.len() as int) =~= kind@);
                    assert(kind@ == emmc_tag@);
                    let olen = ascii_of("<"@ + "storage"@ + ">"@).len() as int;
                    let w = choose|a: int, b: int|
                        match_at(resp@, ascii_of("<"@ + "storage"@ + ">"@), a) && match_at(
                            resp@,
                            ascii_of("</"@ + "storage"@ + ">"@),
                            b,
                        ) && a + ascii_of("<"@ + "storage"@ + ">"@).len() <= b && kind@
                            == resp@.subrange(
                            a + ascii_of("<"@ + "storage"@ + ">"@).len(),
                            b,
                        );
                    assert(kind@ == resp@.subrange(w.0 + olen, w.1));
                    assert(w.1 == w.0 + olen + kind@.len());
                    assert(resp@.subrange(w.0 + olen, w.0 + olen + kind@.len() as int) =~= kind@);
                    assert(ascii_of("<storage>EMMC"@) =~= ascii_of("<"@ + "storage"@ + ">"@)
                        + ascii_of("EMMC"@));
                    assert(resp@.subrange(w.0, w.0 + ascii_of("<storage>EMMC"@).len() as int)
                        =~= ascii_of("<storage>EMMC"@));
                    assert(match_at(resp@, ascii_of("<storage>EMMC"@), w.0));
                    assert(avr0 == av0.skip(kc));
                }
                return Some(storage);
            }
            return None;
        }
        if kind.len() == ufs_tag.len() && crate::scan::is_match_at(
            kind.as_slice(),
            ufs_tag.as_slice(),
            0,
        ) {
            let lu0 = read_size_tag(resp.as_slice(), "lua0_size");
            let lu1 = read_size_tag(resp.as_slice(), "lua1_size");
            let lu2 = read_size_tag(resp.as_slice(), "lua2_size");
            if lu0.is_some() && lu1.is_some() && lu2.is_some() {
                let storage = crate::storage::Storage::Ufs(
                    crate::storage::UfsStorage {
                        lu0_size: lu0.unwrap(),
                        lu1_size: lu1.unwrap(),
                        lu2_size: lu2.unwrap(),
                    },
                );
                self.dev_info.set_storage(storage);
                proof {
                    crate::scan::lemma_contains_in_extension(
                        s1,
                        self.conn.port.sent(),
                        s0.len() as int,
                        spec_frame(DT_PROTOCOL_FLOW, spec_hw_info_doc()),
                    );
                    assert(kind@.subrange(0, ufs_tag@.len() as int) =~= kind@);
                    assert(kind@ == ufs_tag@);
                    let olen = ascii_of("<"@ + "storage"@ + ">"@).len() as int;
                    let w = choose|a: int, b: int|
                        match_at(resp@, ascii_of("<"@ + "storage"@ + ">"@), a) && match_at(
                            resp@,
                            ascii_of("</"@ + "storage"@ + ">"@),
                            b,
                        ) && a + ascii_of("<"@ + "storage"@ + ">"@).len() <= b && kind@
                            == resp@.subrange(
                            a + ascii_of("<"@ + "storage"@ + ">"@).len(),
                            b,
                        );
                    assert(kind@ == resp@.subrange(w.0 + olen, w.1));
                    assert(w.1 == w.0 + olen + kind@.len());
                    assert(resp@.subrange(w.0 + olen, w.0 + olen + kind@.len() as int) =~= kind@);
                    assert(ascii_of("<storage>UFS"@) =~= ascii_of("<"@ + "storage"@ + ">"@)
                        + ascii_of("UFS"@));
                    assert(resp@.subrange(w.0, w.0 + ascii_of("<storage>UFS"@).len() as int)
                        =~= ascii_of("<storage>UFS"@));
                    assert(match_at(resp@, ascii_of("<storage>UFS"@), w.0));
                    assert(avr0 == av0.skip(kc));
                }
                return Some(storage);
            }
            return None;
        }
        None
    }

    /// Asks the agent to reboot the device with the named action.
    pub fn reboot(&mut self, action: &str) -> (r: Result<(), Error>)
        requires
            action.is_ascii(),
        ensures
            final(self).meta_kept(*old(self)),
            final(self).da == old(self).da,
            old(self).conn.port.sent().is_prefix_of(final(self).conn.port.sent()),
            r is Ok ==> final(self).conn.port.sent() == old(self).conn.port.sent() + spec_frame(
                DT_PROTOCOL_FLOW,
                spec_ok_bytes(),
            ) + spec_frame(DT_PROTOCOL_FLOW, spec_reboot_doc(action@)) + spec_frame(
                DT_PROTOCOL_FLOW,
                spec_ok_bytes(),
            ),
    {
        let cmd = crate::xml::cmds::Reboot { action: String::from_str(action) };
        proof {
            assert(cmd.spec_xml() == spec_reboot_doc(action@));
        }
        let ghost s0 = self.conn.port.sent();
        match self.send_cmd(&cmd) {
            Ok(true) => {},
            Ok(false) => {
                return Err(Error::Xml(XmlErrorKind::UnsupportedCmd));
            },
            Err(e) => {
                return Err(e);
            },
        }
        let ghost s1 = self.conn.port.sent();
        let r = self.lifetime_ack(XmlCmdLifetime::CmdEnd);
        proof {
            lemma_sent_extends(s0, s1, self.conn.port.sent());
        }
        r
    }

    /// Erases a whole partition by name: the request goes out framed, and
    /// the agent closes the command with its end-of-life acknowledgement.
    pub fn erase_partition(&mut self, partition: &str) -> (r: Result<(), Error>)
        requires
            partition.is_ascii(),
        ensures
            final(self).meta_kept(*old(self)),
            final(self).da == old(self).da,
            old(self).conn.port.sent().is_prefix_of(final(self).conn.port.sent()),
            r is Ok ==> final(self).conn.port.sent() == old(self).conn.port.sent() + spec_frame(
                DT_PROTOCOL_FLOW,
                spec_ok_bytes(),
            ) + spec_frame(DT_PROTOCOL_FLOW, spec_erase_doc(partition@)) + spec_frame(
                DT_PROTOCOL_FLOW,
                spec_ok_bytes(),
            ),
    {
        let cmd = crate::xml::cmds::ErasePartition { partition: String::from_str(partition) };
        proof {
            assert(cmd.spec_xml() == spec_erase_doc(partition@));
        }
        let ghost s0 = self.conn.port.sent();
        match self.send_cmd(&cmd) {
            Ok(true) => {},
            Ok(false) => {
                return Err(Error::Xml(XmlErrorKind::UnsupportedCmd));
            },
            Err(e) => {
                return Err(e);
            },
        }
        let ghost s1 = self.conn.port.sent();
        let r = self.lifetime_ack(XmlCmdLifetime::CmdEnd);
        proof {
            lemma_sent_extends(s0, s1, self.conn.port.sent());
        }
        r
    }

    /// Re-marks the connection stage, once the agent is running.
    pub fn set_connection_type(&mut self, conn_type: crate::port::ConnectionType)
        ensures
            final(self).conn.connection_type == conn_type,
            final(self).conn.port == old(self).conn.port,
            final(self).da == old(self).da,
            final(self).dev_info == old(self).dev_info,
    {
        self.conn.connection_type = conn_type;
    }
}

/// One size element of the hardware record, hexadecimal or decimal.
fn read_size_tag(doc: &[u8], tag: &str) -> (r: Option<u64>)
    requires
        tag.is_ascii(),
{
    match get_tag(doc, tag) {
        Ok(v) => parse_packet_length(v.as_slice()),
        Err(_) => None,
    }
}

/// A stream that a call only appended to still opens what a later call
/// appended to it.
pub proof fn lemma_sent_extends(s0: Seq<u8>, s1: Seq<u8>, s2: Seq<u8>)
    requires
        s0.is_prefix_of(s1),
        s1.is_prefix_of(s2),
    ensures
        s0.is_prefix_of(s2),
{
    crate::bytes::lemma_prefix_trans(s0, s1, s2);
}

} // verus!
