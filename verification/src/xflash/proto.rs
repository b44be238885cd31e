//! The XFlash protocol driver: framed exchanges, status interpretation,
//! stage-1 upload, the device-control sub-protocol, and the jump into
//! stage 2.
use vstd::prelude::*;

use crate::bytes::{be32_bytes, le16_of, le32_bytes, le32_of, le64_bytes};
use crate::connection::Connection;
use crate::dafile::DA;
use crate::devinfo::DeviceInfo;
use crate::error::Error;
use crate::framing::{spec_frame, spec_frame_header, DT_PROTOCOL_FLOW, FRAME_MAGIC};
use crate::port::MtkPort;
use crate::xflash::cmds::{spec_cmd_code, Cmd};

verus! {

broadcast use crate::bytes::lemma_prefix_reflexive, crate::bytes::lemma_prefix_chain;

/// The sync word both sides treat as success.
pub const SYNC_SIGNAL: u32 = 0x434E5953;

/// A received frame shape: a full header with the right magic, and the
/// announced payload present.
pub open spec fn spec_frame_shape(av: Seq<u8>) -> bool {
    &&& av.len() >= 12
    &&& le32_of(av.subrange(0, 4)) == FRAME_MAGIC
    &&& 12 + le32_of(av.subrange(8, 12)) <= av.len()
}

/// Bytes the frame at the front of `av` occupies.
pub open spec fn spec_frame_len(av: Seq<u8>) -> int {
    12 + le32_of(av.subrange(8, 12))
}

/// The payload of the frame at the front of `av`.
pub open spec fn spec_frame_payload(av: Seq<u8>) -> Seq<u8> {
    av.subrange(12, spec_frame_len(av))
}

/// How a status payload is read: two bytes little-endian; four bytes as a
/// word, with the bare magic meaning success; longer payloads by their
/// first word; a stray short payload by its first byte; silence as failure.
pub open spec fn spec_status_of(payload: Seq<u8>) -> u32 {
    if payload.len() == 2 {
        le16_of(payload) as u32
    } else if payload.len() == 4 {
        if le32_of(payload.subrange(0, 4)) == FRAME_MAGIC {
            0
        } else {
            le32_of(payload.subrange(0, 4))
        }
    } else if payload.len() > 4 {
        le32_of(payload.subrange(0, 4))
    } else if payload.len() >= 1 {
        payload[0] as u32
    } else {
        0xFFFFFFFF
    }
}

/// The status at the front of `av` reads as success.
pub open spec fn spec_status_ok(av: Seq<u8>) -> bool {
    spec_status_of(spec_frame_payload(av)) == 0 || spec_status_of(spec_frame_payload(av))
        == SYNC_SIGNAL
}

/// The five-word environment setup parameter of stage 1.
pub open spec fn spec_env_param() -> Seq<u8> {
    le32_bytes(2) + le32_bytes(1) + le32_bytes(1) + le32_bytes(0) + le32_bytes(0)
}

/// Everything stage-1 upload writes: the agent stage through the preloader
/// commands, the jump, the sync word, and the two setup exchanges.
pub open spec fn spec_stage1_tx(addr: u32, da_len: u32, sig_len: u32, data: Seq<u8>) -> Seq<u8> {
    seq![crate::connection::CMD_SEND_DA] + be32_bytes(addr) + be32_bytes(da_len) + be32_bytes(
        sig_len,
    ) + data + seq![crate::connection::CMD_JUMP_DA] + le32_bytes(addr) + spec_frame_header(
        DT_PROTOCOL_FLOW,
        4,
    ) + le32_bytes(SYNC_SIGNAL) + spec_frame_header(DT_PROTOCOL_FLOW, 4) + le32_bytes(0x010100)
        + spec_frame(DT_PROTOCOL_FLOW, spec_env_param()) + spec_frame_header(DT_PROTOCOL_FLOW, 4)
        + le32_bytes(0x010101) + spec_frame(DT_PROTOCOL_FLOW, le32_bytes(0))
}

/// The frames of one packet-length negotiation: the device-control word
/// and the query word.
pub open spec fn spec_packet_len_tx() -> Seq<u8> {
    spec_frame(DT_PROTOCOL_FLOW, le32_bytes(spec_cmd_code(Cmd::DeviceCtrl))) + spec_frame(
        DT_PROTOCOL_FLOW,
        le32_bytes(spec_cmd_code(Cmd::GetPacketLength)),
    )
}

/// The frames of a stage-2 boot: the command word, the address-and-length
/// parameter, and the stage bytes.
pub open spec fn spec_boot_to_tx(addr: u32, data: Seq<u8>) -> Seq<u8> {
    spec_frame(DT_PROTOCOL_FLOW, le32_bytes(spec_cmd_code(Cmd::BootTo))) + spec_frame(
        DT_PROTOCOL_FLOW,
        le64_bytes(addr as u64) + le64_bytes(data.len() as u64),
    ) + spec_frame(DT_PROTOCOL_FLOW, data)
}

/// The stage-2 bytes an entry boots: its third region without the trailing
/// signature.
pub open spec fn spec_da2_payload(da: DA) -> Seq<u8>
    recommends
        da.regions.len() >= 3,
{
    let d = da.regions[2].data@;
    if da.regions[2].sig_len <= d.len() {
        d.take(d.len() - da.regions[2].sig_len)
    } else {
        d.take(0)
    }
}

/// Everything a full agent bring-up writes: stage 1 with its setup, a
/// packet-length negotiation, the stage-2 boot, and the renegotiation.
pub open spec fn spec_upload_da_tx(da: DA) -> Seq<u8>
    recommends
        da.regions.len() >= 3,
{
    spec_stage1_tx(
        da.regions[1].addr,
        da.regions[1].length,
        da.regions[1].sig_len,
        da.regions[1].data@,
    ) + spec_packet_len_tx() + spec_boot_to_tx(da.regions[2].addr, spec_da2_payload(da))
        + spec_packet_len_tx()
}

/// The XFlash driver over a port.
pub struct XFlash<P: MtkPort> {
    /// The preloader connection the driver was built on.
    pub conn: Connection<P>,
    /// The agent entry being driven.
    pub da: DA,
    /// Shared device record.
    pub dev_info: DeviceInfo,
    /// Negotiated size of frames the host may read.
    pub read_packet_length: Option<usize>,
    /// Negotiated size of chunks the host may write.
    pub write_packet_length: Option<usize>,
}

impl<P: MtkPort> XFlash<P> {
    /// The driver's bookkeeping is untouched.
    pub open spec fn meta_kept(self, o: Self) -> bool {
        self.conn.meta_kept(o.conn)
    }

    /// A driver over a fresh connection, packet sizes not yet negotiated.
    pub fn new(conn: Connection<P>, da: DA, dev_info: DeviceInfo) -> (r: XFlash<P>)
        ensures
            r.conn == conn,
            r.da == da,
            r.read_packet_length is None,
            r.write_packet_length is None,
    {
        XFlash { conn, da, dev_info, read_packet_length: None, write_packet_length: None }
    }

    /// Writes one frame: header, then the payload in negotiated chunks.
    #[verifier::loop_isolation(false)]
    pub fn send_frame(&mut self, payload: &[u8]) -> (r: Result<(), Error>)
        ensures
            final(self).meta_kept(*old(self)),
            final(self).da == old(self).da,
            final(self).dev_info == old(self).dev_info,
            final(self).read_packet_length == old(self).read_packet_length,
            final(self).write_packet_length == old(self).write_packet_length,
            old(self).conn.port.sent().is_prefix_of(final(self).conn.port.sent()),
            r is Ok ==> final(self).conn.port.sent() == old(self).conn.port.sent() + spec_frame(
                DT_PROTOCOL_FLOW,
                payload@,
            ) && final(self).conn.port.avail() == old(self).conn.port.avail(),
    {
        if payload.len() > u32::MAX as usize {
            return Err(Error::Core);
        }
        let hdr = crate::framing::generate_header(crate::framing::DT_PROTOCOL_FLOW, payload.len());
        match self.conn.port.write_all(hdr.as_slice()) {
            Ok(_) => {},
            Err(e) => {
                return Err(e);
            },
        }
        let chunk_size: usize = match self.write_packet_length {
            Some(c) => {
                if c == 0 {
                    0x8000
                } else {
                    c
                }
            },
            None => 0x8000,
        };
        let mut pos: usize = 0;
        while pos < payload.len()
            invariant
                pos <= payload@.len(),
                chunk_size > 0,
                self.conn.port.sent() == old(self).conn.port.sent() + spec_frame_header(
                    DT_PROTOCOL_FLOW,
                    payload@.len() as u32,
                ) + payload@.take(pos as int),
                self.conn.port.avail() == old(self).conn.port.avail(),
                self.conn.port.kind() == old(self).conn.port.kind(),
                self.conn.port.baud() == old(self).conn.port.baud(),
                self.conn.connection_type == old(self).conn.connection_type,
                self.conn.baudrate == old(self).conn.baudrate,
                self.da == old(self).da,
                self.dev_info == old(self).dev_info,
                self.read_packet_length == old(self).read_packet_length,
                self.write_packet_length == old(self).write_packet_length,
            decreases payload@.len() - pos,
        {
            let end = if payload.len() - pos < chunk_size {
                payload.len()
            } else {
                pos + chunk_size
            };
            let chunk = crate::dafile::copy_range(payload, pos, end);
            match self.conn.port.write_all(chunk.as_slice()) {
                Ok(_) => {},
                Err(e) => {
                    return Err(e);
                },
            }
            proof {
                assert(payload@.take(pos as int) + payload@.subrange(pos as int, end as int)
                    =~= payload@.take(end as int));
            }
            pos = end;
        }
        proof {
            assert(payload@.take(payload@.len() as int) =~= payload@);
            assert(old(self).conn.port.sent() + spec_frame_header(
                DT_PROTOCOL_FLOW,
                payload@.len() as u32,
            ) + payload@ =~= old(self).conn.port.sent() + spec_frame(DT_PROTOCOL_FLOW, payload@));
        }
        Ok(())
    }

    /// Reads one frame and interprets its payload as a status word; zero
    /// and the sync word are success, anything else is surfaced as the
    /// device's code.
    pub fn get_status(&mut self) -> (r: Result<u32, Error>)
        ensures
            final(self).meta_kept(*old(self)),
            final(self).da == old(self).da,
            final(self).dev_info == old(self).dev_info,
            final(self).read_packet_length == old(self).read_packet_length,
            final(self).write_packet_length == old(self).write_packet_length,
            final(self).conn.port.sent() == old(self).conn.port.sent(),
            r is Ok ==> {
                let av = old(self).conn.port.avail();
                &&& spec_frame_shape(av)
                &&& r->Ok_0 == spec_status_of(spec_frame_payload(av))
                &&& (r->Ok_0 == 0 || r->Ok_0 == SYNC_SIGNAL)
                &&& final(self).conn.port.avail() == av.skip(spec_frame_len(av))
            },
            r is Err ==> r->Err_0 is Io || r->Err_0 is Timeout || r->Err_0 is Proto || {
                let av = old(self).conn.port.avail();
                &&& spec_frame_shape(av)
                &&& r->Err_0 == Error::XFlash(spec_status_of(spec_frame_payload(av)))
                &&& final(self).conn.port.avail() == av.skip(spec_frame_len(av))
            },
    {
        let data = match self.read_frame() {
            Ok(d) => d,
            Err(e) => {
                return Err(e);
            },
        };
        let status: u32 = if data.len() == 2 {
            crate::bytes::read_le16(data.as_slice(), 0) as u32
        } else if data.len() == 4 {
            let v = crate::bytes::read_le32(data.as_slice(), 0);
            if v == FRAME_MAGIC {
                0
            } else {
                v
            }
        } else if data.len() > 4 {
            crate::bytes::read_le32(data.as_slice(), 0)
        } else if data.len() >= 1 {
            let b = data[0];
            b as u32
        } else {
            0xFFFFFFFF
        };
        proof {
            let av = old(self).conn.port.avail();
            let p = spec_frame_payload(av);
            if p.len() == 2 {
                assert(p.subrange(0, 2) =~= p);
            }
        }
        if status == 0 || status == SYNC_SIGNAL {
            Ok(status)
        } else {
            Err(Error::XFlash(status))
        }
    }

    /// Reads one frame and hands its payload back.
    pub fn read_frame(&mut self) -> (r: Result<Vec<u8>, Error>)
        ensures
            final(self).meta_kept(*old(self)),
            final(self).da == old(self).da,
            final(self).dev_info == old(self).dev_info,
            final(self).read_packet_length == old(self).read_packet_length,
            final(self).write_packet_length == old(self).write_packet_length,
            final(self).conn.port.sent() == old(self).conn.port.sent(),
            r is Err ==> r->Err_0 is Io || r->Err_0 is Timeout || r->Err_0 is Proto,
            r is Ok ==> {
                let av = old(self).conn.port.avail();
                &&& spec_frame_shape(av)
                &&& r->Ok_0@ == spec_frame_payload(av)
                &&& final(self).conn.port.avail() == av.skip(spec_frame_len(av))
            },
    {
        let hdr = match self.conn.port.read_exact(12) {
            Ok(h) => h,
            Err(e) => {
                return Err(e);
            },
        };
        let (_dtype, len) = match crate::framing::parse_header(hdr.as_slice()) {
            Ok(p) => p,
            Err(e) => {
                return Err(e);
            },
        };
        let data = match self.conn.port.read_exact(len as usize) {
            Ok(d) => d,
            Err(e) => {
                return Err(e);
            },
        };
        proof {
            let av = old(self).conn.port.avail();
            assert(hdr@ =~= av.take(12));
            assert(av.take(12).subrange(0, 4) =~= av.subrange(0, 4));
            assert(av.take(12).subrange(4, 8) =~= av.subrange(4, 8));
            assert(av.take(12).subrange(8, 12) =~= av.subrange(8, 12));
            assert(av.skip(12).take(len as int) =~= av.subrange(12, 12 + len));
            assert(av.skip(12).skip(len as int) =~= av.skip(12 + len));
        }
        Ok(data)
    }

    /// Writes one frame and consumes the status the device answers with.
    pub fn send(&mut self, payload: &[u8]) -> (r: Result<(), Error>)
        ensures
            final(self).meta_kept(*old(self)),
            final(self).da == old(self).da,
            final(self).dev_info == old(self).dev_info,
            final(self).read_packet_length == old(self).read_packet_length,
            final(self).write_packet_length == old(self).write_packet_length,
            old(self).conn.port.sent().is_prefix_of(final(self).conn.port.sent()),
            r is Ok ==> {
                let av = old(self).conn.port.avail();
                &&& final(self).conn.port.sent() == old(self).conn.port.sent() + spec_frame(
                    DT_PROTOCOL_FLOW,
                    payload@,
                )
                &&& spec_frame_shape(av)
                &&& spec_status_ok(av)
                &&& final(self).conn.port.avail() == av.skip(spec_frame_len(av))
            },
    {
        match self.send_frame(payload) {
            Ok(_) => {},
            Err(e) => {
                return Err(e);
            },
        }
        match self.get_status() {
            Ok(_) => Ok(()),
            Err(e) => Err(e),
        }
    }

    /// Writes one command word as a frame and consumes its status.
    pub fn send_cmd(&mut self, cmd: Cmd) -> (r: Result<(), Error>)
        ensures
            final(self).meta_kept(*old(self)),
            final(self).da == old(self).da,
            final(self).dev_info == old(self).dev_info,
            final(self).read_packet_length == old(self).read_packet_length,
            final(self).write_packet_length == old(self).write_packet_length,
            old(self).conn.port.sent().is_prefix_of(final(self).conn.port.sent()),
            r is Ok ==> {
                let av = old(self).conn.port.avail();
                &&& final(self).conn.port.sent() == old(self).conn.port.sent() + spec_frame(
                    DT_PROTOCOL_FLOW,
                    le32_bytes(spec_cmd_code(cmd)),
                )
                &&& spec_frame_shape(av)
                &&& spec_status_ok(av)
                &&& final(self).conn.port.avail() == av.skip(spec_frame_len(av))
            },
    {
        let mut word: Vec<u8> = Vec::new();
        crate::bytes::push_le32(&mut word, cmd.code());
        self.send(word.as_slice())
    }

    /// Queries the device-control sub-protocol: the control command, the
    /// sub-command, then the reply frame and its closing status.
    pub fn devctrl_query(&mut self, cmd: Cmd) -> (r: Result<Vec<u8>, Error>)
        ensures
            final(self).meta_kept(*old(self)),
            final(self).da == old(self).da,
            final(self).dev_info == old(self).dev_info,
            final(self).read_packet_length == old(self).read_packet_length,
            final(self).write_packet_length == old(self).write_packet_length,
            old(self).conn.port.sent().is_prefix_of(final(self).conn.port.sent()),
            r is Ok ==> {
                let av = old(self).conn.port.avail();
                let a1 = av.skip(spec_frame_len(av));
                let a2 = a1.skip(spec_frame_len(a1));
                let a3 = a2.skip(spec_frame_len(a2));
                &&& final(self).conn.port.sent() == old(self).conn.port.sent() + spec_frame(
                    DT_PROTOCOL_FLOW,
                    le32_bytes(spec_cmd_code(Cmd::DeviceCtrl)),
                ) + spec_frame(DT_PROTOCOL_FLOW, le32_bytes(spec_cmd_code(cmd)))
                &&& spec_frame_shape(av) && spec_status_ok(av)
                &&& spec_frame_shape(a1) && spec_status_ok(a1)
                &&& spec_frame_shape(a2)
                &&& r->Ok_0@ == spec_frame_payload(a2)
                &&& spec_frame_shape(a3) && spec_status_ok(a3)
                &&& final(self).conn.port.avail() == a3.skip(spec_frame_len(a3))
            },
    {
        match self.send_cmd(Cmd::DeviceCtrl) {
            Ok(_) => {},
            Err(e) => {
                return Err(e);
            },
        }
        match self.send_cmd(cmd) {
            Ok(_) => {},
            Err(e) => {
                return Err(e);
            },
        }
        let data = match self.read_frame() {
            Ok(d) => d,
            Err(e) => {
                return Err(e);
            },
        };
        match self.get_status() {
            Ok(_) => {},
            Err(e) => {
                return Err(e);
            },
        }
        Ok(data)
    }

    /// Hands a parameter to a device-control sub-command: the control
    /// command, the sub-command, then the parameter frame.
    pub fn devctrl_set(&mut self, cmd: Cmd, param: &[u8]) -> (r: Result<(), Error>)
        ensures
            final(self).meta_kept(*old(self)),
            final(self).da == old(self).da,
            final(self).dev_info == old(self).dev_info,
            final(self).read_packet_length == old(self).read_packet_length,
            final(self).write_packet_length == old(self).write_packet_length,
            old(self).conn.port.sent().is_prefix_of(final(self).conn.port.sent()),
            r is Ok ==> final(self).conn.port.sent() == old(self).conn.port.sent() + spec_frame(
                DT_PROTOCOL_FLOW,
                le32_bytes(spec_cmd_code(Cmd::DeviceCtrl)),
            ) + spec_frame(DT_PROTOCOL_FLOW, le32_bytes(spec_cmd_code(cmd))) + spec_frame(
                DT_PROTOCOL_FLOW,
                param@,
            ),
    {
        match self.send_cmd(Cmd::DeviceCtrl) {
            Ok(_) => {},
            Err(e) => {
                return Err(e);
            },
        }
        match self.send_cmd(cmd) {
            Ok(_) => {},
            Err(e) => {
                return Err(e);
            },
        }
        self.send(param)
    }

    /// Uploads stage 1 through the preloader, jumps into it, checks the
    /// agent's greeting byte, and performs the sync, environment and
    /// hardware-init exchanges.
    #[verifier::rlimit(100)]
    #[verifier::spinoff_prover]
    pub fn upload_stage1(&mut self, addr: u32, length: u32, data: &[u8], sig_len: u32) -> (r:
        Result<(), Error>)
        ensures
            final(self).meta_kept(*old(self)),
            final(self).da == old(self).da,
            old(self).conn.port.sent().is_prefix_of(final(self).conn.port.sent()),
            r is Ok ==> final(self).conn.port.sent() == old(self).conn.port.sent() + spec_stage1_tx(
                addr,
                length,
                sig_len,
                data@,
            ),
            r is Ok ==> {
                let av = old(self).conn.port.avail();
                let a1 = av.skip(19);
                let a2 = a1.skip(7);
                let a3 = a2.skip(1);
                let a4 = a3.skip(spec_frame_len(a3));
                let a5 = a4.skip(spec_frame_len(a4));
                &&& av.len() >= 27
                &&& a2[0] == 0xC0
                &&& spec_frame_shape(a3) && spec_status_ok(a3)
                &&& spec_frame_shape(a4) && spec_status_ok(a4)
                &&& spec_frame_shape(a5) && spec_status_of(spec_frame_payload(a5)) == SYNC_SIGNAL
                &&& final(self).conn.port.avail() == a5.skip(spec_frame_len(a5))
            },
    {
        let ghost sent0 = self.conn.port.sent();
        match self.conn.send_da(data, length, addr, sig_len) {
            Ok(_) => {},
            Err(e) => {
                return Err(e);
            },
        }
        match self.conn.jump_da(addr) {
            Ok(_) => {},
            Err(e) => {
                return Err(e);
            },
        }
        let sync_buf = match self.conn.port.read_exact(1) {
            Ok(b) => b,
            Err(e) => {
                return Err(e);
            },
        };
        if sync_buf[0] != 0xC0 {
            return Err(Error::Proto);
        }
        let hdr = crate::framing::generate_header(DT_PROTOCOL_FLOW, 4);
        match self.conn.port.write_all(hdr.as_slice()) {
            Ok(_) => {},
            Err(e) => {
                return Err(e);
            },
        }
        let mut sync_word: Vec<u8> = Vec::new();
        crate::bytes::push_le32(&mut sync_word, SYNC_SIGNAL);
        match self.conn.port.write_all(sync_word.as_slice()) {
            Ok(_) => {},
            Err(e) => {
                return Err(e);
            },
        }
        match self.conn.port.write_all(hdr.as_slice()) {
            Ok(_) => {},
            Err(e) => {
                return Err(e);
            },
        }
        let mut env_cmd: Vec<u8> = Vec::new();
        crate::bytes::push_le32(&mut env_cmd, 0x010100);
        match self.conn.port.write_all(env_cmd.as_slice()) {
            Ok(_) => {},
            Err(e) => {
                return Err(e);
            },
        }
        let mut env_param: Vec<u8> = Vec::new();
        crate::bytes::push_le32(&mut env_param, 2);
        crate::bytes::push_le32(&mut env_param, 1);
        crate::bytes::push_le32(&mut env_param, 1);
        crate::bytes::push_le32(&mut env_param, 0);
        crate::bytes::push_le32(&mut env_param, 0);
        match self.send(env_param.as_slice()) {
            Ok(_) => {},
            Err(e) => {
                return Err(e);
            },
        }
        match self.conn.port.write_all(hdr.as_slice()) {
            Ok(_) => {},
            Err(e) => {
                return Err(e);
            },
        }
        let mut hw_cmd: Vec<u8> = Vec::new();
        crate::bytes::push_le32(&mut hw_cmd, 0x010101);
        match self.conn.port.write_all(hw_cmd.as_slice()) {
            Ok(_) => {},
            Err(e) => {
                return Err(e);
            },
        }
        let mut hw_param: Vec<u8> = Vec::new();
        crate::bytes::push_le32(&mut hw_param, 0);
        match self.send(hw_param.as_slice()) {
            Ok(_) => {},
            Err(e) => {
                return Err(e);
            },
        }
        match self.get_status() {
            Ok(s) => {
                if s != SYNC_SIGNAL {
                    return Err(Error::Proto);
                }
            },
            Err(e) => {
                return Err(e);
            },
        }
        proof {
            assert(self.conn.port.sent() =~= sent0 + spec_stage1_tx(addr, length, sig_len, data@));
        }
        Ok(())
    }

    /// Pushes stage 2 to its load address: the boot command, the address
    /// and length parameter, the stage bytes, and a final sync.
    pub fn boot_to(&mut self, addr: u32, data: &[u8]) -> (r: Result<bool, Error>)
        ensures
            final(self).meta_kept(*old(self)),
            final(self).da == old(self).da,
            old(self).conn.port.sent().is_prefix_of(final(self).conn.port.sent()),
            r is Ok ==> r->Ok_0 == true && final(self).conn.port.sent() == old(
                self,
            ).conn.port.sent() + spec_boot_to_tx(addr, data@),
            r is Ok ==> {
                let av = old(self).conn.port.avail();
                let a1 = av.skip(spec_frame_len(av));
                let a2 = a1.skip(spec_frame_len(a1));
                &&& spec_frame_shape(av) && spec_status_ok(av)
                &&& spec_frame_shape(a1) && spec_status_ok(a1)
                &&& spec_frame_shape(a2) && spec_status_ok(a2)
                &&& final(self).conn.port.avail() == a2.skip(spec_frame_len(a2))
            },
    {
        match self.send_cmd(Cmd::BootTo) {
            Ok(_) => {},
            Err(e) => {
                return Err(e);
            },
        }
        let mut param: Vec<u8> = Vec::new();
        crate::bytes::push_le64(&mut param, addr as u64);
        crate::bytes::push_le64(&mut param, data.len() as u64);
        match self.send_frame(param.as_slice()) {
            Ok(_) => {},
            Err(e) => {
                return Err(e);
            },
        }
        match self.send_frame(data) {
            Ok(_) => {},
            Err(e) => {
                return Err(e);
            },
        }
        match self.get_status() {
            Ok(_) => {},
            Err(e) => {
                return Err(e);
            },
        }
        match self.get_status() {
            Ok(_) => {},
            Err(e) => {
                return Err(e);
            },
        }
        Ok(true)
    }
}

impl<P: MtkPort> XFlash<P> {
    /// Brings the agent up: uploads stage 1 and performs its setup,
    /// negotiates packet sizes, pushes stage 2 without its trailing
    /// signature, and negotiates again at the agent's higher speed.
    #[verifier::rlimit(100)]
    #[verifier::spinoff_prover]
    pub fn upload_da(&mut self) -> (r: Result<bool, Error>)
        ensures
            final(self).meta_kept(*old(self)),
            old(self).conn.port.sent().is_prefix_of(final(self).conn.port.sent()),
            r is Ok ==> r->Ok_0 == true && old(self).da.regions@.len() >= 3
                && final(self).conn.port.sent() == old(self).conn.port.sent()
                + spec_upload_da_tx(old(self).da) && final(self).write_packet_length is Some
                && final(self).read_packet_length is Some,
    {
        let da1 = match self.da.get_da1() {
            Some(region) => region.duplicate(),
            None => {
                return Err(Error::Core);
            },
        };
        let ghost s0 = self.conn.port.sent();
        match self.upload_stage1(da1.addr, da1.length, da1.data.as_slice(), da1.sig_len) {
            Ok(_) => {},
            Err(e) => {
                return Err(e);
            },
        }
        let ghost s1 = self.conn.port.sent();
        match self.get_packet_length() {
            Ok(_) => {},
            Err(e) => {
                return Err(e);
            },
        }
        let da2 = match self.da.get_da2() {
            Some(region) => region.duplicate(),
            None => {
                return Err(Error::Core);
            },
        };
        let da2_end = if (da2.sig_len as u64) <= da2.data.len() as u64 {
            da2.data.len() - da2.sig_len as usize
        } else {
            0
        };
        let da2_data = crate::dafile::copy_range(da2.data.as_slice(), 0, da2_end);
        proof {
            assert(da2_data@ =~= spec_da2_payload(self.da));
        }
        let ghost s2 = self.conn.port.sent();
        match self.boot_to(da2.addr, da2_data.as_slice()) {
            Ok(true) => {},
            Ok(false) => {
                return Err(Error::Proto);
            },
            Err(e) => {
                return Err(e);
            },
        }
        let ghost s3 = self.conn.port.sent();
        match self.get_packet_length() {
            Ok(_) => {},
            Err(e) => {
                return Err(e);
            },
        }
        proof {
            assert(self.conn.port.sent() =~= s0 + spec_upload_da_tx(old(self).da)) by {
                assert(s1 == s0 + spec_stage1_tx(
                    old(self).da.regions@[1].addr,
                    old(self).da.regions@[1].length,
                    old(self).da.regions@[1].sig_len,
                    old(self).da.regions@[1].data@,
                ));
                assert(s2 == s1 + spec_packet_len_tx());
                assert(s3 == s2 + spec_boot_to_tx(
                    old(self).da.regions@[2].addr,
                    spec_da2_payload(old(self).da),
                ));
                assert(self.conn.port.sent() == s3 + spec_packet_len_tx());
            }
        }
        Ok(true)
    }

    /// A patched copy of the stage-2 region that accepts `boot_to` again,
    /// built with the given loader payload.
    pub fn patch_da2(&self, payload: &[u8]) -> (r: Option<crate::dafile::DAEntryRegion>)
        ensures
            r is Some ==> self.da.regions@.len() >= 3 && r->0.data@.len()
                == self.da.regions@[2].data@.len(),
    {
        crate::patch::patch_da2(&self.da, payload)
    }

    /// Asks the agent to shut the device down.
    pub fn shutdown(&mut self) -> (r: Result<(), Error>)
        ensures
            final(self).meta_kept(*old(self)),
            final(self).da == old(self).da,
            old(self).conn.port.sent().is_prefix_of(final(self).conn.port.sent()),
            r is Ok ==> final(self).conn.port.sent() == old(self).conn.port.sent() + spec_frame(
                DT_PROTOCOL_FLOW,
                le32_bytes(spec_cmd_code(Cmd::Shutdown)),
            ),
    {
        self.send_cmd(Cmd::Shutdown)
    }

    /// Re-marks the connection stage, once the agent is running.
    pub fn set_connection_type(&mut self, conn_type: crate::port::ConnectionType)
        ensures
            final(self).conn.connection_type == conn_type,
            final(self).conn.port == old(self).conn.port,
            final(self).da == old(self).da,
            final(self).dev_info == old(self).dev_info,
    {
        self.conn.connection_type = conn_type;
    }
}

} // verus!
