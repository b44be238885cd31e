//! The preloader command layer: every command is one opcode byte that the
//! device echoes back byte-exact, then echoed arguments, then a status word
//! and possibly a payload. Each command fixes its own endianness; the
//! contracts below spell out, byte for byte, what goes over the wire and
//! what a successful exchange looked like.
use vstd::prelude::*;

use crate::bytes::{be16_of, be32_bytes, be32_of, le16_of, le32_bytes};
use crate::error::Error;
use crate::port::{brom_handshake, ConnectionType, MtkPort};

verus! {

broadcast use crate::bytes::lemma_prefix_reflexive, crate::bytes::lemma_prefix_chain;

/// Opcode: report the hardware code.
pub const CMD_GET_HW_CODE: u8 = 0xFD;

/// Opcode: report hardware sub-code and hardware and software versions.
pub const CMD_GET_HW_SW_VER: u8 = 0xFC;

/// Opcode: report the target configuration word.
pub const CMD_GET_TARGET_CONFIG: u8 = 0xD8;

/// Opcode: report the SoC identifier.
pub const CMD_GET_SOC_ID: u8 = 0xE7;

/// Opcode: report the mobile equipment identifier.
pub const CMD_GET_ME_ID: u8 = 0xE1;

/// Opcode: report the preloader capability words.
pub const CMD_GET_PL_CAP: u8 = 0xDB;

/// Opcode: read device memory as 32-bit words.
pub const CMD_READ32: u8 = 0xD1;

/// Opcode: upload a Download Agent stage.
pub const CMD_SEND_DA: u8 = 0xD7;

/// Opcode: jump into an uploaded Download Agent stage.
pub const CMD_JUMP_DA: u8 = 0xD5;

/// A connection to the boot ROM or preloader over a port.
pub struct Connection<P: MtkPort> {
    /// The underlying byte channel.
    pub port: P,
    /// Stage the connection was opened against.
    pub connection_type: ConnectionType,
    /// Negotiated baud rate.
    pub baudrate: u32,
}

impl<P: MtkPort> Connection<P> {
    /// The connection's bookkeeping is untouched: stage, baud rate, and the
    /// port's own identity.
    pub open spec fn meta_kept(self, o: Self) -> bool {
        &&& self.connection_type == o.connection_type
        &&& self.baudrate == o.baudrate
        &&& self.port.kind() == o.port.kind()
        &&& self.port.baud() == o.port.baud()
    }

    /// Takes ownership of a port and records its stage and baud rate.
    pub fn new(port: P) -> (r: Connection<P>)
        ensures
            r.connection_type == port.kind(),
            r.baudrate == port.baud(),
            r.port.sent() == port.sent(),
            r.port.avail() == port.avail(),
            r.port.kind() == port.kind(),
            r.port.baud() == port.baud(),
    {
        let connection_type = port.get_connection_type();
        let baudrate = port.get_baudrate();
        Connection { port, connection_type, baudrate }
    }

    /// Compares a reply against the bytes that were expected.
    pub fn check(&self, data: &[u8], expected_data: &[u8]) -> (r: Result<(), Error>)
        ensures
            r is Ok <==> data@ == expected_data@,
            r is Err ==> r->Err_0 is Proto,
    {
        if data.len() != expected_data.len() {
            proof {
                assert(data@.len() != expected_data@.len());
            }
            return Err(Error::Proto);
        }
        if crate::scan::is_match_at(data, expected_data, 0) {
            proof {
                assert(data@.subrange(0, expected_data@.len() as int) =~= data@);
            }
            Ok(())
        } else {
            proof {
                assert(data@.subrange(0, expected_data@.len() as int) =~= data@);
            }
            Err(Error::Proto)
        }
    }

    /// Writes `data` and reads `size` reply bytes.
    pub fn write(&mut self, data: &[u8], size: usize) -> (r: Result<Vec<u8>, Error>)
        ensures
            final(self).meta_kept(*old(self)),
            old(self).port.sent().is_prefix_of(final(self).port.sent()),
            r is Err ==> r->Err_0 is Io || r->Err_0 is Timeout,
            r is Ok ==> {
                &&& final(self).port.sent() == old(self).port.sent() + data@
                &&& size <= old(self).port.avail().len()
                &&& r->Ok_0@ == old(self).port.avail().take(size as int)
                &&& final(self).port.avail() == old(self).port.avail().skip(size as int)
            },
    {
        match self.port.write_all(data) {
            Ok(_) => {},
            Err(e) => {
                return Err(e);
            },
        }
        match self.port.read_exact(size) {
            Ok(buf) => Ok(buf),
            Err(e) => Err(e),
        }
    }

    /// Writes `data` and checks that the device echoes it byte-exact: the
    /// echo discipline every preloader command obeys before any status is
    /// consumed.
    pub fn echo(&mut self, data: &[u8]) -> (r: Result<(), Error>)
        ensures
            final(self).meta_kept(*old(self)),
            old(self).port.sent().is_prefix_of(final(self).port.sent()),
            r is Err ==> r->Err_0 is Io || r->Err_0 is Timeout || r->Err_0 is Proto,
            r is Ok ==> {
                &&& final(self).port.sent() == old(self).port.sent() + data@
                &&& data@.len() <= old(self).port.avail().len()
                &&& old(self).port.avail().take(data@.len() as int) == data@
                &&& final(self).port.avail() == old(self).port.avail().skip(data@.len() as int)
            },
    {
        let buf = match self.write(data, data.len()) {
            Ok(buf) => buf,
            Err(e) => {
                return Err(e);
            },
        };
        self.check(buf.as_slice(), data)
    }

    /// Drives the boot-ROM handshake on the underlying port: on success
    /// against a boot ROM or preloader, greeting bytes went out — and
    /// nothing but greeting bytes.
    pub fn handshake(&mut self) -> (r: Result<(), Error>)
        ensures
            final(self).meta_kept(*old(self)),
            old(self).port.sent().is_prefix_of(final(self).port.sent()),
            old(self).port.kind() is Da ==> r is Ok && final(self).port.sent() == old(
                self,
            ).port.sent() && final(self).port.avail() == old(self).port.avail(),
            r is Ok && !(old(self).port.kind() is Da) ==> final(self).port.sent().len() > old(
                self,
            ).port.sent().len(),
            r is Ok ==> forall|i: int|
                old(self).port.sent().len() <= i < final(self).port.sent().len()
                    ==> crate::port::spec_greeting_byte(#[trigger] final(self).port.sent()[i]),
            r is Ok && !(old(self).port.kind() is Da) ==> crate::port::spec_handshake_done(
                old(self).port.avail(),
                0,
            ) && final(self).port.avail() == old(self).port.avail().skip(
                crate::port::spec_handshake_consumed(old(self).port.avail(), 0),
            ),
    {
        brom_handshake(&mut self.port)
    }

    /// Reads a little-endian status word.
    fn read_status_le(&mut self) -> (r: Result<u16, Error>)
        ensures
            final(self).meta_kept(*old(self)),
            old(self).port.sent().is_prefix_of(final(self).port.sent()),
            final(self).port.sent() == old(self).port.sent(),
            r is Err ==> r->Err_0 is Io || r->Err_0 is Timeout,
            r is Ok ==> {
                &&& old(self).port.avail().len() >= 2
                &&& r->Ok_0 == le16_of(old(self).port.avail().take(2))
                &&& final(self).port.avail() == old(self).port.avail().skip(2)
            },
    {
        let buf = match self.port.read_exact(2) {
            Ok(buf) => buf,
            Err(e) => {
                return Err(e);
            },
        };
        Ok(crate::bytes::read_le16(buf.as_slice(), 0))
    }

    /// Reads a big-endian status word.
    fn read_status_be(&mut self) -> (r: Result<u16, Error>)
        ensures
            final(self).meta_kept(*old(self)),
            old(self).port.sent().is_prefix_of(final(self).port.sent()),
            final(self).port.sent() == old(self).port.sent(),
            r is Err ==> r->Err_0 is Io || r->Err_0 is Timeout,
            r is Ok ==> {
                &&& old(self).port.avail().len() >= 2
                &&& r->Ok_0 == be16_of(old(self).port.avail().take(2))
                &&& final(self).port.avail() == old(self).port.avail().skip(2)
            },
    {
        let buf = match self.port.read_exact(2) {
            Ok(buf) => buf,
            Err(e) => {
                return Err(e);
            },
        };
        Ok(crate::bytes::read_be16(buf.as_slice(), 0))
    }

    /// Queries the hardware code: the opcode echoed, a big-endian payload,
    /// then a little-endian status that must be zero.
    pub fn get_hw_code(&mut self) -> (r: Result<u16, Error>)
        ensures
            final(self).meta_kept(*old(self)),
            old(self).port.sent().is_prefix_of(final(self).port.sent()),
            r is Ok ==> {
                let av = old(self).port.avail();
                &&& final(self).port.sent() == old(self).port.sent() + seq![CMD_GET_HW_CODE]
                &&& av.len() >= 5
                &&& av[0] == CMD_GET_HW_CODE
                &&& r->Ok_0 == be16_of(av.subrange(1, 3))
                &&& le16_of(av.subrange(3, 5)) == 0
                &&& final(self).port.avail() == av.skip(5)
            },
            r is Err && r->Err_0 is Preloader ==> {
                let av = old(self).port.avail();
                &&& av.len() >= 5
                &&& av[0] == CMD_GET_HW_CODE
                &&& r->Err_0->Preloader_0 == le16_of(av.subrange(3, 5))
                &&& le16_of(av.subrange(3, 5)) != 0
                &&& final(self).port.avail() == av.skip(5)
            },
    {
        let op: Vec<u8> = vec![CMD_GET_HW_CODE];
        match self.echo(op.as_slice()) {
            Ok(_) => {},
            Err(e) => {
                return Err(e);
            },
        }
        let hw = match self.port.read_exact(2) {
            Ok(buf) => buf,
            Err(e) => {
                return Err(e);
            },
        };
        let status = match self.read_status_le() {
            Ok(s) => s,
            Err(e) => {
                return Err(e);
            },
        };
        proof {
            let av = old(self).port.avail();
            assert(av.take(1) =~= seq![av[0]]);
            assert(av.skip(1).take(2) =~= av.subrange(1, 3));
            assert(av.skip(1).skip(2).take(2) =~= av.subrange(3, 5));
            assert(av.skip(1).skip(2).skip(2) =~= av.skip(5));
        }
        if status != 0 {
            return Err(Error::Preloader(status));
        }
        let code = crate::bytes::read_be16(hw.as_slice(), 0);
        Ok(code)
    }

    /// Queries hardware sub-code, hardware version and software version,
    /// all little-endian, closed by a zero little-endian status.
    pub fn get_hw_sw_ver(&mut self) -> (r: Result<(u16, u16, u16), Error>)
        ensures
            final(self).meta_kept(*old(self)),
            old(self).port.sent().is_prefix_of(final(self).port.sent()),
            r is Ok ==> {
                let av = old(self).port.avail();
                &&& final(self).port.sent() == old(self).port.sent() + seq![CMD_GET_HW_SW_VER]
                &&& av.len() >= 9
                &&& av[0] == CMD_GET_HW_SW_VER
                &&& r->Ok_0.0 == le16_of(av.subrange(1, 3))
                &&& r->Ok_0.1 == le16_of(av.subrange(3, 5))
                &&& r->Ok_0.2 == le16_of(av.subrange(5, 7))
                &&& le16_of(av.subrange(7, 9)) == 0
                &&& final(self).port.avail() == av.skip(9)
            },
            r is Err && r->Err_0 is Preloader ==> {
                let av = old(self).port.avail();
                &&& av.len() >= 9
                &&& av[0] == CMD_GET_HW_SW_VER
                &&& r->Err_0->Preloader_0 == le16_of(av.subrange(7, 9))
                &&& le16_of(av.subrange(7, 9)) != 0
                &&& final(self).port.avail() == av.skip(9)
            },
    {
        let op: Vec<u8> = vec![CMD_GET_HW_SW_VER];
        match self.echo(op.as_slice()) {
            Ok(_) => {},
            Err(e) => {
                return Err(e);
            },
        }
        let sub = match self.port.read_exact(2) {
            Ok(buf) => buf,
            Err(e) => {
                return Err(e);
            },
        };
        let hw = match self.port.read_exact(2) {
            Ok(buf) => buf,
            Err(e) => {
                return Err(e);
            },
        };
        let sw = match self.port.read_exact(2) {
            Ok(buf) => buf,
            Err(e) => {
                return Err(e);
            },
        };
        let status = match self.read_status_le() {
            Ok(s) => s,
            Err(e) => {
                return Err(e);
            },
        };
        proof {
            let av = old(self).port.avail();
            assert(av.take(1) =~= seq![av[0]]);
            assert(av.skip(1).take(2) =~= av.subrange(1, 3));
            assert(av.skip(1).skip(2).take(2) =~= av.subrange(3, 5));
            assert(av.skip(1).skip(2).skip(2).take(2) =~= av.subrange(5, 7));
            assert(av.skip(1).skip(2).skip(2).skip(2).take(2) =~= av.subrange(7, 9));
            assert(av.skip(1).skip(2).skip(2).skip(2).skip(2) =~= av.skip(9));
        }
        if status != 0 {
            return Err(Error::Preloader(status));
        }
        let r0 = crate::bytes::read_le16(sub.as_slice(), 0);
        let r1 = crate::bytes::read_le16(hw.as_slice(), 0);
        let r2 = crate::bytes::read_le16(sw.as_slice(), 0);
        Ok((r0, r1, r2))
    }

    /// Queries the target configuration: a big-endian word carrying the
    /// secure-boot, SLA and DAA bits, closed by a zero little-endian status.
    pub fn get_target_config(&mut self) -> (r: Result<u32, Error>)
        ensures
            final(self).meta_kept(*old(self)),
            old(self).port.sent().is_prefix_of(final(self).port.sent()),
            r is Ok ==> {
                let av = old(self).port.avail();
                &&& final(self).port.sent() == old(self).port.sent() + seq![CMD_GET_TARGET_CONFIG]
                &&& av.len() >= 7
                &&& av[0] == CMD_GET_TARGET_CONFIG
                &&& r->Ok_0 == be32_of(av.subrange(1, 5))
                &&& le16_of(av.subrange(5, 7)) == 0
                &&& final(self).port.avail() == av.skip(7)
            },
            r is Err && r->Err_0 is Preloader ==> {
                let av = old(self).port.avail();
                &&& av.len() >= 7
                &&& av[0] == CMD_GET_TARGET_CONFIG
                &&& r->Err_0->Preloader_0 == le16_of(av.subrange(5, 7))
                &&& le16_of(av.subrange(5, 7)) != 0
                &&& final(self).port.avail() == av.skip(7)
            },
    {
        let op: Vec<u8> = vec![CMD_GET_TARGET_CONFIG];
        match self.echo(op.as_slice()) {
            Ok(_) => {},
            Err(e) => {
                return Err(e);
            },
        }
        let cfg = match self.port.read_exact(4) {
            Ok(buf) => buf,
            Err(e) => {
                return Err(e);
            },
        };
        let status = match self.read_status_le() {
            Ok(s) => s,
            Err(e) => {
                return Err(e);
            },
        };
        proof {
            let av = old(self).port.avail();
            assert(av.take(1) =~= seq![av[0]]);
            assert(av.skip(1).take(4) =~= av.subrange(1, 5));
            assert(av.skip(1).skip(4).take(2) =~= av.subrange(5, 7));
            assert(av.skip(1).skip(4).skip(2) =~= av.skip(7));
        }
        if status != 0 {
            return Err(Error::Preloader(status));
        }
        let value = crate::bytes::read_be32(cfg.as_slice(), 0);
        Ok(value)
    }

    /// Queries the first preloader capability word; the second is reserved
    /// and discarded.
    pub fn get_pl_capabilities(&mut self) -> (r: Result<u32, Error>)
        ensures
            final(self).meta_kept(*old(self)),
            old(self).port.sent().is_prefix_of(final(self).port.sent()),
            r is Ok ==> {
                let av = old(self).port.avail();
                &&& final(self).port.sent() == old(self).port.sent() + seq![CMD_GET_PL_CAP]
                &&& av.len() >= 9
                &&& av[0] == CMD_GET_PL_CAP
                &&& r->Ok_0 == be32_of(av.subrange(1, 5))
                &&& final(self).port.avail() == av.skip(9)
            },
    {
        let op: Vec<u8> = vec![CMD_GET_PL_CAP];
        match self.echo(op.as_slice()) {
            Ok(_) => {},
            Err(e) => {
                return Err(e);
            },
        }
        let cap0 = match self.port.read_exact(4) {
            Ok(buf) => buf,
            Err(e) => {
                return Err(e);
            },
        };
        match self.port.read_exact(4) {
            Ok(_) => {},
            Err(e) => {
                return Err(e);
            },
        }
        let value = crate::bytes::read_be32(cap0.as_slice(), 0);
        proof {
            let av = old(self).port.avail();
            assert(av.take(1) =~= seq![av[0]]);
            assert(av.skip(1).take(4) =~= av.subrange(1, 5));
            assert(av.skip(1).skip(4).skip(4) =~= av.skip(9));
        }
        Ok(value)
    }

    /// Queries a length-prefixed identity blob shared by the SoC-id and
    /// MEID commands: opcode echoed, big-endian length, the blob, then a
    /// zero little-endian status. A device without the query stays silent,
    /// which surfaces as an empty blob.
    fn get_id_blob(&mut self, opcode: u8) -> (r: Result<Vec<u8>, Error>)
        ensures
            final(self).meta_kept(*old(self)),
            old(self).port.sent().is_prefix_of(final(self).port.sent()),
            r is Ok ==> final(self).port.sent() == old(self).port.sent() + seq![opcode] && old(
                self,
            ).port.avail().len() >= 1 && old(self).port.avail()[0] == opcode,
            r is Ok && r->Ok_0@.len() > 0 ==> {
                let av = old(self).port.avail();
                let n = be32_of(av.subrange(1, 5)) as int;
                &&& av.len() >= 7 + n
                &&& r->Ok_0@ == av.subrange(5, 5 + n)
                &&& le16_of(av.subrange(5 + n, 7 + n)) == 0
                &&& final(self).port.avail() == av.skip(7 + n)
            },
            r is Ok ==> exists|k: int|
                #![trigger old(self).port.avail().skip(k)]
                0 <= k <= old(self).port.avail().len() && final(self).port.avail() == old(
                    self,
                ).port.avail().skip(k),
            r is Err && r->Err_0 is Preloader ==> {
                let av = old(self).port.avail();
                let n = be32_of(av.subrange(1, 5)) as int;
                &&& av.len() >= 7 + n
                &&& av[0] == opcode
                &&& r->Err_0->Preloader_0 == le16_of(av.subrange(5 + n, 7 + n))
                &&& le16_of(av.subrange(5 + n, 7 + n)) != 0
                &&& final(self).port.avail() == av.skip(7 + n)
            },
    {
        let op: Vec<u8> = vec![opcode];
        match self.echo(op.as_slice()) {
            Ok(_) => {},
            Err(e) => {
                return Err(e);
            },
        }
        let length_bytes = match self.port.read_exact_timeout(4, 500) {
            Ok(buf) => buf,
            Err(Error::Timeout) => {
                proof {
                    let av = old(self).port.avail();
                    assert(1 <= av.len() && self.port.avail() == av.skip(1));
                }
                return Ok(Vec::new());
            },
            Err(e) => {
                return Err(e);
            },
        };
        let length = crate::bytes::read_be32(length_bytes.as_slice(), 0);
        let blob = match self.port.read_exact(length as usize) {
            Ok(buf) => buf,
            Err(e) => {
                return Err(e);
            },
        };
        let status = match self.read_status_le() {
            Ok(s) => s,
            Err(e) => {
                return Err(e);
            },
        };
        proof {
            let av = old(self).port.avail();
            let n = be32_of(av.subrange(1, 5)) as int;
            assert(av.take(1) =~= seq![av[0]]);
            assert(av.skip(1).take(4) =~= av.subrange(1, 5));
            assert(av.skip(1).skip(4).take(n) =~= av.subrange(5, 5 + n));
            assert(av.skip(1).skip(4).skip(n).take(2) =~= av.subrange(5 + n, 7 + n));
            assert(av.skip(1).skip(4).skip(n).skip(2) =~= av.skip(7 + n));
            assert(7 + n <= av.len() && self.port.avail() == av.skip(7 + n));
        }
        if status != 0 {
            return Err(Error::Preloader(status));
        }
        Ok(blob)
    }

    /// Queries the SoC identifier; empty when the device lacks the query.
    pub fn get_soc_id(&mut self) -> (r: Result<Vec<u8>, Error>)
        ensures
            final(self).meta_kept(*old(self)),
            old(self).port.sent().is_prefix_of(final(self).port.sent()),
            r is Ok ==> final(self).port.sent() == old(self).port.sent() + seq![CMD_GET_SOC_ID]
                && old(self).port.avail().len() >= 1 && old(self).port.avail()[0] == CMD_GET_SOC_ID,
            r is Ok ==> exists|k: int|
                #![trigger old(self).port.avail().skip(k)]
                0 <= k <= old(self).port.avail().len() && final(self).port.avail() == old(
                    self,
                ).port.avail().skip(k),
            r is Ok && r->Ok_0@.len() > 0 ==> {
                let av = old(self).port.avail();
                let n = be32_of(av.subrange(1, 5)) as int;
                &&& av.len() >= 7 + n
                &&& r->Ok_0@ == av.subrange(5, 5 + n)
                &&& le16_of(av.subrange(5 + n, 7 + n)) == 0
                &&& final(self).port.avail() == av.skip(7 + n)
            },
            r is Err && r->Err_0 is Preloader ==> {
                let av = old(self).port.avail();
                let n = be32_of(av.subrange(1, 5)) as int;
                &&& av.len() >= 7 + n
                &&& av[0] == CMD_GET_SOC_ID
                &&& r->Err_0->Preloader_0 == le16_of(av.subrange(5 + n, 7 + n))
                &&& le16_of(av.subrange(5 + n, 7 + n)) != 0
                &&& final(self).port.avail() == av.skip(7 + n)
            },
    {
        self.get_id_blob(CMD_GET_SOC_ID)
    }

    /// Queries the mobile equipment identifier; empty when the device lacks
    /// the query.
    pub fn get_meid(&mut self) -> (r: Result<Vec<u8>, Error>)
        ensures
            final(self).meta_kept(*old(self)),
            old(self).port.sent().is_prefix_of(final(self).port.sent()),
            r is Ok ==> final(self).port.sent() == old(self).port.sent() + seq![CMD_GET_ME_ID]
                && old(self).port.avail().len() >= 1 && old(self).port.avail()[0] == CMD_GET_ME_ID,
            r is Ok ==> exists|k: int|
                #![trigger old(self).port.avail().skip(k)]
                0 <= k <= old(self).port.avail().len() && final(self).port.avail() == old(
                    self,
                ).port.avail().skip(k),
            r is Ok && r->Ok_0@.len() > 0 ==> {
                let av = old(self).port.avail();
                let n = be32_of(av.subrange(1, 5)) as int;
                &&& av.len() >= 7 + n
                &&& r->Ok_0@ == av.subrange(5, 5 + n)
                &&& le16_of(av.subrange(5 + n, 7 + n)) == 0
                &&& final(self).port.avail() == av.skip(7 + n)
            },
            r is Err && r->Err_0 is Preloader ==> {
                let av = old(self).port.avail();
                let n = be32_of(av.subrange(1, 5)) as int;
                &&& av.len() >= 7 + n
                &&& av[0] == CMD_GET_ME_ID
                &&& r->Err_0->Preloader_0 == le16_of(av.subrange(5 + n, 7 + n))
                &&& le16_of(av.subrange(5 + n, 7 + n)) != 0
                &&& final(self).port.avail() == av.skip(7 + n)
            },
    {
        self.get_id_blob(CMD_GET_ME_ID)
    }

    /// Reads `size` bytes of device memory at `address`: opcode, address
    /// and byte count echoed little-endian, a zero status on each side of
    /// the payload.
    pub fn read32(&mut self, address: u32, size: usize) -> (r: Result<Vec<u8>, Error>)
        requires
            size <= u32::MAX,
        ensures
            final(self).meta_kept(*old(self)),
            old(self).port.sent().is_prefix_of(final(self).port.sent()),
            r is Ok ==> {
                let av = old(self).port.avail();
                &&& final(self).port.sent() == old(self).port.sent() + seq![CMD_READ32]
                    + le32_bytes(address) + le32_bytes(size as u32)
                &&& av.len() >= 13 + size
                &&& av[0] == CMD_READ32
                &&& av.subrange(1, 5) == le32_bytes(address)
                &&& av.subrange(5, 9) == le32_bytes(size as u32)
                &&& le16_of(av.subrange(9, 11)) == 0
                &&& r->Ok_0@ == av.subrange(11, 11 + size)
                &&& le16_of(av.subrange(11 + size, 13 + size)) == 0
                &&& final(self).port.avail() == av.skip(13 + size)
            },
            r is Err && r->Err_0 is Preloader ==> {
                let av = old(self).port.avail();
                &&& av.len() >= 11
                &&& av[0] == CMD_READ32
                &&& r->Err_0->Preloader_0 != 0
                &&& (r->Err_0->Preloader_0 == le16_of(av.subrange(9, 11)) || (le16_of(
                    av.subrange(9, 11),
                ) == 0 && av.len() >= 13 + size && r->Err_0->Preloader_0 == le16_of(
                    av.subrange(11 + size, 13 + size),
                )))
            },
    {
        let op: Vec<u8> = vec![CMD_READ32];
        match self.echo(op.as_slice()) {
            Ok(_) => {},
            Err(e) => {
                return Err(e);
            },
        }
        let mut addr_bytes: Vec<u8> = Vec::new();
        crate::bytes::push_le32(&mut addr_bytes, address);
        match self.echo(addr_bytes.as_slice()) {
            Ok(_) => {},
            Err(e) => {
                return Err(e);
            },
        }
        let mut size_bytes: Vec<u8> = Vec::new();
        crate::bytes::push_le32(&mut size_bytes, size as u32);
        match self.echo(size_bytes.as_slice()) {
            Ok(_) => {},
            Err(e) => {
                return Err(e);
            },
        }
        let status = match self.read_status_le() {
            Ok(s) => s,
            Err(e) => {
                return Err(e);
            },
        };
        if status != 0 {
            proof {
                let av = old(self).port.avail();
                assert(av.take(1) =~= seq![av[0]]);
                assert(av.skip(1).take(4) =~= av.subrange(1, 5));
                assert(av.skip(1).skip(4).take(4) =~= av.subrange(5, 9));
                assert(av.skip(1).skip(4).skip(4).take(2) =~= av.subrange(9, 11));
            }
            return Err(Error::Preloader(status));
        }
        let data = match self.port.read_exact(size) {
            Ok(buf) => buf,
            Err(e) => {
                return Err(e);
            },
        };
        let status2 = match self.read_status_le() {
            Ok(s) => s,
            Err(e) => {
                return Err(e);
            },
        };
        proof {
            let av = old(self).port.avail();
            assert(av.take(1) =~= seq![av[0]]);
            assert(av.skip(1).take(4) =~= av.subrange(1, 5));
            assert(av.skip(1).skip(4).take(4) =~= av.subrange(5, 9));
            assert(av.skip(1).skip(4).skip(4).take(2) =~= av.subrange(9, 11));
            assert(av.skip(1).skip(4).skip(4).skip(2).take(size as int) =~= av.subrange(
                11,
                11 + size,
            ));
            assert(av.skip(1).skip(4).skip(4).skip(2).skip(size as int).take(2) =~= av.subrange(
                11 + size,
                13 + size,
            ));
            assert(av.skip(1).skip(4).skip(4).skip(2).skip(size as int).skip(2) =~= av.skip(
                13 + size,
            ));
        }
        if status2 != 0 {
            return Err(Error::Preloader(status2));
        }
        Ok(data)
    }

    /// Uploads a Download Agent stage: opcode, load address, length and
    /// signature length echoed big-endian, a zero big-endian status, the
    /// stage bytes, the device's checksum, and a final zero big-endian
    /// status.
    pub fn send_da(&mut self, da_data: &[u8], da_len: u32, address: u32, sig_len: u32) -> (r:
        Result<(), Error>)
        ensures
            final(self).meta_kept(*old(self)),
            old(self).port.sent().is_prefix_of(final(self).port.sent()),
            r is Ok ==> {
                let av = old(self).port.avail();
                &&& final(self).port.sent() == old(self).port.sent() + seq![CMD_SEND_DA]
                    + be32_bytes(address) + be32_bytes(da_len) + be32_bytes(sig_len) + da_data@
                &&& av.len() >= 19
                &&& av[0] == CMD_SEND_DA
                &&& av.subrange(1, 5) == be32_bytes(address)
                &&& av.subrange(5, 9) == be32_bytes(da_len)
                &&& av.subrange(9, 13) == be32_bytes(sig_len)
                &&& be16_of(av.subrange(13, 15)) == 0
                &&& be16_of(av.subrange(17, 19)) == 0
                &&& final(self).port.avail() == av.skip(19)
            },
            r is Err && r->Err_0 is Preloader ==> {
                let av = old(self).port.avail();
                &&& av.len() >= 15
                &&& av[0] == CMD_SEND_DA
                &&& r->Err_0->Preloader_0 != 0
                &&& (r->Err_0->Preloader_0 == be16_of(av.subrange(13, 15)) || (be16_of(
                    av.subrange(13, 15),
                ) == 0 && av.len() >= 19 && r->Err_0->Preloader_0 == be16_of(
                    av.subrange(17, 19),
                )))
            },
    {
        let op: Vec<u8> = vec![CMD_SEND_DA];
        match self.echo(op.as_slice()) {
            Ok(_) => {},
            Err(e) => {
                return Err(e);
            },
        }
        let mut addr_bytes: Vec<u8> = Vec::new();
        crate::bytes::push_be32(&mut addr_bytes, address);
        match self.echo(addr_bytes.as_slice()) {
            Ok(_) => {},
            Err(e) => {
                return Err(e);
            },
        }
        let mut len_bytes: Vec<u8> = Vec::new();
        crate::bytes::push_be32(&mut len_bytes, da_len);
        match self.echo(len_bytes.as_slice()) {
            Ok(_) => {},
            Err(e) => {
                return Err(e);
            },
        }
        let mut sig_bytes: Vec<u8> = Vec::new();
        crate::bytes::push_be32(&mut sig_bytes, sig_len);
        match self.echo(sig_bytes.as_slice()) {
            Ok(_) => {},
            Err(e) => {
                return Err(e);
            },
        }
        let status = match self.read_status_be() {
            Ok(s) => s,
            Err(e) => {
                return Err(e);
            },
        };
        if status != 0 {
            proof {
                let av = old(self).port.avail();
                assert(av.take(1) =~= seq![av[0]]);
                assert(av.skip(1).take(4) =~= av.subrange(1, 5));
                assert(av.skip(1).skip(4).take(4) =~= av.subrange(5, 9));
                assert(av.skip(1).skip(4).skip(4).take(4) =~= av.subrange(9, 13));
                assert(av.skip(1).skip(4).skip(4).skip(4).take(2) =~= av.subrange(13, 15));
            }
            return Err(Error::Preloader(status));
        }
        match self.port.write_all(da_data) {
            Ok(_) => {},
            Err(e) => {
                return Err(e);
            },
        }
        // The device's additive checksum of the stage; kept for display
        // only.
        match self.port.read_exact(2) {
            Ok(_) => {},
            Err(e) => {
                return Err(e);
            },
        }
        let status2 = match self.read_status_be() {
            Ok(s) => s,
            Err(e) => {
                return Err(e);
            },
        };
        proof {
            let av = old(self).port.avail();
            assert(av.take(1) =~= seq![av[0]]);
            assert(av.skip(1).take(4) =~= av.subrange(1, 5));
            assert(av.skip(1).skip(4).take(4) =~= av.subrange(5, 9));
            assert(av.skip(1).skip(4).skip(4).take(4) =~= av.subrange(9, 13));
            assert(av.skip(1).skip(4).skip(4).skip(4).take(2) =~= av.subrange(13, 15));
            assert(av.skip(1).skip(4).skip(4).skip(4).skip(2).skip(2).take(2) =~= av.subrange(
                17,
                19,
            ));
            assert(av.skip(1).skip(4).skip(4).skip(4).skip(2).skip(2).skip(2) =~= av.skip(19));
        }
        if status2 != 0 {
            return Err(Error::Preloader(status2));
        }
        Ok(())
    }

    /// Jumps into an uploaded stage: opcode and little-endian address
    /// echoed, then a zero little-endian status.
    pub fn jump_da(&mut self, address: u32) -> (r: Result<(), Error>)
        ensures
            final(self).meta_kept(*old(self)),
            old(self).port.sent().is_prefix_of(final(self).port.sent()),
            r is Ok ==> {
                let av = old(self).port.avail();
                &&& final(self).port.sent() == old(self).port.sent() + seq![CMD_JUMP_DA]
                    + le32_bytes(address)
                &&& av.len() >= 7
                &&& av[0] == CMD_JUMP_DA
                &&& av.subrange(1, 5) == le32_bytes(address)
                &&& le16_of(av.subrange(5, 7)) == 0
                &&& final(self).port.avail() == av.skip(7)
            },
            r is Err && r->Err_0 is Preloader ==> {
                let av = old(self).port.avail();
                &&& av.len() >= 7
                &&& av[0] == CMD_JUMP_DA
                &&& r->Err_0->Preloader_0 == le16_of(av.subrange(5, 7))
                &&& le16_of(av.subrange(5, 7)) != 0
                &&& final(self).port.avail() == av.skip(7)
            },
    {
        let op: Vec<u8> = vec![CMD_JUMP_DA];
        match self.echo(op.as_slice()) {
            Ok(_) => {},
            Err(e) => {
                return Err(e);
            },
        }
        let mut addr_bytes: Vec<u8> = Vec::new();
        crate::bytes::push_le32(&mut addr_bytes, address);
        match self.echo(addr_bytes.as_slice()) {
            Ok(_) => {},
            Err(e) => {
                return Err(e);
            },
        }
        let status = match self.read_status_le() {
            Ok(s) => s,
            Err(e) => {
                return Err(e);
            },
        };
        proof {
            let av = old(self).port.avail();
            assert(av.take(1) =~= seq![av[0]]);
            assert(av.skip(1).take(4) =~= av.subrange(1, 5));
            assert(av.skip(1).skip(4).take(2) =~= av.subrange(5, 7));
            assert(av.skip(1).skip(4).skip(2) =~= av.skip(7));
        }
        if status != 0 {
            return Err(Error::Preloader(status));
        }
        Ok(())
    }
}

} // verus!
