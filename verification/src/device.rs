//! The device façade: builds a connection from a port, runs the boot-ROM
//! dialog, selects and uploads the right agent, and routes partition-level
//! flash work to whichever dialect the agent speaks.
use vstd::prelude::*;

use crate::connection::Connection;
use crate::dafile::{DAFile, DAType};
use crate::devinfo::{DevInfoData, DeviceInfo};
use crate::error::Error;
use crate::port::{ConnectionType, MtkPort};
use crate::seccfg::LockFlag;
use crate::storage::{parse_gpt, Partition, PartitionKind};
use crate::xflash::XFlash;
use crate::xml::Xml;

verus! {

broadcast use crate::bytes::lemma_prefix_reflexive, crate::bytes::lemma_prefix_chain;

/// The agent dialect driver in use.
pub enum Protocol<P: MtkPort> {
    /// The v5 binary dialect.
    XFlash(XFlash<P>),
    /// The v6 XML dialect.
    Xml(Xml<P>),
}

/// The connection stage a dialect driver currently speaks for.
pub open spec fn spec_protocol_stage<P: MtkPort>(p: Protocol<P>) -> ConnectionType {
    match p {
        Protocol::XFlash(x) => x.conn.connection_type,
        Protocol::Xml(x) => x.conn.connection_type,
    }
}

/// Builds a [`Device`]: a port is required, agent data is optional but
/// needed for anything beyond the preloader queries.
pub struct DeviceBuilder<P: MtkPort> {
    /// The port to drive.
    pub mtk_port: Option<P>,
    /// The raw agent container.
    pub da_data: Option<Vec<u8>>,
}

impl<P: MtkPort> Default for DeviceBuilder<P> {
    /// An empty builder: no port, no agent data.
    fn default() -> (r: DeviceBuilder<P>)
        ensures
            r.mtk_port is None,
            r.da_data is None,
    {
        DeviceBuilder { mtk_port: None, da_data: None }
    }
}

impl<P: MtkPort> DeviceBuilder<P> {
    /// Assigns the port the device will be driven over.
    pub fn with_mtk_port(self, port: P) -> (r: DeviceBuilder<P>)
        ensures
            r.mtk_port == Some(port),
            r.da_data == self.da_data,
    {
        DeviceBuilder { mtk_port: Some(port), da_data: self.da_data }
    }

    /// Assigns the raw agent container.
    pub fn with_da_data(self, data: Vec<u8>) -> (r: DeviceBuilder<P>)
        ensures
            r.da_data is Some && r.da_data->0@ == data@,
            r.mtk_port == self.mtk_port,
    {
        DeviceBuilder { mtk_port: self.mtk_port, da_data: Some(data) }
    }

    /// Builds the device. Fails exactly when no port was assigned.
    pub fn build(self) -> (r: Result<Device<P>, Error>)
        ensures
            r is Ok <==> self.mtk_port is Some,
            r is Ok ==> {
                let d = r->Ok_0;
                &&& d.connection is Some
                &&& d.protocol is None
                &&& !d.connected
                &&& d.da_data == self.da_data
            },
    {
        match self.mtk_port {
            Some(port) => {
                let connection = Connection::new(port);
                Ok(
                    Device {
                        dev_info: DeviceInfo::new(),
                        connection: Some(connection),
                        protocol: None,
                        connected: false,
                        da_data: self.da_data,
                    },
                )
            },
            None => Err(Error::Core),
        }
    }
}

/// A connected device: preloader dialog first, then the agent dialect.
pub struct Device<P: MtkPort> {
    /// Everything learned about the device.
    pub dev_info: DeviceInfo,
    /// The preloader connection, until an agent driver takes it over.
    pub connection: Option<Connection<P>>,
    /// The agent driver, once agent data was parsed.
    pub protocol: Option<Protocol<P>>,
    /// Whether the boot-ROM dialog has completed.
    pub connected: bool,
    /// The raw agent container, when one was assigned.
    pub da_data: Option<Vec<u8>>,
}

impl<P: MtkPort> Device<P> {
    /// Runs the boot-ROM dialog: handshake, identity and configuration
    /// queries. With agent data present, parses the container, selects the
    /// entry for the reported hardware code, and readies the dialect
    /// driver. Fails when no connection is available, a wire exchange
    /// fails, the container is malformed, no entry matches, or the entry
    /// speaks the legacy dialect.
    pub fn init(&mut self) -> (r: Result<(), Error>)
        ensures
            r is Ok ==> final(self).connected,
            r is Ok && old(self).da_data is Some ==> final(self).protocol is Some
                && crate::dafile::spec_parse_ok(old(self).da_data->0@),
            r is Ok && old(self).da_data is Some ==> exists|f: DAFile, k: int|
                #![trigger crate::dafile::spec_file_matches(old(self).da_data->0@, f), f.das@[k]]
                {
                    &&& crate::dafile::spec_file_matches(old(self).da_data->0@, f)
                    &&& 0 <= k < f.das@.len()
                    &&& f.das@[k].hw_code == crate::dafile::spec_da_code_of(
                        final(self).dev_info.data.hw_code,
                    )
                    &&& match final(self).protocol->0 {
                        Protocol::XFlash(x) => crate::dafile::da_eq(f.das@[k], x.da)
                            && f.das@[k].da_type is V5,
                        Protocol::Xml(x) => crate::dafile::da_eq(f.das@[k], x.da)
                            && f.das@[k].da_type is V6,
                    }
                },
            r is Ok ==> old(self).connection is Some,
            r is Ok ==> {
                let av = old(self).connection->0.port.avail();
                exists|a: int, b: int, c: int|
                    #![trigger av.skip(a), av.skip(b), av.skip(c)]
                    {
                        &&& 0 <= a <= av.len() && 0 <= b <= av.len() && 0 <= c <= av.len()
                        &&& (final(self).dev_info.data.soc_id@.len() > 0 ==> {
                            let avs = av.skip(a);
                            let n = crate::bytes::be32_of(avs.subrange(1, 5)) as int;
                            &&& avs.len() >= 7 + n
                            &&& avs[0] == crate::connection::CMD_GET_SOC_ID
                            &&& final(self).dev_info.data.soc_id@ == avs.subrange(5, 5 + n)
                        })
                        &&& (final(self).dev_info.data.meid@.len() > 0 ==> {
                            let avm = av.skip(b);
                            let n = crate::bytes::be32_of(avm.subrange(1, 5)) as int;
                            &&& avm.len() >= 7 + n
                            &&& avm[0] == crate::connection::CMD_GET_ME_ID
                            &&& final(self).dev_info.data.meid@ == avm.subrange(5, 5 + n)
                        })
                        &&& {
                            let avh = av.skip(c);
                            &&& avh.len() >= 12
                            &&& avh[0] == crate::connection::CMD_GET_HW_CODE
                            &&& final(self).dev_info.data.hw_code == crate::bytes::be16_of(
                                avh.subrange(1, 3),
                            )
                            &&& avh[5] == crate::connection::CMD_GET_TARGET_CONFIG
                            &&& final(self).dev_info.data.target_config == crate::bytes::be32_of(
                                avh.subrange(6, 10),
                            )
                        }
                    }
            },
    {
        let mut conn = match self.connection.take() {
            Some(c) => c,
            None => {
                return Err(Error::Core);
            },
        };
        let ghost av0 = conn.port.avail();
        let ghost k0 = conn.port.kind();
        match conn.handshake() {
            Ok(_) => {},
            Err(e) => {
                self.connection = Some(conn);
                return Err(e);
            },
        }
        let ghost ha: int = if k0 is Da {
            0
        } else {
            crate::port::spec_handshake_consumed(av0, 0)
        };
        proof {
            crate::port::lemma_handshake_consumed_bounds(av0, 0);
            if k0 is Da {
                assert(av0.skip(0) =~= av0);
            }
            assert(conn.port.avail() == av0.skip(ha));
        }
        let ghost ava = conn.port.avail();
        let soc_id = match conn.get_soc_id() {
            Ok(v) => v,
            Err(e) => {
                self.connection = Some(conn);
                return Err(e);
            },
        };
        let ghost ks: int = choose|k: int|
            0 <= k <= ava.len() && conn.port.avail() == ava.skip(k);
        let ghost avb = conn.port.avail();
        let meid = match conn.get_meid() {
            Ok(v) => v,
            Err(e) => {
                self.connection = Some(conn);
                return Err(e);
            },
        };
        let ghost km: int = choose|k: int|
            0 <= k <= avb.len() && conn.port.avail() == avb.skip(k);
        let ghost avc = conn.port.avail();
        let hw_code = match conn.get_hw_code() {
            Ok(v) => v,
            Err(e) => {
                self.connection = Some(conn);
                return Err(e);
            },
        };
        let ghost avt = conn.port.avail();
        let target_config = match conn.get_target_config() {
            Ok(v) => v,
            Err(e) => {
                self.connection = Some(conn);
                return Err(e);
            },
        };
        proof {
            let a = ha;
            let b = ha + ks;
            let c = ha + ks + km;
            assert(av0.skip(b) =~= ava.skip(ks));
            assert(av0.skip(c) =~= avb.skip(km));
            assert(av0.skip(a) == ava && av0.skip(b) == avb && av0.skip(c) == avc);
            assert(avt == avc.skip(5));
            assert(avc.subrange(6, 10) =~= avt.subrange(1, 5));
            assert(avc.len() >= 12);
            assert(avc[5] == avt[0]);
            if soc_id@.len() > 0 {
                let n = crate::bytes::be32_of(ava.subrange(1, 5)) as int;
                assert(ava.len() >= 7 + n && ava[0] == crate::connection::CMD_GET_SOC_ID
                    && soc_id@ == ava.subrange(5, 5 + n));
            }
            if meid@.len() > 0 {
                let n = crate::bytes::be32_of(avb.subrange(1, 5)) as int;
                assert(avb.len() >= 7 + n && avb[0] == crate::connection::CMD_GET_ME_ID
                    && meid@ == avb.subrange(5, 5 + n));
            }
        }
        let device_info = DevInfoData {
            chipset: String::new(),
            soc_id,
            meid,
            hw_code,
            partitions: Vec::new(),
            storage: None,
            target_config,
        };
        match &self.da_data {
            Some(da_data) => {
                let da_file = match DAFile::parse_da(da_data.as_slice()) {
                    Ok(f) => f,
                    Err(e) => {
                        self.connection = Some(conn);
                        return Err(e);
                    },
                };
                let da = match da_file.get_da_from_hw_code(hw_code) {
                    Some(da) => da,
                    None => {
                        self.connection = Some(conn);
                        return Err(Error::Core);
                    },
                };
                let ghost gf = da_file;
                let ghost gda = da;
                let ghost gk = choose|k: int|
                    0 <= k < gf.das@.len() && gf.das@[k].hw_code
                        == crate::dafile::spec_da_code_of(hw_code) && (forall|m: int|
                        0 <= m < k ==> gf.das@[m].hw_code != crate::dafile::spec_da_code_of(
                            hw_code,
                        )) && crate::dafile::da_eq(gf.das@[k], gda);
                let shared_info = DeviceInfo { data: device_info };
                self.dev_info.set_data(
                    DevInfoData {
                        chipset: String::new(),
                        soc_id: shared_info.data.soc_id,
                        meid: shared_info.data.meid,
                        hw_code,
                        partitions: Vec::new(),
                        storage: None,
                        target_config,
                    },
                );
                match da.da_type {
                    DAType::V5 => {
                        self.protocol = Some(
                            Protocol::XFlash(XFlash::new(conn, da, DeviceInfo::new())),
                        );
                        proof {
                            assert(crate::dafile::spec_file_matches(
                                old(self).da_data->0@,
                                gf,
                            ));
                            assert(crate::dafile::da_eq(gf.das@[gk], gda));
                            assert(gf.das@[gk].da_type is V5);
                        }
                    },
                    DAType::V6 => {
                        self.protocol = Some(Protocol::Xml(Xml::new(conn, da, DeviceInfo::new())));
                        proof {
                            assert(crate::dafile::spec_file_matches(
                                old(self).da_data->0@,
                                gf,
                            ));
                            assert(crate::dafile::da_eq(gf.das@[gk], gda));
                            assert(gf.das@[gk].da_type is V6);
                        }
                    },
                    DAType::Legacy => {
                        self.connection = Some(conn);
                        return Err(Error::Core);
                    },
                }
            },
            None => {
                self.dev_info.set_data(device_info);
                self.connection = Some(conn);
            },
        }
        self.connected = true;
        Ok(())
    }

    /// Whether an agent driver is ready.
    pub fn has_protocol(&self) -> (r: bool)
        ensures
            r == (self.protocol is Some),
    {
        match &self.protocol {
            Some(_) => true,
            None => false,
        }
    }

    /// The connection stage of whichever channel is active.
    pub fn connection_type(&self) -> (r: Option<ConnectionType>)
        ensures
            self.connection is Some || self.protocol is Some <==> r is Some,
    {
        match &self.connection {
            Some(c) => Some(c.connection_type),
            None => match &self.protocol {
                Some(Protocol::XFlash(x)) => Some(x.conn.connection_type),
                Some(Protocol::Xml(x)) => Some(x.conn.connection_type),
                None => None,
            },
        }
    }

    /// Uploads the agent and marks the connection as agent-stage, then
    /// reads storage and the partition map into the device record. Fails
    /// when the boot-ROM dialog has not run or no agent driver is ready.
    #[verifier::rlimit(100)]
    #[verifier::spinoff_prover]
    pub fn enter_da_mode(&mut self) -> (r: Result<(), Error>)
        ensures
            !old(self).connected ==> r is Err,
            old(self).protocol is None ==> r is Err,
            r is Ok ==> final(self).protocol is Some && spec_protocol_stage(
                final(self).protocol->0,
            ) == ConnectionType::Da,
            r is Ok ==> {
                let parts = final(self).dev_info.data.partitions@;
                parts.len() == 0 || {
                    &&& parts.len() >= 2
                    &&& parts[0].name@ == crate::ascii::ascii_of("preloader"@)
                    &&& parts[0].address == 0
                    &&& parts[1].name@ == crate::ascii::ascii_of("preloader_backup"@)
                    &&& parts[1].address == 0
                }
            },
    {
        if !self.connected {
            return Err(Error::Core);
        }
        let mut protocol = match self.protocol.take() {
            Some(p) => p,
            None => {
                return Err(Error::Core);
            },
        };
        let up = match &mut protocol {
            Protocol::XFlash(x) => x.upload_da(),
            Protocol::Xml(x) => x.upload_da(),
        };
        match up {
            Ok(_) => {},
            Err(e) => {
                self.protocol = Some(protocol);
                return Err(e);
            },
        }
        match &mut protocol {
            Protocol::XFlash(x) => x.set_connection_type(ConnectionType::Da),
            Protocol::Xml(x) => x.set_connection_type(ConnectionType::Da),
        }
        let partitions = match &mut protocol {
            Protocol::XFlash(x) => fetch_partitions_xflash(x),
            Protocol::Xml(x) => fetch_partitions_xml(x),
        };
        match partitions {
            Ok(parts) => {
                self.dev_info.set_partitions(parts);
            },
            Err(e) => {
                self.protocol = Some(protocol);
                return Err(e);
            },
        }
        self.protocol = Some(protocol);
        Ok(())
    }

    /// Reads a named partition of the user area back. Fails when the
    /// partition is unknown, among the wire failures.
    pub fn read_partition(&mut self, name: &str) -> (r: Result<Vec<u8>, Error>)
        requires
            name.is_ascii(),
        ensures
            !old(self).connected ==> r is Err,
            r is Ok ==> exists|i: int|
                0 <= i < old(self).dev_info.data.partitions@.len() && (
                #[trigger] old(self).dev_info.data.partitions@[i]).name@ == crate::ascii::ascii_of(
                    name@,
                ),
            r is Ok && old(self).protocol is Some && old(self).protocol->0 is XFlash && old(
                self,
            ).protocol->0->XFlash_0.dev_info.data.storage is Some ==> exists|i: int|
                {
                    let x = old(self).protocol->0->XFlash_0;
                    let av = x.conn.port.avail();
                    let a1 = av.skip(crate::xflash::proto::spec_frame_len(av));
                    let a2 = a1.skip(crate::xflash::proto::spec_frame_len(a1));
                    &&& 0 <= i < old(self).dev_info.data.partitions@.len()
                    &&& (#[trigger] old(self).dev_info.data.partitions@[i]).name@
                        == crate::ascii::ascii_of(name@)
                    &&& r->Ok_0@ == crate::xflash::flash::spec_read_chunks(
                        a2,
                        old(self).dev_info.data.partitions@[i].size as int,
                    )
                },
    {
        if !self.connected {
            return Err(Error::Core);
        }
        let name_bytes = crate::ascii::str_bytes(name);
        let idx = match self.dev_info.find_partition(name_bytes.as_slice()) {
            Some(i) => i,
            None => {
                return Err(Error::Core);
            },
        };
        let address = self.dev_info.data.partitions[idx].address;
        let size = self.dev_info.data.partitions[idx].size;
        let kind = self.dev_info.data.partitions[idx].kind;
        let mut protocol = match self.protocol.take() {
            Some(p) => p,
            None => {
                return Err(Error::Core);
            },
        };
        let r = match &mut protocol {
            Protocol::XFlash(x) => x.read_flash(address, size, kind),
            Protocol::Xml(x) => x.upload(name),
        };
        self.protocol = Some(protocol);
        r
    }

    /// Writes a file into a named partition of the user area. Fails when
    /// the partition is unknown or the file is larger than the partition;
    /// a shorter file is completed with zeros to the partition size.
    pub fn write_partition(&mut self, name: &str, data: &[u8]) -> (r: Result<(), Error>)
        requires
            name.is_ascii(),
        ensures
            !old(self).connected ==> r is Err,
            r is Ok ==> exists|i: int|
                0 <= i < old(self).dev_info.data.partitions@.len() && (
                #[trigger] old(self).dev_info.data.partitions@[i]).name@ == crate::ascii::ascii_of(
                    name@,
                ) && data@.len() <= old(self).dev_info.data.partitions@[i].size,
            r is Ok && old(self).protocol is Some && old(self).protocol->0 is XFlash
                ==> final(self).protocol is Some && final(self).protocol->0 is XFlash
                && final(self).protocol->0->XFlash_0.write_packet_length is Some
                && final(self).protocol->0->XFlash_0.write_packet_length->0 > 0
                && exists|i: int, st: u32|
                #![trigger old(self).dev_info.data.partitions@[i], crate::xflash::flash::spec_write_suffix(st, old(self).dev_info.data.partitions@[i].kind, old(self).dev_info.data.partitions@[i].address, old(self).dev_info.data.partitions@[i].size as int, data@, final(self).protocol->0->XFlash_0.write_packet_length->0 as int)]
                {
                    &&& 0 <= i < old(self).dev_info.data.partitions@.len()
                    &&& old(self).dev_info.data.partitions@[i].name@ == crate::ascii::ascii_of(
                        name@,
                    )
                    &&& crate::xflash::flash::spec_ends_with(
                        final(self).protocol->0->XFlash_0.conn.port.sent(),
                        crate::xflash::flash::spec_write_suffix(
                            st,
                            old(self).dev_info.data.partitions@[i].kind,
                            old(self).dev_info.data.partitions@[i].address,
                            old(self).dev_info.data.partitions@[i].size as int,
                            data@,
                            final(self).protocol->0->XFlash_0.write_packet_length->0 as int,
                        ),
                    )
                },
    {
        if !self.connected {
            return Err(Error::Core);
        }
        let name_bytes = crate::ascii::str_bytes(name);
        let idx = match self.dev_info.find_partition(name_bytes.as_slice()) {
            Some(i) => i,
            None => {
                return Err(Error::Core);
            },
        };
        let address = self.dev_info.data.partitions[idx].address;
        let size = self.dev_info.data.partitions[idx].size;
        let kind = self.dev_info.data.partitions[idx].kind;
        if data.len() > size {
            return Err(Error::Core);
        }
        let mut protocol = match self.protocol.take() {
            Some(p) => p,
            None => {
                return Err(Error::Core);
            },
        };
        let r = match &mut protocol {
            Protocol::XFlash(x) => x.write_flash(address, size, data, kind),
            Protocol::Xml(x) => x.download(name, data),
        };
        self.protocol = Some(protocol);
        r
    }

    /// Reads `size` bytes at an absolute offset of the given section.
    pub fn read_offset(&mut self, address: u64, size: usize, section: PartitionKind) -> (r: Result<
        Vec<u8>,
        Error,
    >)
        ensures
            !old(self).connected ==> r is Err,
            r is Ok && old(self).protocol is Some && old(self).protocol->0 is XFlash && old(
                self,
            ).protocol->0->XFlash_0.dev_info.data.storage is Some ==> {
                let x = old(self).protocol->0->XFlash_0;
                let av = x.conn.port.avail();
                let a1 = av.skip(crate::xflash::proto::spec_frame_len(av));
                let a2 = a1.skip(crate::xflash::proto::spec_frame_len(a1));
                r->Ok_0@ == crate::xflash::flash::spec_read_chunks(a2, size as int)
            },
    {
        if !self.connected {
            return Err(Error::Core);
        }
        let mut protocol = match self.protocol.take() {
            Some(p) => p,
            None => {
                return Err(Error::Core);
            },
        };
        let r = match &mut protocol {
            Protocol::XFlash(x) => x.read_flash(address, size, section),
            Protocol::Xml(_) => Err(Error::Core),
        };
        self.protocol = Some(protocol);
        r
    }

    /// Writes `data` into a `size`-byte range at an absolute offset of the
    /// given section, zero-completed to the full range.
    pub fn write_offset(
        &mut self,
        address: u64,
        size: usize,
        data: &[u8],
        section: PartitionKind,
    ) -> (r: Result<(), Error>)
        ensures
            !old(self).connected ==> r is Err,
    {
        if !self.connected {
            return Err(Error::Core);
        }
        let mut protocol = match self.protocol.take() {
            Some(p) => p,
            None => {
                return Err(Error::Core);
            },
        };
        let r = match &mut protocol {
            Protocol::XFlash(x) => x.write_flash(address, size, data, section),
            Protocol::Xml(_) => Err(Error::Core),
        };
        self.protocol = Some(protocol);
        r
    }

    /// Flashes a whole partition by name, letting the agent resolve it.
    pub fn download(&mut self, partition: &str, data: &[u8]) -> (r: Result<(), Error>)
        requires
            partition.is_ascii(),
        ensures
            !old(self).connected ==> r is Err,
    {
        if !self.connected {
            return Err(Error::Core);
        }
        let mut protocol = match self.protocol.take() {
            Some(p) => p,
            None => {
                return Err(Error::Core);
            },
        };
        let r = match &mut protocol {
            Protocol::XFlash(x) => x.download(partition, data),
            Protocol::Xml(x) => x.download(partition, data),
        };
        self.protocol = Some(protocol);
        r
    }

    /// Reads a 32-bit register through the agent.
    pub fn read32(&mut self, addr: u32) -> (r: Result<u32, Error>)
        ensures
            old(self).protocol is None ==> r is Err,
    {
        let mut protocol = match self.protocol.take() {
            Some(p) => p,
            None => {
                return Err(Error::Core);
            },
        };
        let r = match &mut protocol {
            Protocol::XFlash(x) => x.read32(addr),
            Protocol::Xml(_) => Err(Error::Core),
        };
        self.protocol = Some(protocol);
        r
    }

    /// Writes a 32-bit register through the agent.
    pub fn write32(&mut self, addr: u32, value: u32) -> (r: Result<(), Error>)
        ensures
            old(self).protocol is None ==> r is Err,
    {
        let mut protocol = match self.protocol.take() {
            Some(p) => p,
            None => {
                return Err(Error::Core);
            },
        };
        let r = match &mut protocol {
            Protocol::XFlash(x) => x.write32(addr, value),
            Protocol::Xml(_) => Err(Error::Core),
        };
        self.protocol = Some(protocol);
        r
    }

    /// Formats a partition by name: a format request over the XFlash
    /// dialect, a whole-partition erase request over the XML dialect.
    pub fn format(&mut self, partition: &str) -> (r: Result<(), Error>)
        requires
            partition.is_ascii(),
        ensures
            old(self).protocol is None ==> r is Err,
    {
        let mut protocol = match self.protocol.take() {
            Some(p) => p,
            None => {
                return Err(Error::Core);
            },
        };
        let r = match &mut protocol {
            Protocol::XFlash(x) => x.format(partition),
            Protocol::Xml(x) => x.erase_partition(partition),
        };
        self.protocol = Some(protocol);
        r
    }

    /// Shuts the device down or reboots it, by whichever request the
    /// running dialect offers.
    pub fn shutdown(&mut self) -> (r: Result<(), Error>)
        ensures
            old(self).protocol is None ==> r is Err,
    {
        proof {
            reveal_strlit("IMMEDIATE");
        }
        let mut protocol = match self.protocol.take() {
            Some(p) => p,
            None => {
                return Err(Error::Core);
            },
        };
        let r = match &mut protocol {
            Protocol::XFlash(x) => x.shutdown(),
            Protocol::Xml(x) => x.reboot("IMMEDIATE"),
        };
        self.protocol = Some(protocol);
        r
    }

    /// Re-provisions the lock record: reads the seccfg partition, applies
    /// the requested state with a fresh digest, writes the result back,
    /// and hands the written bytes out.
    pub fn set_seccfg_lock_state(&mut self, lock_state: LockFlag) -> (r: Option<Vec<u8>>)
        ensures
            r is Some ==> {
                let b = r->0@;
                &&& b.len() % 0x200 == 0
                &&& crate::bytes::le32_of(b.subrange(0, 4)) == crate::seccfg::SECCFG_MAGIC_BEGIN
                &&& crate::bytes::le32_of(b.subrange(12, 16)) == (if lock_state is Lock {
                    4u32
                } else {
                    3u32
                })
                &&& crate::bytes::le32_of(b.subrange(16, 20)) == (if lock_state is Lock {
                    1u32
                } else {
                    0u32
                })
            },
    {
        proof {
            reveal_strlit("seccfg");
        }
        let raw = match self.read_partition("seccfg") {
            Ok(d) => d,
            Err(_) => {
                return None;
            },
        };
        let updated = match crate::seccfg::apply_lock_state(raw.as_slice(), lock_state) {
            Ok(d) => d,
            Err(_) => {
                return None;
            },
        };
        match self.write_partition("seccfg", updated.as_slice()) {
            Ok(_) => Some(updated),
            Err(_) => None,
        }
    }
}

/// The partition map over the XFlash dialect: the two synthetic preloader
/// entries, then the table read back from the user area.
#[verifier::rlimit(100)]
#[verifier::spinoff_prover]
fn fetch_partitions_xflash<P: MtkPort>(x: &mut XFlash<P>) -> (r: Result<Vec<Partition>, Error>)
    ensures
        final(x).conn.connection_type == old(x).conn.connection_type,
        r is Ok && final(x).dev_info.data.storage is None ==> r->Ok_0@.len() == 0,
        r is Ok && final(x).dev_info.data.storage is Some ==> {
            let parts = r->Ok_0@;
            &&& parts.len() >= 2
            &&& parts[0].name@ == crate::ascii::ascii_of("preloader"@)
            &&& parts[0].address == 0
            &&& parts[0].size == spec_clamped(
                if final(x).dev_info.data.storage->0 is Emmc {
                    final(x).dev_info.data.storage->0->Emmc_0.boot1_size
                } else {
                    final(x).dev_info.data.storage->0->Ufs_0.lu0_size
                },
            )
            &&& parts[1].name@ == crate::ascii::ascii_of("preloader_backup"@)
            &&& parts[1].address == 0
            &&& parts[1].size == spec_clamped(
                if final(x).dev_info.data.storage->0 is Emmc {
                    final(x).dev_info.data.storage->0->Emmc_0.boot2_size
                } else {
                    final(x).dev_info.data.storage->0->Ufs_0.lu1_size
                },
            )
            &&& parts[0].kind == (if final(x).dev_info.data.storage->0 is Emmc {
                PartitionKind::Emmc(crate::storage::EmmcPartition::Boot1)
            } else {
                PartitionKind::Ufs(crate::storage::UfsLu::Lu0)
            })
            &&& parts[1].kind == (if final(x).dev_info.data.storage->0 is Emmc {
                PartitionKind::Emmc(crate::storage::EmmcPartition::Boot2)
            } else {
                PartitionKind::Ufs(crate::storage::UfsLu::Lu1)
            })

            &&& (r->Ok_0@.len() == 2 || exists|pgpt: Seq<u8>, st: crate::storage::StorageType|
                #![trigger crate::storage::spec_gpt_ok(pgpt, st)]
                {
                    let parts = r->Ok_0@;
                    let table = crate::storage::spec_gpt_list(
                        pgpt,
                        st,
                        crate::storage::spec_gpt_count(pgpt, st) as int,
                    );
                    &&& crate::storage::spec_gpt_ok(pgpt, st)
                    &&& parts.len() == 2 + table.len()
                    &&& forall|m: int|
                        2 <= m < parts.len() ==> crate::storage::spec_part_abs(
                            #[trigger] parts[m],
                        ) == table[m - 2] && parts[m].kind == crate::storage::spec_user_kind(st)
                })
        },
{
    proof {
        reveal_strlit("preloader");
        reveal_strlit("preloader_backup");
        reveal_strlit("PGPT");
    }
    let storage = match x.get_or_detect_storage() {
        Some(s) => s,
        None => {
            // An undetectable storage yields no partition map at all.
            return Ok(Vec::new());
        },
    };
    let mut partitions: Vec<Partition> = Vec::new();
    let pl1 = storage.get_pl1_size();
    let pl2 = storage.get_pl2_size();
    partitions.push(
        Partition::new(
            crate::ascii::str_bytes("preloader"),
            clamp_usize(pl1),
            0,
            storage.get_pl_part1(),
        ),
    );
    partitions.push(
        Partition::new(
            crate::ascii::str_bytes("preloader_backup"),
            clamp_usize(pl2),
            0,
            storage.get_pl_part2(),
        ),
    );
    let pgpt = match x.upload("PGPT") {
        Ok(d) => d,
        Err(e) => {
            return Err(e);
        },
    };
    let ghost p0 = partitions@[0];
    let ghost p1 = partitions@[1];
    let st_val = storage.kind();
    match parse_gpt(pgpt.as_slice(), st_val) {
        Ok(mut table) => {
            let mut k: usize = 0;
            while k < table.len()
                invariant
                    partitions@.len() == 2 + k,
                    partitions@[0] == p0,
                    partitions@[1] == p1,
                    k <= table@.len(),
                    forall|m: int|
                        2 <= m < partitions@.len() ==> crate::storage::spec_part_abs(
                            #[trigger] partitions@[m],
                        ) == crate::storage::spec_part_abs(table@[m - 2]) && partitions@[m].kind
                            == table@[m - 2].kind,
                decreases table@.len() - k,
            {
                let p = Partition {
                    name: crate::dafile::copy_range(
                        table[k].name.as_slice(),
                        0,
                        table[k].name.len(),
                    ),
                    size: table[k].size,
                    address: table[k].address,
                    kind: table[k].kind,
                };
                proof {
                    assert(p.name@ =~= table@[k as int].name@);
                }
                partitions.push(p);
                k = k + 1;
            }
            proof {
                assert(crate::storage::spec_gpt_ok(pgpt@, st_val));
            }
        },
        Err(_) => {
            // An unreadable table leaves only the synthetic entries, as
            // when the device carries no map yet.
        },
    }
    Ok(partitions)
}

/// The partition map over the XML dialect.
#[verifier::rlimit(100)]
#[verifier::spinoff_prover]
fn fetch_partitions_xml<P: MtkPort>(x: &mut Xml<P>) -> (r: Result<Vec<Partition>, Error>)
    ensures
        final(x).conn.connection_type == old(x).conn.connection_type,
        r is Ok && final(x).dev_info.data.storage is None ==> r->Ok_0@.len() == 0,
        r is Ok && final(x).dev_info.data.storage is Some ==> {
            let parts = r->Ok_0@;
            &&& parts.len() >= 2
            &&& parts[0].name@ == crate::ascii::ascii_of("preloader"@)
            &&& parts[0].address == 0
            &&& parts[0].size == spec_clamped(
                if final(x).dev_info.data.storage->0 is Emmc {
                    final(x).dev_info.data.storage->0->Emmc_0.boot1_size
                } else {
                    final(x).dev_info.data.storage->0->Ufs_0.lu0_size
                },
            )
            &&& parts[1].name@ == crate::ascii::ascii_of("preloader_backup"@)
            &&& parts[1].address == 0
            &&& parts[1].size == spec_clamped(
                if final(x).dev_info.data.storage->0 is Emmc {
                    final(x).dev_info.data.storage->0->Emmc_0.boot2_size
                } else {
                    final(x).dev_info.data.storage->0->Ufs_0.lu1_size
                },
            )
            &&& parts[0].kind == (if final(x).dev_info.data.storage->0 is Emmc {
                PartitionKind::Emmc(crate::storage::EmmcPartition::Boot1)
            } else {
                PartitionKind::Ufs(crate::storage::UfsLu::Lu0)
            })
            &&& parts[1].kind == (if final(x).dev_info.data.storage->0 is Emmc {
                PartitionKind::Emmc(crate::storage::EmmcPartition::Boot2)
            } else {
                PartitionKind::Ufs(crate::storage::UfsLu::Lu1)
            })

            &&& (r->Ok_0@.len() == 2 || exists|pgpt: Seq<u8>, st: crate::storage::StorageType|
                #![trigger crate::storage::spec_gpt_ok(pgpt, st)]
                {
                    let parts = r->Ok_0@;
                    let table = crate::storage::spec_gpt_list(
                        pgpt,
                        st,
                        crate::storage::spec_gpt_count(pgpt, st) as int,
                    );
                    &&& crate::storage::spec_gpt_ok(pgpt, st)
                    &&& parts.len() == 2 + table.len()
                    &&& forall|m: int|
                        2 <= m < parts.len() ==> crate::storage::spec_part_abs(
                            #[trigger] parts[m],
                        ) == table[m - 2] && parts[m].kind == crate::storage::spec_user_kind(st)
                })
        },
{
    proof {
        reveal_strlit("preloader");
        reveal_strlit("preloader_backup");
        reveal_strlit("PGPT");
    }
    let storage = match x.get_or_detect_storage() {
        Some(s) => s,
        None => {
            // An undetectable storage yields no partition map at all.
            return Ok(Vec::new());
        },
    };
    let mut partitions: Vec<Partition> = Vec::new();
    let pl1 = storage.get_pl1_size();
    let pl2 = storage.get_pl2_size();
    partitions.push(
        Partition::new(
            crate::ascii::str_bytes("preloader"),
            clamp_usize(pl1),
            0,
            storage.get_pl_part1(),
        ),
    );
    partitions.push(
        Partition::new(
            crate::ascii::str_bytes("preloader_backup"),
            clamp_usize(pl2),
            0,
            storage.get_pl_part2(),
        ),
    );
    let pgpt = match x.upload("PGPT") {
        Ok(d) => d,
        Err(e) => {
            return Err(e);
        },
    };
    let ghost p0 = partitions@[0];
    let ghost p1 = partitions@[1];
    let st_val = storage.kind();
    match parse_gpt(pgpt.as_slice(), st_val) {
        Ok(mut table) => {
            let mut k: usize = 0;
            while k < table.len()
                invariant
                    partitions@.len() == 2 + k,
                    partitions@[0] == p0,
                    partitions@[1] == p1,
                    k <= table@.len(),
                    forall|m: int|
                        2 <= m < partitions@.len() ==> crate::storage::spec_part_abs(
                            #[trigger] partitions@[m],
                        ) == crate::storage::spec_part_abs(table@[m - 2]) && partitions@[m].kind
                            == table@[m - 2].kind,
                decreases table@.len() - k,
            {
                let p = Partition {
                    name: crate::dafile::copy_range(
                        table[k].name.as_slice(),
                        0,
                        table[k].name.len(),
                    ),
                    size: table[k].size,
                    address: table[k].address,
                    kind: table[k].kind,
                };
                proof {
                    assert(p.name@ =~= table@[k as int].name@);
                }
                partitions.push(p);
                k = k + 1;
            }
            proof {
                assert(crate::storage::spec_gpt_ok(pgpt@, st_val));
            }
        },
        Err(_) => {
            // An unreadable table leaves only the synthetic entries.
        },
    }
    Ok(partitions)
}

/// A byte size clamped to what this host can address.
pub open spec fn spec_clamped(x: u64) -> int {
    if x <= usize::MAX {
        x as int
    } else {
        usize::MAX as int
    }
}

/// A byte size clamped to what this host can address.
fn clamp_usize(x: u64) -> (r: usize)
    ensures
        r == spec_clamped(x),
{
    if x > usize::MAX as u64 {
        usize::MAX
    } else {
        x as usize
    }
}

} // verus!
