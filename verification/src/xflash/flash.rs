//! Chunked flash transfer of the XFlash dialect: the 44-byte operation
//! parameter, the additive 16-bit checksum, the zero-padded write stream,
//! and the read, write, download, readback and format operations.
use vstd::prelude::*;

use crate::bytes::{le32_bytes, le64_bytes};
use crate::error::Error;
use crate::framing::{spec_frame, DT_PROTOCOL_FLOW};
use crate::port::MtkPort;
use crate::storage::{
    spec_partition_code,
    spec_storage_code,
    EmmcStorage,
    PartitionKind,
    Storage,
    StorageType,
    UfsStorage,
};
use crate::xflash::cmds::{spec_cmd_code, Cmd};
use crate::xflash::proto::XFlash;

verus! {

broadcast use crate::bytes::lemma_prefix_reflexive, crate::bytes::lemma_prefix_chain;

/// Sum of a byte sequence.
pub open spec fn spec_sum_bytes(s: Seq<u8>) -> int
    decreases s.len(),
{
    if s.len() == 0 {
        0
    } else {
        spec_sum_bytes(s.drop_last()) + s.last()
    }
}

/// The additive 16-bit checksum of a chunk: the byte sum modulo 0x10000.
pub open spec fn spec_checksum16(s: Seq<u8>) -> u32 {
    (spec_sum_bytes(s) % 0x10000) as u32
}

/// Computes the additive 16-bit checksum of a chunk: exactly the byte sum
/// modulo 0x10000.
#[verifier::loop_isolation(false)]
pub fn checksum16(chunk: &[u8]) -> (r: u32)
    ensures
        r == spec_checksum16(chunk@),
{
    let mut sum: u32 = 0;
    let mut i: usize = 0;
    while i < chunk.len()
        invariant
            i <= chunk@.len(),
            sum == spec_sum_bytes(chunk@.take(i as int)) % 0x10000,
        decreases chunk@.len() - i,
    {
        proof {
            assert(chunk@.take(i + 1).drop_last() =~= chunk@.take(i as int));
            assert(chunk@.take(i + 1).last() == chunk@[i as int]);
            vstd::arithmetic::div_mod::lemma_add_mod_noop(
                spec_sum_bytes(chunk@.take(i as int)),
                chunk@[i as int] as int,
                0x10000,
            );
            vstd::arithmetic::div_mod::lemma_small_mod(chunk@[i as int] as nat, 0x10000);
        }
        sum = (sum + chunk[i] as u32) % 0x10000;
        i = i + 1;
    }
    proof {
        assert(chunk@.take(chunk@.len() as int) =~= chunk@);
        vstd::arithmetic::div_mod::lemma_mod_mod(spec_sum_bytes(chunk@), 0x10000, 1);
    }
    sum % 0x10000
}

/// `data` brought to exactly `size` bytes: truncated, or extended with
/// zeros.
pub open spec fn spec_pad0(data: Seq<u8>, size: int) -> Seq<u8>
    recommends
        size >= 0,
{
    if data.len() >= size {
        data.take(size)
    } else {
        data + Seq::new((size - data.len()) as nat, |i: int| 0u8)
    }
}

/// The frames of a chunked checksummed transfer: each chunk travels as a
/// zero word, its checksum, and the chunk bytes, each in its own frame.
pub open spec fn spec_chunk_frames(data: Seq<u8>, chunk: int) -> Seq<u8>
    decreases data.len(),
{
    if chunk <= 0 || data.len() == 0 {
        Seq::empty()
    } else {
        let c = if data.len() <= chunk {
            data
        } else {
            data.take(chunk)
        };
        let rest = if data.len() <= chunk {
            Seq::<u8>::empty()
        } else {
            data.skip(chunk)
        };
        spec_frame(DT_PROTOCOL_FLOW, le32_bytes(0)) + spec_frame(
            DT_PROTOCOL_FLOW,
            le32_bytes(spec_checksum16(c)),
        ) + spec_frame(DT_PROTOCOL_FLOW, c) + spec_chunk_frames(rest, chunk)
    }
}

/// The chunk bytes of the same transfer, without framing.
pub open spec fn spec_chunk_payloads(data: Seq<u8>, chunk: int) -> Seq<u8>
    decreases data.len(),
{
    if chunk <= 0 || data.len() == 0 {
        Seq::empty()
    } else if data.len() <= chunk {
        data
    } else {
        data.take(chunk) + spec_chunk_payloads(data.skip(chunk), chunk)
    }
}

/// The chunks of a transfer carry exactly the transferred bytes: splitting
/// into chunks loses and adds nothing.
pub proof fn lemma_chunk_payloads_id(data: Seq<u8>, chunk: int)
    requires
        chunk > 0,
    ensures
        spec_chunk_payloads(data, chunk) == data,
    decreases data.len(),
{
    if data.len() == 0 {
        assert(spec_chunk_payloads(data, chunk) =~= data);
    } else if data.len() <= chunk {
    } else {
        lemma_chunk_payloads_id(data.skip(chunk), chunk);
        assert(data.take(chunk) + data.skip(chunk) =~= data);
    }
}

/// Writing a file into a region of `size` bytes transfers the file
/// followed by zeros: what the chunked stream carries is the file padded
/// to the full region, nothing else.
pub proof fn lemma_write_pads_with_zeros(data: Seq<u8>, size: int, chunk: int)
    requires
        chunk > 0,
        0 <= data.len() <= size,
    ensures
        spec_chunk_payloads(spec_pad0(data, size), chunk) == spec_pad0(data, size),
        spec_pad0(data, size).len() == size,
        spec_pad0(data, size).take(data.len() as int) == data,
        forall|i: int| data.len() <= i < size ==> spec_pad0(data, size)[i] == 0,
{
    lemma_chunk_payloads_id(spec_pad0(data, size), chunk);
    assert(spec_pad0(data, size).take(data.len() as int) =~= data);
}

/// The 44-byte flash-operation parameter: storage code, section code,
/// address, size, and the eight reserved words.
pub open spec fn spec_flash_param(st: u32, part: u32, addr: u64, size: u64) -> Seq<u8> {
    le32_bytes(st) + le32_bytes(part) + le64_bytes(addr) + le64_bytes(size) + Seq::new(
        32,
        |i: int| 0u8,
    )
}

/// Builds the flash-operation parameter.
pub fn build_flash_param(st: u32, part: u32, addr: u64, size: u64) -> (r: Vec<u8>)
    ensures
        r@ == spec_flash_param(st, part, addr, size),
{
    let mut out: Vec<u8> = Vec::new();
    crate::bytes::push_le32(&mut out, st);
    crate::bytes::push_le32(&mut out, part);
    crate::bytes::push_le64(&mut out, addr);
    crate::bytes::push_le64(&mut out, size);
    let mut i: usize = 0;
    while i < 32
        invariant
            i <= 32,
            out@ == le32_bytes(st) + le32_bytes(part) + le64_bytes(addr) + le64_bytes(size)
                + Seq::new(i as nat, |k: int| 0u8),
        decreases 32 - i,
    {
        out.push(0);
        assert(out@ =~= le32_bytes(st) + le32_bytes(part) + le64_bytes(addr) + le64_bytes(size)
            + Seq::new((i + 1) as nat, |k: int| 0u8));
        i = i + 1;
    }
    out
}

/// Concatenation of a list of received chunks.
pub open spec fn spec_concat(cs: Seq<Seq<u8>>) -> Seq<u8>
    decreases cs.len(),
{
    if cs.len() == 0 {
        Seq::empty()
    } else {
        spec_concat(cs.drop_last()) + cs.last()
    }
}

/// What a chunked read hands back, as a function of the byte stream the
/// device delivers: data frames, each answered by an acknowledgment whose
/// status follows in the stream, until the requested size is reached or an
/// empty frame ends the transfer. The value on a successful run; the
/// malformed branches never complete successfully.
pub open spec fn spec_read_chunks(av: Seq<u8>, size: int) -> Seq<u8>
    decreases av.len(),
{
    if !crate::xflash::proto::spec_frame_shape(av) {
        Seq::empty()
    } else {
        let p = crate::xflash::proto::spec_frame_payload(av);
        let a1 = av.skip(crate::xflash::proto::spec_frame_len(av));
        if p.len() == 0 {
            Seq::empty()
        } else if p.len() >= size {
            p
        } else if !crate::xflash::proto::spec_frame_shape(a1) {
            p
        } else {
            p + spec_read_chunks(a1.skip(crate::xflash::proto::spec_frame_len(a1)), size - p.len())
        }
    }
}

/// The acknowledgment frames the same run writes: one per data frame.
pub open spec fn spec_read_acks(av: Seq<u8>, size: int) -> Seq<u8>
    decreases av.len(),
{
    if !crate::xflash::proto::spec_frame_shape(av) {
        Seq::empty()
    } else {
        let p = crate::xflash::proto::spec_frame_payload(av);
        let a1 = av.skip(crate::xflash::proto::spec_frame_len(av));
        let ack = spec_frame(DT_PROTOCOL_FLOW, le32_bytes(0));
        if p.len() == 0 {
            Seq::empty()
        } else if p.len() >= size {
            ack
        } else if !crate::xflash::proto::spec_frame_shape(a1) {
            ack
        } else {
            ack + spec_read_acks(a1.skip(crate::xflash::proto::spec_frame_len(a1)), size - p.len())
        }
    }
}

/// `a` opens `b`.
pub open spec fn spec_is_prefix(a: Seq<u8>, b: Seq<u8>) -> bool {
    a.len() <= b.len() && b.take(a.len() as int) == a
}

/// `b` closes with `suffix`.
pub open spec fn spec_ends_with(b: Seq<u8>, suffix: Seq<u8>) -> bool {
    suffix.len() <= b.len() && b.skip(b.len() - suffix.len()) == suffix
}

/// Whatever was sent before, an appended tail closes the stream.
pub proof fn lemma_suffix_append(a: Seq<u8>, t: Seq<u8>)
    ensures
        spec_ends_with(a + t, t),
{
    assert((a + t).skip(a.len() as int) =~= t);
}

/// Everything a flash write sends from its command word on: the command,
/// the 44-byte parameter, and the chunked stream of the padded data.
pub open spec fn spec_write_suffix(
    st: u32,
    section: PartitionKind,
    addr: u64,
    size: int,
    data: Seq<u8>,
    chunk: int,
) -> Seq<u8> {
    spec_frame(DT_PROTOCOL_FLOW, le32_bytes(spec_cmd_code(Cmd::WriteData))) + spec_frame(
        DT_PROTOCOL_FLOW,
        spec_flash_param(st, spec_partition_code(section), addr, size as u64),
    ) + spec_chunk_frames(spec_pad0(data, size), chunk)
}

impl<P: MtkPort> XFlash<P> {
    /// Negotiates the frame sizes: the device answers the query with its
    /// write size then its read size, which are cached for the transfers.
    pub fn get_packet_length(&mut self) -> (r: Result<(usize, usize), Error>)
        ensures
            final(self).meta_kept(*old(self)),
            final(self).da == old(self).da,
            old(self).conn.port.sent().is_prefix_of(final(self).conn.port.sent()),
            r is Ok ==> final(self).write_packet_length == Some(r->Ok_0.0)
                && final(self).read_packet_length == Some(r->Ok_0.1),
            r is Ok ==> final(self).conn.port.sent() == old(self).conn.port.sent()
                + crate::xflash::proto::spec_packet_len_tx(),
            r is Ok ==> {
                let av = old(self).conn.port.avail();
                let a1 = av.skip(crate::xflash::proto::spec_frame_len(av));
                let a2 = a1.skip(crate::xflash::proto::spec_frame_len(a1));
                let reply = crate::xflash::proto::spec_frame_payload(a2);
                &&& reply.len() >= 8
                &&& r->Ok_0.0 == crate::bytes::le32_of(reply.subrange(0, 4)) as usize
                &&& r->Ok_0.1 == crate::bytes::le32_of(reply.subrange(4, 8)) as usize
            },
    {
        let resp = match self.devctrl_query(Cmd::GetPacketLength) {
            Ok(d) => d,
            Err(e) => {
                return Err(e);
            },
        };
        if resp.len() < 8 {
            return Err(Error::Proto);
        }
        let write_len = crate::bytes::read_le32(resp.as_slice(), 0) as usize;
        let read_len = crate::bytes::read_le32(resp.as_slice(), 4) as usize;
        self.write_packet_length = Some(write_len);
        self.read_packet_length = Some(read_len);
        proof {
            assert(self.conn.port.sent() =~= old(self).conn.port.sent()
                + crate::xflash::proto::spec_packet_len_tx());
        }
        Ok((write_len, read_len))
    }

    /// The cached write size, negotiating it first when missing.
    pub fn get_write_packet_length(&mut self) -> (r: Result<usize, Error>)
        ensures
            final(self).meta_kept(*old(self)),
            final(self).da == old(self).da,
            old(self).conn.port.sent().is_prefix_of(final(self).conn.port.sent()),
            r is Ok ==> final(self).write_packet_length == Some(r->Ok_0),
            old(self).write_packet_length is Some ==> r is Ok && r->Ok_0
                == old(self).write_packet_length->0 && *final(self) == *old(self),
    {
        match self.write_packet_length {
            Some(len) => {
                proof {
                    crate::bytes::lemma_prefix_refl(self.conn.port.sent());
                }
                Ok(len)
            },
            None => {
                match self.get_packet_length() {
                    Ok((w, _)) => Ok(w),
                    Err(e) => Err(e),
                }
            },
        }
    }

    /// One info probe through device control, with the trailing status the
    /// probe sequence drains.
    fn probe_info(&mut self, cmd: Cmd) -> (r: Result<Vec<u8>, Error>)
        ensures
            final(self).meta_kept(*old(self)),
            final(self).da == old(self).da,
            final(self).dev_info == old(self).dev_info,
            final(self).write_packet_length == old(self).write_packet_length,
            final(self).read_packet_length == old(self).read_packet_length,
            old(self).conn.port.sent().is_prefix_of(final(self).conn.port.sent()),
            r is Ok ==> final(self).conn.port.sent() == old(self).conn.port.sent() + spec_frame(
                DT_PROTOCOL_FLOW,
                le32_bytes(spec_cmd_code(Cmd::DeviceCtrl)),
            ) + spec_frame(DT_PROTOCOL_FLOW, le32_bytes(spec_cmd_code(cmd))),
    {
        let ghost s0 = self.conn.port.sent();
        let resp = self.devctrl_query(cmd);
        let ghost s1 = self.conn.port.sent();
        let _ = self.get_status();
        proof {
            crate::bytes::lemma_prefix_trans(s0, s1, self.conn.port.sent());
        }
        resp
    }

    /// Probes the storage behind the agent: the eMMC query first, then the
    /// UFS query; the first record that is not all zero wins. The record is
    /// cached in the device info.
    #[verifier::spinoff_prover]
    pub fn get_or_detect_storage(&mut self) -> (r: Option<Storage>)
        ensures
            final(self).meta_kept(*old(self)),
            final(self).da == old(self).da,
            final(self).write_packet_length == old(self).write_packet_length,
            final(self).read_packet_length == old(self).read_packet_length,
            old(self).conn.port.sent().is_prefix_of(final(self).conn.port.sent()),
            old(self).dev_info.data.storage is Some ==> r == old(self).dev_info.data.storage
                && *final(self) == *old(self),
            r is Some ==> final(self).dev_info.data.storage == r,
            r is None ==> final(self).dev_info.data.storage is None,
            old(self).dev_info.data.storage is None && r is Some ==> crate::scan::contains_bytes(
                final(self).conn.port.sent().skip(old(self).conn.port.sent().len() as int),
                spec_frame(DT_PROTOCOL_FLOW, le32_bytes(spec_cmd_code(Cmd::DeviceCtrl))),
            ),
            old(self).dev_info.data.storage is None && r is Some && r->0 is Emmc ==> exists|
                resp: Seq<u8>,
            |
                #![trigger resp.subrange(4, 12)]
                {
                    &&& resp.len() >= 68
                    &&& exists|j: int| 0 <= j < resp.len() && #[trigger] resp[j] != 0
                    &&& r->0->Emmc_0.boot1_size == crate::bytes::le64_of(resp.subrange(4, 12))
                    &&& r->0->Emmc_0.boot2_size == crate::bytes::le64_of(resp.subrange(12, 20))
                    &&& r->0->Emmc_0.rpmb_size == crate::bytes::le64_of(resp.subrange(20, 28))
                    &&& r->0->Emmc_0.ua_size == crate::bytes::le64_of(resp.subrange(60, 68))
                },
            old(self).dev_info.data.storage is None && r is Some && r->0 is Ufs ==> exists|
                resp: Seq<u8>,
            |
                #![trigger resp.subrange(8, 16)]
                {
                    &&& resp.len() >= 32
                    &&& exists|j: int| 0 <= j < resp.len() && #[trigger] resp[j] != 0
                    &&& r->0->Ufs_0.lu0_size == crate::bytes::le64_of(resp.subrange(8, 16))
                    &&& r->0->Ufs_0.lu1_size == crate::bytes::le64_of(resp.subrange(16, 24))
                    &&& r->0->Ufs_0.lu2_size == crate::bytes::le64_of(resp.subrange(24, 32))
                },
    {
        if let Some(s) = self.dev_info.storage() {
            proof {
                crate::bytes::lemma_prefix_refl(self.conn.port.sent());
            }
            return Some(s);
        }
        let ghost s0 = self.conn.port.sent();
        let emmc_resp = self.probe_info(Cmd::GetEmmcInfo);
        let ghost s1 = self.conn.port.sent();
        let ufs_resp = self.probe_info(Cmd::GetUfsInfo);
        proof {
            crate::bytes::lemma_prefix_trans(s0, s1, self.conn.port.sent());
        }
        let ghost s2 = self.conn.port.sent();
        if let Ok(resp) = emmc_resp {
            if !all_zero(resp.as_slice()) {
                if let Ok(storage) = EmmcStorage::from_response(resp.as_slice()) {
                    let s = Storage::Emmc(storage);
                    self.dev_info.set_storage(s);
                    proof {
                        let j = choose|j: int| 0 <= j < resp@.len() && resp@[j] != 0;
                        assert(resp@.subrange(4, 12) == resp@.subrange(4, 12));
                        let f = spec_frame(
                            DT_PROTOCOL_FLOW,
                            le32_bytes(spec_cmd_code(Cmd::DeviceCtrl)),
                        );
                        let cur = self.conn.port.sent();
                        let app = cur.skip(s0.len() as int);
                        assert(s1 == s2.subrange(0, s1.len() as int));
                        assert forall|k: int| 0 <= k < f.len() implies app[k] == f[k] by {
                            assert(app[k] == s2[s0.len() + k]);
                            assert(s2[s0.len() + k] == s1[s0.len() + k]);
                            assert(s1[s0.len() + k] == f[k]);
                        };
                        assert(app.subrange(0, f.len() as int) =~= f);
                        assert(crate::scan::match_at(app, f, 0));
                    }
                    return Some(s);
                }
            }
        }
        if let Ok(resp) = ufs_resp {
            if !all_zero(resp.as_slice()) {
                if let Ok(storage) = UfsStorage::from_response(resp.as_slice()) {
                    let s = Storage::Ufs(storage);
                    self.dev_info.set_storage(s);
                    proof {
                        let j = choose|j: int| 0 <= j < resp@.len() && resp@[j] != 0;
                        assert(resp@.subrange(8, 16) == resp@.subrange(8, 16));
                        let f = spec_frame(
                            DT_PROTOCOL_FLOW,
                            le32_bytes(spec_cmd_code(Cmd::DeviceCtrl)),
                        );
                        let app = self.conn.port.sent().skip(s0.len() as int);
                        let off = s1.len() - s0.len();
                        assert forall|k: int| 0 <= k < f.len() implies app[off + k] == f[k] by {
                            assert(app[off + k] == s2[s1.len() + k]);
                            assert(s2[s1.len() + k] == f[k]);
                        };
                        assert(app.subrange(off, off + f.len() as int) =~= f);
                        assert(crate::scan::match_at(app, f, off));
                    }
                    return Some(s);
                }
            }
        }
        None
    }

    /// The storage type behind the agent, probing when unknown.
    pub fn get_storage_type(&mut self) -> (r: StorageType)
        ensures
            final(self).meta_kept(*old(self)),
            final(self).da == old(self).da,
            final(self).write_packet_length == old(self).write_packet_length,
            final(self).read_packet_length == old(self).read_packet_length,
            old(self).conn.port.sent().is_prefix_of(final(self).conn.port.sent()),
            old(self).dev_info.data.storage is Some ==> *final(self) == *old(self),
            final(self).dev_info.data.storage is Some ==> r == (
            if final(self).dev_info.data.storage->0 is Emmc {
                StorageType::Emmc
            } else {
                StorageType::Ufs
            }),
    {
        match self.get_or_detect_storage() {
            Some(s) => s.kind(),
            None => StorageType::Unknown,
        }
    }

    /// Sends `data`, padded with zeros to exactly `total` bytes, as
    /// checksummed chunks of `chunk_size` bytes.
    #[verifier::loop_isolation(false)]
    #[verifier::rlimit(100)]
    #[verifier::spinoff_prover]
    fn send_chunked(&mut self, data: &[u8], total: usize, chunk_size: usize) -> (r: Result<
        (),
        Error,
    >)
        requires
            chunk_size > 0,
        ensures
            final(self).meta_kept(*old(self)),
            final(self).da == old(self).da,
            final(self).write_packet_length == old(self).write_packet_length,
            final(self).read_packet_length == old(self).read_packet_length,
            old(self).conn.port.sent().is_prefix_of(final(self).conn.port.sent()),
            r is Ok ==> final(self).conn.port.sent() == old(self).conn.port.sent()
                + spec_chunk_frames(spec_pad0(data@, total as int), chunk_size as int),
    {
        let ghost base = self.conn.port.sent();
        let ghost padded = spec_pad0(data@, total as int);
        let mut pos: usize = 0;
        proof {
            assert(padded.skip(0) =~= padded);
            crate::bytes::lemma_prefix_refl(base);
        }
        while pos < total
            invariant
                pos <= total,
                padded.len() == total,
                self.conn.meta_kept(old(self).conn),
                self.da == old(self).da,
                self.write_packet_length == old(self).write_packet_length,
                self.read_packet_length == old(self).read_packet_length,
                base.is_prefix_of(self.conn.port.sent()),
                self.conn.port.sent() + spec_chunk_frames(
                    padded.skip(pos as int),
                    chunk_size as int,
                ) == base + spec_chunk_frames(padded, chunk_size as int),
            decreases total - pos,
        {
            let to_write = if total - pos < chunk_size {
                total - pos
            } else {
                chunk_size
            };
            let mut chunk: Vec<u8> = Vec::new();
            let mut i: usize = 0;
            while i < to_write
                invariant
                    i <= to_write,
                    pos + to_write <= total,
                    chunk@ == padded.subrange(pos as int, pos + i),
                decreases to_write - i,
            {
                if pos + i < data.len() {
                    chunk.push(data[pos + i]);
                } else {
                    chunk.push(0);
                }
                assert(chunk@ =~= padded.subrange(pos as int, pos + i + 1));
                i = i + 1;
            }
            let checksum = checksum16(chunk.as_slice());
            let ghost s_iter = self.conn.port.sent();
            let mut zero_word: Vec<u8> = Vec::new();
            crate::bytes::push_le32(&mut zero_word, 0);
            match self.send_frame(zero_word.as_slice()) {
                Ok(_) => {},
                Err(e) => {
                    proof {
                        crate::bytes::lemma_prefix_trans(base, s_iter, self.conn.port.sent());
                    }
                    return Err(e);
                },
            }
            let mut sum_word: Vec<u8> = Vec::new();
            crate::bytes::push_le32(&mut sum_word, checksum);
            match self.send_frame(sum_word.as_slice()) {
                Ok(_) => {},
                Err(e) => {
                    proof {
                        crate::bytes::lemma_prefix_trans(base, s_iter, self.conn.port.sent());
                    }
                    return Err(e);
                },
            }
            match self.send_frame(chunk.as_slice()) {
                Ok(_) => {},
                Err(e) => {
                    proof {
                        crate::bytes::lemma_prefix_trans(base, s_iter, self.conn.port.sent());
                    }
                    return Err(e);
                },
            }
            match self.get_status() {
                Ok(_) => {},
                Err(e) => {
                    proof {
                        crate::bytes::lemma_prefix_trans(base, s_iter, self.conn.port.sent());
                    }
                    return Err(e);
                },
            }
            proof {
                let rest = padded.skip(pos as int);
                assert(rest.len() == total - pos);
                if rest.len() <= chunk_size {
                    assert(chunk@ =~= rest);
                } else {
                    assert(chunk@ =~= rest.take(chunk_size as int));
                    assert(rest.skip(chunk_size as int) =~= padded.skip(pos + chunk_size));
                }
                assert(padded.skip(pos + to_write) =~= (if rest.len() <= chunk_size {
                    Seq::<u8>::empty()
                } else {
                    rest.skip(chunk_size as int)
                }));
                assert(self.conn.port.sent() + spec_chunk_frames(
                    padded.skip(pos + to_write),
                    chunk_size as int,
                ) =~= base + spec_chunk_frames(padded, chunk_size as int));
                crate::bytes::lemma_prefix_trans(base, s_iter, self.conn.port.sent());
            }
            pos = pos + to_write;
        }
        proof {
            assert(padded.skip(total as int) =~= Seq::<u8>::empty());
            assert(self.conn.port.sent() + spec_chunk_frames(
                padded.skip(total as int),
                chunk_size as int,
            ) =~= self.conn.port.sent());
        }
        Ok(())
    }

    /// Reads data frames, acknowledging each, until `size` bytes are in or
    /// the device sends an empty frame; returns exactly their
    /// concatenation.
    #[verifier::loop_isolation(false)]
    #[verifier::rlimit(100)]
    fn receive_chunks(&mut self, size: usize) -> (r: Result<Vec<u8>, Error>)
        ensures
            final(self).meta_kept(*old(self)),
            final(self).da == old(self).da,
            final(self).dev_info == old(self).dev_info,
            old(self).conn.port.sent().is_prefix_of(final(self).conn.port.sent()),
            r is Ok ==> r->Ok_0@ == spec_read_chunks(old(self).conn.port.avail(), size as int)
                && final(self).conn.port.sent() == old(self).conn.port.sent() + spec_read_acks(
                old(self).conn.port.avail(),
                size as int,
            ),
    {
        let ghost av0 = self.conn.port.avail();
        let ghost s0 = self.conn.port.sent();
        let mut out: Vec<u8> = Vec::new();
        let ghost mut acks: Seq<u8> = Seq::empty();
        let mut done = false;
        proof {
            crate::bytes::lemma_prefix_refl(s0);
            assert(s0 + acks =~= s0);
        }
        while !done
            invariant
                self.conn.meta_kept(old(self).conn),
                self.da == old(self).da,
                self.dev_info == old(self).dev_info,
                old(self).conn.port.sent().is_prefix_of(self.conn.port.sent()),
                self.conn.port.sent() == s0 + acks,
                done ==> out@ == spec_read_chunks(av0, size as int) && acks == spec_read_acks(
                    av0,
                    size as int,
                ),
                !done ==> spec_read_chunks(av0, size as int) == out@ + spec_read_chunks(
                    self.conn.port.avail(),
                    size - out@.len(),
                ),
                !done ==> spec_read_acks(av0, size as int) == acks + spec_read_acks(
                    self.conn.port.avail(),
                    size - out@.len(),
                ),
            decreases (if done {
                0int
            } else {
                1int
            }), size + 1 - (if out@.len() > size {
                size as int
            } else {
                out@.len() as int
            }),
        {
            let ghost av_h = self.conn.port.avail();
            let ghost rem = size - out@.len();
            let ghost s_iter = self.conn.port.sent();
            let chunk = match self.read_frame() {
                Ok(c) => c,
                Err(e) => {
                    return Err(e);
                },
            };
            if chunk.len() == 0 {
                proof {
                    assert(spec_read_chunks(av_h, rem) =~= Seq::<u8>::empty());
                    assert(spec_read_acks(av_h, rem) =~= Seq::<u8>::empty());
                    assert(out@ + spec_read_chunks(av_h, rem) =~= out@);
                    assert(acks + spec_read_acks(av_h, rem) =~= acks);
                }
                done = true;
            } else {
                let chunk_len = chunk.len();
                let ghost out_pre = out@;
                let mut k: usize = 0;
                while k < chunk_len
                    invariant
                        k <= chunk@.len(),
                        chunk_len == chunk@.len(),
                        out@ == out_pre + chunk@.take(k as int),
                    decreases chunk_len - k,
                {
                    out.push(chunk[k]);
                    assert(out@ =~= out_pre + chunk@.take(k + 1));
                    k = k + 1;
                }
                proof {
                    assert(chunk@.take(chunk@.len() as int) =~= chunk@);
                    assert(out@ == out_pre + chunk@);
                }
                let ack: Vec<u8> = vec![0u8, 0u8, 0u8, 0u8];
                proof {
                    assert(ack@ =~= le32_bytes(0));
                }
                match self.send(ack.as_slice()) {
                    Ok(_) => {
                        proof {
                            crate::bytes::lemma_prefix_trans(
                                old(self).conn.port.sent(),
                                s_iter,
                                self.conn.port.sent(),
                            );
                        }
                    },
                    Err(e) => {
                        proof {
                            crate::bytes::lemma_prefix_trans(
                                old(self).conn.port.sent(),
                                s_iter,
                                self.conn.port.sent(),
                            );
                        }
                        return Err(e);
                    },
                }
                proof {
                    let af = spec_frame(DT_PROTOCOL_FLOW, le32_bytes(0));
                    acks = acks + af;
                    assert(self.conn.port.sent() =~= s0 + acks);
                    if chunk@.len() >= rem {
                        assert(spec_read_chunks(av_h, rem) == chunk@);
                        assert(spec_read_acks(av_h, rem) == af);
                        assert(out@ =~= out_pre + spec_read_chunks(av_h, rem));
                    } else {
                        assert(spec_read_chunks(av_h, rem) == chunk@ + spec_read_chunks(
                            self.conn.port.avail(),
                            rem - chunk@.len(),
                        ));
                        assert(spec_read_acks(av_h, rem) == af + spec_read_acks(
                            self.conn.port.avail(),
                            rem - chunk@.len(),
                        ));
                        assert(out_pre + spec_read_chunks(av_h, rem) =~= out@ + spec_read_chunks(
                            self.conn.port.avail(),
                            rem - chunk@.len(),
                        ));
                        assert((acks.subrange(0, acks.len() - af.len()) + spec_read_acks(
                            av_h,
                            rem,
                        )) =~= acks + spec_read_acks(
                            self.conn.port.avail(),
                            rem - chunk@.len(),
                        ));
                    }
                }
                if out.len() >= size {
                    done = true;
                }
            }
        }
        Ok(out)
    }

    /// The read exchange proper: the read command, the 44-byte parameter,
    /// then acknowledged data frames until `size` bytes are in or an empty
    /// frame closes the transfer.
    #[verifier::rlimit(100)]
    #[verifier::spinoff_prover]
    fn read_body(&mut self, st: u32, section: PartitionKind, addr: u64, size: usize) -> (r: Result<
        Vec<u8>,
        Error,
    >)
        ensures
            final(self).meta_kept(*old(self)),
            final(self).da == old(self).da,
            final(self).dev_info == old(self).dev_info,
            old(self).conn.port.sent().is_prefix_of(final(self).conn.port.sent()),
            r is Ok ==> {
                let av = old(self).conn.port.avail();
                let a1 = av.skip(crate::xflash::proto::spec_frame_len(av));
                let a2 = a1.skip(crate::xflash::proto::spec_frame_len(a1));
                &&& crate::xflash::proto::spec_frame_shape(av)
                &&& crate::xflash::proto::spec_status_ok(av)
                &&& crate::xflash::proto::spec_frame_shape(a1)
                &&& crate::xflash::proto::spec_status_ok(a1)
                &&& r->Ok_0@ == spec_read_chunks(a2, size as int)
                &&& final(self).conn.port.sent() == old(self).conn.port.sent() + spec_frame(
                    DT_PROTOCOL_FLOW,
                    le32_bytes(spec_cmd_code(Cmd::ReadData)),
                ) + spec_frame(
                    DT_PROTOCOL_FLOW,
                    spec_flash_param(st, spec_partition_code(section), addr, size as u64),
                ) + spec_read_acks(a2, size as int)
            },
    {
        let part = section.as_u32();
        let param = build_flash_param(st, part, addr, size as u64);
        let ghost s0 = self.conn.port.sent();
        match self.send_cmd(Cmd::ReadData) {
            Ok(_) => {},
            Err(e) => {
                return Err(e);
            },
        }
        let ghost s1 = self.conn.port.sent();
        match self.send(param.as_slice()) {
            Ok(_) => {},
            Err(e) => {
                proof {
                    crate::bytes::lemma_prefix_trans(s0, s1, self.conn.port.sent());
                }
                return Err(e);
            },
        }
        proof {
            crate::bytes::lemma_prefix_trans(s0, s1, self.conn.port.sent());
        }
        let ghost s2 = self.conn.port.sent();
        let r = self.receive_chunks(size);
        proof {
            crate::bytes::lemma_prefix_trans(s0, s2, self.conn.port.sent());
            if r is Ok {
                assert(self.conn.port.sent() =~= s0 + spec_frame(
                    DT_PROTOCOL_FLOW,
                    le32_bytes(spec_cmd_code(Cmd::ReadData)),
                ) + spec_frame(
                    DT_PROTOCOL_FLOW,
                    spec_flash_param(st, spec_partition_code(section), addr, size as u64),
                ) + spec_read_acks(
                    old(self).conn.port.avail().skip(
                        crate::xflash::proto::spec_frame_len(old(self).conn.port.avail()),
                    ).skip(
                        crate::xflash::proto::spec_frame_len(
                            old(self).conn.port.avail().skip(
                                crate::xflash::proto::spec_frame_len(old(self).conn.port.avail()),
                            ),
                        ),
                    ),
                    size as int,
                ));
            }
        }
        r
    }

    /// Reads `size` bytes of flash at `addr` in `section`: the read
    /// command, the 44-byte parameter, then acknowledged data frames. With
    /// the storage already probed, the result is exactly the data the
    /// device framed after the two command statuses, and the transcript is
    /// pinned byte for byte.
    pub fn read_flash(&mut self, addr: u64, size: usize, section: PartitionKind) -> (r: Result<
        Vec<u8>,
        Error,
    >)
        ensures
            final(self).meta_kept(*old(self)),
            final(self).da == old(self).da,
            old(self).conn.port.sent().is_prefix_of(final(self).conn.port.sent()),
            old(self).dev_info.data.storage is Some && r is Ok ==> {
                let st = spec_storage_code(
                    if old(self).dev_info.data.storage->0 is Emmc {
                        StorageType::Emmc
                    } else {
                        StorageType::Ufs
                    },
                );
                let av = old(self).conn.port.avail();
                let a1 = av.skip(crate::xflash::proto::spec_frame_len(av));
                let a2 = a1.skip(crate::xflash::proto::spec_frame_len(a1));
                &&& crate::xflash::proto::spec_frame_shape(av)
                &&& crate::xflash::proto::spec_status_ok(av)
                &&& crate::xflash::proto::spec_frame_shape(a1)
                &&& crate::xflash::proto::spec_status_ok(a1)
                &&& r->Ok_0@ == spec_read_chunks(a2, size as int)
                &&& final(self).conn.port.sent() == old(self).conn.port.sent() + spec_frame(
                    DT_PROTOCOL_FLOW,
                    le32_bytes(spec_cmd_code(Cmd::ReadData)),
                ) + spec_frame(
                    DT_PROTOCOL_FLOW,
                    spec_flash_param(st, spec_partition_code(section), addr, size as u64),
                ) + spec_read_acks(a2, size as int)
            },
    {
        let ghost s0 = self.conn.port.sent();
        let storage_type = self.get_storage_type();
        let st = storage_type.as_u32();
        let ghost s1 = self.conn.port.sent();
        let r = self.read_body(st, section, addr, size);
        proof {
            crate::bytes::lemma_prefix_trans(s0, s1, self.conn.port.sent());
        }
        r
    }

    /// The write exchange proper: command word, 44-byte parameter, chunked
    /// padded stream.
    #[verifier::rlimit(100)]
    #[verifier::spinoff_prover]
    fn write_body(
        &mut self,
        st: u32,
        section: PartitionKind,
        addr: u64,
        size: usize,
        data: &[u8],
        chunk_size: usize,
    ) -> (r: Result<(), Error>)
        requires
            chunk_size > 0,
        ensures
            final(self).meta_kept(*old(self)),
            final(self).da == old(self).da,
            final(self).write_packet_length == old(self).write_packet_length,
            final(self).read_packet_length == old(self).read_packet_length,
            old(self).conn.port.sent().is_prefix_of(final(self).conn.port.sent()),
            r is Ok ==> final(self).conn.port.sent() == old(self).conn.port.sent()
                + spec_write_suffix(st, section, addr, size as int, data@, chunk_size as int),
    {
        let part = section.as_u32();
        let param = build_flash_param(st, part, addr, size as u64);
        let ghost s0 = self.conn.port.sent();
        match self.send_cmd(Cmd::WriteData) {
            Ok(_) => {},
            Err(e) => {
                return Err(e);
            },
        }
        let ghost s1 = self.conn.port.sent();
        match self.send(param.as_slice()) {
            Ok(_) => {},
            Err(e) => {
                proof {
                    crate::bytes::lemma_prefix_trans(s0, s1, self.conn.port.sent());
                }
                return Err(e);
            },
        }
        proof {
            crate::bytes::lemma_prefix_trans(s0, s1, self.conn.port.sent());
        }
        let ghost s2 = self.conn.port.sent();
        match self.send_chunked(data, size, chunk_size) {
            Ok(_) => {},
            Err(e) => {
                proof {
                    crate::bytes::lemma_prefix_trans(s0, s2, self.conn.port.sent());
                }
                return Err(e);
            },
        }
        proof {
            crate::bytes::lemma_prefix_trans(s0, s2, self.conn.port.sent());
            assert(self.conn.port.sent() =~= s0 + spec_write_suffix(
                st,
                section,
                addr,
                size as int,
                data@,
                chunk_size as int,
            ));
        }
        Ok(())
    }

    /// Writes `data` into the `size`-byte region at `addr` of `section`:
    /// the write command, the 44-byte parameter, then the chunked stream of
    /// `data` padded with zeros to exactly `size` bytes — a short file
    /// never leaves stale bytes behind it.
    #[verifier::rlimit(100)]
    #[verifier::spinoff_prover]
    pub fn write_flash(&mut self, addr: u64, size: usize, data: &[u8], section: PartitionKind) -> (
    r: Result<(), Error>)
        ensures
            final(self).meta_kept(*old(self)),
            final(self).da == old(self).da,
            old(self).conn.port.sent().is_prefix_of(final(self).conn.port.sent()),
            r is Ok ==> final(self).write_packet_length is Some
                && final(self).write_packet_length->0 > 0 && exists|st: u32|
                spec_ends_with(
                    final(self).conn.port.sent(),
                    #[trigger] spec_write_suffix(
                        st,
                        section,
                        addr,
                        size as int,
                        data@,
                        final(self).write_packet_length->0 as int,
                    ),
                ),
    {
        let ghost s0 = self.conn.port.sent();
        let chunk_size = match self.get_write_packet_length() {
            Ok(c) => c,
            Err(e) => {
                return Err(e);
            },
        };
        if chunk_size == 0 {
            return Err(Error::Proto);
        }
        let ghost s1 = self.conn.port.sent();
        let storage_type = self.get_storage_type();
        proof {
            crate::bytes::lemma_prefix_trans(s0, s1, self.conn.port.sent());
        }
        let st = storage_type.as_u32();
        let ghost s2 = self.conn.port.sent();
        match self.write_body(st, section, addr, size, data, chunk_size) {
            Ok(_) => {},
            Err(e) => {
                proof {
                    crate::bytes::lemma_prefix_trans(s0, s2, self.conn.port.sent());
                }
                return Err(e);
            },
        }
        proof {
            crate::bytes::lemma_prefix_trans(s0, s2, self.conn.port.sent());
            let suffix = spec_write_suffix(st, section, addr, size as int, data@, chunk_size as int);
            lemma_suffix_append(s2, suffix);
            assert(self.write_packet_length->0 as int == chunk_size as int);
            assert(spec_ends_with(
                self.conn.port.sent(),
                spec_write_suffix(
                    st,
                    section,
                    addr,
                    size as int,
                    data@,
                    self.write_packet_length->0 as int,
                ),
            ));
        }
        Ok(())
    }

    /// Flashes a whole partition by name: the download command, the name
    /// and size parameters, then `data` in checksummed chunks, unpadded —
    /// the agent itself resolves the partition and checks the size.
    #[verifier::rlimit(100)]
    pub fn download(&mut self, part_name: &str, data: &[u8]) -> (r: Result<(), Error>)
        requires
            part_name.is_ascii(),
        ensures
            final(self).meta_kept(*old(self)),
            final(self).da == old(self).da,
            old(self).conn.port.sent().is_prefix_of(final(self).conn.port.sent()),
            r is Ok ==> final(self).write_packet_length is Some
                && final(self).write_packet_length->0 > 0 && spec_ends_with(
                final(self).conn.port.sent(),
                spec_frame(DT_PROTOCOL_FLOW, le32_bytes(spec_cmd_code(Cmd::Download))) + spec_frame(
                    DT_PROTOCOL_FLOW,
                    crate::ascii::ascii_of(part_name@),
                ) + spec_frame(DT_PROTOCOL_FLOW, le64_bytes(data@.len() as u64))
                    + spec_chunk_frames(data@, final(self).write_packet_length->0 as int),
            ),
    {
        let ghost s0 = self.conn.port.sent();
        let chunk_size = match self.get_write_packet_length() {
            Ok(c) => c,
            Err(e) => {
                return Err(e);
            },
        };
        if chunk_size == 0 {
            return Err(Error::Proto);
        }
        let ghost s1 = self.conn.port.sent();
        match self.send_cmd(Cmd::Download) {
            Ok(_) => {},
            Err(e) => {
                proof {
                    crate::bytes::lemma_prefix_trans(s0, s1, self.conn.port.sent());
                }
                return Err(e);
            },
        }
        proof {
            crate::bytes::lemma_prefix_trans(s0, s1, self.conn.port.sent());
        }
        let name_bytes = crate::ascii::str_bytes(part_name);
        let ghost s2 = self.conn.port.sent();
        match self.send_frame(name_bytes.as_slice()) {
            Ok(_) => {},
            Err(e) => {
                proof {
                    crate::bytes::lemma_prefix_trans(s0, s2, self.conn.port.sent());
                }
                return Err(e);
            },
        }
        proof {
            crate::bytes::lemma_prefix_trans(s0, s2, self.conn.port.sent());
        }
        let mut size_word: Vec<u8> = Vec::new();
        crate::bytes::push_le64(&mut size_word, data.len() as u64);
        let ghost s3 = self.conn.port.sent();
        match self.send_frame(size_word.as_slice()) {
            Ok(_) => {},
            Err(e) => {
                proof {
                    crate::bytes::lemma_prefix_trans(s0, s3, self.conn.port.sent());
                }
                return Err(e);
            },
        }
        proof {
            crate::bytes::lemma_prefix_trans(s0, s3, self.conn.port.sent());
        }
        let ghost s4 = self.conn.port.sent();
        match self.get_status() {
            Ok(_) => {},
            Err(e) => {
                return Err(e);
            },
        }
        let ghost s5 = self.conn.port.sent();
        match self.send_chunked(data, data.len(), chunk_size) {
            Ok(_) => {},
            Err(e) => {
                proof {
                    crate::bytes::lemma_prefix_trans(s0, s5, self.conn.port.sent());
                }
                return Err(e);
            },
        }
        proof {
            crate::bytes::lemma_prefix_trans(s0, s5, self.conn.port.sent());
            assert(spec_pad0(data@, data@.len() as int) =~= data@);
            let suffix = spec_frame(DT_PROTOCOL_FLOW, le32_bytes(spec_cmd_code(Cmd::Download)))
                + spec_frame(DT_PROTOCOL_FLOW, crate::ascii::ascii_of(part_name@)) + spec_frame(
                DT_PROTOCOL_FLOW,
                le64_bytes(data@.len() as u64),
            ) + spec_chunk_frames(data@, chunk_size as int);
            assert(self.conn.port.sent() =~= s1 + suffix) by {
                assert(self.conn.port.sent() == s1 + spec_frame(
                    DT_PROTOCOL_FLOW,
                    le32_bytes(spec_cmd_code(Cmd::Download)),
                ) + spec_frame(DT_PROTOCOL_FLOW, crate::ascii::ascii_of(part_name@)) + spec_frame(
                    DT_PROTOCOL_FLOW,
                    le64_bytes(data@.len() as u64),
                ) + spec_chunk_frames(data@, chunk_size as int));
            }
            lemma_suffix_append(s1, suffix);
        }
        Ok(())
    }

    /// Reads a whole partition back by name: the upload command and name,
    /// the device's total size, then acknowledged data frames until that
    /// many bytes are in. The result is exactly the data the device framed
    /// after the announced size.
    #[verifier::rlimit(100)]
    #[verifier::spinoff_prover]
    pub fn upload(&mut self, part_name: &str) -> (r: Result<Vec<u8>, Error>)
        requires
            part_name.is_ascii(),
        ensures
            final(self).meta_kept(*old(self)),
            final(self).da == old(self).da,
            final(self).dev_info == old(self).dev_info,
            old(self).conn.port.sent().is_prefix_of(final(self).conn.port.sent()),
            r is Ok ==> {
                let av = old(self).conn.port.avail();
                let a1 = av.skip(crate::xflash::proto::spec_frame_len(av));
                let a2 = a1.skip(crate::xflash::proto::spec_frame_len(a1));
                let a3 = a2.skip(crate::xflash::proto::spec_frame_len(a2));
                let a4 = a3.skip(crate::xflash::proto::spec_frame_len(a3));
                let total = crate::bytes::le64_of(
                    crate::xflash::proto::spec_frame_payload(a2).subrange(0, 8),
                );
                &&& crate::xflash::proto::spec_frame_shape(av)
                &&& crate::xflash::proto::spec_status_ok(av)
                &&& crate::xflash::proto::spec_frame_shape(a1)
                &&& crate::xflash::proto::spec_status_ok(a1)
                &&& crate::xflash::proto::spec_frame_shape(a2)
                &&& crate::xflash::proto::spec_frame_payload(a2).len() >= 8
                &&& crate::xflash::proto::spec_frame_shape(a3)
                &&& crate::xflash::proto::spec_status_ok(a3)
                &&& total <= usize::MAX
                &&& r->Ok_0@ == spec_read_chunks(a4, total as int)
                &&& final(self).conn.port.sent() == old(self).conn.port.sent() + spec_frame(
                    DT_PROTOCOL_FLOW,
                    le32_bytes(spec_cmd_code(Cmd::Upload)),
                ) + spec_frame(DT_PROTOCOL_FLOW, crate::ascii::ascii_of(part_name@))
                    + spec_read_acks(a4, total as int)
            },
    {
        let ghost s0 = self.conn.port.sent();
        match self.send_cmd(Cmd::Upload) {
            Ok(_) => {},
            Err(e) => {
                return Err(e);
            },
        }
        let name_bytes = crate::ascii::str_bytes(part_name);
        let ghost s1 = self.conn.port.sent();
        match self.send(name_bytes.as_slice()) {
            Ok(_) => {},
            Err(e) => {
                proof {
                    crate::bytes::lemma_prefix_trans(s0, s1, self.conn.port.sent());
                }
                return Err(e);
            },
        }
        proof {
            crate::bytes::lemma_prefix_trans(s0, s1, self.conn.port.sent());
        }
        let ghost s2 = self.conn.port.sent();
        let size_data = match self.read_frame() {
            Ok(d) => d,
            Err(e) => {
                return Err(e);
            },
        };
        match self.get_status() {
            Ok(_) => {},
            Err(e) => {
                return Err(e);
            },
        }
        if size_data.len() < 8 {
            return Err(Error::Proto);
        }
        let size64 = crate::bytes::read_le64(size_data.as_slice(), 0);
        if size64 > usize::MAX as u64 {
            return Err(Error::Proto);
        }
        let size = size64 as usize;
        let r = self.receive_chunks(size);
        proof {
            crate::bytes::lemma_prefix_trans(s0, s2, self.conn.port.sent());
            if r is Ok {
                assert(self.conn.port.sent() =~= s0 + spec_frame(
                    DT_PROTOCOL_FLOW,
                    le32_bytes(spec_cmd_code(Cmd::Upload)),
                ) + spec_frame(DT_PROTOCOL_FLOW, crate::ascii::ascii_of(part_name@))
                    + self.conn.port.sent().skip(s2.len() as int));
            }
        }
        r
    }

    /// Formats a partition by name.
    pub fn format(&mut self, part_name: &str) -> (r: Result<(), Error>)
        requires
            part_name.is_ascii(),
        ensures
            final(self).meta_kept(*old(self)),
            final(self).da == old(self).da,
            old(self).conn.port.sent().is_prefix_of(final(self).conn.port.sent()),
            r is Ok ==> final(self).conn.port.sent() == old(self).conn.port.sent() + spec_frame(
                DT_PROTOCOL_FLOW,
                le32_bytes(spec_cmd_code(Cmd::FormatPartition)),
            ) + spec_frame(DT_PROTOCOL_FLOW, crate::ascii::ascii_of(part_name@)),
    {
        let ghost s0 = self.conn.port.sent();
        match self.send_cmd(Cmd::FormatPartition) {
            Ok(_) => {},
            Err(e) => {
                return Err(e);
            },
        }
        let name_bytes = crate::ascii::str_bytes(part_name);
        let ghost s1 = self.conn.port.sent();
        let r = self.send(name_bytes.as_slice());
        proof {
            crate::bytes::lemma_prefix_trans(s0, s1, self.conn.port.sent());
        }
        match r {
            Ok(_) => Ok(()),
            Err(e) => Err(e),
        }
    }

    /// Reads a 32-bit register through device control: the register
    /// address goes out as a parameter, the value comes back as the first
    /// word of the reply frame.
    pub fn read32(&mut self, addr: u32) -> (r: Result<u32, Error>)
        ensures
            final(self).meta_kept(*old(self)),
            final(self).da == old(self).da,
            old(self).conn.port.sent().is_prefix_of(final(self).conn.port.sent()),
            r is Ok ==> final(self).conn.port.sent() == old(self).conn.port.sent() + spec_frame(
                DT_PROTOCOL_FLOW,
                le32_bytes(spec_cmd_code(Cmd::DeviceCtrl)),
            ) + spec_frame(
                DT_PROTOCOL_FLOW,
                le32_bytes(spec_cmd_code(Cmd::DeviceCtrlReadRegister)),
            ) + spec_frame(DT_PROTOCOL_FLOW, le32_bytes(addr)),
    {
        let mut param: Vec<u8> = Vec::new();
        crate::bytes::push_le32(&mut param, addr);
        let ghost s0 = self.conn.port.sent();
        match self.devctrl_set(Cmd::DeviceCtrlReadRegister, param.as_slice()) {
            Ok(_) => {},
            Err(e) => {
                return Err(e);
            },
        }
        let ghost s1 = self.conn.port.sent();
        let resp = match self.read_frame() {
            Ok(d) => d,
            Err(e) => {
                proof {
                    crate::bytes::lemma_prefix_trans(s0, s1, self.conn.port.sent());
                }
                return Err(e);
            },
        };
        match self.get_status() {
            Ok(_) => {},
            Err(e) => {
                proof {
                    crate::bytes::lemma_prefix_trans(s0, s1, self.conn.port.sent());
                }
                return Err(e);
            },
        }
        if resp.len() < 4 {
            proof {
                crate::bytes::lemma_prefix_trans(s0, s1, self.conn.port.sent());
            }
            return Err(Error::Io);
        }
        proof {
            crate::bytes::lemma_prefix_trans(s0, s1, self.conn.port.sent());
        }
        Ok(crate::bytes::read_le32(resp.as_slice(), 0))
    }

    /// Writes a 32-bit register through device control: the address and
    /// value travel together as one parameter.
    pub fn write32(&mut self, addr: u32, value: u32) -> (r: Result<(), Error>)
        ensures
            final(self).meta_kept(*old(self)),
            final(self).da == old(self).da,
            old(self).conn.port.sent().is_prefix_of(final(self).conn.port.sent()),
            r is Ok ==> final(self).conn.port.sent() == old(self).conn.port.sent() + spec_frame(
                DT_PROTOCOL_FLOW,
                le32_bytes(spec_cmd_code(Cmd::DeviceCtrl)),
            ) + spec_frame(DT_PROTOCOL_FLOW, le32_bytes(spec_cmd_code(Cmd::SetRegisterValue)))
                + spec_frame(DT_PROTOCOL_FLOW, le32_bytes(addr) + le32_bytes(value)),
    {
        let mut param: Vec<u8> = Vec::new();
        crate::bytes::push_le32(&mut param, addr);
        crate::bytes::push_le32(&mut param, value);
        self.devctrl_set(Cmd::SetRegisterValue, param.as_slice())
    }

    /// Queries the negotiated USB speed: the first word of the reply to
    /// the device-control query.
    pub fn get_usb_speed(&mut self) -> (r: Result<u32, Error>)
        ensures
            final(self).meta_kept(*old(self)),
            final(self).da == old(self).da,
            old(self).conn.port.sent().is_prefix_of(final(self).conn.port.sent()),
            r is Ok ==> {
                let av = old(self).conn.port.avail();
                let a1 = av.skip(crate::xflash::proto::spec_frame_len(av));
                let a2 = a1.skip(crate::xflash::proto::spec_frame_len(a1));
                let reply = crate::xflash::proto::spec_frame_payload(a2);
                &&& reply.len() >= 4
                &&& r->Ok_0 == crate::bytes::le32_of(reply.subrange(0, 4))
                &&& final(self).conn.port.sent() == old(self).conn.port.sent() + spec_frame(
                    DT_PROTOCOL_FLOW,
                    le32_bytes(spec_cmd_code(Cmd::DeviceCtrl)),
                ) + spec_frame(DT_PROTOCOL_FLOW, le32_bytes(spec_cmd_code(Cmd::GetUsbSpeed)))
            },
    {
        let resp = match self.devctrl_query(Cmd::GetUsbSpeed) {
            Ok(d) => d,
            Err(e) => {
                return Err(e);
            },
        };
        if resp.len() < 4 {
            return Err(Error::Proto);
        }
        Ok(crate::bytes::read_le32(resp.as_slice(), 0))
    }
}

/// Whether every byte of `data` is zero.
pub fn all_zero(data: &[u8]) -> (r: bool)
    ensures
        r == (forall|i: int| 0 <= i < data@.len() ==> data@[i] == 0),
{
    let mut i: usize = 0;
    while i < data.len()
        invariant
            i <= data@.len(),
            forall|k: int| 0 <= k < i ==> data@[k] == 0,
        decreases data@.len() - i,
    {
        if data[i] != 0 {
            return false;
        }
        i = i + 1;
    }
    true
}

} // verus!
