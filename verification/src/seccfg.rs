//! The seccfg partition record, version 4: the bootloader lock state framed
//! by two magics, followed by a digest of the header, zero-padded to a
//! 0x200-byte boundary.
//!
//! The digest computed here is the plain SHA-256 of the header. A device
//! whose record names a hardware sealing algorithm expects that digest
//! sealed through the SoC's own crypto peripheral; sealing is a register
//! dialog outside this library, and a caller that performs it hands the
//! sealed bytes in through the record's `enc_hash` field, which is then
//! written in place of the plain digest.
use vstd::prelude::*;

use crate::bytes::{le32_bytes, le32_of, push_le32, read_le32};
use crate::error::Error;

verus! {

/// Magic opening a version-4 record.
pub const SECCFG_MAGIC_BEGIN: u32 = 0x4D4D4D4D;

/// Magic closing the header of a version-4 record.
pub const SECCFG_MAGIC_END: u32 = 0x45454545;

/// Requested lock state of the bootloader.
#[derive(Debug, Clone, Copy, PartialEq, Eq, Structural)]
pub enum LockFlag {
    /// Lock the bootloader: `lock_state = 4`, `critical_lock_state = 1`.
    Lock,
    /// Unlock the bootloader: `lock_state = 3`, `critical_lock_state = 0`.
    Unlock,
}

/// Algorithm that sealed the record's digest.
#[derive(Debug, Clone, Copy, PartialEq, Eq, Structural)]
pub enum SecCfgV4Algo {
    SW,
    HW,
    HWv3,
    HWv4,
}

/// The digest of a byte sequence as the SHA-256 function computes it.
pub uninterp spec fn sha256_of(data: Seq<u8>) -> Seq<u8>;

/// Relies on `sha2::Sha256::digest`: a 32-byte digest that is a function of
/// the input bytes alone.
#[verifier::external_body]
fn sha256(data: &[u8]) -> (r: Vec<u8>)
    ensures
        r@ == sha256_of(data@),
        r@.len() == 32,
{
    <sha2::Sha256 as sha2::Digest>::digest(data).to_vec()
}

/// A version-4 seccfg record.
pub struct SecCfgV4 {
    /// Record version, 4 on current devices.
    pub seccfg_ver: u32,
    /// Header size field, 20 on current devices.
    pub seccfg_size: u32,
    /// Bootloader lock state.
    pub lock_state: u32,
    /// Lock state of the critical partitions.
    pub critical_lock_state: u32,
    /// Secure-boot runtime flags.
    pub sboot_runtime: u32,
    /// The sealing algorithm, when known.
    pub algo: Option<SecCfgV4Algo>,
    /// The sealed digest to write in place of the plain one, when set.
    pub enc_hash: Option<Vec<u8>>,
}

/// The 28 header bytes of a record: both magics and the five fields,
/// little-endian.
pub open spec fn spec_header_bytes(s: SecCfgV4) -> Seq<u8> {
    le32_bytes(SECCFG_MAGIC_BEGIN) + le32_bytes(s.seccfg_ver) + le32_bytes(s.seccfg_size)
        + le32_bytes(s.lock_state) + le32_bytes(s.critical_lock_state) + le32_bytes(
        s.sboot_runtime,
    ) + le32_bytes(SECCFG_MAGIC_END)
}

/// The digest bytes a record is written with: its sealed digest when one is
/// set, the plain digest of the header otherwise.
pub open spec fn spec_hash_field(s: SecCfgV4) -> Seq<u8> {
    if s.spec_enc_hash() is Some {
        s.spec_enc_hash()->0
    } else {
        sha256_of(spec_header_bytes(s))
    }
}

/// Zero bytes that pad a record of `n` bytes to the next 0x200 boundary.
pub open spec fn spec_pad_len(n: int) -> int {
    (0x200 - n % 0x200) % 0x200
}

/// The serialized record: header, digest, zero padding.
pub open spec fn spec_create(s: SecCfgV4) -> Seq<u8> {
    let body = spec_header_bytes(s) + spec_hash_field(s);
    body + Seq::new(spec_pad_len(body.len() as int) as nat, |i: int| 0u8)
}

/// `data` opens with a well-formed version-4 record: long enough for header
/// and digest, and both magics in place.
pub open spec fn spec_parse_ok(data: Seq<u8>) -> bool {
    &&& data.len() >= 60
    &&& le32_of(data.subrange(0, 4)) == SECCFG_MAGIC_BEGIN
    &&& le32_of(data.subrange(24, 28)) == SECCFG_MAGIC_END
}

impl SecCfgV4 {
    /// The sealed digest, if one is set.
    pub open spec fn spec_enc_hash(&self) -> Option<Seq<u8>> {
        match self.enc_hash {
            Some(h) => Some(h@),
            None => None,
        }
    }

    /// The sealing algorithm, if one is set.
    pub open spec fn spec_algo(&self) -> Option<SecCfgV4Algo> {
        self.algo
    }

    /// A fresh version-4 record, unlocked fields zeroed, no digest set.
    pub fn new() -> (r: SecCfgV4)
        ensures
            r.seccfg_ver == 4,
            r.seccfg_size == 20,
            r.lock_state == 0,
            r.critical_lock_state == 0,
            r.sboot_runtime == 0,
            r.spec_algo() is None,
            r.spec_enc_hash() is None,
    {
        SecCfgV4 {
            seccfg_ver: 4,
            seccfg_size: 20,
            lock_state: 0,
            critical_lock_state: 0,
            sboot_runtime: 0,
            algo: None,
            enc_hash: None,
        }
    }

    /// Parses the header and digest of a serialized record. Returns `Err`
    /// exactly when the data is shorter than header plus digest or either
    /// magic is wrong.
    pub fn parse_header(data: &[u8]) -> (r: Result<SecCfgV4, Error>)
        ensures
            r is Ok <==> spec_parse_ok(data@),
            r is Ok ==> {
                let s = r->Ok_0;
                &&& s.seccfg_ver == le32_of(data@.subrange(4, 8))
                &&& s.seccfg_size == le32_of(data@.subrange(8, 12))
                &&& s.lock_state == le32_of(data@.subrange(12, 16))
                &&& s.critical_lock_state == le32_of(data@.subrange(16, 20))
                &&& s.sboot_runtime == le32_of(data@.subrange(20, 24))
                &&& s.spec_algo() is None
                &&& s.spec_enc_hash() == Some(data@.subrange(28, 60))
            },
    {
        if data.len() < 60 {
            return Err(Error::Proto);
        }
        let magic = read_le32(data, 0);
        let seccfg_ver = read_le32(data, 4);
        let seccfg_size = read_le32(data, 8);
        let lock_state = read_le32(data, 12);
        let critical_lock_state = read_le32(data, 16);
        let sboot_runtime = read_le32(data, 20);
        let endflag = read_le32(data, 24);
        if magic != SECCFG_MAGIC_BEGIN || endflag != SECCFG_MAGIC_END {
            return Err(Error::Proto);
        }
        let enc_hash = crate::dafile::copy_range(data, 28, 60);
        Ok(
            SecCfgV4 {
                seccfg_ver,
                seccfg_size,
                lock_state,
                critical_lock_state,
                sboot_runtime,
                algo: None,
                enc_hash: Some(enc_hash),
            },
        )
    }

    /// The 28 header bytes of this record.
    pub fn header_bytes(&self) -> (r: Vec<u8>)
        ensures
            r@ == spec_header_bytes(*self),
    {
        let mut out: Vec<u8> = Vec::new();
        push_le32(&mut out, SECCFG_MAGIC_BEGIN);
        push_le32(&mut out, self.seccfg_ver);
        push_le32(&mut out, self.seccfg_size);
        push_le32(&mut out, self.lock_state);
        push_le32(&mut out, self.critical_lock_state);
        push_le32(&mut out, self.sboot_runtime);
        push_le32(&mut out, SECCFG_MAGIC_END);
        out
    }

    /// The plain SHA-256 digest of the header.
    pub fn get_hash(&self) -> (r: Vec<u8>)
        ensures
            r@ == sha256_of(spec_header_bytes(*self)),
            r@.len() == 32,
    {
        let header = self.header_bytes();
        sha256(header.as_slice())
    }

    /// The sealing algorithm, if one is set.
    pub fn get_algo(&self) -> (r: Option<SecCfgV4Algo>)
        ensures
            r == self.spec_algo(),
    {
        self.algo
    }

    /// Records the sealing algorithm.
    pub fn set_algo(&mut self, algo: SecCfgV4Algo)
        ensures
            final(self).spec_algo() == Some(algo),
            final(self).spec_enc_hash() == old(self).spec_enc_hash(),
            final(self).seccfg_ver == old(self).seccfg_ver,
            final(self).seccfg_size == old(self).seccfg_size,
            final(self).lock_state == old(self).lock_state,
            final(self).critical_lock_state == old(self).critical_lock_state,
            final(self).sboot_runtime == old(self).sboot_runtime,
    {
        self.algo = Some(algo);
    }

    /// Stores a sealed digest to be written in place of the plain one.
    pub fn set_encrypted_hash(&mut self, enc_hash: Vec<u8>)
        ensures
            final(self).spec_enc_hash() == Some(enc_hash@),
            final(self).spec_algo() == old(self).spec_algo(),
            final(self).seccfg_ver == old(self).seccfg_ver,
            final(self).seccfg_size == old(self).seccfg_size,
            final(self).lock_state == old(self).lock_state,
            final(self).critical_lock_state == old(self).critical_lock_state,
            final(self).sboot_runtime == old(self).sboot_runtime,
    {
        self.enc_hash = Some(enc_hash);
    }

    /// The sealed digest, or empty when none is set.
    pub fn get_encrypted_hash(&self) -> (r: Vec<u8>)
        ensures
            self.spec_enc_hash() is Some ==> r@ == self.spec_enc_hash()->0,
            self.spec_enc_hash() is None ==> r@.len() == 0,
    {
        match &self.enc_hash {
            Some(h) => crate::dafile::copy_range(h.as_slice(), 0, h.len()),
            None => Vec::new(),
        }
    }

    /// Sets the lock fields: locking sets `lock_state = 4` and
    /// `critical_lock_state = 1`; unlocking sets them to 3 and 0.
    pub fn set_lock_state(&mut self, lock_flag: LockFlag)
        ensures
            lock_flag is Lock ==> final(self).lock_state == 4 && final(self).critical_lock_state
                == 1,
            lock_flag is Unlock ==> final(self).lock_state == 3 && final(self).critical_lock_state
                == 0,
            final(self).seccfg_ver == old(self).seccfg_ver,
            final(self).seccfg_size == old(self).seccfg_size,
            final(self).sboot_runtime == old(self).sboot_runtime,
            final(self).spec_algo() == old(self).spec_algo(),
            final(self).spec_enc_hash() == old(self).spec_enc_hash(),
    {
        match lock_flag {
            LockFlag::Lock => {
                self.lock_state = 4;
                self.critical_lock_state = 1;
            },
            LockFlag::Unlock => {
                self.lock_state = 3;
                self.critical_lock_state = 0;
            },
        }
    }

    /// Serializes the record: header, digest (the sealed one when set, the
    /// plain one otherwise), zero padding to a 0x200 boundary.
    #[verifier::loop_isolation(false)]
    #[verifier::rlimit(100)]
    pub fn create(&self) -> (r: Vec<u8>)
        ensures
            r@ == spec_create(*self),
            r@.len() % 0x200 == 0,
    {
        let mut out = self.header_bytes();
        match &self.enc_hash {
            Some(h) => {
                let mut k: usize = 0;
                while k < h.len()
                    invariant
                        k <= h@.len(),
                        out@ == spec_header_bytes(*self) + h@.take(k as int),
                    decreases h@.len() - k,
                {
                    out.push(h[k]);
                    assert(out@ =~= spec_header_bytes(*self) + h@.take(k + 1));
                    k = k + 1;
                }
                assert(out@ =~= spec_header_bytes(*self) + spec_hash_field(*self));
            },
            None => {
                let hash = self.get_hash();
                let mut k: usize = 0;
                while k < hash.len()
                    invariant
                        k <= hash@.len(),
                        hash@ == spec_hash_field(*self),
                        out@ == spec_header_bytes(*self) + hash@.take(k as int),
                    decreases hash@.len() - k,
                {
                    out.push(hash[k]);
                    assert(out@ =~= spec_header_bytes(*self) + hash@.take(k + 1));
                    k = k + 1;
                }
                assert(out@ =~= spec_header_bytes(*self) + spec_hash_field(*self));
            },
        }
        let ghost body = spec_header_bytes(*self) + spec_hash_field(*self);
        let mut pushed: usize = 0;
        while out.len() % 0x200 != 0
            invariant
                out@.len() == body.len() + pushed,
                pushed <= spec_pad_len(body.len() as int),
                out@ == body + Seq::new(pushed as nat, |i: int| 0u8),
            decreases spec_pad_len(body.len() as int) - pushed,
        {
            out.push(0);
            pushed = pushed + 1;
            assert(out@ =~= body + Seq::new(pushed as nat, |i: int| 0u8));
        }
        assert(out@ =~= spec_create(*self));
        out
    }
}

/// Writing a record and reading the result back gives the same fields: in
/// the serialized bytes the magics, the five header fields, and the digest
/// stand at their fixed offsets, and the whole is 0x200-aligned. Parsing
/// those bytes therefore reconstructs the record.
pub proof fn lemma_seccfg_round_trip(s: SecCfgV4)
    requires
        spec_hash_field(s).len() == 32,
    ensures
        spec_create(s).len() % 0x200 == 0,
        spec_parse_ok(spec_create(s)),
        le32_of(spec_create(s).subrange(4, 8)) == s.seccfg_ver,
        le32_of(spec_create(s).subrange(8, 12)) == s.seccfg_size,
        le32_of(spec_create(s).subrange(12, 16)) == s.lock_state,
        le32_of(spec_create(s).subrange(16, 20)) == s.critical_lock_state,
        le32_of(spec_create(s).subrange(20, 24)) == s.sboot_runtime,
        spec_create(s).subrange(28, 60) == spec_hash_field(s),
{
    let b = spec_create(s);
    let body = spec_header_bytes(s) + spec_hash_field(s);
    assert(body.len() == 60);
    assert(b.len() == body.len() + spec_pad_len(body.len() as int));
    assert(b.len() % 0x200 == 0) by {
        assert(spec_pad_len(60) == 0x200 - 60);
    }
    assert(b.subrange(0, 4) =~= le32_bytes(SECCFG_MAGIC_BEGIN));
    assert(b.subrange(4, 8) =~= le32_bytes(s.seccfg_ver));
    assert(b.subrange(8, 12) =~= le32_bytes(s.seccfg_size));
    assert(b.subrange(12, 16) =~= le32_bytes(s.lock_state));
    assert(b.subrange(16, 20) =~= le32_bytes(s.critical_lock_state));
    assert(b.subrange(20, 24) =~= le32_bytes(s.sboot_runtime));
    assert(b.subrange(24, 28) =~= le32_bytes(SECCFG_MAGIC_END));
    assert(b.subrange(28, 60) =~= spec_hash_field(s));
    crate::bytes::lemma_le32_round_trip(SECCFG_MAGIC_BEGIN);
    crate::bytes::lemma_le32_round_trip(SECCFG_MAGIC_END);
    crate::bytes::lemma_le32_round_trip(s.seccfg_ver);
    crate::bytes::lemma_le32_round_trip(s.seccfg_size);
    crate::bytes::lemma_le32_round_trip(s.lock_state);
    crate::bytes::lemma_le32_round_trip(s.critical_lock_state);
    crate::bytes::lemma_le32_round_trip(s.sboot_runtime);
}

/// Parses a serialized seccfg record, applies the requested lock state,
/// refreshes the digest over the updated header, and serializes the result:
/// the pure step behind setting the device's lock state.
pub fn apply_lock_state(raw: &[u8], flag: LockFlag) -> (r: Result<Vec<u8>, Error>)
    ensures
        r is Ok <==> spec_parse_ok(raw@),
        r is Ok ==> {
            let b = r->Ok_0@;
            &&& b.len() % 0x200 == 0
            &&& le32_of(b.subrange(12, 16)) == (if flag is Lock {
                4u32
            } else {
                3u32
            })
            &&& le32_of(b.subrange(16, 20)) == (if flag is Lock {
                1u32
            } else {
                0u32
            })
            &&& le32_of(b.subrange(0, 4)) == SECCFG_MAGIC_BEGIN
            &&& le32_of(b.subrange(4, 8)) == le32_of(raw@.subrange(4, 8))
        },
{
    let mut seccfg = match SecCfgV4::parse_header(raw) {
        Ok(s) => s,
        Err(e) => {
            return Err(e);
        },
    };
    seccfg.set_lock_state(flag);
    let fresh_hash = seccfg.get_hash();
    seccfg.set_encrypted_hash(fresh_hash);
    let out = seccfg.create();
    proof {
        lemma_seccfg_round_trip(seccfg);
    }
    Ok(out)
}

} // verus!
