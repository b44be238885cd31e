//! On-device flash storage: the storage kinds, the partition sections each
//! kind exposes, the info records the agent reports, and the GUID partition
//! table parser.
use vstd::prelude::*;

use crate::bytes::{le16_of, le32_of, le64_of, read_le16, read_le32, read_le64};
use crate::error::Error;

verus! {

/// Kind of flash storage behind the agent.
#[derive(Debug, Clone, Copy, PartialEq, Eq, Structural)]
pub enum StorageType {
    Emmc,
    Ufs,
    Nand,
    Unknown,
}

/// Hardware section of an eMMC device.
#[derive(Debug, Clone, Copy, PartialEq, Eq, Structural)]
pub enum EmmcPartition {
    Boot1,
    Boot2,
    Rpmb,
    User,
}

/// Logical unit of a UFS device.
#[derive(Debug, Clone, Copy, PartialEq, Eq, Structural)]
pub enum UfsLu {
    Lu0,
    Lu1,
    Lu2,
    Lu3,
    Lu4,
    Lu5,
    Lu6,
    Lu7,
}

/// Section of the device flash that an operation addresses.
#[derive(Debug, Clone, Copy, PartialEq, Eq, Structural)]
pub enum PartitionKind {
    Emmc(EmmcPartition),
    Ufs(UfsLu),
    Nand,
    Unknown,
}

/// The wire code of a storage type in flash-operation parameters.
pub open spec fn spec_storage_code(t: StorageType) -> u32 {
    match t {
        StorageType::Emmc => 1,
        StorageType::Nand => 2,
        StorageType::Ufs => 0x30,
        StorageType::Unknown => 0,
    }
}

/// The wire code of a partition section in flash-operation parameters.
pub open spec fn spec_partition_code(k: PartitionKind) -> u32 {
    match k {
        PartitionKind::Emmc(p) => match p {
            EmmcPartition::Boot1 => 1,
            EmmcPartition::Boot2 => 2,
            EmmcPartition::Rpmb => 3,
            EmmcPartition::User => 8,
        },
        PartitionKind::Ufs(lu) => match lu {
            UfsLu::Lu0 => 0,
            UfsLu::Lu1 => 1,
            UfsLu::Lu2 => 2,
            UfsLu::Lu3 => 3,
            UfsLu::Lu4 => 4,
            UfsLu::Lu5 => 5,
            UfsLu::Lu6 => 6,
            UfsLu::Lu7 => 7,
        },
        PartitionKind::Nand => 8,
        PartitionKind::Unknown => 0,
    }
}

impl StorageType {
    /// The wire code of this storage type.
    pub fn as_u32(&self) -> (r: u32)
        ensures
            r == spec_storage_code(*self),
    {
        match self {
            StorageType::Emmc => 1,
            StorageType::Nand => 2,
            StorageType::Ufs => 0x30,
            StorageType::Unknown => 0,
        }
    }
}

impl PartitionKind {
    /// The wire code of this section.
    pub fn as_u32(&self) -> (r: u32)
        ensures
            r == spec_partition_code(*self),
    {
        match self {
            PartitionKind::Emmc(p) => match p {
                EmmcPartition::Boot1 => 1,
                EmmcPartition::Boot2 => 2,
                EmmcPartition::Rpmb => 3,
                EmmcPartition::User => 8,
            },
            PartitionKind::Ufs(lu) => match lu {
                UfsLu::Lu0 => 0,
                UfsLu::Lu1 => 1,
                UfsLu::Lu2 => 2,
                UfsLu::Lu3 => 3,
                UfsLu::Lu4 => 4,
                UfsLu::Lu5 => 5,
                UfsLu::Lu6 => 6,
                UfsLu::Lu7 => 7,
            },
            PartitionKind::Nand => 8,
            PartitionKind::Unknown => 0,
        }
    }
}

/// The eMMC info record the agent reports: status word, then the byte sizes
/// of the hardware sections, little-endian.
#[derive(Debug, Clone, Copy, PartialEq, Eq, Structural)]
pub struct EmmcStorage {
    /// Size of the first boot section, holding the preloader.
    pub boot1_size: u64,
    /// Size of the second boot section, holding the preloader backup.
    pub boot2_size: u64,
    /// Size of the replay-protected section.
    pub rpmb_size: u64,
    /// Size of the user area.
    pub ua_size: u64,
}

/// The UFS info record the agent reports: status word, block size, then the
/// byte sizes of the first three logical units, little-endian.
#[derive(Debug, Clone, Copy, PartialEq, Eq, Structural)]
pub struct UfsStorage {
    /// Size of logical unit 0, holding the preloader.
    pub lu0_size: u64,
    /// Size of logical unit 1, holding the preloader backup.
    pub lu1_size: u64,
    /// Size of logical unit 2, the user area.
    pub lu2_size: u64,
}

/// The storage the agent reported.
#[derive(Debug, Clone, Copy, PartialEq, Eq, Structural)]
pub enum Storage {
    Emmc(EmmcStorage),
    Ufs(UfsStorage),
}

impl EmmcStorage {
    /// Parses the binary eMMC info record: boot, RPMB and user-area sizes at
    /// their fixed offsets after the status word.
    pub fn from_response(data: &[u8]) -> (r: Result<EmmcStorage, Error>)
        ensures
            r is Ok <==> data@.len() >= 68,
            r is Ok ==> {
                let s = r->Ok_0;
                &&& s.boot1_size == le64_of(data@.subrange(4, 12))
                &&& s.boot2_size == le64_of(data@.subrange(12, 20))
                &&& s.rpmb_size == le64_of(data@.subrange(20, 28))
                &&& s.ua_size == le64_of(data@.subrange(60, 68))
            },
    {
        if data.len() < 68 {
            return Err(Error::Proto);
        }
        Ok(
            EmmcStorage {
                boot1_size: read_le64(data, 4),
                boot2_size: read_le64(data, 12),
                rpmb_size: read_le64(data, 20),
                ua_size: read_le64(data, 60),
            },
        )
    }
}

impl UfsStorage {
    /// Parses the binary UFS info record: the sizes of the first three
    /// logical units after the status word and block size.
    pub fn from_response(data: &[u8]) -> (r: Result<UfsStorage, Error>)
        ensures
            r is Ok <==> data@.len() >= 32,
            r is Ok ==> {
                let s = r->Ok_0;
                &&& s.lu0_size == le64_of(data@.subrange(8, 16))
                &&& s.lu1_size == le64_of(data@.subrange(16, 24))
                &&& s.lu2_size == le64_of(data@.subrange(24, 32))
            },
    {
        if data.len() < 32 {
            return Err(Error::Proto);
        }
        Ok(
            UfsStorage {
                lu0_size: read_le64(data, 8),
                lu1_size: read_le64(data, 16),
                lu2_size: read_le64(data, 24),
            },
        )
    }
}

impl Storage {
    /// The storage type of this record.
    pub fn kind(&self) -> (r: StorageType)
        ensures
            r == (if self is Emmc {
                StorageType::Emmc
            } else {
                StorageType::Ufs
            }),
    {
        match self {
            Storage::Emmc(_) => StorageType::Emmc,
            Storage::Ufs(_) => StorageType::Ufs,
        }
    }

    /// The section holding the preloader.
    pub fn get_pl_part1(&self) -> (r: PartitionKind)
        ensures
            self is Emmc ==> r == PartitionKind::Emmc(EmmcPartition::Boot1),
            self is Ufs ==> r == PartitionKind::Ufs(UfsLu::Lu0),
    {
        match self {
            Storage::Emmc(_) => PartitionKind::Emmc(EmmcPartition::Boot1),
            Storage::Ufs(_) => PartitionKind::Ufs(UfsLu::Lu0),
        }
    }

    /// The section holding the preloader backup.
    pub fn get_pl_part2(&self) -> (r: PartitionKind)
        ensures
            self is Emmc ==> r == PartitionKind::Emmc(EmmcPartition::Boot2),
            self is Ufs ==> r == PartitionKind::Ufs(UfsLu::Lu1),
    {
        match self {
            Storage::Emmc(_) => PartitionKind::Emmc(EmmcPartition::Boot2),
            Storage::Ufs(_) => PartitionKind::Ufs(UfsLu::Lu1),
        }
    }

    /// The user-area section, where the partition table lives.
    pub fn get_user_part(&self) -> (r: PartitionKind)
        ensures
            self is Emmc ==> r == PartitionKind::Emmc(EmmcPartition::User),
            self is Ufs ==> r == PartitionKind::Ufs(UfsLu::Lu2),
    {
        match self {
            Storage::Emmc(_) => PartitionKind::Emmc(EmmcPartition::User),
            Storage::Ufs(_) => PartitionKind::Ufs(UfsLu::Lu2),
        }
    }

    /// The size of the preloader section.
    pub fn get_pl1_size(&self) -> (r: u64)
        ensures
            self is Emmc ==> r == self->Emmc_0.boot1_size,
            self is Ufs ==> r == self->Ufs_0.lu0_size,
    {
        match self {
            Storage::Emmc(e) => e.boot1_size,
            Storage::Ufs(u) => u.lu0_size,
        }
    }

    /// The size of the preloader-backup section.
    pub fn get_pl2_size(&self) -> (r: u64)
        ensures
            self is Emmc ==> r == self->Emmc_0.boot2_size,
            self is Ufs ==> r == self->Ufs_0.lu1_size,
    {
        match self {
            Storage::Emmc(e) => e.boot2_size,
            Storage::Ufs(u) => u.lu1_size,
        }
    }
}

/// A named region of the user area, from the partition table or synthetic.
pub struct Partition {
    /// Name, as ASCII bytes.
    pub name: Vec<u8>,
    /// Size in bytes.
    pub size: usize,
    /// Byte offset of the region inside its section.
    pub address: u64,
    /// Section the region belongs to.
    pub kind: PartitionKind,
}

impl Partition {
    /// A partition record from its parts.
    pub fn new(name: Vec<u8>, size: usize, address: u64, kind: PartitionKind) -> (r: Partition)
        ensures
            r.name@ == name@,
            r.size == size,
            r.address == address,
            r.kind == kind,
    {
        Partition { name, size, address, kind }
    }
}

/// Sector size of a storage kind: 4096 bytes on UFS, 512 elsewhere.
pub open spec fn spec_sector_size(t: StorageType) -> int {
    if t is Ufs {
        4096
    } else {
        512
    }
}

/// Sector size as a value.
pub fn sector_size(t: StorageType) -> (r: usize)
    ensures
        r == spec_sector_size(t),
{
    match t {
        StorageType::Ufs => 4096,
        _ => 512,
    }
}

/// The user-area section of a storage kind, where table entries live.
pub open spec fn spec_user_kind(t: StorageType) -> PartitionKind {
    match t {
        StorageType::Emmc => PartitionKind::Emmc(EmmcPartition::User),
        StorageType::Ufs => PartitionKind::Ufs(UfsLu::Lu2),
        StorageType::Nand => PartitionKind::Nand,
        StorageType::Unknown => PartitionKind::Unknown,
    }
}

/// Bytes of table entry `j`: 128 bytes starting at the third sector.
pub open spec fn spec_gpt_entry(data: Seq<u8>, t: StorageType, j: int) -> Seq<u8> {
    data.subrange(2 * spec_sector_size(t) + 128 * j, 2 * spec_sector_size(t) + 128 * (j + 1))
}

/// An entry is in use: its type identifier is not all zero.
pub open spec fn spec_entry_used(e: Seq<u8>) -> bool {
    exists|k: int| 0 <= k < 16 && e[k] != 0
}

/// One visible character of a table entry name: the printable ASCII range
/// itself, a question mark for anything else.
pub open spec fn spec_name_byte(u: u16) -> u8 {
    if 0x20 <= u < 0x7F {
        u as u8
    } else {
        0x3F
    }
}

/// The name of an entry: its UTF-16 units up to the first NUL, each
/// rendered as one byte.
pub open spec fn spec_entry_name(e: Seq<u8>, k: int) -> Seq<u8>
    decreases 36 - k,
{
    if k < 0 || k >= 36 {
        Seq::empty()
    } else {
        let u = le16_of(e.subrange(56 + 2 * k, 58 + 2 * k));
        if u == 0 {
            Seq::empty()
        } else {
            seq![spec_name_byte(u)] + spec_entry_name(e, k + 1)
        }
    }
}

/// First sector number an entry covers.
pub open spec fn spec_entry_first(e: Seq<u8>) -> u64 {
    le64_of(e.subrange(32, 40))
}

/// Last sector number an entry covers.
pub open spec fn spec_entry_last(e: Seq<u8>) -> u64 {
    le64_of(e.subrange(40, 48))
}

/// An in-use entry yields a representable partition: its sectors are
/// ordered and its offset and size fit the machine.
pub open spec fn spec_entry_fits(e: Seq<u8>, t: StorageType) -> bool {
    let sec = spec_sector_size(t);
    &&& spec_entry_first(e) <= spec_entry_last(e)
    &&& spec_entry_first(e) * sec <= u64::MAX
    &&& (spec_entry_last(e) - spec_entry_first(e) + 1) * sec <= usize::MAX
}

/// What one parsed entry carries.
pub struct GptEntryInfo {
    /// Decoded name bytes.
    pub name: Seq<u8>,
    /// Byte offset in the user area.
    pub address: int,
    /// Size in bytes.
    pub size: int,
}

/// The entry as an abstract record.
pub open spec fn spec_entry_info(e: Seq<u8>, t: StorageType) -> GptEntryInfo {
    GptEntryInfo {
        name: spec_entry_name(e, 0),
        address: spec_entry_first(e) * spec_sector_size(t),
        size: (spec_entry_last(e) - spec_entry_first(e) + 1) * spec_sector_size(t),
    }
}

/// The records of the first `n` table entries that are in use, in table
/// order.
pub open spec fn spec_gpt_list(data: Seq<u8>, t: StorageType, n: int) -> Seq<GptEntryInfo>
    decreases n,
{
    if n <= 0 {
        Seq::empty()
    } else {
        let prefix = spec_gpt_list(data, t, n - 1);
        if spec_entry_used(spec_gpt_entry(data, t, n - 1)) {
            prefix.push(spec_entry_info(spec_gpt_entry(data, t, n - 1), t))
        } else {
            prefix
        }
    }
}

/// Number of entries the table header announces.
pub open spec fn spec_gpt_count(data: Seq<u8>, t: StorageType) -> u32 {
    le32_of(data.subrange(spec_sector_size(t) + 80, spec_sector_size(t) + 84))
}

/// The table parses: room for header and announced entries, the header
/// signature in place, and every in-use entry representable.
pub open spec fn spec_gpt_ok(data: Seq<u8>, t: StorageType) -> bool {
    let sec = spec_sector_size(t);
    &&& data.len() >= 2 * sec
    &&& data.subrange(sec, sec + 8) == crate::ascii::ascii_of("EFI PART"@)
    &&& 2 * sec + 128 * spec_gpt_count(data, t) <= data.len()
    &&& forall|j: int|
        0 <= j < spec_gpt_count(data, t) && spec_entry_used(#[trigger] spec_gpt_entry(data, t, j))
            ==> spec_entry_fits(spec_gpt_entry(data, t, j), t)
}

/// The record a partition carries.
pub open spec fn spec_part_abs(p: Partition) -> GptEntryInfo {
    GptEntryInfo { name: p.name@, address: p.address as int, size: p.size as int }
}

/// Parses a GUID partition table read from the start of the user area:
/// header in the second sector, entry array in the third. Returns one
/// partition per in-use entry, in table order, each placed in the user
/// section of `t`. Returns `Err` exactly when the header or an in-use entry
/// is malformed or out of range.
#[verifier::loop_isolation(false)]
#[verifier::rlimit(100)]
#[verifier::spinoff_prover]
pub fn parse_gpt(data: &[u8], t: StorageType) -> (r: Result<Vec<Partition>, Error>)
    ensures
        r is Ok <==> spec_gpt_ok(data@, t),
        r is Ok ==> {
            let parts = r->Ok_0;
            &&& parts@.len() == spec_gpt_list(data@, t, spec_gpt_count(data@, t) as int).len()
            &&& forall|m: int|
                0 <= m < parts@.len() ==> spec_part_abs(#[trigger] parts@[m]) == spec_gpt_list(
                    data@,
                    t,
                    spec_gpt_count(data@, t) as int,
                )[m]
            &&& forall|m: int| 0 <= m < parts@.len() ==> (#[trigger] parts@[m]).kind
                == spec_user_kind(t)
        },
{
    let sec = sector_size(t);
    if data.len() < 2 * sec {
        return Err(Error::Proto);
    }
    proof {
        reveal_strlit("EFI PART");
    }
    let signature = crate::ascii::str_bytes("EFI PART");
    if !crate::scan::is_match_at(data, signature.as_slice(), sec) {
        proof {
            assert(data@.subrange(sec as int, sec + 8) != crate::ascii::ascii_of("EFI PART"@));
        }
        return Err(Error::Proto);
    }
    assert(data@.subrange(sec as int, sec + 8) == crate::ascii::ascii_of("EFI PART"@));
    let count = read_le32(data, sec + 80);
    if (2 * sec) as u64 + 128u64 * (count as u64) > data.len() as u64 {
        return Err(Error::Proto);
    }
    let n = count as usize;
    let mut parts: Vec<Partition> = Vec::new();
    let mut j: usize = 0;
    while j < n
        invariant
            j <= n,
            parts@.len() == spec_gpt_list(data@, t, j as int).len(),
            forall|m: int|
                0 <= m < parts@.len() ==> spec_part_abs(#[trigger] parts@[m]) == spec_gpt_list(
                    data@,
                    t,
                    j as int,
                )[m],
            forall|m: int|
                0 <= m < parts@.len() ==> (#[trigger] parts@[m]).kind == spec_user_kind(t),
            forall|k: int|
                0 <= k < j && spec_entry_used(#[trigger] spec_gpt_entry(data@, t, k))
                    ==> spec_entry_fits(spec_gpt_entry(data@, t, k), t),
        decreases n - j,
    {
        let base = 2 * sec + 128 * j;
        let ghost e = spec_gpt_entry(data@, t, j as int);
        proof {
            assert(128 * (j as int) + 128 <= 128 * (n as int)) by (nonlinear_arith)
                requires
                    j < n,
            ;
            assert(e =~= data@.subrange(base as int, base + 128));
        }
        let mut used = false;
        let mut k: usize = 0;
        while k < 16
            invariant
                k <= 16,
                base + 128 <= data@.len(),
                e == data@.subrange(base as int, base + 128),
                used <==> exists|m: int| 0 <= m < k && e[m] != 0,
            decreases 16 - k,
        {
            if data[base + k] != 0 {
                used = true;
                assert(e[k as int] != 0);
            }
            k = k + 1;
        }
        assert(used == spec_entry_used(e));
        if used {
            let first = read_le64(data, base + 32);
            let last = read_le64(data, base + 40);
            proof {
                assert(e.subrange(32, 40) =~= data@.subrange(base + 32, base + 40));
                assert(e.subrange(40, 48) =~= data@.subrange(base + 40, base + 48));
            }
            if last < first {
                assert(!spec_entry_fits(e, t));
                return Err(Error::Proto);
            }
            if first as u128 * sec as u128 > u64::MAX as u128 {
                assert(!spec_entry_fits(e, t));
                return Err(Error::Proto);
            }
            if ((last as u128) - (first as u128) + 1) * (sec as u128) > usize::MAX as u128 {
                assert(!spec_entry_fits(e, t));
                return Err(Error::Proto);
            }
            let address = first * sec as u64;
            let size = (((last as u128) - (first as u128) + 1) * (sec as u128)) as usize;
            let mut name: Vec<u8> = Vec::new();
            let mut u: usize = 0;
            while u < 36
                invariant
                    u <= 36,
                    base + 128 <= data@.len(),
                    e == data@.subrange(base as int, base + 128),
                    spec_entry_name(e, 0) == name@ + spec_entry_name(e, u as int),
                decreases 36 - u,
            {
                let unit = read_le16(data, base + 56 + 2 * u);
                proof {
                    assert(e.subrange(56 + 2 * (u as int), 58 + 2 * (u as int)) =~= data@.subrange(
                        base + 56 + 2 * (u as int),
                        base + 58 + 2 * (u as int),
                    ));
                }
                if unit == 0 {
                    break;
                }
                if 0x20 <= unit && unit < 0x7F {
                    name.push(unit as u8);
                } else {
                    name.push(0x3F);
                }
                u = u + 1;
            }
            assert(name@ == spec_entry_name(e, 0));
            let ghost parts_pre = parts@;
            let part = Partition { name, size, address, kind: user_kind(t) };
            assert(spec_part_abs(part) == spec_entry_info(e, t));
            parts.push(part);
            proof {
                assert(spec_gpt_list(data@, t, j + 1) =~= spec_gpt_list(data@, t, j as int).push(
                    spec_entry_info(e, t),
                ));
            }
        } else {
            proof {
                assert(spec_gpt_list(data@, t, j + 1) =~= spec_gpt_list(data@, t, j as int));
            }
        }
        j = j + 1;
    }
    assert(spec_gpt_ok(data@, t));
    Ok(parts)
}

/// The user-area section of a storage kind.
pub fn user_kind(t: StorageType) -> (r: PartitionKind)
    ensures
        r == spec_user_kind(t),
{
    match t {
        StorageType::Emmc => PartitionKind::Emmc(EmmcPartition::User),
        StorageType::Ufs => PartitionKind::Ufs(UfsLu::Lu2),
        StorageType::Nand => PartitionKind::Nand,
        StorageType::Unknown => PartitionKind::Unknown,
    }
}

} // verus!
