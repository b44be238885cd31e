//! The Download Agent container: a multi-SoC archive whose header carries an
//! entry table, each entry describing the regions (metadata, stage-1, stage-2)
//! of one chip's agent. Parsing, dialect classification, and selection of the
//! entry matching a reported hardware code.
use vstd::prelude::*;

use crate::ascii::ascii_of;
use crate::bytes::{le16_of, le32_of};
use crate::error::Error;
use crate::scan::{contains_bytes, find_bytes, match_at};

verus! {

/// Offset of the entry table; the container header occupies bytes `0 .. 0x6C`.
pub const DA_ENTRY_TABLE: usize = 0x6C;

/// Size of one entry of the Legacy dialect.
pub const DA_ENTRY_LEGACY: usize = 0xD8;

/// Size of one entry of the V5 and V6 dialects.
pub const DA_ENTRY_MODERN: usize = 0xDC;

/// Offset of the region-record table inside an entry.
pub const DA_REGION_TABLE: usize = 0x14;

/// Size of one region record.
pub const DA_REGION_RECORD: usize = 20;

/// Wire dialect spoken by a Download Agent.
#[derive(Debug, Clone, Copy, PartialEq, Eq, Structural)]
pub enum DAType {
    /// Old agents of early devices.
    Legacy,
    /// The XFlash binary dialect.
    V5,
    /// The XML-over-framed-binary dialect.
    V6,
}

/// One region of a DA entry: a slice of the container plus its load address.
pub struct DAEntryRegion {
    /// Raw bytes of the region, signature included.
    pub data: Vec<u8>,
    /// Offset of the region within the container.
    pub offset: u32,
    /// Length of the region in bytes.
    pub length: u32,
    /// Address at which the device loads the region.
    pub addr: u32,
    /// `length` minus the trailing signature.
    pub region_length: u32,
    /// Length of the trailing signature, if any.
    pub sig_len: u32,
}

/// A Download Agent entry for one SoC.
pub struct DA {
    /// Dialect of this entry.
    pub da_type: DAType,
    /// Regions of the entry; region 1 is DA1, region 2 is DA2.
    pub regions: Vec<DAEntryRegion>,
    /// Entry magic, `0xDADA` in a well-formed container.
    pub magic: u16,
    /// Code selecting the SoC this entry serves.
    pub hw_code: u16,
    /// Sub-code of the SoC.
    pub hw_sub_code: u16,
}

/// A parsed Download Agent container.
pub struct DAFile {
    /// The raw container bytes.
    pub da_raw_data: Vec<u8>,
    /// Dialect of the container as a whole.
    pub da_type: DAType,
    /// The parsed entries.
    pub das: Vec<DA>,
}

/// Entry size of a dialect.
pub open spec fn spec_entry_size(t: DAType) -> int {
    if t is Legacy {
        0xD8
    } else {
        0xDC
    }
}

/// Dialect of the container, read from the header: an entry magic at the
/// legacy position marks Legacy, the v6 marker in the header marks V6,
/// anything else is V5.
pub open spec fn spec_base_da_type(raw: Seq<u8>) -> DAType {
    if raw.len() >= 0x146 && raw[0x144] == 0xDA && raw[0x145] == 0xDA {
        DAType::Legacy
    } else if contains_bytes(raw.take(0x6C), ascii_of("MTK_DA_v6"@)) {
        DAType::V6
    } else {
        DAType::V5
    }
}

/// Number of entries the header announces.
pub open spec fn spec_num_entries(raw: Seq<u8>) -> u32 {
    le32_of(raw.subrange(0x68, 0x6C))
}

/// The bytes of entry `i` of the table.
pub open spec fn spec_entry_at(raw: Seq<u8>, t: DAType, i: int) -> Seq<u8> {
    raw.subrange(0x6C + i * spec_entry_size(t), 0x6C + (i + 1) * spec_entry_size(t))
}

/// Region record `j` of an entry is within bounds of the container and its
/// signature fits inside the region.
pub open spec fn spec_region_ok(raw: Seq<u8>, e: Seq<u8>, j: int) -> bool {
    let rec = 0x14 + 20 * j;
    let off = le32_of(e.subrange(rec, rec + 4)) as int;
    let len = le32_of(e.subrange(rec + 4, rec + 8)) as int;
    let sig = le32_of(e.subrange(rec + 0x10, rec + 0x14)) as int;
    off + len <= raw.len() && sig <= len
}

/// Parsed region `r` carries exactly what record `j` of entry `e` describes.
pub open spec fn spec_region_matches(raw: Seq<u8>, e: Seq<u8>, j: int, r: DAEntryRegion) -> bool {
    let rec = 0x14 + 20 * j;
    &&& r.offset == le32_of(e.subrange(rec, rec + 4))
    &&& r.length == le32_of(e.subrange(rec + 4, rec + 8))
    &&& r.addr == le32_of(e.subrange(rec + 8, rec + 12))
    &&& r.sig_len == le32_of(e.subrange(rec + 0x10, rec + 0x14))
    &&& r.region_length == r.length - r.sig_len
    &&& r.data@ == raw.subrange(r.offset as int, r.offset + r.length)
}

/// Entry `i` of the table is well-formed: its region table fits in the entry
/// and every region record is in bounds.
pub open spec fn spec_entry_ok(raw: Seq<u8>, t: DAType, i: int) -> bool {
    let e = spec_entry_at(raw, t, i);
    let rc = le16_of(e.subrange(0x12, 0x14)) as int;
    &&& 0x14 + 20 * rc <= spec_entry_size(t)
    &&& forall|j: int| 0 <= j < rc ==> spec_region_ok(raw, e, j)
}

/// The dialect of one entry: the container dialect, downgraded to Legacy
/// when the stage-2 region carries the secondary-ROM marker.
pub open spec fn spec_entry_type(t: DAType, regions: Seq<DAEntryRegion>) -> DAType {
    if t is Legacy {
        DAType::Legacy
    } else if regions.len() > 2 && contains_bytes(regions[2].data@, ascii_of("AND_SECRO_v"@)) {
        DAType::Legacy
    } else {
        t
    }
}

/// Parsed entry `da` carries exactly what entry `i` of the table describes.
pub open spec fn spec_entry_matches(raw: Seq<u8>, t: DAType, i: int, da: DA) -> bool {
    let e = spec_entry_at(raw, t, i);
    let rc = le16_of(e.subrange(0x12, 0x14)) as int;
    &&& da.magic == le16_of(e.subrange(0, 2))
    &&& da.hw_code == le16_of(e.subrange(2, 4))
    &&& da.hw_sub_code == le16_of(e.subrange(4, 6))
    &&& da.regions@.len() == rc
    &&& forall|j: int| 0 <= j < rc ==> spec_region_matches(raw, e, j, da.regions@[j])
    &&& da.da_type == spec_entry_type(t, da.regions@)
}

/// The container parses: it is large enough, carries the download-agent tag
/// unless Legacy, its entry table fits, and every entry is well-formed.
pub open spec fn spec_parse_ok(raw: Seq<u8>) -> bool {
    let t = spec_base_da_type(raw);
    &&& raw.len() >= 0x148
    &&& (t is Legacy || contains_bytes(raw.take(0x6C), ascii_of("MTK_DOWNLOAD_AGENT"@)))
    &&& 0x6C + spec_num_entries(raw) * spec_entry_size(t) <= raw.len()
    &&& forall|i: int| 0 <= i < spec_num_entries(raw) ==> spec_entry_ok(raw, t, i)
}

/// The parsed file carries exactly what the container describes.
pub open spec fn spec_file_matches(raw: Seq<u8>, f: DAFile) -> bool {
    &&& f.da_raw_data@ == raw
    &&& f.da_type == spec_base_da_type(raw)
    &&& f.das@.len() == spec_num_entries(raw)
    &&& forall|i: int|
        0 <= i < f.das@.len() ==> spec_entry_matches(raw, spec_base_da_type(raw), i, f.das@[i])
}

/// The container's entry-selector code for a reported hardware code: the
/// fixed lookup table, with unlisted codes mapping to themselves.
pub open spec fn spec_da_code_of(hw: u16) -> u16 {
    if hw == 0x279 {
        0x6797
    } else if hw == 0x321 {
        0x6735
    } else if hw == 0x326 {
        0x6755
    } else if hw == 0x335 {
        0x6735
    } else if hw == 0x337 {
        0x6735
    } else if hw == 0x507 {
        0x6758
    } else if hw == 0x551 {
        0x6757
    } else if hw == 0x562 {
        0x6799
    } else if hw == 0x601 {
        0x6755
    } else if hw == 0x633 {
        0x6570
    } else if hw == 0x688 {
        0x6758
    } else if hw == 0x690 {
        0x6763
    } else if hw == 0x699 {
        0x6739
    } else if hw == 0x707 {
        0x6768
    } else if hw == 0x717 {
        0x6761
    } else if hw == 0x725 {
        0x6779
    } else if hw == 0x766 {
        0x6765
    } else if hw == 0x788 {
        0x6771
    } else if hw == 0x813 {
        0x6785
    } else if hw == 0x816 {
        0x6885
    } else if hw == 0x886 {
        0x6873
    } else if hw == 0x908 {
        0x8696
    } else if hw == 0x930 {
        0x8195
    } else if hw == 0x950 {
        0x6893
    } else if hw == 0x959 {
        0x6877
    } else if hw == 0x989 {
        0x6833
    } else if hw == 0x996 {
        0x6853
    } else if hw == 0x1066 {
        0x6781
    } else if hw == 0x6583 {
        0x6589
    } else if hw == 0x8172 {
        0x8173
    } else if hw == 0x8176 {
        0x8173
    } else {
        hw
    }
}

/// The lookup table as executable code.
pub fn da_code_of(hw: u16) -> (r: u16)
    ensures
        r == spec_da_code_of(hw),
{
    match hw {
        0x279 => 0x6797,
        0x321 => 0x6735,
        0x326 => 0x6755,
        0x335 => 0x6735,
        0x337 => 0x6735,
        0x507 => 0x6758,
        0x551 => 0x6757,
        0x562 => 0x6799,
        0x601 => 0x6755,
        0x633 => 0x6570,
        0x688 => 0x6758,
        0x690 => 0x6763,
        0x699 => 0x6739,
        0x707 => 0x6768,
        0x717 => 0x6761,
        0x725 => 0x6779,
        0x766 => 0x6765,
        0x788 => 0x6771,
        0x813 => 0x6785,
        0x816 => 0x6885,
        0x886 => 0x6873,
        0x908 => 0x8696,
        0x930 => 0x8195,
        0x950 => 0x6893,
        0x959 => 0x6877,
        0x989 => 0x6833,
        0x996 => 0x6853,
        0x1066 => 0x6781,
        0x6583 => 0x6589,
        0x8172 => 0x8173,
        0x8176 => 0x8173,
        _ => hw,
    }
}

/// Two regions carry the same fields and bytes.
pub open spec fn region_eq(a: DAEntryRegion, b: DAEntryRegion) -> bool {
    &&& a.data@ == b.data@
    &&& a.offset == b.offset
    &&& a.length == b.length
    &&& a.addr == b.addr
    &&& a.region_length == b.region_length
    &&& a.sig_len == b.sig_len
}

/// Two entries carry the same fields, region by region.
pub open spec fn da_eq(a: DA, b: DA) -> bool {
    &&& a.da_type == b.da_type
    &&& a.magic == b.magic
    &&& a.hw_code == b.hw_code
    &&& a.hw_sub_code == b.hw_sub_code
    &&& a.regions@.len() == b.regions@.len()
    &&& forall|j: int| 0 <= j < a.regions@.len() ==> region_eq(a.regions@[j], b.regions@[j])
}

/// Copies `data[start .. end]` into a fresh vector.
#[verifier::loop_isolation(false)]
pub fn copy_range(data: &[u8], start: usize, end: usize) -> (r: Vec<u8>)
    requires
        start <= end <= data@.len(),
    ensures
        r@ == data@.subrange(start as int, end as int),
{
    let mut r: Vec<u8> = Vec::new();
    let mut i: usize = start;
    while i < end
        invariant
            start <= i <= end,
            r@ == data@.subrange(start as int, i as int),
        decreases end - i,
    {
        r.push(data[i]);
        assert(r@ =~= data@.subrange(start as int, i + 1));
        i = i + 1;
    }
    r
}

/// Parses entry `i` of the table, whose bytes begin at `base`.
#[verifier::loop_isolation(false)]
#[verifier::rlimit(60)]
fn parse_entry(
    raw: &[u8],
    base: usize,
    esz: usize,
    da_type: DAType,
    Ghost(i): Ghost<int>,
) -> (r: Result<DA, Error>)
    requires
        da_type == spec_base_da_type(raw@),
        esz == spec_entry_size(da_type),
        0 <= i,
        base == 0x6C + i * spec_entry_size(da_type),
        base + esz <= raw@.len(),
    ensures
        r is Ok <==> spec_entry_ok(raw@, da_type, i),
        r is Ok ==> spec_entry_matches(raw@, da_type, i, r->Ok_0),
{
    let ghost t = da_type;
    let ghost e = spec_entry_at(raw@, t, i);
    let raw_len = raw.len();
    let magic = crate::bytes::read_le16(raw, base);
    let hw_code = crate::bytes::read_le16(raw, base + 2);
    let hw_sub_code = crate::bytes::read_le16(raw, base + 4);
    let region_count = crate::bytes::read_le16(raw, base + 0x12);
    proof {
        assert(e =~= raw@.subrange(base as int, base + esz));
        assert(e.subrange(0, 2) =~= raw@.subrange(base as int, base + 2));
        assert(e.subrange(2, 4) =~= raw@.subrange(base + 2, base + 4));
        assert(e.subrange(4, 6) =~= raw@.subrange(base + 4, base + 6));
        assert(e.subrange(0x12, 0x14) =~= raw@.subrange(base + 0x12, base + 0x14));
    }
    let rc = region_count as usize;
    if 0x14 + 20 * rc > esz {
        assert(!spec_entry_ok(raw@, t, i));
        return Err(Error::Proto);
    }
    let mut regions: Vec<DAEntryRegion> = Vec::new();
    let mut j: usize = 0;
    while j < rc
        invariant
            j <= rc,
            regions@.len() == j,
            forall|k: int| 0 <= k < j ==> #[trigger] spec_region_ok(raw@, e, k),
            forall|k: int|
                0 <= k < j ==> spec_region_matches(raw@, e, k, #[trigger] regions@[k]),
        decreases rc - j,
    {
        let rec = base + 0x14 + 20 * j;
        let offset = crate::bytes::read_le32(raw, rec);
        let length = crate::bytes::read_le32(raw, rec + 4);
        let addr = crate::bytes::read_le32(raw, rec + 8);
        let sig_len = crate::bytes::read_le32(raw, rec + 0x10);
        proof {
            let rr = 0x14 + 20 * (j as int);
            assert(e.subrange(rr, rr + 4) =~= raw@.subrange(rec as int, rec + 4));
            assert(e.subrange(rr + 4, rr + 8) =~= raw@.subrange(rec + 4, rec + 8));
            assert(e.subrange(rr + 8, rr + 12) =~= raw@.subrange(rec + 8, rec + 12));
            assert(e.subrange(rr + 0x10, rr + 0x14) =~= raw@.subrange(rec + 0x10, rec + 0x14));
        }
        if (offset as u64) + (length as u64) > raw_len as u64 || sig_len > length {
            assert(!spec_region_ok(raw@, e, j as int));
            assert(!spec_entry_ok(raw@, t, i));
            return Err(Error::Proto);
        }
        let data = copy_range(raw, offset as usize, offset as usize + length as usize);
        let reg = DAEntryRegion {
            data,
            offset,
            length,
            addr,
            region_length: length - sig_len,
            sig_len,
        };
        assert(spec_region_ok(raw@, e, j as int));
        assert(spec_region_matches(raw@, e, j as int, reg));
        let ghost regions_pre = regions@;
        regions.push(reg);
        proof {
            assert forall|k: int| 0 <= k < j + 1 implies #[trigger] spec_region_ok(raw@, e, k) by {
                if k < j as int {
                    assert(spec_region_ok(raw@, e, k));
                }
            };
            assert forall|k: int|
                0 <= k < j + 1 implies spec_region_matches(raw@, e, k, #[trigger] regions@[k]) by {
                if k == j as int {
                    assert(regions@[k] == reg);
                } else {
                    assert(regions@[k] == regions_pre[k]);
                    assert(spec_region_matches(raw@, e, k, regions_pre[k]));
                }
            };
        }
        j = j + 1;
    }
    let legacy = match da_type {
        DAType::Legacy => true,
        _ => false,
    };
    let entry_type = if legacy {
        DAType::Legacy
    } else if regions.len() > 2 {
        proof {
            reveal_strlit("AND_SECRO_v");
        }
        let secro = crate::ascii::str_bytes("AND_SECRO_v");
        let da2_data: &Vec<u8> = &regions[2].data;
        if crate::scan::has_bytes(da2_data.as_slice(), secro.as_slice()) {
            DAType::Legacy
        } else {
            da_type
        }
    } else {
        da_type
    };
    let da = DA { da_type: entry_type, regions, magic, hw_code, hw_sub_code };
    proof {
        assert(da.da_type == spec_entry_type(t, da.regions@));
        assert forall|k: int| 0 <= k < rc implies spec_region_ok(raw@, e, k) by {}
        assert(spec_entry_ok(raw@, t, i));
        assert forall|k: int|
            0 <= k < rc implies spec_region_matches(raw@, e, k, da.regions@[k]) by {
            assert(da.regions@[k] == regions@[k]);
        };
        assert(spec_entry_matches(raw@, t, i, da));
    }
    Ok(da)
}

impl DAFile {
    /// Parses a Download Agent container. Returns `Err` exactly when the
    /// container is too small, lacks the download-agent tag while claiming a
    /// modern dialect, or announces entries or regions that overrun it.
    #[verifier::loop_isolation(false)]
    #[verifier::rlimit(60)]
    pub fn parse_da(raw: &[u8]) -> (r: Result<DAFile, Error>)
        ensures
            r is Ok <==> spec_parse_ok(raw@),
            r is Ok ==> spec_file_matches(raw@, r->Ok_0),
    {
        let raw_len = raw.len();
        if raw_len < 0x148 {
            return Err(Error::Proto);
        }
        let b0 = raw[0x144];
        let b1 = raw[0x145];
        let legacy = b0 == 0xDA && b1 == 0xDA;
        let header = copy_range(raw, 0, 0x6C);
        proof {
            assert(header@ =~= raw@.take(0x6C));
        }
        let da_type = if legacy {
            DAType::Legacy
        } else {
            proof {
                reveal_strlit("MTK_DA_v6");
            }
            let v6_marker = crate::ascii::str_bytes("MTK_DA_v6");
            if crate::scan::has_bytes(header.as_slice(), v6_marker.as_slice()) {
                DAType::V6
            } else {
                DAType::V5
            }
        };
        assert(da_type == spec_base_da_type(raw@));
        if !legacy {
            proof {
                reveal_strlit("MTK_DOWNLOAD_AGENT");
            }
            let agent_tag = crate::ascii::str_bytes("MTK_DOWNLOAD_AGENT");
            if !crate::scan::has_bytes(header.as_slice(), agent_tag.as_slice()) {
                return Err(Error::Proto);
            }
        }
        let num_socs = crate::bytes::read_le32(raw, 0x68);
        let esz: usize = if legacy {
            0xD8
        } else {
            0xDC
        };
        assert(esz == spec_entry_size(da_type));
        proof {
            assert((num_socs as int) * (esz as int) <= 0xFFFFFFFF * 0xDC) by (nonlinear_arith)
                requires
                    num_socs <= 0xFFFFFFFF,
                    esz <= 0xDC,
            ;
        }
        if 0x6C + (num_socs as u64) * (esz as u64) > raw_len as u64 {
            return Err(Error::Proto);
        }
        let num = num_socs as usize;
        let ghost t = da_type;
        let mut das: Vec<DA> = Vec::new();
        let mut i: usize = 0;
        while i < num
            invariant
                i <= num,
                das@.len() == i,
                forall|k: int| 0 <= k < i ==> #[trigger] spec_entry_ok(raw@, t, k),
                forall|k: int|
                    0 <= k < i ==> spec_entry_matches(raw@, t, k, #[trigger] das@[k]),
            decreases num - i,
        {
            proof {
                assert((i as int + 1) * (esz as int) == i as int * (esz as int) + esz as int)
                    by (nonlinear_arith);
                assert(i as int * (esz as int) + esz as int <= num as int * (esz as int)) by (
                nonlinear_arith)
                    requires
                        i < num,
                        0 < esz,
                ;
            }
            let base = 0x6C + i * esz;
            assert(base + esz <= raw_len);
            let da = match parse_entry(raw, base, esz, da_type, Ghost(i as int)) {
                Ok(da) => da,
                Err(e) => {
                    return Err(e);
                },
            };
            let ghost das_pre = das@;
            das.push(da);
            proof {
                assert forall|k: int| 0 <= k < i + 1 implies #[trigger] spec_entry_ok(
                    raw@,
                    t,
                    k,
                ) by {
                    if k < i as int {
                        assert(spec_entry_ok(raw@, t, k));
                    }
                };
                assert forall|k: int|
                    0 <= k < i + 1 implies spec_entry_matches(raw@, t, k, #[trigger] das@[k]) by {
                    if k == i as int {
                        assert(das@[k] == da);
                    } else {
                        assert(das@[k] == das_pre[k]);
                        assert(spec_entry_matches(raw@, t, k, das_pre[k]));
                    }
                };
            }
            i = i + 1;
        }
        let da_raw_data = copy_range(raw, 0, raw_len);
        proof {
            assert(da_raw_data@ =~= raw@);
        }
        let f = DAFile { da_raw_data, da_type, das };
        proof {
            assert forall|k: int| 0 <= k < spec_num_entries(raw@) implies spec_entry_ok(
                raw@,
                spec_base_da_type(raw@),
                k,
            ) by {
                assert(spec_entry_ok(raw@, t, k));
            };
            assert(spec_parse_ok(raw@));
            assert forall|k: int| 0 <= k < f.das@.len() implies spec_entry_matches(
                raw@,
                spec_base_da_type(raw@),
                k,
                f.das@[k],
            ) by {
                assert(f.das@[k] == das@[k]);
                assert(spec_entry_matches(raw@, t, k, das@[k]));
            };
            assert(spec_file_matches(raw@, f));
        }
        Ok(f)
    }

    /// Selects the first entry whose code matches the lookup-table image of
    /// the reported hardware code, as a copy.
    #[verifier::loop_isolation(false)]
    pub fn get_da_from_hw_code(&self, hw_code: u16) -> (r: Option<DA>)
        ensures
            r is Some <==> exists|k: int|
                0 <= k < self.das@.len() && self.das@[k].hw_code == spec_da_code_of(hw_code),
            r is Some ==> exists|k: int|
                0 <= k < self.das@.len() && self.das@[k].hw_code == spec_da_code_of(hw_code) && (
                forall|m: int|
                    0 <= m < k ==> self.das@[m].hw_code != spec_da_code_of(hw_code)) && da_eq(
                    self.das@[k],
                    r->0,
                ),
    {
        let code = da_code_of(hw_code);
        let mut k: usize = 0;
        while k < self.das.len()
            invariant
                k <= self.das@.len(),
                forall|m: int| 0 <= m < k ==> self.das@[m].hw_code != spec_da_code_of(hw_code),
            decreases self.das@.len() - k,
        {
            if self.das[k].hw_code == code {
                return Some(self.das[k].duplicate());
            }
            k = k + 1;
        }
        None
    }
}

impl DAEntryRegion {
    /// A field-for-field copy of the region.
    pub fn duplicate(&self) -> (r: DAEntryRegion)
        ensures
            region_eq(*self, r),
    {
        let data = copy_range(self.data.as_slice(), 0, self.data.len());
        assert(data@ =~= self.data@);
        DAEntryRegion {
            data,
            offset: self.offset,
            length: self.length,
            addr: self.addr,
            region_length: self.region_length,
            sig_len: self.sig_len,
        }
    }
}

impl DA {
    /// A field-for-field copy of the entry.
    #[verifier::loop_isolation(false)]
    pub fn duplicate(&self) -> (r: DA)
        ensures
            da_eq(*self, r),
    {
        let mut regions: Vec<DAEntryRegion> = Vec::new();
        let mut j: usize = 0;
        while j < self.regions.len()
            invariant
                j <= self.regions@.len(),
                regions@.len() == j,
                forall|k: int| 0 <= k < j ==> region_eq(self.regions@[k], regions@[k]),
            decreases self.regions@.len() - j,
        {
            regions.push(self.regions[j].duplicate());
            j = j + 1;
        }
        DA {
            da_type: self.da_type,
            regions,
            magic: self.magic,
            hw_code: self.hw_code,
            hw_sub_code: self.hw_sub_code,
        }
    }

    /// The stage-1 region, present when the entry has at least three regions.
    pub fn get_da1(&self) -> (r: Option<&DAEntryRegion>)
        ensures
            r is Some <==> self.regions@.len() >= 3,
            r is Some ==> *r->0 == self.regions@[1],
    {
        if self.regions.len() >= 3 {
            Some(&self.regions[1])
        } else {
            None
        }
    }

    /// The stage-2 region, present when the entry has at least three regions.
    pub fn get_da2(&self) -> (r: Option<&DAEntryRegion>)
        ensures
            r is Some <==> self.regions@.len() >= 3,
            r is Some ==> *r->0 == self.regions@[2],
    {
        if self.regions.len() >= 3 {
            Some(&self.regions[2])
        } else {
            None
        }
    }

    /// Locates the stage-1 hash slot: on a V5 agent it sits 0x30 bytes
    /// before the memory-map banner of DA1; on a V6 agent it is the 0x30
    /// bytes just before DA1's trailing signature, recognised by its four
    /// zero tail bytes. Legacy agents carry none.
    pub fn find_da_hash_offset(&self) -> (r: Option<usize>)
        ensures
            r is Some ==> self.regions@.len() >= 3 && ((self.da_type is V5 && exists|m: int|
                crate::scan::first_match_at(
                    self.regions@[1].data@,
                    ascii_of("MMU MAP: VA"@),
                    m,
                ) && m >= 0x30 && r->0 == m - 0x30) || (self.da_type is V6
                && self.regions@[1].sig_len <= self.regions@[1].data@.len()
                && self.regions@[1].data@.len() - self.regions@[1].sig_len >= 0x30 && r->0
                == self.regions@[1].data@.len() - self.regions@[1].sig_len - 0x30 && (forall|m: int|
                r->0 + 0x2C <= m < r->0 + 0x30 ==> self.regions@[1].data@[m] == 0))),
            r is None && self.da_type is V5 && self.regions@.len() >= 3 ==> (forall|m: int|
                crate::scan::first_match_at(self.regions@[1].data@, ascii_of("MMU MAP: VA"@), m)
                    ==> m < 0x30),
            self.da_type is Legacy ==> r is None,
    {
        if self.regions.len() < 3 {
            return None;
        }
        match self.da_type {
            DAType::V5 => {
                let da1: &DAEntryRegion = &self.regions[1];
                proof {
                    reveal_strlit("MMU MAP: VA");
                }
                let marker = crate::ascii::str_bytes("MMU MAP: VA");
                let ghost d = da1.data@;
                let ghost mk = ascii_of("MMU MAP: VA"@);
                match find_bytes(da1.data.as_slice(), marker.as_slice(), 0) {
                    Some(pos) => {
                        proof {
                            assert(crate::scan::first_match_at(d, mk, pos as int));
                            assert forall|m: int|
                                crate::scan::first_match_at(d, mk, m) implies m == pos as int by {
                                if m < pos as int {
                                    assert(!match_at(d, mk, m));
                                } else if m > pos as int {
                                    assert(!match_at(d, mk, pos as int));
                                }
                            };
                        }
                        if pos >= 0x30 {
                            Some(pos - 0x30)
                        } else {
                            None
                        }
                    },
                    None => {
                        proof {
                            assert forall|m: int|
                                crate::scan::first_match_at(d, mk, m) implies m < 0x30 by {
                                assert(!match_at(d, mk, m));
                            };
                        }
                        None
                    },
                }
            },
            DAType::V6 => {
                let da1: &DAEntryRegion = &self.regions[1];
                let d_len = da1.data.len();
                if da1.sig_len as u64 > d_len as u64 {
                    return None;
                }
                let search_end = d_len - da1.sig_len as usize;
                if search_end < 0x30 {
                    return None;
                }
                let search_start = search_end - 0x30;
                let mut all_zero = true;
                let mut m: usize = search_end - 4;
                while m < search_end
                    invariant
                        search_end - 4 <= m <= search_end,
                        search_end <= da1.data@.len(),
                        all_zero <==> (forall|k: int|
                            search_end - 4 <= k < m ==> da1.data@[k] == 0),
                    decreases search_end - m,
                {
                    if *da1.data.get(m).unwrap() != 0 {
                        all_zero = false;
                        assert(da1.data@[m as int] != 0);
                    }
                    m = m + 1;
                }
                if all_zero {
                    Some(search_start)
                } else {
                    None
                }
            },
            DAType::Legacy => None,
        }
    }

    /// Whether the stage-2 region opens with the 64-bit entry stub.
    pub fn is_arm64(&self) -> (r: bool)
        ensures
            r == (self.regions@.len() >= 3 && self.regions@[2].data@.len() > 4
                && self.regions@[2].data@[0] == 0xC6 && self.regions@[2].data@[1] == 0x01
                && self.regions@[2].data@[2] == 0x00 && self.regions@[2].data@[3] == 0x58),
    {
        if self.regions.len() >= 3 {
            let da2 = &self.regions[2];
            if da2.data.len() > 4 {
                let b0 = da2.data[0];
                let b1 = da2.data[1];
                let b2 = da2.data[2];
                let b3 = da2.data[3];
                b0 == 0xC6 && b1 == 0x01 && b2 == 0x00 && b3 == 0x58
            } else {
                false
            }
        } else {
            false
        }
    }
}

} // verus!
