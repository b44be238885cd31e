//! In-memory patching of a stage-2 agent whose vendor build dropped the
//! `boot_to` command: the register-read handler is overwritten with a small
//! loader payload, the pointer slot of the unsupported-command handler is
//! redirected to it, and a Thumb micro-sequence is spliced into the
//! command-registration site to register the new opcode.
use vstd::prelude::*;

use crate::ascii::ascii_of;
use crate::dafile::{DA, DAEntryRegion};
use crate::error::Error;
use crate::scan::{
    contains_bytes,
    find_bytes,
    find_pattern,
    has_bytes,
    lemma_match_preserved,
    match_at,
    overwrite,
};

verus! {

/// The command-name marker whose presence shows that the agent still
/// registers `boot_to`: the ASCII name with its terminating NUL.
pub open spec fn spec_boot_to_marker() -> Seq<u8> {
    ascii_of("cmd_boot_to"@).push(0)
}

/// The marker as bytes.
pub fn boot_to_marker() -> (r: Vec<u8>)
    ensures
        r@ == spec_boot_to_marker(),
{
    proof {
        reveal_strlit("cmd_boot_to");
    }
    let mut m = crate::ascii::str_bytes("cmd_boot_to");
    m.push(0);
    m
}

/// The address the device jumps to for code at file position `pos` of a
/// region loaded at `load_addr`, with the Thumb bit set.
pub open spec fn spec_thumb_addr(pos: int, load_addr: int) -> u32 {
    ((pos + load_addr) as u32) | 1
}

/// Computes the Thumb-mode address of file position `pos`.
pub fn to_thumb_addr(pos: usize, load_addr: u32) -> (r: Option<u32>)
    ensures
        r is Some <==> pos + load_addr <= u32::MAX,
        r is Some ==> r->0 == spec_thumb_addr(pos as int, load_addr as int),
{
    if pos <= (u32::MAX - load_addr) as usize {
        Some((pos as u32 + load_addr) | 1)
    } else {
        None
    }
}

/// The two bytes of a Thumb `LDR Rt, [PC, #imm8*4]` instruction, laid out
/// little-endian: the scaled offset, then `0x48` with the register in the
/// low bits.
pub open spec fn spec_ldr_bytes(rt: u8, imm8: u8) -> Seq<u8> {
    seq![imm8, (0x48 + rt as int % 8) as u8]
}

/// Encodes a Thumb PC-relative load of the word at file position `target`
/// into register `rt`, for an instruction at file position `ldr_off` in a
/// region loaded at `load_addr`. `None` when the word lies outside the
/// instruction's 1-KiB forward window or is misaligned.
pub fn encode_ldr(rt: u8, ldr_off: usize, target: usize, load_addr: u32) -> (r: Option<Vec<u8>>)
    requires
        rt < 8,
    ensures
        r is Some ==> {
            let pc_base = ((ldr_off + load_addr + 4) / 4) * 4;
            &&& target + load_addr >= pc_base
            &&& (target + load_addr - pc_base) % 4 == 0
            &&& (target + load_addr - pc_base) / 4 <= 255
            &&& r->0@ == spec_ldr_bytes(rt, ((target + load_addr - pc_base) / 4) as u8)
        },
{
    if ldr_off > u32::MAX as usize || target > u32::MAX as usize {
        return None;
    }
    let instr_addr = (ldr_off as u64) + (load_addr as u64);
    let pc_base = ((instr_addr + 4) / 4) * 4;
    let target_addr = (target as u64) + (load_addr as u64);
    if target_addr < pc_base {
        return None;
    }
    let diff = target_addr - pc_base;
    if diff % 4 != 0 || diff / 4 > 255 {
        return None;
    }
    let imm8 = (diff / 4) as u8;
    let mut out: Vec<u8> = Vec::new();
    out.push(imm8);
    out.push(0x48 + rt % 8);
    assert(out@ =~= spec_ldr_bytes(rt, imm8));
    Some(out)
}

/// The 32-bit two's-complement offset from the instruction after `from` to
/// `to`.
pub open spec fn spec_branch_off(from_addr: u32, to_addr: u32) -> u32 {
    (((to_addr as int) - ((from_addr as int + 4) % 0x100000000) + 0x100000000)
        % 0x100000000) as u32
}

/// The four bytes of a Thumb `BL` from `from_addr` to `to_addr`: the two
/// halfwords `0xF000 | high` and `0xF800 | low` of the halved offset, each
/// little-endian.
pub open spec fn spec_bl_bytes(from_addr: u32, to_addr: u32) -> Seq<u8> {
    let off = spec_branch_off(from_addr, to_addr);
    let hw1 = (0xF000u32 | ((off >> 12) & 0x7FF)) as u32;
    let hw2 = (0xF800u32 | ((off >> 1) & 0x7FF)) as u32;
    seq![
        (hw1 & 0xFF) as u8,
        ((hw1 >> 8) & 0xFF) as u8,
        (hw2 & 0xFF) as u8,
        ((hw2 >> 8) & 0xFF) as u8,
    ]
}

/// Encodes a Thumb `BL` instruction at `from_addr` calling `to_addr`.
pub fn encode_bl(from_addr: u32, to_addr: u32) -> (r: Vec<u8>)
    ensures
        r@ == spec_bl_bytes(from_addr, to_addr),
{
    let off64 = ((to_addr as u64) + 0x100000000 - ((from_addr as u64) + 4) % 0x100000000)
        % 0x100000000;
    let off = off64 as u32;
    assert(off == spec_branch_off(from_addr, to_addr));
    let hw1: u32 = 0xF000 | ((off >> 12) & 0x7FF);
    let hw2: u32 = 0xF800 | ((off >> 1) & 0x7FF);
    let mut out: Vec<u8> = Vec::new();
    out.push((hw1 & 0xFF) as u8);
    out.push(((hw1 >> 8) & 0xFF) as u8);
    out.push((hw2 & 0xFF) as u8);
    out.push(((hw2 >> 8) & 0xFF) as u8);
    assert(out@ =~= spec_bl_bytes(from_addr, to_addr));
    out
}

/// Assembles the registration splice: the opcode loads, the PC-relative
/// load of the handler slot, the call into the registrar, and two wide
/// no-ops of padding.
fn build_splice(ldr: &[u8], shellcode: &[u8]) -> (r: Vec<u8>)
    ensures
        r@.len() == 6 + ldr@.len() + shellcode@.len() + 8,
{
    let mut out: Vec<u8> = Vec::new();
    out.push(0x4F);  // mov.w r0, #0x10000
    out.push(0xF4);
    out.push(0x80);
    out.push(0x30);
    out.push(0x08);  // adds r0, #0x8
    out.push(0x30);
    let mut k: usize = 0;
    while k < ldr.len()
        invariant
            out@.len() == 6 + k,
            k <= ldr@.len(),
        decreases ldr@.len() - k,
    {
        out.push(ldr[k]);
        k = k + 1;
    }
    let mut k2: usize = 0;
    while k2 < shellcode.len()
        invariant
            out@.len() == 6 + ldr@.len() + k2,
            k2 <= shellcode@.len(),
        decreases shellcode@.len() - k2,
    {
        out.push(shellcode[k2]);
        k2 = k2 + 1;
    }
    let mut k3: usize = 0;
    while k3 < 8
        invariant
            out@.len() == 6 + ldr@.len() + shellcode@.len() + k3,
            k3 <= 8,
        decreases 8 - k3,
    {
        if k3 % 4 == 0 {
            out.push(0xAF);  // nop.w
        } else if k3 % 4 == 1 {
            out.push(0xF3);
        } else if k3 % 4 == 2 {
            out.push(0x00);
        } else {
            out.push(0x80);
        }
        k3 = k3 + 1;
    }
    out
}

/// Restores the `boot_to` command of a stage-2 region by installing the
/// loader `payload` over the register-read handler, pointing the
/// unsupported-command slot at it, and splicing its registration into the
/// command table. Returns `Ok(false)`, leaving the bytes alone, exactly when
/// the region still carries the command marker; `Ok(true)` after a
/// successful patch, which keeps the region length and plants the payload
/// intact; `Err` when a signature site is missing, out of bounds, not
/// encodable, or colliding with the payload.
#[verifier::rlimit(100)]
#[verifier::spinoff_prover]
pub fn patch_boot_to(da: &mut DAEntryRegion, payload: &[u8]) -> (r: Result<bool, Error>)
    ensures
        r == Ok::<bool, Error>(false) <==> contains_bytes(old(da).data@, spec_boot_to_marker()),
        r == Ok::<bool, Error>(false) ==> final(da).data@ == old(da).data@,
        r == Ok::<bool, Error>(true) ==> final(da).data@.len() == old(da).data@.len() && (
        contains_bytes(payload@, spec_boot_to_marker()) ==> contains_bytes(
            final(da).data@,
            spec_boot_to_marker(),
        )),
        final(da).offset == old(da).offset,
        final(da).length == old(da).length,
        final(da).addr == old(da).addr,
        final(da).region_length == old(da).region_length,
        final(da).sig_len == old(da).sig_len,
{
    let marker = boot_to_marker();
    if has_bytes(da.data.as_slice(), marker.as_slice()) {
        return Ok(false);
    }
    // The four signature sites; a hole stands for the build-specific byte.
    let reg_cmds_pat: Vec<Option<u8>> = vec![
        Some(0x08u8),
        Some(0xB5),
        Some(0x4F),
        Some(0xF4),
        Some(0x60),
        Some(0x20),
        Some(0x00),
        Some(0x21),
        None,
        Some(0xF7),
    ];
    let read_reg_pat: Vec<Option<u8>> = vec![
        Some(0x30u8),
        Some(0xB5),
        Some(0x00),
        Some(0x23),
        Some(0x85),
        Some(0xB0),
        Some(0x04),
        Some(0x46),
        Some(0x01),
        Some(0x93),
    ];
    let unsupported_pat: Vec<Option<u8>> = vec![
        Some(0x08u8),
        Some(0x4B),
        Some(0x13),
        Some(0xB5),
        Some(0x04),
        Some(0x46),
        Some(0x01),
        Some(0x93),
    ];
    let register_pat: Vec<Option<u8>> = vec![
        Some(0x38u8),
        Some(0xB5),
        Some(0x05),
        Some(0x46),
        Some(0x10),
        Some(0x20),
        Some(0x0C),
        Some(0x46),
    ];
    let dagent_reg_cmds = match find_pattern(da.data.as_slice(), reg_cmds_pat.as_slice(), 0) {
        Some(p) => p,
        None => {
            return Err(Error::Core);
        },
    };
    let devc_read_reg = match find_pattern(da.data.as_slice(), read_reg_pat.as_slice(), 0) {
        Some(p) => p,
        None => {
            return Err(Error::Core);
        },
    };
    let unsupported_cmd = match find_pattern(da.data.as_slice(), unsupported_pat.as_slice(), 0) {
        Some(p) => p,
        None => {
            return Err(Error::Core);
        },
    };
    let register_maj_cmd = match find_pattern(da.data.as_slice(), register_pat.as_slice(), 0) {
        Some(p) => p,
        None => {
            return Err(Error::Core);
        },
    };
    let data_len = da.data.len();
    assert(devc_read_reg <= data_len);
    if payload.len() > data_len - devc_read_reg {
        return Err(Error::Core);
    }
    // Install the loader payload over the register-read handler.
    let ghost before_payload = da.data@;
    overwrite(&mut da.data, devc_read_reg, payload);
    let ghost after_payload = da.data@;
    // Both handler addresses, Thumb-mode.
    let unsupported_cmd_addr = match to_thumb_addr(unsupported_cmd, da.addr) {
        Some(a) => a,
        None => {
            return Err(Error::Core);
        },
    };
    let devc_read_reg_addr = match to_thumb_addr(devc_read_reg, da.addr) {
        Some(a) => a,
        None => {
            return Err(Error::Core);
        },
    };
    // Redirect the pointer slot holding the unsupported-command address.
    let mut addr_needle: Vec<u8> = Vec::new();
    crate::bytes::push_le32(&mut addr_needle, unsupported_cmd_addr);
    let unsupported_cmd_dat = match find_bytes(da.data.as_slice(), addr_needle.as_slice(), 0) {
        Some(p) => p,
        None => {
            return Err(Error::Core);
        },
    };
    // Refuse sites that would tear the freshly planted payload.
    if !(unsupported_cmd_dat + 4 <= devc_read_reg || unsupported_cmd_dat >= devc_read_reg
        + payload.len()) {
        return Err(Error::Core);
    }
    let splice_at = dagent_reg_cmds + 2;
    if data_len < 20 || splice_at > data_len - 20 {
        return Err(Error::Core);
    }
    if !(splice_at + 20 <= devc_read_reg || splice_at >= devc_read_reg + payload.len()) {
        return Err(Error::Core);
    }
    // The registration splice: load the opcode, load the slot, call the
    // registrar, pad with wide no-ops.
    let ldr_off = splice_at + 6;
    let ldr = match encode_ldr(1, ldr_off, unsupported_cmd_dat, da.addr) {
        Some(b) => b,
        None => {
            return Err(Error::Core);
        },
    };
    let bl_from = match to_thumb_addr(ldr_off + 2, da.addr) {
        Some(a) => a & 0xFFFFFFFE,
        None => {
            return Err(Error::Core);
        },
    };
    let register_maj_cmd_addr = match to_thumb_addr(register_maj_cmd, da.addr) {
        Some(a) => a,
        None => {
            return Err(Error::Core);
        },
    };
    let shellcode = encode_bl(bl_from, register_maj_cmd_addr);
    let reg_cmd_patch = build_splice(ldr.as_slice(), shellcode.as_slice());
    if reg_cmd_patch.len() > 20 {
        return Err(Error::Core);
    }
    // Write the pointer slot, then the registration splice.
    let ghost before_dat = da.data@;
    let mut slot_bytes: Vec<u8> = Vec::new();
    crate::bytes::push_le32(&mut slot_bytes, devc_read_reg_addr);
    overwrite(&mut da.data, unsupported_cmd_dat, slot_bytes.as_slice());
    let ghost before_splice = da.data@;
    overwrite(&mut da.data, splice_at, reg_cmd_patch.as_slice());
    proof {
        if contains_bytes(payload@, spec_boot_to_marker()) {
            let q = choose|q: int| match_at(payload@, spec_boot_to_marker(), q);
            assert(match_at(after_payload, spec_boot_to_marker(), devc_read_reg + q)) by {
                assert(after_payload.subrange(
                    devc_read_reg + q,
                    devc_read_reg + q + spec_boot_to_marker().len(),
                ) =~= spec_boot_to_marker());
            }
            lemma_match_preserved(
                before_dat,
                before_splice,
                spec_boot_to_marker(),
                devc_read_reg + q,
                unsupported_cmd_dat as int,
                unsupported_cmd_dat + 4,
            );
            lemma_match_preserved(
                before_splice,
                da.data@,
                spec_boot_to_marker(),
                devc_read_reg + q,
                splice_at as int,
                splice_at + reg_cmd_patch@.len(),
            );
        }
    }
    Ok(true)
}

/// Patches a copy of the stage-2 region of `da` so that it accepts
/// `boot_to` again; the copy is returned unchanged when the command is
/// already present. `None` when the entry has no stage-2 region or its
/// signature sites cannot be located.
pub fn patch_da2(da: &DA, payload: &[u8]) -> (r: Option<DAEntryRegion>)
    ensures
        r is Some ==> da.regions@.len() >= 3 && r->0.data@.len() == da.regions@[2].data@.len()
            && r->0.addr == da.regions@[2].addr && (contains_bytes(
            da.regions@[2].data@,
            spec_boot_to_marker(),
        ) ==> r->0.data@ == da.regions@[2].data@),
        da.regions@.len() < 3 ==> r is None,
{
    let da2 = match da.get_da2() {
        Some(region) => region.duplicate(),
        None => {
            return None;
        },
    };
    let ghost orig = da.regions@[2];
    let mut patched = da2;
    let ghost pre = patched;
    assert(pre.data@ == orig.data@ && pre.addr == orig.addr);
    match patch_boot_to(&mut patched, payload) {
        Ok(flag) => {
            proof {
                if flag {
                    assert(patched.data@.len() == pre.data@.len());
                } else {
                    assert(patched.data@ == pre.data@);
                }
                assert(patched.addr == pre.addr);
                if contains_bytes(orig.data@, spec_boot_to_marker()) {
                    assert(contains_bytes(pre.data@, spec_boot_to_marker()));
                    assert(!flag);
                }
            }
            Some(patched)
        },
        Err(_) => None,
    }
}

} // verus!
