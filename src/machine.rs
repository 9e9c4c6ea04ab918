//! The emulated RISC-V machine a guest runs on, and loading a guest into it.
use crate::loader::{
    lemma_calldata_length_loaded, lemma_segment_bytes_loaded, misses, seg_start, spares_length_prefix, PT_LOAD,
    all_conformant, build_dram, initial_dram, ElfImage, LoadError, ProgramHeader, CALLDATA_REGION_SIZE, DRAM_BASE,
    DRAM_SIZE,
};
use rvemu::emulator::Emulator;
use rvemu::exception::Exception;
use vstd::prelude::*;

verus! {

#[verifier::external_type_specification]
#[verifier::external_body]
pub struct ExEmulator(rvemu::emulator::Emulator);

/// The bytes of a machine's DRAM, indexed by address minus `DRAM_BASE`.
pub uninterp spec fn dram_of(e: Emulator) -> Seq<u8>;

/// The value of a machine's integer register `index`.
pub uninterp spec fn reg_of(e: Emulator, index: u64) -> u64;

/// A machine's program counter.
pub uninterp spec fn pc_of(e: Emulator) -> u64;

/// How executing one instruction on a machine ends.
pub uninterp spec fn step_result(e: Emulator) -> StepOutcome;

/// The machine after executing one instruction.
pub uninterp spec fn after_step(e: Emulator) -> Emulator;

/// Entry point and program headers of an ELF image, or `None` where the
/// parser rejects it.
pub uninterp spec fn parsed_elf(data: Seq<u8>) -> Option<(u64, Seq<ProgramHeader>)>;

/// Relies on rvemu's `Emulator::new`: DRAM is `DRAM_SIZE` zero bytes
/// (`vec![0; DRAM_SIZE]`).
pub assume_specification[ rvemu::emulator::Emulator::new ]() -> (r: rvemu::emulator::Emulator)
    ensures
        dram_of(r) == Seq::new(0x4000_0000, |i: int| 0u8),
;

/// Relies on rvemu's `Emulator::initialize_dram`: the bytes replace the start
/// of DRAM (a splice, which panics on more bytes than DRAM holds); registers
/// and program counter stay.
pub assume_specification[ rvemu::emulator::Emulator::initialize_dram ](
    emu: &mut rvemu::emulator::Emulator,
    data: Vec<u8>,
)
    requires
        data@.len() <= dram_of(*old(emu)).len(),
    ensures
        dram_of(*final(emu)) == data@ + dram_of(*old(emu)).subrange(data@.len() as int, dram_of(*old(emu)).len() as int),
        pc_of(*final(emu)) == pc_of(*old(emu)),
        forall|i: u64| reg_of(*final(emu), i) == reg_of(*old(emu), i),
;

/// Relies on rvemu's `Emulator::initialize_pc`: sets the program counter only.
pub assume_specification[ rvemu::emulator::Emulator::initialize_pc ](
    emu: &mut rvemu::emulator::Emulator,
    pc: u64,
)
    ensures
        pc_of(*final(emu)) == pc,
        dram_of(*final(emu)) == dram_of(*old(emu)),
        forall|i: u64| reg_of(*final(emu), i) == reg_of(*old(emu), i),
;

/// How one instruction step ended.
#[derive(Copy, Clone, Debug, PartialEq, Eq, Structural)]
pub enum StepOutcome {
    /// The instruction ran; the machine may go on.
    Continue,
    /// The guest executed an environment call from machine mode.
    EnvCall,
    /// Any other exception: the guest cannot go on.
    Fault,
}

/// `[addr, addr + size)` lies inside DRAM.
pub open spec fn fits_dram(addr: u64, size: u64) -> bool {
    DRAM_BASE <= addr && addr - DRAM_BASE + size <= DRAM_SIZE
}

/// `a + b` modulo 2^64.
pub open spec fn wrap_add(a: u64, b: u64) -> u64 {
    if a + b > u64::MAX {
        (a + b - 0x1_0000_0000_0000_0000) as u64
    } else {
        (a + b) as u64
    }
}

/// A 12-bit immediate, sign-extended to 64 bits.
pub open spec fn sext12(imm: u32) -> u64 {
    if imm >= 0x800 {
        (imm as u64 + 0xffff_ffff_ffff_f000) as u64
    } else {
        imm as u64
    }
}

/// The four bytes at the program counter, little-endian.
pub open spec fn inst_at(e: Emulator) -> u32 {
    let d = dram_of(e);
    let i = pc_of(e) - DRAM_BASE;
    (d[i] as u32) | (d[i + 1] as u32) << 8 | (d[i + 2] as u32) << 16 | (d[i + 3] as u32) << 24
}

/// The memory access `(address, size)` that instruction `inst` makes on
/// machine `e`, if it is a load, store or atomic. Offsets are computed as
/// the emulator computes them: sign-extended for integer and floating-point
/// loads and integer stores, but taken unsigned for floating-point stores
/// (rvemu `cpu.rs:1516`).
pub open spec fn access_of(e: Emulator, inst: u32) -> Option<(u64, u64)> {
    if inst & 3 != 3 {
        let c = inst & 0xffff;
        let q = c & 3;
        let f3 = (c >> 13) & 7;
        if q == 0 && f3 != 0 && f3 != 4 {
            let rs1 = (((c >> 7) & 7) + 8) as u64;
            if f3 == 2 || f3 == 6 {
                Some((wrap_add(reg_of(e, rs1), (((c << 1) & 0x40) | ((c >> 7) & 0x38) | ((c >> 4) & 0x4)) as u64), 4))
            } else {
                Some((wrap_add(reg_of(e, rs1), (((c << 1) & 0xc0) | ((c >> 7) & 0x38)) as u64), 8))
            }
        } else if q == 2 && (f3 == 1 || f3 == 3) {
            Some((wrap_add(reg_of(e, 2), (((c << 4) & 0x1c0) | ((c >> 7) & 0x20) | ((c >> 2) & 0x18)) as u64), 8))
        } else if q == 2 && f3 == 2 {
            Some((wrap_add(reg_of(e, 2), (((c << 4) & 0xc0) | ((c >> 7) & 0x20) | ((c >> 2) & 0x1c)) as u64), 4))
        } else if q == 2 && (f3 == 5 || f3 == 7) {
            Some((wrap_add(reg_of(e, 2), (((c >> 1) & 0x1c0) | ((c >> 7) & 0x38)) as u64), 8))
        } else if q == 2 && f3 == 6 {
            Some((wrap_add(reg_of(e, 2), (((c >> 1) & 0xc0) | ((c >> 7) & 0x3c)) as u64), 4))
        } else {
            None
        }
    } else {
        let op = inst & 0x7f;
        let f3 = (inst >> 12) & 7;
        let base = reg_of(e, ((inst >> 15) & 0x1f) as u64);
        let size: u64 = if f3 & 3 == 0 {
            1
        } else if f3 & 3 == 1 {
            2
        } else if f3 & 3 == 2 {
            4
        } else {
            8
        };
        if op == 0x03 || op == 0x07 {
            Some((wrap_add(base, sext12(inst >> 20)), size))
        } else if op == 0x23 {
            Some((wrap_add(base, sext12(((inst >> 25) << 5) | ((inst >> 7) & 0x1f))), size))
        } else if op == 0x27 {
            Some((wrap_add(base, (((inst >> 25) << 5) | ((inst >> 7) & 0x1f)) as u64), size))
        } else if op == 0x2f {
            Some((base, size))
        } else {
            None
        }
    }
}

/// Instructions on which the emulator panics, or which would switch on
/// address translation: the reserved compressed encoding, `uret`, and any
/// CSR instruction on `satp`.
pub open spec fn refused_inst(inst: u32) -> bool {
    ||| inst & 3 == 0 && ((inst & 0xffff) >> 13) & 7 == 4
    ||| inst & 0x7f == 0x73 && (inst >> 12) & 7 == 0 && (inst >> 20) & 0x1f == 2 && inst >> 25 == 0
    ||| inst & 3 == 3 && inst & 0x7f == 0x73 && (inst >> 12) & 7 != 0 && inst >> 20 == 0x180
}

/// The emulator can execute the next instruction without panicking: it is
/// fetched from inside DRAM, is not refused, and any memory it touches lies
/// wholly inside DRAM.
pub open spec fn step_safe(e: Emulator) -> bool {
    &&& dram_of(e).len() == DRAM_SIZE
    &&& fits_dram(pc_of(e), 4)
    &&& !refused_inst(inst_at(e))
    &&& (access_of(e, inst_at(e)) matches Some(a) ==> fits_dram(a.0, a.1))
}

/// Relies on rvemu's `Cpu::execute` (`cpu.rs:588`): runs one instruction, or
/// reports the exception it raised. The result and the next state depend on
/// the machine alone; DRAM keeps its size. It panics on the reserved
/// compressed encoding (`cpu.rs:693`), on `uret` (`cpu.rs:3094`), and on a
/// memory access that reaches past DRAM's last byte (`dram.rs`, which indexes
/// without a check); `step_safe` excludes all three, computing each
/// instruction's address as rvemu does (floating-point stores: `cpu.rs:1516`).
#[verifier::external_body]
pub(crate) fn step(emu: &mut Emulator) -> (r: StepOutcome)
    requires
        step_safe(*old(emu)),
    ensures
        r == step_result(*old(emu)),
        *final(emu) == after_step(*old(emu)),
        dram_of(*final(emu)).len() == dram_of(*old(emu)).len(),
{
    match emu.cpu.execute() {
        Ok(_) => StepOutcome::Continue,
        Err(Exception::EnvironmentCallFromMMode) => StepOutcome::EnvCall,
        Err(_) => StepOutcome::Fault,
    }
}

/// Relies on rvemu's `XRegisters::read`: the value of integer register `index`.
#[verifier::external_body]
pub(crate) fn read_register(emu: &Emulator, index: u64) -> (r: u64)
    requires
        index < 32,
    ensures
        r == reg_of(*emu, index),
{
    emu.cpu.xregs.read(index)
}

/// Relies on rvemu's `XRegisters::write`: sets integer register `index`;
/// register zero stays zero.
#[verifier::external_body]
pub(crate) fn write_register(emu: &mut Emulator, index: u64, value: u64)
    requires
        index < 32,
    ensures
        forall|i: u64| #[trigger] reg_of(*final(emu), i) == if i == index && index != 0 {
            value
        } else {
            reg_of(*old(emu), i)
        },
        dram_of(*final(emu)) == dram_of(*old(emu)),
        pc_of(*final(emu)) == pc_of(*old(emu)),
{
    emu.cpu.xregs.write(index, value)
}

/// Relies on rvemu's `Cpu::pc` field: the program counter.
#[verifier::external_body]
pub(crate) fn read_pc(emu: &Emulator) -> (r: u64)
    ensures
        r == pc_of(*emu),
{
    emu.cpu.pc
}

/// Relies on rvemu's `Bus::read` of one byte, which for DRAM reads the byte
/// and changes nothing; DRAM ends one byte before `DRAM_BASE + DRAM_SIZE`,
/// where the bus would index past its buffer.
#[verifier::external_body]
pub(crate) fn read_byte(emu: &mut Emulator, addr: u64) -> (r: Option<u8>)
    requires
        DRAM_BASE <= addr < DRAM_BASE + DRAM_SIZE,
        dram_of(*old(emu)).len() == DRAM_SIZE,
    ensures
        r == Some(dram_of(*old(emu))[addr - DRAM_BASE]),
        *final(emu) == *old(emu),
{
    emu.cpu.bus.read(addr, rvemu::cpu::BYTE).ok().map(|v| v as u8)
}

/// Relies on rvemu's `Bus::write` of one byte, which for DRAM always
/// succeeds; the same bounds as `read_byte`.
#[verifier::external_body]
pub(crate) fn write_byte(emu: &mut Emulator, addr: u64, value: u8) -> (r: bool)
    requires
        DRAM_BASE <= addr < DRAM_BASE + DRAM_SIZE,
        dram_of(*old(emu)).len() == DRAM_SIZE,
    ensures
        r,
        dram_of(*final(emu)) == dram_of(*old(emu)).update(addr - DRAM_BASE, value),
        pc_of(*final(emu)) == pc_of(*old(emu)),
        forall|i: u64| reg_of(*final(emu), i) == reg_of(*old(emu), i),
{
    emu.cpu.bus.write(addr, value as u64, rvemu::cpu::BYTE).is_ok()
}

/// Relies on goblin's `Elf::parse`: the entry point and program headers of
/// an ELF image, or `None` where goblin rejects it.
#[verifier::external_body]
pub(crate) fn parse_elf(data: &[u8]) -> (r: Option<ElfImage>)
    ensures
        r is Some <==> parsed_elf(data@) is Some,
        r matches Some(img) ==> parsed_elf(data@) == Some((img.entry, img.program_headers@)),
{
    match goblin::elf::Elf::parse(data) {
        Ok(elf) => Some(ElfImage {
            entry: elf.header.e_entry,
            program_headers: elf.program_headers.iter().map(|ph| ProgramHeader {
                p_type: ph.p_type,
                p_offset: ph.p_offset,
                p_vaddr: ph.p_vaddr,
                p_filesz: ph.p_filesz,
                p_memsz: ph.p_memsz,
            }).collect(),
        }),
        Err(_) => None,
    }
}

/// `a + b` modulo 2^64.
fn wrapping_sum(a: u64, b: u64) -> (r: u64)
    ensures
        r == wrap_add(a, b),
{
    if a > u64::MAX - b {
        a - (u64::MAX - b) - 1
    } else {
        a + b
    }
}

fn sign_extend12(imm: u32) -> (r: u64)
    requires
        imm < 0x1000,
    ensures
        r == sext12(imm),
{
    if imm >= 0x800 {
        imm as u64 + 0xffff_ffff_ffff_f000
    } else {
        imm as u64
    }
}

/// The memory access that instruction `inst` makes on `emu`, if any.
fn access(emu: &Emulator, inst: u32) -> (r: Option<(u64, u64)>)
    ensures
        r == access_of(*emu, inst),
{
    if inst & 3 != 3 {
        let c = inst & 0xffff;
        let q = c & 3;
        let f3 = (c >> 13) & 7;
        if q == 0 && f3 != 0 && f3 != 4 {
            assert((c >> 7) & 7 <= 7) by (bit_vector);
            let rs1 = (((c >> 7) & 7) + 8) as u64;
            let base = read_register(emu, rs1);
            if f3 == 2 || f3 == 6 {
                Some((wrapping_sum(base, (((c << 1) & 0x40) | ((c >> 7) & 0x38) | ((c >> 4) & 0x4)) as u64), 4))
            } else {
                Some((wrapping_sum(base, (((c << 1) & 0xc0) | ((c >> 7) & 0x38)) as u64), 8))
            }
        } else if q == 2 && (f3 == 1 || f3 == 3) {
            let sp = read_register(emu, 2);
            Some((wrapping_sum(sp, (((c << 4) & 0x1c0) | ((c >> 7) & 0x20) | ((c >> 2) & 0x18)) as u64), 8))
        } else if q == 2 && f3 == 2 {
            let sp = read_register(emu, 2);
            Some((wrapping_sum(sp, (((c << 4) & 0xc0) | ((c >> 7) & 0x20) | ((c >> 2) & 0x1c)) as u64), 4))
        } else if q == 2 && (f3 == 5 || f3 == 7) {
            let sp = read_register(emu, 2);
            Some((wrapping_sum(sp, (((c >> 1) & 0x1c0) | ((c >> 7) & 0x38)) as u64), 8))
        } else if q == 2 && f3 == 6 {
            let sp = read_register(emu, 2);
            Some((wrapping_sum(sp, (((c >> 1) & 0xc0) | ((c >> 7) & 0x3c)) as u64), 4))
        } else {
            None
        }
    } else {
        let op = inst & 0x7f;
        let f3 = (inst >> 12) & 7;
        assert((inst >> 15) & 0x1f < 32) by (bit_vector);
        let base = read_register(emu, ((inst >> 15) & 0x1f) as u64);
        let size: u64 = if f3 & 3 == 0 {
            1
        } else if f3 & 3 == 1 {
            2
        } else if f3 & 3 == 2 {
            4
        } else {
            8
        };
        if op == 0x03 || op == 0x07 {
            assert(inst >> 20 < 0x1000) by (bit_vector);
            Some((wrapping_sum(base, sign_extend12(inst >> 20)), size))
        } else if op == 0x23 {
            assert(((inst >> 25) << 5) | ((inst >> 7) & 0x1f) < 0x1000) by (bit_vector);
            Some((wrapping_sum(base, sign_extend12(((inst >> 25) << 5) | ((inst >> 7) & 0x1f))), size))
        } else if op == 0x27 {
            Some((wrapping_sum(base, (((inst >> 25) << 5) | ((inst >> 7) & 0x1f)) as u64), size))
        } else if op == 0x2f {
            Some((base, size))
        } else {
            None
        }
    }
}

/// Checks `fits_dram` without overflow.
pub fn check_fits_dram(addr: u64, size: u64) -> (r: bool)
    ensures
        r == fits_dram(addr, size),
{
    addr >= DRAM_BASE && size <= DRAM_SIZE && addr - DRAM_BASE <= DRAM_SIZE - size
}

/// The DRAM byte at `addr`.
fn dram_byte(emu: &mut Emulator, addr: u64) -> (r: u8)
    requires
        DRAM_BASE <= addr < DRAM_BASE + DRAM_SIZE,
        dram_of(*old(emu)).len() == DRAM_SIZE,
    ensures
        r == dram_of(*old(emu))[addr - DRAM_BASE],
        *final(emu) == *old(emu),
{
    match read_byte(emu, addr) {
        Some(b) => b,
        None => 0,
    }
}

/// Decides whether the emulator can execute the next instruction without
/// panicking; an instruction that fails this is a guest fault.
pub fn step_is_safe(emu: &mut Emulator) -> (r: bool)
    requires
        dram_of(*old(emu)).len() == DRAM_SIZE,
    ensures
        r == step_safe(*old(emu)),
        *final(emu) == *old(emu),
{
    let pc = read_pc(emu);
    if !check_fits_dram(pc, 4) {
        return false;
    }
    let b0 = dram_byte(emu, pc);
    let b1 = dram_byte(emu, pc + 1);
    let b2 = dram_byte(emu, pc + 2);
    let b3 = dram_byte(emu, pc + 3);
    let inst: u32 = (b0 as u32) | (b1 as u32) << 8 | (b2 as u32) << 16 | (b3 as u32) << 24;
    assert(inst == inst_at(*emu));
    if inst & 3 == 0 && ((inst & 0xffff) >> 13) & 7 == 4 {
        return false;
    }
    if inst & 0x7f == 0x73 && (inst >> 12) & 7 == 0 && (inst >> 20) & 0x1f == 2 && inst >> 25 == 0 {
        return false;
    }
    if inst & 3 == 3 && inst & 0x7f == 0x73 && (inst >> 12) & 7 != 0 && inst >> 20 == 0x180 {
        return false;
    }
    match access(emu, inst) {
        Some((addr, size)) => check_fits_dram(addr, size),
        None => true,
    }
}

/// The whole DRAM of a freshly loaded guest: the loaded image, then zeros.
pub open spec fn loaded_dram(data: Seq<u8>, hs: Seq<ProgramHeader>, elf: Seq<u8>) -> Seq<u8> {
    let img = initial_dram(data, hs, elf);
    img + Seq::new((DRAM_SIZE - img.len()) as nat, |i: int| 0u8)
}

/// A guest executable loads: its calldata fits, goblin accepts it, and its
/// loadable segments are conformant.
pub open spec fn loads(elf: Seq<u8>, data: Seq<u8>) -> bool {
    &&& data.len() + 8 <= CALLDATA_REGION_SIZE
    &&& parsed_elf(elf) matches Some(p)
    &&& all_conformant(p.1, elf.len())
}

/// A machine holds a loaded guest: DRAM as `loaded_dram` says, the program
/// counter at the entry point.
pub open spec fn holds_guest(e: Emulator, entry: u64, hs: Seq<ProgramHeader>, elf: Seq<u8>, data: Seq<u8>) -> bool {
    &&& dram_of(e) == loaded_dram(data, hs, elf)
    &&& pc_of(e) == entry
}

/// Loads a parsed guest executable and its calldata into a fresh machine
/// whose program counter is the entry point.
pub fn load_image(image: &ElfImage, elf_data: &[u8], call_data: &[u8]) -> (r: Result<Emulator, LoadError>)
    ensures
        r matches Err(LoadError::CalldataTooLarge) <==> call_data@.len() + 8 > CALLDATA_REGION_SIZE,
        r matches Err(LoadError::BadImage) <==> call_data@.len() + 8 <= CALLDATA_REGION_SIZE
            && !all_conformant(image.program_headers@, elf_data@.len()),
        r matches Ok(emu) ==> holds_guest(emu, image.entry, image.program_headers@, elf_data@, call_data@),
        r matches Ok(emu) ==> dram_of(emu).len() == DRAM_SIZE,
{
    let mem = match build_dram(image, elf_data, call_data) {
        Ok(mem) => mem,
        Err(e) => return Err(e),
    };
    let ghost img = mem@;
    let mut emu = Emulator::new();
    emu.initialize_dram(mem);
    emu.initialize_pc(image.entry);
    assert(dram_of(emu) =~= loaded_dram(call_data@, image.program_headers@, elf_data@));
    Ok(emu)
}

/// Loads a guest executable and its calldata into a fresh machine whose
/// program counter is the executable's entry point.
pub fn setup_from_elf(elf_data: &[u8], call_data: &[u8]) -> (r: Result<Emulator, LoadError>)
    ensures
        r is Ok <==> loads(elf_data@, call_data@),
        r matches Err(LoadError::CalldataTooLarge) <==> call_data@.len() + 8 > CALLDATA_REGION_SIZE,
        r matches Ok(emu) ==> (parsed_elf(elf_data@) matches Some(p) && holds_guest(emu, p.0, p.1, elf_data@, call_data@)),
        r matches Ok(emu) ==> dram_of(emu).len() == DRAM_SIZE,
{
    if call_data.len() > CALLDATA_REGION_SIZE - 8 {
        return Err(LoadError::CalldataTooLarge);
    }
    match parse_elf(elf_data) {
        Some(image) => load_image(&image, elf_data, call_data),
        None => Err(LoadError::BadImage),
    }
}

/// A machine that setup loaded holds each conformant segment's file bytes at
/// the segment's DRAM offset, unless a later segment's file bytes overwrite
/// them.
pub proof fn lemma_guest_segment_bytes(
    e: Emulator,
    entry: u64,
    hs: Seq<ProgramHeader>,
    elf: Seq<u8>,
    data: Seq<u8>,
    i: int,
    k: int,
)
    requires
        holds_guest(e, entry, hs, elf, data),
        data.len() + 8 <= CALLDATA_REGION_SIZE,
        all_conformant(hs, elf.len()),
        0 <= i < hs.len(),
        hs[i].p_type == PT_LOAD,
        0 <= k < hs[i].p_filesz,
        forall|j: int| i < j < hs.len() ==> misses(#[trigger] hs[j], seg_start(hs[i]) + k),
    ensures
        dram_of(e)[seg_start(hs[i]) + k] == elf[hs[i].p_offset + k],
        pc_of(e) == entry,
{
    lemma_segment_bytes_loaded(data, hs, elf, i, k);
}

/// The first eight DRAM bytes of a machine that setup loaded spell the
/// calldata length, unless a segment's file bytes overwrite them.
pub proof fn lemma_guest_calldata_length(e: Emulator, entry: u64, hs: Seq<ProgramHeader>, elf: Seq<u8>, data: Seq<u8>)
    requires
        holds_guest(e, entry, hs, elf, data),
        data.len() + 8 <= CALLDATA_REGION_SIZE,
        forall|j: int| 0 <= j < hs.len() ==> spares_length_prefix(#[trigger] hs[j]),
    ensures
        crate::storage::u64_from_le(dram_of(e).subrange(0, 8)) == data.len(),
{
    lemma_calldata_length_loaded(data, hs, elf);
    assert(dram_of(e).subrange(0, 8) =~= initial_dram(data, hs, elf).subrange(0, 8));
}

} // verus!
