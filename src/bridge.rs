//! The host side of the guest boundary: turning a guest's environment calls
//! into host actions, relaying nested-call output back into guest memory, and
//! the stack of frame contexts that mirrors the outer EVM's frames.
use crate::abi::u64_from_be;
use crate::loader::{LoadError, CALLDATA_REGION_SIZE, DRAM_BASE, DRAM_SIZE};
use crate::machine::{
    after_step, check_fits_dram, dram_of, fits_dram, holds_guest, loads, parsed_elf, pc_of, read_byte, read_register,
    read_pc, reg_of, setup_from_elf, step, step_is_safe, step_result, step_safe, write_byte, write_register, StepOutcome,
};
use crate::storage::{keccak, keccak_of, slot_value, Address};
use crate::syscalls::Syscall;
use rvemu::emulator::Emulator;
use vstd::prelude::*;

verus! {

/// Register that carries the syscall number.
pub const REG_T0: u64 = 5;

/// First argument and result register; `a1` to `a5` follow it.
pub const REG_A0: u64 = 10;

/// Byte that marks account code as a guest executable.
pub const GUEST_CODE_PREFIX: u8 = 0xFF;

/// A syscall as the trapped registers state it.
#[derive(Copy, Clone, Debug, PartialEq, Eq, Structural)]
pub enum Request {
    Return { ptr: u64, len: u64 },
    SLoad { key: u64 },
    SStore { key: u64, value: u64 },
    Call { addr_ptr: u64, value: u64, in_ptr: u64, in_size: u64, out_ptr: u64, out_size: u64 },
    Revert,
    Caller,
    Keccak256 { ptr: u64, len: u64 },
    /// A number outside the catalog.
    Unknown,
}

/// The request that syscall number `t0` with arguments `a0..a5` makes.
pub open spec fn spec_request(t0: u64, a: Seq<u64>) -> Request {
    if t0 > u32::MAX {
        Request::Unknown
    } else {
        match Syscall::spec_from_number(t0 as u32) {
            Some(Syscall::Return) => Request::Return { ptr: a[0], len: a[1] },
            Some(Syscall::SLoad) => Request::SLoad { key: a[0] },
            Some(Syscall::SStore) => Request::SStore { key: a[0], value: a[1] },
            Some(Syscall::Call) => Request::Call {
                addr_ptr: a[0],
                value: a[1],
                in_ptr: a[2],
                in_size: a[3],
                out_ptr: a[4],
                out_size: a[5],
            },
            Some(Syscall::Revert) => Request::Revert,
            Some(Syscall::Caller) => Request::Caller,
            Some(Syscall::Keccak256) => Request::Keccak256 { ptr: a[0], len: a[1] },
            None => Request::Unknown,
        }
    }
}

/// Decodes the syscall that the trapped registers request.
pub fn syscall_request(t0: u64, a: &[u64; 6]) -> (r: Request)
    ensures
        r == spec_request(t0, a@),
{
    if t0 > u32::MAX as u64 {
        return Request::Unknown;
    }
    match Syscall::from_number(t0 as u32) {
        Some(Syscall::Return) => Request::Return { ptr: a[0], len: a[1] },
        Some(Syscall::SLoad) => Request::SLoad { key: a[0] },
        Some(Syscall::SStore) => Request::SStore { key: a[0], value: a[1] },
        Some(Syscall::Call) => Request::Call {
            addr_ptr: a[0],
            value: a[1],
            in_ptr: a[2],
            in_size: a[3],
            out_ptr: a[4],
            out_size: a[5],
        },
        Some(Syscall::Revert) => Request::Revert,
        Some(Syscall::Caller) => Request::Caller,
        Some(Syscall::Keccak256) => Request::Keccak256 { ptr: a[0], len: a[1] },
        None => Request::Unknown,
    }
}

/// An `sstore` trap followed by an `sload` trap of the same key reads back
/// the value stored, whatever the storage held before: the requests carry
/// key and value unchanged to a host that does not deny them.
pub proof fn lemma_sstore_then_sload(m: Map<u64, u64>, store_args: Seq<u64>, load_args: Seq<u64>)
    requires
        store_args.len() == 6,
        load_args.len() == 6,
        load_args[0] == store_args[0],
    ensures
        spec_request(Syscall::SStore.spec_number() as u64, store_args) == (Request::SStore { key: store_args[0], value: store_args[1] }),
        spec_request(Syscall::SLoad.spec_number() as u64, load_args) == (Request::SLoad { key: store_args[0] }),
        slot_value(m.insert(store_args[0], store_args[1]), load_args[0]) == store_args[1],
{
}

/// A guest buffer can be read: it is empty, or it lies inside DRAM.
pub open spec fn readable(ptr: u64, len: u64) -> bool {
    len == 0 || fits_dram(ptr, len)
}

/// The three limbs that carry a 20-byte address in registers: bytes 0..8 and
/// 8..16 big-endian, then bytes 16..20 followed by four zero bytes.
pub open spec fn address_limbs(b: Seq<u8>) -> Seq<u64> {
    seq![
        u64_from_be(b.subrange(0, 8)),
        u64_from_be(b.subrange(8, 16)),
        u64_from_be(b.subrange(16, 20) + seq![0u8, 0u8, 0u8, 0u8]),
    ]
}

/// The four big-endian limbs that carry a 32-byte digest in registers.
pub open spec fn digest_limbs(d: Seq<u8>) -> Seq<u64> {
    Seq::new(4, |k: int| u64_from_be(d.subrange(8 * k, 8 * k + 8)))
}

/// The big-endian integer in `b[start..start + 8]`.
fn be_u64_at(b: &[u8], start: usize) -> (r: u64)
    requires
        start + 8 <= b@.len(),
        b@.len() <= 32,
    ensures
        r == u64_from_be(b@.subrange(start as int, start + 8)),
{
    let r = (b[start + 7] as u64) | (b[start + 6] as u64) << 8 | (b[start + 5] as u64) << 16
        | (b[start + 4] as u64) << 24 | (b[start + 3] as u64) << 32 | (b[start + 2] as u64) << 40
        | (b[start + 1] as u64) << 48 | (b[start] as u64) << 56;
    proof {
        let s = b@.subrange(start as int, start + 8);
        assert(s[0] == b@[start as int] && s[1] == b@[start + 1] && s[2] == b@[start + 2] && s[3] == b@[start + 3]);
        assert(s[4] == b@[start + 4] && s[5] == b@[start + 5] && s[6] == b@[start + 6] && s[7] == b@[start + 7]);
    }
    r
}

/// Packs an address into the registers that the caller syscall fills.
pub fn pack_caller(addr: &Address) -> (r: [u64; 3])
    ensures
        r@ == address_limbs(addr.bytes@),
{
    let b = addr.bytes.as_slice();
    let first = be_u64_at(b, 0);
    let second = be_u64_at(b, 8);
    let padded = [b[16], b[17], b[18], b[19], 0u8, 0u8, 0u8, 0u8];
    let third = be_u64_at(padded.as_slice(), 0);
    proof {
        assert(padded@.subrange(0, 8) =~= addr.bytes@.subrange(16, 20) + seq![0u8, 0u8, 0u8, 0u8]);
    }
    let r = [first, second, third];
    assert(r@ =~= address_limbs(addr.bytes@));
    r
}

/// Packs a digest into the registers that the keccak256 syscall fills.
pub fn pack_digest(d: &[u8; 32]) -> (r: [u64; 4])
    ensures
        r@ == digest_limbs(d@),
{
    let b = d.as_slice();
    let r = [be_u64_at(b, 0), be_u64_at(b, 8), be_u64_at(b, 16), be_u64_at(b, 24)];
    assert(r@ =~= digest_limbs(d@));
    r
}

/// A DRAM range that is to receive a nested call's output when the frame resumes.
#[derive(Copy, Clone, Debug, PartialEq, Eq, Structural)]
pub struct Destiny {
    pub start: u64,
    pub len: u64,
}

/// A nested call that a guest asks the host to make.
pub struct CallRequest {
    pub address: Address,
    pub value: u64,
    pub input: Vec<u8>,
    /// Bytes of the callee's output that the guest takes.
    pub out_size: u64,
}

/// What the host is to do for a guest frame.
pub enum Action {
    /// The frame ended successfully with this output.
    Return(Vec<u8>),
    /// The frame ended in failure with this output.
    Revert(Vec<u8>),
    /// Read this storage slot and hand the low 64 bits to `finish_sload`.
    SLoad(u64),
    /// Write this value to this storage slot, then run the frame again.
    SStore(u64, u64),
    /// Hand the current contract's caller to `finish_caller`.
    Caller,
    /// Make this nested call, then run the frame again with its output.
    Call(CallRequest),
    /// The syscall was served inside the frame: run it again.
    Continue,
}

/// The output of a guest's own `revert`: four zero bytes.
pub open spec fn revert_payload() -> Seq<u8> {
    seq![0u8, 0u8, 0u8, 0u8]
}

/// The action a guest fault collapses to: revert with empty output.
pub open spec fn is_fault_revert(a: Action) -> bool {
    a matches Action::Revert(o) && o@.len() == 0
}

/// An action that ends the frame.
pub open spec fn is_terminal(a: Action) -> bool {
    a is Return || a is Revert
}

/// Number of callee output bytes copied into a destiny: what fits, and no
/// more than the callee gave.
pub open spec fn copy_len(d: Destiny, available: nat) -> u64 {
    if d.len <= available {
        d.len
    } else {
        available as u64
    }
}

/// Number of callee output bytes to copy into a destiny.
pub fn destiny_copy_len(d: &Destiny, available: usize) -> (r: u64)
    ensures
        r == copy_len(*d, available as nat),
{
    if d.len <= available as u64 {
        d.len
    } else {
        available as u64
    }
}

fn fault() -> (r: Action)
    ensures
        is_fault_revert(r),
{
    Action::Revert(Vec::new())
}

/// The guest bytes `[ptr, ptr + len)` of a machine; nothing where `len` is zero.
pub open spec fn guest_bytes(e: Emulator, ptr: u64, len: u64) -> Seq<u8> {
    if len == 0 {
        Seq::empty()
    } else {
        dram_of(e).subrange(ptr - DRAM_BASE, ptr - DRAM_BASE + len)
    }
}

/// DRAM `m` with the first `n` bytes of `data` written at guest address `start`.
pub open spec fn written(m: Seq<u8>, start: u64, data: Seq<u8>, n: u64) -> Seq<u8> {
    Seq::new(
        m.len(),
        |i: int| if start - DRAM_BASE <= i < start - DRAM_BASE + n { data[i - (start - DRAM_BASE)] } else { m[i] },
    )
}

/// Two machines have equal registers.
pub open spec fn same_regs(a: Emulator, b: Emulator) -> bool {
    forall|i: u64| #[trigger] reg_of(b, i) == reg_of(a, i)
}

/// Reads the guest bytes `[ptr, ptr + len)`.
fn read_guest(emu: &mut Emulator, ptr: u64, len: u64) -> (r: Vec<u8>)
    requires
        readable(ptr, len),
        dram_of(*old(emu)).len() == DRAM_SIZE,
    ensures
        r@ == guest_bytes(*old(emu), ptr, len),
        *final(emu) == *old(emu),
{
    let mut out: Vec<u8> = Vec::new();
    if len == 0 {
        return out;
    }
    let mut i: u64 = 0;
    assert(out@ =~= dram_of(*emu).subrange(ptr - DRAM_BASE, ptr - DRAM_BASE));
    while i < len
        invariant
            fits_dram(ptr, len),
            i <= len,
            dram_of(*emu).len() == DRAM_SIZE,
            *emu == *old(emu),
            out@ == dram_of(*emu).subrange(ptr - DRAM_BASE, ptr - DRAM_BASE + i),
        decreases len - i,
    {
        let b = match read_byte(emu, ptr + i) {
            Some(b) => b,
            None => 0,
        };
        out.push(b);
        assert(out@ =~= dram_of(*emu).subrange(ptr - DRAM_BASE, ptr - DRAM_BASE + i + 1));
        i = i + 1;
    }
    out
}

/// Writes the first `n` bytes of `data` at guest address `ptr`.
fn write_guest(emu: &mut Emulator, ptr: u64, data: &[u8], n: u64)
    requires
        readable(ptr, n),
        n <= data@.len(),
        dram_of(*old(emu)).len() == DRAM_SIZE,
    ensures
        dram_of(*final(emu)) == written(dram_of(*old(emu)), ptr, data@, n),
        pc_of(*final(emu)) == pc_of(*old(emu)),
        same_regs(*old(emu), *final(emu)),
{
    if n == 0 {
        assert(dram_of(*emu) =~= written(dram_of(*old(emu)), ptr, data@, 0));
        return;
    }
    let mut i: u64 = 0;
    while i < n
        invariant
            fits_dram(ptr, n),
            n <= data@.len(),
            i <= n,
            dram_of(*emu) == written(dram_of(*old(emu)), ptr, data@, i),
            dram_of(*old(emu)).len() == DRAM_SIZE,
            pc_of(*emu) == pc_of(*old(emu)),
            same_regs(*old(emu), *emu),
        decreases n - i,
    {
        let _ = write_byte(emu, ptr + i, data[i as usize]);
        assert(dram_of(*emu) =~= written(dram_of(*old(emu)), ptr, data@, (i + 1) as u64));
        i = i + 1;
    }
}

/// A guest frame: the machine it runs on, and where a pending nested call's
/// output is to land.
pub struct FrameEmulator {
    pub emu: Emulator,
    pub returned_data_destiny: Option<Destiny>,
}

/// Why running a machine stopped.
#[derive(Copy, Clone, Debug, PartialEq, Eq, Structural)]
pub enum RunEnd {
    /// An environment call trapped.
    Trap,
    /// An instruction faulted, or the next one is not safe to run.
    Fault,
    /// The instruction budget ran out.
    OutOfFuel,
}

/// The machine, stop reason and address of the last instruction tried
/// after running `e` for at most `fuel` instructions, stopping at the first
/// trap or fault.
pub open spec fn run(e: Emulator, fuel: nat) -> (Emulator, RunEnd, u64)
    decreases fuel,
{
    if fuel == 0 {
        (e, RunEnd::OutOfFuel, pc_of(e))
    } else if !step_safe(e) {
        (e, RunEnd::Fault, pc_of(e))
    } else {
        match step_result(e) {
            StepOutcome::Continue => run(after_step(e), (fuel - 1) as nat),
            StepOutcome::EnvCall => (after_step(e), RunEnd::Trap, pc_of(e)),
            StepOutcome::Fault => (after_step(e), RunEnd::Fault, pc_of(e)),
        }
    }
}

/// The syscall that a trapped machine's registers request.
pub open spec fn trap_request(e: Emulator) -> Request {
    spec_request(
        reg_of(e, 5),
        seq![reg_of(e, 10), reg_of(e, 11), reg_of(e, 12), reg_of(e, 13), reg_of(e, 14), reg_of(e, 15)],
    )
}

/// `b` is `a` with registers `a0..a(n-1)` set to `limbs`.
pub open spec fn regs_set(a: Emulator, b: Emulator, limbs: Seq<u64>) -> bool {
    forall|i: u64| #[trigger] reg_of(b, i) == if 10 <= i < 10 + limbs.len() { limbs[i - 10] } else { reg_of(a, i) }
}

/// A nested call to the address `addr` with these input bytes, value and
/// output size.
pub open spec fn calls(a: Action, addr: Seq<u8>, input: Seq<u8>, value: u64, out_size: u64) -> bool {
    a matches Action::Call(c) && c.address.bytes@ == addr && c.input@ == input && c.value == value && c.out_size
        == out_size
}

/// The frame returns exactly `out`.
pub open spec fn returns_with(a: Action, out: Seq<u8>) -> bool {
    a matches Action::Return(o) && o@ == out
}

/// The frame reverts with exactly `out`.
pub open spec fn reverts_with(a: Action, out: Seq<u8>) -> bool {
    a matches Action::Revert(o) && o@ == out
}

/// What serving request `req` on machine `e`, trapped by the environment
/// call at `trap_pc`, gives: action `r` and frame `f`.
pub open spec fn serve_post(e: Emulator, req: Request, trap_pc: u64, r: Action, f: FrameEmulator) -> bool {
    match req {
        Request::Return { ptr, len } => f.emu == e && f.returned_data_destiny is None && if readable(ptr, len) {
            returns_with(r, guest_bytes(e, ptr, len))
        } else {
            is_fault_revert(r)
        },
        Request::SLoad { key } => f.emu == e && f.returned_data_destiny is None && r == Action::SLoad(key),
        Request::SStore { key, value } => f.emu == e && f.returned_data_destiny is None && r == Action::SStore(
            key,
            value,
        ),
        Request::Call { addr_ptr, value, in_ptr, in_size, out_ptr, out_size } => f.emu == e && if fits_dram(
            addr_ptr,
            20,
        ) && readable(in_ptr, in_size) && readable(out_ptr, out_size) {
            calls(r, guest_bytes(e, addr_ptr, 20), guest_bytes(e, in_ptr, in_size), value, out_size)
                && f.returned_data_destiny == Some(Destiny { start: out_ptr, len: out_size })
        } else {
            is_fault_revert(r) && f.returned_data_destiny is None
        },
        Request::Revert => f.emu == e && f.returned_data_destiny is None && reverts_with(r, revert_payload()),
        Request::Caller => f.emu == e && f.returned_data_destiny is None && r == Action::Caller,
        Request::Keccak256 { ptr, len } => f.returned_data_destiny is None && if readable(ptr, len) {
            r == Action::Continue && dram_of(f.emu) == dram_of(e) && pc_of(f.emu) == pc_of(e) && regs_set(
                e,
                f.emu,
                digest_limbs(keccak_of(guest_bytes(e, ptr, len))),
            )
        } else {
            is_fault_revert(r) && f.emu == e
        },
        Request::Unknown => {
            &&& is_fault_revert(r)
            &&& f.returned_data_destiny is None
            &&& dram_of(f.emu) == dram_of(e)
            &&& same_regs(e, f.emu)
            &&& pc_of(f.emu) == trap_pc
        },
    }
}

/// What resuming frame `f` with callee output `output` leaves: the destiny
/// cleared and, if one was pending, the first `copy_len` output bytes
/// written into it; the rest of the destiny keeps its bytes.
pub open spec fn resume_post(f: FrameEmulator, output: Seq<u8>, g: FrameEmulator) -> bool {
    &&& g.returned_data_destiny is None
    &&& match f.returned_data_destiny {
        None => g.emu == f.emu,
        Some(d) => {
            &&& dram_of(g.emu) == written(dram_of(f.emu), d.start, output, copy_len(d, output.len()))
            &&& pc_of(g.emu) == pc_of(f.emu)
            &&& same_regs(f.emu, g.emu)
        },
    }
}

/// What running frame `f` with budget `fuel` gives: the machine runs to its
/// first trap, fault or the end of the budget; a trap is served; anything
/// else reverts with empty output.
pub open spec fn execute_post(f: FrameEmulator, fuel: u64, r: Action, g: FrameEmulator) -> bool {
    let (e1, end, trap_pc) = run(f.emu, fuel as nat);
    if end == RunEnd::Trap {
        serve_post(e1, trap_request(e1), trap_pc, r, g)
    } else {
        is_fault_revert(r) && g.emu == e1 && g.returned_data_destiny is None
    }
}

impl FrameEmulator {
    /// DRAM has its full size and a pending destiny is empty or lies inside it.
    pub open spec fn wf(&self) -> bool {
        &&& dram_of(self.emu).len() == DRAM_SIZE
        &&& (self.returned_data_destiny matches Some(d) ==> readable(d.start, d.len))
    }

    pub fn new(emu: Emulator) -> (r: FrameEmulator)
        ensures
            r.returned_data_destiny is None,
            r.emu == emu,
    {
        FrameEmulator { emu, returned_data_destiny: None }
    }

    /// Copies a nested call's output into the pending destiny, if any, and
    /// clears it.
    pub fn resume(&mut self, output: &[u8])
        requires
            old(self).wf(),
        ensures
            final(self).wf(),
            resume_post(*old(self), output@, *final(self)),
    {
        match self.returned_data_destiny {
            None => {},
            Some(d) => {
                self.returned_data_destiny = None;
                let n = destiny_copy_len(&d, output.len());
                write_guest(&mut self.emu, d.start, output, n);
            },
        }
    }

    /// Services one syscall, checking every guest buffer it names against
    /// DRAM. An unknown syscall leaves the program counter on its trap.
    pub fn serve(&mut self, req: Request, trap_pc: u64) -> (r: Action)
        requires
            old(self).wf(),
            old(self).returned_data_destiny is None,
        ensures
            final(self).wf(),
            serve_post(old(self).emu, req, trap_pc, r, *final(self)),
    {
        match req {
            Request::Return { ptr, len } => {
                if len != 0 && !check_fits_dram(ptr, len) {
                    return fault();
                }
                Action::Return(read_guest(&mut self.emu, ptr, len))
            },
            Request::SLoad { key } => Action::SLoad(key),
            Request::SStore { key, value } => Action::SStore(key, value),
            Request::Call { addr_ptr, value, in_ptr, in_size, out_ptr, out_size } => {
                if !check_fits_dram(addr_ptr, 20) || (in_size != 0 && !check_fits_dram(in_ptr, in_size))
                    || (out_size != 0 && !check_fits_dram(out_ptr, out_size)) {
                    return fault();
                }
                let addr = read_guest(&mut self.emu, addr_ptr, 20);
                let input = read_guest(&mut self.emu, in_ptr, in_size);
                let bytes: [u8; 20] = [
                    addr[0], addr[1], addr[2], addr[3], addr[4], addr[5], addr[6], addr[7], addr[8], addr[9],
                    addr[10], addr[11], addr[12], addr[13], addr[14], addr[15], addr[16], addr[17], addr[18],
                    addr[19],
                ];
                assert(bytes@ =~= addr@);
                self.returned_data_destiny = Some(Destiny { start: out_ptr, len: out_size });
                Action::Call(CallRequest { address: Address::new(bytes), value, input, out_size })
            },
            Request::Revert => {
                let mut out: Vec<u8> = Vec::new();
                out.push(0u8);
                out.push(0u8);
                out.push(0u8);
                out.push(0u8);
                assert(out@ =~= revert_payload());
                Action::Revert(out)
            },
            Request::Caller => Action::Caller,
            Request::Keccak256 { ptr, len } => {
                if len != 0 && !check_fits_dram(ptr, len) {
                    return fault();
                }
                let ghost e = self.emu;
                let data = read_guest(&mut self.emu, ptr, len);
                let limbs = pack_digest(&keccak(data.as_slice()));
                self.set_args(limbs.as_slice());
                Action::Continue
            },
            Request::Unknown => {
                self.emu.initialize_pc(trap_pc);
                fault()
            },
        }
    }

    /// Writes `values` to `a0`, `a1`, ... in order.
    fn set_args(&mut self, values: &[u64])
        requires
            old(self).wf(),
            values@.len() <= 6,
        ensures
            final(self).wf(),
            final(self).returned_data_destiny == old(self).returned_data_destiny,
            dram_of(final(self).emu) == dram_of(old(self).emu),
            pc_of(final(self).emu) == pc_of(old(self).emu),
            regs_set(old(self).emu, final(self).emu, values@),
    {
        let mut k: usize = 0;
        while k < values.len()
            invariant
                k <= values@.len() <= 6,
                self.wf(),
                self.returned_data_destiny == old(self).returned_data_destiny,
                dram_of(self.emu) == dram_of(old(self).emu),
                pc_of(self.emu) == pc_of(old(self).emu),
                regs_set(old(self).emu, self.emu, values@.subrange(0, k as int)),
            decreases values@.len() - k,
        {
            write_register(&mut self.emu, REG_A0 + k as u64, values[k]);
            k = k + 1;
            assert(regs_set(old(self).emu, self.emu, values@.subrange(0, k as int))) by {
                assert forall|i: u64| #[trigger] reg_of(self.emu, i) == if 10 <= i < 10 + k {
                    values@.subrange(0, k as int)[i - 10]
                } else {
                    reg_of(old(self).emu, i)
                } by {
                    if 10 <= i < 10 + k - 1 {
                        assert(values@.subrange(0, k - 1)[i - 10] == values@.subrange(0, k as int)[i - 10]);
                    }
                }
            }
        }
        assert(values@.subrange(0, values@.len() as int) =~= values@);
    }

    /// The syscall that the trapped registers request.
    fn trapped_request(&self) -> (r: Request)
        ensures
            r == trap_request(self.emu),
    {
        let t0 = read_register(&self.emu, REG_T0);
        let a = [
            read_register(&self.emu, REG_A0),
            read_register(&self.emu, REG_A0 + 1),
            read_register(&self.emu, REG_A0 + 2),
            read_register(&self.emu, REG_A0 + 3),
            read_register(&self.emu, REG_A0 + 4),
            read_register(&self.emu, REG_A0 + 5),
        ];
        assert(a@ =~= seq![
            reg_of(self.emu, 10),
            reg_of(self.emu, 11),
            reg_of(self.emu, 12),
            reg_of(self.emu, 13),
            reg_of(self.emu, 14),
            reg_of(self.emu, 15),
        ]);
        syscall_request(t0, &a)
    }

    /// Runs the frame until it needs the host: steps the machine at most
    /// `fuel` instructions and serves the syscall it traps on. An unsafe or
    /// faulting instruction, or running out of fuel, reverts with empty output.
    pub fn execute(&mut self, fuel: u64) -> (r: Action)
        requires
            old(self).wf(),
            old(self).returned_data_destiny is None,
        ensures
            final(self).wf(),
            execute_post(*old(self), fuel, r, *final(self)),
    {
        let mut remaining = fuel;
        while remaining > 0
            invariant
                self.wf(),
                self.returned_data_destiny is None,
                run(self.emu, remaining as nat) == run(old(self).emu, fuel as nat),
            decreases remaining,
        {
            if !step_is_safe(&mut self.emu) {
                return fault();
            }
            let pc = read_pc(&self.emu);
            let outcome = step(&mut self.emu);
            remaining = remaining - 1;
            match outcome {
                StepOutcome::Continue => {},
                StepOutcome::Fault => return fault(),
                StepOutcome::EnvCall => {
                    let req = self.trapped_request();
                    return self.serve(req, pc);
                },
            }
        }
        fault()
    }

    /// Completes an `SLoad`: the value read goes to `a0`.
    pub fn finish_sload(&mut self, value: u64)
        requires
            old(self).wf(),
        ensures
            final(self).wf(),
            sload_post(*old(self), value, *final(self)),
    {
        let v = [value];
        self.set_args(v.as_slice());
    }

    /// Completes a `Caller`: the caller's address goes to `a0..a2`, packed as
    /// `address_limbs` says.
    pub fn finish_caller(&mut self, caller: &Address)
        requires
            old(self).wf(),
        ensures
            final(self).wf(),
            caller_post(*old(self), caller.bytes@, *final(self)),
    {
        let limbs = pack_caller(caller);
        self.set_args(limbs.as_slice());
    }
}

/// Completing an `SLoad` with `value` sets `a0` and nothing else.
pub open spec fn sload_post(f: FrameEmulator, value: u64, g: FrameEmulator) -> bool {
    &&& g.returned_data_destiny == f.returned_data_destiny
    &&& dram_of(g.emu) == dram_of(f.emu)
    &&& pc_of(g.emu) == pc_of(f.emu)
    &&& regs_set(f.emu, g.emu, seq![value])
}

/// Completing a `Caller` sets `a0..a2` to the caller's limbs and nothing else.
pub open spec fn caller_post(f: FrameEmulator, caller: Seq<u8>, g: FrameEmulator) -> bool {
    &&& g.returned_data_destiny == f.returned_data_destiny
    &&& dram_of(g.emu) == dram_of(f.emu)
    &&& pc_of(g.emu) == pc_of(f.emu)
    &&& regs_set(f.emu, g.emu, address_limbs(caller))
}

/// A frame is guest code when its bytecode starts with the guest prefix.
pub open spec fn is_guest_code(bytecode: Seq<u8>) -> bool {
    bytecode.len() > 0 && bytecode[0] == GUEST_CODE_PREFIX
}

/// The context kept for one frame of the outer EVM.
pub enum FrameContext {
    /// Not guest code: the stock interpreter runs it.
    Native,
    /// Guest code, loaded and ready to run.
    Emulated(FrameEmulator),
    /// Guest code that could not be loaded: the frame reverts.
    Broken(LoadError),
}

/// The kind of a frame context, without its machine.
#[derive(Copy, Clone, Debug, PartialEq, Eq, Structural)]
pub enum FrameKind {
    Native,
    Emulated,
    Broken,
}

pub open spec fn kind_of(c: FrameContext) -> FrameKind {
    match c {
        FrameContext::Native => FrameKind::Native,
        FrameContext::Emulated(_) => FrameKind::Emulated,
        FrameContext::Broken(_) => FrameKind::Broken,
    }
}

/// A frame context whose machine, if any, is well formed.
pub open spec fn context_ok(c: FrameContext) -> bool {
    c matches FrameContext::Emulated(f) ==> f.wf()
}

/// `c` is the context that a frame with this code and input gets: `Native`
/// for code without the guest prefix; otherwise the machine that setup
/// loads from the code after the prefix, or the error setup reports.
pub open spec fn context_for(c: FrameContext, bytecode: Seq<u8>, input: Seq<u8>) -> bool {
    let elf = bytecode.subrange(1, bytecode.len() as int);
    if !is_guest_code(bytecode) {
        c is Native
    } else {
        match c {
            FrameContext::Native => false,
            FrameContext::Emulated(f) => {
                &&& loads(elf, input)
                &&& f.returned_data_destiny is None
                &&& parsed_elf(elf) matches Some(p)
                &&& holds_guest(f.emu, p.0, p.1, elf, input)
            },
            FrameContext::Broken(e) => {
                &&& !loads(elf, input)
                &&& (e == LoadError::CalldataTooLarge <==> input.len() + 8 > CALLDATA_REGION_SIZE)
            },
        }
    }
}

/// Builds the context of a new frame from its code and input: guest code is
/// loaded without its prefix byte, with the input as calldata.
pub fn riscv_context(bytecode: &[u8], input: &[u8]) -> (r: FrameContext)
    ensures
        context_for(r, bytecode@, input@),
        context_ok(r),
{
    if bytecode.len() == 0 || bytecode[0] != GUEST_CODE_PREFIX {
        return FrameContext::Native;
    }
    let elf = vstd::slice::slice_subrange(bytecode, 1, bytecode.len());
    match setup_from_elf(elf, input) {
        Ok(emu) => FrameContext::Emulated(FrameEmulator::new(emu)),
        Err(e) => FrameContext::Broken(e),
    }
}

/// One context per active frame of the outer EVM, innermost last; frames that
/// are not guest code hold `Native` so that depths match.
pub struct ContextStack {
    frames: Vec<FrameContext>,
}

impl ContextStack {
    /// The frame contexts, outermost first.
    pub closed spec fn contexts(&self) -> Seq<FrameContext> {
        self.frames@
    }

    /// The kinds of the frames, outermost first.
    pub open spec fn kinds(&self) -> Seq<FrameKind> {
        self.contexts().map_values(|c: FrameContext| kind_of(c))
    }

    pub open spec fn well_formed(&self) -> bool {
        forall|i: int| 0 <= i < self.contexts().len() ==> context_ok(#[trigger] self.contexts()[i])
    }

    pub fn new() -> (r: ContextStack)
        ensures
            r.well_formed(),
            r.contexts() == Seq::<FrameContext>::empty(),
    {
        ContextStack { frames: Vec::new() }
    }

    pub fn len(&self) -> (r: usize)
        ensures
            r == self.contexts().len(),
    {
        self.frames.len()
    }

    /// Pushes the context of a frame that the outer EVM created.
    pub fn push_frame(&mut self, bytecode: &[u8], input: &[u8])
        requires
            old(self).well_formed(),
        ensures
            final(self).well_formed(),
            final(self).contexts().len() == old(self).contexts().len() + 1,
            final(self).contexts().drop_last() == old(self).contexts(),
            context_for(final(self).contexts().last(), bytecode@, input@),
    {
        let c = riscv_context(bytecode, input);
        self.frames.push(c);
        assert(self.frames@.drop_last() =~= old(self).frames@);
        assert forall|i: int| 0 <= i < self.contexts().len() implies context_ok(#[trigger] self.contexts()[i]) by {
            if i < self.contexts().len() - 1 {
                assert(self.contexts()[i] == old(self).contexts()[i]);
            }
        }
    }

    /// Drops the innermost frame's context.
    pub fn pop(&mut self)
        requires
            old(self).well_formed(),
        ensures
            final(self).well_formed(),
            old(self).contexts().len() > 0 ==> final(self).contexts() == old(self).contexts().drop_last(),
            old(self).contexts().len() == 0 ==> final(self).contexts() == old(self).contexts(),
    {
        let _ = self.frames.pop();
        assert(old(self).frames@.len() > 0 ==> self.frames@ =~= old(self).frames@.drop_last());
    }

    /// Runs the innermost frame if it is guest code: `None` where the stack
    /// is empty or the frame is native, for the stock interpreter to run. A
    /// guest frame is resumed with `output` and then executed; a frame whose
    /// action ends it is popped, one that suspends stays with its new state.
    pub fn execute_top(&mut self, output: &[u8], fuel: u64) -> (r: Option<Action>)
        requires
            old(self).well_formed(),
        ensures
            final(self).well_formed(),
            old(self).contexts().len() == 0 ==> r is None && final(self).contexts() == old(self).contexts(),
            old(self).contexts().len() > 0 ==> match old(self).contexts().last() {
                FrameContext::Native => r is None && final(self).contexts() == old(self).contexts(),
                FrameContext::Broken(_) => r matches Some(a) && is_fault_revert(a) && final(self).contexts()
                    == old(self).contexts().drop_last(),
                FrameContext::Emulated(f0) => r matches Some(a) && exists|fm: FrameEmulator, f1: FrameEmulator|
                    {
                        &&& resume_post(f0, output@, fm)
                        &&& execute_post(fm, fuel, a, f1)
                        &&& is_terminal(a) ==> final(self).contexts() == old(self).contexts().drop_last()
                        &&& !is_terminal(a) ==> final(self).contexts() == old(self).contexts().drop_last().push(
                            FrameContext::Emulated(f1),
                        )
                    },
            },
    {
        let top = match self.frames.pop() {
            Some(c) => c,
            None => return None,
        };
        assert(self.frames@ =~= old(self).frames@.drop_last());
        match top {
            FrameContext::Native => {
                self.frames.push(FrameContext::Native);
                assert(self.frames@ =~= old(self).frames@);
                None
            },
            FrameContext::Broken(e) => Some(fault()),
            FrameContext::Emulated(mut f) => {
                assert(context_ok(old(self).frames@.last()));
                let ghost f0 = f;
                f.resume(output);
                let ghost fm = f;
                let a = f.execute(fuel);
                let ghost f1 = f;
                assert(resume_post(f0, output@, fm) && execute_post(fm, fuel, a, f1));
                if matches!(a, Action::Return(_) | Action::Revert(_)) {
                    Some(a)
                } else {
                    self.frames.push(FrameContext::Emulated(f));
                    assert forall|i: int| 0 <= i < self.contexts().len() implies context_ok(
                        #[trigger] self.contexts()[i],
                    ) by {
                        if i < self.contexts().len() - 1 {
                            assert(self.contexts()[i] == old(self).contexts()[i]);
                        }
                    }
                    Some(a)
                }
            },
        }
    }

    /// Ends the innermost frame after the host refused its `SLoad`: the
    /// frame is popped and reverts with empty output.
    pub fn refuse_sload(&mut self) -> (r: Action)
        requires
            old(self).well_formed(),
        ensures
            final(self).well_formed(),
            is_fault_revert(r),
            old(self).contexts().len() > 0 ==> final(self).contexts() == old(self).contexts().drop_last(),
            old(self).contexts().len() == 0 ==> final(self).contexts() == old(self).contexts(),
    {
        self.pop();
        fault()
    }

    /// Completes an `SLoad` of the innermost frame, if it is guest code.
    pub fn finish_sload(&mut self, value: u64)
        requires
            old(self).well_formed(),
        ensures
            final(self).well_formed(),
            final(self).kinds() == old(self).kinds(),
            old(self).contexts().len() > 0 && old(self).contexts().last() is Emulated ==> exists|f1: FrameEmulator|
                {
                    &&& sload_post(old(self).contexts().last()->Emulated_0, value, f1)
                    &&& final(self).contexts() == old(self).contexts().drop_last().push(FrameContext::Emulated(f1))
                },
            !(old(self).contexts().len() > 0 && old(self).contexts().last() is Emulated) ==> final(self).contexts()
                == old(self).contexts(),
    {
        match self.frames.pop() {
            Some(FrameContext::Emulated(mut f)) => {
                assert(context_ok(old(self).frames@.last()));
                f.finish_sload(value);
                self.frames.push(FrameContext::Emulated(f));
                assert(self.frames@.drop_last() =~= old(self).frames@.drop_last());
            },
            Some(c) => {
                self.frames.push(c);
                assert(self.frames@ =~= old(self).frames@);
            },
            None => {},
        }
        assert(self.kinds() =~= old(self).kinds());
        assert forall|i: int| 0 <= i < self.contexts().len() implies context_ok(#[trigger] self.contexts()[i]) by {
            if i < self.contexts().len() - 1 {
                assert(self.contexts()[i] == old(self).contexts()[i]);
            }
        }
    }

    /// Completes a `Caller` of the innermost frame, if it is guest code.
    pub fn finish_caller(&mut self, caller: &Address)
        requires
            old(self).well_formed(),
        ensures
            final(self).well_formed(),
            final(self).kinds() == old(self).kinds(),
            old(self).contexts().len() > 0 && old(self).contexts().last() is Emulated ==> exists|f1: FrameEmulator|
                {
                    &&& caller_post(old(self).contexts().last()->Emulated_0, caller.bytes@, f1)
                    &&& final(self).contexts() == old(self).contexts().drop_last().push(FrameContext::Emulated(f1))
                },
            !(old(self).contexts().len() > 0 && old(self).contexts().last() is Emulated) ==> final(self).contexts()
                == old(self).contexts(),
    {
        match self.frames.pop() {
            Some(FrameContext::Emulated(mut f)) => {
                assert(context_ok(old(self).frames@.last()));
                f.finish_caller(caller);
                self.frames.push(FrameContext::Emulated(f));
                assert(self.frames@.drop_last() =~= old(self).frames@.drop_last());
            },
            Some(c) => {
                self.frames.push(c);
                assert(self.frames@ =~= old(self).frames@);
            },
            None => {},
        }
        assert(self.kinds() =~= old(self).kinds());
        assert forall|i: int| 0 <= i < self.contexts().len() implies context_ok(#[trigger] self.contexts()[i]) by {
            if i < self.contexts().len() - 1 {
                assert(self.contexts()[i] == old(self).contexts()[i]);
            }
        }
    }
}

} // verus!
