use r55::bridge::{
    destiny_copy_len, pack_caller, pack_digest, riscv_context, syscall_request, Action, ContextStack,
    Destiny, FrameContext, Request,
};
use r55::loader::{LoadError, DRAM_BASE, DRAM_SIZE};
use r55::guest::{address_from_limbs, digest_from_limbs};
use r55::loader::{ElfImage, ProgramHeader, PT_LOAD};
use r55::machine::{check_fits_dram, load_image, setup_from_elf};
use r55::storage::{Address, Storage};

const CODE_ADDR: u64 = 0x8010_0000;

/// `addi rd, rs1, imm`
fn addi(rd: u32, rs1: u32, imm: u32) -> u32 {
    (imm << 20) | (rs1 << 15) | (rd << 7) | 0x13
}

/// `slli rd, rs1, shamt`
fn slli(rd: u32, rs1: u32, shamt: u32) -> u32 {
    (shamt << 20) | (rs1 << 15) | (1 << 12) | (rd << 7) | 0x13
}

/// `sd rs2, imm(rs1)`
fn sd(rs2: u32, rs1: u32, imm: u32) -> u32 {
    ((imm >> 5) << 25) | (rs2 << 20) | (rs1 << 15) | (3 << 12) | ((imm & 31) << 7) | 0x23
}

const ECALL: u32 = 0x73;

/// Code that stores a0..a(n-1) at t1 and returns those `8 * n` bytes.
fn store_and_return(n: u32) -> Vec<u32> {
    let mut code: Vec<u32> = (0..n).map(|k| sd(10 + k, 6, 8 * k)).collect();
    code.extend_from_slice(&[addi(10, 6, 0), addi(11, 0, 8 * n), addi(5, 0, 0), ECALL]);
    code
}

/// A RISC-V ELF64 executable with one loadable segment holding `code`.
fn elf_with_code(code: &[u32]) -> Vec<u8> {
    let body: Vec<u8> = code.iter().flat_map(|i| i.to_le_bytes()).collect();
    let mut elf = vec![0x7f, b'E', b'L', b'F', 2, 1, 1, 0, 0, 0, 0, 0, 0, 0, 0, 0];
    elf.extend_from_slice(&2u16.to_le_bytes());
    elf.extend_from_slice(&243u16.to_le_bytes());
    elf.extend_from_slice(&1u32.to_le_bytes());
    elf.extend_from_slice(&CODE_ADDR.to_le_bytes());
    elf.extend_from_slice(&64u64.to_le_bytes());
    elf.extend_from_slice(&0u64.to_le_bytes());
    elf.extend_from_slice(&0u32.to_le_bytes());
    elf.extend_from_slice(&64u16.to_le_bytes());
    elf.extend_from_slice(&56u16.to_le_bytes());
    elf.extend_from_slice(&1u16.to_le_bytes());
    elf.extend_from_slice(&64u16.to_le_bytes());
    elf.extend_from_slice(&0u16.to_le_bytes());
    elf.extend_from_slice(&0u16.to_le_bytes());
    assert_eq!(elf.len(), 64);
    elf.extend_from_slice(&1u32.to_le_bytes());
    elf.extend_from_slice(&5u32.to_le_bytes());
    elf.extend_from_slice(&120u64.to_le_bytes());
    elf.extend_from_slice(&CODE_ADDR.to_le_bytes());
    elf.extend_from_slice(&CODE_ADDR.to_le_bytes());
    elf.extend_from_slice(&(body.len() as u64).to_le_bytes());
    elf.extend_from_slice(&(body.len() as u64).to_le_bytes());
    elf.extend_from_slice(&4u64.to_le_bytes());
    assert_eq!(elf.len(), 120);
    elf.extend_from_slice(&body);
    elf
}

/// Code that puts `DRAM_BASE + 8` (the calldata payload) in a0, `len` in a1,
/// `num` in t0, and traps.
fn syscall_on_calldata(num: u32, len: u32) -> Vec<u32> {
    vec![addi(10, 0, 1), slli(10, 10, 31), addi(10, 10, 8), addi(11, 0, len), addi(5, 0, num), ECALL]
}

fn guest_code(code: &[u32]) -> Vec<u8> {
    let mut bytecode = vec![0xff];
    bytecode.extend_from_slice(&elf_with_code(code));
    bytecode
}

fn run(code: &[u32], input: &[u8]) -> Action {
    let mut stack = ContextStack::new();
    stack.push_frame(&guest_code(code), input);
    loop {
        match stack.execute_top(&[], 10_000).expect("guest frame") {
            Action::Continue => {}
            action => return action,
        }
    }
}

#[test]
fn syscall_requests_follow_the_catalog() {
    let a = [1, 2, 3, 4, 5, 6];
    assert_eq!(syscall_request(0, &a), Request::Return { ptr: 1, len: 2 });
    assert_eq!(syscall_request(1, &a), Request::SLoad { key: 1 });
    assert_eq!(syscall_request(2, &a), Request::SStore { key: 1, value: 2 });
    assert_eq!(
        syscall_request(3, &a),
        Request::Call { addr_ptr: 1, value: 2, in_ptr: 3, in_size: 4, out_ptr: 5, out_size: 6 }
    );
    assert_eq!(syscall_request(4, &a), Request::Revert);
    assert_eq!(syscall_request(5, &a), Request::Caller);
    assert_eq!(syscall_request(6, &a), Request::Keccak256 { ptr: 1, len: 2 });
    assert_eq!(syscall_request(7, &a), Request::Unknown);
    assert_eq!(syscall_request(1 << 32, &a), Request::Unknown);
}

#[test]
fn dram_ranges() {
    assert!(check_fits_dram(DRAM_BASE, DRAM_SIZE));
    assert!(check_fits_dram(DRAM_BASE + DRAM_SIZE - 1, 1));
    assert!(!check_fits_dram(DRAM_BASE + DRAM_SIZE - 1, 2));
    assert!(!check_fits_dram(DRAM_BASE - 1, 1));
    assert!(!check_fits_dram(u64::MAX, 2));
}

#[test]
fn caller_packs_big_endian() {
    let mut bytes = [0u8; 20];
    for (i, b) in bytes.iter_mut().enumerate() {
        *b = i as u8 + 1;
    }
    let limbs = pack_caller(&Address::new(bytes));
    assert_eq!(limbs, [0x0102_0304_0506_0708, 0x090a_0b0c_0d0e_0f10, 0x1112_1314_0000_0000]);
}

#[test]
fn digest_packs_big_endian() {
    let mut d = [0u8; 32];
    for (i, b) in d.iter_mut().enumerate() {
        *b = i as u8;
    }
    let limbs = pack_digest(&d);
    assert_eq!(limbs[0], 0x0001_0203_0405_0607);
    assert_eq!(limbs[3], 0x1819_1a1b_1c1d_1e1f);
    let mut back = Vec::new();
    for l in limbs {
        back.extend_from_slice(&l.to_be_bytes());
    }
    assert_eq!(back, d.to_vec());
}

#[test]
fn native_code_gets_no_emulator() {
    assert!(matches!(riscv_context(&[0x60, 0x00], &[]), FrameContext::Native));
    assert!(matches!(riscv_context(&[], &[]), FrameContext::Native));
    let mut stack = ContextStack::new();
    stack.push_frame(&[0x60, 0x00], &[]);
    assert_eq!(stack.len(), 1);
    assert!(stack.execute_top(&[], 100).is_none());
    assert_eq!(stack.len(), 1);
    stack.pop();
    assert_eq!(stack.len(), 0);
    assert!(stack.execute_top(&[], 100).is_none());
}

#[test]
fn malformed_guest_code_reverts_empty() {
    assert!(matches!(riscv_context(&[0xff, 1, 2, 3], &[]), FrameContext::Broken(LoadError::BadImage)));
    let mut stack = ContextStack::new();
    stack.push_frame(&[0xff, 1, 2, 3], &[]);
    match stack.execute_top(&[], 100) {
        Some(Action::Revert(out)) => assert!(out.is_empty()),
        _ => panic!("expected a revert"),
    }
    assert_eq!(stack.len(), 0);
}

#[test]
fn setup_rejects_oversized_calldata() {
    let elf = elf_with_code(&syscall_on_calldata(0, 4));
    let too_big = vec![0u8; 1024 * 1024];
    assert!(matches!(setup_from_elf(&elf, &too_big), Err(LoadError::CalldataTooLarge)));
    assert!(setup_from_elf(&elf, &[1, 2]).is_ok());
}

#[test]
fn guest_returns_its_calldata() {
    match run(&syscall_on_calldata(0, 4), &[1, 2, 3, 4, 5]) {
        Action::Return(out) => assert_eq!(out, vec![1, 2, 3, 4]),
        _ => panic!("expected a return"),
    }
}

#[test]
fn zero_length_return_is_empty() {
    let code = vec![addi(10, 0, 0), addi(11, 0, 0), addi(5, 0, 0), ECALL];
    match run(&code, &[]) {
        Action::Return(out) => assert!(out.is_empty()),
        _ => panic!("expected a return"),
    }
}

#[test]
fn guest_revert_yields_placeholder() {
    match run(&syscall_on_calldata(4, 0), &[]) {
        Action::Revert(out) => assert_eq!(out, vec![0, 0, 0, 0]),
        _ => panic!("expected a revert"),
    }
}

#[test]
fn unknown_syscall_reverts_empty() {
    let mut stack = ContextStack::new();
    stack.push_frame(&guest_code(&syscall_on_calldata(9, 0)), &[]);
    match stack.execute_top(&[], 10_000) {
        Some(Action::Revert(out)) => assert!(out.is_empty()),
        _ => panic!("expected a revert"),
    }
    assert_eq!(stack.len(), 0);
}

#[test]
fn out_of_dram_return_reverts_empty() {
    let code = vec![addi(10, 0, 16), addi(11, 0, 4), addi(5, 0, 0), ECALL];
    match run(&code, &[]) {
        Action::Revert(out) => assert!(out.is_empty()),
        _ => panic!("expected a revert"),
    }
}

#[test]
fn running_out_of_fuel_reverts() {
    let mut stack = ContextStack::new();
    stack.push_frame(&guest_code(&syscall_on_calldata(0, 4)), &[1, 2, 3, 4]);
    match stack.execute_top(&[], 3) {
        Some(Action::Revert(out)) => assert!(out.is_empty()),
        _ => panic!("expected a revert"),
    }
}

#[test]
fn sload_suspends_and_resumes() {
    let code = vec![
        addi(10, 0, 42),
        addi(5, 0, 1),
        ECALL,
        addi(11, 0, 0),
        addi(5, 0, 0),
        ECALL,
    ];
    let mut stack = ContextStack::new();
    stack.push_frame(&guest_code(&code), &[]);
    match stack.execute_top(&[], 10_000) {
        Some(Action::SLoad(key)) => assert_eq!(key, 42),
        _ => panic!("expected an sload"),
    }
    assert_eq!(stack.len(), 1);
    stack.finish_sload(7);
    match stack.execute_top(&[], 10_000) {
        Some(Action::Return(out)) => assert!(out.is_empty()),
        _ => panic!("expected a return"),
    }
    assert_eq!(stack.len(), 0);
}

#[test]
fn guest_unpacks_what_host_packs() {
    let mut bytes = [0u8; 20];
    for (i, b) in bytes.iter_mut().enumerate() {
        *b = 0xf0 - i as u8;
    }
    let a = Address::new(bytes);
    assert_eq!(address_from_limbs(pack_caller(&a)).bytes, bytes);
    let mut d = [0u8; 32];
    for (i, b) in d.iter_mut().enumerate() {
        *b = (i as u8).wrapping_mul(37);
    }
    assert_eq!(digest_from_limbs(pack_digest(&d)), d);
}

#[test]
fn guest_unpacking_is_big_endian() {
    let a = address_from_limbs([0x0102_0304_0506_0708, 0x090a_0b0c_0d0e_0f10, 0x1112_1314_ffff_ffff]);
    let want: Vec<u8> = (1u8..=20).collect();
    assert_eq!(a.bytes.to_vec(), want);
}

#[test]
fn destiny_takes_what_fits() {
    let d = Destiny { start: DRAM_BASE, len: 4 };
    assert_eq!(destiny_copy_len(&d, 2), 2);
    assert_eq!(destiny_copy_len(&d, 4), 4);
    assert_eq!(destiny_copy_len(&d, 10), 4);
}

#[test]
fn nested_call_output_lands_in_destiny() {
    let code = vec![
        addi(10, 0, 1),
        slli(10, 10, 31),
        addi(10, 10, 8),
        addi(12, 10, 0),
        addi(14, 10, 0),
        addi(11, 0, 5),
        addi(13, 0, 4),
        addi(15, 0, 4),
        addi(5, 0, 3),
        ECALL,
        addi(11, 0, 4),
        addi(5, 0, 0),
        ECALL,
    ];
    let input: Vec<u8> = (1u8..=20).collect();
    let mut stack = ContextStack::new();
    stack.push_frame(&guest_code(&code), &input);
    match stack.execute_top(&[], 10_000) {
        Some(Action::Call(req)) => {
            assert_eq!(req.address.bytes.to_vec(), input);
            assert_eq!(req.value, 5);
            assert_eq!(req.input, vec![1, 2, 3, 4]);
            assert_eq!(req.out_size, 4);
        }
        _ => panic!("expected a call"),
    }
    assert_eq!(stack.len(), 1);
    match stack.execute_top(&[9, 9], 10_000) {
        Some(Action::Return(out)) => assert_eq!(out, vec![9, 9, 3, 4]),
        _ => panic!("expected a return"),
    }
    assert_eq!(stack.len(), 0);
}

#[test]
fn load_image_checks_segments() {
    let header = ProgramHeader { p_type: PT_LOAD, p_offset: 0, p_vaddr: 0x1000, p_filesz: 0, p_memsz: 4 };
    let image = ElfImage { entry: 0x1000, program_headers: vec![header] };
    assert!(matches!(load_image(&image, &[], &[]), Err(LoadError::BadImage)));
    let good = ProgramHeader { p_vaddr: CODE_ADDR, ..header };
    let image = ElfImage { entry: CODE_ADDR, program_headers: vec![good] };
    assert!(load_image(&image, &[], &[]).is_ok());
}

#[test]
fn keccak_syscall_hands_digest_to_guest() {
    let mut code = vec![addi(10, 0, 1), slli(10, 10, 31), addi(10, 10, 8), addi(6, 10, 0), addi(11, 0, 4)];
    code.extend_from_slice(&[addi(5, 0, 6), ECALL]);
    code.extend_from_slice(&store_and_return(4));
    let input = [0xde, 0xad, 0xbe, 0xef];
    let digest = alloy_core::primitives::keccak256(input).0;
    let mut want = Vec::new();
    for k in 0..4 {
        let limb = u64::from_be_bytes(digest[8 * k..8 * k + 8].try_into().unwrap());
        want.extend_from_slice(&limb.to_le_bytes());
    }
    match run(&code, &input) {
        Action::Return(out) => assert_eq!(out, want),
        _ => panic!("expected a return"),
    }
}

#[test]
fn caller_syscall_fills_three_registers() {
    let mut code = vec![addi(6, 0, 1), slli(6, 6, 31), addi(6, 6, 64), addi(5, 0, 5), ECALL];
    code.extend_from_slice(&store_and_return(3));
    let mut stack = ContextStack::new();
    stack.push_frame(&guest_code(&code), &[]);
    assert!(matches!(stack.execute_top(&[], 10_000), Some(Action::Caller)));
    let caller: Vec<u8> = (1u8..=20).collect();
    stack.finish_caller(&Address::new(caller.clone().try_into().unwrap()));
    match stack.execute_top(&[], 10_000) {
        Some(Action::Return(out)) => {
            let limbs: Vec<u64> = out.chunks(8).map(|c| u64::from_le_bytes(c.try_into().unwrap())).collect();
            let back = address_from_limbs([limbs[0], limbs[1], limbs[2]]);
            assert_eq!(back.bytes.to_vec(), caller);
            assert_eq!(limbs[2] & 0xffff_ffff, 0);
        }
        _ => panic!("expected a return"),
    }
}

#[test]
fn sstore_then_sload_through_guest() {
    let mut code = vec![addi(10, 0, 5), addi(11, 0, 77), addi(5, 0, 2), ECALL];
    code.extend_from_slice(&[addi(10, 0, 5), addi(5, 0, 1), ECALL]);
    code.extend_from_slice(&[addi(6, 0, 1), slli(6, 6, 31), addi(6, 6, 64)]);
    code.extend_from_slice(&store_and_return(1));
    let mut storage = Storage::new();
    let mut stack = ContextStack::new();
    stack.push_frame(&guest_code(&code), &[]);
    loop {
        match stack.execute_top(&[], 10_000) {
            Some(Action::SStore(key, value)) => storage.sstore(key, value),
            Some(Action::SLoad(key)) => stack.finish_sload(storage.sload(key)),
            Some(Action::Continue) => {}
            Some(Action::Return(out)) => {
                assert_eq!(out, 77u64.to_le_bytes().to_vec());
                break;
            }
            _ => panic!("unexpected action"),
        }
    }
    assert_eq!(storage.sload(5), 77);
}

fn expect_fault(code: &[u32]) {
    match run(code, &[]) {
        Action::Revert(out) => assert!(out.is_empty()),
        _ => panic!("expected a fault"),
    }
}

#[test]
fn store_past_end_of_dram_faults() {
    // sd ra, 0(sp): sp starts at the end of DRAM.
    expect_fault(&[sd(1, 2, 0)]);
    // sd ra, 4(sp) after sp -= 8 reaches one byte past the end.
    expect_fault(&[addi(2, 2, 0xff8), sd(1, 2, 4)]);
}

#[test]
fn store_at_top_of_stack_runs() {
    let code = vec![addi(2, 2, 0xff0), sd(1, 2, 8), addi(10, 0, 0), addi(11, 0, 0), addi(5, 0, 0), ECALL];
    match run(&code, &[]) {
        Action::Return(out) => assert!(out.is_empty()),
        _ => panic!("expected a return"),
    }
}

#[test]
fn panicking_encodings_fault() {
    // Reserved compressed encoding, then a pad.
    expect_fault(&[0x0000_8000]);
    // uret
    expect_fault(&[0x0020_0073]);
    // csrrw x0, satp, x0
    expect_fault(&[0x1800_1073]);
}

/// `fsd rs2, imm(rs1)`, whose offset field the emulator reads unsigned.
fn fsd(rs2: u32, rs1: u32, imm: u32) -> u32 {
    ((imm >> 5) << 25) | (rs2 << 20) | (rs1 << 15) | (3 << 12) | ((imm & 31) << 7) | 0x27
}

#[test]
fn float_store_offset_is_unsigned() {
    // x6 = end of DRAM - 0x1000; an offset field of 0xffc reaches 4 bytes
    // before the end, so an 8-byte store crosses it.
    expect_fault(&[addi(6, 2, 0x800), addi(6, 6, 0x800), fsd(0, 6, 0xffc)]);
    // Two pages lower the same store stays inside DRAM and runs.
    let code = vec![
        addi(6, 2, 0x800),
        addi(6, 6, 0x800),
        addi(6, 6, 0x800),
        addi(6, 6, 0x800),
        fsd(0, 6, 0xffc),
        addi(10, 0, 0),
        addi(11, 0, 0),
        addi(5, 0, 0),
        ECALL,
    ];
    match run(&code, &[]) {
        Action::Return(out) => assert!(out.is_empty()),
        _ => panic!("expected a return"),
    }
}

#[test]
fn call_without_output_buffer() {
    let code = vec![
        addi(10, 0, 1),
        slli(10, 10, 31),
        addi(10, 10, 8),
        addi(12, 10, 0),
        addi(14, 0, 0),
        addi(11, 0, 0),
        addi(13, 0, 4),
        addi(15, 0, 0),
        addi(5, 0, 3),
        ECALL,
        addi(11, 0, 4),
        addi(5, 0, 0),
        ECALL,
    ];
    let input: Vec<u8> = (1u8..=20).collect();
    let mut stack = ContextStack::new();
    stack.push_frame(&guest_code(&code), &input);
    match stack.execute_top(&[], 10_000) {
        Some(Action::Call(req)) => {
            assert_eq!(req.out_size, 0);
            assert_eq!(req.input, vec![1, 2, 3, 4]);
        }
        _ => panic!("expected a call"),
    }
    match stack.execute_top(&[9, 9], 10_000) {
        Some(Action::Return(out)) => assert_eq!(out, vec![1, 2, 3, 4]),
        _ => panic!("expected a return"),
    }
}

#[test]
fn refused_sload_pops_and_reverts() {
    let code = vec![addi(10, 0, 42), addi(5, 0, 1), ECALL];
    let mut stack = ContextStack::new();
    stack.push_frame(&guest_code(&code), &[]);
    assert!(matches!(stack.execute_top(&[], 10_000), Some(Action::SLoad(42))));
    match stack.refuse_sload() {
        Action::Revert(out) => assert!(out.is_empty()),
        _ => panic!("expected a revert"),
    }
    assert_eq!(stack.len(), 0);
}
