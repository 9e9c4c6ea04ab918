use r55::syscalls::{Syscall, SYSCALL_COUNT};

const ALL: [Syscall; 7] = [
    Syscall::Return,
    Syscall::SLoad,
    Syscall::SStore,
    Syscall::Call,
    Syscall::Revert,
    Syscall::Caller,
    Syscall::Keccak256,
];

#[test]
fn syscall_numbers_are_frozen() {
    let numbers: Vec<u32> = ALL.iter().map(|s| s.number()).collect();
    assert_eq!(numbers, vec![0, 1, 2, 3, 4, 5, 6]);
    assert_eq!(SYSCALL_COUNT, 7);
}

#[test]
fn syscall_number_round_trip() {
    for s in ALL {
        assert_eq!(Syscall::from_number(s.number()), Some(s));
    }
    assert_eq!(Syscall::from_number(7), None);
    assert_eq!(Syscall::from_number(u32::MAX), None);
}

#[test]
fn syscall_names() {
    let names: Vec<&str> = ALL.iter().map(|s| s.name()).collect();
    assert_eq!(names, vec!["return", "sload", "sstore", "call", "revert", "caller", "keccak256"]);
}

#[test]
fn syscall_name_round_trip() {
    for s in ALL {
        assert_eq!(Syscall::from_name(s.name()), Some(s));
    }
    assert_eq!(Syscall::from_name("Return"), None);
    assert_eq!(Syscall::from_name(""), None);
    assert_eq!(Syscall::from_name("keccak"), None);
}
