//! The numbered syscall catalog shared by guest and host.
use vstd::prelude::*;
use vstd::string::StringSliceAdditionalSpecFns;

verus! {

/// A host service that a guest requests with an environment call; the
/// number travels in register `t0`.
#[derive(Copy, Clone, Debug, PartialEq, Eq, Structural, Hash)]
pub enum Syscall {
    Return,
    SLoad,
    SStore,
    Call,
    Revert,
    Caller,
    Keccak256,
}

/// Whether two byte strings are equal.
pub fn bytes_equal(a: &[u8], b: &[u8]) -> (r: bool)
    ensures
        r == (a@ == b@),
{
    if a.len() != b.len() {
        return false;
    }
    let mut i: usize = 0;
    while i < a.len()
        invariant
            a@.len() == b@.len(),
            i <= a@.len(),
            forall|j: int| 0 <= j < i ==> a@[j] == b@[j],
        decreases a@.len() - i,
    {
        if a[i] != b[i] {
            return false;
        }
        i = i + 1;
    }
    proof {
        assert(a@ =~= b@);
    }
    true
}

/// Number of syscalls in the catalog; numbers run from zero up to it.
pub const SYSCALL_COUNT: u32 = 7;

impl Syscall {
    /// The frozen number of a syscall.
    pub open spec fn spec_number(self) -> u32 {
        match self {
            Syscall::Return => 0,
            Syscall::SLoad => 1,
            Syscall::SStore => 2,
            Syscall::Call => 3,
            Syscall::Revert => 4,
            Syscall::Caller => 5,
            Syscall::Keccak256 => 6,
        }
    }

    /// The syscall with a given number, if any.
    pub open spec fn spec_from_number(n: u32) -> Option<Syscall> {
        if n == 0 {
            Some(Syscall::Return)
        } else if n == 1 {
            Some(Syscall::SLoad)
        } else if n == 2 {
            Some(Syscall::SStore)
        } else if n == 3 {
            Some(Syscall::Call)
        } else if n == 4 {
            Some(Syscall::Revert)
        } else if n == 5 {
            Some(Syscall::Caller)
        } else if n == 6 {
            Some(Syscall::Keccak256)
        } else {
            None
        }
    }

    /// The text form of a syscall, as ASCII bytes.
    pub open spec fn spec_name(self) -> Seq<u8> {
        match self {
            Syscall::Return => seq![0x72u8, 0x65, 0x74, 0x75, 0x72, 0x6e],
            Syscall::SLoad => seq![0x73u8, 0x6c, 0x6f, 0x61, 0x64],
            Syscall::SStore => seq![0x73u8, 0x73, 0x74, 0x6f, 0x72, 0x65],
            Syscall::Call => seq![0x63u8, 0x61, 0x6c, 0x6c],
            Syscall::Revert => seq![0x72u8, 0x65, 0x76, 0x65, 0x72, 0x74],
            Syscall::Caller => seq![0x63u8, 0x61, 0x6c, 0x6c, 0x65, 0x72],
            Syscall::Keccak256 => seq![0x6bu8, 0x65, 0x63, 0x63, 0x61, 0x6b, 0x32, 0x35, 0x36],
        }
    }

    pub fn number(self) -> (r: u32)
        ensures
            r == self.spec_number(),
    {
        match self {
            Syscall::Return => 0,
            Syscall::SLoad => 1,
            Syscall::SStore => 2,
            Syscall::Call => 3,
            Syscall::Revert => 4,
            Syscall::Caller => 5,
            Syscall::Keccak256 => 6,
        }
    }

    pub fn from_number(n: u32) -> (r: Option<Syscall>)
        ensures
            r == Syscall::spec_from_number(n),
            r.is_some() <==> n < SYSCALL_COUNT,
    {
        match n {
            0 => Some(Syscall::Return),
            1 => Some(Syscall::SLoad),
            2 => Some(Syscall::SStore),
            3 => Some(Syscall::Call),
            4 => Some(Syscall::Revert),
            5 => Some(Syscall::Caller),
            6 => Some(Syscall::Keccak256),
            _ => None,
        }
    }

    pub fn name(self) -> (r: &'static str)
        ensures
            r.spec_bytes() == self.spec_name(),
    {
        let r = match self {
            Syscall::Return => {
                proof {
                    reveal_strlit("return");
                }
                "return"
            },
            Syscall::SLoad => {
                proof {
                    reveal_strlit("sload");
                }
                "sload"
            },
            Syscall::SStore => {
                proof {
                    reveal_strlit("sstore");
                }
                "sstore"
            },
            Syscall::Call => {
                proof {
                    reveal_strlit("call");
                }
                "call"
            },
            Syscall::Revert => {
                proof {
                    reveal_strlit("revert");
                }
                "revert"
            },
            Syscall::Caller => {
                proof {
                    reveal_strlit("caller");
                }
                "caller"
            },
            Syscall::Keccak256 => {
                proof {
                    reveal_strlit("keccak256");
                }
                "keccak256"
            },
        };
        proof {
            assert(vstd::string::is_ascii(r));
            vstd::string::is_ascii_spec_bytes(r);
            assert(r.spec_bytes() =~= self.spec_name());
        }
        r
    }

    /// The syscall whose text form is `b`, if any.
    pub open spec fn spec_from_name(b: Seq<u8>) -> Option<Syscall> {
        if b == Syscall::Return.spec_name() {
            Some(Syscall::Return)
        } else if b == Syscall::SLoad.spec_name() {
            Some(Syscall::SLoad)
        } else if b == Syscall::SStore.spec_name() {
            Some(Syscall::SStore)
        } else if b == Syscall::Call.spec_name() {
            Some(Syscall::Call)
        } else if b == Syscall::Revert.spec_name() {
            Some(Syscall::Revert)
        } else if b == Syscall::Caller.spec_name() {
            Some(Syscall::Caller)
        } else if b == Syscall::Keccak256.spec_name() {
            Some(Syscall::Keccak256)
        } else {
            None
        }
    }

    /// Parses the text form of a syscall.
    pub fn from_name(s: &str) -> (r: Option<Syscall>)
        ensures
            r == Syscall::spec_from_name(s.spec_bytes()),
    {
        let b = s.as_bytes();
        if bytes_equal(b, Syscall::Return.name().as_bytes()) {
            Some(Syscall::Return)
        } else if bytes_equal(b, Syscall::SLoad.name().as_bytes()) {
            Some(Syscall::SLoad)
        } else if bytes_equal(b, Syscall::SStore.name().as_bytes()) {
            Some(Syscall::SStore)
        } else if bytes_equal(b, Syscall::Call.name().as_bytes()) {
            Some(Syscall::Call)
        } else if bytes_equal(b, Syscall::Revert.name().as_bytes()) {
            Some(Syscall::Revert)
        } else if bytes_equal(b, Syscall::Caller.name().as_bytes()) {
            Some(Syscall::Caller)
        } else if bytes_equal(b, Syscall::Keccak256.name().as_bytes()) {
            Some(Syscall::Keccak256)
        } else {
            None
        }
    }
}

} // verus!

verus! {

/// Number and syscall correspond one to one: every syscall's number names it.
pub proof fn lemma_number_round_trip(s: Syscall)
    ensures
        Syscall::spec_from_number(s.spec_number()) == Some(s),
        s.spec_number() < SYSCALL_COUNT,
{
}

/// Every number that names a syscall is that syscall's number.
pub proof fn lemma_from_number_round_trip(n: u32)
    ensures
        Syscall::spec_from_number(n) matches Some(s) ==> s.spec_number() == n,
        Syscall::spec_from_number(n).is_some() <==> n < SYSCALL_COUNT,
{
}

/// Text form and syscall correspond one to one: parsing a syscall's name gives it back.
pub proof fn lemma_name_round_trip(s: Syscall)
    ensures
        Syscall::spec_from_name(s.spec_name()) == Some(s),
{
    assert forall|a: Syscall, b: Syscall| a.spec_name() == b.spec_name() implies a == b by {
        assert(a.spec_name().len() == b.spec_name().len());
        assert(a.spec_name()[0] == b.spec_name()[0]);
        assert(a.spec_name()[2] == b.spec_name()[2]);
    }
}

} // verus!
