//! Register names of the 64-bit x86 general-purpose set and their indices
//! in the emulator's register store.
use vstd::prelude::*;

verus! {

/// Number of general-purpose registers in the 64-bit x86 set.
pub const AMD64_REG_COUNT: i32 = 16;

/// The sixteen general-purpose registers, in the emulator's index order.
#[derive(Clone, Copy, Debug, PartialEq, Eq, Structural)]
pub enum Amd64Regs {
    Rax,
    Rcx,
    Rdx,
    Rbx,
    Rsp,
    Rbp,
    Rsi,
    Rdi,
    R8,
    R9,
    R10,
    R11,
    R12,
    R13,
    R14,
    R15,
}

/// An integer that names no declared register.
#[derive(Clone, Copy, Debug, PartialEq, Eq, Structural)]
pub struct InvalidIndex {
    pub index: i32,
}

impl Amd64Regs {
    /// The index the emulator uses for this register.
    pub open spec fn index(self) -> i32 {
        match self {
            Amd64Regs::Rax => 0,
            Amd64Regs::Rcx => 1,
            Amd64Regs::Rdx => 2,
            Amd64Regs::Rbx => 3,
            Amd64Regs::Rsp => 4,
            Amd64Regs::Rbp => 5,
            Amd64Regs::Rsi => 6,
            Amd64Regs::Rdi => 7,
            Amd64Regs::R8 => 8,
            Amd64Regs::R9 => 9,
            Amd64Regs::R10 => 10,
            Amd64Regs::R11 => 11,
            Amd64Regs::R12 => 12,
            Amd64Regs::R13 => 13,
            Amd64Regs::R14 => 14,
            Amd64Regs::R15 => 15,
        }
    }

    /// The register named by `i`, or `InvalidIndex` when `i` is out of range.
    pub open spec fn spec_from_index(i: i32) -> Result<Amd64Regs, InvalidIndex> {
        if i == 0 {
            Ok(Amd64Regs::Rax)
        } else if i == 1 {
            Ok(Amd64Regs::Rcx)
        } else if i == 2 {
            Ok(Amd64Regs::Rdx)
        } else if i == 3 {
            Ok(Amd64Regs::Rbx)
        } else if i == 4 {
            Ok(Amd64Regs::Rsp)
        } else if i == 5 {
            Ok(Amd64Regs::Rbp)
        } else if i == 6 {
            Ok(Amd64Regs::Rsi)
        } else if i == 7 {
            Ok(Amd64Regs::Rdi)
        } else if i == 8 {
            Ok(Amd64Regs::R8)
        } else if i == 9 {
            Ok(Amd64Regs::R9)
        } else if i == 10 {
            Ok(Amd64Regs::R10)
        } else if i == 11 {
            Ok(Amd64Regs::R11)
        } else if i == 12 {
            Ok(Amd64Regs::R12)
        } else if i == 13 {
            Ok(Amd64Regs::R13)
        } else if i == 14 {
            Ok(Amd64Regs::R14)
        } else if i == 15 {
            Ok(Amd64Regs::R15)
        } else {
            Err(InvalidIndex { index: i })
        }
    }

    /// The index the emulator uses for this register.
    pub fn to_index(self) -> (r: i32)
        ensures
            r == self.index(),
            0 <= r < AMD64_REG_COUNT,
    {
        match self {
            Amd64Regs::Rax => 0,
            Amd64Regs::Rcx => 1,
            Amd64Regs::Rdx => 2,
            Amd64Regs::Rbx => 3,
            Amd64Regs::Rsp => 4,
            Amd64Regs::Rbp => 5,
            Amd64Regs::Rsi => 6,
            Amd64Regs::Rdi => 7,
            Amd64Regs::R8 => 8,
            Amd64Regs::R9 => 9,
            Amd64Regs::R10 => 10,
            Amd64Regs::R11 => 11,
            Amd64Regs::R12 => 12,
            Amd64Regs::R13 => 13,
            Amd64Regs::R14 => 14,
            Amd64Regs::R15 => 15,
        }
    }

    /// The register with index `i`; fails with `InvalidIndex` outside `0..16`.
    pub fn from_index(i: i32) -> (r: Result<Amd64Regs, InvalidIndex>)
        ensures
            r == Self::spec_from_index(i),
            r is Ok <==> 0 <= i < AMD64_REG_COUNT,
            r is Ok ==> r->Ok_0.index() == i,
            r is Err ==> r->Err_0.index == i,
    {
        match i {
            0 => Ok(Amd64Regs::Rax),
            1 => Ok(Amd64Regs::Rcx),
            2 => Ok(Amd64Regs::Rdx),
            3 => Ok(Amd64Regs::Rbx),
            4 => Ok(Amd64Regs::Rsp),
            5 => Ok(Amd64Regs::Rbp),
            6 => Ok(Amd64Regs::Rsi),
            7 => Ok(Amd64Regs::Rdi),
            8 => Ok(Amd64Regs::R8),
            9 => Ok(Amd64Regs::R9),
            10 => Ok(Amd64Regs::R10),
            11 => Ok(Amd64Regs::R11),
            12 => Ok(Amd64Regs::R12),
            13 => Ok(Amd64Regs::R13),
            14 => Ok(Amd64Regs::R14),
            15 => Ok(Amd64Regs::R15),
            _ => Err(InvalidIndex { index: i }),
        }
    }
}

/// Every declared register survives the trip to its index and back, and
/// every integer outside the declared range is refused with `InvalidIndex`.
pub proof fn lemma_index_totality(r: Amd64Regs, i: i32)
    ensures
        Amd64Regs::spec_from_index(r.index()) == Ok::<Amd64Regs, InvalidIndex>(r),
        0 <= r.index() < AMD64_REG_COUNT,
        !(0 <= i < AMD64_REG_COUNT) ==> Amd64Regs::spec_from_index(i) == Err::<
            Amd64Regs,
            InvalidIndex,
        >(InvalidIndex { index: i }),
{
}

impl From<Amd64Regs> for i32 {
    fn from(r: Amd64Regs) -> (i: i32) {
        r.to_index()
    }
}

impl vstd::std_specs::convert::FromSpecImpl<Amd64Regs> for i32 {
    open spec fn obeys_from_spec() -> bool {
        true
    }

    open spec fn from_spec(r: Amd64Regs) -> i32 {
        r.index()
    }
}

} // verus!
