//! A guest/host bridge for an emulator used as a fuzzing target.
//!
//! The bridge translates guest addresses to host addresses by a fixed base
//! offset, marshals register and memory values to and from raw bytes, reads
//! the emulator's status codes, and keeps the table of active breakpoints.
//! The calls into the emulator itself are made by the caller with the
//! requests that the bridge hands out.
use vstd::prelude::*;

pub mod amd64;
pub mod raw;

use crate::amd64::Amd64Regs;
use crate::raw::{decode, decode_into, encode_slice, image, lemma_memory_copy_fidelity, RawValue};

verus! {

/// Something that names a register by the emulator's integer index.
pub trait RegisterRef: Copy {
    /// The emulator's index of the register.
    spec fn reg_index(self) -> i32;

    /// The emulator's index of the register.
    fn to_reg_index(self) -> (r: i32)
        ensures
            r == self.reg_index(),
    ;
}

impl RegisterRef for i32 {
    open spec fn reg_index(self) -> i32 {
        self
    }

    fn to_reg_index(self) -> (r: i32) {
        self
    }
}

impl RegisterRef for Amd64Regs {
    open spec fn reg_index(self) -> i32 {
        self.index()
    }

    fn to_reg_index(self) -> (r: i32) {
        self.to_index()
    }
}

/// The emulator reported failure for a register operation.
#[derive(Clone, Copy, Debug, PartialEq, Eq, Structural)]
pub enum RegisterError {
    WriteFailed { register: i32 },
    ReadFailed { register: i32 },
}

/// A request to store raw bytes in the register with index `register`.
pub struct RegisterWrite {
    pub register: i32,
    pub bytes: Vec<u8>,
}

/// A request to copy `bytes` into host memory starting at `host_addr`.
pub struct MemoryWrite {
    pub host_addr: isize,
    pub bytes: Vec<u8>,
}

/// A request to copy `len` bytes out of host memory starting at `host_addr`.
#[derive(Clone, Copy, Debug, PartialEq, Eq, Structural)]
pub struct MemoryRead {
    pub host_addr: isize,
    pub len: usize,
}

/// What a register write comes to, given the emulator's status code
/// (nonzero means success).
pub open spec fn write_outcome(register: i32, status: i32) -> Result<(), RegisterError> {
    if status != 0 {
        Ok(())
    } else {
        Err(RegisterError::WriteFailed { register })
    }
}

/// What a register read comes to, given the emulator's status code and the
/// bytes it filled in.
pub open spec fn read_outcome<T: RawValue>(register: i32, status: i32, raw: Seq<u8>) -> Result<
    T,
    RegisterError,
> {
    if status != 0 {
        Ok(T::from_raw(raw))
    } else {
        Err(RegisterError::ReadFailed { register })
    }
}

/// A handle on the attached emulator.
pub struct QemuEmulator {
    guest_base: isize,
    breakpoints: Vec<u64>,
}

impl QemuEmulator {
    /// The base offset from guest addresses to host addresses.
    pub closed spec fn base(&self) -> int {
        self.guest_base as int
    }

    /// The guest addresses with an active breakpoint.
    pub closed spec fn breakpoints(&self) -> Set<u64> {
        self.breakpoints@.to_set()
    }

    /// No address stands twice in the breakpoint table.
    pub closed spec fn wf(&self) -> bool {
        self.breakpoints@.no_duplicates()
    }

    /// The host address of guest address `addr`.
    pub open spec fn guest_to_host(&self, addr: int) -> int {
        addr + self.base()
    }

    /// The guest address of host address `addr`.
    pub open spec fn host_to_guest(&self, addr: int) -> int {
        addr - self.base()
    }

    /// `addr` has a host address that fits in an `isize`.
    pub open spec fn can_translate(&self, addr: int) -> bool {
        isize::MIN <= self.guest_to_host(addr) <= isize::MAX
    }

    /// `addr` has a guest address that fits in an `isize`.
    pub open spec fn can_untranslate(&self, addr: int) -> bool {
        isize::MIN <= self.host_to_guest(addr) <= isize::MAX
    }

    /// Attaches to an emulator whose guest memory lies `guest_base` bytes
    /// above guest address zero in the host.
    pub fn new(guest_base: isize) -> (r: Self)
        ensures
            r.wf(),
            r.base() == guest_base,
            r.breakpoints() == Set::<u64>::empty(),
    {
        let r = QemuEmulator { guest_base, breakpoints: Vec::new() };
        proof {
            assert(r.breakpoints@.to_set() =~= Set::<u64>::empty());
        }
        r
    }

    /// The base offset from guest addresses to host addresses.
    pub fn guest_base(&self) -> (r: isize)
        ensures
            r == self.base(),
    {
        self.guest_base
    }

    /// The host address of guest address `addr`.
    pub fn g2h(&self, addr: isize) -> (r: isize)
        requires
            self.can_translate(addr as int),
        ensures
            r == self.guest_to_host(addr as int),
    {
        addr + self.guest_base
    }

    /// The guest address of host address `addr`.
    pub fn h2g(&self, addr: isize) -> (r: isize)
        requires
            self.can_untranslate(addr as int),
        ensures
            r == self.host_to_guest(addr as int),
    {
        addr - self.guest_base
    }

    /// The request that stores the raw bytes of `val` in register `reg`.
    pub fn write_reg<R: RegisterRef, T: RawValue>(&self, reg: R, val: T) -> (r: RegisterWrite)
        ensures
            r.register == reg.reg_index(),
            r.bytes@ == val.raw_bytes(),
    {
        RegisterWrite { register: reg.to_reg_index(), bytes: val.to_raw_bytes() }
    }

    /// The outcome of a register write from the emulator's status code.
    pub fn write_reg_result<R: RegisterRef>(&self, reg: R, status: i32) -> (r: Result<(), RegisterError>)
        ensures
            r == write_outcome(reg.reg_index(), status),
    {
        if status != 0 {
            Ok(())
        } else {
            Err(RegisterError::WriteFailed { register: reg.to_reg_index() })
        }
    }

    /// A zeroed buffer of the width of `T`, for the emulator to fill with
    /// the raw bytes of a register.
    pub fn read_reg_buffer<T: RawValue>(&self) -> (r: Vec<u8>)
        ensures
            r@ == Seq::new(T::width(), |i: int| 0u8),
    {
        proof {
            T::lemma_width();
        }
        let w = T::byte_width();
        let mut r: Vec<u8> = Vec::new();
        let mut i: usize = 0;
        while i < w
            invariant
                i <= w,
                r@ == Seq::new(i as nat, |k: int| 0u8),
            decreases w - i,
        {
            r.push(0u8);
            i = i + 1;
            proof {
                assert(r@ =~= Seq::new(i as nat, |k: int| 0u8));
            }
        }
        r
    }

    /// The value of register `reg` from the emulator's status code and the
    /// bytes it filled in.
    pub fn read_reg<R: RegisterRef, T: RawValue>(&self, reg: R, status: i32, raw: &[u8]) -> (r:
        Result<T, RegisterError>)
        requires
            raw@.len() == T::width(),
        ensures
            r == read_outcome::<T>(reg.reg_index(), status, raw@),
    {
        if status != 0 {
            Ok(T::from_raw_bytes(raw))
        } else {
            Err(RegisterError::ReadFailed { register: reg.to_reg_index() })
        }
    }

    /// The request that copies the raw image of `buf` to guest address `addr`.
    pub fn write_mem<T: RawValue>(&self, addr: isize, buf: &[T]) -> (r: MemoryWrite)
        requires
            self.can_translate(addr as int),
        ensures
            r.host_addr == self.guest_to_host(addr as int),
            r.bytes@ == image(buf@),
            r.bytes@.len() == buf@.len() * T::width(),
    {
        proof {
            lemma_memory_copy_fidelity(buf@);
        }
        MemoryWrite { host_addr: self.g2h(addr), bytes: encode_slice(buf) }
    }

    /// The request that copies the raw image of `count` values of type `T`
    /// out of guest address `addr`.
    pub fn read_mem_request<T: RawValue>(&self, addr: isize, count: usize) -> (r: MemoryRead)
        requires
            self.can_translate(addr as int),
            count * T::width() <= usize::MAX,
        ensures
            r.host_addr == self.guest_to_host(addr as int),
            r.len == count * T::width(),
    {
        MemoryRead { host_addr: self.g2h(addr), len: count * T::byte_width() }
    }

    /// Overwrites `buf` with the values whose raw images were copied out of
    /// guest memory into `raw`.
    pub fn read_mem<T: RawValue>(&self, raw: &[u8], buf: &mut [T])
        requires
            raw@.len() == old(buf)@.len() * T::width(),
        ensures
            final(buf)@ == decode::<T>(raw@, old(buf)@.len()),
    {
        decode_into(raw, buf)
    }

    /// Where `addr` stands in the breakpoint table, if it is there.
    fn find_breakpoint(&self, addr: u64) -> (r: Option<usize>)
        ensures
            r is Some ==> r->Some_0 < self.breakpoints@.len() && self.breakpoints@[r->Some_0 as int]
                == addr,
            r is None ==> !self.breakpoints@.contains(addr),
    {
        let mut i: usize = 0;
        while i < self.breakpoints.len()
            invariant
                i <= self.breakpoints@.len(),
                forall|j: int| 0 <= j < i ==> self.breakpoints@[j] != addr,
            decreases self.breakpoints@.len() - i,
        {
            if self.breakpoints[i] == addr {
                return Some(i);
            }
            i = i + 1;
        }
        None
    }

    /// Whether guest address `addr` has an active breakpoint.
    pub fn has_breakpoint(&self, addr: isize) -> (r: bool)
        ensures
            r == self.breakpoints().contains(#[verifier::truncate] (addr as u64)),
    {
        self.find_breakpoint(#[verifier::truncate] (addr as u64)).is_some()
    }

    /// The number of active breakpoints.
    pub fn breakpoint_count(&self) -> (r: usize)
        requires
            self.wf(),
        ensures
            r == self.breakpoints().len(),
    {
        proof {
            self.breakpoints@.unique_seq_to_set();
        }
        self.breakpoints.len()
    }

    /// Records a breakpoint at guest address `addr`, and gives the address
    /// to hand to the emulator. Setting one that is already set changes
    /// nothing.
    pub fn set_breakpoint(&mut self, addr: isize) -> (r: u64)
        requires
            old(self).wf(),
        ensures
            r == #[verifier::truncate] (addr as u64),
            final(self).wf(),
            final(self).base() == old(self).base(),
            final(self).breakpoints() == old(self).breakpoints().insert(r),
    {
        let a = #[verifier::truncate] (addr as u64);
        match self.find_breakpoint(a) {
            Some(_) => {
                proof {
                    assert(self.breakpoints@.to_set() =~= self.breakpoints@.to_set().insert(a));
                }
            },
            None => {
                let ghost prev = self.breakpoints@;
                self.breakpoints.push(a);
                proof {
                    let cur = self.breakpoints@;
                    assert(cur == prev.push(a));
                    assert forall|x: u64| cur.contains(x) <==> prev.contains(x) || x == a by {
                        if prev.contains(x) {
                            let k = choose|k: int| 0 <= k < prev.len() && prev[k] == x;
                            assert(cur[k] == x);
                        }
                        if x == a {
                            assert(cur[prev.len() as int] == x);
                        }
                    }
                    assert(self.breakpoints@.to_set() =~= prev.to_set().insert(a));
                }
            },
        }
        a
    }

    /// Drops the breakpoint at guest address `addr`, if there is one, and
    /// gives the address to hand to the emulator. Removing an absent one is
    /// no error.
    pub fn remove_breakpoint(&mut self, addr: isize) -> (r: u64)
        requires
            old(self).wf(),
        ensures
            r == #[verifier::truncate] (addr as u64),
            final(self).wf(),
            final(self).base() == old(self).base(),
            final(self).breakpoints() == old(self).breakpoints().remove(r),
    {
        let a = #[verifier::truncate] (addr as u64);
        match self.find_breakpoint(a) {
            Some(i) => {
                let ghost prev = self.breakpoints@;
                self.breakpoints.remove(i);
                proof {
                    let cur = self.breakpoints@;
                    assert(cur == prev.remove(i as int));
                    assert forall|x: u64| cur.contains(x) <==> prev.contains(x) && x != a by {
                        if cur.contains(x) {
                            let k = choose|k: int| 0 <= k < cur.len() && cur[k] == x;
                            if k < i {
                                assert(prev[k] == x);
                            } else {
                                assert(prev[k + 1] == x);
                            }
                        }
                        if prev.contains(x) && x != a {
                            let k = choose|k: int| 0 <= k < prev.len() && prev[k] == x;
                            if k < i {
                                assert(cur[k] == x);
                            } else {
                                assert(cur[k - 1] == x);
                            }
                        }
                    }
                    assert(cur.to_set() =~= prev.to_set().remove(a));
                    assert(cur.no_duplicates());
                }
            },
            None => {
                proof {
                    assert(self.breakpoints@.to_set() =~= self.breakpoints@.to_set().remove(a));
                }
            },
        }
        a
    }
}

/// Writing `v` to a register and reading it back gives `v`: the bytes that
/// the write hands to the emulator fill the read buffer exactly, and when the
/// emulator returns them with success the read yields `v`.
pub proof fn lemma_register_round_trip<R: RegisterRef, T: RawValue>(reg: R, v: T, status: i32)
    requires
        status != 0,
    ensures
        v.raw_bytes().len() == T::width(),
        read_outcome::<T>(reg.reg_index(), status, v.raw_bytes()) == Ok::<T, RegisterError>(v),
{
    v.lemma_raw_round_trip();
}

/// Translating a guest address to the host and back gives the address.
pub proof fn lemma_translation_inverse(e: QemuEmulator, a: isize)
    requires
        e.can_translate(a as int),
    ensures
        e.can_untranslate(e.guest_to_host(a as int)),
        e.host_to_guest(e.guest_to_host(a as int)) == a,
{
}

/// Setting a breakpoint twice leaves the table as setting it once, with the
/// one address in it; removing an absent breakpoint leaves the table as it is.
pub proof fn lemma_breakpoint_idempotence(e: QemuEmulator, a: isize)
    ensures
        e.breakpoints().insert(#[verifier::truncate] (a as u64)).insert(
            #[verifier::truncate] (a as u64),
        ) == e.breakpoints().insert(#[verifier::truncate] (a as u64)),
        e.breakpoints() == Set::<u64>::empty() ==> e.breakpoints().insert(
            #[verifier::truncate] (a as u64),
        ).len() == 1,
        !e.breakpoints().contains(#[verifier::truncate] (a as u64)) ==> e.breakpoints().remove(
            #[verifier::truncate] (a as u64),
        ) == e.breakpoints(),
{
    let x = #[verifier::truncate] (a as u64);
    let b = e.breakpoints();
    assert(b.insert(x).insert(x) =~= b.insert(x));
    if b == Set::<u64>::empty() {
        assert(b.insert(x) =~= Set::<u64>::empty().insert(x));
        assert(Set::<u64>::empty().insert(x).len() == 1);
    }
    if !b.contains(x) {
        assert(b.remove(x) =~= b);
    }
}

} // verus!
