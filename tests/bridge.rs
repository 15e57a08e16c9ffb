use qemu_libafl_bridge::amd64::{Amd64Regs, InvalidIndex, AMD64_REG_COUNT};
use qemu_libafl_bridge::raw::{decode_into, encode_slice, RawValue};
use qemu_libafl_bridge::{QemuEmulator, RegisterError, RegisterRef};

const ALL_REGS: [Amd64Regs; 16] = [
    Amd64Regs::Rax,
    Amd64Regs::Rcx,
    Amd64Regs::Rdx,
    Amd64Regs::Rbx,
    Amd64Regs::Rsp,
    Amd64Regs::Rbp,
    Amd64Regs::Rsi,
    Amd64Regs::Rdi,
    Amd64Regs::R8,
    Amd64Regs::R9,
    Amd64Regs::R10,
    Amd64Regs::R11,
    Amd64Regs::R12,
    Amd64Regs::R13,
    Amd64Regs::R14,
    Amd64Regs::R15,
];

/// A register store standing in for the emulator: it keeps the raw bytes of
/// each register and reports success for indices it knows.
struct FakeRegisters {
    regs: Vec<Vec<u8>>,
}

impl FakeRegisters {
    fn new(n: usize) -> Self {
        FakeRegisters { regs: vec![vec![0u8; 8]; n] }
    }

    fn write(&mut self, reg: i32, bytes: &[u8]) -> i32 {
        if reg < 0 || reg as usize >= self.regs.len() {
            return 0;
        }
        self.regs[reg as usize] = bytes.to_vec();
        1
    }

    fn read(&self, reg: i32, out: &mut [u8]) -> i32 {
        if reg < 0 || reg as usize >= self.regs.len() {
            return 0;
        }
        let stored = &self.regs[reg as usize];
        let n = out.len().min(stored.len());
        out[..n].copy_from_slice(&stored[..n]);
        1
    }
}

/// Host memory standing in for the emulator's address space.
struct FakeMemory {
    bytes: Vec<u8>,
}

impl FakeMemory {
    fn copy_in(&mut self, host: isize, src: &[u8]) {
        let h = host as usize;
        self.bytes[h..h + src.len()].copy_from_slice(src);
    }

    fn copy_out(&self, host: isize, len: usize) -> Vec<u8> {
        let h = host as usize;
        self.bytes[h..h + len].to_vec()
    }
}

fn write_then_read<R: RegisterRef, T: RawValue>(
    emu: &QemuEmulator,
    store: &mut FakeRegisters,
    reg: R,
    v: T,
) -> Result<T, RegisterError> {
    let req = emu.write_reg(reg, v);
    let status = store.write(req.register, &req.bytes);
    emu.write_reg_result(reg, status)?;
    let mut buf = emu.read_reg_buffer::<T>();
    let status = store.read(reg.to_reg_index(), &mut buf);
    emu.read_reg(reg, status, &buf)
}

fn mem_round_trip<T: RawValue + Default>(emu: &QemuEmulator, mem: &mut FakeMemory, addr: isize, data: &[T]) -> Vec<T> {
    let w = emu.write_mem(addr, data);
    mem.copy_in(w.host_addr, &w.bytes);
    let r = emu.read_mem_request::<T>(addr, data.len());
    assert_eq!(r.host_addr, w.host_addr);
    assert_eq!(r.len, w.bytes.len());
    let raw = mem.copy_out(r.host_addr, r.len);
    let mut out = vec![T::default(); data.len()];
    emu.read_mem(&raw, &mut out);
    out
}

#[test]
fn index_zero_maps_to_first_register_and_back() {
    assert_eq!(Amd64Regs::from_index(0), Ok(Amd64Regs::Rax));
    assert_eq!(Amd64Regs::Rax.to_index(), 0);
    assert_eq!(Amd64Regs::from_index(Amd64Regs::Rax.to_index()), Ok(Amd64Regs::Rax));
}

#[test]
fn index_sixteen_is_invalid() {
    assert_eq!(Amd64Regs::from_index(16), Err(InvalidIndex { index: 16 }));
}

#[test]
fn every_register_survives_its_index() {
    for (i, r) in ALL_REGS.iter().enumerate() {
        assert_eq!(r.to_index(), i as i32);
        assert_eq!(i32::from(*r), i as i32);
        assert_eq!(Amd64Regs::from_index(r.to_index()), Ok(*r));
    }
    assert_eq!(AMD64_REG_COUNT, 16);
}

#[test]
fn out_of_range_indices_are_invalid() {
    for i in [-1, 16, 17, 100, i32::MIN, i32::MAX] {
        assert_eq!(Amd64Regs::from_index(i), Err(InvalidIndex { index: i }));
    }
}

#[test]
fn named_indices_of_upper_registers() {
    assert_eq!(Amd64Regs::Rsp.to_index(), 4);
    assert_eq!(Amd64Regs::R8.to_index(), 8);
    assert_eq!(Amd64Regs::from_index(15), Ok(Amd64Regs::R15));
}

#[test]
fn translation_with_base_offset() {
    let emu = QemuEmulator::new(0x1000);
    assert_eq!(emu.guest_base(), 0x1000);
    assert_eq!(emu.g2h(0x2000), 0x3000);
    assert_eq!(emu.h2g(0x3000), 0x2000);
}

#[test]
fn translation_is_inverse() {
    for base in [0isize, 0x1000, -0x4000, 0x7fff_0000] {
        let emu = QemuEmulator::new(base);
        for a in [0isize, 1, 0x2000, -5, 0x1234_5678] {
            assert_eq!(emu.h2g(emu.g2h(a)), a);
        }
    }
}

#[test]
fn register_bytes_are_little_endian() {
    let emu = QemuEmulator::new(0);
    let req = emu.write_reg(Amd64Regs::Rbx, 0x0102_0304_0506_0708u64);
    assert_eq!(req.register, 3);
    assert_eq!(req.bytes, vec![8, 7, 6, 5, 4, 3, 2, 1]);
    let req = emu.write_reg(2i32, 0xabcdu16);
    assert_eq!(req.register, 2);
    assert_eq!(req.bytes, vec![0xcd, 0xab]);
    let req = emu.write_reg(Amd64Regs::Rax, -2i32);
    assert_eq!(req.bytes, vec![0xfe, 0xff, 0xff, 0xff]);
}

#[test]
fn register_round_trip() {
    let emu = QemuEmulator::new(0);
    let mut store = FakeRegisters::new(16);
    assert_eq!(write_then_read(&emu, &mut store, Amd64Regs::Rax, 0xdead_beef_cafe_f00du64), Ok(0xdead_beef_cafe_f00du64));
    assert_eq!(write_then_read(&emu, &mut store, Amd64Regs::R15, u64::MAX), Ok(u64::MAX));
    assert_eq!(write_then_read(&emu, &mut store, 5i32, -123_456_789i64), Ok(-123_456_789i64));
    assert_eq!(write_then_read(&emu, &mut store, Amd64Regs::Rdi, 0x1234_5678u32), Ok(0x1234_5678u32));
    assert_eq!(write_then_read(&emu, &mut store, Amd64Regs::Rsi, i32::MIN), Ok(i32::MIN));
    assert_eq!(write_then_read(&emu, &mut store, Amd64Regs::R9, 0xbeefu16), Ok(0xbeefu16));
    assert_eq!(write_then_read(&emu, &mut store, Amd64Regs::R10, 0x7fu8), Ok(0x7fu8));
}

#[test]
fn register_write_failure() {
    let emu = QemuEmulator::new(0);
    let mut store = FakeRegisters::new(16);
    assert_eq!(
        write_then_read(&emu, &mut store, 40i32, 1u64),
        Err(RegisterError::WriteFailed { register: 40 })
    );
    assert_eq!(emu.write_reg_result(Amd64Regs::Rcx, 0), Err(RegisterError::WriteFailed { register: 1 }));
    assert_eq!(emu.write_reg_result(Amd64Regs::Rcx, 1), Ok(()));
    assert_eq!(emu.write_reg_result(Amd64Regs::Rcx, -1), Ok(()));
}

#[test]
fn register_read_failure() {
    let emu = QemuEmulator::new(0);
    let buf = emu.read_reg_buffer::<u64>();
    assert_eq!(buf, vec![0u8; 8]);
    assert_eq!(emu.read_reg::<_, u64>(Amd64Regs::Rdx, 0, &buf), Err(RegisterError::ReadFailed { register: 2 }));
    let raw = [1u8, 0, 0, 0, 0, 0, 0, 0];
    assert_eq!(emu.read_reg::<_, u64>(Amd64Regs::Rdx, 1, &raw), Ok(1u64));
}

#[test]
fn read_buffer_has_the_value_width() {
    let emu = QemuEmulator::new(0);
    assert_eq!(emu.read_reg_buffer::<u8>().len(), 1);
    assert_eq!(emu.read_reg_buffer::<u16>().len(), 2);
    assert_eq!(emu.read_reg_buffer::<i32>().len(), 4);
    assert_eq!(emu.read_reg_buffer::<i64>().len(), 8);
}

#[test]
fn memory_write_goes_to_translated_address() {
    let emu = QemuEmulator::new(0x100);
    let w = emu.write_mem(0x20, &[0x11223344u32, 0x55667788u32]);
    assert_eq!(w.host_addr, 0x120);
    assert_eq!(w.bytes, vec![0x44, 0x33, 0x22, 0x11, 0x88, 0x77, 0x66, 0x55]);
    let r = emu.read_mem_request::<u32>(0x20, 2);
    assert_eq!(r.host_addr, 0x120);
    assert_eq!(r.len, 8);
}

#[test]
fn memory_copy_fidelity() {
    let emu = QemuEmulator::new(0x1000);
    let mut mem = FakeMemory { bytes: vec![0u8; 0x10000] };
    let empty: Vec<u8> = Vec::new();
    assert_eq!(mem_round_trip(&emu, &mut mem, 0x10, &empty), empty);
    assert_eq!(mem_round_trip(&emu, &mut mem, 0x10, &[0xa5u8]), vec![0xa5u8]);
    let page: Vec<u8> = (0..4096).map(|i| (i * 7 % 256) as u8).collect();
    assert_eq!(mem_round_trip(&emu, &mut mem, 0x2000, &page), page);
    let words: Vec<u64> = (0..37u64).map(|i| i.wrapping_mul(0x9e37_79b9_7f4a_7c15)).collect();
    assert_eq!(mem_round_trip(&emu, &mut mem, 0x40, &words), words);
    let signed: Vec<i32> = vec![-1, 0, 1, i32::MAX, i32::MIN];
    assert_eq!(mem_round_trip(&emu, &mut mem, 0x3, &signed), signed);
}

#[test]
fn encode_and_decode_slices() {
    let data = [0x0102u16, 0x0304u16];
    let bytes = encode_slice(&data);
    assert_eq!(bytes, vec![2, 1, 4, 3]);
    let mut out = [0u16; 2];
    decode_into(&bytes, &mut out);
    assert_eq!(out, data);
}

#[test]
fn breakpoint_set_twice_is_one() {
    let mut emu = QemuEmulator::new(0);
    assert_eq!(emu.set_breakpoint(0x4000), 0x4000);
    assert_eq!(emu.set_breakpoint(0x4000), 0x4000);
    assert_eq!(emu.breakpoint_count(), 1);
    assert!(emu.has_breakpoint(0x4000));
    emu.set_breakpoint(0x5000);
    assert_eq!(emu.breakpoint_count(), 2);
}

#[test]
fn removing_absent_breakpoint_is_no_error() {
    let mut emu = QemuEmulator::new(0);
    emu.set_breakpoint(0x10);
    assert_eq!(emu.remove_breakpoint(0x20), 0x20);
    assert_eq!(emu.breakpoint_count(), 1);
    assert!(emu.has_breakpoint(0x10));
    assert_eq!(emu.remove_breakpoint(0x10), 0x10);
    assert_eq!(emu.breakpoint_count(), 0);
    assert!(!emu.has_breakpoint(0x10));
    emu.remove_breakpoint(0x10);
    assert_eq!(emu.breakpoint_count(), 0);
}

#[test]
fn breakpoint_address_is_sixty_four_bit() {
    let mut emu = QemuEmulator::new(0);
    assert_eq!(emu.set_breakpoint(-1), u64::MAX);
    assert!(emu.has_breakpoint(-1));
}
