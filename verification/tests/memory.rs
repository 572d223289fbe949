use w8::vm::memory::WVMMemory;
use w8::vm::register_file::RegisterFile;
use w8::isa::register::Register;

#[test]
fn new_memory_is_zeroed() {
    let m = WVMMemory::new(16);
    assert_eq!(m.len(), 16);
    assert!(m.as_slice().iter().all(|&b| b == 0));
}

#[test]
fn load_after_store_gives_the_value() {
    let mut m = WVMMemory::new(32);
    assert_eq!(m.store_u8(3, 0xAB), Some(()));
    assert_eq!(m.load_u8(3), Some(0xAB));
    assert_eq!(m.store_u16(4, 0xBEEF), Some(()));
    assert_eq!(m.load_u16(4), Some(0xBEEF));
    assert_eq!(m.store_u32(8, 0xDEAD_BEEF), Some(()));
    assert_eq!(m.load_u32(8), Some(0xDEAD_BEEF));
    assert_eq!(m.store_u64(16, 0x0123_4567_89AB_CDEF), Some(()));
    assert_eq!(m.load_u64(16), Some(0x0123_4567_89AB_CDEF));
}

#[test]
fn stores_are_little_endian() {
    let mut m = WVMMemory::new(8);
    m.store_u32(0, 0x0403_0201).unwrap();
    assert_eq!(&m.as_slice()[0..4], &[1, 2, 3, 4]);
    assert_eq!(m.load_u16(1), Some(0x0302));
}

#[test]
fn signed_accesses() {
    let mut m = WVMMemory::new(16);
    m.store_i8(0, -2).unwrap();
    assert_eq!(m.load_i8(0), Some(-2));
    assert_eq!(m.load_u8(0), Some(0xFE));
    m.store_i16(2, -300).unwrap();
    assert_eq!(m.load_i16(2), Some(-300));
    m.store_i32(4, -70000).unwrap();
    assert_eq!(m.load_i32(4), Some(-70000));
    m.store_i64(8, i64::MIN).unwrap();
    assert_eq!(m.load_i64(8), Some(i64::MIN));
}

#[test]
fn out_of_bounds_accesses_fail_and_change_nothing() {
    let mut m = WVMMemory::new(8);
    assert_eq!(m.load_u8(8), None);
    assert_eq!(m.load_u16(7), None);
    assert_eq!(m.load_u32(5), None);
    assert_eq!(m.load_u64(1), None);
    assert_eq!(m.load_u64(usize::MAX), None);
    assert_eq!(m.store_u64(1, 7), None);
    assert_eq!(m.store_u16(usize::MAX, 7), None);
    assert!(m.as_slice().iter().all(|&b| b == 0));
    assert_eq!(m.load_u64(0), Some(0));
}

#[test]
fn store_leaves_other_bytes() {
    let mut m = WVMMemory::new(8);
    m.store_u64(0, u64::MAX).unwrap();
    m.store_u16(2, 0).unwrap();
    assert_eq!(m.as_slice(), &[0xFF, 0xFF, 0, 0, 0xFF, 0xFF, 0xFF, 0xFF]);
}

#[test]
fn register_file_get_after_set() {
    let mut r = RegisterFile::new();
    assert_eq!(r.get(Register(254)), 0);
    r.set(Register(7), 99);
    assert_eq!(r.get(Register(7)), 99);
    assert_eq!(r.get(Register(6)), 0);
    let mut raw = [0u64; 255];
    raw[3] = 5;
    let f = RegisterFile::from_registers(raw);
    assert_eq!(f.get(Register(3)), 5);
}
