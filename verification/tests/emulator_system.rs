use assetcache::emu::{u64_from_le, u64_to_le};
use assetcache::mac_serial::MacSerial;
use assetcache::patch::emulator::{
    call_0_results, call_0_setup, data_offset, data_table, data_table_bytes,
    emulator_syscall_handler, pthread_once_call, register_fn, syscall_stub_code, BumpHeap,
    CfStore, EmulatorState, EthernetIterator, SyscallHandler, CF_KIND_DATA,
    CF_KIND_STRING, DATA_BASE, GLOBAL_EXIT_TAG, HEAP_STACK_BASE, MALLOC_BASE, PARAM_BASE,
    STACK_CHK_GUARD, SYSCALL_BASE,
};

#[test]
fn data_offsets_are_words_of_the_data_region() {
    assert_eq!(DATA_BASE, 0x3_0003_0000);
    assert_eq!(data_offset(0), 0x3_0003_0000);
    assert_eq!(data_offset(1), 0x3_0003_0008);
    assert_eq!(data_offset(10), 0x3_0003_0050);
}

#[test]
fn data_imports_bind_to_data_words() {
    assert_eq!(register_fn("", "____chkstk_darwin"), 0);
    assert_eq!(register_fn("", "___CFConstantStringClassReference"), data_offset(0));
    assert_eq!(register_fn("", "___stack_chk_guard"), data_offset(1));
    assert_eq!(register_fn("libSystem", "_kIOMasterPortDefault"), data_offset(2));
    assert_eq!(register_fn("", "_kCFBooleanTrue"), data_offset(7));
    assert_eq!(register_fn("", "___kCFBooleanTrue"), data_offset(10));
}

#[test]
fn function_imports_bind_to_stubs() {
    assert_eq!(register_fn("", "_malloc"), SYSCALL_BASE + 4);
    assert_eq!(register_fn("", "_free"), SYSCALL_BASE + 8);
    assert_eq!(register_fn("", "_IORegistryEntryCreateCFProperty"), SYSCALL_BASE + 48);
    assert_eq!(register_fn("", "_CFStringGetSystemEncoding"), SYSCALL_BASE + 4 * 29);
    // anything else goes to the last stub
    assert_eq!(register_fn("", "_unknown"), SYSCALL_BASE + 4 * 47);
    assert_eq!(register_fn("", "_stack_chk_fail"), SYSCALL_BASE + 4 * 47);
}

#[test]
fn syscall_in_a_stub_reaches_its_handler() {
    let malloc = register_fn("", "_malloc");
    // the syscall instruction is the second byte of the stub; after it, the fourth
    assert_eq!(emulator_syscall_handler(malloc + 1), SyscallHandler::Malloc);
    assert_eq!(emulator_syscall_handler(malloc + 3), SyscallHandler::Malloc);
    assert_eq!(emulator_syscall_handler(register_fn("", "_IOIteratorNext") + 3), SyscallHandler::EthNext);
    assert_eq!(emulator_syscall_handler(register_fn("", "_CFDataGetLength") + 3), SyscallHandler::CfLen);
    assert_eq!(emulator_syscall_handler(register_fn("", "_CFRelease") + 3), SyscallHandler::Release);
    assert_eq!(emulator_syscall_handler(register_fn("", "_IOServiceMatching") + 3), SyscallHandler::NotImplement);
    assert_eq!(emulator_syscall_handler(register_fn("", "_IOServiceGetMatchingServices") + 3), SyscallHandler::Skip0);
    assert_eq!(emulator_syscall_handler(SYSCALL_BASE + 3), SyscallHandler::Exit);
    assert_eq!(emulator_syscall_handler(SYSCALL_BASE + 4 * 48), SyscallHandler::NotImplement);
}

#[test]
fn stored_objects_read_back() {
    let mut store = CfStore::new();
    let h1 = store.str_to_cf("board-id");
    let h2 = store.vec_to_cf(vec![1, 2, 3]);
    assert_eq!((h1, h2), (1, 2));
    assert_eq!(store.len(), 2);
    assert_eq!(store.cf_to_bytes(h1), Some(b"board-id".to_vec()));
    assert_eq!(store.cf_to_bytes(h2), Some(vec![1, 2, 3]));
    assert_eq!(store.cf_id(h1), Some(CF_KIND_STRING));
    assert_eq!(store.cf_id(h2), Some(CF_KIND_DATA));
    assert_eq!(store.cf_len(h1), Some(8));
    assert_eq!(store.cf_to_str(h1), Some("board-id".to_string()));
    assert_eq!(store.cf_get_bytes(h2, 1, 2), Some(vec![2, 3]));
}

#[test]
fn unknown_handles_and_ranges_are_refused() {
    let mut store = CfStore::new();
    store.vec_to_cf(vec![0xff, 0xfe]);
    assert_eq!(store.cf_to_bytes(0), None);
    assert_eq!(store.cf_to_bytes(2), None);
    assert_eq!(store.cf_id(5), None);
    assert_eq!(store.cf_len(0), None);
    assert_eq!(store.cf_get_bytes(1, 1, 2), None);
    assert_eq!(store.cf_to_str(1), None); // not UTF-8
}

/// An identity configured with the values of a virtual machine.
fn vm_identity() -> MacSerial {
    let mut c = MacSerial::new();
    c.board_id = "C246-WU4-CF".to_string();
    c.serial_number = "VMxd6muhRqce".to_string();
    c.mac_address = "000c298f2fd6".to_string();
    c.rom = "not hex".to_string();
    c.gq_serial = "AB12".to_string();
    let mut s = MacSerial::new();
    s.copy_from_str(c);
    s
}

#[test]
fn io_properties_of_the_emulated_machine() {
    let id = vm_identity();
    let mut store = CfStore::new();
    let h = store.io_reg(&id, "board-id");
    assert_eq!(h, 1);
    assert_eq!(store.cf_id(h), Some(CF_KIND_DATA));
    assert_eq!(store.cf_to_bytes(h), Some(b"C246-WU4-CF\0".to_vec()));
    let h = store.io_reg(&id, "IOPlatformSerialNumber");
    assert_eq!(h, 2);
    assert_eq!(store.cf_id(h), Some(CF_KIND_STRING));
    assert_eq!(store.cf_to_str(h), Some("VMxd6muhRqce".to_string()));
    let h = store.io_reg(&id, "IOMACAddress");
    assert_eq!(store.cf_to_bytes(h), Some(vec![0x00, 0x0c, 0x29, 0x8f, 0x2f, 0xd6]));
    let h = store.io_reg(&id, "Gq3489ugfi");
    assert_eq!(store.cf_to_bytes(h), Some(vec![0xab, 0x12]));
    assert_eq!(store.io_reg(&id, "no-such-property"), 0);
    // a data field whose text is no hex text is not reported
    assert_eq!(store.io_reg(&id, "4D1EDE05-38C7-4A6A-9CC6-4BCCA8B38C14:ROM"), 0);
    assert_eq!(store.len(), 4);
}

#[test]
fn emulated_and_native_properties_agree() {
    let id = vm_identity();
    let mut store = CfStore::new();
    let h = store.io_reg(&id, "board-id");
    let native = assetcache::patch::native::io_reg(&id, "board-id").unwrap();
    assert_eq!(store.cf_to_bytes(h), Some(assetcache::hexcodec::hex_decode(&native.data).unwrap()));
    let h = store.io_reg(&id, "IOPlatformSerialNumber");
    let native = assetcache::patch::native::io_reg(&id, "IOPlatformSerialNumber").unwrap();
    assert_eq!(store.cf_to_bytes(h), Some(native.data));
}

#[test]
fn heap_blocks_follow_each_other() {
    let mut heap = BumpHeap::new();
    let a = heap.malloc(0x10);
    let b = heap.malloc(0x20);
    let c = heap.malloc(0);
    assert_eq!(a, MALLOC_BASE);
    assert_eq!(b, MALLOC_BASE + 0x10);
    assert_eq!(c, MALLOC_BASE + 0x30);
    assert_eq!(heap.used, 0x30);
}

#[test]
fn iterator_yields_one_interface_per_reset() {
    let mut it = EthernetIterator::new();
    assert_eq!(it.next(), 1);
    assert_eq!(it.next(), 0);
    assert_eq!(it.next(), 0);
    it.reset();
    assert_eq!(it.next(), 1);
    assert_eq!(it.next(), 0);
}

#[test]
fn fresh_state() {
    let st = EmulatorState::new();
    assert_eq!(st.store.len(), 0);
    assert_eq!(st.heap.used, 0);
    assert!(!st.eth.yielded);
}

#[test]
fn create_call_layout() {
    let cert = vec![0xaa, 0xbb, 0xcc];
    let setup = call_0_setup(&cert);
    assert_eq!(setup.rsp, HEAP_STACK_BASE + 0x30000 - 16);
    assert_eq!(u64_from_le(&setup.stack[0..8]), SYSCALL_BASE);
    assert_eq!(u64_from_le(&setup.stack[8..16]), GLOBAL_EXIT_TAG);
    assert_eq!(setup.params.len(), 35);
    assert!(setup.params[..32].iter().all(|b| *b == 0));
    assert_eq!(&setup.params[32..], &cert[..]);
    assert_eq!(setup.args, vec![PARAM_BASE + 32, 3, PARAM_BASE, PARAM_BASE + 8, PARAM_BASE + 16]);
    // the return address is the exit stub
    assert_eq!(emulator_syscall_handler(SYSCALL_BASE + 3), SyscallHandler::Exit);
}

#[test]
fn create_call_results() {
    let mut params = u64_to_le(0x77);
    params.extend(u64_to_le(0x3_0003_6000));
    params.extend(u64_to_le(0x120));
    assert_eq!(call_0_results(&params), (0x77, 0x3_0003_6000, 0x120));
}

#[test]
fn stub_code_and_data_words() {
    let code = syscall_stub_code();
    assert_eq!(code.len(), 192);
    assert_eq!(&code[0..8], &[0x90, 0x0f, 0x05, 0xc3, 0x90, 0x0f, 0x05, 0xc3]);
    let words = data_table();
    assert_eq!(words.len(), 12);
    assert_eq!(words[0], STACK_CHK_GUARD);
    assert_eq!(words[1], data_offset(0));
    assert_eq!(words[2], data_offset(2));
    assert_eq!(words[11], data_offset(11));
    let bytes = data_table_bytes();
    assert_eq!(bytes.len(), 96);
    for k in 0..12 {
        assert_eq!(u64_from_le(&bytes[8 * k..8 * k + 8]), words[k]);
    }
}

#[test]
fn pthread_once_pushes_return_address() {
    let c = pthread_once_call(0x2_0000_0019, 0x3_0002_ff00, 0x1000_1234);
    assert_eq!(c.rsp, 0x3_0002_fef8);
    assert_eq!(c.return_address, 0x2_0000_0019);
    assert_eq!(c.target, 0x1000_1234);
}
