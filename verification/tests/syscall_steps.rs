use assetcache::patch::emulator::{EmulatorState, SyscallHandler, CF_KIND_DATA, CF_KIND_STRING, MALLOC_BASE};
use assetcache::mac_serial::MacSerial;
use assetcache::patch::syscall::{SyscallAction, SyscallNeed};

fn vm_identity() -> MacSerial {
    let mut c = MacSerial::new();
    c.board_id = "C246-WU4-CF".to_string();
    c.serial_number = "VMxd6muhRqce".to_string();
    let mut s = MacSerial::new();
    s.copy_from_str(c);
    s
}

fn ret(a: SyscallAction) -> Option<u64> {
    match a {
        SyscallAction::Return(v) => Some(v),
        _ => None,
    }
}

#[test]
fn needs_of_handlers() {
    let mut st = EmulatorState::new();
    let id = vm_identity();
    assert_eq!(st.syscall_need(SyscallHandler::Time, &[0, 0, 0, 0]), SyscallNeed::Clock);
    assert_eq!(st.syscall_need(SyscallHandler::Time, &[8, 0, 0, 0]), SyscallNeed::Nothing);
    assert_eq!(st.syscall_need(SyscallHandler::Arc4random, &[0, 0, 0, 0]), SyscallNeed::Random);
    assert_eq!(st.syscall_need(SyscallHandler::CreateWithCStr, &[0, 0x5000, 0, 0]), SyscallNeed::CString(0x5000));
    assert_eq!(st.syscall_need(SyscallHandler::IoReg, &[0, 0x1000e0000, 0, 0]), SyscallNeed::StringAt(0x1000e0010));
    assert_eq!(st.syscall_need(SyscallHandler::Malloc, &[16, 0, 0, 0]), SyscallNeed::Nothing);
    ret(st.answer_syscall(SyscallHandler::CreateWithCStr, &[0, 0x5000, 0, 0], 0, 0, Some("a".to_string()), None, &id));
    assert_eq!(st.syscall_need(SyscallHandler::CfGetCStr, &[1, 0x6000, 0, 0]), SyscallNeed::Nothing);
    assert_eq!(st.syscall_need(SyscallHandler::CfGetCStr, &[2, 0x6000, 0, 0]), SyscallNeed::StringAt(0x12));
    assert_eq!(st.syscall_need(SyscallHandler::IoReg, &[0, u64::MAX - 4, 0, 0]), SyscallNeed::Nothing);
}

#[test]
fn created_string_reads_back() {
    let mut st = EmulatorState::new();
    let id = vm_identity();
    let h = ret(st.answer_syscall(SyscallHandler::CreateWithCStr, &[0, 0x5000, 0, 0], 0, 0, Some("board-id".to_string()), None, &id)).unwrap();
    assert_eq!(h, 1);
    assert_eq!(ret(st.answer_syscall(SyscallHandler::CfId, &[h, 0, 0, 0], 0, 0, None, None, &id)), Some(CF_KIND_STRING as u64));
    assert_eq!(ret(st.answer_syscall(SyscallHandler::CfLen, &[h, 0, 0, 0], 0, 0, None, None, &id)), Some(8));
    match st.answer_syscall(SyscallHandler::CfGetCStr, &[h, 0x7000, 0, 0], 0, 0, None, None, &id) {
        SyscallAction::Write { dst, bytes } => {
            assert_eq!(dst, 0x7000);
            assert_eq!(bytes, b"board-id".to_vec());
        },
        _ => panic!("expected a write"),
    }
    // the created name looks up a registry property
    let p = ret(st.answer_syscall(SyscallHandler::IoReg, &[0, h, 0, 0], 0, 0, None, None, &id)).unwrap();
    assert_eq!(p, 2);
    assert_eq!(ret(st.answer_syscall(SyscallHandler::CfId, &[p, 0, 0, 0], 0, 0, None, None, &id)), Some(CF_KIND_DATA as u64));
    match st.answer_syscall(SyscallHandler::CfGetBytes, &[p, 0, 4, 0x8000], 0, 0, None, None, &id) {
        SyscallAction::Write { dst, bytes } => {
            assert_eq!(dst, 0x8000);
            assert_eq!(bytes, b"C246".to_vec());
        },
        _ => panic!("expected a write"),
    }
}

#[test]
fn constant_names_come_from_the_fetched_text() {
    let mut st = EmulatorState::new();
    let id = vm_identity();
    let p = ret(st.answer_syscall(SyscallHandler::IoReg, &[0, 0x1000e0000, 0, 0], 0, 0, Some("IOPlatformSerialNumber".to_string()), None, &id)).unwrap();
    assert_eq!(p, 1);
    assert_eq!(ret(st.answer_syscall(SyscallHandler::CfLen, &[p, 0, 0, 0], 0, 0, None, None, &id)), Some(12));
    assert_eq!(ret(st.answer_syscall(SyscallHandler::IoReg, &[0, 0x1000e0000, 0, 0], 0, 0, Some("nothing".to_string()), None, &id)), Some(0));
    assert!(matches!(st.answer_syscall(SyscallHandler::IoReg, &[0, 0x1000e0000, 0, 0], 0, 0, None, None, &id), SyscallAction::Abort));
}

#[test]
fn unknown_handles_fault() {
    let mut st = EmulatorState::new();
    let id = vm_identity();
    assert!(matches!(st.answer_syscall(SyscallHandler::CfId, &[0, 0, 0, 0], 0, 0, None, None, &id), SyscallAction::Abort));
    assert!(matches!(st.answer_syscall(SyscallHandler::CfLen, &[3, 0, 0, 0], 0, 0, None, None, &id), SyscallAction::Abort));
    assert!(matches!(st.answer_syscall(SyscallHandler::CfGetBytes, &[1, 0, 1, 0], 0, 0, None, None, &id), SyscallAction::Abort));
    assert!(matches!(st.answer_syscall(SyscallHandler::Time, &[5, 0, 0, 0], 0, 0, None, Some(7), &id), SyscallAction::Abort));
}

#[test]
fn malloc_and_iterator_steps() {
    let mut st = EmulatorState::new();
    let id = vm_identity();
    assert_eq!(ret(st.answer_syscall(SyscallHandler::Malloc, &[0x10, 0, 0, 0], 0, 0, None, None, &id)), Some(MALLOC_BASE));
    assert_eq!(ret(st.answer_syscall(SyscallHandler::Malloc, &[0x20, 0, 0, 0], 0, 0, None, None, &id)), Some(MALLOC_BASE + 0x10));
    assert_eq!(st.heap.used, 0x30);
    assert!(matches!(st.answer_syscall(SyscallHandler::Malloc, &[u64::MAX, 0, 0, 0], 0, 0, None, None, &id), SyscallAction::Abort));
    assert_eq!(st.heap.used, 0x30);
    assert!(matches!(st.answer_syscall(SyscallHandler::EthReset, &[0; 4], 0, 0, None, None, &id), SyscallAction::Nothing));
    assert_eq!(ret(st.answer_syscall(SyscallHandler::EthNext, &[0; 4], 0, 0, None, None, &id)), Some(1));
    assert_eq!(ret(st.answer_syscall(SyscallHandler::EthNext, &[0; 4], 0, 0, None, None, &id)), Some(0));
}

#[test]
fn other_answers() {
    let mut st = EmulatorState::new();
    let id = vm_identity();
    assert!(matches!(st.answer_syscall(SyscallHandler::Exit, &[0; 4], 0, 0, None, None, &id), SyscallAction::Stop));
    assert!(matches!(st.answer_syscall(SyscallHandler::Memcpy, &[1, 2, 3, 0], 0, 0, None, None, &id), SyscallAction::Copy { dst: 1, src: 2, len: 3 }));
    assert!(matches!(st.answer_syscall(SyscallHandler::PthreadOnce, &[0, 0x1234, 0, 0], 0x2_0000_001b, 0x3_0000_1000, None, None, &id),
        SyscallAction::Call { rsp: 0x3_0000_0ff8, return_address: 0x2_0000_001b, target: 0x1234 }));
    assert!(matches!(st.answer_syscall(SyscallHandler::PthreadOnce, &[0, 0x1234, 0, 0], 0, 4, None, None, &id), SyscallAction::Abort));
    assert_eq!(ret(st.answer_syscall(SyscallHandler::Time, &[0; 4], 0, 0, None, Some(1_700_000_000), &id)), Some(1_700_000_000));
    assert_eq!(ret(st.answer_syscall(SyscallHandler::Arc4random, &[0; 4], 0, 0, None, Some(42), &id)), Some(42));
    assert_eq!(ret(st.answer_syscall(SyscallHandler::CfMaxLen, &[77, 0, 0, 0], 0, 0, None, None, &id)), Some(77));
    assert_eq!(ret(st.answer_syscall(SyscallHandler::Skip1, &[0; 4], 0, 0, None, None, &id)), Some(1));
    assert_eq!(ret(st.answer_syscall(SyscallHandler::NotImplement, &[0; 4], 0, 0, None, None, &id)), Some(0));
    assert_eq!(ret(st.answer_syscall(SyscallHandler::CfStrId, &[0; 4], 0, 0, None, None, &id)), Some(1));
    assert_eq!(ret(st.answer_syscall(SyscallHandler::CfDataId, &[0; 4], 0, 0, None, None, &id)), Some(2));
}
