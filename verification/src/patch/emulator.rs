//! The emulated system: where each import of the image is bound, how a
//! syscall raised in a stub finds its handler, and the state those handlers
//! keep (objects handed out as Core Foundation values, the bump heap, the
//! network-interface iterator).

use vstd::prelude::*;
use crate::text::str_eq;
use crate::emu::{string_from_utf8, le_bytes, le_value, u64_to_le, u64_from_le_at, c_str_of, lemma_c_str_of, lemma_c_str_prefix_unique};
use crate::mac_serial::{MacSerial, MacSerialView};
use crate::patch::native::{io_reg as native_io_reg, native_property, PATCH_TAG, PATCH_TAG2};
use crate::hexcodec::{all_hex_digits, hex_bytes, hex_decode};
use vstd::string::{StrSliceExecFns, StringSliceAdditionalSpecFns};
use vstd::utf8::{valid_utf8, decode_utf8, encode_utf8};

verus! {

/// Base of the syscall stubs: one stub of `SYSCALL_SIZE` bytes per handler.
pub const SYSCALL_BASE: u64 = 0x2_0000_0000;
/// Size of one syscall stub (`nop; syscall; ret`).
pub const SYSCALL_SIZE: u32 = 0x04;
/// Base of the stack region.
pub const HEAP_STACK_BASE: u64 = 0x3_0000_0000;
/// Size of the stack region.
pub const HEAP_STACK_SIZE: u32 = 0x30000;
/// Number of syscall stubs.
pub const SYSCALL_MAX: u32 = 48;
/// Return address that ends an emulated call.
pub const GLOBAL_EXIT_TAG: u64 = 0x1234123412341234;
/// Base of the data words that data imports point into (just above the stack).
pub const DATA_BASE: u64 = HEAP_STACK_BASE + 0x30000;
/// Size of the data region.
pub const DATA_SIZE: u32 = 0x3000;
/// The stack-protector cookie.
pub const STACK_CHK_GUARD: u64 = 0x1234567812345678;
/// Base of the block that carries the arguments and results of a call.
pub const PARAM_BASE: u64 = DATA_BASE + 0x3000;
/// Size of the argument block.
pub const PARAM_SIZE: u32 = 0x3000;
/// Base of the bump heap.
pub const MALLOC_BASE: u64 = PARAM_BASE + 0x3000;
/// Size of the bump heap.
pub const MALLOC_SIZE: u32 = 0x3000;

/// Address of data word `offset`.
pub open spec fn data_word_address(offset: u32) -> u64 {
    (DATA_BASE + offset * 8) as u64
}

/// The address of data word `offset`: `DATA_BASE + 8 * offset`.
pub fn data_offset(offset: u32) -> (r: u64)
    ensures
        r == DATA_BASE + 8 * offset,
        r == data_word_address(offset),
{
    DATA_BASE + offset as u64 * 8
}

/// The fixed value bound to a data import, if `name` is one.
pub open spec fn data_import(name: Seq<char>) -> Option<u64> {
    if name == "____chkstk_darwin"@ {
        Some(0)
    } else if name == "___CFConstantStringClassReference"@ {
        Some(data_word_address(0))
    } else if name == "___stack_chk_guard"@ {
        Some(data_word_address(1))
    } else if name == "_kIOMasterPortDefault"@ {
        Some(data_word_address(2))
    } else if name == "_kCFAllocatorDefault"@ {
        Some(data_word_address(3))
    } else if name == "_kCFAllocatorNull"@ {
        Some(data_word_address(4))
    } else if name == "_kCFTypeDictionaryKeyCallBacks"@ {
        Some(data_word_address(5))
    } else if name == "_kCFTypeDictionaryValueCallBacks"@ {
        Some(data_word_address(6))
    } else if name == "_kCFBooleanTrue"@ {
        Some(data_word_address(7))
    } else if name == "_kCFBooleanFalse"@ {
        Some(data_word_address(8))
    } else if name == "___kCFBooleanFalse"@ {
        Some(data_word_address(9))
    } else if name == "___kCFBooleanTrue"@ {
        Some(data_word_address(10))
    } else {
        None
    }
}

/// The syscall stub that a function import is bound to; every name that is
/// not listed goes to the last stub.
pub open spec fn stub_column(name: Seq<char>) -> u32 {
    if name == "_malloc"@ {
        1
    } else if name == "_free"@ {
        2
    } else if name == "___memcpy_chk"@ {
        3
    } else if name == "___memset_chk"@ {
        4
    } else if name == "_time"@ {
        5
    } else if name == "_pthread_once"@ {
        6
    } else if name == "_arc4random"@ {
        7
    } else if name == "_sysctlbyname"@ {
        8
    } else if name == "_IOObjectRelease"@ {
        9
    } else if name == "_IORegistryEntryFromPath"@ {
        10
    } else if name == "_CFStringCreateWithCStringNoCopy"@ {
        11
    } else if name == "_IORegistryEntryCreateCFProperty"@ {
        12
    } else if name == "_CFGetTypeID"@ {
        13
    } else if name == "_CFStringGetTypeID"@ {
        14
    } else if name == "_CFStringGetLength"@ {
        15
    } else if name == "_CFStringGetMaximumSizeForEncoding"@ {
        16
    } else if name == "_CFStringGetCString"@ {
        17
    } else if name == "_CFDataGetTypeID"@ {
        18
    } else if name == "_CFDataGetLength"@ {
        19
    } else if name == "_CFDataGetBytes"@ {
        20
    } else if name == "_CFRelease"@ {
        21
    } else if name == "_IOServiceMatching"@ {
        22
    } else if name == "_CFDictionaryCreateMutable"@ {
        23
    } else if name == "_CFDictionarySetValue"@ {
        24
    } else if name == "_IOServiceGetMatchingServices"@ {
        25
    } else if name == "_IOIteratorReset"@ {
        26
    } else if name == "_IOIteratorNext"@ {
        27
    } else if name == "_IORegistryEntryGetParentEntry"@ {
        28
    } else if name == "_CFStringGetSystemEncoding"@ {
        29
    } else {
        (SYSCALL_MAX - 1) as u32
    }
}

/// The address of syscall stub `col`.
pub open spec fn stub_address(col: u32) -> u64 {
    (SYSCALL_BASE + SYSCALL_SIZE * col) as u64
}

/// The address that the emulated image sees for the import `name`.
pub open spec fn import_address(name: Seq<char>) -> u64 {
    match data_import(name) {
        Some(a) => a,
        None => stub_address(stub_column(name)),
    }
}

/// The fixed value of a data import, looked up by name.
fn find_data_import(name: &str) -> (r: Option<u64>)
    ensures
        r == data_import(name@),
{
    if str_eq(name, "____chkstk_darwin") {
        Some(0)
    } else if str_eq(name, "___CFConstantStringClassReference") {
        Some(data_offset(0))
    } else if str_eq(name, "___stack_chk_guard") {
        Some(data_offset(1))
    } else if str_eq(name, "_kIOMasterPortDefault") {
        Some(data_offset(2))
    } else if str_eq(name, "_kCFAllocatorDefault") {
        Some(data_offset(3))
    } else if str_eq(name, "_kCFAllocatorNull") {
        Some(data_offset(4))
    } else if str_eq(name, "_kCFTypeDictionaryKeyCallBacks") {
        Some(data_offset(5))
    } else if str_eq(name, "_kCFTypeDictionaryValueCallBacks") {
        Some(data_offset(6))
    } else if str_eq(name, "_kCFBooleanTrue") {
        Some(data_offset(7))
    } else if str_eq(name, "_kCFBooleanFalse") {
        Some(data_offset(8))
    } else if str_eq(name, "___kCFBooleanFalse") {
        Some(data_offset(9))
    } else if str_eq(name, "___kCFBooleanTrue") {
        Some(data_offset(10))
    } else {
        None
    }
}

/// The syscall stub of a function import, looked up by name.
fn find_stub_column(name: &str) -> (r: u32)
    ensures
        r == stub_column(name@),
{
    if str_eq(name, "_malloc") {
        1
    } else if str_eq(name, "_free") {
        2
    } else if str_eq(name, "___memcpy_chk") {
        3
    } else if str_eq(name, "___memset_chk") {
        4
    } else if str_eq(name, "_time") {
        5
    } else if str_eq(name, "_pthread_once") {
        6
    } else if str_eq(name, "_arc4random") {
        7
    } else if str_eq(name, "_sysctlbyname") {
        8
    } else if str_eq(name, "_IOObjectRelease") {
        9
    } else if str_eq(name, "_IORegistryEntryFromPath") {
        10
    } else if str_eq(name, "_CFStringCreateWithCStringNoCopy") {
        11
    } else if str_eq(name, "_IORegistryEntryCreateCFProperty") {
        12
    } else if str_eq(name, "_CFGetTypeID") {
        13
    } else if str_eq(name, "_CFStringGetTypeID") {
        14
    } else if str_eq(name, "_CFStringGetLength") {
        15
    } else if str_eq(name, "_CFStringGetMaximumSizeForEncoding") {
        16
    } else if str_eq(name, "_CFStringGetCString") {
        17
    } else if str_eq(name, "_CFDataGetTypeID") {
        18
    } else if str_eq(name, "_CFDataGetLength") {
        19
    } else if str_eq(name, "_CFDataGetBytes") {
        20
    } else if str_eq(name, "_CFRelease") {
        21
    } else if str_eq(name, "_IOServiceMatching") {
        22
    } else if str_eq(name, "_CFDictionaryCreateMutable") {
        23
    } else if str_eq(name, "_CFDictionarySetValue") {
        24
    } else if str_eq(name, "_IOServiceGetMatchingServices") {
        25
    } else if str_eq(name, "_IOIteratorReset") {
        26
    } else if str_eq(name, "_IOIteratorNext") {
        27
    } else if str_eq(name, "_IORegistryEntryGetParentEntry") {
        28
    } else if str_eq(name, "_CFStringGetSystemEncoding") {
        29
    } else {
        SYSCALL_MAX - 1
    }
}

/// The address bound to the import `name` in the emulated image: a data
/// word for data imports, otherwise the syscall stub of its handler.
pub fn register_fn(_dylib: &str, name: &str) -> (r: u64)
    ensures
        r == import_address(name@),
{
    if let Some(data) = find_data_import(name) {
        return data;
    }
    let col = find_stub_column(name);
    SYSCALL_BASE + (SYSCALL_SIZE * col) as u64
}

/// The handlers behind the syscall stubs.
#[derive(Clone, Copy, Debug, PartialEq, Eq, Structural)]
pub enum SyscallHandler {
    Exit,
    Malloc,
    Free,
    Memcpy,
    Memset,
    Time,
    PthreadOnce,
    Arc4random,
    Sysctlbyname,
    Release,
    Skip1,
    CreateWithCStr,
    IoReg,
    CfId,
    CfStrId,
    CfLen,
    CfMaxLen,
    CfGetCStr,
    CfDataId,
    CfGetBytes,
    Skip0,
    EthReset,
    EthNext,
    NotImplement,
}

/// The handler of syscall stub `col`.
pub open spec fn column_handler(col: u32) -> SyscallHandler {
    if col == 0 {
        SyscallHandler::Exit
    } else if col == 1 {
        SyscallHandler::Malloc
    } else if col == 2 {
        SyscallHandler::Free
    } else if col == 3 {
        SyscallHandler::Memcpy
    } else if col == 4 {
        SyscallHandler::Memset
    } else if col == 5 {
        SyscallHandler::Time
    } else if col == 6 {
        SyscallHandler::PthreadOnce
    } else if col == 7 {
        SyscallHandler::Arc4random
    } else if col == 8 {
        SyscallHandler::Sysctlbyname
    } else if col == 9 || col == 21 {
        SyscallHandler::Release
    } else if col == 10 || col == 23 || col == 29 {
        SyscallHandler::Skip1
    } else if col == 11 {
        SyscallHandler::CreateWithCStr
    } else if col == 12 {
        SyscallHandler::IoReg
    } else if col == 13 {
        SyscallHandler::CfId
    } else if col == 14 {
        SyscallHandler::CfStrId
    } else if col == 15 || col == 19 {
        SyscallHandler::CfLen
    } else if col == 16 {
        SyscallHandler::CfMaxLen
    } else if col == 17 {
        SyscallHandler::CfGetCStr
    } else if col == 18 {
        SyscallHandler::CfDataId
    } else if col == 20 {
        SyscallHandler::CfGetBytes
    } else if col == 24 || col == 25 || col == 28 {
        SyscallHandler::Skip0
    } else if col == 26 {
        SyscallHandler::EthReset
    } else if col == 27 {
        SyscallHandler::EthNext
    } else {
        SyscallHandler::NotImplement
    }
}

/// The stub that holds `rip`, the instruction pointer reported for a
/// syscall: `(rip - SYSCALL_BASE - 1) / SYSCALL_SIZE`.
pub open spec fn rip_column(rip: u64) -> int {
    (rip - SYSCALL_BASE - 1) / (SYSCALL_SIZE as int)
}

/// The handler for a syscall raised at `rip` inside the stub region.
pub fn emulator_syscall_handler(rip: u64) -> (r: SyscallHandler)
    requires
        SYSCALL_BASE < rip <= SYSCALL_BASE + SYSCALL_SIZE * SYSCALL_MAX,
    ensures
        0 <= rip_column(rip) < SYSCALL_MAX,
        r == column_handler(rip_column(rip) as u32),
{
    let col = ((rip - SYSCALL_BASE - 1) / SYSCALL_SIZE as u64) as u32;
    match col {
        0 => SyscallHandler::Exit,
        1 => SyscallHandler::Malloc,
        2 => SyscallHandler::Free,
        3 => SyscallHandler::Memcpy,
        4 => SyscallHandler::Memset,
        5 => SyscallHandler::Time,
        6 => SyscallHandler::PthreadOnce,
        7 => SyscallHandler::Arc4random,
        8 => SyscallHandler::Sysctlbyname,
        9 | 21 => SyscallHandler::Release,
        10 | 23 | 29 => SyscallHandler::Skip1,
        11 => SyscallHandler::CreateWithCStr,
        12 => SyscallHandler::IoReg,
        13 => SyscallHandler::CfId,
        14 => SyscallHandler::CfStrId,
        15 | 19 => SyscallHandler::CfLen,
        16 => SyscallHandler::CfMaxLen,
        17 => SyscallHandler::CfGetCStr,
        18 => SyscallHandler::CfDataId,
        20 => SyscallHandler::CfGetBytes,
        24 | 28 => SyscallHandler::Skip0,
        25 => SyscallHandler::Skip0,
        26 => SyscallHandler::EthReset,
        27 => SyscallHandler::EthNext,
        _ => SyscallHandler::NotImplement,
    }
}

/// A function import is bound to a stub inside the stub region, and a
/// syscall raised anywhere in that stub is dispatched to the stub's handler.
pub proof fn lemma_stub_dispatch(name: Seq<char>, rip: u64)
    requires
        data_import(name) is None,
        import_address(name) < rip <= import_address(name) + SYSCALL_SIZE,
    ensures
        stub_column(name) < SYSCALL_MAX,
        SYSCALL_BASE < rip <= SYSCALL_BASE + SYSCALL_SIZE * SYSCALL_MAX,
        rip_column(rip) == stub_column(name),
{
    let col = stub_column(name);
    assert(col < SYSCALL_MAX);
    assert(import_address(name) == SYSCALL_BASE + 4 * col);
    assert((rip - SYSCALL_BASE - 1) / 4 == col) by (nonlinear_arith)
        requires
            SYSCALL_BASE + 4 * col < rip <= SYSCALL_BASE + 4 * col + 4,
    ;
}

/// The handler that carries out the system function `name` in the emulated
/// system, by what the function does: allocation, copying, the clock, the
/// Core Foundation accessors (`_CFGetTypeID` answers an object's own kind,
/// `_CFDataGetBytes` copies a range of its bytes), the registry and the
/// interface iterator. Functions that only need a fixed answer get `Skip0`
/// or `Skip1`, releases do nothing, and any other name is not implemented.
pub open spec fn import_handler(name: Seq<char>) -> SyscallHandler {
    if name == "_malloc"@ {
        SyscallHandler::Malloc
    } else if name == "_free"@ {
        SyscallHandler::Free
    } else if name == "___memcpy_chk"@ {
        SyscallHandler::Memcpy
    } else if name == "___memset_chk"@ {
        SyscallHandler::Memset
    } else if name == "_time"@ {
        SyscallHandler::Time
    } else if name == "_pthread_once"@ {
        SyscallHandler::PthreadOnce
    } else if name == "_arc4random"@ {
        SyscallHandler::Arc4random
    } else if name == "_sysctlbyname"@ {
        SyscallHandler::Sysctlbyname
    } else if name == "_IOObjectRelease"@ {
        SyscallHandler::Release
    } else if name == "_IORegistryEntryFromPath"@ {
        SyscallHandler::Skip1
    } else if name == "_CFStringCreateWithCStringNoCopy"@ {
        SyscallHandler::CreateWithCStr
    } else if name == "_IORegistryEntryCreateCFProperty"@ {
        SyscallHandler::IoReg
    } else if name == "_CFGetTypeID"@ {
        SyscallHandler::CfId
    } else if name == "_CFStringGetTypeID"@ {
        SyscallHandler::CfStrId
    } else if name == "_CFStringGetLength"@ {
        SyscallHandler::CfLen
    } else if name == "_CFStringGetMaximumSizeForEncoding"@ {
        SyscallHandler::CfMaxLen
    } else if name == "_CFStringGetCString"@ {
        SyscallHandler::CfGetCStr
    } else if name == "_CFDataGetTypeID"@ {
        SyscallHandler::CfDataId
    } else if name == "_CFDataGetLength"@ {
        SyscallHandler::CfLen
    } else if name == "_CFDataGetBytes"@ {
        SyscallHandler::CfGetBytes
    } else if name == "_CFRelease"@ {
        SyscallHandler::Release
    } else if name == "_IOServiceMatching"@ {
        SyscallHandler::NotImplement
    } else if name == "_CFDictionaryCreateMutable"@ {
        SyscallHandler::Skip1
    } else if name == "_CFDictionarySetValue"@ {
        SyscallHandler::Skip0
    } else if name == "_IOServiceGetMatchingServices"@ {
        SyscallHandler::Skip0
    } else if name == "_IOIteratorReset"@ {
        SyscallHandler::EthReset
    } else if name == "_IOIteratorNext"@ {
        SyscallHandler::EthNext
    } else if name == "_IORegistryEntryGetParentEntry"@ {
        SyscallHandler::Skip0
    } else if name == "_CFStringGetSystemEncoding"@ {
        SyscallHandler::Skip1
    } else {
        SyscallHandler::NotImplement
    }
}

/// Every function import is dispatched to the handler that carries out that
/// function: a syscall raised anywhere in the stub that `name` is bound to
/// reaches `import_handler(name)`.
pub proof fn lemma_import_reaches_its_handler(name: Seq<char>, rip: u64)
    requires
        data_import(name) is None,
        import_address(name) < rip <= import_address(name) + SYSCALL_SIZE,
    ensures
        SYSCALL_BASE < rip <= SYSCALL_BASE + SYSCALL_SIZE * SYSCALL_MAX,
        column_handler(rip_column(rip) as u32) == import_handler(name),
{
    lemma_stub_dispatch(name, rip);
}

/// Some function imports by name: none of them is a data import, and each
/// is carried out by the handler its function needs.
pub proof fn lemma_function_imports()
    ensures
        data_import("_malloc"@) is None,
        import_handler("_malloc"@) == SyscallHandler::Malloc,
        data_import("___memcpy_chk"@) is None,
        import_handler("___memcpy_chk"@) == SyscallHandler::Memcpy,
        data_import("_CFGetTypeID"@) is None && import_handler("_CFGetTypeID"@) == SyscallHandler::CfId,
        data_import("_CFDataGetBytes"@) is None && import_handler("_CFDataGetBytes"@) == SyscallHandler::CfGetBytes,
        data_import("_CFStringGetCString"@) is None && import_handler("_CFStringGetCString"@) == SyscallHandler::CfGetCStr,
{
    // The names are told apart by their lengths, or by a character where
    // two lengths agree.
    reveal_strlit("_CFDataGetBytes");
    reveal_strlit("_CFDataGetLength");
    reveal_strlit("_CFDataGetTypeID");
    reveal_strlit("_CFDictionaryCreateMutable");
    reveal_strlit("_CFDictionarySetValue");
    reveal_strlit("_CFGetTypeID");
    reveal_strlit("_CFRelease");
    reveal_strlit("_CFStringCreateWithCStringNoCopy");
    reveal_strlit("_CFStringGetCString");
    reveal_strlit("_CFStringGetLength");
    reveal_strlit("_CFStringGetMaximumSizeForEncoding");
    reveal_strlit("_CFStringGetSystemEncoding");
    reveal_strlit("_CFStringGetTypeID");
    reveal_strlit("_IOIteratorNext");
    reveal_strlit("_IOIteratorReset");
    reveal_strlit("_IOObjectRelease");
    reveal_strlit("_IORegistryEntryCreateCFProperty");
    reveal_strlit("_IORegistryEntryFromPath");
    reveal_strlit("_IORegistryEntryGetParentEntry");
    reveal_strlit("_IOServiceGetMatchingServices");
    reveal_strlit("_IOServiceMatching");
    reveal_strlit("___CFConstantStringClassReference");
    reveal_strlit("____chkstk_darwin");
    reveal_strlit("___kCFBooleanFalse");
    reveal_strlit("___kCFBooleanTrue");
    reveal_strlit("___memcpy_chk");
    reveal_strlit("___memset_chk");
    reveal_strlit("___stack_chk_guard");
    reveal_strlit("_arc4random");
    reveal_strlit("_free");
    reveal_strlit("_kCFAllocatorDefault");
    reveal_strlit("_kCFAllocatorNull");
    reveal_strlit("_kCFBooleanFalse");
    reveal_strlit("_kCFBooleanTrue");
    reveal_strlit("_kCFTypeDictionaryKeyCallBacks");
    reveal_strlit("_kCFTypeDictionaryValueCallBacks");
    reveal_strlit("_kIOMasterPortDefault");
    reveal_strlit("_malloc");
    reveal_strlit("_pthread_once");
    reveal_strlit("_sysctlbyname");
    reveal_strlit("_time");
    assert("_CFDataGetBytes"@.len() == 15);
    assert("_CFDataGetLength"@.len() == 16);
    assert("_CFDataGetTypeID"@.len() == 16);
    assert("_CFDictionaryCreateMutable"@.len() == 26);
    assert("_CFDictionarySetValue"@.len() == 21);
    assert("_CFGetTypeID"@.len() == 12);
    assert("_CFRelease"@.len() == 10);
    assert("_CFStringCreateWithCStringNoCopy"@.len() == 32);
    assert("_CFStringGetCString"@.len() == 19);
    assert("_CFStringGetLength"@.len() == 18);
    assert("_CFStringGetMaximumSizeForEncoding"@.len() == 34);
    assert("_CFStringGetSystemEncoding"@.len() == 26);
    assert("_CFStringGetTypeID"@.len() == 18);
    assert("_IOIteratorNext"@.len() == 15);
    assert("_IOIteratorReset"@.len() == 16);
    assert("_IOObjectRelease"@.len() == 16);
    assert("_IORegistryEntryCreateCFProperty"@.len() == 32);
    assert("_IORegistryEntryFromPath"@.len() == 24);
    assert("_IORegistryEntryGetParentEntry"@.len() == 30);
    assert("_IOServiceGetMatchingServices"@.len() == 29);
    assert("_IOServiceMatching"@.len() == 18);
    assert("___CFConstantStringClassReference"@.len() == 33);
    assert("____chkstk_darwin"@.len() == 17);
    assert("___kCFBooleanFalse"@.len() == 18);
    assert("___kCFBooleanTrue"@.len() == 17);
    assert("___memcpy_chk"@.len() == 13);
    assert("___memset_chk"@.len() == 13);
    assert("___stack_chk_guard"@.len() == 18);
    assert("_arc4random"@.len() == 11);
    assert("_free"@.len() == 5);
    assert("_kCFAllocatorDefault"@.len() == 20);
    assert("_kCFAllocatorNull"@.len() == 17);
    assert("_kCFBooleanFalse"@.len() == 16);
    assert("_kCFBooleanTrue"@.len() == 15);
    assert("_kCFTypeDictionaryKeyCallBacks"@.len() == 30);
    assert("_kCFTypeDictionaryValueCallBacks"@.len() == 32);
    assert("_kIOMasterPortDefault"@.len() == 21);
    assert("_malloc"@.len() == 7);
    assert("_pthread_once"@.len() == 13);
    assert("_sysctlbyname"@.len() == 13);
    assert("_time"@.len() == 5);
    assert("_CFDataGetBytes"@[1] != "_kCFBooleanTrue"@[1]);
}

/// Different data imports are bound to different data words.
pub proof fn lemma_data_imports_distinct(n1: Seq<char>, n2: Seq<char>)
    requires
        n1 != n2,
        data_import(n1) matches Some(a) && a != 0,
        data_import(n2) matches Some(b) && b != 0,
    ensures
        data_import(n1) != data_import(n2),
{
}

/// Different function imports that have a stub of their own are bound to
/// different stubs; every other name shares the last stub.
pub proof fn lemma_function_imports_distinct(n1: Seq<char>, n2: Seq<char>)
    requires
        n1 != n2,
        stub_column(n1) < SYSCALL_MAX - 1,
        stub_column(n2) < SYSCALL_MAX - 1,
    ensures
        stub_column(n1) != stub_column(n2),
        0 < stub_column(n1),
{
}

/// Every data import is bound inside the data region, on a word boundary,
/// except `____chkstk_darwin`, which is bound to 0.
pub proof fn lemma_data_imports_in_data_region(name: Seq<char>)
    requires
        data_import(name) matches Some(a) && a != 0,
    ensures
        DATA_BASE <= data_import(name)->0 < DATA_BASE + DATA_SIZE,
        (data_import(name)->0 - DATA_BASE) % 8 == 0,
{
}

/// Kind tag of a text object.
pub const CF_KIND_STRING: u8 = 1;
/// Kind tag of a byte-data object.
pub const CF_KIND_DATA: u8 = 2;

/// A value handed to the image as a Core Foundation object: its kind
/// (`CF_KIND_STRING` or `CF_KIND_DATA`) and its bytes.
pub struct CfObject {
    pub kind: u8,
    pub bytes: Vec<u8>,
}

impl View for CfObject {
    type V = (u8, Seq<u8>);

    open spec fn view(&self) -> (u8, Seq<u8>) {
        (self.kind, self.bytes@)
    }
}

/// The object behind handle `h` in a store holding `objs`: handles count
/// from 1 in order of creation.
pub open spec fn cf_lookup(objs: Seq<(u8, Seq<u8>)>, h: u64) -> Option<(u8, Seq<u8>)> {
    if 1 <= h <= objs.len() {
        Some(objs[h - 1])
    } else {
        None
    }
}

/// The objects handed out so far; an object's handle is its position plus one.
pub struct CfStore {
    objects: Vec<CfObject>,
}

impl View for CfStore {
    type V = Seq<(u8, Seq<u8>)>;

    closed spec fn view(&self) -> Seq<(u8, Seq<u8>)> {
        self.objects@.map_values(|o: CfObject| o@)
    }
}

impl CfStore {
    /// An empty store.
    pub fn new() -> (r: CfStore)
        ensures
            r@ == Seq::<(u8, Seq<u8>)>::empty(),
    {
        let r = CfStore { objects: Vec::new() };
        assert(r@ =~= Seq::<(u8, Seq<u8>)>::empty());
        r
    }

    /// Number of objects handed out.
    pub fn len(&self) -> (r: usize)
        ensures
            r == self@.len(),
    {
        self.objects.len()
    }

    /// Stores an object and returns its handle.
    fn push(&mut self, kind: u8, bytes: Vec<u8>) -> (r: u64)
        ensures
            final(self)@ == old(self)@.push((kind, bytes@)),
            r == final(self)@.len(),
    {
        let ghost before = self.objects@;
        self.objects.push(CfObject { kind, bytes });
        proof {
            assert(self.objects@ == before.push(CfObject { kind, bytes }));
            assert(self@ =~= old(self)@.push((kind, bytes@)));
        }
        self.objects.len() as u64
    }

    /// Hands out the text `s` as a string object (`str_to_cf`).
    pub fn str_to_cf(&mut self, s: &str) -> (r: u64)
        ensures
            final(self)@ == old(self)@.push((CF_KIND_STRING, s.spec_bytes())),
            r == final(self)@.len(),
            cf_lookup(final(self)@, r) == Some((CF_KIND_STRING, s.spec_bytes())),
    {
        let bytes = s.as_bytes_vec();
        self.push(CF_KIND_STRING, bytes)
    }

    /// Hands out the bytes `v` as a data object (`vec_to_cf`).
    pub fn vec_to_cf(&mut self, v: Vec<u8>) -> (r: u64)
        ensures
            final(self)@ == old(self)@.push((CF_KIND_DATA, v@)),
            r == final(self)@.len(),
            cf_lookup(final(self)@, r) == Some((CF_KIND_DATA, v@)),
    {
        let ghost bytes = v@;
        self.push(CF_KIND_DATA, v)
    }

    /// The object behind handle `h`.
    fn get(&self, h: u64) -> (r: Option<&CfObject>)
        ensures
            r matches Some(o) ==> cf_lookup(self@, h) == Some(o@),
            r is None ==> cf_lookup(self@, h) is None,
    {
        if h >= 1 && h <= self.objects.len() as u64 {
            let o = &self.objects[(h - 1) as usize];
            assert(self@[h - 1] == o@);
            Some(o)
        } else {
            None
        }
    }

    /// The bytes of object `h` (`cf_to_bytes`), `None` for an unknown handle.
    pub fn cf_to_bytes(&self, h: u64) -> (r: Option<Vec<u8>>)
        ensures
            r matches Some(v) ==> cf_lookup(self@, h) matches Some(o) && v@ == o.1,
            r is None <==> cf_lookup(self@, h) is None,
    {
        match self.get(h) {
            Some(o) => Some(o.bytes.clone()),
            None => None,
        }
    }

    /// The kind of object `h` (`CFGetTypeID`), `None` for an unknown handle.
    pub fn cf_id(&self, h: u64) -> (r: Option<u8>)
        ensures
            r matches Some(k) ==> cf_lookup(self@, h) matches Some(o) && k == o.0,
            r is None <==> cf_lookup(self@, h) is None,
    {
        match self.get(h) {
            Some(o) => Some(o.kind),
            None => None,
        }
    }

    /// The byte length of object `h` (`CFStringGetLength`, `CFDataGetLength`).
    pub fn cf_len(&self, h: u64) -> (r: Option<u64>)
        ensures
            r matches Some(n) ==> cf_lookup(self@, h) matches Some(o) && n == o.1.len(),
            r is None <==> cf_lookup(self@, h) is None,
    {
        match self.get(h) {
            Some(o) => Some(o.bytes.len() as u64),
            None => None,
        }
    }

    /// The bytes `[start, start + len)` of object `h` (`CFDataGetBytes`),
    /// `None` for an unknown handle or a range past its end.
    pub fn cf_get_bytes(&self, h: u64, start: u64, len: u64) -> (r: Option<Vec<u8>>)
        ensures
            r matches Some(v) ==> cf_lookup(self@, h) matches Some(o) && start + len <= o.1.len()
                && v@ == o.1.subrange(start as int, start + len),
            r is None <==> (cf_lookup(self@, h) matches Some(o) ==> start + len > o.1.len()),
    {
        match self.get(h) {
            Some(o) => {
                let n = o.bytes.len() as u64;
                if start <= n && len <= n - start {
                    let lo = start as usize;
                    let hi = (start + len) as usize;
                    let mut v: Vec<u8> = Vec::new();
                    let mut i: usize = lo;
                    while i < hi
                        invariant
                            lo <= i <= hi <= o.bytes@.len(),
                            lo == start,
                            hi == start + len,
                            v@ == o.bytes@.subrange(lo as int, i as int),
                        decreases hi - i,
                    {
                        v.push(o.bytes[i]);
                        i = i + 1;
                        assert(v@ =~= o.bytes@.subrange(lo as int, i as int));
                    }
                    Some(v)
                } else {
                    None
                }
            },
            None => None,
        }
    }

    /// The text of object `h` (`cf_to_str` for a stored value): `None` for
    /// an unknown handle or bytes that are not UTF-8.
    pub fn cf_to_str(&self, h: u64) -> (r: Option<String>)
        ensures
            r matches Some(s) ==> cf_lookup(self@, h) matches Some(o) && valid_utf8(o.1)
                && s@ == decode_utf8(o.1),
            r is None <==> (cf_lookup(self@, h) matches Some(o) ==> !valid_utf8(o.1)),
    {
        match self.cf_to_bytes(h) {
            Some(v) => string_from_utf8(v),
            None => None,
        }
    }
}

/// A stored object reads back as it was stored, and storing leaves every
/// earlier handle's object unchanged.
pub proof fn lemma_store_read_after_write(
    objs: Seq<(u8, Seq<u8>)>,
    obj: (u8, Seq<u8>),
    h: u64,
)
    requires
        objs.len() < u64::MAX,
    ensures
        cf_lookup(objs.push(obj), (objs.len() + 1) as u64) == Some(obj),
        h != objs.len() + 1 ==> cf_lookup(objs.push(obj), h) == cf_lookup(objs, h),
{
}

/// The bump allocator behind `malloc`: it hands out consecutive blocks of
/// the heap region and never reuses them.
pub struct BumpHeap {
    pub used: u64,
}

impl BumpHeap {
    /// A heap with nothing handed out.
    pub fn new() -> (r: BumpHeap)
        ensures
            r.used == 0,
    {
        BumpHeap { used: 0 }
    }

    /// `malloc(size)`: the address of the next `size` bytes.
    pub fn malloc(&mut self, size: u64) -> (r: u64)
        requires
            MALLOC_BASE + old(self).used + size <= u64::MAX,
        ensures
            r == MALLOC_BASE + old(self).used,
            final(self).used == old(self).used + size,
    {
        let offset = self.used;
        self.used = self.used + size;
        MALLOC_BASE + offset
    }
}

/// Two blocks handed out one after the other do not overlap: the second
/// starts where the first ends.
pub proof fn lemma_blocks_disjoint(used: u64, size1: u64, size2: u64)
    requires
        MALLOC_BASE + used + size1 + size2 <= u64::MAX,
    ensures
        ({
            let first = MALLOC_BASE + used;
            let second = MALLOC_BASE + (used + size1);
            first + size1 == second && second + size2 <= u64::MAX
        }),
{
}

/// The network-interface iterator: it yields one interface after a reset
/// and then reports the end.
pub struct EthernetIterator {
    pub yielded: bool,
}

impl EthernetIterator {
    /// A fresh iterator, which still has its interface to yield.
    pub fn new() -> (r: EthernetIterator)
        ensures
            !r.yielded,
    {
        EthernetIterator { yielded: false }
    }

    /// `IOIteratorReset`.
    pub fn reset(&mut self)
        ensures
            *final(self) == reset_state(*old(self)),
    {
        self.yielded = false;
    }

    /// `IOIteratorNext`: 1 for the interface, then 0 for the end.
    pub fn next(&mut self) -> (r: u64)
        ensures
            (*final(self), r) == next_step(*old(self)),
    {
        if self.yielded {
            0
        } else {
            self.yielded = true;
            1
        }
    }
}

/// The iterator after `IOIteratorReset`: its interface is to come again.
pub open spec fn reset_state(it: EthernetIterator) -> EthernetIterator {
    EthernetIterator { yielded: false }
}

/// One `IOIteratorNext`: the iterator afterwards and the value returned,
/// 1 while the interface is still to come and 0 once it was handed out.
pub open spec fn next_step(it: EthernetIterator) -> (EthernetIterator, u64) {
    if it.yielded {
        (it, 0)
    } else {
        (EthernetIterator { yielded: true }, 1)
    }
}

/// The iterator after `n` calls of `IOIteratorNext` from `it`.
pub open spec fn after_nexts(it: EthernetIterator, n: nat) -> EthernetIterator
    decreases n,
{
    if n == 0 {
        it
    } else {
        next_step(after_nexts(it, (n - 1) as nat)).0
    }
}

/// Whatever state the iterator was in, after a reset the next call yields
/// the interface (1) and every call after that yields the end (0).
pub proof fn lemma_reset_yields_one(it: EthernetIterator, n: nat)
    ensures
        next_step(reset_state(it)).1 == 1,
        n >= 1 ==> next_step(after_nexts(reset_state(it), n)).1 == 0,
    decreases n,
{
    if n > 1 {
        lemma_reset_yields_one(it, (n - 1) as nat);
    }
}

/// What the emulated system keeps between syscalls.
pub struct EmulatorState {
    pub store: CfStore,
    pub heap: BumpHeap,
    pub eth: EthernetIterator,
}

impl EmulatorState {
    /// The state before the first call.
    pub fn new() -> (r: EmulatorState)
        ensures
            r.store@ == Seq::<(u8, Seq<u8>)>::empty(),
            r.heap.used == 0,
            !r.eth.yielded,
    {
        EmulatorState { store: CfStore::new(), heap: BumpHeap::new(), eth: EthernetIterator::new() }
    }
}

/// What the emulated machine reports for the registry property `name` when
/// the installed identity is `s`: the same field that the native stand-ins
/// hand out (`native_property`), as an object. A text property holds the
/// C string of the field's UTF-8 bytes; a data property holds what that C
/// string stands for as hex text, and is missing when it is no hex text.
pub open spec fn emulator_io_object(s: MacSerialView, name: Seq<char>) -> Option<(u8, Seq<u8>)> {
    match native_property(s, name) {
        None => None,
        Some((is_text, field)) => {
            let d = c_str_of(encode_utf8(field));
            if is_text {
                Some((CF_KIND_STRING, d))
            } else if d.len() % 2 == 0 && all_hex_digits(d) {
                Some((CF_KIND_DATA, hex_bytes(d)))
            } else {
                None
            }
        },
    }
}

impl CfStore {
    /// `IORegistryEntryCreateCFProperty`: hands out the property `name` of
    /// the installed identity `serial` as a new object and returns its
    /// handle; 0 for a property the machine does not have.
    pub fn io_reg(&mut self, serial: &MacSerial, name: &str) -> (r: u64)
        ensures
            emulator_io_object(serial@, name@) is None ==> r == 0 && final(self)@ == old(self)@,
            emulator_io_object(serial@, name@) matches Some(o) ==> r == final(self)@.len()
                && final(self)@ == old(self)@.push(o),
    {
        match native_io_reg(serial, name) {
            None => 0,
            Some(p) => {
                proof {
                    let (is_text, field) = native_property(serial@, name@)->0;
                    lemma_c_str_of(encode_utf8(field));
                    lemma_c_str_prefix_unique(encode_utf8(field), p.data@, c_str_of(encode_utf8(field)));
                    assert(PATCH_TAG != PATCH_TAG2);
                }
                if p.is_str() {
                    self.push(CF_KIND_STRING, p.data)
                } else {
                    match hex_decode(p.data.as_slice()) {
                        Ok(b) => self.push(CF_KIND_DATA, b),
                        Err(_) => 0,
                    }
                }
            },
        }
    }
}

/// Entry point of the routine that creates a session (`call_0`).
pub const CREATE_ENTRY: u64 = 0x1000d2f30;

/// How a call into the image is set up: the stack pointer, the bytes to
/// place at it (return address, then the exit tag), the argument block to
/// place at `PARAM_BASE`, and the integer arguments in order.
pub struct CallSetup {
    pub rsp: u64,
    pub stack: Vec<u8>,
    pub params: Vec<u8>,
    pub args: Vec<u64>,
}

/// The set-up of `call_0` for the certificate `cert`: the call returns into
/// the exit stub; the argument block holds three zeroed result words and a
/// spare word, then the certificate; the arguments are the certificate, its
/// length, and the addresses of the three result words.
pub fn call_0_setup(cert: &[u8]) -> (r: CallSetup)
    ensures
        r.rsp == HEAP_STACK_BASE + HEAP_STACK_SIZE - 16,
        r.stack@ == le_bytes(SYSCALL_BASE) + le_bytes(GLOBAL_EXIT_TAG),
        r.params@ == Seq::new(32, |i: int| 0u8) + cert@,
        r.args@ == seq![(PARAM_BASE + 32) as u64, cert@.len() as u64, PARAM_BASE, (PARAM_BASE + 8) as u64, (PARAM_BASE + 16) as u64],
{
    let mut stack_top = HEAP_STACK_BASE + HEAP_STACK_SIZE as u64;
    stack_top = stack_top - 8;
    let exit_tag = u64_to_le(GLOBAL_EXIT_TAG);
    stack_top = stack_top - 8;
    let mut stack = u64_to_le(SYSCALL_BASE);
    let mut i: usize = 0;
    while i < 8
        invariant
            0 <= i <= 8,
            exit_tag@ == le_bytes(GLOBAL_EXIT_TAG),
            stack@ == le_bytes(SYSCALL_BASE) + exit_tag@.take(i as int),
        decreases 8 - i,
    {
        stack.push(exit_tag[i]);
        i = i + 1;
        assert(stack@ =~= le_bytes(SYSCALL_BASE) + exit_tag@.take(i as int));
    }
    assert(exit_tag@.take(8) =~= exit_tag@);
    let mut params: Vec<u8> = Vec::new();
    let mut j: usize = 0;
    while j < 32
        invariant
            0 <= j <= 32,
            params@ == Seq::new(j as nat, |k: int| 0u8),
        decreases 32 - j,
    {
        params.push(0);
        j = j + 1;
        assert(params@ =~= Seq::new(j as nat, |k: int| 0u8));
    }
    let mut k: usize = 0;
    while k < cert.len()
        invariant
            0 <= k <= cert@.len(),
            params@ == Seq::new(32, |i: int| 0u8) + cert@.take(k as int),
        decreases cert@.len() - k,
    {
        params.push(cert[k]);
        k = k + 1;
        assert(params@ =~= Seq::new(32, |i: int| 0u8) + cert@.take(k as int));
    }
    assert(cert@.take(cert@.len() as int) =~= cert@);
    let mut args: Vec<u64> = Vec::new();
    args.push(PARAM_BASE + 32);
    args.push(cert.len() as u64);
    args.push(PARAM_BASE);
    args.push(PARAM_BASE + 8);
    args.push(PARAM_BASE + 16);
    assert(args@ =~= seq![(PARAM_BASE + 32) as u64, cert@.len() as u64, PARAM_BASE, (PARAM_BASE + 8) as u64, (PARAM_BASE + 16) as u64]);
    CallSetup { rsp: stack_top, stack, params, args }
}

/// The results of `call_0`, read from the first 24 bytes of the argument
/// block: the context, the address of the produced data and its length.
pub fn call_0_results(params: &[u8]) -> (r: (u64, u64, u64))
    requires
        params@.len() >= 24,
    ensures
        r.0 == le_value(params@.subrange(0, 8)),
        r.1 == le_value(params@.subrange(8, 16)),
        r.2 == le_value(params@.subrange(16, 24)),
{
    let ctx = u64_from_le_at(params, 0);
    let ptr = u64_from_le_at(params, 8);
    let len = u64_from_le_at(params, 16);
    (ctx, ptr, len)
}

/// The return address that `call_0` leaves on the stack is the exit stub:
/// the syscall raised there stops the emulator.
pub proof fn lemma_call_returns_to_exit(rip: u64)
    requires
        SYSCALL_BASE < rip <= SYSCALL_BASE + SYSCALL_SIZE,
    ensures
        column_handler(rip_column(rip) as u32) == SyscallHandler::Exit,
{
    assert(rip_column(rip) == 0);
}

/// Byte `i` of a syscall stub: `nop; syscall; ret`.
pub open spec fn stub_byte(i: int) -> u8 {
    if i == 0 {
        0x90
    } else if i == 1 {
        0x0f
    } else if i == 2 {
        0x05
    } else {
        0xc3
    }
}

/// The code of all syscall stubs, one after the other.
pub fn syscall_stub_code() -> (r: Vec<u8>)
    ensures
        r@.len() == SYSCALL_SIZE * SYSCALL_MAX,
        forall|i: int| 0 <= i < r@.len() ==> #[trigger] r@[i] == stub_byte(i % 4),
{
    let code: [u8; 4] = [0x90, 0x0f, 0x05, 0xc3];
    let mut codes: Vec<u8> = Vec::new();
    let mut n: u32 = 0;
    while n < SYSCALL_MAX
        invariant
            0 <= n <= SYSCALL_MAX,
            code@ == seq![0x90u8, 0x0fu8, 0x05u8, 0xc3u8],
            codes@.len() == 4 * n,
            forall|i: int| 0 <= i < codes@.len() ==> #[trigger] codes@[i] == stub_byte(i % 4),
        decreases SYSCALL_MAX - n,
    {
        let mut j: usize = 0;
        while j < 4
            invariant
                0 <= j <= 4,
                0 <= n < SYSCALL_MAX,
                code@ == seq![0x90u8, 0x0fu8, 0x05u8, 0xc3u8],
                codes@.len() == 4 * n + j,
                forall|i: int| 0 <= i < codes@.len() ==> #[trigger] codes@[i] == stub_byte(i % 4),
            decreases 4 - j,
        {
            codes.push(code[j]);
            j = j + 1;
        }
        n = n + 1;
    }
    codes
}

/// The data words, in order: the stack-protector cookie, the address of
/// word 0, and then words 2 to 11, each holding its own address.
pub fn data_table() -> (r: Vec<u64>)
    ensures
        r@.len() == 12,
        r@[0] == STACK_CHK_GUARD,
        r@[1] == data_word_address(0),
        forall|k: int| 2 <= k < 12 ==> #[trigger] r@[k] == data_word_address(k as u32),
{
    let mut data: Vec<u64> = Vec::new();
    data.push(STACK_CHK_GUARD);
    data.push(data_offset(0));
    let mut i: u32 = 0;
    while i < 10
        invariant
            0 <= i <= 10,
            data@.len() == i + 2,
            data@[0] == STACK_CHK_GUARD,
            data@[1] == data_word_address(0),
            forall|k: int| 2 <= k < i + 2 ==> #[trigger] data@[k] == data_word_address(k as u32),
        decreases 10 - i,
    {
        data.push(data_offset(i + 2));
        i = i + 1;
    }
    data
}

/// The data words as stored in emulator memory: each word little-endian,
/// word `k` at byte `8 * k`.
pub fn data_table_bytes() -> (r: Vec<u8>)
    ensures
        r@.len() == 96,
        forall|k: int|
            0 <= k < 12 ==> #[trigger] r@.subrange(8 * k, 8 * k + 8) == le_bytes(data_table_word(k)),
{
    let data = data_table();
    let mut out: Vec<u8> = Vec::new();
    let mut k: usize = 0;
    while k < data.len()
        invariant
            0 <= k <= 12,
            data@.len() == 12,
            forall|m: int| 0 <= m < 12 ==> #[trigger] data@[m] == data_table_word(m),
            out@.len() == 8 * k,
            forall|m: int|
                0 <= m < k ==> #[trigger] out@.subrange(8 * m, 8 * m + 8) == le_bytes(
                    data_table_word(m),
                ),
        decreases 12 - k,
    {
        let w = u64_to_le(data[k]);
        let ghost before = out@;
        let mut j: usize = 0;
        while j < 8
            invariant
                0 <= j <= 8,
                0 <= k < 12,
                w@ == le_bytes(data@[k as int]),
                out@ == before + w@.take(j as int),
                before.len() == 8 * k,
            decreases 8 - j,
        {
            out.push(w[j]);
            j = j + 1;
            assert(out@ =~= before + w@.take(j as int));
        }
        assert(w@.take(8) =~= w@);
        assert forall|m: int| 0 <= m < k + 1 implies #[trigger] out@.subrange(8 * m, 8 * m + 8)
            == le_bytes(data_table_word(m)) by {
            if m < k {
                assert(out@.subrange(8 * m, 8 * m + 8) =~= before.subrange(8 * m, 8 * m + 8));
            } else {
                assert(out@.subrange(8 * m, 8 * m + 8) =~= w@);
            }
        }
        k = k + 1;
    }
    out
}

/// Word `k` of the data table.
pub open spec fn data_table_word(k: int) -> u64 {
    if k == 0 {
        STACK_CHK_GUARD
    } else if k == 1 {
        data_word_address(0)
    } else {
        data_word_address(k as u32)
    }
}

/// How `pthread_once` runs its routine: it pushes the return address and
/// jumps to the routine.
pub struct PushedCall {
    pub rsp: u64,
    pub return_address: u64,
    pub target: u64,
}

/// The call that `pthread_once` makes from `rip` with stack pointer `rsp`
/// to `init_routine`: the stack grows by one word that holds `rip`.
pub fn pthread_once_call(rip: u64, rsp: u64, init_routine: u64) -> (r: PushedCall)
    requires
        rsp >= 8,
    ensures
        r.rsp == rsp - 8,
        r.return_address == rip,
        r.target == init_routine,
{
    PushedCall { rsp: rsp - 8, return_address: rip, target: init_routine }
}

} // verus!
