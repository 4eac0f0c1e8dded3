//! The stand-ins for system functions when the image runs natively: which
//! stand-in each import is bound to, the values the stand-ins hand out as
//! Core Foundation objects, and the answers they give from the machine
//! identity.

use vstd::prelude::*;
use crate::text::str_eq;
use crate::emu::{c_str_prefix, is_c_str_prefix, lemma_c_str_prefix_unique, lemma_encode_utf8_push, lemma_encode_has_no_zero};
use crate::hexcodec::{all_hex_digits, hex_bytes, hex_decode, hex_text, hex_ascii, lemma_hex_roundtrip};
use crate::patch::emulator::{import_handler, SyscallHandler};
use crate::mac_serial::{MacSerial, MacSerialView, hex_field, keyed_serial, normalized, nul_terminated};
use vstd::string::StringSliceAdditionalSpecFns;
use vstd::utf8::{encode_scalar, encode_utf8, is_ascii_chars, is_ascii_chars_encode_utf8};

verus! {

/// The stand-in, or marker word, that a native import is bound to.
#[derive(Clone, Copy, Debug, PartialEq, Eq, Structural)]
pub enum NativeHook {
    /// `malloc`, with a trace line.
    Malloc,
    /// `free`, with a trace line.
    Free,
    /// The null address.
    Null,
    /// The address of the stack-protector cookie.
    StackChkGuard,
    /// A stack-check failure that is only reported.
    StackChkFail,
    /// `memcpy`.
    Memcpy,
    /// `memset`.
    Memset,
    /// `time`.
    Time,
    /// Runs the routine at once.
    PthreadOnce,
    /// The C library's `rand`.
    Arc4random,
    /// Answers `kern.osversion` and `kern.osrevision` from the identity.
    Sysctlbyname,
    /// Releases nothing.
    Release,
    /// Returns 1.
    Skip1,
    /// The address of the null marker word.
    KNull,
    /// The address of the allocator marker word.
    KAlloc,
    /// Wraps a C string as a string value.
    CreateWithCStringNoCopy,
    /// Looks up a registry property of the identity.
    CreateCFProperty,
    /// The type of a value: string or data.
    GetTypeId,
    /// The string type.
    StringTypeId,
    /// The length of a value.
    GetLength,
    /// Returns the length it is given.
    MaximumSizeForEncoding,
    /// Copies a value's text, NUL-terminated.
    GetCString,
    /// The data type.
    DataTypeId,
    /// Copies a range of a data value's bytes.
    GetBytes,
    /// Wraps a service name as a string value.
    ServiceMatching,
    /// Returns 0.
    Skip0,
    /// Hands out one matching service.
    GetMatchingServices,
    /// Rewinds the interface iterator.
    IteratorReset,
    /// Steps the interface iterator.
    IteratorNext,
    /// The address of the true marker word.
    KTrue,
    /// The address of the false marker word.
    KFalse,
    /// The address of the constant-string class tag.
    CfStrTag,
    /// A stand-in that only reports the call.
    NotImplement,
}

/// The stand-in bound to the import `name`.
pub open spec fn native_hook(name: Seq<char>) -> NativeHook {
    if name == "_malloc"@ {
        NativeHook::Malloc
    } else if name == "_free"@ {
        NativeHook::Free
    } else if name == "____chkstk_darwin"@ {
        NativeHook::Null
    } else if name == "___stack_chk_guard"@ {
        NativeHook::StackChkGuard
    } else if name == "_stack_chk_fail"@ {
        NativeHook::StackChkFail
    } else if name == "___memcpy_chk"@ {
        NativeHook::Memcpy
    } else if name == "___memset_chk"@ {
        NativeHook::Memset
    } else if name == "_time"@ {
        NativeHook::Time
    } else if name == "_pthread_once"@ {
        NativeHook::PthreadOnce
    } else if name == "_arc4random"@ {
        NativeHook::Arc4random
    } else if name == "_sysctlbyname"@ {
        NativeHook::Sysctlbyname
    } else if name == "_IOObjectRelease"@ {
        NativeHook::Release
    } else if name == "_IORegistryEntryFromPath"@ {
        NativeHook::Skip1
    } else if name == "_kIOMasterPortDefault"@ {
        NativeHook::KNull
    } else if name == "_kCFAllocatorDefault"@ {
        NativeHook::KAlloc
    } else if name == "_kCFAllocatorNull"@ {
        NativeHook::KNull
    } else if name == "_CFStringCreateWithCStringNoCopy"@ {
        NativeHook::CreateWithCStringNoCopy
    } else if name == "_IORegistryEntryCreateCFProperty"@ {
        NativeHook::CreateCFProperty
    } else if name == "_CFGetTypeID"@ {
        NativeHook::GetTypeId
    } else if name == "_CFStringGetTypeID"@ {
        NativeHook::StringTypeId
    } else if name == "_CFStringGetLength"@ {
        NativeHook::GetLength
    } else if name == "_CFStringGetMaximumSizeForEncoding"@ {
        NativeHook::MaximumSizeForEncoding
    } else if name == "_CFStringGetCString"@ {
        NativeHook::GetCString
    } else if name == "_CFDataGetTypeID"@ {
        NativeHook::DataTypeId
    } else if name == "_CFDataGetLength"@ {
        NativeHook::GetLength
    } else if name == "_CFDataGetBytes"@ {
        NativeHook::GetBytes
    } else if name == "_CFRelease"@ {
        NativeHook::Release
    } else if name == "_IOServiceMatching"@ {
        NativeHook::ServiceMatching
    } else if name == "_CFDictionaryCreateMutable"@ {
        NativeHook::Skip1
    } else if name == "_CFDictionarySetValue"@ {
        NativeHook::Skip0
    } else if name == "_IOServiceGetMatchingServices"@ {
        NativeHook::GetMatchingServices
    } else if name == "_IOIteratorReset"@ {
        NativeHook::IteratorReset
    } else if name == "_IOIteratorNext"@ {
        NativeHook::IteratorNext
    } else if name == "_IORegistryEntryGetParentEntry"@ {
        NativeHook::Skip0
    } else if name == "_CFStringGetSystemEncoding"@ {
        NativeHook::Skip1
    } else if name == "_kCFTypeDictionaryKeyCallBacks"@ {
        NativeHook::KNull
    } else if name == "_kCFTypeDictionaryValueCallBacks"@ {
        NativeHook::KNull
    } else if name == "_kCFBooleanTrue"@ {
        NativeHook::KTrue
    } else if name == "_kCFBooleanFalse"@ {
        NativeHook::KFalse
    } else if name == "___kCFBooleanFalse"@ {
        NativeHook::KFalse
    } else if name == "___kCFBooleanTrue"@ {
        NativeHook::KTrue
    } else if name == "___CFConstantStringClassReference"@ {
        NativeHook::CfStrTag
    } else {
        NativeHook::NotImplement
    }
}

/// The emulated handler `h` and the native stand-in `n` do the same job.
/// Imports that only need a fixed answer (or none) may be answered
/// differently in the two modes.
pub open spec fn same_job(h: SyscallHandler, n: NativeHook) -> bool {
    match h {
        SyscallHandler::Malloc => n == NativeHook::Malloc,
        SyscallHandler::Free => n == NativeHook::Free,
        SyscallHandler::Memcpy => n == NativeHook::Memcpy,
        SyscallHandler::Memset => n == NativeHook::Memset,
        SyscallHandler::Time => n == NativeHook::Time,
        SyscallHandler::PthreadOnce => n == NativeHook::PthreadOnce,
        SyscallHandler::Arc4random => n == NativeHook::Arc4random,
        SyscallHandler::Sysctlbyname => n == NativeHook::Sysctlbyname,
        SyscallHandler::Release => n == NativeHook::Release,
        SyscallHandler::CreateWithCStr => n == NativeHook::CreateWithCStringNoCopy,
        SyscallHandler::IoReg => n == NativeHook::CreateCFProperty,
        SyscallHandler::CfId => n == NativeHook::GetTypeId,
        SyscallHandler::CfStrId => n == NativeHook::StringTypeId,
        SyscallHandler::CfLen => n == NativeHook::GetLength,
        SyscallHandler::CfMaxLen => n == NativeHook::MaximumSizeForEncoding,
        SyscallHandler::CfGetCStr => n == NativeHook::GetCString,
        SyscallHandler::CfDataId => n == NativeHook::DataTypeId,
        SyscallHandler::CfGetBytes => n == NativeHook::GetBytes,
        SyscallHandler::EthReset => n == NativeHook::IteratorReset,
        SyscallHandler::EthNext => n == NativeHook::IteratorNext,
        _ => true,
    }
}

/// Whether the image runs natively or in the emulator, each function
/// import is bound to something that does the same job: `___memcpy_chk`
/// copies in both, `_CFGetTypeID` answers the object's kind in both, and
/// so on.
pub proof fn lemma_native_and_emulated_bindings_agree(name: Seq<char>)
    ensures
        same_job(import_handler(name), native_hook(name)),
{
    // The names are told apart by their lengths, or by a character where
    // two lengths agree.
    reveal_strlit("_CFDataGetBytes");
    reveal_strlit("_CFDataGetLength");
    reveal_strlit("_CFDataGetTypeID");
    reveal_strlit("_CFDictionaryCreateMutable");
    reveal_strlit("_CFDictionarySetValue");
    reveal_strlit("_CFGetTypeID");
    reveal_strlit("_CFRelease");
    reveal_strlit("_CFStringCreateWithCStringNoCopy");
    reveal_strlit("_CFStringGetCString");
    reveal_strlit("_CFStringGetLength");
    reveal_strlit("_CFStringGetMaximumSizeForEncoding");
    reveal_strlit("_CFStringGetSystemEncoding");
    reveal_strlit("_CFStringGetTypeID");
    reveal_strlit("_IOIteratorNext");
    reveal_strlit("_IOIteratorReset");
    reveal_strlit("_IOObjectRelease");
    reveal_strlit("_IORegistryEntryCreateCFProperty");
    reveal_strlit("_IORegistryEntryFromPath");
    reveal_strlit("_IORegistryEntryGetParentEntry");
    reveal_strlit("_IOServiceGetMatchingServices");
    reveal_strlit("_IOServiceMatching");
    reveal_strlit("___CFConstantStringClassReference");
    reveal_strlit("____chkstk_darwin");
    reveal_strlit("___kCFBooleanFalse");
    reveal_strlit("___kCFBooleanTrue");
    reveal_strlit("___memcpy_chk");
    reveal_strlit("___memset_chk");
    reveal_strlit("___stack_chk_guard");
    reveal_strlit("_arc4random");
    reveal_strlit("_free");
    reveal_strlit("_kCFAllocatorDefault");
    reveal_strlit("_kCFAllocatorNull");
    reveal_strlit("_kCFBooleanFalse");
    reveal_strlit("_kCFBooleanTrue");
    reveal_strlit("_kCFTypeDictionaryKeyCallBacks");
    reveal_strlit("_kCFTypeDictionaryValueCallBacks");
    reveal_strlit("_kIOMasterPortDefault");
    reveal_strlit("_malloc");
    reveal_strlit("_pthread_once");
    reveal_strlit("_stack_chk_fail");
    reveal_strlit("_sysctlbyname");
    reveal_strlit("_time");
    assert("_CFDataGetBytes"@.len() == 15);
    assert("_CFDataGetLength"@.len() == 16);
    assert("_CFDataGetTypeID"@.len() == 16);
    assert("_CFDictionaryCreateMutable"@.len() == 26);
    assert("_CFDictionarySetValue"@.len() == 21);
    assert("_CFGetTypeID"@.len() == 12);
    assert("_CFRelease"@.len() == 10);
    assert("_CFStringCreateWithCStringNoCopy"@.len() == 32);
    assert("_CFStringGetCString"@.len() == 19);
    assert("_CFStringGetLength"@.len() == 18);
    assert("_CFStringGetMaximumSizeForEncoding"@.len() == 34);
    assert("_CFStringGetSystemEncoding"@.len() == 26);
    assert("_CFStringGetTypeID"@.len() == 18);
    assert("_IOIteratorNext"@.len() == 15);
    assert("_IOIteratorReset"@.len() == 16);
    assert("_IOObjectRelease"@.len() == 16);
    assert("_IORegistryEntryCreateCFProperty"@.len() == 32);
    assert("_IORegistryEntryFromPath"@.len() == 24);
    assert("_IORegistryEntryGetParentEntry"@.len() == 30);
    assert("_IOServiceGetMatchingServices"@.len() == 29);
    assert("_IOServiceMatching"@.len() == 18);
    assert("___CFConstantStringClassReference"@.len() == 33);
    assert("____chkstk_darwin"@.len() == 17);
    assert("___kCFBooleanFalse"@.len() == 18);
    assert("___kCFBooleanTrue"@.len() == 17);
    assert("___memcpy_chk"@.len() == 13);
    assert("___memset_chk"@.len() == 13);
    assert("___stack_chk_guard"@.len() == 18);
    assert("_arc4random"@.len() == 11);
    assert("_free"@.len() == 5);
    assert("_kCFAllocatorDefault"@.len() == 20);
    assert("_kCFAllocatorNull"@.len() == 17);
    assert("_kCFBooleanFalse"@.len() == 16);
    assert("_kCFBooleanTrue"@.len() == 15);
    assert("_kCFTypeDictionaryKeyCallBacks"@.len() == 30);
    assert("_kCFTypeDictionaryValueCallBacks"@.len() == 32);
    assert("_kIOMasterPortDefault"@.len() == 21);
    assert("_malloc"@.len() == 7);
    assert("_pthread_once"@.len() == 13);
    assert("_stack_chk_fail"@.len() == 15);
    assert("_sysctlbyname"@.len() == 13);
    assert("_time"@.len() == 5);
    assert("___memset_chk"@[6] != "___memcpy_chk"@[6]);
    assert("_time"@[1] != "_free"@[1]);
    assert("_pthread_once"@[1] != "___memcpy_chk"@[1]);
    assert("_pthread_once"@[1] != "___memset_chk"@[1]);
    assert("_sysctlbyname"@[1] != "___memcpy_chk"@[1]);
    assert("_sysctlbyname"@[1] != "___memset_chk"@[1]);
    assert("_sysctlbyname"@[1] != "_pthread_once"@[1]);
    assert("_IORegistryEntryCreateCFProperty"@[1] != "_CFStringCreateWithCStringNoCopy"@[1]);
    assert("_CFStringGetTypeID"@[1] != "___stack_chk_guard"@[1]);
    assert("_CFStringGetLength"@[12] != "_CFStringGetTypeID"@[12]);
    assert("_CFStringGetLength"@[1] != "___stack_chk_guard"@[1]);
    assert("_CFDataGetTypeID"@[1] != "_IOObjectRelease"@[1]);
    assert("_CFDataGetLength"@[1] != "_IOObjectRelease"@[1]);
    assert("_CFDataGetLength"@[10] != "_CFDataGetTypeID"@[10]);
    assert("_CFDataGetBytes"@[1] != "_stack_chk_fail"@[1]);
    assert("_IOServiceMatching"@[1] != "_CFStringGetTypeID"@[1]);
    assert("_IOServiceMatching"@[1] != "_CFStringGetLength"@[1]);
    assert("_IOServiceMatching"@[1] != "___stack_chk_guard"@[1]);
    assert("_CFDictionarySetValue"@[1] != "_kIOMasterPortDefault"@[1]);
    assert("_IOIteratorReset"@[3] != "_IOObjectRelease"@[3]);
    assert("_IOIteratorReset"@[1] != "_CFDataGetTypeID"@[1]);
    assert("_IOIteratorReset"@[1] != "_CFDataGetLength"@[1]);
    assert("_IOIteratorNext"@[1] != "_CFDataGetBytes"@[1]);
    assert("_IOIteratorNext"@[1] != "_stack_chk_fail"@[1]);
    assert("_CFStringGetSystemEncoding"@[3] != "_CFDictionaryCreateMutable"@[3]);
}

/// The stand-in that the native import `name` is bound to.
pub fn register_fn(_dylib: &str, name: &str) -> (r: NativeHook)
    ensures
        r == native_hook(name@),
{
    if str_eq(name, "_malloc") {
        NativeHook::Malloc
    } else if str_eq(name, "_free") {
        NativeHook::Free
    } else if str_eq(name, "____chkstk_darwin") {
        NativeHook::Null
    } else if str_eq(name, "___stack_chk_guard") {
        NativeHook::StackChkGuard
    } else if str_eq(name, "_stack_chk_fail") {
        NativeHook::StackChkFail
    } else if str_eq(name, "___memcpy_chk") {
        NativeHook::Memcpy
    } else if str_eq(name, "___memset_chk") {
        NativeHook::Memset
    } else if str_eq(name, "_time") {
        NativeHook::Time
    } else if str_eq(name, "_pthread_once") {
        NativeHook::PthreadOnce
    } else if str_eq(name, "_arc4random") {
        NativeHook::Arc4random
    } else if str_eq(name, "_sysctlbyname") {
        NativeHook::Sysctlbyname
    } else if str_eq(name, "_IOObjectRelease") {
        NativeHook::Release
    } else if str_eq(name, "_IORegistryEntryFromPath") {
        NativeHook::Skip1
    } else if str_eq(name, "_kIOMasterPortDefault") {
        NativeHook::KNull
    } else if str_eq(name, "_kCFAllocatorDefault") {
        NativeHook::KAlloc
    } else if str_eq(name, "_kCFAllocatorNull") {
        NativeHook::KNull
    } else if str_eq(name, "_CFStringCreateWithCStringNoCopy") {
        NativeHook::CreateWithCStringNoCopy
    } else if str_eq(name, "_IORegistryEntryCreateCFProperty") {
        NativeHook::CreateCFProperty
    } else if str_eq(name, "_CFGetTypeID") {
        NativeHook::GetTypeId
    } else if str_eq(name, "_CFStringGetTypeID") {
        NativeHook::StringTypeId
    } else if str_eq(name, "_CFStringGetLength") {
        NativeHook::GetLength
    } else if str_eq(name, "_CFStringGetMaximumSizeForEncoding") {
        NativeHook::MaximumSizeForEncoding
    } else if str_eq(name, "_CFStringGetCString") {
        NativeHook::GetCString
    } else if str_eq(name, "_CFDataGetTypeID") {
        NativeHook::DataTypeId
    } else if str_eq(name, "_CFDataGetLength") {
        NativeHook::GetLength
    } else if str_eq(name, "_CFDataGetBytes") {
        NativeHook::GetBytes
    } else if str_eq(name, "_CFRelease") {
        NativeHook::Release
    } else if str_eq(name, "_IOServiceMatching") {
        NativeHook::ServiceMatching
    } else if str_eq(name, "_CFDictionaryCreateMutable") {
        NativeHook::Skip1
    } else if str_eq(name, "_CFDictionarySetValue") {
        NativeHook::Skip0
    } else if str_eq(name, "_IOServiceGetMatchingServices") {
        NativeHook::GetMatchingServices
    } else if str_eq(name, "_IOIteratorReset") {
        NativeHook::IteratorReset
    } else if str_eq(name, "_IOIteratorNext") {
        NativeHook::IteratorNext
    } else if str_eq(name, "_IORegistryEntryGetParentEntry") {
        NativeHook::Skip0
    } else if str_eq(name, "_CFStringGetSystemEncoding") {
        NativeHook::Skip1
    } else if str_eq(name, "_kCFTypeDictionaryKeyCallBacks") {
        NativeHook::KNull
    } else if str_eq(name, "_kCFTypeDictionaryValueCallBacks") {
        NativeHook::KNull
    } else if str_eq(name, "_kCFBooleanTrue") {
        NativeHook::KTrue
    } else if str_eq(name, "_kCFBooleanFalse") {
        NativeHook::KFalse
    } else if str_eq(name, "___kCFBooleanFalse") {
        NativeHook::KFalse
    } else if str_eq(name, "___kCFBooleanTrue") {
        NativeHook::KTrue
    } else if str_eq(name, "___CFConstantStringClassReference") {
        NativeHook::CfStrTag
    } else {
        NativeHook::NotImplement
    }
}

/// Tag word of a string value made by a stand-in.
pub const PATCH_TAG: u64 = 0x2cacacac;
/// Tag word of a data value made by a stand-in (hex text).
pub const PATCH_TAG2: u64 = 0xacacacac;
/// Class tag of a constant string compiled into the image.
pub const CFSTR_TAG: u64 = 0xabababababababab;
/// Type identifier of string values.
pub const CF_TYPE_STRING: u32 = 1;
/// Type identifier of data values.
pub const CF_TYPE_DATA: u32 = 2;

/// A value handed to the image as a Core Foundation object: its tag word
/// and the bytes of the C string it refers to (up to its NUL). Data values
/// hold hex text.
#[allow(non_camel_case_types)]
pub struct patch_data {
    pub tag: u64,
    pub data: Vec<u8>,
}

impl View for patch_data {
    type V = (u64, Seq<u8>);

    open spec fn view(&self) -> (u64, Seq<u8>) {
        (self.tag, self.data@)
    }
}

/// A value with tag `tag` was made by a stand-in.
pub open spec fn tag_is_patch(tag: u64) -> bool {
    tag & 0x7fffffff == PATCH_TAG
}

/// A value with tag `tag` is text rather than data.
pub open spec fn tag_is_str(tag: u64) -> bool {
    tag != PATCH_TAG2
}

/// The length the image is told for a value: the text length of a string,
/// half the hex length of data; none for a value of unknown origin.
pub open spec fn value_len(v: (u64, Seq<u8>)) -> Option<int> {
    if tag_is_patch(v.0) {
        if tag_is_str(v.0) {
            Some(v.1.len() as int)
        } else {
            Some((v.1.len() / 2) as int)
        }
    } else if v.0 == CFSTR_TAG {
        Some(v.1.len() as int)
    } else {
        None
    }
}

impl patch_data {
    /// A string value for the C string `s`.
    pub fn new_str(s: Vec<u8>) -> (r: patch_data)
        ensures
            r@ == (PATCH_TAG, s@),
            tag_is_patch(r.tag),
            tag_is_str(r.tag),
    {
        proof {
            assert(PATCH_TAG & 0x7fffffff == PATCH_TAG) by (bit_vector);
        }
        patch_data { tag: PATCH_TAG, data: s }
    }

    /// A data value for the hex text `s`.
    pub fn new_data(s: Vec<u8>) -> (r: patch_data)
        ensures
            r@ == (PATCH_TAG2, s@),
            tag_is_patch(r.tag),
            !tag_is_str(r.tag),
    {
        proof {
            assert(PATCH_TAG2 & 0x7fffffff == PATCH_TAG) by (bit_vector);
        }
        patch_data { tag: PATCH_TAG2, data: s }
    }

    /// A constant string of the image, whose characters are `s`.
    pub fn cf_constant(s: Vec<u8>) -> (r: patch_data)
        ensures
            r@ == (CFSTR_TAG, s@),
            !tag_is_patch(r.tag),
            tag_is_str(r.tag),
    {
        proof {
            assert(CFSTR_TAG & 0x7fffffff != PATCH_TAG) by (bit_vector);
        }
        patch_data { tag: CFSTR_TAG, data: s }
    }

    /// The value was made by a stand-in.
    pub fn is_patch(&self) -> (r: bool)
        ensures
            r == tag_is_patch(self.tag),
    {
        self.tag & 0x7fffffff == PATCH_TAG
    }

    /// The value is text rather than data.
    pub fn is_str(&self) -> (r: bool)
        ensures
            r == tag_is_str(self.tag),
    {
        self.tag != PATCH_TAG2
    }

    /// The characters of a constant string of the image; none for a value
    /// without the constant-string tag.
    pub fn get_from_cf(&self) -> (r: Option<&Vec<u8>>)
        ensures
            r is Some <==> self.tag == CFSTR_TAG,
            r matches Some(d) ==> d@ == self.data@,
    {
        if self.tag != CFSTR_TAG {
            None
        } else {
            Some(&self.data)
        }
    }

    /// The bytes behind the value: its own for a stand-in value, the
    /// constant's characters otherwise; none for a value of unknown origin.
    pub fn get_ptr(&self) -> (r: Option<&Vec<u8>>)
        ensures
            r is Some <==> (tag_is_patch(self.tag) || self.tag == CFSTR_TAG),
            r matches Some(d) ==> d@ == self.data@,
    {
        if self.is_patch() {
            Some(&self.data)
        } else {
            self.get_from_cf()
        }
    }

    /// The length the image is told for the value.
    pub fn get_len(&self) -> (r: Option<usize>)
        ensures
            r is Some <==> value_len(self@) is Some,
            r matches Some(n) ==> n == value_len(self@)->0,
    {
        if self.is_patch() {
            let len = self.data.len();
            if self.is_str() {
                Some(len)
            } else {
                Some(len / 2)
            }
        } else {
            match self.get_from_cf() {
                Some(d) => Some(d.len()),
                None => None,
            }
        }
    }
}

/// A range of a data value: first byte and count.
#[derive(Clone, Copy, Debug, PartialEq, Eq, Structural)]
pub struct CFRange {
    pub location: isize,
    pub length: isize,
}

/// `CFGetTypeID`: the string type for text, the data type for data.
pub fn cf_get_type_id(cf: &patch_data) -> (r: u32)
    ensures
        r == if tag_is_str(cf.tag) { CF_TYPE_STRING } else { CF_TYPE_DATA },
{
    if cf.is_str() {
        CF_TYPE_STRING
    } else {
        CF_TYPE_DATA
    }
}

/// `CFStringGetLength` and `CFDataGetLength`: the length, cut to 32 bits.
pub fn cf_get_length(cf: &patch_data) -> (r: Option<u32>)
    ensures
        r is Some <==> value_len(cf@) is Some,
        r matches Some(n) ==> n == (value_len(cf@)->0 as u32),
{
    match cf.get_len() {
        Some(n) => Some(n as u32),
        None => None,
    }
}

/// `CFStringGetCString`: the first `len` bytes behind the value, then a NUL.
pub fn cf_string_get_cstring(cf: &patch_data) -> (r: Option<Vec<u8>>)
    ensures
        r is Some <==> value_len(cf@) is Some,
        r matches Some(v) ==> v@ == cf.data@.take(value_len(cf@)->0).push(0u8),
{
    let len = match cf.get_len() {
        Some(n) => n,
        None => return None,
    };
    let src = match cf.get_ptr() {
        Some(d) => d,
        None => return None,
    };
    let mut out: Vec<u8> = Vec::new();
    let mut i: usize = 0;
    while i < len
        invariant
            i <= len <= src@.len(),
            src@ == cf.data@,
            out@ == src@.take(i as int),
        decreases len - i,
    {
        out.push(src[i]);
        i = i + 1;
        assert(out@ =~= src@.take(i as int));
    }
    out.push(0);
    Some(out)
}

/// The bytes `[location, location + length)` of `b`, if the range lies in it.
pub open spec fn range_of(b: Seq<u8>, range: CFRange) -> Option<Seq<u8>> {
    if 0 <= range.location && 0 <= range.length && range.location + range.length <= b.len() {
        Some(b.subrange(range.location as int, range.location + range.length))
    } else {
        None
    }
}

/// A range inside `b` gives its `length` bytes, byte `i` being byte
/// `location + i` of `b`; a range with a negative part or reaching past the
/// end of `b` gives nothing.
pub proof fn lemma_range_of_is_the_requested_bytes(b: Seq<u8>, range: CFRange)
    ensures
        0 <= range.location && 0 <= range.length && range.location + range.length <= b.len() ==> (
            range_of(b, range) matches Some(v) && v.len() == range.length
            && forall|i: int| 0 <= i < range.length ==> #[trigger] v[i] == b[range.location + i]),
        !(0 <= range.location && 0 <= range.length && range.location + range.length <= b.len())
            ==> range_of(b, range) is None,
{
}

/// `CFDataGetBytes`: the bytes in `range` of what the value's hex text
/// stands for; none when the text is no hex text or the range is outside it.
pub fn cf_data_get_bytes(cf: &patch_data, range: CFRange) -> (r: Option<Vec<u8>>)
    ensures
        r is Some <==> ((tag_is_patch(cf.tag) || cf.tag == CFSTR_TAG) && cf.data@.len() % 2 == 0
            && all_hex_digits(cf.data@) && range_of(hex_bytes(cf.data@), range) is Some),
        r matches Some(v) ==> Some(v@) == range_of(hex_bytes(cf.data@), range),
{
    let text = match cf.get_ptr() {
        Some(d) => d,
        None => return None,
    };
    let d = match hex_decode(text.as_slice()) {
        Ok(d) => d,
        Err(_) => return None,
    };
    if range.location < 0 || range.length < 0 {
        return None;
    }
    let lo = range.location as usize;
    let n = range.length as usize;
    if lo > d.len() || n > d.len() - lo {
        return None;
    }
    let dl = d.len();
    let mut out: Vec<u8> = Vec::new();
    let mut i: usize = 0;
    while i < n
        invariant
            i <= n,
            dl == d@.len(),
            lo + n <= d@.len(),
            out@ == d@.subrange(lo as int, lo + i),
        decreases n - i,
    {
        assert(lo + i < d@.len());
        out.push(d[lo + i]);
        i = i + 1;
        assert(out@ =~= d@.subrange(lo as int, lo + i));
    }
    Some(out)
}

/// The registry property `name` of the identity `s`: whether it is handed
/// out as text (else as hex data), and the field it comes from.
pub open spec fn native_property(s: MacSerialView, name: Seq<char>) -> Option<(bool, Seq<char>)> {
    if name == "board-id"@ {
        Some((false, s.board_id))
    } else if name == "product-name"@ {
        Some((false, s.product_name))
    } else if name == "boot-uuid"@ {
        Some((false, s.boot_uuid))
    } else if name == "IOPlatformSerialNumber"@ {
        Some((true, s.serial_number))
    } else if name == "IOPlatformUUID"@ {
        Some((true, s.uuid))
    } else if name == "Gq3489ugfi"@ {
        Some((false, s.gq_serial))
    } else if name == "Fyp98tpgj"@ {
        Some((false, s.fy_serial))
    } else if name == "kbjfrfpoJU"@ {
        Some((false, s.kb_serial))
    } else if name == "IOMACAddress"@ {
        Some((false, s.mac_address))
    } else if name == "4D1EDE05-38C7-4A6A-9CC6-4BCCA8B38C14:ROM"@ {
        Some((false, s.rom))
    } else if name == "4D1EDE05-38C7-4A6A-9CC6-4BCCA8B38C14:MLB"@ {
        Some((false, s.mlb))
    } else if name == "oycqAZloTNDm"@ {
        Some((false, s.oy_serial))
    } else if name == "abKPld1EcMni"@ {
        Some((false, s.ab_serial))
    } else {
        None
    }
}

/// Each keyed serial's configuration key names a registry property, handed
/// out as data from that serial.
proof fn lemma_keyed_property_names()
    ensures
        forall|s: MacSerialView| #[trigger] native_property(s, "Gq3489ugfi"@) == Some((false, s.gq_serial)),
        forall|s: MacSerialView| #[trigger] native_property(s, "Fyp98tpgj"@) == Some((false, s.fy_serial)),
        forall|s: MacSerialView| #[trigger] native_property(s, "kbjfrfpoJU"@) == Some((false, s.kb_serial)),
        forall|s: MacSerialView| #[trigger] native_property(s, "oycqAZloTNDm"@) == Some((false, s.oy_serial)),
        forall|s: MacSerialView| #[trigger] native_property(s, "abKPld1EcMni"@) == Some((false, s.ab_serial)),
{
    // The names are told apart by their lengths, or by a character where
    // two lengths agree.
    reveal_strlit("board-id");
    reveal_strlit("product-name");
    reveal_strlit("boot-uuid");
    reveal_strlit("IOPlatformSerialNumber");
    reveal_strlit("IOPlatformUUID");
    reveal_strlit("Gq3489ugfi");
    reveal_strlit("Fyp98tpgj");
    reveal_strlit("kbjfrfpoJU");
    reveal_strlit("IOMACAddress");
    reveal_strlit("4D1EDE05-38C7-4A6A-9CC6-4BCCA8B38C14:ROM");
    reveal_strlit("4D1EDE05-38C7-4A6A-9CC6-4BCCA8B38C14:MLB");
    reveal_strlit("oycqAZloTNDm");
    reveal_strlit("abKPld1EcMni");
    assert("board-id"@.len() == 8);
    assert("product-name"@.len() == 12);
    assert("boot-uuid"@.len() == 9);
    assert("IOPlatformSerialNumber"@.len() == 22);
    assert("IOPlatformUUID"@.len() == 14);
    assert("Gq3489ugfi"@.len() == 10);
    assert("Fyp98tpgj"@.len() == 9);
    assert("kbjfrfpoJU"@.len() == 10);
    assert("IOMACAddress"@.len() == 12);
    assert("4D1EDE05-38C7-4A6A-9CC6-4BCCA8B38C14:ROM"@.len() == 40);
    assert("4D1EDE05-38C7-4A6A-9CC6-4BCCA8B38C14:MLB"@.len() == 40);
    assert("oycqAZloTNDm"@.len() == 12);
    assert("abKPld1EcMni"@.len() == 12);
    assert("Fyp98tpgj"@[0] != "boot-uuid"@[0]);
    assert("kbjfrfpoJU"@[0] != "Gq3489ugfi"@[0]);
    assert("oycqAZloTNDm"@[0] != "product-name"@[0]);
    assert("oycqAZloTNDm"@[0] != "IOMACAddress"@[0]);
    assert("abKPld1EcMni"@[0] != "product-name"@[0]);
    assert("abKPld1EcMni"@[0] != "IOMACAddress"@[0]);
    assert("abKPld1EcMni"@[0] != "oycqAZloTNDm"@[0]);
}

/// The registry property named by a keyed serial's configuration key is
/// handed out, as data, from the serial read under that key; so two such
/// properties differ whenever their serials differ.
pub proof fn lemma_keyed_properties_come_from_their_serials(s: MacSerialView, k1: Seq<char>, k2: Seq<char>)
    requires
        keyed_serial(s, k1) is Some,
        keyed_serial(s, k2) is Some,
    ensures
        native_property(s, k1) == Some((false, keyed_serial(s, k1)->0)),
        keyed_serial(s, k1) != keyed_serial(s, k2) ==> native_property(s, k1) != native_property(s, k2),
{
    lemma_keyed_property_names();
    assert(native_property(s, "Gq3489ugfi"@) == Some((false, s.gq_serial)));
    assert(native_property(s, "Fyp98tpgj"@) == Some((false, s.fy_serial)));
    assert(native_property(s, "kbjfrfpoJU"@) == Some((false, s.kb_serial)));
    assert(native_property(s, "oycqAZloTNDm"@) == Some((false, s.oy_serial)));
    assert(native_property(s, "abKPld1EcMni"@) == Some((false, s.ab_serial)));
}

/// `IORegistryEntryCreateCFProperty`: the property `name` of the identity,
/// handed out as a value over the C string of its field; none for a
/// property the identity does not have.
pub fn io_reg(serial: &MacSerial, name: &str) -> (r: Option<patch_data>)
    ensures
        r is Some <==> native_property(serial@, name@) is Some,
        r matches Some(p) ==> ({
            let (is_text, field) = native_property(serial@, name@)->0;
            &&& p.tag == (if is_text { PATCH_TAG } else { PATCH_TAG2 })
            &&& is_c_str_prefix(encode_utf8(field), p.data@)
        }),
{
    if str_eq(name, "board-id") {
        Some(patch_data::new_data(c_str_prefix(serial.board_id.as_str().as_bytes())))
    } else if str_eq(name, "product-name") {
        Some(patch_data::new_data(c_str_prefix(serial.product_name.as_str().as_bytes())))
    } else if str_eq(name, "boot-uuid") {
        Some(patch_data::new_data(c_str_prefix(serial.boot_uuid.as_str().as_bytes())))
    } else if str_eq(name, "IOPlatformSerialNumber") {
        Some(patch_data::new_str(c_str_prefix(serial.serial_number.as_str().as_bytes())))
    } else if str_eq(name, "IOPlatformUUID") {
        Some(patch_data::new_str(c_str_prefix(serial.uuid.as_str().as_bytes())))
    } else if str_eq(name, "Gq3489ugfi") {
        Some(patch_data::new_data(c_str_prefix(serial.gq_serial.as_str().as_bytes())))
    } else if str_eq(name, "Fyp98tpgj") {
        Some(patch_data::new_data(c_str_prefix(serial.fy_serial.as_str().as_bytes())))
    } else if str_eq(name, "kbjfrfpoJU") {
        Some(patch_data::new_data(c_str_prefix(serial.kb_serial.as_str().as_bytes())))
    } else if str_eq(name, "IOMACAddress") {
        Some(patch_data::new_data(c_str_prefix(serial.mac_address.as_str().as_bytes())))
    } else if str_eq(name, "4D1EDE05-38C7-4A6A-9CC6-4BCCA8B38C14:ROM") {
        Some(patch_data::new_data(c_str_prefix(serial.rom.as_str().as_bytes())))
    } else if str_eq(name, "4D1EDE05-38C7-4A6A-9CC6-4BCCA8B38C14:MLB") {
        Some(patch_data::new_data(c_str_prefix(serial.mlb.as_str().as_bytes())))
    } else if str_eq(name, "oycqAZloTNDm") {
        Some(patch_data::new_data(c_str_prefix(serial.oy_serial.as_str().as_bytes())))
    } else if str_eq(name, "abKPld1EcMni") {
        Some(patch_data::new_data(c_str_prefix(serial.ab_serial.as_str().as_bytes())))
    } else {
        None
    }
}

/// What `sysctlbyname` answers from the identity.
pub enum SysctlAnswer {
    /// The bytes copied for `kern.osversion`, NUL included.
    OsVersion(Vec<u8>),
    /// The value stored for `kern.osrevision`.
    OsRevision(u32),
    /// Nothing is written for any other name.
    Nothing,
}

/// `sysctlbyname` for `name`: the system version as a C string, the
/// revision number, or nothing.
pub fn sysctlbyname(serial: &MacSerial, name: &str) -> (r: SysctlAnswer)
    ensures
        name@ == "kern.osversion"@ ==> (r matches SysctlAnswer::OsVersion(v) && ({
            let p = v@.drop_last();
            &&& v@.len() >= 1
            &&& v@.last() == 0u8
            &&& is_c_str_prefix(encode_utf8(serial@.osversion), p)
        })),
        name@ == "kern.osrevision"@ ==> r == SysctlAnswer::OsRevision(serial.osrevision),
        name@ != "kern.osversion"@ && name@ != "kern.osrevision"@ ==> r is Nothing,
{
    proof {
        reveal_strlit("kern.osversion");
        reveal_strlit("kern.osrevision");
        assert("kern.osversion"@[7] != "kern.osrevision"@[7]);
    }
    if str_eq(name, "kern.osversion") {
        let mut v = c_str_prefix(serial.osversion.as_str().as_bytes());
        let ghost p = v@;
        v.push(0);
        assert(v@.drop_last() =~= p);
        SysctlAnswer::OsVersion(v)
    } else if str_eq(name, "kern.osrevision") {
        SysctlAnswer::OsRevision(serial.osrevision)
    } else {
        SysctlAnswer::Nothing
    }
}

/// The value handed out for a hex-encoded identity field is hex text that
/// decodes to the field's configured text: whatever the image copies out of
/// it with `CFDataGetBytes` is that text's UTF-8 bytes.
pub proof fn lemma_hex_property_reads_back(s: Seq<char>, data: Seq<u8>)
    requires
        is_c_str_prefix(encode_utf8(hex_field(s)), data),
    ensures
        data.len() % 2 == 0,
        all_hex_digits(data),
        hex_bytes(data) == encode_utf8(s),
{
    let b = encode_utf8(s);
    let t = hex_field(s);
    let h = hex_text(b);
    assert(t == h.push('\0'));
    assert forall|i: int| 0 <= i < h.len() implies ('0' <= #[trigger] h[i] <= 'f') by {
    }
    assert(is_ascii_chars(t)) by {
        assert forall|i: int| 0 <= i < t.len() implies '\0' <= #[trigger] t[i] <= '\u{7f}' by {
            if i < h.len() {
                assert(t[i] == h[i]);
            }
        }
    }
    is_ascii_chars_encode_utf8(t);
    let e = encode_utf8(t);
    let p0 = hex_ascii(b);
    assert(p0.len() == h.len());
    assert(p0 =~= e.take(h.len() as int)) by {
        assert forall|i: int| 0 <= i < h.len() implies p0[i] == e[i] by {
            assert(t[i] == h[i]);
        }
    }
    assert(!p0.contains(0u8)) by {
        if p0.contains(0u8) {
            let i = choose|i: int| 0 <= i < p0.len() && p0[i] == 0u8;
            assert(h[i] as u8 == 0u8);
        }
    }
    assert(e[h.len() as int] == 0u8) by {
        assert(t[h.len() as int] == '\0');
    }
    assert(is_c_str_prefix(e, p0));
    lemma_c_str_prefix_unique(e, p0, data);
    lemma_hex_roundtrip(b);
}

/// A string value made from a C string (`CFStringCreateWithCStringNoCopy`,
/// `IOServiceMatching`) reads back as that string: the string type, its
/// length, and, copied out with `CFStringGetCString`, its bytes and a NUL.
pub proof fn lemma_string_value_reads_back(b: Seq<u8>)
    ensures
        tag_is_str(PATCH_TAG),
        value_len((PATCH_TAG, b)) == Some(b.len() as int),
        b.take(value_len((PATCH_TAG, b))->0).push(0u8) == b.push(0u8),
{
    assert(PATCH_TAG & 0x7fffffff == PATCH_TAG) by (bit_vector);
    assert(b.take(b.len() as int) =~= b);
}

/// A text property handed out over a NUL-terminated field of the identity
/// (the serial number, the platform UUID, the system version answered by
/// `sysctlbyname`) reads back as the configured text, provided that text
/// holds no NUL of its own.
pub proof fn lemma_text_property_reads_back(s: Seq<char>, data: Seq<u8>)
    requires
        !s.contains('\0'),
        is_c_str_prefix(encode_utf8(nul_terminated(s)), data),
    ensures
        data == encode_utf8(s),
{
    lemma_encode_utf8_push(s, '\0');
    lemma_encode_has_no_zero(s);
    let e = encode_utf8(s);
    let full = encode_utf8(nul_terminated(s));
    assert(encode_scalar('\0' as u32) =~= seq![0u8]) by {
        assert(0u32 & 0x7F == 0u32) by (bit_vector);
    }
    assert(full =~= e.push(0u8));
    assert(e =~= full.take(e.len() as int));
    assert(full[e.len() as int] == 0u8);
    assert(is_c_str_prefix(full, e));
    lemma_c_str_prefix_unique(full, e, data);
}

/// A data value over the hex text of a field (as `io_reg` hands it out for
/// a hex-encoded identity field) reads back in full: the length the image is
/// told is the byte length of the field's text, and `CFDataGetBytes` over
/// that length copies out exactly the text's UTF-8 bytes.
pub proof fn lemma_hex_value_reads_back_in_full(x: Seq<char>, data: Seq<u8>)
    requires
        is_c_str_prefix(encode_utf8(hex_field(x)), data),
        encode_utf8(x).len() <= isize::MAX,
    ensures
        !tag_is_str(PATCH_TAG2),
        value_len((PATCH_TAG2, data)) == Some(encode_utf8(x).len() as int),
        range_of(hex_bytes(data), CFRange { location: 0, length: encode_utf8(x).len() as isize })
            == Some(encode_utf8(x)),
{
    lemma_hex_property_reads_back(x, data);
    assert(PATCH_TAG2 & 0x7fffffff == PATCH_TAG) by (bit_vector);
    assert(hex_bytes(data).len() == data.len() / 2);
    assert(encode_utf8(x).subrange(0, encode_utf8(x).len() as int) =~= encode_utf8(x));
}

/// The board identifier installed from the configuration reads back
/// through the stand-ins: `IORegistryEntryCreateCFProperty("board-id")`
/// hands out a data value whose length is that of the configured text plus
/// its NUL, and `CFDataGetBytes` over that length copies out the text's
/// UTF-8 bytes followed by a NUL. (`CFDataGetLength` reports the length cut
/// to 32 bits, so it is exact below 2^32 bytes.)
pub proof fn lemma_configured_board_id_reads_back(conf: MacSerialView, data: Seq<u8>)
    requires
        is_c_str_prefix(encode_utf8(normalized(conf).board_id), data),
        encode_utf8(conf.board_id).len() + 1 <= isize::MAX,
    ensures
        native_property(normalized(conf), "board-id"@) == Some((false, normalized(conf).board_id)),
        value_len((PATCH_TAG2, data)) == Some(encode_utf8(conf.board_id).len() + 1 as int),
        range_of(
            hex_bytes(data),
            CFRange { location: 0, length: (encode_utf8(conf.board_id).len() + 1) as isize },
        ) == Some(encode_utf8(conf.board_id).push(0u8)),
{
    let x = nul_terminated(conf.board_id);
    lemma_encode_utf8_push(conf.board_id, '\0');
    assert(encode_scalar('\0' as u32) =~= seq![0u8]) by {
        assert(0u32 & 0x7F == 0u32) by (bit_vector);
    }
    assert(encode_utf8(x) =~= encode_utf8(conf.board_id).push(0u8));
    lemma_hex_value_reads_back_in_full(x, data);
}

} // verus!
