//! Binding the imports of the image to the host system's own functions:
//! a few are replaced by local stand-ins, the rest are looked up by name in
//! the system libraries.

use vstd::prelude::*;
use vstd::string::StrSliceExecFns;
use crate::text::str_eq;
use crate::patch::native::{native_hook, NativeHook};

verus! {

/// What a host import is bound to.
pub enum OsxSymbol {
    /// The local `malloc`, with a trace line.
    Malloc,
    /// The local `free`, with a trace line.
    Free,
    /// The null address.
    Null,
    /// The address of the stack-protector cookie.
    StackChkGuard,
    /// A stack-check failure that is only reported.
    StackChkFail,
    /// `memcpy`.
    Memcpy,
    /// `memset`.
    Memset,
    /// `time`.
    Time,
    /// The symbol `name` looked up in the library `dylib`.
    Dynamic { dylib: String, name: String },
    /// The system's `arc4random`.
    Arc4random,
    /// A stand-in that only reports the call.
    NotImplement,
}

/// The binding of a host import, as plain values.
pub enum OsxBinding {
    Malloc,
    Free,
    Null,
    StackChkGuard,
    StackChkFail,
    Memcpy,
    Memset,
    Time,
    Dynamic(Seq<char>, Seq<char>),
    Arc4random,
    NotImplement,
}

/// `s` as plain values.
pub open spec fn binding_of(s: OsxSymbol) -> OsxBinding {
    match s {
        OsxSymbol::Malloc => OsxBinding::Malloc,
        OsxSymbol::Free => OsxBinding::Free,
        OsxSymbol::Null => OsxBinding::Null,
        OsxSymbol::StackChkGuard => OsxBinding::StackChkGuard,
        OsxSymbol::StackChkFail => OsxBinding::StackChkFail,
        OsxSymbol::Memcpy => OsxBinding::Memcpy,
        OsxSymbol::Memset => OsxBinding::Memset,
        OsxSymbol::Time => OsxBinding::Time,
        OsxSymbol::Dynamic { dylib, name } => OsxBinding::Dynamic(dylib@, name@),
        OsxSymbol::Arc4random => OsxBinding::Arc4random,
        OsxSymbol::NotImplement => OsxBinding::NotImplement,
    }
}

/// The imports that are forwarded to the system library under their name
/// without the leading underscore.
pub open spec fn is_forwarded(name: Seq<char>) -> bool {
    name == "_sysctlbyname"@
        || name == "_IOObjectRelease"@
        || name == "_IORegistryEntryFromPath"@
        || name == "_kIOMasterPortDefault"@
        || name == "_kCFAllocatorDefault"@
        || name == "_kCFAllocatorNull"@
        || name == "_CFStringCreateWithCStringNoCopy"@
        || name == "_IORegistryEntryCreateCFProperty"@
        || name == "_CFGetTypeID"@
        || name == "_CFStringGetTypeID"@
        || name == "_CFStringGetLength"@
        || name == "_CFStringGetMaximumSizeForEncoding"@
        || name == "_CFStringGetCString"@
        || name == "_CFDataGetTypeID"@
        || name == "_CFDataGetLength"@
        || name == "_CFDataGetBytes"@
        || name == "_CFRelease"@
        || name == "_IOServiceMatching"@
        || name == "_CFDictionaryCreateMutable"@
        || name == "_CFDictionarySetValue"@
        || name == "_IOServiceGetMatchingServices"@
        || name == "_IOIteratorReset"@
        || name == "_IOIteratorNext"@
        || name == "_IORegistryEntryGetParentEntry"@
        || name == "_CFStringGetSystemEncoding"@
        || name == "_kCFTypeDictionaryKeyCallBacks"@
        || name == "_kCFTypeDictionaryValueCallBacks"@
        || name == "_kCFBooleanTrue"@
        || name == "_kCFBooleanFalse"@
        || name == "___kCFBooleanFalse"@
        || name == "___kCFBooleanTrue"@
        || name == "___CFConstantStringClassReference"@
}

/// A forwarded import has a name to strip the underscore from.
proof fn lemma_forwarded_nonempty(name: Seq<char>)
    requires
        is_forwarded(name),
    ensures
        name.len() >= 1,
{
    reveal_strlit("_sysctlbyname");
    reveal_strlit("_IOObjectRelease");
    reveal_strlit("_IORegistryEntryFromPath");
    reveal_strlit("_kIOMasterPortDefault");
    reveal_strlit("_kCFAllocatorDefault");
    reveal_strlit("_kCFAllocatorNull");
    reveal_strlit("_CFStringCreateWithCStringNoCopy");
    reveal_strlit("_IORegistryEntryCreateCFProperty");
    reveal_strlit("_CFGetTypeID");
    reveal_strlit("_CFStringGetTypeID");
    reveal_strlit("_CFStringGetLength");
    reveal_strlit("_CFStringGetMaximumSizeForEncoding");
    reveal_strlit("_CFStringGetCString");
    reveal_strlit("_CFDataGetTypeID");
    reveal_strlit("_CFDataGetLength");
    reveal_strlit("_CFDataGetBytes");
    reveal_strlit("_CFRelease");
    reveal_strlit("_IOServiceMatching");
    reveal_strlit("_CFDictionaryCreateMutable");
    reveal_strlit("_CFDictionarySetValue");
    reveal_strlit("_IOServiceGetMatchingServices");
    reveal_strlit("_IOIteratorReset");
    reveal_strlit("_IOIteratorNext");
    reveal_strlit("_IORegistryEntryGetParentEntry");
    reveal_strlit("_CFStringGetSystemEncoding");
    reveal_strlit("_kCFTypeDictionaryKeyCallBacks");
    reveal_strlit("_kCFTypeDictionaryValueCallBacks");
    reveal_strlit("_kCFBooleanTrue");
    reveal_strlit("_kCFBooleanFalse");
    reveal_strlit("___kCFBooleanFalse");
    reveal_strlit("___kCFBooleanTrue");
    reveal_strlit("___CFConstantStringClassReference");
}

/// The binding of the host import `name` from library `dylib`.
pub open spec fn osx_binding(dylib: Seq<char>, name: Seq<char>) -> OsxBinding {
    if name == "_malloc"@ {
        OsxBinding::Malloc
    } else if name == "_free"@ {
        OsxBinding::Free
    } else if name == "____chkstk_darwin"@ {
        OsxBinding::Null
    } else if name == "___stack_chk_guard"@ {
        OsxBinding::StackChkGuard
    } else if name == "_stack_chk_fail"@ {
        OsxBinding::StackChkFail
    } else if name == "___memcpy_chk"@ {
        OsxBinding::Memcpy
    } else if name == "___memset_chk"@ {
        OsxBinding::Memset
    } else if name == "_time"@ {
        OsxBinding::Time
    } else if name == "_pthread_once"@ {
        OsxBinding::Dynamic(dylib, "pthread_once"@)
    } else if name == "_arc4random"@ {
        OsxBinding::Arc4random
    } else if is_forwarded(name) {
        OsxBinding::Dynamic(dylib, name.skip(1))
    } else {
        OsxBinding::NotImplement
    }
}

/// The host binding `b` and the native stand-in `n` do the same job; an
/// import looked up in the system library is not compared.
pub open spec fn host_same_job(b: OsxBinding, n: NativeHook) -> bool {
    match b {
        OsxBinding::Malloc => n == NativeHook::Malloc,
        OsxBinding::Free => n == NativeHook::Free,
        OsxBinding::Null => n == NativeHook::Null,
        OsxBinding::StackChkGuard => n == NativeHook::StackChkGuard,
        OsxBinding::StackChkFail => n == NativeHook::StackChkFail,
        OsxBinding::Memcpy => n == NativeHook::Memcpy,
        OsxBinding::Memset => n == NativeHook::Memset,
        OsxBinding::Time => n == NativeHook::Time,
        OsxBinding::Arc4random => n == NativeHook::Arc4random,
        _ => true,
    }
}

/// An import that the host binds to a local stand-in is bound to a stand-in
/// doing the same job when the image runs with the native stand-ins.
pub proof fn lemma_host_and_native_stand_ins_agree(dylib: Seq<char>, name: Seq<char>)
    ensures
        host_same_job(osx_binding(dylib, name), native_hook(name)),
{
}

/// Whether `name` is forwarded to the system library.
fn forwarded(name: &str) -> (r: bool)
    ensures
        r == is_forwarded(name@),
{
    str_eq(name, "_sysctlbyname")
        || str_eq(name, "_IOObjectRelease")
        || str_eq(name, "_IORegistryEntryFromPath")
        || str_eq(name, "_kIOMasterPortDefault")
        || str_eq(name, "_kCFAllocatorDefault")
        || str_eq(name, "_kCFAllocatorNull")
        || str_eq(name, "_CFStringCreateWithCStringNoCopy")
        || str_eq(name, "_IORegistryEntryCreateCFProperty")
        || str_eq(name, "_CFGetTypeID")
        || str_eq(name, "_CFStringGetTypeID")
        || str_eq(name, "_CFStringGetLength")
        || str_eq(name, "_CFStringGetMaximumSizeForEncoding")
        || str_eq(name, "_CFStringGetCString")
        || str_eq(name, "_CFDataGetTypeID")
        || str_eq(name, "_CFDataGetLength")
        || str_eq(name, "_CFDataGetBytes")
        || str_eq(name, "_CFRelease")
        || str_eq(name, "_IOServiceMatching")
        || str_eq(name, "_CFDictionaryCreateMutable")
        || str_eq(name, "_CFDictionarySetValue")
        || str_eq(name, "_IOServiceGetMatchingServices")
        || str_eq(name, "_IOIteratorReset")
        || str_eq(name, "_IOIteratorNext")
        || str_eq(name, "_IORegistryEntryGetParentEntry")
        || str_eq(name, "_CFStringGetSystemEncoding")
        || str_eq(name, "_kCFTypeDictionaryKeyCallBacks")
        || str_eq(name, "_kCFTypeDictionaryValueCallBacks")
        || str_eq(name, "_kCFBooleanTrue")
        || str_eq(name, "_kCFBooleanFalse")
        || str_eq(name, "___kCFBooleanFalse")
        || str_eq(name, "___kCFBooleanTrue")
        || str_eq(name, "___CFConstantStringClassReference")
}

/// The binding of the host import `name` from library `dylib`.
pub fn register_fn(dylib: &str, name: &str) -> (r: OsxSymbol)
    ensures
        binding_of(r) == osx_binding(dylib@, name@),
{
    if str_eq(name, "_malloc") {
        OsxSymbol::Malloc
    } else if str_eq(name, "_free") {
        OsxSymbol::Free
    } else if str_eq(name, "____chkstk_darwin") {
        OsxSymbol::Null
    } else if str_eq(name, "___stack_chk_guard") {
        OsxSymbol::StackChkGuard
    } else if str_eq(name, "_stack_chk_fail") {
        OsxSymbol::StackChkFail
    } else if str_eq(name, "___memcpy_chk") {
        OsxSymbol::Memcpy
    } else if str_eq(name, "___memset_chk") {
        OsxSymbol::Memset
    } else if str_eq(name, "_time") {
        OsxSymbol::Time
    } else if str_eq(name, "_pthread_once") {
        OsxSymbol::Dynamic { dylib: dylib.to_owned(), name: "pthread_once".to_owned() }
    } else if str_eq(name, "_arc4random") {
        OsxSymbol::Arc4random
    } else if forwarded(name) {
        proof {
            lemma_forwarded_nonempty(name@);
        }
        let n = name.unicode_len();
        let stripped = name.substring_char(1, n);
        OsxSymbol::Dynamic { dylib: dylib.to_owned(), name: stripped.to_owned() }
    } else {
        OsxSymbol::NotImplement
    }
}

} // verus!
