//! Answering a syscall of the emulated image: from the state of the
//! emulated system, the handler and the call's arguments to the next state
//! and what the emulator has to do. What only the emulator can provide (a
//! C string in its memory, the clock, a random number) is asked for first
//! and handed back in.

use vstd::prelude::*;
use crate::patch::emulator::{
    cf_lookup, column_handler, emulator_io_object, import_address, lemma_function_imports,
    lemma_import_reaches_its_handler, pthread_once_call, rip_column, EmulatorState, SyscallHandler,
    CF_KIND_DATA, CF_KIND_STRING, MALLOC_BASE, SYSCALL_BASE, SYSCALL_MAX, SYSCALL_SIZE,
};
use vstd::string::StrSliceExecFns;
use crate::mac_serial::{MacSerial, MacSerialView};
use vstd::utf8::{decode_utf8, encode_utf8, encode_utf8_decode_utf8, encode_utf8_valid_utf8, valid_utf8};

verus! {

/// The state as plain values: the objects handed out, the bytes of heap in
/// use, and whether the network interface was handed out since the last reset.
pub type StateView = (Seq<(u8, Seq<u8>)>, u64, bool);

impl View for EmulatorState {
    type V = StateView;

    open spec fn view(&self) -> StateView {
        (self.store@, self.heap.used, self.eth.yielded)
    }
}

/// What a handler needs from the emulator before it can answer.
#[derive(Clone, Copy, Debug, PartialEq, Eq, Structural)]
pub enum SyscallNeed {
    /// Nothing.
    Nothing,
    /// The C string at this address.
    CString(u64),
    /// The C string that the word at this address points to.
    StringAt(u64),
    /// The current time in seconds.
    Clock,
    /// A random number.
    Random,
}

/// What the emulator does to finish a syscall.
pub enum SyscallAction {
    /// Stop the emulation: the call has returned.
    Stop,
    /// Leave registers and memory as they are.
    Nothing,
    /// Return the value in `RAX`.
    Return(u64),
    /// Copy `len` bytes from `src` to `dst`, then return `src`.
    Copy { dst: u64, src: u64, len: u64 },
    /// Write `bytes` at `dst`, then return 1.
    Write { dst: u64, bytes: Vec<u8> },
    /// Store `return_address` at the new stack pointer `rsp` and continue at `target`.
    Call { rsp: u64, return_address: u64, target: u64 },
    /// End the program: the call is one that the emulated system cannot
    /// answer and does not survive (an unknown handle, a range past the end
    /// of an object, text that is not UTF-8, `time` with a pointer argument,
    /// a missing clock or random value, a heap or stack that would
    /// overflow). The state is left as it was; the emulator panics.
    Abort,
}

/// A `SyscallAction` as plain values.
pub enum ActionView {
    Stop,
    Nothing,
    Return(u64),
    Copy { dst: u64, src: u64, len: u64 },
    Write { dst: u64, bytes: Seq<u8> },
    Call { rsp: u64, return_address: u64, target: u64 },
    Abort,
}

impl View for SyscallAction {
    type V = ActionView;

    open spec fn view(&self) -> ActionView {
        match self {
            SyscallAction::Stop => ActionView::Stop,
            SyscallAction::Nothing => ActionView::Nothing,
            SyscallAction::Return(v) => ActionView::Return(*v),
            SyscallAction::Copy { dst, src, len } => ActionView::Copy { dst: *dst, src: *src, len: *len },
            SyscallAction::Write { dst, bytes } => ActionView::Write { dst: *dst, bytes: bytes@ },
            SyscallAction::Call { rsp, return_address, target } => ActionView::Call {
                rsp: *rsp,
                return_address: *return_address,
                target: *target,
            },
            SyscallAction::Abort => ActionView::Abort,
        }
    }
}

/// The text an optional string holds.
pub open spec fn text_view(t: Option<String>) -> Option<Seq<char>> {
    match t {
        Some(s) => Some(s@),
        None => None,
    }
}

/// What the text of the string value `ptr` has to be fetched as: nothing
/// for a handle of the store (or an address too high to read past), else
/// the C string whose pointer sits 16 bytes into the constant string.
pub open spec fn text_need(count: int, ptr: u64) -> SyscallNeed {
    if ptr > count && ptr + 0x10 <= u64::MAX {
        SyscallNeed::StringAt((ptr + 0x10) as u64)
    } else {
        SyscallNeed::Nothing
    }
}

/// What handler `h` called with arguments `a` needs, when the store holds
/// `count` objects.
pub open spec fn syscall_need_of(count: int, h: SyscallHandler, a: Seq<u64>) -> SyscallNeed {
    match h {
        SyscallHandler::Time => if a[0] == 0 {
            SyscallNeed::Clock
        } else {
            SyscallNeed::Nothing
        },
        SyscallHandler::Arc4random => SyscallNeed::Random,
        SyscallHandler::CreateWithCStr => SyscallNeed::CString(a[1]),
        SyscallHandler::IoReg => text_need(count, a[1]),
        SyscallHandler::CfGetCStr => text_need(count, a[0]),
        _ => SyscallNeed::Nothing,
    }
}

/// The text of the string value `ptr`: a stored object's text (none if
/// unknown or not UTF-8), or else the fetched text of a constant string.
pub open spec fn value_text_of(
    objs: Seq<(u8, Seq<u8>)>,
    ptr: u64,
    fetched: Option<Seq<char>>,
) -> Option<Seq<char>> {
    if ptr <= objs.len() {
        match cf_lookup(objs, ptr) {
            Some(o) => if valid_utf8(o.1) {
                Some(decode_utf8(o.1))
            } else {
                None
            },
            None => None,
        }
    } else if ptr + 0x10 <= u64::MAX {
        fetched
    } else {
        None
    }
}

/// The answer of handler `h` in state `st` to a call with arguments `a`,
/// raised at `rip` with stack pointer `rsp`, given the fetched `text` and
/// `number`, with `id` the installed machine identity: the next state and
/// the action.
pub open spec fn syscall_answer(
    st: StateView,
    h: SyscallHandler,
    a: Seq<u64>,
    rip: u64,
    rsp: u64,
    text: Option<Seq<char>>,
    number: Option<u64>,
    id: MacSerialView,
) -> (StateView, ActionView) {
    let (objs, used, yielded) = st;
    match h {
        SyscallHandler::Exit => (st, ActionView::Stop),
        SyscallHandler::Malloc => if MALLOC_BASE + used + a[0] <= u64::MAX {
            ((objs, (used + a[0]) as u64, yielded), ActionView::Return((MALLOC_BASE + used) as u64))
        } else {
            (st, ActionView::Abort)
        },
        SyscallHandler::Free => (st, ActionView::Nothing),
        SyscallHandler::Memcpy => (st, ActionView::Copy { dst: a[0], src: a[1], len: a[2] }),
        SyscallHandler::Memset => (st, ActionView::Nothing),
        SyscallHandler::Time => if a[0] == 0 && number is Some {
            (st, ActionView::Return(number->0))
        } else {
            (st, ActionView::Abort)
        },
        SyscallHandler::PthreadOnce => if rsp >= 8 {
            (st, ActionView::Call { rsp: (rsp - 8) as u64, return_address: rip, target: a[1] })
        } else {
            (st, ActionView::Abort)
        },
        SyscallHandler::Arc4random => match number {
            Some(n) => (st, ActionView::Return(n)),
            None => (st, ActionView::Abort),
        },
        SyscallHandler::Sysctlbyname => (st, ActionView::Return(0)),
        SyscallHandler::Release => (st, ActionView::Nothing),
        SyscallHandler::Skip1 => (st, ActionView::Return(1)),
        SyscallHandler::CreateWithCStr => match text {
            Some(t) => (
                (objs.push((CF_KIND_STRING, encode_utf8(t))), used, yielded),
                ActionView::Return((objs.len() + 1) as u64),
            ),
            None => (st, ActionView::Abort),
        },
        SyscallHandler::IoReg => match value_text_of(objs, a[1], text) {
            Some(t) => match emulator_io_object(id, t) {
                Some(o) => (
                    (objs.push(o), used, yielded),
                    ActionView::Return((objs.len() + 1) as u64),
                ),
                None => (st, ActionView::Return(0)),
            },
            None => (st, ActionView::Abort),
        },
        SyscallHandler::CfId => match cf_lookup(objs, a[0]) {
            Some(o) => (st, ActionView::Return(o.0 as u64)),
            None => (st, ActionView::Abort),
        },
        SyscallHandler::CfStrId => (st, ActionView::Return(CF_KIND_STRING as u64)),
        SyscallHandler::CfLen => match cf_lookup(objs, a[0]) {
            Some(o) => (st, ActionView::Return(o.1.len() as u64)),
            None => (st, ActionView::Abort),
        },
        SyscallHandler::CfMaxLen => (st, ActionView::Return(a[0])),
        SyscallHandler::CfGetCStr => match value_text_of(objs, a[0], text) {
            Some(t) => (st, ActionView::Write { dst: a[1], bytes: encode_utf8(t) }),
            None => (st, ActionView::Abort),
        },
        SyscallHandler::CfDataId => (st, ActionView::Return(CF_KIND_DATA as u64)),
        SyscallHandler::CfGetBytes => match cf_lookup(objs, a[0]) {
            Some(o) => if a[1] + a[2] <= o.1.len() {
                (st, ActionView::Write { dst: a[3], bytes: o.1.subrange(a[1] as int, a[1] + a[2]) })
            } else {
                (st, ActionView::Abort)
            },
            None => (st, ActionView::Abort),
        },
        SyscallHandler::Skip0 => (st, ActionView::Return(0)),
        SyscallHandler::EthReset => ((objs, used, false), ActionView::Nothing),
        SyscallHandler::EthNext => if yielded {
            (st, ActionView::Return(0))
        } else {
            ((objs, used, true), ActionView::Return(1))
        },
        SyscallHandler::NotImplement => (st, ActionView::Return(0)),
    }
}

impl EmulatorState {
    /// What the text of the string value `ptr` has to be fetched as.
    fn text_need(&self, ptr: u64) -> (r: SyscallNeed)
        ensures
            r == text_need(self.store@.len() as int, ptr),
    {
        if ptr > self.store.len() as u64 && ptr <= u64::MAX - 0x10 {
            SyscallNeed::StringAt(ptr + 0x10)
        } else {
            SyscallNeed::Nothing
        }
    }

    /// What handler `h`, called with the first four arguments `args`, needs
    /// from the emulator before it can answer.
    pub fn syscall_need(&self, h: SyscallHandler, args: &[u64]) -> (r: SyscallNeed)
        requires
            args@.len() >= 4,
        ensures
            r == syscall_need_of(self.store@.len() as int, h, args@),
    {
        match h {
            SyscallHandler::Time => if args[0] == 0 {
                SyscallNeed::Clock
            } else {
                SyscallNeed::Nothing
            },
            SyscallHandler::Arc4random => SyscallNeed::Random,
            SyscallHandler::CreateWithCStr => SyscallNeed::CString(args[1]),
            SyscallHandler::IoReg => self.text_need(args[1]),
            SyscallHandler::CfGetCStr => self.text_need(args[0]),
            _ => SyscallNeed::Nothing,
        }
    }

    /// The text of the string value `ptr`, with `fetched` the text read
    /// for a constant string.
    fn value_text(&self, ptr: u64, fetched: Option<String>) -> (r: Option<String>)
        ensures
            text_view(r) == value_text_of(self.store@, ptr, text_view(fetched)),
    {
        if ptr <= self.store.len() as u64 {
            self.store.cf_to_str(ptr)
        } else if ptr <= u64::MAX - 0x10 {
            fetched
        } else {
            None
        }
    }

    /// Answers a syscall of handler `h`, called with the first four
    /// arguments `args` at `rip` with stack pointer `rsp`; `text` and
    /// `number` are what `syscall_need` asked for, if anything, and `serial`
    /// is the installed machine identity that registry properties come from.
    pub fn answer_syscall(
        &mut self,
        h: SyscallHandler,
        args: &[u64],
        rip: u64,
        rsp: u64,
        text: Option<String>,
        number: Option<u64>,
        serial: &MacSerial,
    ) -> (r: SyscallAction)
        requires
            args@.len() >= 4,
        ensures
            (final(self)@, r@) == syscall_answer(old(self)@, h, args@, rip, rsp, text_view(text), number, serial@),
    {
        match h {
            SyscallHandler::Exit => SyscallAction::Stop,
            SyscallHandler::Malloc => {
                if self.heap.used <= u64::MAX - MALLOC_BASE && args[0] <= u64::MAX - MALLOC_BASE
                    - self.heap.used {
                    SyscallAction::Return(self.heap.malloc(args[0]))
                } else {
                    SyscallAction::Abort
                }
            },
            SyscallHandler::Free => SyscallAction::Nothing,
            SyscallHandler::Memcpy => SyscallAction::Copy { dst: args[0], src: args[1], len: args[2] },
            SyscallHandler::Memset => SyscallAction::Nothing,
            SyscallHandler::Time => match number {
                Some(n) => if args[0] == 0 {
                    SyscallAction::Return(n)
                } else {
                    SyscallAction::Abort
                },
                None => SyscallAction::Abort,
            },
            SyscallHandler::PthreadOnce => {
                if rsp >= 8 {
                    let c = pthread_once_call(rip, rsp, args[1]);
                    SyscallAction::Call { rsp: c.rsp, return_address: c.return_address, target: c.target }
                } else {
                    SyscallAction::Abort
                }
            },
            SyscallHandler::Arc4random => match number {
                Some(n) => SyscallAction::Return(n),
                None => SyscallAction::Abort,
            },
            SyscallHandler::Sysctlbyname => SyscallAction::Return(0),
            SyscallHandler::Release => SyscallAction::Nothing,
            SyscallHandler::Skip1 => SyscallAction::Return(1),
            SyscallHandler::CreateWithCStr => match text {
                Some(t) => SyscallAction::Return(self.store.str_to_cf(t.as_str())),
                None => SyscallAction::Abort,
            },
            SyscallHandler::IoReg => match self.value_text(args[1], text) {
                Some(t) => SyscallAction::Return(self.store.io_reg(serial, t.as_str())),
                None => SyscallAction::Abort,
            },
            SyscallHandler::CfId => match self.store.cf_id(args[0]) {
                Some(k) => SyscallAction::Return(k as u64),
                None => SyscallAction::Abort,
            },
            SyscallHandler::CfStrId => SyscallAction::Return(CF_KIND_STRING as u64),
            SyscallHandler::CfLen => match self.store.cf_len(args[0]) {
                Some(n) => SyscallAction::Return(n),
                None => SyscallAction::Abort,
            },
            SyscallHandler::CfMaxLen => SyscallAction::Return(args[0]),
            SyscallHandler::CfGetCStr => match self.value_text(args[0], text) {
                Some(t) => SyscallAction::Write { dst: args[1], bytes: t.as_str().as_bytes_vec() },
                None => SyscallAction::Abort,
            },
            SyscallHandler::CfDataId => SyscallAction::Return(CF_KIND_DATA as u64),
            SyscallHandler::CfGetBytes => match self.store.cf_get_bytes(args[0], args[1], args[2]) {
                Some(v) => SyscallAction::Write { dst: args[3], bytes: v },
                None => SyscallAction::Abort,
            },
            SyscallHandler::Skip0 => SyscallAction::Return(0),
            SyscallHandler::EthReset => {
                self.eth.reset();
                SyscallAction::Nothing
            },
            SyscallHandler::EthNext => SyscallAction::Return(self.eth.next()),
            SyscallHandler::NotImplement => SyscallAction::Return(0),
        }
    }
}

/// A string that the image creates from a C string reads back as created:
/// its kind is the string kind, its length is its UTF-8 length, and
/// copying it out writes exactly its UTF-8 bytes.
pub proof fn lemma_created_string_reads_back(
    st: StateView,
    a: Seq<u64>,
    b: Seq<u64>,
    rip: u64,
    rsp: u64,
    t: Seq<char>,
    fetched: Option<Seq<char>>,
    number: Option<u64>,
    id: MacSerialView,
)
    requires
        a.len() >= 4,
        b.len() >= 4,
        st.0.len() + 1 <= u64::MAX,
        b[0] == st.0.len() + 1,
    ensures
        ({
            let (st1, act) = syscall_answer(st, SyscallHandler::CreateWithCStr, a, rip, rsp, Some(t), number, id);
            &&& act == ActionView::Return(b[0])
            &&& syscall_answer(st1, SyscallHandler::CfId, b, rip, rsp, fetched, number, id) == (st1, ActionView::Return(CF_KIND_STRING as u64))
            &&& syscall_answer(st1, SyscallHandler::CfLen, b, rip, rsp, fetched, number, id) == (st1, ActionView::Return(encode_utf8(t).len() as u64))
            &&& syscall_answer(st1, SyscallHandler::CfGetCStr, b, rip, rsp, fetched, number, id) == (st1, ActionView::Write { dst: b[1], bytes: encode_utf8(t) })
        }),
{
    encode_utf8_valid_utf8(t);
    encode_utf8_decode_utf8(t);
}

/// After `IOIteratorReset`, whatever came before, `IOIteratorNext` hands
/// out the interface (1) and then reports the end (0).
pub proof fn lemma_iterator_after_reset(st: StateView, a: Seq<u64>, rip: u64, rsp: u64, text: Option<Seq<char>>, number: Option<u64>, id: MacSerialView)
    requires
        a.len() >= 4,
    ensures
        ({
            let (st1, _) = syscall_answer(st, SyscallHandler::EthReset, a, rip, rsp, text, number, id);
            let (st2, first) = syscall_answer(st1, SyscallHandler::EthNext, a, rip, rsp, text, number, id);
            let (st3, second) = syscall_answer(st2, SyscallHandler::EthNext, a, rip, rsp, text, number, id);
            &&& first == ActionView::Return(1)
            &&& second == ActionView::Return(0)
            &&& st3 == st2
        }),
{
}

/// Two `malloc` calls in a row hand out adjacent blocks: the second starts
/// where the first ends, so blocks never overlap and are never reused; on a
/// fresh heap the first block is at `MALLOC_BASE`.
pub proof fn lemma_malloc_blocks_adjacent(st: StateView, a: Seq<u64>, b: Seq<u64>, rip: u64, rsp: u64, text: Option<Seq<char>>, number: Option<u64>, id: MacSerialView)
    requires
        a.len() >= 4,
        b.len() >= 4,
        MALLOC_BASE + st.1 + a[0] + b[0] <= u64::MAX,
    ensures
        ({
            let (st1, first) = syscall_answer(st, SyscallHandler::Malloc, a, rip, rsp, text, number, id);
            let (st2, second) = syscall_answer(st1, SyscallHandler::Malloc, b, rip, rsp, text, number, id);
            &&& first == ActionView::Return((MALLOC_BASE + st.1) as u64)
            &&& second == ActionView::Return((MALLOC_BASE + st.1 + a[0]) as u64)
            &&& st.1 == 0 ==> first == ActionView::Return(MALLOC_BASE)
            &&& st2.0 == st.0
        }),
{
}

/// `CFDataGetBytes` copies exactly the requested range: for a stored
/// object `o` at handle `a[0]`, a range `[a[1], a[1] + a[2])` inside `o`
/// writes `a[2]` bytes at `a[3]`, byte `i` being byte `a[1] + i` of `o`;
/// a range past its end ends the program. The state does not change.
pub proof fn lemma_get_bytes_copies_the_range(
    st: StateView,
    a: Seq<u64>,
    rip: u64,
    rsp: u64,
    text: Option<Seq<char>>,
    number: Option<u64>,
    id: MacSerialView,
)
    requires
        a.len() >= 4,
        cf_lookup(st.0, a[0]) is Some,
    ensures
        ({
            let o = cf_lookup(st.0, a[0])->0;
            let (st1, act) = syscall_answer(st, SyscallHandler::CfGetBytes, a, rip, rsp, text, number, id);
            &&& st1 == st
            &&& a[1] + a[2] <= o.1.len() ==> (act matches ActionView::Write { dst, bytes } && dst == a[3]
                && bytes.len() == a[2] && forall|i: int| 0 <= i < a[2] ==> #[trigger] bytes[i] == o.1[a[1] + i])
            &&& a[1] + a[2] > o.1.len() ==> act == ActionView::Abort
        }),
{
}

/// A syscall raised in the stub that `_CFGetTypeID` is bound to answers the
/// kind of the object it is asked about: `CF_KIND_DATA` for a data object,
/// `CF_KIND_STRING` for a text object, and leaves the state as it was.
pub proof fn lemma_type_id_stub_answers_kind(
    st: StateView,
    a: Seq<u64>,
    rip: u64,
    rsp: u64,
    text: Option<Seq<char>>,
    number: Option<u64>,
    id: MacSerialView,
)
    requires
        a.len() >= 4,
        import_address("_CFGetTypeID"@) < rip <= import_address("_CFGetTypeID"@) + SYSCALL_SIZE,
        cf_lookup(st.0, a[0]) is Some,
    ensures
        SYSCALL_BASE < rip <= SYSCALL_BASE + SYSCALL_SIZE * SYSCALL_MAX,
        syscall_answer(st, column_handler(rip_column(rip) as u32), a, rip, rsp, text, number, id)
            == (st, ActionView::Return(cf_lookup(st.0, a[0]).unwrap().0 as u64)),
        cf_lookup(st.0, a[0]).unwrap().0 == CF_KIND_DATA ==>
            syscall_answer(st, column_handler(rip_column(rip) as u32), a, rip, rsp, text, number, id).1
                == ActionView::Return(CF_KIND_DATA as u64),
{
    lemma_function_imports();
    lemma_import_reaches_its_handler("_CFGetTypeID"@, rip);
}

/// A syscall raised in the stub that `___memcpy_chk` is bound to copies
/// `a[2]` bytes from `a[1]` to `a[0]`, and leaves the state as it was.
pub proof fn lemma_memcpy_stub_copies(
    st: StateView,
    a: Seq<u64>,
    rip: u64,
    rsp: u64,
    text: Option<Seq<char>>,
    number: Option<u64>,
    id: MacSerialView,
)
    requires
        a.len() >= 4,
        import_address("___memcpy_chk"@) < rip <= import_address("___memcpy_chk"@) + SYSCALL_SIZE,
    ensures
        SYSCALL_BASE < rip <= SYSCALL_BASE + SYSCALL_SIZE * SYSCALL_MAX,
        syscall_answer(st, column_handler(rip_column(rip) as u32), a, rip, rsp, text, number, id)
            == (st, ActionView::Copy { dst: a[0], src: a[1], len: a[2] }),
{
    lemma_function_imports();
    lemma_import_reaches_its_handler("___memcpy_chk"@, rip);
}

/// A syscall raised in the stub that `_malloc` is bound to hands out the
/// block that starts where the heap in use ends, and grows the heap by the
/// requested size.
pub proof fn lemma_malloc_stub_allocates(
    st: StateView,
    a: Seq<u64>,
    rip: u64,
    rsp: u64,
    text: Option<Seq<char>>,
    number: Option<u64>,
    id: MacSerialView,
)
    requires
        a.len() >= 4,
        import_address("_malloc"@) < rip <= import_address("_malloc"@) + SYSCALL_SIZE,
        MALLOC_BASE + st.1 + a[0] <= u64::MAX,
    ensures
        SYSCALL_BASE < rip <= SYSCALL_BASE + SYSCALL_SIZE * SYSCALL_MAX,
        syscall_answer(st, column_handler(rip_column(rip) as u32), a, rip, rsp, text, number, id)
            == ((st.0, (st.1 + a[0]) as u64, st.2), ActionView::Return((MALLOC_BASE + st.1) as u64)),
{
    lemma_function_imports();
    lemma_import_reaches_its_handler("_malloc"@, rip);
}

/// A syscall raised in the stub that `_CFDataGetBytes` is bound to copies
/// the requested range of the object, as `lemma_get_bytes_copies_the_range`
/// states for its handler.
pub proof fn lemma_get_bytes_stub_copies_the_range(
    st: StateView,
    a: Seq<u64>,
    rip: u64,
    rsp: u64,
    text: Option<Seq<char>>,
    number: Option<u64>,
    id: MacSerialView,
)
    requires
        a.len() >= 4,
        import_address("_CFDataGetBytes"@) < rip <= import_address("_CFDataGetBytes"@) + SYSCALL_SIZE,
        cf_lookup(st.0, a[0]) is Some,
    ensures
        SYSCALL_BASE < rip <= SYSCALL_BASE + SYSCALL_SIZE * SYSCALL_MAX,
        ({
            let o = cf_lookup(st.0, a[0])->0;
            let (st1, act) = syscall_answer(st, column_handler(rip_column(rip) as u32), a, rip, rsp, text, number, id);
            &&& st1 == st
            &&& a[1] + a[2] <= o.1.len() ==> (act matches ActionView::Write { dst, bytes } && dst == a[3]
                && bytes.len() == a[2] && forall|i: int| 0 <= i < a[2] ==> #[trigger] bytes[i] == o.1[a[1] + i])
            &&& a[1] + a[2] > o.1.len() ==> act == ActionView::Abort
        }),
{
    lemma_function_imports();
    lemma_import_reaches_its_handler("_CFDataGetBytes"@, rip);
    lemma_get_bytes_copies_the_range(st, a, rip, rsp, text, number, id);
}

} // verus!
