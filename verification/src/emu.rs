//! Pure helpers behind the emulator memory primitives: page rounding,
//! little-endian words, argument slots and C strings.

use vstd::prelude::*;
use vstd::arithmetic::power2::{pow2, lemma_pow2_pos, lemma2_to64};
use vstd::utf8::{valid_utf8, decode_utf8, encode_scalar, encode_utf8, encode_utf8_decode_utf8, encode_utf8_valid_utf8};
use vstd::bits::{low_bits_mask, lemma_u64_low_bits_mask_is_mod};

verus! {

/// Page granularity used for every emulator mapping.
pub const PAGE_SIZE: u64 = 0x1000;

/// The bits below `v`: `v - 1`.
pub open spec fn low_mask(v: u64) -> u64 {
    (v - 1) as u64
}

/// `v` is a power of two that fits a `u64`.
pub open spec fn is_pow2(v: u64) -> bool {
    exists|n: nat| n < 64 && v == pow2(n)
}

/// Rounds `a` up to a multiple of `v` (`((a - 1) & !(v - 1)) + v`).
/// For a power of two `v` the result is the least multiple of `v` that is
/// not below `a`.
pub fn align(a: u64, v: u64) -> (r: u64)
    requires
        a >= 1,
        v >= 1,
        (((a - 1) as u64) & !low_mask(v)) + v <= u64::MAX,
    ensures
        r == (((a - 1) as u64) & !low_mask(v)) + v,
        is_pow2(v) ==> r % v == 0 && a <= r && r < a + v,
{
    let m = (a - 1) & !(v - 1);
    proof {
        lemma_mask_rounding((a - 1) as u64, v);
        let y = ((a - 1) as u64) & !low_mask(v);
        if is_pow2(v) {
            assert((y + v) % (v as int) == 0) by (nonlinear_arith)
                requires
                    y % v == 0,
                    v > 0,
            ;
        }
    }
    m + v
}

/// Rounds `a` down to a multiple of `v` (`a & !(v - 1)`).
/// For a power of two `v` the result is the greatest multiple of `v` that is
/// not above `a`.
pub fn alignb(a: u64, v: u64) -> (r: u64)
    requires
        v >= 1,
    ensures
        r == a & !low_mask(v),
        is_pow2(v) ==> r % v == 0 && r <= a && a < r + v,
{
    proof {
        lemma_mask_rounding(a, v);
    }
    a & !(v - 1)
}

/// For a power of two `v`, masking with `v - 1` is taking the remainder by `v`.
proof fn lemma_pow2_mask_is_mod(y: u64, v: u64)
    requires
        is_pow2(v),
    ensures
        v >= 1,
        (y & low_mask(v)) == y % v,
{
    let n = choose|n: nat| n < 64 && v == pow2(n);
    lemma_pow2_pos(n);
    lemma_u64_low_bits_mask_is_mod(y, n);
    assert(low_bits_mask(n) == pow2(n) - 1);
}

/// Clearing the bits of `x` below a power of two `v` gives the multiple of
/// `v` at or just below `x`.
pub proof fn lemma_mask_rounding(x: u64, v: u64)
    requires
        v >= 1,
    ensures
        (x & !low_mask(v)) <= x,
        is_pow2(v) ==> (x & !low_mask(v)) % v == 0 && x < (x & !low_mask(v)) + v,
{
    let m = low_mask(v);
    assert((x & !m) <= x) by (bit_vector);
    if is_pow2(v) {
        let y = x & !m;
        assert((y & m) == 0) by (bit_vector)
            requires
                y == x & !m,
        ;
        lemma_pow2_mask_is_mod(y, v);
        lemma_pow2_mask_is_mod(x, v);
        assert(x - y == (x & m)) by (bit_vector)
            requires
                y == x & !m,
        ;
    }
}

/// The page-aligned range `(start, len)` that the emulator maps so that
/// `[address, address + size)` is covered: `start` rounded down and the end
/// rounded up to `PAGE_SIZE`.
pub fn emu_map_range(address: u64, size: u64) -> (r: (u64, u64))
    requires
        1 <= address + size <= 0xFFFF_FFFF_FFFF_F000,
    ensures
        r.0 % PAGE_SIZE == 0,
        r.1 % PAGE_SIZE == 0,
        r.0 <= address < r.0 + PAGE_SIZE,
        address + size <= r.0 + r.1 < address + size + PAGE_SIZE,
{
    proof {
        lemma_page_size_pow2();
        lemma_mask_rounding((address + size - 1) as u64, PAGE_SIZE);
        let a = (address + size) as u64;
        assert(((a - 1) as u64 & !0xfffu64) + 0x1000 <= 0xFFFF_FFFF_FFFF_F000u64) by (bit_vector)
            requires
                1 <= a <= 0xFFFF_FFFF_FFFF_F000u64,
        ;
        assert(low_mask(PAGE_SIZE) == 0xfffu64);
    }
    let start = alignb(address, PAGE_SIZE);
    let end = align(address + size, PAGE_SIZE);
    proof {
        assert((end - start) % (PAGE_SIZE as int) == 0) by (nonlinear_arith)
            requires
                end % PAGE_SIZE == 0,
                start % PAGE_SIZE == 0,
                start <= end,
                PAGE_SIZE > 0,
        ;
    }
    (start, end - start)
}

/// `PAGE_SIZE` is a power of two.
pub proof fn lemma_page_size_pow2()
    ensures
        is_pow2(PAGE_SIZE),
{
    lemma2_to64();
    assert(PAGE_SIZE == pow2(12));
}

/// The value of the first eight bytes of `b` read as a little-endian word.
pub open spec fn le_value(b: Seq<u8>) -> int {
    b[0] + b[1] * 0x100 + b[2] * 0x1_0000 + b[3] * 0x100_0000 + b[4] * 0x1_0000_0000
        + b[5] * 0x100_0000_0000 + b[6] * 0x1_0000_0000_0000 + b[7] * 0x100_0000_0000_0000
}

/// The eight bytes of `x`, least significant first.
pub open spec fn le_bytes(x: u64) -> Seq<u8> {
    seq![
        x as u8,
        (x >> 8) as u8,
        (x >> 16) as u8,
        (x >> 24) as u8,
        (x >> 32) as u8,
        (x >> 40) as u8,
        (x >> 48) as u8,
        (x >> 56) as u8,
    ]
}

/// Reading back the little-endian bytes of a word gives the word.
pub proof fn lemma_le_value_of_bytes(x: u64)
    ensures
        le_value(le_bytes(x)) == x,
{
    let b = le_bytes(x);
    let (b0, b1, b2, b3, b4, b5, b6, b7) = (b[0], b[1], b[2], b[3], b[4], b[5], b[6], b[7]);
    assert(b0 + b1 * 0x100u64 + b2 * 0x1_0000u64 + b3 * 0x100_0000u64 + b4 * 0x1_0000_0000u64
        + b5 * 0x100_0000_0000u64 + b6 * 0x1_0000_0000_0000u64 + b7 * 0x100_0000_0000_0000u64 == x)
        by (bit_vector)
        requires
            b0 == x as u8,
            b1 == (x >> 8) as u8,
            b2 == (x >> 16) as u8,
            b3 == (x >> 24) as u8,
            b4 == (x >> 32) as u8,
            b5 == (x >> 40) as u8,
            b6 == (x >> 48) as u8,
            b7 == (x >> 56) as u8,
    ;
}

/// Eight bytes are the little-endian bytes of the word they encode.
pub proof fn lemma_le_bytes_of_value(b: Seq<u8>)
    requires
        b.len() == 8,
    ensures
        0 <= le_value(b) <= u64::MAX,
        le_bytes(le_value(b) as u64) == b,
{
    let (b0, b1, b2, b3, b4, b5, b6, b7) = (b[0], b[1], b[2], b[3], b[4], b[5], b[6], b[7]);
    let v = le_value(b);
    assert(0 <= b0 + b1 * 0x100u64 + b2 * 0x1_0000u64 + b3 * 0x100_0000u64 + b4 * 0x1_0000_0000u64
        + b5 * 0x100_0000_0000u64 + b6 * 0x1_0000_0000_0000u64 + b7 * 0x100_0000_0000_0000u64
        <= 0xffff_ffff_ffff_ffffu64) by (bit_vector);
    let x = v as u64;
    assert(x as u8 == b0 && (x >> 8) as u8 == b1 && (x >> 16) as u8 == b2 && (x >> 24) as u8 == b3
        && (x >> 32) as u8 == b4 && (x >> 40) as u8 == b5 && (x >> 48) as u8 == b6
        && (x >> 56) as u8 == b7) by (bit_vector)
        requires
            x == b0 + b1 * 0x100u64 + b2 * 0x1_0000u64 + b3 * 0x100_0000u64 + b4
                * 0x1_0000_0000u64 + b5 * 0x100_0000_0000u64 + b6 * 0x1_0000_0000_0000u64 + b7
                * 0x100_0000_0000_0000u64,
    ;
    assert(le_bytes(x) =~= b);
}

/// The bytes that store the pointer-sized word `x` in emulator memory.
pub fn u64_to_le(x: u64) -> (r: Vec<u8>)
    ensures
        r@ == le_bytes(x),
        le_value(r@) == x,
{
    proof {
        lemma_le_value_of_bytes(x);
    }
    let mut r: Vec<u8> = Vec::new();
    r.push(x as u8);
    r.push((x >> 8) as u8);
    r.push((x >> 16) as u8);
    r.push((x >> 24) as u8);
    r.push((x >> 32) as u8);
    r.push((x >> 40) as u8);
    r.push((x >> 48) as u8);
    r.push((x >> 56) as u8);
    assert(r@ =~= le_bytes(x));
    r
}

/// The pointer-sized word stored little-endian in the first eight bytes of `b`.
pub fn u64_from_le(b: &[u8]) -> (r: u64)
    requires
        b@.len() >= 8,
    ensures
        r == le_value(b@),
{
    let r = u64_from_le_at(b, 0);
    assert(b@.subrange(0, 8) =~= b@.take(8));
    r
}

/// The word stored little-endian in `b[off..off + 8]`.
pub fn u64_from_le_at(b: &[u8], off: usize) -> (r: u64)
    requires
        off + 8 <= b@.len(),
    ensures
        r == le_value(b@.subrange(off as int, off + 8)),
{
    let (b0, b1, b2, b3, b4, b5, b6, b7) = (
        b[off],
        b[off + 1],
        b[off + 2],
        b[off + 3],
        b[off + 4],
        b[off + 5],
        b[off + 6],
        b[off + 7],
    );
    let r = (b0 as u64) | ((b1 as u64) << 8) | ((b2 as u64) << 16) | ((b3 as u64) << 24) | ((
    b4 as u64) << 32) | ((b5 as u64) << 40) | ((b6 as u64) << 48) | ((b7 as u64) << 56);
    assert(r == b0 + b1 * 0x100u64 + b2 * 0x1_0000u64 + b3 * 0x100_0000u64 + b4 * 0x1_0000_0000u64
        + b5 * 0x100_0000_0000u64 + b6 * 0x1_0000_0000_0000u64 + b7 * 0x100_0000_0000_0000u64)
        by (bit_vector)
        requires
            r == (b0 as u64) | ((b1 as u64) << 8) | ((b2 as u64) << 16) | ((b3 as u64) << 24) | ((
            b4 as u64) << 32) | ((b5 as u64) << 40) | ((b6 as u64) << 48) | ((b7 as u64) << 56),
    ;
    r
}

/// The System V argument registers, in argument order.
#[derive(Clone, Copy, Debug, PartialEq, Eq, Structural)]
pub enum ArgRegister {
    Rdi,
    Rsi,
    Rdx,
    Rcx,
    R8,
    R9,
}

/// The register that carries argument `idx`, if it is one of the first six.
pub open spec fn arg_register(idx: u32) -> Option<ArgRegister> {
    if idx == 0 {
        Some(ArgRegister::Rdi)
    } else if idx == 1 {
        Some(ArgRegister::Rsi)
    } else if idx == 2 {
        Some(ArgRegister::Rdx)
    } else if idx == 3 {
        Some(ArgRegister::Rcx)
    } else if idx == 4 {
        Some(ArgRegister::R8)
    } else if idx == 5 {
        Some(ArgRegister::R9)
    } else {
        None
    }
}

/// Where argument `idx` of a call lives: arguments 0 to 5 in registers, the
/// others in the stack slots above the return address.
pub fn param_register(idx: u32) -> (r: Option<ArgRegister>)
    ensures
        r == arg_register(idx),
        r is Some <==> idx < 6,
{
    match idx {
        0 => Some(ArgRegister::Rdi),
        1 => Some(ArgRegister::Rsi),
        2 => Some(ArgRegister::Rdx),
        3 => Some(ArgRegister::Rcx),
        4 => Some(ArgRegister::R8),
        5 => Some(ArgRegister::R9),
        _ => None,
    }
}

/// The stack address of argument `idx` (6 or more) when the stack pointer,
/// at the callee's entry, is `rsp`: `rsp + 8 * (idx - 5)`.
pub fn param_stack_address(idx: u32, rsp: u64) -> (r: u64)
    requires
        idx >= 6,
        rsp + 8 * (idx - 5) <= u64::MAX,
    ensures
        r == rsp + 8 * (idx - 5),
{
    rsp + 8 * (idx as u64 - 5)
}

/// Arguments of a call never share a place: two different arguments are
/// in two different registers, or two different stack slots, or one in a
/// register and one on the stack. So setting argument `i` to `v` (a
/// register write, or the word `v` stored little-endian in its slot) leaves
/// every other argument as it was, and reading argument `i` back from the
/// same place with the same stack pointer gives `v`.
pub proof fn lemma_param_places_distinct(i: u32, j: u32, rsp: u64, v: u64)
    ensures
        arg_register(i) is Some <==> i < 6,
        i != j && i < 6 && j < 6 ==> arg_register(i) != arg_register(j),
        i != j && i >= 6 && j >= 6 ==> rsp + 8 * (i - 5) != rsp + 8 * (j - 5),
        le_value(le_bytes(v)) == v,
{
    lemma_le_value_of_bytes(v);
}

/// `p` is the C string held at the start of `buf`: the bytes before the
/// first NUL, or the whole buffer when it holds none.
pub open spec fn is_c_str_prefix(buf: Seq<u8>, p: Seq<u8>) -> bool {
    &&& p.len() <= buf.len()
    &&& p == buf.take(p.len() as int)
    &&& !p.contains(0u8)
    &&& p.len() < buf.len() ==> buf[p.len() as int] == 0u8
}

/// The C string at the start of `b`: its bytes before the first NUL, or all
/// of `b` when it holds none.
pub open spec fn c_str_of(b: Seq<u8>) -> Seq<u8>
    decreases b.len(),
{
    if b.len() == 0 || b[0] == 0u8 {
        Seq::empty()
    } else {
        seq![b[0]] + c_str_of(b.drop_first())
    }
}

/// `c_str_of(b)` is the C string at the start of `b`.
pub proof fn lemma_c_str_of(b: Seq<u8>)
    ensures
        is_c_str_prefix(b, c_str_of(b)),
    decreases b.len(),
{
    if b.len() > 0 && b[0] != 0u8 {
        let t = b.drop_first();
        lemma_c_str_of(t);
        let p = c_str_of(b);
        let q = c_str_of(t);
        assert(p == seq![b[0]] + q);
        assert(p =~= b.take(p.len() as int)) by {
            assert forall|i: int| 0 <= i < p.len() implies p[i] == b[i] by {
                if i > 0 {
                    assert(p[i] == q[i - 1]);
                    assert(q[i - 1] == t[i - 1]);
                }
            }
        }
        assert(!p.contains(0u8)) by {
            if p.contains(0u8) {
                let i = choose|i: int| 0 <= i < p.len() && p[i] == 0u8;
                if i > 0 {
                    assert(q[i - 1] == 0u8);
                    assert(q.contains(0u8));
                }
            }
        }
        if p.len() < b.len() {
            assert(b[p.len() as int] == t[q.len() as int]);
        }
    } else {
        assert(c_str_of(b) =~= b.take(0));
    }
}

/// The bytes before the first NUL in `buf` (all of `buf` when it has none).
pub fn c_str_prefix(buf: &[u8]) -> (r: Vec<u8>)
    ensures
        is_c_str_prefix(buf@, r@),
{
    let mut r: Vec<u8> = Vec::new();
    let mut i: usize = 0;
    while i < buf.len()
        invariant
            i <= buf@.len(),
            r@ == buf@.take(i as int),
            !r@.contains(0u8),
        decreases buf@.len() - i,
    {
        if buf[i] == 0 {
            return r;
        }
        r.push(buf[i]);
        i = i + 1;
        assert(r@ =~= buf@.take(i as int));
    }
    assert(buf@.take(i as int) =~= buf@);
    r
}

/// `String::from_utf8`: the text that `bytes` encode in UTF-8, or `None`
/// when they are not valid UTF-8.
#[verifier::external_body]
pub fn string_from_utf8(bytes: Vec<u8>) -> (r: Option<String>)
    ensures
        r is Some <==> valid_utf8(bytes@),
        r matches Some(s) ==> s@ == decode_utf8(bytes@),
{
    String::from_utf8(bytes).ok()
}

/// Whether the C string at the start of `buf` is valid UTF-8, which
/// `c_string_from_buffer` needs: reading one that is not ends the program.
pub fn c_string_is_utf8(buf: &[u8]) -> (r: bool)
    ensures
        r == valid_utf8(c_str_of(buf@)),
{
    let p = c_str_prefix(buf);
    proof {
        lemma_c_str_of(buf@);
        lemma_c_str_prefix_unique(buf@, p@, c_str_of(buf@));
    }
    string_from_utf8(p).is_some()
}

/// The text of the C string at the start of `buf` (what `emu_reads` returns
/// for the bytes it read). Its bytes must be valid UTF-8 (test it with
/// `c_string_is_utf8`): reading one that is not ends the program.
pub fn c_string_from_buffer(buf: &[u8]) -> (r: String)
    requires
        valid_utf8(c_str_of(buf@)),
    ensures
        r@ == decode_utf8(c_str_of(buf@)),
{
    let p = c_str_prefix(buf);
    proof {
        lemma_c_str_of(buf@);
        lemma_c_str_prefix_unique(buf@, p@, c_str_of(buf@));
    }
    match string_from_utf8(p) {
        Some(s) => s,
        // Not reached: the bytes are valid UTF-8.
        None => String::new(),
    }
}

/// A buffer has only one C-string prefix.
pub proof fn lemma_c_str_prefix_unique(buf: Seq<u8>, p: Seq<u8>, q: Seq<u8>)
    requires
        is_c_str_prefix(buf, p),
    ensures
        is_c_str_prefix(buf, q) ==> p == q,
{
    if is_c_str_prefix(buf, q) {
        if p.len() < q.len() {
            assert(q[p.len() as int] == buf[p.len() as int]);
            assert(q.contains(0u8));
        } else if q.len() < p.len() {
            assert(p[q.len() as int] == buf[q.len() as int]);
            assert(p.contains(0u8));
        }
        assert(p =~= q);
    }
}

/// Encoding a text with one more character appends that character's bytes.
pub proof fn lemma_encode_utf8_push(s: Seq<char>, c: char)
    ensures
        encode_utf8(s.push(c)) == encode_utf8(s) + encode_scalar(c as u32),
    decreases s.len(),
{
    if s.len() == 0 {
        assert(s.push(c).drop_first() =~= Seq::<char>::empty());
        assert(encode_utf8(Seq::<char>::empty()) =~= Seq::<u8>::empty());
        assert(encode_scalar(c as u32) + Seq::<u8>::empty() =~= encode_scalar(c as u32));
        assert(encode_utf8(s) =~= Seq::<u8>::empty());
        assert(Seq::<u8>::empty() + encode_scalar(c as u32) =~= encode_scalar(c as u32));
    } else {
        assert(s.push(c).drop_first() =~= s.drop_first().push(c));
        assert(s.push(c)[0] == s[0]);
        lemma_encode_utf8_push(s.drop_first(), c);
        assert(encode_utf8(s.push(c)) =~= encode_scalar(s[0] as u32) + (encode_utf8(s.drop_first())
            + encode_scalar(c as u32)));
    }
}

/// A character other than NUL is encoded without a zero byte.
pub proof fn lemma_scalar_has_no_zero(c: char)
    requires
        c != '\0',
    ensures
        !encode_scalar(c as u32).contains(0u8),
{
    let v = c as u32;
    assert(v != 0);
    let e = encode_scalar(v);
    assert((v & 0x7F) as u8 != 0u8 || !(v <= 0x7F) || v == 0) by (bit_vector);
    assert(0xC0u8 | (((v >> 6) & 0x1F) as u8) != 0u8) by (bit_vector);
    assert(0xE0u8 | (((v >> 12) & 0x0F) as u8) != 0u8) by (bit_vector);
    assert(0xF0u8 | (((v >> 18) & 0x7) as u8) != 0u8) by (bit_vector);
    assert(0x80u8 | ((v & 0x3F) as u8) != 0u8) by (bit_vector);
    assert(0x80u8 | (((v >> 6) & 0x3F) as u8) != 0u8) by (bit_vector);
    assert(0x80u8 | (((v >> 12) & 0x3F) as u8) != 0u8) by (bit_vector);
    assert forall|i: int| 0 <= i < e.len() implies e[i] != 0u8 by {
    }
}

/// A text without NUL is encoded without a zero byte.
pub proof fn lemma_encode_has_no_zero(s: Seq<char>)
    requires
        !s.contains('\0'),
    ensures
        !encode_utf8(s).contains(0u8),
    decreases s.len(),
{
    if s.len() > 0 {
        assert(!s.drop_first().contains('\0')) by {
            if s.drop_first().contains('\0') {
                let i = choose|i: int| 0 <= i < s.drop_first().len() && s.drop_first()[i] == '\0';
                assert(s[i + 1] == '\0');
            }
        }
        assert(s[0] != '\0') by {
            if s[0] == '\0' {
                assert(s.contains('\0'));
            }
        }
        lemma_encode_has_no_zero(s.drop_first());
        lemma_scalar_has_no_zero(s[0]);
        let a = encode_scalar(s[0] as u32);
        let b = encode_utf8(s.drop_first());
        assert(encode_utf8(s) == a + b);
        if (a + b).contains(0u8) {
            let i = choose|i: int| 0 <= i < (a + b).len() && (a + b)[i] == 0u8;
            if i < a.len() {
                assert(a[i] == 0u8);
                assert(a.contains(0u8));
            } else {
                assert(b[i - a.len()] == 0u8);
                assert(b.contains(0u8));
            }
        }
    }
}

/// A NUL-free text stored as its UTF-8 bytes followed by a NUL is read back
/// as the same text: its bytes are the C string at the start of the buffer,
/// they are valid UTF-8, and they decode to the text. (So
/// `c_string_from_buffer` accepts the buffer and returns the text.)
pub proof fn lemma_c_string_round_trip(s: Seq<char>, buf: Seq<u8>)
    requires
        !s.contains('\0'),
        encode_utf8(s).len() < buf.len(),
        buf.take(encode_utf8(s).len() as int) == encode_utf8(s),
        buf[encode_utf8(s).len() as int] == 0u8,
    ensures
        is_c_str_prefix(buf, encode_utf8(s)),
        c_str_of(buf) == encode_utf8(s),
        valid_utf8(encode_utf8(s)),
        decode_utf8(encode_utf8(s)) == s,
{
    lemma_encode_has_no_zero(s);
    encode_utf8_valid_utf8(s);
    encode_utf8_decode_utf8(s);
    lemma_c_str_of(buf);
    lemma_c_str_prefix_unique(buf, encode_utf8(s), c_str_of(buf));
}

} // verus!
