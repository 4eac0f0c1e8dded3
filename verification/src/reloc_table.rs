//! The relocation table: a text list of image offsets, one hexadecimal
//! number per line, turned into the `bincode` words that the loader reads.

use vstd::prelude::*;
use vstd::string::StrSliceExecFns;
use crate::macho::{bincode_words, count_fits, sequence_count};
use crate::emu::{le_bytes, lemma_le_value_of_bytes};

verus! {

/// A character of Unicode's `White_Space` set, what `str::trim` strips.
pub open spec fn is_white_space(c: char) -> bool {
    let n = c as u32;
    ||| 0x09 <= n <= 0x0d
    ||| n == 0x20
    ||| n == 0x85
    ||| n == 0xa0
    ||| n == 0x1680
    ||| 0x2000 <= n <= 0x200a
    ||| n == 0x2028
    ||| n == 0x2029
    ||| n == 0x202f
    ||| n == 0x205f
    ||| n == 0x3000
}

/// `s` without its leading white space.
pub open spec fn trim_start(s: Seq<char>) -> Seq<char>
    decreases s.len(),
{
    if s.len() > 0 && is_white_space(s[0]) {
        trim_start(s.drop_first())
    } else {
        s
    }
}

/// `s` without its trailing white space.
pub open spec fn trim_end(s: Seq<char>) -> Seq<char>
    decreases s.len(),
{
    if s.len() > 0 && is_white_space(s.last()) {
        trim_end(s.drop_last())
    } else {
        s
    }
}

/// `s` without leading and trailing white space.
pub open spec fn trimmed(s: Seq<char>) -> Seq<char> {
    trim_end(trim_start(s))
}

/// `s` with every leading `0x` taken off, one after the other.
pub open spec fn strip_hex_prefixes(s: Seq<char>) -> Seq<char>
    decreases s.len(),
{
    if s.len() >= 2 && s[0] == '0' && s[1] == 'x' {
        strip_hex_prefixes(s.subrange(2, s.len() as int))
    } else {
        s
    }
}

/// The value of a hex digit (either case), or `None`.
pub open spec fn hex_char_value(c: char) -> Option<int> {
    if '0' <= c <= '9' {
        Some(c as int - '0' as int)
    } else if 'a' <= c <= 'f' {
        Some(c as int - 'a' as int + 10)
    } else if 'A' <= c <= 'F' {
        Some(c as int - 'A' as int + 10)
    } else {
        None
    }
}

/// Every character of `d` is a hex digit.
pub open spec fn all_hex_chars(d: Seq<char>) -> bool {
    forall|i: int| 0 <= i < d.len() ==> (#[trigger] hex_char_value(d[i])) is Some
}

/// The number that the hex digits `d` write, most significant first.
pub open spec fn digits_value(d: Seq<char>) -> int
    decreases d.len(),
{
    if d.len() == 0 {
        0
    } else {
        digits_value(d.drop_last()) * 16 + hex_char_value(d.last())->0
    }
}

/// What `u64::from_str_radix(t, 16)` gives: an optional `+`, then at least
/// one hex digit and nothing else, of a value that fits in 64 bits.
pub open spec fn hex_u64(t: Seq<char>) -> Option<u64> {
    let d = if t.len() > 0 && t[0] == '+' {
        t.drop_first()
    } else {
        t
    };
    if d.len() > 0 && all_hex_chars(d) && digits_value(d) <= u64::MAX {
        Some(digits_value(d) as u64)
    } else {
        None
    }
}

/// The offset that a line of the list stands for: the line trimmed, its
/// leading `0x`s taken off, read as hexadecimal.
pub open spec fn reloc_line_value(line: Seq<char>) -> Option<u64> {
    hex_u64(strip_hex_prefixes(trimmed(line)))
}

/// All lines before `k` are offsets.
pub open spec fn lines_ok_before(lines: Seq<Seq<char>>, k: int) -> bool {
    forall|i: int| 0 <= i < k ==> (#[trigger] reloc_line_value(lines[i])) is Some
}

/// The words of the table for `lines`, all of which are offsets.
pub open spec fn reloc_words(lines: Seq<Seq<char>>) -> Seq<usize> {
    Seq::new(lines.len(), |i: int| (reloc_line_value(lines[i])->0) as usize)
}

/// The views of a list of strings.
pub open spec fn line_views(lines: Seq<String>) -> Seq<Seq<char>> {
    Seq::new(lines.len(), |i: int| lines[i]@)
}

/// Digit values are never negative.
proof fn lemma_digits_value_nonneg(d: Seq<char>)
    requires
        all_hex_chars(d),
    ensures
        digits_value(d) >= 0,
    decreases d.len(),
{
    if d.len() > 0 {
        assert(hex_char_value(d[d.len() - 1]) is Some);
        lemma_digits_value_nonneg(d.drop_last());
    }
}

/// More digits never make a smaller number.
proof fn lemma_digits_value_grows(d: Seq<char>, k: int)
    requires
        all_hex_chars(d),
        0 <= k <= d.len(),
    ensures
        digits_value(d.subrange(0, k)) <= digits_value(d),
    decreases d.len(),
{
    if k < d.len() {
        let p = d.drop_last();
        assert(all_hex_chars(p)) by {
            assert forall|i: int| 0 <= i < p.len() implies (#[trigger] hex_char_value(p[i])) is Some by {
                assert(p[i] == d[i]);
            }
        }
        assert(hex_char_value(d[d.len() - 1]) is Some);
        lemma_digits_value_grows(p, k);
        lemma_digits_value_nonneg(p);
        assert(p.subrange(0, k) =~= d.subrange(0, k));
    } else {
        assert(d.subrange(0, k) =~= d);
    }
}

/// The characters of `s`, in order.
fn chars_of(s: &str) -> (r: Vec<char>)
    ensures
        r@ == s@,
{
    let n = s.unicode_len();
    let mut v: Vec<char> = Vec::new();
    let mut i: usize = 0;
    while i < n
        invariant
            n == s@.len(),
            i <= n,
            v@ == s@.subrange(0, i as int),
        decreases n - i,
    {
        v.push(s.get_char(i));
        i = i + 1;
        assert(v@ =~= s@.subrange(0, i as int));
    }
    assert(v@ =~= s@);
    v
}

/// Whether `c` is white space in Unicode's sense.
fn white_space(c: char) -> (r: bool)
    ensures
        r == is_white_space(c),
{
    let n = c as u32;
    (0x09 <= n && n <= 0x0d) || n == 0x20 || n == 0x85 || n == 0xa0 || n == 0x1680 || (0x2000
        <= n && n <= 0x200a) || n == 0x2028 || n == 0x2029 || n == 0x202f || n == 0x205f || n
        == 0x3000
}

/// The value of the hex digit `c`, or `None`.
fn hex_char(c: char) -> (r: Option<u64>)
    ensures
        r matches Some(v) ==> hex_char_value(c) == Some(v as int),
        r is None ==> hex_char_value(c) is None,
        r matches Some(v) ==> v < 16,
{
    if '0' <= c && c <= '9' {
        Some((c as u32 - '0' as u32) as u64)
    } else if 'a' <= c && c <= 'f' {
        Some((c as u32 - 'a' as u32 + 10) as u64)
    } else if 'A' <= c && c <= 'F' {
        Some((c as u32 - 'A' as u32 + 10) as u64)
    } else {
        None
    }
}

/// One line of the list read as an offset: trimmed, stripped of its
/// leading `0x`s and read as hexadecimal; `None` where that fails.
pub fn parse_reloc_line(line: &str) -> (r: Option<u64>)
    ensures
        r == reloc_line_value(line@),
{
    let cs = chars_of(line);
    let ghost s = cs@;
    let n = cs.len();
    // leading white space
    let mut lo: usize = 0;
    assert(s.subrange(0, n as int) =~= s);
    while lo < n && white_space(cs[lo])
        invariant
            lo <= n == s.len(),
            cs@ == s,
            trim_start(s) == trim_start(s.subrange(lo as int, n as int)),
        decreases n - lo,
    {
        assert(s.subrange(lo as int, n as int).drop_first() =~= s.subrange(lo + 1, n as int));
        lo = lo + 1;
    }
    assert(trim_start(s) == s.subrange(lo as int, n as int));
    // trailing white space
    let mut hi: usize = n;
    while hi > lo && white_space(cs[hi - 1])
        invariant
            lo <= hi <= n == s.len(),
            cs@ == s,
            trim_end(s.subrange(lo as int, n as int)) == trim_end(s.subrange(lo as int, hi as int)),
        decreases hi - lo,
    {
        assert(s.subrange(lo as int, hi as int).drop_last() =~= s.subrange(lo as int, hi - 1));
        hi = hi - 1;
    }
    assert(trimmed(s) == s.subrange(lo as int, hi as int));
    // leading `0x`s
    while hi - lo >= 2 && cs[lo] == '0' && cs[lo + 1] == 'x'
        invariant
            lo <= hi <= n == s.len(),
            cs@ == s,
            strip_hex_prefixes(trimmed(s)) == strip_hex_prefixes(s.subrange(lo as int, hi as int)),
        decreases hi - lo,
    {
        assert(s.subrange(lo as int, hi as int).subrange(2, hi - lo) =~= s.subrange(lo + 2, hi as int));
        lo = lo + 2;
    }
    let ghost t = s.subrange(lo as int, hi as int);
    assert(strip_hex_prefixes(trimmed(s)) == t);
    // an optional sign, then the digits
    let start: usize = if lo < hi && cs[lo] == '+' { lo + 1 } else { lo };
    let ghost d = s.subrange(start as int, hi as int);
    assert(d =~= (if t.len() > 0 && t[0] == '+' { t.drop_first() } else { t }));
    if start == hi {
        return None;
    }
    let mut v: u64 = 0;
    let mut i: usize = start;
    while i < hi
        invariant
            start <= i <= hi <= n == s.len(),
            cs@ == s,
            d == s.subrange(start as int, hi as int),
            line@ == s,
            strip_hex_prefixes(trimmed(s)) == t,
            d == (if t.len() > 0 && t[0] == '+' { t.drop_first() } else { t }),
            all_hex_chars(s.subrange(start as int, i as int)),
            v as int == digits_value(s.subrange(start as int, i as int)),
        decreases hi - i,
    {
        let ghost p = s.subrange(start as int, i as int);
        let ghost q = s.subrange(start as int, i + 1);
        assert(q.drop_last() =~= p);
        assert(q.last() == cs@[i as int]);
        match hex_char(cs[i]) {
            None => {
                assert(d[i - start] == cs@[i as int]);
                assert(hex_char_value(d[i - start]) is None);
                assert(!all_hex_chars(d));
                return None;
            },
            Some(dv) => {
                assert(all_hex_chars(q)) by {
                    assert forall|j: int| 0 <= j < q.len() implies (#[trigger] hex_char_value(q[j])) is Some by {
                        if j < p.len() {
                            assert(q[j] == p[j]);
                        }
                    }
                }
                if v > (u64::MAX - dv) / 16 {
                    proof {
                        assert(v as int * 16 + dv > u64::MAX) by (nonlinear_arith)
                            requires
                                v > (u64::MAX - dv) / 16,
                                dv < 16,
                        ;
                        assert(digits_value(q) == digits_value(p) * 16 + hex_char_value(q.last())->0);
                        assert(digits_value(q) > u64::MAX);
                        if all_hex_chars(d) {
                            assert(d.subrange(0, i + 1 - start) =~= q);
                            lemma_digits_value_grows(d, i + 1 - start);
                            assert(digits_value(d) > u64::MAX);
                        }
                    }
                    return None;
                }
                assert(v as int * 16 + dv <= u64::MAX) by (nonlinear_arith)
                    requires
                        v <= (u64::MAX - dv) / 16,
                        dv < 16,
                ;
                v = v * 16 + dv;
                i = i + 1;
            },
        }
    }
    assert(s.subrange(start as int, i as int) =~= d);
    Some(v)
}

/// Why a relocation table could not be made.
#[derive(Debug)]
pub enum RelocTableError {
    /// The line at this index (from 0) is no hexadecimal offset.
    BadLine(usize),
    /// The encoder refused the words, with its message.
    Encode(String),
}

/// The offsets of all lines, each as a machine word, or the index of the
/// first line that is no offset.
pub fn parse_reloc_lines(lines: &Vec<String>) -> (r: Result<Vec<usize>, usize>)
    ensures
        r matches Ok(v) ==> lines_ok_before(line_views(lines@), lines@.len() as int) && v@
            == reloc_words(line_views(lines@)),
        r matches Err(k) ==> k < lines@.len() && lines_ok_before(line_views(lines@), k as int)
            && reloc_line_value(lines@[k as int]@) is None,
        r is Ok <==> lines_ok_before(line_views(lines@), lines@.len() as int),
{
    let ghost ls = line_views(lines@);
    let mut v: Vec<usize> = Vec::new();
    let mut i: usize = 0;
    while i < lines.len()
        invariant
            i <= lines@.len(),
            ls == line_views(lines@),
            v@.len() == i,
            lines_ok_before(ls, i as int),
            forall|j: int| 0 <= j < i ==> #[trigger] v@[j] == (reloc_line_value(ls[j])->0) as usize,
        decreases lines@.len() - i,
    {
        assert(ls[i as int] == lines@[i as int]@);
        match parse_reloc_line(lines[i].as_str()) {
            None => {
                assert(!lines_ok_before(ls, lines@.len() as int));
                return Err(i);
            },
            Some(a) => {
                v.push(a as usize);
                i = i + 1;
            },
        }
    }
    assert(v@ =~= reloc_words(ls));
    Ok(v)
}

/// The standard `bincode` encoding of an unsigned integer: one byte up to
/// 250, else a marker byte (251, 252 or 253) and the value in 2, 4 or 8
/// little-endian bytes, the fewest that hold it.
pub open spec fn varint_bytes(x: u64) -> Seq<u8> {
    if x <= 250 {
        seq![x as u8]
    } else if x <= 0xffff {
        seq![251u8, x as u8, (x >> 8) as u8]
    } else if x <= 0xffff_ffff {
        seq![252u8, x as u8, (x >> 8) as u8, (x >> 16) as u8, (x >> 24) as u8]
    } else {
        seq![253u8] + le_bytes(x)
    }
}

/// The encodings of the words `ws`, one after the other.
pub open spec fn elements_encoding(ws: Seq<usize>) -> Seq<u8>
    decreases ws.len(),
{
    if ws.len() == 0 {
        Seq::empty()
    } else {
        varint_bytes(ws[0] as u64) + elements_encoding(ws.drop_first())
    }
}

/// The standard `bincode` encoding of a sequence of words: its length, then
/// its elements, each a variable-length integer.
pub open spec fn words_encoding(ws: Seq<usize>) -> Seq<u8> {
    varint_bytes(ws.len() as u64) + elements_encoding(ws)
}

/// Each element takes at least one byte.
proof fn lemma_elements_encoding_len(ws: Seq<usize>)
    ensures
        elements_encoding(ws).len() >= ws.len(),
    decreases ws.len(),
{
    if ws.len() > 0 {
        lemma_elements_encoding_len(ws.drop_first());
    }
}

/// The count at the start of an encoding is the integer encoded there.
proof fn lemma_varint_count(n: u64, rest: Seq<u8>)
    ensures
        sequence_count(varint_bytes(n) + rest) == Some(n as int),
{
    let b = varint_bytes(n) + rest;
    if n <= 250 {
        assert((n as u8) as u64 == n) by (bit_vector)
            requires
                n <= 250,
        ;
        assert(b[0] == n as u8);
    } else if n <= 0xffff {
        assert((n as u8) as u64 + 0x100u64 * ((n >> 8) as u8) as u64 == n) by (bit_vector)
            requires
                n <= 0xffff,
        ;
        assert(b[0] == 251u8 && b[1] == n as u8 && b[2] == (n >> 8) as u8);
    } else if n <= 0xffff_ffff {
        assert((n as u8) as u64 + 0x100u64 * ((n >> 8) as u8) as u64 + 0x1_0000u64 * ((n >> 16) as u8) as u64
            + 0x100_0000u64 * ((n >> 24) as u8) as u64 == n) by (bit_vector)
            requires
                n <= 0xffff_ffff,
        ;
        assert(b[0] == 252u8 && b[1] == n as u8 && b[2] == (n >> 8) as u8 && b[3] == (n >> 16) as u8
            && b[4] == (n >> 24) as u8);
    } else {
        lemma_le_value_of_bytes(n);
        assert(b.subrange(1, 9) =~= le_bytes(n));
        assert(b[0] == 253u8);
    }
}

/// An encoded sequence starts with its element count, and that count fits
/// its length.
pub proof fn lemma_encoding_count_fits(ws: Seq<usize>)
    requires
        ws.len() <= u64::MAX,
    ensures
        sequence_count(words_encoding(ws)) == Some(ws.len() as int),
        count_fits(words_encoding(ws)),
{
    lemma_varint_count(ws.len() as u64, elements_encoding(ws));
    lemma_elements_encoding_len(ws);
}

/// `bincode::encode_to_vec` of a `Vec<usize>` with the standard
/// configuration: it always succeeds (it writes into a growing vector) and
/// writes `words_encoding`. Claimed besides: what it writes,
/// `decode_from_slice` with the same configuration reads back as the same
/// words (the round trip that the crate's documentation shows).
#[verifier::external_body]
fn encode_words(words: &Vec<usize>) -> (r: Result<Vec<u8>, String>)
    ensures
        r is Ok,
        r matches Ok(b) ==> b@ == words_encoding(words@),
        r matches Ok(b) ==> (bincode_words(b@) matches Ok(w) && w == words@),
{
    bincode::encode_to_vec(words, bincode::config::standard()).map_err(|e| e.to_string())
}

/// The relocation table for the list `lines`: the offsets encoded as
/// `bincode` words. What it returns, the loader's `reloc_addresses` reads
/// back as the same offsets.
pub fn build_reloc_table(lines: &Vec<String>) -> (r: Result<Vec<u8>, RelocTableError>)
    ensures
        !lines_ok_before(line_views(lines@), lines@.len() as int) ==> (r matches Err(
            RelocTableError::BadLine(k),
        ) && k < lines@.len() && lines_ok_before(line_views(lines@), k as int)
            && reloc_line_value(lines@[k as int]@) is None),
        lines_ok_before(line_views(lines@), lines@.len() as int) ==> (r matches Ok(t) && t@
            == words_encoding(reloc_words(line_views(lines@)))),
        r matches Ok(t) ==> count_fits(t@),
        r matches Ok(t) ==> (bincode_words(t@) matches Ok(w) && w == reloc_words(line_views(lines@))),
{
    match parse_reloc_lines(lines) {
        Err(k) => Err(RelocTableError::BadLine(k)),
        Ok(words) => match encode_words(&words) {
            Ok(b) => {
                proof {
                    assert(words@.len() == words.len());
                    assert(words.len() <= usize::MAX);
                    lemma_encoding_count_fits(words@);
                }
                Ok(b)
            },
            Err(m) => Err(RelocTableError::Encode(m)),
        },
    }
}

} // verus!
