//! Verified core of the asset-cache registration client: the Mach-O image
//! loader, the emulator's syscall table and object store, the stand-ins for
//! system functions, the machine-identity normalisation and the byte-level
//! helpers they rest on.

pub mod emu;
pub mod text;
pub mod hexcodec;
pub mod patch;
pub mod mac_serial;
pub mod macho;
pub mod osx;
pub mod reloc_table;
pub mod macho_check;

use vstd::prelude::*;
use crate::mac_serial::{MacSerial, normalized};
use base64::Engine;

verus! {

/// Why an operation of the cache interface failed, with the message of the
/// underlying error.
#[derive(Debug)]
pub enum CacheError {
    HandleFailed(String),
}

/// A created session: its context handle and the data to send.
#[derive(Debug, Clone)]
pub struct CacheResult {
    pub ctx: u64,
    pub data: Vec<u8>,
}

/// The character of a 6-bit value in the standard base64 alphabet.
pub open spec fn base64_digit(v: int) -> char {
    if v < 26 {
        ('A' as int + v) as char
    } else if v < 52 {
        ('a' as int + v - 26) as char
    } else if v < 62 {
        ('0' as int + v - 52) as char
    } else if v == 62 {
        '+'
    } else {
        '/'
    }
}

/// The standard base64 text of `b`: four characters for each three bytes,
/// the last group padded with `=`.
pub open spec fn base64_text(b: Seq<u8>) -> Seq<char>
    decreases b.len(),
{
    if b.len() == 0 {
        Seq::empty()
    } else if b.len() == 1 {
        seq![base64_digit(b[0] as int / 4), base64_digit((b[0] as int % 4) * 16), '=', '=']
    } else if b.len() == 2 {
        seq![
            base64_digit(b[0] as int / 4),
            base64_digit((b[0] as int % 4) * 16 + b[1] as int / 16),
            base64_digit((b[1] as int % 16) * 4),
            '=',
        ]
    } else {
        seq![
            base64_digit(b[0] as int / 4),
            base64_digit((b[0] as int % 4) * 16 + b[1] as int / 16),
            base64_digit((b[1] as int % 16) * 4 + b[2] as int / 64),
            base64_digit(b[2] as int % 64),
        ] + base64_text(b.skip(3))
    }
}

/// `base64::engine::general_purpose::STANDARD.encode`: the base64 text of
/// `data` in the standard alphabet, padded. It panics only when the length
/// of the text overflows `usize`, which no slice (at most `isize::MAX`
/// bytes long) reaches.
#[verifier::external_body]
fn base64_encode(data: &[u8]) -> (r: String)
    requires
        data@.len() <= isize::MAX,
    ensures
        r@ == base64_text(data@),
{
    base64::engine::general_purpose::STANDARD.encode(data)
}

/// The text a session's data is shown as: its standard base64.
pub fn session_text(data: &[u8]) -> (r: String)
    requires
        data@.len() <= isize::MAX,
    ensures
        r@ == base64_text(data@),
{
    base64_encode(data)
}

/// Installs a machine identity in `serial`. `parsed` is the outcome of
/// reading the identity from its JSON text: the identity, or the parser's
/// message. On success the identity is kept normalised; on failure `serial`
/// is left as it was and the message is reported as `HandleFailed`.
pub fn init_serial(serial: &mut MacSerial, parsed: Result<MacSerial, String>) -> (r: Result<(), CacheError>)
    ensures
        parsed is Ok <==> r is Ok,
        parsed matches Ok(conf) ==> final(serial)@ == normalized(conf@),
        parsed matches Err(msg) ==> (r matches Err(CacheError::HandleFailed(m)) && m@ == msg@)
            && final(serial)@ == old(serial)@,
{
    match parsed {
        Ok(conf) => {
            serial.copy_from_str(conf);
            Ok(())
        },
        Err(e) => Err(CacheError::HandleFailed(e)),
    }
}

} // verus!
