//! The identity of the machine being impersonated, and how the values read
//! from a configuration are normalised before the system stand-ins hand them
//! out: each is NUL-terminated, some are hex-encoded (with their own NUL),
//! and the serial keys are lower-cased.

use vstd::prelude::*;
use vstd::string::{StringExecFns, StringSliceAdditionalSpecFns};
use vstd::utf8::encode_utf8;
use crate::hexcodec::{hex_encode, hex_text};

verus! {

/// The machine identity: the system version and revision, the board and
/// product, the boot volume, platform serial and UUID, the network address,
/// the firmware ROM and logic-board serial, and five keyed serials.
pub struct MacSerial {
    pub osversion: String,
    pub osrevision: u32,
    pub board_id: String,
    pub product_name: String,
    pub boot_uuid: String,
    pub serial_number: String,
    pub uuid: String,
    pub mac_address: String,
    pub rom: String,
    pub mlb: String,
    pub gq_serial: String,
    pub fy_serial: String,
    pub kb_serial: String,
    pub oy_serial: String,
    pub ab_serial: String,
}

/// The text of every field of a `MacSerial`.
pub struct MacSerialView {
    pub osversion: Seq<char>,
    pub osrevision: u32,
    pub board_id: Seq<char>,
    pub product_name: Seq<char>,
    pub boot_uuid: Seq<char>,
    pub serial_number: Seq<char>,
    pub uuid: Seq<char>,
    pub mac_address: Seq<char>,
    pub rom: Seq<char>,
    pub mlb: Seq<char>,
    pub gq_serial: Seq<char>,
    pub fy_serial: Seq<char>,
    pub kb_serial: Seq<char>,
    pub oy_serial: Seq<char>,
    pub ab_serial: Seq<char>,
}

impl View for MacSerial {
    type V = MacSerialView;

    open spec fn view(&self) -> MacSerialView {
        MacSerialView {
            osversion: self.osversion@,
            osrevision: self.osrevision,
            board_id: self.board_id@,
            product_name: self.product_name@,
            boot_uuid: self.boot_uuid@,
            serial_number: self.serial_number@,
            uuid: self.uuid@,
            mac_address: self.mac_address@,
            rom: self.rom@,
            mlb: self.mlb@,
            gq_serial: self.gq_serial@,
            fy_serial: self.fy_serial@,
            kb_serial: self.kb_serial@,
            oy_serial: self.oy_serial@,
            ab_serial: self.ab_serial@,
        }
    }
}

/// The lower-case form of a text, as `str::to_lowercase` gives it.
pub uninterp spec fn lowercase(s: Seq<char>) -> Seq<char>;

/// `str::to_lowercase`.
#[verifier::external_body]
fn to_lowercase(s: &str) -> (r: String)
    ensures
        r@ == lowercase(s@),
{
    s.to_lowercase()
}

/// A text followed by a NUL.
pub open spec fn nul_terminated(s: Seq<char>) -> Seq<char> {
    s.push('\0')
}

/// The NUL-terminated lower-case hex text of the UTF-8 bytes of `s`.
pub open spec fn hex_field(s: Seq<char>) -> Seq<char> {
    nul_terminated(hex_text(encode_utf8(s)))
}

/// The identity `c` as it is kept: every text NUL-terminated; board,
/// product and boot volume hex-encoded with their own NUL first; the
/// logic-board serial hex-encoded; the keyed serials lower-cased.
pub open spec fn normalized(c: MacSerialView) -> MacSerialView {
    MacSerialView {
        osversion: nul_terminated(c.osversion),
        osrevision: c.osrevision,
        board_id: hex_field(nul_terminated(c.board_id)),
        product_name: hex_field(nul_terminated(c.product_name)),
        boot_uuid: hex_field(nul_terminated(c.boot_uuid)),
        serial_number: nul_terminated(c.serial_number),
        uuid: nul_terminated(c.uuid),
        mac_address: nul_terminated(c.mac_address),
        rom: nul_terminated(c.rom),
        mlb: hex_field(c.mlb),
        gq_serial: nul_terminated(lowercase(c.gq_serial)),
        fy_serial: nul_terminated(lowercase(c.fy_serial)),
        kb_serial: nul_terminated(lowercase(c.kb_serial)),
        oy_serial: nul_terminated(lowercase(c.oy_serial)),
        ab_serial: nul_terminated(lowercase(c.ab_serial)),
    }
}

/// The keyed serial that the configuration stores under `key`: the five
/// serials are read from the keys `Gq3489ugfi`, `Fyp98tpgj`, `kbjfrfpoJU`,
/// `oycqAZloTNDm` and `abKPld1EcMni`; other keys name no keyed serial.
pub open spec fn keyed_serial(s: MacSerialView, key: Seq<char>) -> Option<Seq<char>> {
    if key == "Gq3489ugfi"@ {
        Some(s.gq_serial)
    } else if key == "Fyp98tpgj"@ {
        Some(s.fy_serial)
    } else if key == "kbjfrfpoJU"@ {
        Some(s.kb_serial)
    } else if key == "oycqAZloTNDm"@ {
        Some(s.oy_serial)
    } else if key == "abKPld1EcMni"@ {
        Some(s.ab_serial)
    } else {
        None
    }
}

/// Every keyed serial is installed the same way: as the lower-case form of
/// its configured text followed by a NUL. So two keys configured with the
/// same text (in one identity or in two) are installed as the same text.
pub proof fn lemma_keyed_serials_normalized_alike(c: MacSerialView, d: MacSerialView, k1: Seq<char>, k2: Seq<char>)
    requires
        keyed_serial(c, k1) is Some,
        keyed_serial(d, k2) is Some,
    ensures
        keyed_serial(normalized(c), k1) == Some(nul_terminated(lowercase(keyed_serial(c, k1)->0))),
        keyed_serial(c, k1) == keyed_serial(d, k2) ==> keyed_serial(normalized(c), k1) == keyed_serial(normalized(d), k2),
{
}

impl MacSerial {
    /// An identity with every text empty and revision 0.
    pub fn new() -> (r: MacSerial)
        ensures
            r@.osversion.len() == 0,
            r@.osrevision == 0,
            r@.board_id.len() == 0,
            r@.product_name.len() == 0,
            r@.boot_uuid.len() == 0,
            r@.serial_number.len() == 0,
            r@.uuid.len() == 0,
            r@.mac_address.len() == 0,
            r@.rom.len() == 0,
            r@.mlb.len() == 0,
            r@.gq_serial.len() == 0,
            r@.fy_serial.len() == 0,
            r@.kb_serial.len() == 0,
            r@.oy_serial.len() == 0,
            r@.ab_serial.len() == 0,
    {
        MacSerial {
            osversion: String::new(),
            osrevision: 0,
            board_id: String::new(),
            product_name: String::new(),
            boot_uuid: String::new(),
            serial_number: String::new(),
            uuid: String::new(),
            mac_address: String::new(),
            rom: String::new(),
            mlb: String::new(),
            gq_serial: String::new(),
            fy_serial: String::new(),
            kb_serial: String::new(),
            oy_serial: String::new(),
            ab_serial: String::new(),
        }
    }

    /// `s` followed by a NUL.
    pub fn zero(s: String) -> (r: String)
        ensures
            r@ == nul_terminated(s@),
    {
        let ghost before = s@;
        let mut s = s;
        s.append("\0");
        proof {
            reveal_strlit("\0");
        }
        assert(s@ =~= nul_terminated(before));
        s
    }

    /// The NUL-terminated hex text of the UTF-8 bytes of `s`.
    fn hex_zero(s: &String) -> (r: String)
        ensures
            r@ == hex_field(s@),
    {
        Self::zero(hex_encode(s.as_str().as_bytes()))
    }

    /// The NUL-terminated lower-case form of `s`.
    fn lower_zero(s: &String) -> (r: String)
        ensures
            r@ == nul_terminated(lowercase(s@)),
    {
        Self::zero(to_lowercase(s.as_str()))
    }

    /// Takes over the identity `conf`, normalised.
    pub fn copy_from_str(&mut self, conf: MacSerial)
        ensures
            final(self)@ == normalized(conf@),
    {
        self.osversion = Self::zero(conf.osversion);
        self.osrevision = conf.osrevision;

        self.board_id = Self::hex_zero(&Self::zero(conf.board_id));
        self.product_name = Self::hex_zero(&Self::zero(conf.product_name));
        self.boot_uuid = Self::hex_zero(&Self::zero(conf.boot_uuid));
        self.serial_number = Self::zero(conf.serial_number);
        self.uuid = Self::zero(conf.uuid);
        self.mac_address = Self::zero(conf.mac_address);
        self.rom = Self::zero(conf.rom);
        self.mlb = Self::hex_zero(&conf.mlb);
        self.gq_serial = Self::lower_zero(&conf.gq_serial);
        self.fy_serial = Self::lower_zero(&conf.fy_serial);
        self.kb_serial = Self::lower_zero(&conf.kb_serial);
        self.oy_serial = Self::lower_zero(&conf.oy_serial);
        self.ab_serial = Self::lower_zero(&conf.ab_serial);
    }
}

} // verus!
