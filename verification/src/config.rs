//! The settings of a call.

use crate::entropy::cpu_count;
use vstd::prelude::*;

verus! {

/// Where the chunked shift stage is meant to run.
#[derive(Debug, Clone, Copy)]
pub enum DeviceList {
    Auto,
    Cpu,
    Gpu,
}

/// Which inputs seed the substitution box.
#[derive(Debug, Clone, Copy)]
pub enum SboxTypes {
    PasswordBased,
    NonceBased,
    PasswordAndNonceBased,
}

/// The reduction polynomial of the byte ring, given by its low eight
/// coefficients; the leading `x^8` is implied.
#[derive(Debug, Clone, Copy)]
pub enum IrreduciblePoly {
    AES,
    Custom(u8),
}

impl IrreduciblePoly {
    /// The low eight coefficients of the polynomial.
    pub open spec fn spec_value(self) -> u8 {
        match self {
            IrreduciblePoly::AES => 0x1b,
            IrreduciblePoly::Custom(val) => val,
        }
    }

    /// The low eight coefficients: `0x1b` for the AES polynomial
    /// `x^8 + x^4 + x^3 + x + 1`, the given byte otherwise.
    pub fn value(&self) -> (r: u8)
        ensures
            r == self.spec_value(),
    {
        match self {
            IrreduciblePoly::AES => 0x1b,
            IrreduciblePoly::Custom(val) => *val,
        }
    }
}

/// The settings of one encryption or decryption call. A blob does not record
/// them: decryption needs the `rounds`, `sbox` and `gf_poly` it was made with.
#[derive(Debug, Clone, Copy)]
pub struct Config {
    pub rounds: usize,
    pub device: DeviceList,
    pub sbox: SboxTypes,
    pub thread_num: usize,
    pub gf_poly: IrreduciblePoly,
}

/// A ready-made choice of settings.
#[derive(Debug, Clone, Copy)]
pub enum Profile {
    Secure,
    Balanced,
    Fast,
}

impl Profile {
    /// The round count of the profile.
    pub open spec fn spec_rounds(self) -> usize {
        match self {
            Profile::Fast => 2,
            Profile::Balanced => 3,
            Profile::Secure => 3,
        }
    }

    /// The device of the profile.
    pub open spec fn spec_device(self) -> DeviceList {
        match self {
            Profile::Fast => DeviceList::Gpu,
            Profile::Balanced => DeviceList::Auto,
            Profile::Secure => DeviceList::Cpu,
        }
    }

    /// The substitution box seeding of the profile.
    pub open spec fn spec_sbox(self) -> SboxTypes {
        match self {
            Profile::Fast => SboxTypes::PasswordBased,
            Profile::Balanced => SboxTypes::PasswordAndNonceBased,
            Profile::Secure => SboxTypes::PasswordAndNonceBased,
        }
    }
}

impl Default for Config {
    /// Three rounds on the processor, the box seeded by password and nonce,
    /// the AES polynomial, and one worker per logical processor.
    fn default() -> (r: Self)
        ensures
            r.rounds == 3,
            r.device is Cpu,
            r.sbox is PasswordAndNonceBased,
            r.gf_poly is AES,
            r.thread_num >= 1,
    {
        Self {
            device: DeviceList::Cpu,
            sbox: SboxTypes::PasswordAndNonceBased,
            thread_num: cpu_count(),
            gf_poly: IrreduciblePoly::AES,
            rounds: 3,
        }
    }
}

impl Config {
    /// The same settings with another seeding of the substitution box.
    pub fn with_sbox(self, sbox: SboxTypes) -> (r: Self)
        ensures
            r == (Config { sbox, ..self }),
    {
        let mut out = self;
        out.sbox = sbox;
        out
    }

    /// The same settings with another device.
    pub fn with_device(self, device: DeviceList) -> (r: Self)
        ensures
            r == (Config { device, ..self }),
    {
        let mut out = self;
        out.device = device;
        out
    }

    /// The same settings with another number of workers.
    pub fn set_thread(self, num: usize) -> (r: Self)
        ensures
            r == (Config { thread_num: num, ..self }),
    {
        let mut out = self;
        out.thread_num = num;
        out
    }

    /// The same settings with another reduction polynomial.
    pub fn gf_poly(self, poly: IrreduciblePoly) -> (r: Self)
        ensures
            r == (Config { gf_poly: poly, ..self }),
    {
        let mut out = self;
        out.gf_poly = poly;
        out
    }

    /// The round count that a request for `num` rounds gives: at least one.
    pub open spec fn clamp_rounds(num: usize) -> usize {
        if num < 1 {
            1
        } else {
            num
        }
    }

    /// The same settings with another round count; a count below one is
    /// raised to one.
    pub fn rounds(self, num: usize) -> (r: Self)
        ensures
            r == (Config { rounds: Self::clamp_rounds(num), ..self }),
            r.rounds >= 1,
    {
        let mut out = self;
        if num < 1 {
            out.rounds = 1;
        } else {
            out.rounds = num;
        }
        out
    }

    /// The settings of a profile, with one worker per logical processor.
    pub fn from_profile(profile: Profile) -> (r: Self)
        ensures
            r.rounds == profile.spec_rounds(),
            r.device == profile.spec_device(),
            r.sbox == profile.spec_sbox(),
            r.gf_poly is AES,
            r.thread_num >= 1,
    {
        match profile {
            Profile::Fast => Self {
                device: DeviceList::Gpu,
                sbox: SboxTypes::PasswordBased,
                thread_num: cpu_count(),
                gf_poly: IrreduciblePoly::AES,
                rounds: 2,
            },
            Profile::Balanced => Self {
                device: DeviceList::Auto,
                sbox: SboxTypes::PasswordAndNonceBased,
                thread_num: cpu_count(),
                gf_poly: IrreduciblePoly::AES,
                rounds: 3,
            },
            Profile::Secure => Self {
                device: DeviceList::Cpu,
                sbox: SboxTypes::PasswordAndNonceBased,
                thread_num: cpu_count(),
                gf_poly: IrreduciblePoly::AES,
                rounds: 3,
            },
        }
    }
}

} // verus!
