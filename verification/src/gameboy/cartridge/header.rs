//! The cartridge header: the bytes 0x0100 to 0x014F of a cartridge image.

use vstd::prelude::*;

verus! {

/// Where the header starts in a cartridge image.
pub const HEADER_START: usize = 0x0100;

/// The number of bytes from the start of the header to its last byte.
pub const CARTRIDGE_HEADER_SIZE: usize = 0x50;

/// The largest ROM size code: 32 KiB times 2 to the 8th, which is 8 MiB.
pub const MAX_ROM_SIZE_CODE: u8 = 8;

/// Why a cartridge image is not accepted.
#[derive(Clone, Copy, Debug, PartialEq, Eq, Structural)]
pub enum CartridgeError {
    /// The image ends before its header does, or holds fewer bytes than its
    /// header declares.
    Truncated,
    /// The controller named by the byte at 0x0147 is not emulated.
    UnsupportedController(u8),
    /// The byte at 0x0148 names no ROM size that the controller can hold.
    UnsupportedRomSize(u8),
    /// The image holds more bytes than its header declares.
    Oversized,
}

/// What the emulator reads from the header.
#[derive(Debug)]
pub struct CartridgeHeader {
    /// The title: the bytes at 0x0134 to 0x0143 up to the first zero byte,
    /// each taken as one character.
    pub title: String,
    /// The byte at 0x0147.
    pub cartridge_type_code: u8,
    /// The byte at 0x0148.
    pub rom_size_code: u8,
    /// The byte at 0x0149.
    pub ram_size_code: u8,
    /// ROM size in KiB.
    pub rom_size: i32,
    /// Number of ROM banks of 16 KiB.
    pub rom_bank_count: i32,
    /// RAM size in KiB.
    pub ram_size: i32,
    /// Number of RAM banks of 8 KiB.
    pub ram_bank_count: i32,
}

/// The characters of a title field: those before the first zero byte.
pub open spec fn title_chars(field: Seq<u8>) -> Seq<char>
    decreases field.len(),
{
    if field.len() == 0 || field[0] == 0 {
        Seq::<char>::empty()
    } else {
        seq![field[0] as char] + title_chars(field.skip(1))
    }
}

/// The ROM size in KiB that a size code stands for: 32 KiB doubled `code`
/// times.
pub open spec fn rom_kib(code: u8) -> int
    decreases code,
{
    if code == 0 {
        32
    } else {
        2 * rom_kib((code - 1) as u8)
    }
}

/// The RAM size in KiB that a size code stands for.
pub open spec fn ram_kib(code: u8) -> int {
    if code == 2 {
        8
    } else if code == 3 {
        32
    } else if code == 4 {
        128
    } else if code == 5 {
        64
    } else {
        0
    }
}

/// Whether the emulator has a controller for this type code.
pub open spec fn controller_supported(code: u8) -> bool {
    code <= 0x03 || (0x0F <= code <= 0x13)
}

/// Whether a controller of this type can hold a ROM of this size code: the
/// plain controller holds exactly 32 KiB, the others up to 8 MiB.
pub open spec fn rom_size_supported(type_code: u8, rom_code: u8) -> bool {
    if type_code == 0 {
        rom_code == 0
    } else {
        rom_code <= MAX_ROM_SIZE_CODE
    }
}

/// What loading an image of `bytes` does: the reason for refusing it, or
/// nothing if it is accepted.
pub open spec fn image_fault(bytes: Seq<u8>) -> Option<CartridgeError> {
    if bytes.len() < HEADER_START + CARTRIDGE_HEADER_SIZE {
        Some(CartridgeError::Truncated)
    } else if !controller_supported(bytes[0x0147]) {
        Some(CartridgeError::UnsupportedController(bytes[0x0147]))
    } else if !rom_size_supported(bytes[0x0147], bytes[0x0148]) {
        Some(CartridgeError::UnsupportedRomSize(bytes[0x0148]))
    } else if bytes.len() < rom_kib(bytes[0x0148]) * 1024 {
        Some(CartridgeError::Truncated)
    } else if bytes.len() > rom_kib(bytes[0x0148]) * 1024 {
        Some(CartridgeError::Oversized)
    } else {
        None
    }
}

impl CartridgeHeader {
    /// The fields that are computed from the size codes agree with them.
    pub open spec fn wf(&self) -> bool {
        &&& self.rom_size_code <= MAX_ROM_SIZE_CODE
        &&& self.rom_size == rom_kib(self.rom_size_code)
        &&& self.rom_bank_count * 16 == self.rom_size
        &&& self.ram_size == ram_kib(self.ram_size_code)
        &&& self.ram_bank_count * 8 == self.ram_size
    }

    /// Whether this is the header that `header_bytes` hold.
    pub open spec fn describes(&self, header_bytes: Seq<u8>) -> bool {
        &&& self.title@ == title_chars(header_bytes.subrange(0x34, 0x44))
        &&& self.cartridge_type_code == header_bytes[0x47]
        &&& self.rom_size_code == header_bytes[0x48]
        &&& self.ram_size_code == header_bytes[0x49]
        &&& self.wf()
    }

    /// Read the header from the bytes 0x0100 to 0x014F of an image.
    pub fn new(header_bytes: &[u8]) -> (header: Self)
        requires
            header_bytes@.len() == CARTRIDGE_HEADER_SIZE,
            header_bytes@[0x48] <= MAX_ROM_SIZE_CODE,
        ensures
            header.describes(header_bytes@),
    {
        let cartridge_code: u8 = header_bytes[0x47];
        let rom_code: u8 = header_bytes[0x48];
        let ram_code: u8 = header_bytes[0x49];

        let ghost field = header_bytes@.subrange(0x34, 0x44);
        let mut title = String::new();
        let mut index: usize = 0;
        proof {
            assert(field.skip(0) == field);
            assert(title@ + title_chars(field) == title_chars(field));
        }
        while index < 16 && header_bytes[0x34 + index] != 0
            invariant
                index <= 16,
                header_bytes@.len() == CARTRIDGE_HEADER_SIZE,
                field == header_bytes@.subrange(0x34, 0x44),
                title@ + title_chars(field.skip(index as int)) == title_chars(field),
            decreases 16 - index,
        {
            let c_byte = header_bytes[0x34 + index];
            proof {
                let rest = field.skip(index as int);
                assert(rest[0] == c_byte);
                assert(rest.skip(1) == field.skip(index as int + 1));
                assert(title@.push(c_byte as char) + title_chars(rest.skip(1)) == title@ + (
                seq![c_byte as char] + title_chars(rest.skip(1))));
            }
            push_char(&mut title, c_byte as char);
            index = index + 1;
        }
        proof {
            let rest = field.skip(index as int);
            assert(rest.len() == 0 || rest[0] == 0);
            assert(title@ + Seq::<char>::empty() == title@);
        }

        let rom_size = rom_size_kib(rom_code);
        let rom_banks = rom_size / 16;

        let (ram_size, ram_banks): (i32, i32) = match ram_code {
            0x02 => (8, 1),
            0x03 => (32, 4),
            0x04 => (128, 16),
            0x05 => (64, 8),
            _ => (0, 0),
        };

        CartridgeHeader {
            title,
            cartridge_type_code: cartridge_code,
            rom_size_code: rom_code,
            ram_size_code: ram_code,
            rom_size,
            rom_bank_count: rom_banks,
            ram_size,
            ram_bank_count: ram_banks,
        }
    }

    /// Say whether an image can be loaded, and if not, why not.
    pub fn check_image(image: &[u8]) -> (fault: Option<CartridgeError>)
        ensures
            fault == image_fault(image@),
    {
        if image.len() < HEADER_START + CARTRIDGE_HEADER_SIZE {
            return Some(CartridgeError::Truncated);
        }
        let type_code = image[0x0147];
        let rom_code = image[0x0148];
        let supported = type_code <= 0x03 || (0x0F <= type_code && type_code <= 0x13);
        if !supported {
            return Some(CartridgeError::UnsupportedController(type_code));
        }
        let size_ok = if type_code == 0 {
            rom_code == 0
        } else {
            rom_code <= MAX_ROM_SIZE_CODE
        };
        if !size_ok {
            return Some(CartridgeError::UnsupportedRomSize(rom_code));
        }
        let declared: usize = (rom_size_kib(rom_code) as usize) * 1024;
        if image.len() < declared {
            Some(CartridgeError::Truncated)
        } else if image.len() > declared {
            Some(CartridgeError::Oversized)
        } else {
            None
        }
    }
}

/// The ROM size in KiB for a size code.
pub fn rom_size_kib(code: u8) -> (kib: i32)
    requires
        code <= MAX_ROM_SIZE_CODE,
    ensures
        kib == rom_kib(code),
        32 <= kib <= 8192,
        kib % 32 == 0,
{
    let mut kib: i32 = 32;
    let mut done: u8 = 0;
    while done < code
        invariant
            done <= code <= MAX_ROM_SIZE_CODE,
            kib == rom_kib(done),
            32 <= kib,
            kib % 32 == 0,
            done == 0 ==> kib == 32,
            done == 1 ==> kib == 64,
            done == 2 ==> kib == 128,
            done == 3 ==> kib == 256,
            done == 4 ==> kib == 512,
            done == 5 ==> kib == 1024,
            done == 6 ==> kib == 2048,
            done == 7 ==> kib == 4096,
            done == 8 ==> kib == 8192,
        decreases code - done,
    {
        kib = kib * 2;
        done = done + 1;
    }
    kib
}

/// The sizes that the ROM size codes stand for.
pub proof fn lemma_rom_kib_values()
    ensures
        rom_kib(0) == 32,
        rom_kib(1) == 64,
        rom_kib(2) == 128,
        rom_kib(3) == 256,
        rom_kib(4) == 512,
        rom_kib(5) == 1024,
        rom_kib(6) == 2048,
        rom_kib(7) == 4096,
        rom_kib(8) == 8192,
{
    reveal_with_fuel(rom_kib, 10);
}

/// `String::push` of the standard library: the character is appended to the
/// end of the string, and nothing else changes.
#[verifier::external_body]
fn push_char(text: &mut String, c: char)
    ensures
        final(text)@ == old(text)@.push(c),
{
    text.push(c);
}

} // verus!
