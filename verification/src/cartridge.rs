pub mod mbc;
pub mod rtc;

use vstd::prelude::*;
use crate::bits::{lemma_byte_bits, lemma_word_bits};
use vstd::slice::slice_to_vec;
use crate::error::{decimal, hex_byte, is_invalid_rom, describe_code, describe_one, describe_two, invalid_rom, EmulatorError, Result};
use self::mbc::{Mbc1, Mbc3, Mbc5};
use self::rtc::{Rtc, RtcRegisters, rtc_latched_register};

verus! {

pub const TITLE_START: usize = 0x0134;
pub const TITLE_END_EXCLUSIVE: usize = 0x0144;
pub const CGB_FLAG_OFFSET: usize = 0x0143;
pub const CARTRIDGE_TYPE_OFFSET: usize = 0x0147;
pub const ROM_SIZE_OFFSET: usize = 0x0148;
pub const RAM_SIZE_OFFSET: usize = 0x0149;
pub const ROM_BANK_SIZE: usize = 0x4000;
pub const RAM_BANK_SIZE: usize = 0x2000;
pub const MIN_ROM_SIZE: usize = 0x8000;

/// Text of a byte string read as UTF-8, each invalid sequence replaced by
/// U+FFFD (what `String::from_utf8_lossy` gives).
pub uninterp spec fn lossy_utf8(bytes: Seq<u8>) -> Seq<char>;

/// A text with its trailing whitespace removed (what `str::trim_end` gives).
pub uninterp spec fn trim_end_text(text: Seq<char>) -> Seq<char>;

/// Calls `String::from_utf8_lossy` and takes the text as an owned string;
/// the result is named by `lossy_utf8`.
#[verifier::external_body]
pub(crate) fn decode_lossy(bytes: &[u8]) -> (text: String)
    ensures
        text@ == lossy_utf8(bytes@),
{
    String::from_utf8_lossy(bytes).into_owned()
}

/// Calls `str::trim_end` and takes the text as an owned string; the result
/// is named by `trim_end_text`.
#[verifier::external_body]
fn trim_end_owned(text: &str) -> (trimmed: String)
    ensures
        trimmed@ == trim_end_text(text@),
{
    text.trim_end().to_string()
}

/// The memory bank controllers that are supported.
#[derive(Debug, Clone, Copy, PartialEq, Eq, Structural)]
pub enum MapperKind {
    NoMbc,
    Mbc1,
    Mbc3,
    Mbc5,
}

/// The controller a cartridge-type byte names, if it is supported.
pub open spec fn mapper_kind_for(cartridge_type: u8) -> Option<MapperKind> {
    if cartridge_type == 0x00 || cartridge_type == 0x08 || cartridge_type == 0x09 {
        Some(MapperKind::NoMbc)
    } else if 0x01 <= cartridge_type <= 0x03 {
        Some(MapperKind::Mbc1)
    } else if 0x0F <= cartridge_type <= 0x13 {
        Some(MapperKind::Mbc3)
    } else if 0x19 <= cartridge_type <= 0x1E {
        Some(MapperKind::Mbc5)
    } else {
        None
    }
}

/// The ROM size a size code declares: 32 KiB doubled `code` times, for codes 0 to 8.
pub open spec fn rom_size_for(code: u8) -> Option<nat> {
    if code == 0 {
        Some(0x8000)
    } else if code == 1 {
        Some(0x10000)
    } else if code == 2 {
        Some(0x20000)
    } else if code == 3 {
        Some(0x40000)
    } else if code == 4 {
        Some(0x80000)
    } else if code == 5 {
        Some(0x100000)
    } else if code == 6 {
        Some(0x200000)
    } else if code == 7 {
        Some(0x400000)
    } else if code == 8 {
        Some(0x800000)
    } else {
        None
    }
}

/// The external RAM size a RAM size code declares.
pub open spec fn ram_size_for(code: u8) -> Option<nat> {
    if code == 0 {
        Some(0)
    } else if code == 1 {
        Some(0x800)
    } else if code == 2 {
        Some(0x2000)
    } else if code == 3 {
        Some(0x8000)
    } else if code == 4 {
        Some(0x20000)
    } else if code == 5 {
        Some(0x10000)
    } else {
        None
    }
}

/// Whether a cartridge type has a battery that keeps its RAM (or clock).
pub open spec fn battery_for(cartridge_type: u8) -> bool {
    cartridge_type == 0x03 || cartridge_type == 0x06 || cartridge_type == 0x09 || cartridge_type
        == 0x0F || cartridge_type == 0x10 || cartridge_type == 0x13 || cartridge_type == 0x1B
        || cartridge_type == 0x1E
}

/// Whether a cartridge type has a real-time clock.
pub open spec fn rtc_for(cartridge_type: u8) -> bool {
    cartridge_type == 0x0F || cartridge_type == 0x10
}

/// `end` is where the title field stops: at its first zero byte, or after 16 bytes.
pub open spec fn is_title_end(field: Seq<u8>, end: int) -> bool {
    &&& 0 <= end <= 16
    &&& forall|i: int| 0 <= i < end ==> field[i] != 0
    &&& end < 16 ==> field[end] == 0
}

/// The title bytes of a ROM: the header field up to its first zero byte.
pub open spec fn title_bytes(rom: Seq<u8>) -> Seq<u8> {
    let field = rom.subrange(TITLE_START as int, TITLE_END_EXCLUSIVE as int);
    field.subrange(0, choose|end: int| is_title_end(field, end))
}

proof fn lemma_title_end_unique(field: Seq<u8>, a: int, b: int)
    requires
        is_title_end(field, a),
        is_title_end(field, b),
    ensures
        a == b,
{
    if a < b {
        assert(field[a] != 0);
    } else if b < a {
        assert(field[b] != 0);
    }
}

/// Whether `Cartridge::from_bytes` accepts a ROM image: 32 KiB or more,
/// a known controller, known ROM and RAM size codes, and at least the
/// declared ROM size.
/// `result` is an `InvalidRom` error whose reason reads `reason`.
pub open spec fn refused_for<T>(result: Result<T>, reason: Seq<char>) -> bool {
    result matches Err(EmulatorError::InvalidRom { reason: r }) && r@ == reason
}

/// The error a ROM image is refused with, the checks taken in this order:
/// too short for the smallest ROM, an unknown cartridge type, an unknown
/// ROM or RAM size code, shorter than the size its header declares.
pub open spec fn refused_with(rom: Seq<u8>, error: EmulatorError) -> bool {
    let code = rom[ROM_SIZE_OFFSET as int];
    if rom.len() < MIN_ROM_SIZE {
        refused_for(Err::<(), EmulatorError>(error), "expected at least "@ + decimal(MIN_ROM_SIZE as nat)
            + " bytes, got "@ + decimal(rom.len()))
    } else if mapper_kind_for(rom[CARTRIDGE_TYPE_OFFSET as int]) is None {
        error == (EmulatorError::UnsupportedCartridge { cartridge_type: rom[CARTRIDGE_TYPE_OFFSET as int] })
    } else if rom_size_for(code) is None {
        refused_for(Err::<(), EmulatorError>(error), "unsupported ROM size code: "@ + hex_byte(code))
    } else if ram_size_for(rom[RAM_SIZE_OFFSET as int]) is None {
        refused_for(
            Err::<(), EmulatorError>(error),
            "unsupported RAM size code: "@ + hex_byte(rom[RAM_SIZE_OFFSET as int]),
        )
    } else {
        refused_for(Err::<(), EmulatorError>(error), "declared ROM size is "@ + decimal(
            rom_size_for(code).unwrap() as nat,
        ) + " bytes, got "@ + decimal(rom.len()))
    }
}

pub open spec fn rom_accepted(rom: Seq<u8>) -> bool {
    &&& rom.len() >= MIN_ROM_SIZE
    &&& mapper_kind_for(rom[CARTRIDGE_TYPE_OFFSET as int]) is Some
    &&& rom_size_for(rom[ROM_SIZE_OFFSET as int]) is Some
    &&& ram_size_for(rom[RAM_SIZE_OFFSET as int]) is Some
    &&& rom.len() >= rom_size_for(rom[ROM_SIZE_OFFSET as int]).unwrap()
}

/// The fields of a cartridge header that the emulator uses.
#[derive(Debug, Clone, PartialEq, Eq)]
pub struct CartridgeHeader {
    title: String,
    cartridge_type: u8,
    cgb_flag: u8,
    rom_size_code: u8,
    ram_size_code: u8,
    mapper_kind: MapperKind,
    rom_size: usize,
    ram_size: usize,
}

impl CartridgeHeader {
    pub closed spec fn spec_title(&self) -> Seq<char> {
        self.title@
    }

    pub closed spec fn spec_cartridge_type(&self) -> u8 {
        self.cartridge_type
    }

    pub closed spec fn spec_cgb_flag(&self) -> u8 {
        self.cgb_flag
    }

    pub closed spec fn spec_rom_size_code(&self) -> u8 {
        self.rom_size_code
    }

    pub closed spec fn spec_ram_size_code(&self) -> u8 {
        self.ram_size_code
    }

    pub closed spec fn spec_mapper_kind(&self) -> MapperKind {
        self.mapper_kind
    }

    pub closed spec fn spec_rom_size(&self) -> nat {
        self.rom_size as nat
    }

    pub closed spec fn spec_ram_size(&self) -> nat {
        self.ram_size as nat
    }

    /// The decoded fields agree with the codes they were decoded from.
    pub open spec fn inv(&self) -> bool {
        &&& mapper_kind_for(self.spec_cartridge_type()) == Some(self.spec_mapper_kind())
        &&& rom_size_for(self.spec_rom_size_code()) == Some(self.spec_rom_size())
        &&& ram_size_for(self.spec_ram_size_code()) == Some(self.spec_ram_size())
    }

    /// The header that `rom` holds, when it parses.
    pub open spec fn parsed_from(&self, rom: Seq<u8>) -> bool {
        &&& self.inv()
        &&& self.spec_cartridge_type() == rom[CARTRIDGE_TYPE_OFFSET as int]
        &&& self.spec_cgb_flag() == rom[CGB_FLAG_OFFSET as int]
        &&& self.spec_rom_size_code() == rom[ROM_SIZE_OFFSET as int]
        &&& self.spec_ram_size_code() == rom[RAM_SIZE_OFFSET as int]
        &&& self.spec_title() == trim_end_text(lossy_utf8(title_bytes(rom)))
    }

    /// Reads the header at 0x0134-0x0149. A ROM too short to hold it is an
    /// `InvalidRom` error; then an unknown cartridge type is an
    /// `UnsupportedCartridge` error, and an unknown ROM or RAM size code an
    /// `InvalidRom` error.
    pub fn parse(rom: &[u8]) -> (result: Result<Self>)
        ensures
            rom@.len() <= RAM_SIZE_OFFSET ==> is_invalid_rom(result),
            rom@.len() > RAM_SIZE_OFFSET ==> {
                let t = rom@[CARTRIDGE_TYPE_OFFSET as int];
                &&& mapper_kind_for(t) is None ==> result == Err::<Self, EmulatorError>(
                    EmulatorError::UnsupportedCartridge { cartridge_type: t },
                )
                &&& mapper_kind_for(t) is Some && (rom_size_for(rom@[ROM_SIZE_OFFSET as int]) is None
                    || ram_size_for(rom@[RAM_SIZE_OFFSET as int]) is None) ==> is_invalid_rom(result)
                &&& mapper_kind_for(t) is Some && rom_size_for(rom@[ROM_SIZE_OFFSET as int]) is Some
                    && ram_size_for(rom@[RAM_SIZE_OFFSET as int]) is Some ==> result is Ok
            },
            result is Ok ==> result->Ok_0.parsed_from(rom@),
            rom@.len() <= RAM_SIZE_OFFSET ==> refused_for(result, "ROM does not contain a complete header"@),
            rom@.len() > RAM_SIZE_OFFSET && mapper_kind_for(rom@[CARTRIDGE_TYPE_OFFSET as int]) is Some
                && rom_size_for(rom@[ROM_SIZE_OFFSET as int]) is None ==> refused_for(
                result,
                "unsupported ROM size code: "@ + hex_byte(rom@[ROM_SIZE_OFFSET as int]),
            ),
            rom@.len() > RAM_SIZE_OFFSET && mapper_kind_for(rom@[CARTRIDGE_TYPE_OFFSET as int]) is Some
                && rom_size_for(rom@[ROM_SIZE_OFFSET as int]) is Some && ram_size_for(
                rom@[RAM_SIZE_OFFSET as int],
            ) is None ==> refused_for(result, "unsupported RAM size code: "@ + hex_byte(rom@[RAM_SIZE_OFFSET as int])),
    {
        if rom.len() <= RAM_SIZE_OFFSET {
            return Err(invalid_rom(String::from_str("ROM does not contain a complete header")));
        }
        let cartridge_type = rom[CARTRIDGE_TYPE_OFFSET];
        let cgb_flag = rom[CGB_FLAG_OFFSET];
        let mapper_kind = mapper_kind(cartridge_type)?;
        let rom_size_code = rom[ROM_SIZE_OFFSET];
        let ram_size_code = rom[RAM_SIZE_OFFSET];
        let rom_size = rom_size(rom_size_code)?;
        let ram_size = ram_size(ram_size_code)?;

        let ghost field = rom@.subrange(TITLE_START as int, TITLE_END_EXCLUSIVE as int);
        let mut title_end: usize = 0;
        while title_end < TITLE_END_EXCLUSIVE - TITLE_START && rom[TITLE_START + title_end] != 0
            invariant
                rom@.len() > RAM_SIZE_OFFSET,
                field == rom@.subrange(TITLE_START as int, TITLE_END_EXCLUSIVE as int),
                title_end <= 16,
                forall|i: int| 0 <= i < title_end ==> field[i] != 0,
            decreases 16 - title_end,
        {
            title_end += 1;
        }
        let mut title_raw: Vec<u8> = Vec::new();
        let mut i: usize = 0;
        while i < title_end
            invariant
                rom@.len() > RAM_SIZE_OFFSET,
                title_end <= 16,
                i <= title_end,
                title_raw@ == rom@.subrange(TITLE_START as int, TITLE_START + i),
            decreases title_end - i,
        {
            title_raw.push(rom[TITLE_START + i]);
            i += 1;
            assert(title_raw@ =~= rom@.subrange(TITLE_START as int, TITLE_START + i));
        }
        proof {
            assert(is_title_end(field, title_end as int));
            let chosen = choose|end: int| is_title_end(field, end);
            lemma_title_end_unique(field, chosen, title_end as int);
            assert(title_raw@ =~= title_bytes(rom@));
        }
        let decoded = decode_lossy(title_raw.as_slice());
        let title = trim_end_owned(decoded.as_str());

        Ok(CartridgeHeader {
            title,
            cartridge_type,
            cgb_flag,
            rom_size_code,
            ram_size_code,
            mapper_kind,
            rom_size,
            ram_size,
        })
    }

    pub fn title(&self) -> (title: &str)
        ensures
            title@ == self.spec_title(),
    {
        self.title.as_str()
    }

    pub fn cartridge_type(&self) -> (t: u8)
        ensures
            t == self.spec_cartridge_type(),
    {
        self.cartridge_type
    }

    pub fn cgb_flag(&self) -> (flag: u8)
        ensures
            flag == self.spec_cgb_flag(),
    {
        self.cgb_flag
    }

    /// Whether the game runs in colour mode: flag 0x80 (works on both) or 0xC0 (colour only).
    pub fn supports_cgb(&self) -> (supported: bool)
        ensures
            supported == (self.spec_cgb_flag() == 0x80 || self.spec_cgb_flag() == 0xC0),
    {
        self.cgb_flag == 0x80 || self.cgb_flag == 0xC0
    }

    pub fn requires_cgb(&self) -> (required: bool)
        ensures
            required == (self.spec_cgb_flag() == 0xC0),
    {
        self.cgb_flag == 0xC0
    }

    pub fn rom_size_code(&self) -> (code: u8)
        ensures
            code == self.spec_rom_size_code(),
    {
        self.rom_size_code
    }

    pub fn ram_size_code(&self) -> (code: u8)
        ensures
            code == self.spec_ram_size_code(),
    {
        self.ram_size_code
    }

    pub fn mapper_kind(&self) -> (kind: MapperKind)
        ensures
            kind == self.spec_mapper_kind(),
    {
        self.mapper_kind
    }

    pub fn rom_size(&self) -> (size: usize)
        ensures
            size == self.spec_rom_size(),
    {
        self.rom_size
    }

    pub fn ram_size(&self) -> (size: usize)
        ensures
            size == self.spec_ram_size(),
    {
        self.ram_size
    }
}

/// Decodes the cartridge-type byte.
pub fn mapper_kind(cartridge_type: u8) -> (result: Result<MapperKind>)
    ensures
        mapper_kind_for(cartridge_type) is Some ==> result == Ok::<MapperKind, EmulatorError>(
            mapper_kind_for(cartridge_type).unwrap(),
        ),
        mapper_kind_for(cartridge_type) is None ==> result == Err::<MapperKind, EmulatorError>(
            EmulatorError::UnsupportedCartridge { cartridge_type },
        ),
{
    match cartridge_type {
        0x00 | 0x08 | 0x09 => Ok(MapperKind::NoMbc),
        0x01..=0x03 => Ok(MapperKind::Mbc1),
        0x0F..=0x13 => Ok(MapperKind::Mbc3),
        0x19..=0x1E => Ok(MapperKind::Mbc5),
        _ => Err(EmulatorError::UnsupportedCartridge { cartridge_type }),
    }
}

pub fn has_battery(cartridge_type: u8) -> (battery: bool)
    ensures
        battery == battery_for(cartridge_type),
{
    match cartridge_type {
        0x03 | 0x06 | 0x09 | 0x0F | 0x10 | 0x13 | 0x1B | 0x1E => true,
        _ => false,
    }
}

pub fn has_rtc(cartridge_type: u8) -> (rtc: bool)
    ensures
        rtc == rtc_for(cartridge_type),
{
    match cartridge_type {
        0x0F | 0x10 => true,
        _ => false,
    }
}

/// Decodes the ROM size code: 32 KiB shifted left by the code, for codes 0 to 8.
pub fn rom_size(code: u8) -> (result: Result<usize>)
    ensures
        rom_size_for(code) is Some ==> result == Ok::<usize, EmulatorError>(
            rom_size_for(code).unwrap() as usize,
        ),
        rom_size_for(code) is None ==> is_invalid_rom(result),
        rom_size_for(code) is None ==> refused_for(result, "unsupported ROM size code: "@ + hex_byte(code)),
{
    if code <= 0x08 {
        let size = MIN_ROM_SIZE << code;
        assert(size == (if code == 0 {
            0x8000usize
        } else if code == 1 {
            0x10000usize
        } else if code == 2 {
            0x20000usize
        } else if code == 3 {
            0x40000usize
        } else if code == 4 {
            0x80000usize
        } else if code == 5 {
            0x100000usize
        } else if code == 6 {
            0x200000usize
        } else if code == 7 {
            0x400000usize
        } else {
            0x800000usize
        })) by (bit_vector)
            requires
                size == 0x8000usize << code,
                code <= 8,
        ;
        Ok(size)
    } else {
        Err(invalid_rom(describe_code("unsupported ROM size code: ", code)))
    }
}

/// Decodes the RAM size code.
pub fn ram_size(code: u8) -> (result: Result<usize>)
    ensures
        ram_size_for(code) is Some ==> result == Ok::<usize, EmulatorError>(
            ram_size_for(code).unwrap() as usize,
        ),
        ram_size_for(code) is None ==> is_invalid_rom(result),
        ram_size_for(code) is None ==> refused_for(result, "unsupported RAM size code: "@ + hex_byte(code)),
{
    match code {
        0x00 => Ok(0),
        0x01 => Ok(2 * 1024),
        0x02 => Ok(8 * 1024),
        0x03 => Ok(32 * 1024),
        0x04 => Ok(128 * 1024),
        0x05 => Ok(64 * 1024),
        _ => Err(invalid_rom(describe_code("unsupported RAM size code: ", code))),
    }
}

/// The bank controller state of a cartridge.
#[derive(Debug, Clone, Copy, PartialEq, Eq, Structural)]
pub enum Mapper {
    NoMbc,
    Mbc1(Mbc1),
    Mbc3(Mbc3),
    Mbc5(Mbc5),
}

impl Mapper {
    /// The controller after the game writes `value` to ROM address `address`.
    pub open spec fn after_rom_write(self, address: u16, value: u8) -> Mapper {
        match self {
            Mapper::NoMbc => Mapper::NoMbc,
            Mapper::Mbc1(m) => Mapper::Mbc1(
                if address <= 0x1FFF {
                    Mbc1 { ram_enabled: value & 0x0F == 0x0A, ..m }
                } else if address <= 0x3FFF {
                    Mbc1 {
                        rom_bank_low5: if value & 0x1F == 0 { 1 } else { value & 0x1F },
                        ..m
                    }
                } else if address <= 0x5FFF {
                    Mbc1 { bank_high2: value & 0x03, ..m }
                } else if address <= 0x7FFF {
                    Mbc1 { banking_mode: value & 0x01, ..m }
                } else {
                    m
                },
            ),
            Mapper::Mbc3(m) => Mapper::Mbc3(
                if address <= 0x1FFF {
                    Mbc3 { ram_rtc_enabled: value & 0x0F == 0x0A, ..m }
                } else if address <= 0x3FFF {
                    Mbc3 { rom_bank: if value & 0x7F == 0 { 1 } else { value & 0x7F }, ..m }
                } else if address <= 0x5FFF {
                    Mbc3 { ram_rtc_select: value, ..m }
                } else if address <= 0x7FFF {
                    m.latch_written(value)
                } else {
                    m
                },
            ),
            Mapper::Mbc5(m) => Mapper::Mbc5(
                if address <= 0x1FFF {
                    Mbc5 { ram_enabled: value & 0x0F == 0x0A, ..m }
                } else if address <= 0x2FFF {
                    Mbc5 { rom_bank: (m.rom_bank & 0x100) | value as u16, ..m }
                } else if address <= 0x3FFF {
                    Mbc5 { rom_bank: (m.rom_bank & 0x0FF) | (((value & 0x01) as u16) << 8u16), ..m }
                } else if address <= 0x5FFF {
                    Mbc5 { ram_bank: value & 0x0F, ..m }
                } else {
                    m
                },
            ),
        }
    }

    /// The controller state a freshly inserted cartridge of this kind starts in.
    pub open spec fn initial(kind: MapperKind, cartridge_type: u8) -> Mapper {
        match kind {
            MapperKind::NoMbc => Mapper::NoMbc,
            MapperKind::Mbc1 => Mapper::Mbc1(
                Mbc1 { ram_enabled: false, rom_bank_low5: 1, bank_high2: 0, banking_mode: 0 },
            ),
            MapperKind::Mbc3 => Mapper::Mbc3(
                Mbc3 {
                    ram_rtc_enabled: false,
                    has_rtc: rtc_for(cartridge_type),
                    rom_bank: 1,
                    ram_rtc_select: 0,
                    latch_armed: false,
                    rtc: Rtc {
                        cycles: 0,
                        seconds: 0,
                        minutes: 0,
                        hours: 0,
                        day_counter: 0,
                        halted: false,
                        carry: false,
                        latched: RtcRegisters {
                            seconds: 0,
                            minutes: 0,
                            hours: 0,
                            day_low: 0,
                            day_high: 0,
                        },
                    },
                },
            ),
            MapperKind::Mbc5 => Mapper::Mbc5(Mbc5 { ram_enabled: false, rom_bank: 1, ram_bank: 0 }),
        }
    }
}

/// The clock of a cartridge, when it has one.
pub open spec fn mapper_rtc(mapper: Mapper) -> Option<Rtc> {
    match mapper {
        Mapper::Mbc3(m) => if m.has_rtc {
            Some(m.rtc)
        } else {
            None
        },
        _ => None,
    }
}

/// A game cartridge: its ROM, external RAM, header and bank controller.
#[derive(Debug, Clone, PartialEq, Eq)]
pub struct Cartridge {
    rom: Vec<u8>,
    ram: Vec<u8>,
    header: CartridgeHeader,
    mapper: Mapper,
}

impl Cartridge {
    pub closed spec fn spec_rom(&self) -> Seq<u8> {
        self.rom@
    }

    pub closed spec fn spec_ram(&self) -> Seq<u8> {
        self.ram@
    }

    pub closed spec fn spec_header(&self) -> CartridgeHeader {
        self.header
    }

    pub closed spec fn spec_mapper(&self) -> Mapper {
        self.mapper
    }

    /// The ROM and RAM have the sizes the header declares and the controller
    /// is the kind the header names.
    pub open spec fn inv(&self) -> bool {
        let h = self.spec_header();
        &&& h.inv()
        &&& self.spec_rom().len() == h.spec_rom_size()
        &&& self.spec_ram().len() == h.spec_ram_size()
        &&& match self.spec_mapper() {
            Mapper::NoMbc => h.spec_mapper_kind() == MapperKind::NoMbc,
            Mapper::Mbc1(m) => h.spec_mapper_kind() == MapperKind::Mbc1 && m.inv(),
            Mapper::Mbc3(m) => h.spec_mapper_kind() == MapperKind::Mbc3 && m.inv() && m.has_rtc
                == rtc_for(h.spec_cartridge_type()),
            Mapper::Mbc5(m) => h.spec_mapper_kind() == MapperKind::Mbc5 && m.inv(),
        }
    }

    /// Number of 16 KiB ROM banks.
    pub open spec fn spec_rom_bank_count(&self) -> nat {
        self.spec_rom().len() / (ROM_BANK_SIZE as nat)
    }

    /// Number of 8 KiB RAM banks, at least one.
    pub open spec fn spec_ram_bank_count(&self) -> nat {
        let n = self.spec_ram().len() / (RAM_BANK_SIZE as nat);
        if n == 0 {
            1
        } else {
            n
        }
    }

    /// The ROM offset that CPU address `address` (0x0000-0x7FFF) reaches.
    pub open spec fn rom_offset(&self, address: u16) -> int {
        let count = self.spec_rom_bank_count();
        let offset = address as int % ROM_BANK_SIZE as int;
        match self.spec_mapper() {
            Mapper::NoMbc => address as int,
            Mapper::Mbc1(m) => (if address < 0x4000 {
                m.spec_fixed_rom_bank(count)
            } else {
                m.spec_switchable_rom_bank(count)
            }) * ROM_BANK_SIZE as int + offset,
            Mapper::Mbc3(m) => (if address < 0x4000 {
                0
            } else {
                m.spec_rom_bank(count)
            }) * ROM_BANK_SIZE as int + offset,
            Mapper::Mbc5(m) => (if address < 0x4000 {
                0
            } else {
                m.spec_rom_bank(count)
            }) * ROM_BANK_SIZE as int + offset,
        }
    }

    /// What reading ROM address `address` gives.
    pub open spec fn rom_read(&self, address: u16) -> Option<u8> {
        let i = self.rom_offset(address);
        if 0 <= i < self.spec_rom().len() {
            Some(self.spec_rom()[i])
        } else {
            None
        }
    }

    /// The RAM offset that a banked access to `address` (relative to 0xA000) reaches.
    pub open spec fn banked_ram_offset(&self, address: u16) -> int {
        let count = self.spec_ram_bank_count();
        let bank = match self.spec_mapper() {
            Mapper::NoMbc => 0,
            Mapper::Mbc1(m) => m.spec_ram_bank(count),
            Mapper::Mbc3(m) => m.spec_ram_bank(count),
            Mapper::Mbc5(m) => m.spec_ram_bank(count),
        };
        bank * RAM_BANK_SIZE as int + address as int % RAM_BANK_SIZE as int
    }

    /// The RAM byte that a banked access reaches, if it is in the RAM.
    pub open spec fn banked_ram_read(&self, address: u16) -> Option<u8> {
        let i = self.banked_ram_offset(address);
        if 0 <= i < self.spec_ram().len() {
            Some(self.spec_ram()[i])
        } else {
            None
        }
    }

    /// What reading external RAM address `address` (relative to 0xA000) gives.
    pub open spec fn ram_read(&self, address: u16) -> Option<u8> {
        if self.spec_ram().len() == 0 {
            Some(0xFF)
        } else {
            match self.spec_mapper() {
                Mapper::NoMbc => Some(
                    self.spec_ram()[address as int % self.spec_ram().len() as int],
                ),
                Mapper::Mbc1(m) => if !m.ram_enabled {
                    Some(0xFF)
                } else {
                    self.banked_ram_read(address)
                },
                Mapper::Mbc3(m) => if !m.ram_rtc_enabled {
                    Some(0xFF)
                } else if m.ram_rtc_select <= 0x03 {
                    self.banked_ram_read(address)
                } else if 0x08 <= m.ram_rtc_select <= 0x0C && m.has_rtc {
                    Some(rtc_latched_register(m.rtc.latched, m.ram_rtc_select))
                } else {
                    Some(0xFF)
                },
                Mapper::Mbc5(m) => if !m.ram_enabled {
                    Some(0xFF)
                } else {
                    self.banked_ram_read(address)
                },
            }
        }
    }

    /// The RAM offset that a write to `address` (relative to 0xA000) stores
    /// to, if it stores to RAM at all.
    pub open spec fn ram_write_offset(&self, address: u16) -> Option<int> {
        let len = self.spec_ram().len() as int;
        let banked = self.banked_ram_offset(address);
        let banked_target = if banked < len {
            Some(banked)
        } else {
            None
        };
        if len == 0 {
            None
        } else {
            match self.spec_mapper() {
                Mapper::NoMbc => Some(address as int % len),
                Mapper::Mbc1(m) => if m.ram_enabled {
                    banked_target
                } else {
                    None
                },
                Mapper::Mbc3(m) => if m.ram_rtc_enabled && m.ram_rtc_select <= 0x03 {
                    banked_target
                } else {
                    None
                },
                Mapper::Mbc5(m) => if m.ram_enabled {
                    banked_target
                } else {
                    None
                },
            }
        }
    }

    /// Whether a write to external RAM goes to the clock instead.
    pub open spec fn ram_write_hits_rtc(&self) -> bool {
        match self.spec_mapper() {
            Mapper::Mbc3(m) => m.ram_rtc_enabled && 0x08 <= m.ram_rtc_select <= 0x0C && m.has_rtc,
            _ => false,
        }
    }

    /// How many more cycles the clock counter can take before it would overflow.
    pub open spec fn cycle_room(&self) -> int {
        match mapper_rtc(self.spec_mapper()) {
            Some(rtc) => u32::MAX - rtc.cycles,
            None => u32::MAX as int,
        }
    }

    /// How many more cycles the cartridge clock can count (`cycle_room`).
    pub fn clock_room(&self) -> (room: u32)
        ensures
            room == self.cycle_room(),
    {
        match &self.mapper {
            Mapper::Mbc3(mbc) => {
                if mbc.has_rtc {
                    u32::MAX - mbc.rtc.cycles
                } else {
                    u32::MAX
                }
            },
            _ => u32::MAX,
        }
    }

    /// Builds a cartridge from a ROM image. An image under 32 KiB, or shorter
    /// than the size its header declares, is an `InvalidRom` error; a header
    /// that does not parse gives the error `CartridgeHeader::parse` gives.
    /// The ROM kept is the declared size, the RAM starts zeroed, and the
    /// controller starts with bank 1 mapped.
    pub fn from_bytes(rom: Vec<u8>) -> (result: Result<Self>)
        ensures
            cartridge_built(rom@, result),
    {
        if rom.len() < MIN_ROM_SIZE {
            return Err(
                invalid_rom(
                    describe_two("expected at least ", MIN_ROM_SIZE, " bytes, got ", rom.len()),
                ),
            );
        }
        let header = CartridgeHeader::parse(rom.as_slice())?;
        if rom.len() < header.rom_size {
            return Err(
                invalid_rom(
                    describe_two("declared ROM size is ", header.rom_size, " bytes, got ", rom.len()),
                ),
            );
        }
        let mut rom = rom;
        rom.truncate(header.rom_size);
        let ram = vec![0u8; header.ram_size];
        let mapper = match header.mapper_kind {
            MapperKind::NoMbc => Mapper::NoMbc,
            MapperKind::Mbc1 => Mapper::Mbc1(
                Mbc1 { ram_enabled: false, rom_bank_low5: 1, bank_high2: 0, banking_mode: 0 },
            ),
            MapperKind::Mbc3 => Mapper::Mbc3(
                Mbc3 {
                    ram_rtc_enabled: false,
                    has_rtc: has_rtc(header.cartridge_type),
                    rom_bank: 1,
                    ram_rtc_select: 0,
                    latch_armed: false,
                    rtc: Rtc {
                        cycles: 0,
                        seconds: 0,
                        minutes: 0,
                        hours: 0,
                        day_counter: 0,
                        halted: false,
                        carry: false,
                        latched: RtcRegisters {
                            seconds: 0,
                            minutes: 0,
                            hours: 0,
                            day_low: 0,
                            day_high: 0,
                        },
                    },
                },
            ),
            MapperKind::Mbc5 => Mapper::Mbc5(Mbc5 { ram_enabled: false, rom_bank: 1, ram_bank: 0 }),
        };
        let cartridge = Cartridge { rom, ram, header, mapper };
        assert(cartridge.spec_ram() =~= Seq::new(cartridge.spec_header().spec_ram_size(), |i: int| 0u8));
        assert(cartridge.spec_rom() =~= old_rom_prefix(rom@, cartridge.spec_header().spec_rom_size()));
        Ok(cartridge)
    }

    /// Replaces the ROM image, keeping the declared size; an image shorter
    /// than that is an `InvalidRom` error and changes nothing.
    pub fn reload_rom(&mut self, rom: Vec<u8>) -> (result: Result<()>)
        requires
            old(self).inv(),
        ensures
            final(self).inv(),
            result is Ok <==> rom@.len() >= old(self).spec_header().spec_rom_size(),
            result is Err ==> is_invalid_rom(result) && *final(self) == *old(self),
            result is Ok ==> final(self).spec_rom() == rom@.subrange(
                0,
                old(self).spec_header().spec_rom_size() as int,
            ),
            final(self).spec_ram() == old(self).spec_ram(),
            final(self).spec_header() == old(self).spec_header(),
            final(self).spec_mapper() == old(self).spec_mapper(),
    {
        if rom.len() < self.header.rom_size {
            return Err(
                invalid_rom(
                    describe_two("declared ROM size is ", self.header.rom_size, " bytes, got ", rom.len()),
                ),
            );
        }
        let mut rom = rom;
        rom.truncate(self.header.rom_size);
        self.rom = rom;
        Ok(())
    }

    pub fn header(&self) -> (header: &CartridgeHeader)
        ensures
            *header == self.spec_header(),
    {
        &self.header
    }

    pub fn has_battery(&self) -> (battery: bool)
        ensures
            battery == battery_for(self.spec_header().spec_cartridge_type()),
    {
        has_battery(self.header.cartridge_type)
    }

    pub fn has_rtc(&self) -> (rtc: bool)
        ensures
            rtc == rtc_for(self.spec_header().spec_cartridge_type()),
    {
        has_rtc(self.header.cartridge_type)
    }

    /// The external RAM to keep between sessions: present only on a
    /// cartridge with a battery and some RAM.
    pub fn save_ram(&self) -> (save: Option<&[u8]>)
        ensures
            save is Some <==> (battery_for(self.spec_header().spec_cartridge_type())
                && self.spec_ram().len() > 0),
            save is Some ==> save->Some_0@ == self.spec_ram(),
    {
        if self.has_battery() && self.ram.len() != 0 {
            Some(self.ram.as_slice())
        } else {
            None
        }
    }

    /// Restores the external RAM from a save. A save of exactly the RAM's
    /// size replaces it; on a cartridge with no RAM an empty save is
    /// accepted and changes nothing; anything else is an `InvalidRom` error
    /// and changes nothing.
    pub fn load_save_ram(&mut self, bytes: &[u8]) -> (result: Result<()>)
        requires
            old(self).inv(),
        ensures
            final(self).inv(),
            result is Ok <==> bytes@.len() == old(self).spec_ram().len(),
            result is Err ==> is_invalid_rom(result),
            result is Ok ==> final(self).spec_ram() == bytes@,
            result is Err ==> final(self).spec_ram() == old(self).spec_ram(),
            final(self).spec_rom() == old(self).spec_rom(),
            final(self).spec_header() == old(self).spec_header(),
            final(self).spec_mapper() == old(self).spec_mapper(),
    {
        if self.ram.len() == 0 {
            return if bytes.len() == 0 {
                Ok(())
            } else {
                Err(
                    invalid_rom(
                        describe_one("save RAM is ", bytes.len(), " bytes but cartridge has no external RAM"),
                    ),
                )
            };
        }
        if bytes.len() != self.ram.len() {
            return Err(
                invalid_rom(
                    describe_two("save RAM size mismatch: expected ", self.ram.len(), " bytes, got ", bytes.len()),
                ),
            );
        }
        self.ram = slice_to_vec(bytes);
        Ok(())
    }

    /// The clock to keep between sessions: present only on an MBC3 cartridge
    /// with a battery and a clock.
    pub fn save_rtc(&self) -> (save: Option<Vec<u8>>)
        ensures
            save is Some <==> (battery_for(self.spec_header().spec_cartridge_type()) && mapper_rtc(
                self.spec_mapper(),
            ) is Some),
            save is Some ==> save->Some_0@ == mapper_rtc(self.spec_mapper())->Some_0.save_bytes(),
    {
        match &self.mapper {
            Mapper::Mbc3(mbc) => {
                if self.has_battery() && mbc.has_rtc {
                    Some(mbc.rtc.to_bytes())
                } else {
                    None
                }
            },
            _ => None,
        }
    }

    /// Restores the clock from an RTC save (see `Rtc::load_bytes`). On a
    /// cartridge without a clock an empty save is accepted and anything else
    /// is an `InvalidRom` error.
    pub fn load_save_rtc(&mut self, bytes: &[u8]) -> (result: Result<()>)
        requires
            old(self).inv(),
        ensures
            final(self).inv(),
            rtc_loaded(*old(self), *final(self), bytes@, result),
    {
        match &mut self.mapper {
            Mapper::Mbc3(mbc) => {
                if mbc.has_rtc {
                    return mbc.rtc.load_bytes(bytes);
                }
            },
            _ => {},
        }
        if bytes.len() == 0 {
            Ok(())
        } else {
            Err(
                invalid_rom(
                    describe_one("RTC save is ", bytes.len(), " bytes but cartridge has no battery-backed RTC"),
                ),
            )
        }
    }

    /// Lets `cycles` CPU cycles pass for the cartridge clock, if it has one.
    pub fn advance_cycles(&mut self, cycles: u32)
        requires
            old(self).inv(),
            cycles <= old(self).cycle_room(),
        ensures
            final(self).inv(),
            final(self).spec_rom() == old(self).spec_rom(),
            final(self).spec_ram() == old(self).spec_ram(),
            final(self).spec_header() == old(self).spec_header(),
            mapper_rtc(old(self).spec_mapper()) is None ==> final(self).spec_mapper()
                == old(self).spec_mapper(),
            mapper_rtc(old(self).spec_mapper()) is Some ==> {
                &&& mapper_rtc(final(self).spec_mapper()) is Some
                &&& mapper_rtc(old(self).spec_mapper())->Some_0.advanced_to(
                    mapper_rtc(final(self).spec_mapper())->Some_0,
                    cycles,
                )
                &&& final(self).spec_mapper() matches Mapper::Mbc3(m2) && old(self).spec_mapper() matches Mapper::Mbc3(m1)
                    && m2 == (Mbc3 { rtc: m2.rtc, ..m1 })
            },
            final(self).cycle_room() == old(self).cycle_room() || final(self).cycle_room()
                > u32::MAX - rtc::RTC_CYCLES_PER_SECOND,
            final(self).ram_read_view_equal(*old(self)),
    {
        match &mut self.mapper {
            Mapper::Mbc3(mbc) => {
                if mbc.has_rtc {
                    mbc.rtc.advance_cycles(cycles);
                }
            },
            _ => {},
        }
    }

    /// Everything but the clock is as in `other`, so every ROM address
    /// reads as it does there.
    pub open spec fn ram_read_view_equal(&self, other: Cartridge) -> bool {
        &&& self.spec_rom() == other.spec_rom()
        &&& self.spec_ram() == other.spec_ram()
        &&& self.spec_header() == other.spec_header()
        &&& forall|address: u16| #[trigger] self.rom_read(address) == other.rom_read(address)
    }

    /// Reads ROM address `address`: bank 0 (or, on MBC1 in mode 1, the
    /// upper-bits bank) at 0x0000-0x3FFF and the selected bank at
    /// 0x4000-0x7FFF.
    pub fn read_rom(&self, address: u16) -> (value: Option<u8>)
        requires
            self.inv(),
        ensures
            value == self.rom_read(address),
            address < 0x8000 ==> value is Some,
    {
        let offset = address as usize % ROM_BANK_SIZE;
        let count = self.rom_bank_count();
        proof {
            self.lemma_rom_sizes();
        }
        match &self.mapper {
            Mapper::NoMbc => {
                if (address as usize) < self.rom.len() {
                    Some(self.rom[address as usize])
                } else {
                    None
                }
            },
            Mapper::Mbc1(mbc) => {
                let bank = if (address as usize) < ROM_BANK_SIZE {
                    mbc.fixed_rom_bank(count)
                } else {
                    mbc.switchable_rom_bank(count)
                };
                self.rom_byte(bank, offset)
            },
            Mapper::Mbc3(mbc) => {
                let bank = if (address as usize) < ROM_BANK_SIZE {
                    0
                } else {
                    mbc.rom_bank(count)
                };
                self.rom_byte(bank, offset)
            },
            Mapper::Mbc5(mbc) => {
                let bank = if (address as usize) < ROM_BANK_SIZE {
                    0
                } else {
                    mbc.rom_bank(count)
                };
                self.rom_byte(bank, offset)
            },
        }
    }

    proof fn lemma_rom_sizes(&self)
        requires
            self.inv(),
        ensures
            self.spec_rom().len() == self.spec_rom_bank_count() * ROM_BANK_SIZE,
            2 <= self.spec_rom_bank_count() <= 512,
            self.spec_ram().len() <= 0x20000,
            1 <= self.spec_ram_bank_count() <= 16,
    {
    }

    fn rom_byte(&self, bank: usize, offset: usize) -> (value: Option<u8>)
        requires
            self.inv(),
            bank < self.spec_rom_bank_count(),
            offset < ROM_BANK_SIZE,
        ensures
            value == Some(self.spec_rom()[bank * ROM_BANK_SIZE + offset]),
            bank * ROM_BANK_SIZE + offset < self.spec_rom().len(),
    {
        proof {
            self.lemma_rom_sizes();
            assert(bank * ROM_BANK_SIZE + offset < self.spec_rom_bank_count() * ROM_BANK_SIZE)
                by (nonlinear_arith)
                requires
                    bank < self.spec_rom_bank_count(),
                    offset < ROM_BANK_SIZE,
            ;
        }
        Some(self.rom[bank * ROM_BANK_SIZE + offset])
    }

    fn ram_byte(&self, bank: usize, offset: usize) -> (value: Option<u8>)
        requires
            self.inv(),
            bank < 16,
            offset < RAM_BANK_SIZE,
        ensures
            value == (if bank * RAM_BANK_SIZE + offset < self.spec_ram().len() {
                Some(self.spec_ram()[bank * RAM_BANK_SIZE + offset])
            } else {
                None
            }),
    {
        let index = bank * RAM_BANK_SIZE + offset;
        if index < self.ram.len() {
            Some(self.ram[index])
        } else {
            None
        }
    }

    /// Applies a write to the ROM area: the controller registers change as
    /// `Mapper::after_rom_write` says; the ROM itself never changes.
    pub fn write_rom(&mut self, address: u16, value: u8)
        requires
            old(self).inv(),
        ensures
            final(self).inv(),
            final(self).spec_mapper() == old(self).spec_mapper().after_rom_write(address, value),
            final(self).spec_rom() == old(self).spec_rom(),
            final(self).spec_ram() == old(self).spec_ram(),
            final(self).spec_header() == old(self).spec_header(),
            final(self).cycle_room() == old(self).cycle_room(),
    {
        match &mut self.mapper {
            Mapper::NoMbc => {},
            Mapper::Mbc1(mbc) => {
                if address <= 0x1FFF {
                    mbc.ram_enabled = value & 0x0F == 0x0A;
                } else if address <= 0x3FFF {
                    mbc.rom_bank_low5 = value & 0x1F;
                    if mbc.rom_bank_low5 == 0 {
                        mbc.rom_bank_low5 = 1;
                    }
                } else if address <= 0x5FFF {
                    mbc.bank_high2 = value & 0x03;
                } else if address <= 0x7FFF {
                    mbc.banking_mode = value & 0x01;
                }
            },
            Mapper::Mbc3(mbc) => {
                if address <= 0x1FFF {
                    mbc.ram_rtc_enabled = value & 0x0F == 0x0A;
                } else if address <= 0x3FFF {
                    mbc.rom_bank = value & 0x7F;
                    if mbc.rom_bank == 0 {
                        mbc.rom_bank = 1;
                    }
                } else if address <= 0x5FFF {
                    mbc.ram_rtc_select = value;
                } else if address <= 0x7FFF {
                    mbc.write_latch(value);
                }
            },
            Mapper::Mbc5(mbc) => {
                if address <= 0x1FFF {
                    mbc.ram_enabled = value & 0x0F == 0x0A;
                } else if address <= 0x2FFF {
                    let bank = mbc.rom_bank;
                    mbc.rom_bank = (bank & 0x100) | value as u16;
                    assert((bank & 0x100) | (value as u16) <= 0x1FF) by {
            lemma_byte_bits();
            lemma_word_bits();
        }
                } else if address <= 0x3FFF {
                    let bank = mbc.rom_bank;
                    mbc.rom_bank = (bank & 0x0FF) | (((value & 0x01) as u16) << 8);
                    assert((bank & 0x0FF) | (((value & 0x01) as u16) << 8u16) <= 0x1FF)
                        by {
            lemma_byte_bits();
            lemma_word_bits();
        }
                } else if address <= 0x5FFF {
                    mbc.ram_bank = value & 0x0F;
                    assert(value & 0x0F <= 0x0F) by {
            lemma_byte_bits();
            lemma_word_bits();
        }
                }
            },
        }
        proof {
            assert(value & 0x1F <= 0x1F) by {
            lemma_byte_bits();
            lemma_word_bits();
        }
            assert(value & 0x03 <= 0x03) by {
            lemma_byte_bits();
            lemma_word_bits();
        }
            assert(value & 0x01 <= 0x01) by {
            lemma_byte_bits();
            lemma_word_bits();
        }
            assert(value & 0x7F <= 0x7F) by {
            lemma_byte_bits();
            lemma_word_bits();
        }
        }
    }

    /// Reads external RAM address `address` (relative to 0xA000).
    pub fn read_ram(&self, address: u16) -> (value: Option<u8>)
        requires
            self.inv(),
        ensures
            value == self.ram_read(address),
    {
        if self.ram.len() == 0 {
            return Some(0xFF);
        }
        let count = self.ram_bank_count();
        let offset = address as usize % RAM_BANK_SIZE;
        proof {
            self.lemma_rom_sizes();
        }
        match &self.mapper {
            Mapper::NoMbc => Some(self.ram[(address as usize) % self.ram.len()]),
            Mapper::Mbc1(mbc) => {
                if !mbc.ram_enabled {
                    return Some(0xFF);
                }
                let bank = mbc.ram_bank(count);
                self.ram_byte(bank, offset)
            },
            Mapper::Mbc3(mbc) => {
                if !mbc.ram_rtc_enabled {
                    return Some(0xFF);
                }
                if mbc.ram_rtc_select <= 0x03 {
                    let bank = mbc.ram_bank(count);
                    self.ram_byte(bank, offset)
                } else if 0x08 <= mbc.ram_rtc_select && mbc.ram_rtc_select <= 0x0C && mbc.has_rtc {
                    Some(mbc.read_rtc(mbc.ram_rtc_select))
                } else {
                    Some(0xFF)
                }
            },
            Mapper::Mbc5(mbc) => {
                if !mbc.ram_enabled {
                    return Some(0xFF);
                }
                let bank = mbc.ram_bank(count);
                self.ram_byte(bank, offset)
            },
        }
    }

    /// Applies a write to external RAM address `address` (relative to
    /// 0xA000): it stores at `ram_write_offset`, or on MBC3 with a clock
    /// register selected sets that register, or is ignored.
    pub fn write_ram(&mut self, address: u16, value: u8)
        requires
            old(self).inv(),
        ensures
            final(self).inv(),
            final(self).spec_rom() == old(self).spec_rom(),
            final(self).spec_header() == old(self).spec_header(),
            old(self).ram_write_offset(address) matches Some(i) ==> final(self).spec_ram()
                == old(self).spec_ram().update(i, value),
            old(self).ram_write_offset(address) is None ==> final(self).spec_ram()
                == old(self).spec_ram(),
            !old(self).ram_write_hits_rtc() ==> final(self).spec_mapper() == old(self).spec_mapper(),
            old(self).ram_write_hits_rtc() ==> (old(self).spec_mapper() matches Mapper::Mbc3(m)
                && final(self).spec_mapper() == Mapper::Mbc3(
                Mbc3 { rtc: m.rtc.written(m.ram_rtc_select, value), ..m },
            )),
            final(self).cycle_room() == old(self).cycle_room(),
    {
        let ram_bank_count = self.ram_bank_count();
        let offset = address as usize % RAM_BANK_SIZE;
        proof {
            self.lemma_rom_sizes();
        }
        let ram_len = self.ram.len();
        match &mut self.mapper {
            Mapper::NoMbc => {
                if ram_len == 0 {
                    return;
                }
                let index = (address as usize) % ram_len;
                self.ram.set(index, value);
            },
            Mapper::Mbc1(mbc) => {
                if ram_len == 0 || !mbc.ram_enabled {
                    return;
                }
                let index = mbc.ram_bank(ram_bank_count) * RAM_BANK_SIZE + offset;
                if index < ram_len {
                    self.ram.set(index, value);
                }
            },
            Mapper::Mbc3(mbc) => {
                if !mbc.ram_rtc_enabled {
                    return;
                }
                if mbc.ram_rtc_select <= 0x03 {
                    if ram_len == 0 {
                        return;
                    }
                    let index = mbc.ram_bank(ram_bank_count) * RAM_BANK_SIZE + offset;
                    if index < ram_len {
                        self.ram.set(index, value);
                    }
                } else if 0x08 <= mbc.ram_rtc_select && mbc.ram_rtc_select <= 0x0C && mbc.has_rtc {
                    let register = mbc.ram_rtc_select;
                    mbc.rtc.write_register(register, value);
                }
            },
            Mapper::Mbc5(mbc) => {
                if ram_len == 0 || !mbc.ram_enabled {
                    return;
                }
                let index = mbc.ram_bank(ram_bank_count) * RAM_BANK_SIZE + offset;
                if index < ram_len {
                    self.ram.set(index, value);
                }
            },
        }
    }

    pub fn rom_bank_count(&self) -> (count: usize)
        ensures
            count == self.spec_rom_bank_count(),
    {
        self.rom.len() / ROM_BANK_SIZE
    }

    pub fn ram_bank_count(&self) -> (count: usize)
        ensures
            count == self.spec_ram_bank_count(),
    {
        let n = self.ram.len() / RAM_BANK_SIZE;
        if n == 0 {
            1
        } else {
            n
        }
    }
}

/// The first `len` bytes of an image.
pub open spec fn old_rom_prefix(rom: Seq<u8>, len: nat) -> Seq<u8> {
    rom.subrange(0, len as int)
}

/// What building a cartridge from `rom` gives, as `Cartridge::from_bytes`
/// states it.
pub open spec fn cartridge_built(rom: Seq<u8>, result: Result<Cartridge>) -> bool {
    &&& result matches Err(e) ==> refused_with(rom, e)
    &&& rom.len() < MIN_ROM_SIZE ==> is_invalid_rom(result)
    &&& result is Ok <==> (rom.len() >= MIN_ROM_SIZE && mapper_kind_for(
        rom[CARTRIDGE_TYPE_OFFSET as int],
    ) is Some && rom_size_for(rom[ROM_SIZE_OFFSET as int]) is Some && ram_size_for(
        rom[RAM_SIZE_OFFSET as int],
    ) is Some && rom.len() >= rom_size_for(rom[ROM_SIZE_OFFSET as int]).unwrap())
    &&& rom.len() >= MIN_ROM_SIZE && mapper_kind_for(rom[CARTRIDGE_TYPE_OFFSET as int]) is None
        ==> result == Err::<Cartridge, EmulatorError>(
        EmulatorError::UnsupportedCartridge { cartridge_type: rom[CARTRIDGE_TYPE_OFFSET as int] },
    )
    &&& rom.len() >= MIN_ROM_SIZE && mapper_kind_for(rom[CARTRIDGE_TYPE_OFFSET as int]) is Some
        && result is Err ==> is_invalid_rom(result)
    &&& result is Ok ==> {
        let c = result->Ok_0;
        &&& c.inv()
        &&& c.spec_header().parsed_from(rom)
        &&& c.spec_rom() == rom.subrange(0, c.spec_header().spec_rom_size() as int)
        &&& c.spec_ram() == Seq::new(c.spec_header().spec_ram_size(), |i: int| 0u8)
        &&& c.spec_mapper() == Mapper::initial(
            c.spec_header().spec_mapper_kind(),
            c.spec_header().spec_cartridge_type(),
        )
    }
}

/// Two errors say the same: the same variant with equal fields, an
/// `InvalidRom` reason compared as text.
pub open spec fn same_error(a: EmulatorError, b: EmulatorError) -> bool {
    match (a, b) {
        (EmulatorError::InvalidRom { reason: ra }, EmulatorError::InvalidRom { reason: rb }) => ra@ == rb@,
        _ => a == b,
    }
}

/// A ROM image is refused with one error only.
pub proof fn lemma_refusal_unique(rom: Seq<u8>, a: EmulatorError, b: EmulatorError)
    requires
        refused_with(rom, a),
        refused_with(rom, b),
    ensures
        same_error(a, b),
{
}

/// What restoring the clock from `bytes` does, from `before` to `after`
/// with `result`, as `Cartridge::load_save_rtc` states it.
pub open spec fn rtc_loaded(before: Cartridge, after: Cartridge, bytes: Seq<u8>, result: Result<()>) -> bool {
    &&& mapper_rtc(before.spec_mapper()) is Some ==> (result is Ok <==> bytes.len()
        == rtc::RTC_SAVE_LEN)
    &&& mapper_rtc(before.spec_mapper()) is None ==> (result is Ok <==> bytes.len() == 0)
    &&& result is Err ==> is_invalid_rom(result)
    &&& result is Err || mapper_rtc(before.spec_mapper()) is None ==> after.spec_mapper()
        == before.spec_mapper()
    &&& result is Ok && mapper_rtc(before.spec_mapper()) is Some ==> {
        let r = mapper_rtc(after.spec_mapper())->Some_0;
        &&& mapper_rtc(after.spec_mapper()) is Some
        &&& r.cycles == rtc::le32(bytes, 0)
        &&& r.seconds == bytes[4] % 60
        &&& r.minutes == bytes[5] % 60
        &&& r.hours == bytes[6] % 24
        &&& r.day_counter == ((bytes[7] as u16) | ((bytes[8] as u16) << 8u16)) & 0x01FF
        &&& r.halted == (bytes[9] & 0x01 != 0)
        &&& r.carry == (bytes[9] & 0x02 != 0)
        &&& r.latched == r.latched_view()
    }
    &&& after.spec_rom() == before.spec_rom()
    &&& after.spec_ram() == before.spec_ram()
    &&& after.spec_header() == before.spec_header()
}

/// An RTC save loads back: restoring the clock of a cartridge that has one
/// from the bytes another clock saved succeeds, and the restored clock
/// saves the same bytes again.
pub proof fn lemma_rtc_save_then_load(before: Cartridge, after: Cartridge, saved: rtc::Rtc, result: Result<()>)
    requires
        mapper_rtc(before.spec_mapper()) is Some,
        saved.inv(),
        rtc_loaded(before, after, saved.save_bytes(), result),
    ensures
        result is Ok,
        mapper_rtc(after.spec_mapper()) is Some,
        mapper_rtc(after.spec_mapper())->Some_0.save_bytes() == saved.save_bytes(),
{
    rtc::lemma_rtc_save_round_trip(saved);
    let r = mapper_rtc(after.spec_mapper())->Some_0;
    assert(r.save_bytes() =~= saved.save_bytes());
}

/// The byte the segments put at `address` of an image of `size` bytes: the
/// last segment that covers it (within the image) wins; `None` if none does.
pub open spec fn segment_byte(segments: Seq<(u16, &[u8])>, address: int, size: int) -> Option<u8>
    decreases segments.len(),
{
    if segments.len() == 0 {
        None
    } else {
        let start = segments.last().0 as int;
        let bytes = segments.last().1@;
        if start <= address < start + bytes.len() && address < size {
            Some(bytes[address - start])
        } else {
            segment_byte(segments.drop_last(), address, size)
        }
    }
}

/// Whether the header writes of a synthetic image land on `address`: the
/// title (up to 16 of its bytes), the cartridge type and the size codes.
pub open spec fn header_written(title_len: int, address: int) -> bool {
    ||| TITLE_START <= address < TITLE_START + (if title_len < 16 { title_len } else { 16 })
    ||| address == CARTRIDGE_TYPE_OFFSET || address == ROM_SIZE_OFFSET || address == RAM_SIZE_OFFSET
}

/// A ROM image of the size `rom_size_code` declares (32 KiB if the code is
/// unknown), zero-filled, with each `(address, bytes)` segment copied in
/// (clipped at the end of the image), then the title (up to 16 bytes), the
/// cartridge type and the size codes written into the header.
pub fn synthetic_rom_with_header(
    title: &str,
    cartridge_type: u8,
    rom_size_code: u8,
    ram_size_code: u8,
    segments: &[(u16, &[u8])],
) -> (rom: Vec<u8>)
    ensures
        rom@.len() == (match rom_size_for(rom_size_code) {
            Some(size) => size,
            None => MIN_ROM_SIZE as nat,
        }),
        rom@[CARTRIDGE_TYPE_OFFSET as int] == cartridge_type,
        rom@[ROM_SIZE_OFFSET as int] == rom_size_code,
        rom@[RAM_SIZE_OFFSET as int] == ram_size_code,
        forall|i: int|
            0 <= i < vstd::string::StringSliceAdditionalSpecFns::spec_bytes(title).len() && i < 16 ==> #[trigger] rom@[TITLE_START + i]
                == vstd::string::StringSliceAdditionalSpecFns::spec_bytes(title)[i],
        forall|a: int|
            0 <= a < rom@.len() && !header_written(vstd::string::StringSliceAdditionalSpecFns::spec_bytes(title).len() as int, a) ==> #[trigger] rom@[a]
                == (match segment_byte(segments@, a, rom@.len() as int) {
                Some(b) => b,
                None => 0u8,
            }),
{
    let size = match rom_size(rom_size_code) {
        Ok(size) => size,
        Err(_) => MIN_ROM_SIZE,
    };
    let mut rom = vec![0u8; size];
    let mut s: usize = 0;
    while s < segments.len()
        invariant
            rom@.len() == size,
            size >= MIN_ROM_SIZE,
            size <= 0x800000,
            s <= segments@.len(),
            forall|a: int|
                0 <= a < size ==> #[trigger] rom@[a] == (match segment_byte(segments@.take(s as int), a, size as int) {
                    Some(b) => b,
                    None => 0u8,
                }),
        decreases segments.len() - s,
    {
        let (start, bytes) = segments[s];
        let ghost seg_start = start;
        let start = start as usize;
        let ghost before = rom@;
        let mut i: usize = 0;
        while i < bytes.len() && start < rom.len() && i < rom.len() - start
            invariant
                rom@.len() == size,
                start <= 0xFFFF,
                size <= 0x800000,
                start == seg_start,
                before.len() == size,
                i <= bytes@.len(),
                forall|a: int|
                    0 <= a < size ==> #[trigger] rom@[a] == (if start <= a < start + i {
                        bytes@[a - start]
                    } else {
                        before[a]
                    }),
            decreases bytes.len() - i,
        {
            rom.set(start + i, bytes[i]);
            i += 1;
        }
        proof {
            assert(seg_start == segments@[s as int].0 && bytes@ == segments@[s as int].1@);
            let taken = segments@.take(s as int + 1);
            assert(taken.drop_last() =~= segments@.take(s as int));
            assert(taken.last() == segments@[s as int]);
            assert forall|a: int| 0 <= a < size implies #[trigger] rom@[a] == (match segment_byte(
                taken,
                a,
                size as int,
            ) {
                Some(b) => b,
                None => 0u8,
            }) by {
                assert(before[a] == (match segment_byte(segments@.take(s as int), a, size as int) {
                    Some(b) => b,
                    None => 0u8,
                }));
            }
        }
        s += 1;
    }
    proof {
        assert(segments@.take(segments@.len() as int) =~= segments@);
    }
    let ghost placed = rom@;
    let title_bytes = title.as_bytes();
    let mut i: usize = 0;
    while i < title_bytes.len() && i < TITLE_END_EXCLUSIVE - TITLE_START
        invariant
            rom@.len() == size,
            size >= MIN_ROM_SIZE,
            placed.len() == size,
            title_bytes@ == vstd::string::StringSliceAdditionalSpecFns::spec_bytes(title),
            i <= title_bytes@.len(),
            i <= TITLE_END_EXCLUSIVE - TITLE_START,
            forall|a: int|
                0 <= a < size ==> #[trigger] placed[a] == (match segment_byte(segments@, a, size as int) {
                    Some(b) => b,
                    None => 0u8,
                }),
            forall|a: int|
                0 <= a < size ==> #[trigger] rom@[a] == (if TITLE_START <= a < TITLE_START + i {
                    title_bytes@[a - TITLE_START]
                } else {
                    placed[a]
                }),
        decreases title_bytes.len() - i,
    {
        rom.set(TITLE_START + i, title_bytes[i]);
        i += 1;
    }
    rom.set(CARTRIDGE_TYPE_OFFSET, cartridge_type);
    rom.set(ROM_SIZE_OFFSET, rom_size_code);
    rom.set(RAM_SIZE_OFFSET, ram_size_code);
    rom
}

/// A plain 32 KiB ROM-only image with the given title and segments.
pub fn synthetic_rom(title: &str, segments: &[(u16, &[u8])]) -> (rom: Vec<u8>)
    ensures
        rom@.len() == MIN_ROM_SIZE,
        rom@[CARTRIDGE_TYPE_OFFSET as int] == 0,
        rom@[ROM_SIZE_OFFSET as int] == 0,
        rom@[RAM_SIZE_OFFSET as int] == 0,
        forall|i: int|
            0 <= i < vstd::string::StringSliceAdditionalSpecFns::spec_bytes(title).len() && i < 16
                ==> #[trigger] rom@[TITLE_START + i] == vstd::string::StringSliceAdditionalSpecFns::spec_bytes(
                title,
            )[i],
        forall|a: int|
            0 <= a < rom@.len() && !header_written(
                vstd::string::StringSliceAdditionalSpecFns::spec_bytes(title).len() as int,
                a,
            ) ==> #[trigger] rom@[a] == (match segment_byte(segments@, a, rom@.len() as int) {
                Some(b) => b,
                None => 0u8,
            }),
{
    synthetic_rom_with_header(title, 0x00, 0x00, 0x00, segments)
}


/// Cartridge RAM gives back what was written: once a write to `address`
/// lands in RAM (and leaves the controller as it was), reading `address`
/// gives the value written.
pub proof fn lemma_ram_read_after_write(before: Cartridge, after: Cartridge, address: u16, value: u8)
    requires
        before.inv(),
        before.ram_write_offset(address) is Some,
        after.spec_ram() == before.spec_ram().update(before.ram_write_offset(address)->Some_0, value),
        after.spec_mapper() == before.spec_mapper(),
        after.spec_header() == before.spec_header(),
    ensures
        after.ram_read(address) == Some(value),
{
}

/// The RAM a cartridge saves fits every cartridge with the same header:
/// `load_save_ram` accepts it there (its length is that cartridge's RAM
/// size) and the RAM then reads as the save.
pub proof fn lemma_save_ram_fits_same_header(saved: Cartridge, fresh: Cartridge)
    requires
        saved.inv(),
        fresh.inv(),
        saved.spec_header() == fresh.spec_header(),
    ensures
        saved.spec_ram().len() == fresh.spec_ram().len(),
{
}

/// On an MBC3 cartridge, writing `value` to 0x2000-0x3FFF selects the ROM
/// bank that 0x4000-0x7FFF reads afterwards: the full seven-bit number
/// `value % 128`, with bank 1 in place of 0, taken modulo the number of
/// banks. Every address of that window reads the byte at the same offset in
/// the selected bank.
pub proof fn lemma_mbc3_rom_bank_select(
    before: Cartridge,
    after: Cartridge,
    select: u16,
    value: u8,
    address: u16,
)
    requires
        before.inv(),
        before.spec_mapper() is Mbc3,
        0x2000 <= select <= 0x3FFF,
        0x4000 <= address <= 0x7FFF,
        after.spec_mapper() == before.spec_mapper().after_rom_write(select, value),
        after.spec_rom() == before.spec_rom(),
    ensures
        ({
            let number: int = if value % 128 == 0 {
                1
            } else {
                value as int % 128
            };
            let bank = number % before.spec_rom_bank_count() as int;
            let index = bank * 0x4000 + (address - 0x4000);
            &&& 0 <= index < before.spec_rom().len()
            &&& after.rom_read(address) == Some(before.spec_rom()[index])
        }),
{
    before.lemma_rom_sizes();
    let count = before.spec_rom_bank_count() as int;
    lemma_byte_bits();
    let number: int = if value % 128 == 0 {
        1
    } else {
        value as int % 128
    };
    let bank = number % count;
    lemma_window_index(count, bank, address);
}

/// The switchable window 0x4000-0x7FFF shows bank `bank` of `count` banks:
/// the byte at the address's offset in that bank lies inside the ROM.
proof fn lemma_window_index(count: int, bank: int, address: u16)
    requires
        0 <= bank < count,
        0x4000 <= address <= 0x7FFF,
    ensures
        address as int % 0x4000 == address - 0x4000,
        0 <= bank * 0x4000 + (address - 0x4000) < count * 0x4000,
{
    assert(0 <= bank * 0x4000 + (address - 0x4000) < count * 0x4000) by (nonlinear_arith)
        requires
            0 <= bank < count,
            0 <= address - 0x4000 < 0x4000,
    ;
}

/// On an MBC1 cartridge, the bank that 0x4000-0x7FFF reads is the two upper
/// bank bits times 32 plus the five lower bits, modulo the number of banks.
/// Writing `value` to 0x2000-0x3FFF sets the lower bits to `value % 32`
/// (1 in place of 0); writing it to 0x4000-0x5FFF sets the upper bits to
/// `value % 4`. Every address of the window reads the byte at the same
/// offset in that bank.
pub proof fn lemma_mbc1_rom_bank_select(
    before: Cartridge,
    after: Cartridge,
    select: u16,
    value: u8,
    address: u16,
)
    requires
        before.inv(),
        before.spec_mapper() is Mbc1,
        0x2000 <= select <= 0x5FFF,
        0x4000 <= address <= 0x7FFF,
        after.spec_mapper() == before.spec_mapper().after_rom_write(select, value),
        after.spec_rom() == before.spec_rom(),
    ensures
        ({
            let m = before.spec_mapper()->Mbc1_0;
            let low: int = if select <= 0x3FFF {
                if value % 32 == 0 {
                    1
                } else {
                    value as int % 32
                }
            } else {
                m.rom_bank_low5 as int
            };
            let high: int = if select <= 0x3FFF {
                m.bank_high2 as int
            } else {
                value as int % 4
            };
            let bank = (high * 32 + low) % before.spec_rom_bank_count() as int;
            let index = bank * 0x4000 + (address - 0x4000);
            &&& 0 <= index < before.spec_rom().len()
            &&& after.rom_read(address) == Some(before.spec_rom()[index])
        }),
{
    before.lemma_rom_sizes();
    lemma_byte_bits();
    let m = before.spec_mapper()->Mbc1_0;
    let count = before.spec_rom_bank_count() as int;
    let low: int = if select <= 0x3FFF {
        if value % 32 == 0 {
            1
        } else {
            value as int % 32
        }
    } else {
        m.rom_bank_low5 as int
    };
    let high: int = if select <= 0x3FFF {
        m.bank_high2 as int
    } else {
        value as int % 4
    };
    lemma_window_index(count, (high * 32 + low) % count, address);
}

/// On an MBC5 cartridge, the bank that 0x4000-0x7FFF reads is a nine-bit
/// number modulo the number of banks. Writing `value` to 0x2000-0x2FFF sets
/// its low eight bits to `value`; writing it to 0x3000-0x3FFF sets bit 8 to
/// `value % 2`. Every address of the window reads the byte at the same
/// offset in that bank.
pub proof fn lemma_mbc5_rom_bank_select(
    before: Cartridge,
    after: Cartridge,
    select: u16,
    value: u8,
    address: u16,
)
    requires
        before.inv(),
        before.spec_mapper() is Mbc5,
        0x2000 <= select <= 0x3FFF,
        0x4000 <= address <= 0x7FFF,
        after.spec_mapper() == before.spec_mapper().after_rom_write(select, value),
        after.spec_rom() == before.spec_rom(),
    ensures
        ({
            let old_bank = before.spec_mapper()->Mbc5_0.rom_bank as int;
            let number: int = if select <= 0x2FFF {
                (old_bank / 256) * 256 + value
            } else {
                old_bank % 256 + (value % 2) * 256
            };
            let bank = number % before.spec_rom_bank_count() as int;
            let index = bank * 0x4000 + (address - 0x4000);
            &&& 0 <= index < before.spec_rom().len()
            &&& after.rom_read(address) == Some(before.spec_rom()[index])
        }),
{
    before.lemma_rom_sizes();
    let rb = before.spec_mapper()->Mbc5_0.rom_bank;
    let count = before.spec_rom_bank_count() as int;
    assert(rb <= 0x1FF ==> (rb & 0x100) | value as u16 == (rb / 256) * 256 + value && (rb & 0x0FF)
        | (((value & 0x01) as u16) << 8u16) == rb % 256 + (value % 2) * 256) by (bit_vector);
    let number: int = if select <= 0x2FFF {
        (rb as int / 256) * 256 + value
    } else {
        rb as int % 256 + (value % 2) * 256
    };
    lemma_window_index(count, number % count, address);
}

/// On an MBC3 or MBC5 cartridge with RAM switched on, writing `value` to
/// 0x4000-0x5FFF selects the RAM bank that 0xA000-0xBFFF reads afterwards:
/// bank `value` on MBC3 (values 0-3 select RAM; higher ones the clock) and
/// bank `value % 16` on MBC5, modulo the number of RAM banks. A read gives
/// the byte at the address's offset in that bank, or nothing past the end of
/// a RAM smaller than one bank.
pub proof fn lemma_ram_bank_select(
    before: Cartridge,
    after: Cartridge,
    select: u16,
    value: u8,
    address: u16,
)
    requires
        before.inv(),
        before.spec_ram().len() > 0,
        match before.spec_mapper() {
            Mapper::Mbc3(m) => m.ram_rtc_enabled && value <= 3,
            Mapper::Mbc5(m) => m.ram_enabled,
            _ => false,
        },
        0x4000 <= select <= 0x5FFF,
        after.spec_mapper() == before.spec_mapper().after_rom_write(select, value),
        after.spec_ram() == before.spec_ram(),
    ensures
        ({
            let number: int = if before.spec_mapper() is Mbc3 {
                value as int
            } else {
                value as int % 16
            };
            let bank = number % before.spec_ram_bank_count() as int;
            let index = bank * 0x2000 + address as int % 0x2000;
            after.ram_read(address) == if index < before.spec_ram().len() {
                Some(before.spec_ram()[index])
            } else {
                None
            }
        }),
{
    lemma_byte_bits();
}
} // verus!
