use vstd::prelude::*;
use crate::bits::{lemma_byte_bits, lemma_word_bits};
use crate::bus::{bus_write, clock_advanced, interrupt_cleared, ram_written, Bus, CgbState};
use crate::error::{EmulatorError, Result};

verus! {

/// CPU cycles (dots).
pub type CycleCount = u32;

pub const FLAG_ZERO: u8 = 0x80;
pub const FLAG_SUBTRACT: u8 = 0x40;
pub const FLAG_HALF_CARRY: u8 = 0x20;
pub const FLAG_CARRY: u8 = 0x10;

/// The four condition flags of register F.
#[derive(Debug, Clone, Copy, PartialEq, Eq, Structural)]
pub enum Flag {
    Zero,
    Subtract,
    HalfCarry,
    Carry,
}

impl Flag {
    pub open spec fn spec_mask(self) -> u8 {
        match self {
            Flag::Zero => FLAG_ZERO,
            Flag::Subtract => FLAG_SUBTRACT,
            Flag::HalfCarry => FLAG_HALF_CARRY,
            Flag::Carry => FLAG_CARRY,
        }
    }

    pub fn mask(self) -> (m: u8)
        ensures
            m == self.spec_mask(),
    {
        match self {
            Flag::Zero => FLAG_ZERO,
            Flag::Subtract => FLAG_SUBTRACT,
            Flag::HalfCarry => FLAG_HALF_CARRY,
            Flag::Carry => FLAG_CARRY,
        }
    }
}

/// Whether the CPU runs, waits for an interrupt, or is stopped.
#[derive(Debug, Clone, Copy, PartialEq, Eq, Structural)]
pub enum CpuMode {
    Running,
    Halted,
    Stopped,
}

impl Default for CpuMode {
    fn default() -> (mode: Self)
        ensures
            mode == CpuMode::Running,
    {
        CpuMode::Running
    }
}

/// An 8-bit operand: a register or the byte at (HL).
#[derive(Debug, Clone, Copy, PartialEq, Eq, Structural)]
pub enum Register8 {
    B,
    C,
    D,
    E,
    H,
    L,
    AddressHl,
    A,
}

/// A 16-bit register pair.
#[derive(Debug, Clone, Copy, PartialEq, Eq, Structural)]
pub enum Register16 {
    BC,
    DE,
    HL,
    SP,
}

#[derive(Debug, Clone, Copy, PartialEq, Eq, Structural)]
pub enum AluOperation {
    Add,
    Adc,
    Sub,
    Sbc,
    And,
    Xor,
    Or,
    Cp,
}

#[derive(Debug, Clone, Copy, PartialEq, Eq, Structural)]
pub enum JumpCondition {
    NotZero,
    Zero,
    NotCarry,
    Carry,
}

#[derive(Debug, Clone, Copy, PartialEq, Eq, Structural)]
pub enum RotateOperation {
    Rlc,
    Rrc,
    Rl,
    Rr,
    Sla,
    Sra,
    Swap,
    Srl,
}

/// A 16-bit value from its high and low bytes.
pub open spec fn word(high: u8, low: u8) -> u16 {
    (high as int * 256 + low as int) as u16
}

/// The high byte of a 16-bit value.
pub open spec fn high_byte(value: u16) -> u8 {
    (value / 256) as u8
}

/// The low byte of a 16-bit value.
pub open spec fn low_byte(value: u16) -> u8 {
    (value % 256) as u8
}

proof fn lemma_word_bytes(high: u8, low: u8)
    ensures
        high_byte(word(high, low)) == high,
        low_byte(word(high, low)) == low,
{
}

proof fn lemma_bytes_word(value: u16)
    ensures
        word(high_byte(value), low_byte(value)) == value,
{
}

fn join(high: u8, low: u8) -> (value: u16)
    ensures
        value == word(high, low),
{
    let value = ((high as u16) << 8) | (low as u16);
    assert(((high as u16) << 8u16) | (low as u16) == high as u16 * 256 + low as u16) by {
            lemma_byte_bits();
            lemma_word_bits();
        }
    value
}

fn split(value: u16) -> (bytes: (u8, u8))
    ensures
        bytes.0 == high_byte(value),
        bytes.1 == low_byte(value),
{
    assert((value >> 8u16) == value / 256 && (value & 0xFF) == value % 256) by {
            lemma_byte_bits();
            lemma_word_bits();
        }
    ((value >> 8) as u8, (value & 0xFF) as u8)
}

/// The CPU registers.
#[derive(Debug, Clone, Copy, Default, PartialEq, Eq, Structural)]
pub struct Registers {
    pub a: u8,
    pub f: u8,
    pub b: u8,
    pub c: u8,
    pub d: u8,
    pub e: u8,
    pub h: u8,
    pub l: u8,
    pub pc: u16,
    pub sp: u16,
}

impl Registers {
    /// Whether `flag` is set in F.
    pub open spec fn flag_of(self, flag: Flag) -> bool {
        self.f & flag.spec_mask() != 0
    }

    pub open spec fn af_of(self) -> u16 {
        word(self.a, self.f & 0xF0)
    }

    pub open spec fn bc_of(self) -> u16 {
        word(self.b, self.c)
    }

    pub open spec fn de_of(self) -> u16 {
        word(self.d, self.e)
    }

    pub open spec fn hl_of(self) -> u16 {
        word(self.h, self.l)
    }

    /// The value of a register pair.
    pub open spec fn pair_of(self, register: Register16) -> u16 {
        match register {
            Register16::BC => self.bc_of(),
            Register16::DE => self.de_of(),
            Register16::HL => self.hl_of(),
            Register16::SP => self.sp,
        }
    }

    /// These registers with pair `register` set to `value`.
    pub open spec fn with_pair(self, register: Register16, value: u16) -> Registers {
        match register {
            Register16::BC => Registers { b: high_byte(value), c: low_byte(value), ..self },
            Register16::DE => Registers { d: high_byte(value), e: low_byte(value), ..self },
            Register16::HL => Registers { h: high_byte(value), l: low_byte(value), ..self },
            Register16::SP => Registers { sp: value, ..self },
        }
    }

    /// These registers with `flag` set or cleared (F keeps only its top nibble).
    pub open spec fn with_flag(self, flag: Flag, set: bool) -> Registers {
        Registers {
            f: (if set {
                self.f | flag.spec_mask()
            } else {
                self.f & !flag.spec_mask()
            }) & 0xF0,
            ..self
        }
    }

    /// AF: A high, the flag nibble of F low (F's low nibble reads 0).
    pub fn af(&self) -> (value: u16)
        ensures
            value == self.af_of(),
    {
        join(self.a, self.f & 0xF0)
    }

    /// Sets A and F, dropping the low nibble of F.
    pub fn set_af(&mut self, value: u16)
        ensures
            *final(self) == (Registers {
                a: high_byte(value),
                f: low_byte(value) & 0xF0,
                ..*old(self)
            }),
    {
        let (a, f) = split(value);
        self.a = a;
        self.f = f & 0xF0;
    }

    pub fn bc(&self) -> (value: u16)
        ensures
            value == self.bc_of(),
    {
        join(self.b, self.c)
    }

    pub fn set_bc(&mut self, value: u16)
        ensures
            *final(self) == old(self).with_pair(Register16::BC, value),
    {
        let (b, c) = split(value);
        self.b = b;
        self.c = c;
    }

    pub fn de(&self) -> (value: u16)
        ensures
            value == self.de_of(),
    {
        join(self.d, self.e)
    }

    pub fn set_de(&mut self, value: u16)
        ensures
            *final(self) == old(self).with_pair(Register16::DE, value),
    {
        let (d, e) = split(value);
        self.d = d;
        self.e = e;
    }

    pub fn hl(&self) -> (value: u16)
        ensures
            value == self.hl_of(),
    {
        join(self.h, self.l)
    }

    pub fn set_hl(&mut self, value: u16)
        ensures
            *final(self) == old(self).with_pair(Register16::HL, value),
    {
        let (h, l) = split(value);
        self.h = h;
        self.l = l;
    }

    pub fn flag(&self, flag: Flag) -> (set: bool)
        ensures
            set == self.flag_of(flag),
    {
        self.f & flag.mask() != 0
    }

    /// Sets or clears one flag, leaving the others; F's low nibble is cleared.
    pub fn set_flag(&mut self, flag: Flag, set: bool)
        ensures
            *final(self) == old(self).with_flag(flag, set),
            final(self).flag_of(flag) == set,
            forall|other: Flag| other != flag ==> final(self).flag_of(other) == old(self).flag_of(other),
            final(self).f & 0x0F == 0,
    {
        let m = flag.mask();
        let f = self.f;
        if set {
            self.f |= m;
        } else {
            self.f &= !m;
        }
        self.f &= 0xF0;
        proof {
            lemma_flag_bits(f, m, set);
        }
    }

    pub fn read16(&self, register: Register16) -> (value: u16)
        ensures
            value == self.pair_of(register),
    {
        match register {
            Register16::BC => self.bc(),
            Register16::DE => self.de(),
            Register16::HL => self.hl(),
            Register16::SP => self.sp,
        }
    }

    pub fn write16(&mut self, register: Register16, value: u16)
        ensures
            *final(self) == old(self).with_pair(register, value),
    {
        match register {
            Register16::BC => self.set_bc(value),
            Register16::DE => self.set_de(value),
            Register16::HL => self.set_hl(value),
            Register16::SP => self.sp = value,
        }
    }
}

proof fn lemma_flag_bits(f: u8, m: u8, set: bool)
    requires
        m == 0x80 || m == 0x40 || m == 0x20 || m == 0x10,
    ensures
        ({
            let g = (if set { f | m } else { f & !m }) & 0xF0;
            &&& (g & m != 0) == set
            &&& g & 0x0F == 0
            &&& forall|n: u8| (n == 0x80 || n == 0x40 || n == 0x20 || n == 0x10) && n != m ==> (g
                & n != 0) == (f & n != 0)
        }),
{
    let g = (if set { f | m } else { f & !m }) & 0xF0;
    if set {
        assert((g & m != 0) == set && g & 0x0F == 0 && forall|n: u8| (n == 0x80 || n == 0x40 || n
            == 0x20 || n == 0x10) && n != m ==> (g & n != 0) == (f & n != 0)) by (bit_vector)
            requires
                g == (f | m) & 0xF0,
                set,
                m == 0x80 || m == 0x40 || m == 0x20 || m == 0x10,
        ;
    } else {
        assert((g & m != 0) == set && g & 0x0F == 0 && forall|n: u8| (n == 0x80 || n == 0x40 || n
            == 0x20 || n == 0x10) && n != m ==> (g & n != 0) == (f & n != 0)) by (bit_vector)
            requires
                g == (f & !m) & 0xF0,
                !set,
                m == 0x80 || m == 0x40 || m == 0x20 || m == 0x10,
        ;
    }
}


/// F holding the four flags as given, its low nibble clear.
pub open spec fn flag_byte(zero: bool, subtract: bool, half_carry: bool, carry: bool) -> u8 {
    ((if zero { 0x80int } else { 0 }) + (if subtract { 0x40int } else { 0 }) + (if half_carry {
        0x20int
    } else {
        0
    }) + (if carry { 0x10int } else { 0 })) as u8
}

/// The carry flag as a number (0 or 1).
pub open spec fn carry_bit(registers: Registers) -> u8 {
    if registers.flag_of(Flag::Carry) {
        1
    } else {
        0
    }
}

/// A and F after adding `value` and `carry` to `a`.
pub open spec fn add_result(a: u8, value: u8, carry: u8) -> (u8, u8) {
    let sum = a + value + carry;
    let result = (sum % 256) as u8;
    (result, flag_byte(result == 0, false, (a & 0x0F) + (value & 0x0F) + carry > 0x0F, sum > 0xFF))
}

/// A and F after subtracting `value` and `carry` from `a`.
pub open spec fn sub_result(a: u8, value: u8, carry: u8) -> (u8, u8) {
    let result = ((a - value - carry + 512) % 256) as u8;
    (result, flag_byte(result == 0, true, (a & 0x0F) < (value & 0x0F) + carry, a < value + carry))
}

/// A and F after the 8-bit arithmetic or logic `operation` with operand `value`.
pub open spec fn alu_result(operation: AluOperation, registers: Registers, value: u8) -> (u8, u8) {
    let a = registers.a;
    match operation {
        AluOperation::Add => add_result(a, value, 0),
        AluOperation::Adc => add_result(a, value, carry_bit(registers)),
        AluOperation::Sub => sub_result(a, value, 0),
        AluOperation::Sbc => sub_result(a, value, carry_bit(registers)),
        AluOperation::And => (a & value, flag_byte(a & value == 0, false, true, false)),
        AluOperation::Xor => (a ^ value, flag_byte(a ^ value == 0, false, false, false)),
        AluOperation::Or => (a | value, flag_byte(a | value == 0, false, false, false)),
        AluOperation::Cp => (a, sub_result(a, value, 0).1),
    }
}

/// The result and the carry out of a rotate or shift of `value`, with
/// `carry_in` the carry flag before.
pub open spec fn rotate_result(operation: RotateOperation, value: u8, carry_in: u8) -> (u8, bool) {
    match operation {
        RotateOperation::Rlc => ((value << 1u8) | (value >> 7u8), value & 0x80 != 0),
        RotateOperation::Rrc => ((value >> 1u8) | (value << 7u8), value & 0x01 != 0),
        RotateOperation::Rl => ((value << 1u8) | carry_in, value & 0x80 != 0),
        RotateOperation::Rr => ((value >> 1u8) | (carry_in << 7u8), value & 0x01 != 0),
        RotateOperation::Sla => (value << 1u8, value & 0x80 != 0),
        RotateOperation::Sra => ((value >> 1u8) | (value & 0x80), value & 0x01 != 0),
        RotateOperation::Swap => ((value << 4u8) | (value >> 4u8), false),
        RotateOperation::Srl => (value >> 1u8, value & 0x01 != 0),
    }
}

/// A and F after the decimal adjustment of `a` (DAA) given flags `f`.
pub open spec fn daa_result(a: u8, f: u8) -> (u8, u8) {
    let subtract = f & FLAG_SUBTRACT != 0;
    let half_carry = f & FLAG_HALF_CARRY != 0;
    let carry = f & FLAG_CARRY != 0;
    let low = half_carry || (!subtract && a & 0x0F > 9);
    let high = carry || (!subtract && a > 0x99);
    let adjustment: int = (if low { 0x06int } else { 0 }) + (if high { 0x60int } else { 0 });
    let result = if subtract {
        ((a - adjustment + 256) % 256) as u8
    } else {
        ((a + adjustment) % 256) as u8
    };
    (result, flag_byte(result == 0, subtract, false, high))
}

/// The sign-extended 16-bit form of an 8-bit offset.
pub open spec fn offset_word(offset: i8) -> u16 {
    if offset < 0 {
        (offset + 0x10000) as u16
    } else {
        offset as u16
    }
}

/// SP plus a signed offset, and F as that addition sets it.
pub open spec fn sp_offset_result(sp: u16, offset: i8) -> (u16, u8) {
    let o = offset_word(offset);
    (
        ((sp + o) % 0x10000) as u16,
        flag_byte(false, false, (sp & 0x000F) + (o & 0x000F) > 0x000F, (sp & 0x00FF) + (o & 0x00FF)
            > 0x00FF),
    )
}

/// Whether a branch condition holds for the flags in `registers`.
pub open spec fn condition_holds(registers: Registers, condition: JumpCondition) -> bool {
    match condition {
        JumpCondition::NotZero => !registers.flag_of(Flag::Zero),
        JumpCondition::Zero => registers.flag_of(Flag::Zero),
        JumpCondition::NotCarry => !registers.flag_of(Flag::Carry),
        JumpCondition::Carry => registers.flag_of(Flag::Carry),
    }
}

/// The operand a 3-bit register code names.
pub open spec fn register8_of(code: u8) -> Register8 {
    if code == 0 {
        Register8::B
    } else if code == 1 {
        Register8::C
    } else if code == 2 {
        Register8::D
    } else if code == 3 {
        Register8::E
    } else if code == 4 {
        Register8::H
    } else if code == 5 {
        Register8::L
    } else if code == 6 {
        Register8::AddressHl
    } else {
        Register8::A
    }
}

/// The address an interrupt jumps to: 0x40, 0x48, 0x50, 0x58 or 0x60.
pub open spec fn vector_of(bit: u8) -> u16 {
    (0x40 + 8 * bit) as u16
}

impl Registers {
    /// These registers with A and F replaced by `af`.
    pub open spec fn with_alu(self, af: (u8, u8)) -> Registers {
        Registers { a: af.0, f: af.1, ..self }
    }

    /// These registers with F holding exactly the four flags given.
    pub open spec fn with_flags(self, zero: bool, subtract: bool, half_carry: bool, carry: bool) -> Registers {
        Registers { f: flag_byte(zero, subtract, half_carry, carry), ..self }
    }

    /// The value of an 8-bit register ((HL) is not a register and reads 0).
    pub open spec fn reg8_of(self, register: Register8) -> u8 {
        match register {
            Register8::B => self.b,
            Register8::C => self.c,
            Register8::D => self.d,
            Register8::E => self.e,
            Register8::H => self.h,
            Register8::L => self.l,
            Register8::AddressHl => 0,
            Register8::A => self.a,
        }
    }

    /// These registers with 8-bit register `register` set to `value`
    /// ((HL) names memory, so the registers stay as they are).
    pub open spec fn with_reg8(self, register: Register8, value: u8) -> Registers {
        match register {
            Register8::B => Registers { b: value, ..self },
            Register8::C => Registers { c: value, ..self },
            Register8::D => Registers { d: value, ..self },
            Register8::E => Registers { e: value, ..self },
            Register8::H => Registers { h: value, ..self },
            Register8::L => Registers { l: value, ..self },
            Register8::AddressHl => self,
            Register8::A => Registers { a: value, ..self },
        }
    }

    fn set_flags(&mut self, zero: bool, subtract: bool, half_carry: bool, carry: bool)
        ensures
            *final(self) == old(self).with_flags(zero, subtract, half_carry, carry),
    {
        let z: u8 = if zero { FLAG_ZERO } else { 0 };
        let n: u8 = if subtract { FLAG_SUBTRACT } else { 0 };
        let h: u8 = if half_carry { FLAG_HALF_CARRY } else { 0 };
        let c: u8 = if carry { FLAG_CARRY } else { 0 };
        self.f = z + n + h + c;
    }
}

/// Decodes a 3-bit register code (B, C, D, E, H, L, (HL), A).
fn decode_register8(code: u8) -> (register: Register8)
    requires
        code <= 7,
    ensures
        register == register8_of(code),
{
    match code {
        0 => Register8::B,
        1 => Register8::C,
        2 => Register8::D,
        3 => Register8::E,
        4 => Register8::H,
        5 => Register8::L,
        6 => Register8::AddressHl,
        _ => Register8::A,
    }
}

/// The handler address of interrupt `bit` (0 = V-blank .. 4 = joypad).
fn interrupt_vector(bit: u8) -> (vector: u16)
    requires
        bit <= 4,
    ensures
        vector == vector_of(bit),
{
    match bit {
        0 => 0x0040,
        1 => 0x0048,
        2 => 0x0050,
        3 => 0x0058,
        _ => 0x0060,
    }
}

/// The longest instruction, an interrupt dispatch included, in cycles.
pub const MAX_INSTRUCTION_CYCLES: u32 = 24;

/// The Sharp LR35902 CPU core.
#[derive(Debug, Clone, PartialEq, Eq)]
pub struct Cpu {
    registers: Registers,
    mode: CpuMode,
    interrupt_master_enabled: bool,
    ime_enable_delay: Option<u8>,
    elapsed_cycles: CycleCount,
    halt_bug: bool,
}

impl Default for Cpu {
    /// A CPU with every register zero, running, interrupts disabled.
    fn default() -> (cpu: Self)
        ensures
            cpu.inv(),
            cpu.regs() == (Registers { a: 0, f: 0, b: 0, c: 0, d: 0, e: 0, h: 0, l: 0, pc: 0, sp: 0 }),
            cpu.spec_mode() == CpuMode::Running,
            !cpu.ime(),
            cpu.ime_delay() is None,
            cpu.elapsed() == 0,
            !cpu.halt_bug_pending(),
    {
        Cpu {
            registers: Registers { a: 0, f: 0, b: 0, c: 0, d: 0, e: 0, h: 0, l: 0, pc: 0, sp: 0 },
            mode: CpuMode::Running,
            interrupt_master_enabled: false,
            ime_enable_delay: None,
            elapsed_cycles: 0,
            halt_bug: false,
        }
    }
}

impl Cpu {
    pub closed spec fn regs(&self) -> Registers {
        self.registers
    }

    pub closed spec fn spec_mode(&self) -> CpuMode {
        self.mode
    }

    /// The interrupt master enable (IME).
    pub closed spec fn ime(&self) -> bool {
        self.interrupt_master_enabled
    }

    /// Instructions left before an EI takes effect.
    pub closed spec fn ime_delay(&self) -> Option<u8> {
        self.ime_enable_delay
    }

    /// Cycles the bus has been advanced during the current instruction.
    pub closed spec fn elapsed(&self) -> u32 {
        self.elapsed_cycles
    }

    /// The next opcode fetch will not advance PC (the HALT bug).
    pub closed spec fn halt_bug_pending(&self) -> bool {
        self.halt_bug
    }

    /// A pending EI counts down from 2, and the cycle count stays within
    /// one instruction in whole machine cycles.
    pub closed spec fn inv(&self) -> bool {
        &&& (self.ime_enable_delay matches Some(d) ==> 1 <= d <= 2)
        &&& self.elapsed_cycles <= MAX_INSTRUCTION_CYCLES
        &&& self.elapsed_cycles % 4 == 0
    }

    /// The state the boot ROM leaves a DMG in.
    pub fn new_without_boot_rom() -> (cpu: Self)
        ensures
            cpu.inv(),
            cpu.regs().af_of() == 0x01B0,
            cpu.regs().bc_of() == 0x0013,
            cpu.regs().de_of() == 0x00D8,
            cpu.regs().hl_of() == 0x014D,
            cpu.regs().pc == 0x0100,
            cpu.regs().sp == 0xFFFE,
            cpu.regs() == (Registers { a: 0x01, f: 0xB0, b: 0x00, c: 0x13, d: 0x00, e: 0xD8, h: 0x01, l: 0x4D, pc: 0x0100, sp: 0xFFFE }),
            cpu.spec_mode() == CpuMode::Running,
            !cpu.ime(),
            cpu.ime_delay() is None,
            cpu.elapsed() == 0,
            !cpu.halt_bug_pending(),
    {
        let registers = Registers {
            a: 0x01,
            f: 0xB0,
            b: 0x00,
            c: 0x13,
            d: 0x00,
            e: 0xD8,
            h: 0x01,
            l: 0x4D,
            pc: 0x0100,
            sp: 0xFFFE,
        };
        proof {
            lemma_byte_bits();
        }
        Cpu {
            registers,
            mode: CpuMode::Running,
            interrupt_master_enabled: false,
            ime_enable_delay: None,
            elapsed_cycles: 0,
            halt_bug: false,
        }
    }

    /// The state the boot ROM leaves a CGB in (A = 0x11).
    pub fn new_cgb_without_boot_rom() -> (cpu: Self)
        ensures
            cpu.inv(),
            cpu.regs() == (Registers { a: 0x11, f: 0xB0, b: 0x00, c: 0x13, d: 0x00, e: 0xD8, h: 0x01, l: 0x4D, pc: 0x0100, sp: 0xFFFE }),
            cpu.spec_mode() == CpuMode::Running,
            !cpu.ime(),
            cpu.ime_delay() is None,
            cpu.elapsed() == 0,
            !cpu.halt_bug_pending(),
    {
        let mut cpu = Self::new_without_boot_rom();
        cpu.registers.a = 0x11;
        cpu
    }

    pub fn registers(&self) -> (registers: &Registers)
        ensures
            *registers == self.regs(),
    {
        &self.registers
    }

    /// Mutable access to the registers; nothing else of the CPU changes.
    pub fn registers_mut(&mut self) -> (registers: &mut Registers)
        ensures
            *registers == old(self).regs(),
            final(self).regs() == *final(registers),
            final(self).spec_mode() == old(self).spec_mode(),
            final(self).ime() == old(self).ime(),
            final(self).ime_delay() == old(self).ime_delay(),
            final(self).elapsed() == old(self).elapsed(),
            final(self).halt_bug_pending() == old(self).halt_bug_pending(),
            final(self).inv() == old(self).inv(),
    {
        &mut self.registers
    }

    pub fn mode(&self) -> (mode: CpuMode)
        ensures
            mode == self.spec_mode(),
    {
        self.mode
    }

    pub fn interrupt_master_enabled(&self) -> (enabled: bool)
        ensures
            enabled == self.ime(),
    {
        self.interrupt_master_enabled
    }

    /// Sets IME directly; disabling it also cancels a pending EI.
    pub fn set_interrupt_master_enabled(&mut self, enabled: bool)
        ensures
            final(self).ime() == enabled,
            final(self).ime_delay() == (if enabled {
                old(self).ime_delay()
            } else {
                None
            }),
            final(self).regs() == old(self).regs(),
            final(self).spec_mode() == old(self).spec_mode(),
            final(self).elapsed() == old(self).elapsed(),
            final(self).halt_bug_pending() == old(self).halt_bug_pending(),
            old(self).inv() ==> final(self).inv(),
    {
        self.interrupt_master_enabled = enabled;
        if !enabled {
            self.ime_enable_delay = None;
        }
    }

    fn execute_alu(&mut self, operation: AluOperation, value: u8)
        ensures
            *final(self) == (Cpu {
                registers: old(self).registers.with_alu(alu_result(operation, old(self).registers, value)),
                ..*old(self)
            }),
    {
        match operation {
            AluOperation::Add => self.add(value, false),
            AluOperation::Adc => self.add(value, true),
            AluOperation::Sub => self.subtract(value, false),
            AluOperation::Sbc => self.subtract(value, true),
            AluOperation::And => {
                self.registers.a &= value;
                let zero = self.registers.a == 0;
                self.registers.set_flags(zero, false, true, false);
            },
            AluOperation::Xor => {
                self.registers.a ^= value;
                let zero = self.registers.a == 0;
                self.registers.set_flags(zero, false, false, false);
            },
            AluOperation::Or => {
                self.registers.a |= value;
                let zero = self.registers.a == 0;
                self.registers.set_flags(zero, false, false, false);
            },
            AluOperation::Cp => self.compare(value),
        }
    }

    fn add(&mut self, value: u8, include_carry: bool)
        ensures
            *final(self) == (Cpu {
                registers: old(self).registers.with_alu(
                    add_result(
                        old(self).registers.a,
                        value,
                        if include_carry { carry_bit(old(self).registers) } else { 0 },
                    ),
                ),
                ..*old(self)
            }),
    {
        let a = self.registers.a;
        let carry: u8 = if include_carry && self.registers.flag(Flag::Carry) {
            1
        } else {
            0
        };
        let result = a.wrapping_add(value).wrapping_add(carry);
        proof {
            lemma_byte_bits();
        }
        self.registers.a = result;
        self.registers.set_flags(
            result == 0,
            false,
            (a & 0x0F) + (value & 0x0F) + carry > 0x0F,
            a as u16 + value as u16 + carry as u16 > 0xFF,
        );
    }

    fn subtract(&mut self, value: u8, include_carry: bool)
        ensures
            *final(self) == (Cpu {
                registers: old(self).registers.with_alu(
                    sub_result(
                        old(self).registers.a,
                        value,
                        if include_carry { carry_bit(old(self).registers) } else { 0 },
                    ),
                ),
                ..*old(self)
            }),
    {
        let a = self.registers.a;
        let carry: u8 = if include_carry && self.registers.flag(Flag::Carry) {
            1
        } else {
            0
        };
        let result = a.wrapping_sub(value).wrapping_sub(carry);
        proof {
            lemma_byte_bits();
        }
        self.registers.a = result;
        self.registers.set_flags(
            result == 0,
            true,
            (a & 0x0F) < ((value & 0x0F) + carry),
            (a as u16) < (value as u16 + carry as u16),
        );
    }

    fn compare(&mut self, value: u8)
        ensures
            *final(self) == (Cpu {
                registers: old(self).registers.with_alu(
                    (old(self).registers.a, sub_result(old(self).registers.a, value, 0).1),
                ),
                ..*old(self)
            }),
    {
        let a = self.registers.a;
        let result = a.wrapping_sub(value);
        proof {
            lemma_byte_bits();
        }
        self.registers.set_flags(result == 0, true, (a & 0x0F) < (value & 0x0F), a < value);
    }

    fn rotate_shift_value(&mut self, operation: RotateOperation, value: u8, set_zero: bool) -> (result: u8)
        ensures
            result == rotate_result(operation, value, carry_bit(old(self).registers)).0,
            *final(self) == (Cpu {
                registers: old(self).registers.with_flags(
                    set_zero && result == 0,
                    false,
                    false,
                    rotate_result(operation, value, carry_bit(old(self).registers)).1,
                ),
                ..*old(self)
            }),
    {
        let old_carry: u8 = if self.registers.flag(Flag::Carry) {
            1
        } else {
            0
        };
        let (result, carry) = match operation {
            RotateOperation::Rlc => ((value << 1) | (value >> 7), value & 0x80 != 0),
            RotateOperation::Rrc => ((value >> 1) | (value << 7), value & 0x01 != 0),
            RotateOperation::Rl => ((value << 1) | old_carry, value & 0x80 != 0),
            RotateOperation::Rr => ((value >> 1) | (old_carry << 7), value & 0x01 != 0),
            RotateOperation::Sla => (value << 1, value & 0x80 != 0),
            RotateOperation::Sra => ((value >> 1) | (value & 0x80), value & 0x01 != 0),
            RotateOperation::Swap => ((value << 4) | (value >> 4), false),
            RotateOperation::Srl => (value >> 1, value & 0x01 != 0),
        };
        self.registers.set_flags(set_zero && result == 0, false, false, carry);
        result
    }

    /// RLCA, RRCA, RLA, RRA: like the prefixed forms but Z is always cleared.
    fn rotate_accumulator(&mut self, operation: RotateOperation)
        ensures
            *final(self) == (Cpu {
                registers: old(self).registers.with_alu(
                    (
                        rotate_result(operation, old(self).registers.a, carry_bit(old(self).registers)).0,
                        flag_byte(
                            false,
                            false,
                            false,
                            rotate_result(operation, old(self).registers.a, carry_bit(old(self).registers)).1,
                        ),
                    ),
                ),
                ..*old(self)
            }),
    {
        let a = self.registers.a;
        let result = self.rotate_shift_value(operation, a, false);
        self.registers.a = result;
    }

    fn decimal_adjust_accumulator(&mut self)
        ensures
            *final(self) == (Cpu {
                registers: old(self).registers.with_alu(daa_result(old(self).registers.a, old(self).registers.f)),
                ..*old(self)
            }),
    {
        let a = self.registers.a;
        let subtract = self.registers.flag(Flag::Subtract);
        let half_carry = self.registers.flag(Flag::HalfCarry);
        let mut carry = self.registers.flag(Flag::Carry);
        proof {
            lemma_byte_bits();
        }
        let low = half_carry || (!subtract && a & 0x0F > 9);
        if carry || (!subtract && a > 0x99) {
            carry = true;
        }
        let adjustment: u8 = if low {
            if carry {
                0x66
            } else {
                0x06
            }
        } else if carry {
            0x60
        } else {
            0
        };
        let result = if subtract {
            a.wrapping_sub(adjustment)
        } else {
            a.wrapping_add(adjustment)
        };
        self.registers.a = result;
        self.registers.set_flags(result == 0, subtract, false, carry);
    }

    fn increment_register16(&mut self, register: Register16) -> (cycles: CycleCount)
        ensures
            cycles == 8,
            *final(self) == (Cpu {
                registers: old(self).registers.with_pair(
                    register,
                    ((old(self).registers.pair_of(register) + 1) % 0x10000) as u16,
                ),
                ..*old(self)
            }),
    {
        let value = self.registers.read16(register).wrapping_add(1);
        self.registers.write16(register, value);
        8
    }

    fn decrement_register16(&mut self, register: Register16) -> (cycles: CycleCount)
        ensures
            cycles == 8,
            *final(self) == (Cpu {
                registers: old(self).registers.with_pair(
                    register,
                    ((old(self).registers.pair_of(register) + 0xFFFF) % 0x10000) as u16,
                ),
                ..*old(self)
            }),
    {
        let value = self.registers.read16(register).wrapping_sub(1);
        self.registers.write16(register, value);
        8
    }

    /// ADD HL,rr: Z is kept, N cleared, H and C from bits 11 and 15.
    fn add_hl(&mut self, value: u16) -> (cycles: CycleCount)
        ensures
            cycles == 8,
            *final(self) == (Cpu {
                registers: old(self).registers.with_pair(
                    Register16::HL,
                    ((old(self).registers.hl_of() + value) % 0x10000) as u16,
                ).with_flags(
                    old(self).registers.flag_of(Flag::Zero),
                    false,
                    (old(self).registers.hl_of() & 0x0FFF) + (value & 0x0FFF) > 0x0FFF,
                    old(self).registers.hl_of() + value > 0xFFFF,
                ),
                ..*old(self)
            }),
    {
        let hl = self.registers.hl();
        let result = hl.wrapping_add(value);
        let zero = self.registers.flag(Flag::Zero);
        proof {
            lemma_word_bits();
        }
        self.registers.set_hl(result);
        self.registers.set_flags(
            zero,
            false,
            (hl & 0x0FFF) + (value & 0x0FFF) > 0x0FFF,
            hl as u32 + value as u32 > 0xFFFF,
        );
        8
    }

    fn condition_is_met(&self, condition: JumpCondition) -> (met: bool)
        ensures
            met == condition_holds(self.registers, condition),
    {
        match condition {
            JumpCondition::NotZero => !self.registers.flag(Flag::Zero),
            JumpCondition::Zero => self.registers.flag(Flag::Zero),
            JumpCondition::NotCarry => !self.registers.flag(Flag::Carry),
            JumpCondition::Carry => self.registers.flag(Flag::Carry),
        }
    }

    /// SP plus a signed offset; Z and N cleared, H and C from the low byte.
    fn sp_plus_signed_offset(&mut self, offset: i8) -> (result: u16)
        ensures
            result == sp_offset_result(old(self).registers.sp, offset).0,
            *final(self) == (Cpu {
                registers: Registers { f: sp_offset_result(old(self).registers.sp, offset).1, ..old(self).registers },
                ..*old(self)
            }),
    {
        let sp = self.registers.sp;
        let offset: u16 = if offset < 0 {
            (0x10000i32 + offset as i32) as u16
        } else {
            offset as u16
        };
        let result = sp.wrapping_add(offset);
        proof {
            lemma_word_bits();
        }
        self.registers.set_flags(
            false,
            false,
            (sp & 0x000F) + (offset & 0x000F) > 0x000F,
            (sp & 0x00FF) + (offset & 0x00FF) > 0x00FF,
        );
        result
    }

    fn add_signed_offset_to_sp(&mut self, offset: i8)
        ensures
            *final(self) == (Cpu {
                registers: Registers {
                    sp: sp_offset_result(old(self).registers.sp, offset).0,
                    f: sp_offset_result(old(self).registers.sp, offset).1,
                    ..old(self).registers
                },
                ..*old(self)
            }),
    {
        self.registers.sp = self.sp_plus_signed_offset(offset);
    }

    /// Counts down a pending EI; when it reaches the end IME turns on.
    fn finish_instruction(&mut self)
        requires
            old(self).inv(),
        ensures
            final(self).inv(),
            *final(self) == (match old(self).ime_enable_delay {
                None => *old(self),
                Some(d) => if d == 1 {
                    Cpu { interrupt_master_enabled: true, ime_enable_delay: None, ..*old(self) }
                } else {
                    Cpu { ime_enable_delay: Some((d - 1) as u8), ..*old(self) }
                },
            }),
    {
        let delay = match self.ime_enable_delay {
            Some(delay) => delay,
            None => {
                return;
            },
        };
        if delay == 1 {
            self.interrupt_master_enabled = true;
            self.ime_enable_delay = None;
        } else {
            self.ime_enable_delay = Some(delay - 1);
        }
    }
}


/// The bus is well formed and its cartridge clock can take another
/// machine cycle.
pub open spec fn bus_ready(bus: &Bus) -> bool {
    bus.inv() && bus.cycle_room() >= 4
}

/// The operand bytes at `pc`: the byte there and, when `count` is 2, the
/// byte after it (0 stands for a byte not read). Known only when each read
/// succeeds and a second byte lies where time alone changes nothing, with
/// no DMA running.
#[verifier::opaque]
pub open spec fn operand_bytes(bus: Bus, pc: u16, count: int) -> Option<(u8, u8)> {
    match bus.read_spec(pc) {
        Ok(low) => if count != 2 {
            Some((low, 0u8))
        } else {
            let next = ((pc + 1) % 0x10000) as u16;
            if !bus.spec_dma().active && Bus::stable_address(next) {
                match bus.read_spec(next) {
                    Ok(high) => Some((low, high)),
                    Err(_) => None,
                }
            } else {
                None
            }
        },
        Err(_) => None,
    }
}

/// The 16-bit value on top of the stack at `sp` (low byte first), known
/// when no DMA runs and both bytes lie where time alone changes nothing
/// and read without error.
#[verifier::opaque]
pub open spec fn stack_word(bus: Bus, sp: u16) -> Option<u16> {
    let next = ((sp + 1) % 0x10000) as u16;
    if !bus.spec_dma().active && Bus::stable_address(sp) && Bus::stable_address(next) {
        match (bus.read_spec(sp), bus.read_spec(next)) {
            (Ok(low), Ok(high)) => Some(word(high, low)),
            _ => None,
        }
    } else {
        None
    }
}

/// When no DMA runs and both stack bytes below `sp` lie in RAM, a push
/// of `value` leaves `after` with `value` on top of the stack two bytes
/// down, and every other stable address reading as in `before`.
#[verifier::opaque]
pub open spec fn pushes_word(before: Bus, after: Bus, sp: u16, value: u16) -> bool {
    let high_address = pc_plus(sp, 0xFFFF);
    let low_address = pc_plus(sp, 0xFFFE);
    !before.spec_dma().active && Bus::ram_address(high_address) && Bus::ram_address(low_address)
        ==> {
        &&& !after.spec_dma().active
        &&& stack_word(after, low_address) == Some(value)
        &&& forall|other: u16|
            Bus::stable_address(other) && !(Bus::ram_address(other) && (Bus::ram_cell(other)
                == Bus::ram_cell(high_address) || Bus::ram_cell(other) == Bus::ram_cell(low_address)))
                ==> #[trigger] after.read_spec(other) == before.read_spec(other)
    }
}

/// What CALL cc,nn does once its 16-bit operand is known: not taken it
/// succeeds; taken it jumps to the operand when it succeeds, succeeds when
/// no DMA runs and the two stack bytes lie in RAM, and pushes the address
/// of the next instruction. `bus0` and `r0` are before, `bus1` and `r1`
/// after.
#[verifier::opaque]
pub open spec fn call_facts(
    bus0: Bus,
    bus1: Bus,
    r0: Registers,
    taken: bool,
    result: Result<CycleCount>,
    r1: Registers,
) -> bool {
    operand_bytes(bus0, r0.pc, 2) matches Some((low, high)) ==> {
        &&& !taken ==> result == Ok::<u32, EmulatorError>(12) && r1 == (Registers {
            pc: pc_plus(r0.pc, 2),
            ..r0
        })
        &&& taken && result is Ok ==> result == Ok::<u32, EmulatorError>(24) && r1 == (Registers {
            pc: word(high, low),
            sp: pc_plus(r0.sp, 0xFFFE),
            ..r0
        })
        &&& taken && !bus0.spec_dma().active && Bus::ram_address(pc_plus(r0.sp, 0xFFFF))
            && Bus::ram_address(pc_plus(r0.sp, 0xFFFE)) ==> result is Ok
        &&& taken ==> pushes_word(bus0, bus1, r0.sp, pc_plus(r0.pc, 2))
    }
}

/// PC after `offset` (a byte read as a signed number) is added to `pc`.
pub open spec fn relative_target(pc: u16, offset: u8) -> u16 {
    ((pc + (if offset >= 128 { offset - 256 } else { offset as int }) + 0x10000) % 0x10000) as u16
}

impl Cpu {
    /// PC after an opcode or operand fetch (the HALT bug repeats the byte).
    pub closed spec fn pc_after_fetch(&self) -> u16 {
        if self.halt_bug {
            self.registers.pc
        } else {
            ((self.registers.pc + 1) % 0x10000) as u16
        }
    }

    /// Where PC stands after an opcode fetch: one further on, or where it
    /// was while the HALT bug holds it back.
    pub proof fn lemma_pc_after_fetch(&self)
        ensures
            self.pc_after_fetch() == (if self.halt_bug_pending() {
                self.regs().pc
            } else {
                ((self.regs().pc + 1) % 0x10000) as u16
            }),
    {
    }

    /// IME, a pending EI and the run mode are as in `other`, and no cycles
    /// were taken back.
    closed spec fn keeps_control(&self, other: &Cpu) -> bool {
        &&& self.elapsed_cycles >= other.elapsed_cycles
        &&& self.interrupt_master_enabled == other.interrupt_master_enabled
        &&& self.ime_enable_delay == other.ime_enable_delay
        &&& self.mode == other.mode
    }

    /// Room for `accesses` more machine cycles in this instruction.
    closed spec fn ready(&self, bus: &Bus, accesses: int) -> bool {
        &&& self.inv()
        &&& bus_ready(bus)
        &&& self.elapsed_cycles + 4 * accesses <= MAX_INSTRUCTION_CYCLES
    }

    /// One machine cycle: the bus advances four cycles.
    fn idle_cycle(&mut self, bus: &mut Bus)
        requires
            old(self).ready(old(bus), 1),
        ensures
            *final(self) == (Cpu { elapsed_cycles: (old(self).elapsed_cycles + 4) as u32, ..*old(self) }),
            final(self).inv(),
            bus_ready(final(bus)),
            final(self).keeps_control(old(self)),
            final(bus).keeps_stable_reads(old(bus)),
            final(bus).spec_cartridge() is None <==> old(bus).spec_cartridge() is None,
            clock_advanced(*old(bus), *final(bus), 4),
            time_kept(*old(bus), old(self).elapsed_cycles, *final(bus), final(self).elapsed_cycles),
            work_kept(*old(bus), old(self).elapsed_cycles, *final(bus), final(self).elapsed_cycles),
    {
        let ghost before = *bus;
        bus.advance_cycles(4);
        self.elapsed_cycles += 4;
        proof {
            assert forall|base: Bus| #[trigger] bus_time(base, before, old(self).elapsed_cycles) implies bus_time(
                base,
                *bus,
                self.elapsed_cycles,
            ) by {
                lemma_ticks_push(base, before, *bus, (old(self).elapsed_cycles / 4) as nat);
            }
            assert forall|base: Bus| #[trigger] worked_time(base, before, old(self).elapsed_cycles) implies worked_time(
                base,
                *bus,
                self.elapsed_cycles,
            ) by {
                lemma_cycles_push(base, before, *bus, (old(self).elapsed_cycles / 4) as nat);
            }
        }
    }

    /// Lets machine cycles pass until the instruction has taken `cycles`
    /// (an instruction that already took longer takes nothing more).
    fn advance_remaining_cycles(&mut self, bus: &mut Bus, cycles: CycleCount)
        requires
            old(self).ready(old(bus), 0),
            cycles <= MAX_INSTRUCTION_CYCLES,
            cycles % 4 == 0,
        ensures
            *final(self) == (Cpu {
                elapsed_cycles: if old(self).elapsed_cycles < cycles {
                    cycles
                } else {
                    old(self).elapsed_cycles
                },
                ..*old(self)
            }),
            final(self).inv(),
            bus_ready(final(bus)),
            final(self).keeps_control(old(self)),
            final(bus).keeps_stable_reads(old(bus)),
            clock_ticks(*old(bus), *final(bus), ((final(self).elapsed_cycles - old(self).elapsed_cycles) / 4) as nat),
            time_kept(*old(bus), old(self).elapsed_cycles, *final(bus), final(self).elapsed_cycles),
            work_kept(*old(bus), old(self).elapsed_cycles, *final(bus), final(self).elapsed_cycles),
    {
        let ghost bus0 = *bus;
        proof {
            Bus::lemma_stable_reads_refl(&*bus);
            lemma_ticks_zero(bus0);
        }
        while self.elapsed_cycles < cycles
            invariant
                self.ready(bus, 0),
                old(self).elapsed_cycles <= self.elapsed_cycles,
                self.elapsed_cycles <= cycles || self.elapsed_cycles == old(self).elapsed_cycles,
                cycles <= MAX_INSTRUCTION_CYCLES,
                cycles % 4 == 0,
                *self == (Cpu { elapsed_cycles: self.elapsed_cycles, ..*old(self) }),
                bus.keeps_stable_reads(&bus0),
                (self.elapsed_cycles - old(self).elapsed_cycles) % 4 == 0,
                clock_ticks(bus0, *bus, ((self.elapsed_cycles - old(self).elapsed_cycles) / 4) as nat),
                time_kept(bus0, old(self).elapsed_cycles, *bus, self.elapsed_cycles),
                work_kept(bus0, old(self).elapsed_cycles, *bus, self.elapsed_cycles),
            decreases cycles - self.elapsed_cycles,
        {
            let ghost before = *bus;
            let ghost ticks = ((self.elapsed_cycles - old(self).elapsed_cycles) / 4) as nat;
            self.idle_cycle(bus);
            proof {
                lemma_ticks_push(bus0, before, *bus, ticks);
                assert(((self.elapsed_cycles - old(self).elapsed_cycles) / 4) as nat == ticks + 1);
                Bus::lemma_stable_reads_chain(&bus0, &before, &*bus);
            }
        }
    }

    /// Reads `address` and lets a machine cycle pass.
    fn read_byte(&mut self, bus: &mut Bus, address: u16) -> (result: Result<u8>)
        requires
            old(self).ready(old(bus), 1),
        ensures
            result == old(bus).read_spec(address),
            result is Ok ==> *final(self) == (Cpu { elapsed_cycles: (old(self).elapsed_cycles + 4) as u32, ..*old(self) }),
            result is Err ==> *final(self) == *old(self),
            result is Ok ==> clock_advanced(*old(bus), *final(bus), 4),
            result is Err ==> *final(bus) == *old(bus),
            final(self).inv(),
            bus_ready(final(bus)),
            final(self).keeps_control(old(self)),
            final(bus).keeps_stable_reads(old(bus)),
            final(bus).spec_cartridge() is None <==> old(bus).spec_cartridge() is None,
            time_kept(*old(bus), old(self).elapsed_cycles, *final(bus), final(self).elapsed_cycles),
            work_kept(*old(bus), old(self).elapsed_cycles, *final(bus), final(self).elapsed_cycles),
    {
        proof {
            reveal(Bus::keeps_stable_reads);
        }
        let value = match bus.read_byte(address) {
            Ok(v) => v,
            Err(e) => {
                return Err(e);
            },
        };
        self.idle_cycle(bus);
        Ok(value)
    }

    /// Writes `value` to `address` and lets a machine cycle pass.
    fn write_byte(&mut self, bus: &mut Bus, address: u16, value: u8) -> (result: Result<()>)
        requires
            old(self).ready(old(bus), 1),
        ensures
            result is Err <==> old(bus).write_fails(address),
            result is Err ==> result == Err::<(), EmulatorError>(EmulatorError::InvalidMemoryAccess { address }),
            result is Ok ==> *final(self) == (Cpu { elapsed_cycles: (old(self).elapsed_cycles + 4) as u32, ..*old(self) }),
            result is Err ==> *final(self) == *old(self),
            final(self).inv(),
            bus_ready(final(bus)),
            final(self).keeps_control(old(self)),
            final(bus).spec_cartridge() is None <==> old(bus).spec_cartridge() is None,
            !old(bus).spec_dma().active && Bus::ram_address(address) ==> {
                &&& result is Ok
                &&& !final(bus).spec_dma().active
                &&& final(bus).read_spec(address) == Ok::<u8, EmulatorError>(value)
                &&& forall|other: u16|
                    Bus::stable_address(other) && !(Bus::ram_address(other) && Bus::ram_cell(other)
                        == Bus::ram_cell(address)) ==> #[trigger] final(bus).read_spec(other)
                        == old(bus).read_spec(other)
            },
            !old(bus).dma_blocks(address) && Bus::ram_address(address) ==> exists|mid: Bus|
                #[trigger] ram_written(*old(bus), mid, address, value) && clock_advanced(mid, *final(bus), 4),
            work_kept(*old(bus), old(self).elapsed_cycles, *final(bus), final(self).elapsed_cycles),
    {
        proof {
            reveal(Bus::keeps_stable_reads);
        }
        match bus.write_byte(address, value) {
            Ok(()) => {},
            Err(e) => {
                return Err(e);
            },
        }
        let ghost written = *bus;
        self.idle_cycle(bus);
        proof {
            assert(machine_cycle(*old(bus), *bus)) by {
                assert(bus_write(*old(bus), written, address, value, Ok(())) && clock_advanced(written, *bus, 4));
            }
            assert forall|base: Bus| #[trigger] worked_time(base, *old(bus), old(self).elapsed_cycles) implies worked_time(
                base,
                *bus,
                self.elapsed_cycles,
            ) by {
                lemma_cycles_push(base, *old(bus), *bus, (old(self).elapsed_cycles / 4) as nat);
            }
            if !old(bus).dma_blocks(address) && Bus::ram_address(address) {
                assert(ram_written(*old(bus), written, address, value) && clock_advanced(written, *bus, 4));
            }
        }
        Ok(())
    }

    /// Reads the byte at PC and moves PC past it (unless the HALT bug
    /// holds it back once).
    fn fetch_byte(&mut self, bus: &mut Bus) -> (result: Result<u8>)
        requires
            old(self).ready(old(bus), 1),
        ensures
            result is Err ==> *final(self) == *old(self) && *final(bus) == *old(bus),
            result is Ok ==> clock_advanced(*old(bus), *final(bus), 4),
            result == old(bus).read_spec(old(self).registers.pc),
            result is Ok ==> *final(self) == (Cpu {
                registers: Registers { pc: old(self).pc_after_fetch(), ..old(self).registers },
                halt_bug: false,
                elapsed_cycles: (old(self).elapsed_cycles + 4) as u32,
                ..*old(self)
            }),
            final(self).inv(),
            bus_ready(final(bus)),
            final(self).keeps_control(old(self)),
            final(bus).keeps_stable_reads(old(bus)),
            operand_bytes(*old(bus), old(self).registers.pc, 1) == (match result {
                Ok(b) => Some((b, 0u8)),
                Err(_) => None,
            }),
            result is Err ==> operand_bytes(*old(bus), old(self).registers.pc, 2) is None,
            final(bus).spec_cartridge() is None <==> old(bus).spec_cartridge() is None,
            time_kept(*old(bus), old(self).elapsed_cycles, *final(bus), final(self).elapsed_cycles),
            work_kept(*old(bus), old(self).elapsed_cycles, *final(bus), final(self).elapsed_cycles),
    {
        proof {
            reveal(Bus::keeps_stable_reads);
        }
        proof {
            reveal(operand_bytes);
        }
        let pc = self.registers.pc;
        let byte = match self.read_byte(bus, pc) {
            Ok(b) => b,
            Err(e) => {
                return Err(e);
            },
        };
        if self.halt_bug {
            self.halt_bug = false;
        } else {
            self.registers.pc = self.registers.pc.wrapping_add(1);
        }
        Ok(byte)
    }

    /// Reads a little-endian word at PC and moves PC past it.
    #[verifier::rlimit(40)]
    #[verifier::spinoff_prover]
    fn fetch_word(&mut self, bus: &mut Bus) -> (result: Result<u16>)
        requires
            old(self).ready(old(bus), 2),
        ensures
            result is Ok ==> *final(self) == (Cpu {
                registers: Registers {
                    pc: ((old(self).pc_after_fetch() + 1) % 0x10000) as u16,
                    ..old(self).registers
                },
                halt_bug: false,
                elapsed_cycles: (old(self).elapsed_cycles + 8) as u32,
                ..*old(self)
            }),
            result matches Ok(w) ==> old(bus).read_spec(old(self).registers.pc) == Ok::<u8, EmulatorError>(low_byte(w)),
            !old(self).halt_bug ==> (operand_bytes(*old(bus), old(self).registers.pc, 2) matches Some((low, high))
                ==> result == Ok::<u16, EmulatorError>(word(high, low))),
            final(self).inv(),
            bus_ready(final(bus)),
            final(self).keeps_control(old(self)),
            final(bus).keeps_stable_reads(old(bus)),
            final(bus).spec_cartridge() is None <==> old(bus).spec_cartridge() is None,
            time_kept(*old(bus), old(self).elapsed_cycles, *final(bus), final(self).elapsed_cycles),
            work_kept(*old(bus), old(self).elapsed_cycles, *final(bus), final(self).elapsed_cycles),
    {
        proof {
            reveal(Bus::keeps_stable_reads);
        }
        let ghost bus0 = *bus;
        proof {
            reveal(operand_bytes);
        }
        let low = match self.fetch_byte(bus) {
            Ok(b) => b,
            Err(e) => {
                return Err(e);
            },
        };
        let ghost bus1 = *bus;
        let high = match self.fetch_byte(bus) {
            Ok(b) => b,
            Err(e) => {
                return Err(e);
            },
        };
        proof {
            Bus::lemma_stable_reads_chain(&bus0, &bus1, &*bus);
        }
        let w = join(high, low);
        proof {
            lemma_word_bytes(high, low);
        }
        Ok(w)
    }

    /// Reads an 8-bit operand: a register, or the byte at (HL).
    fn read8(&mut self, bus: &mut Bus, register: Register8) -> (result: Result<u8>)
        requires
            old(self).ready(old(bus), 1),
        ensures
            register != Register8::AddressHl ==> result == Ok::<u8, EmulatorError>(old(self).registers.reg8_of(register))
                && *final(self) == *old(self) && *final(bus) == *old(bus),
            register == Register8::AddressHl ==> result == old(bus).read_spec(old(self).registers.hl_of()),
            register == Register8::AddressHl && result is Ok ==> *final(self) == (Cpu {
                elapsed_cycles: (old(self).elapsed_cycles + 4) as u32,
                ..*old(self)
            }),
            final(self).inv(),
            bus_ready(final(bus)),
            final(self).keeps_control(old(self)),
            final(bus).keeps_stable_reads(old(bus)),
            time_kept(*old(bus), old(self).elapsed_cycles, *final(bus), final(self).elapsed_cycles),
            work_kept(*old(bus), old(self).elapsed_cycles, *final(bus), final(self).elapsed_cycles),
    {
        proof {
            reveal(Bus::keeps_stable_reads);
        }
        match register {
            Register8::B => Ok(self.registers.b),
            Register8::C => Ok(self.registers.c),
            Register8::D => Ok(self.registers.d),
            Register8::E => Ok(self.registers.e),
            Register8::H => Ok(self.registers.h),
            Register8::L => Ok(self.registers.l),
            Register8::AddressHl => {
                let address = self.registers.hl();
                self.read_byte(bus, address)
            },
            Register8::A => Ok(self.registers.a),
        }
    }

    /// Writes an 8-bit operand: a register, or the byte at (HL).
    fn write8(&mut self, bus: &mut Bus, register: Register8, value: u8) -> (result: Result<()>)
        requires
            old(self).ready(old(bus), 1),
        ensures
            register != Register8::AddressHl ==> result is Ok && *final(self) == (Cpu {
                registers: old(self).registers.with_reg8(register, value),
                ..*old(self)
            }) && *final(bus) == *old(bus),
            register == Register8::AddressHl ==> (result is Err <==> old(bus).write_fails(old(self).registers.hl_of())),
            register == Register8::AddressHl && result is Ok ==> *final(self) == (Cpu {
                elapsed_cycles: (old(self).elapsed_cycles + 4) as u32,
                ..*old(self)
            }),
            final(self).inv(),
            bus_ready(final(bus)),
            final(self).keeps_control(old(self)),
            register != Register8::AddressHl ==> final(bus).keeps_stable_reads(old(bus)),
            register == Register8::AddressHl ==> stores_byte(*old(bus), *final(bus), old(self).registers.hl_of(), value),
            register == Register8::AddressHl && !old(bus).spec_dma().active && Bus::ram_address(
                old(self).registers.hl_of(),
            ) ==> result is Ok,
            register != Register8::AddressHl ==> time_kept(*old(bus), old(self).elapsed_cycles, *final(bus), final(self).elapsed_cycles),
            work_kept(*old(bus), old(self).elapsed_cycles, *final(bus), final(self).elapsed_cycles),
    {
        proof {
            reveal(Bus::keeps_stable_reads);
        }
        match register {
            Register8::B => self.registers.b = value,
            Register8::C => self.registers.c = value,
            Register8::D => self.registers.d = value,
            Register8::E => self.registers.e = value,
            Register8::H => self.registers.h = value,
            Register8::L => self.registers.l = value,
            Register8::AddressHl => {
                let address = self.registers.hl();
                match self.write_byte(bus, address, value) {
                    Ok(()) => {},
                    Err(e) => {
                        return Err(e);
                    },
                }
            },
            Register8::A => self.registers.a = value,
        }
        Ok(())
    }

    /// Pushes a word: SP drops by two, the high byte lands at the higher
    /// address.
    fn push_stack(&mut self, bus: &mut Bus, value: u16) -> (result: Result<()>)
        requires
            old(self).ready(old(bus), 2),
        ensures
            result is Ok ==> *final(self) == (Cpu {
                registers: Registers {
                    sp: ((old(self).registers.sp + 0xFFFE) % 0x10000) as u16,
                    ..old(self).registers
                },
                elapsed_cycles: (old(self).elapsed_cycles + 8) as u32,
                ..*old(self)
            }),
            result is Err ==> old(bus).spec_cartridge() is None && (Bus::cartridge_area(
                pc_plus(old(self).registers.sp, 0xFFFF),
            ) || Bus::cartridge_area(pc_plus(old(self).registers.sp, 0xFFFE))),
            old(bus).write_fails(pc_plus(old(self).registers.sp, 0xFFFF)) ==> result is Err,
            !old(bus).spec_dma().active && Bus::ram_address(pc_plus(old(self).registers.sp, 0xFFFF))
                && Bus::ram_address(pc_plus(old(self).registers.sp, 0xFFFE)) ==> result is Ok,
            pushes_word(*old(bus), *final(bus), old(self).registers.sp, value),
            stack_pushable(*old(bus), old(self).registers.sp) ==> stack_pushed(
                *old(bus),
                *final(bus),
                old(self).registers.sp,
                value,
            ),
            final(self).inv(),
            bus_ready(final(bus)),
            final(self).keeps_control(old(self)),
            final(bus).spec_cartridge() is None <==> old(bus).spec_cartridge() is None,
            work_kept(*old(bus), old(self).elapsed_cycles, *final(bus), final(self).elapsed_cycles),
    {
        proof {
            reveal(pushes_word);
        }
        let ghost bus0 = *bus;
        let ghost sp = self.registers.sp;
        let (high, low) = split(value);
        self.registers.sp = self.registers.sp.wrapping_sub(1);
        let address = self.registers.sp;
        proof {
            lemma_word_down(sp);
        }
        match self.write_byte(bus, address, high) {
            Ok(()) => {},
            Err(e) => {
                return Err(e);
            },
        }
        let ghost bus1 = *bus;
        self.registers.sp = self.registers.sp.wrapping_sub(1);
        let address = self.registers.sp;
        proof {
            lemma_pc_plus_down(sp);
        }
        let result = self.write_byte(bus, address, low);
        proof {
            if stack_pushable(bus0, sp) {
                let w1 = choose|mid: Bus|
                    #[trigger] ram_written(bus0, mid, pc_plus(sp, 0xFFFF), high) && clock_advanced(mid, bus1, 4);
                assert(!bus1.spec_dma().active);
                let w2 = choose|mid: Bus|
                    #[trigger] ram_written(bus1, mid, pc_plus(sp, 0xFFFE), low) && clock_advanced(mid, *bus, 4);
                assert(ram_written(bus0, w1, pc_plus(sp, 0xFFFF), high_byte(value)) && clock_advanced(w1, bus1, 4)
                    && ram_written(bus1, w2, pc_plus(sp, 0xFFFE), low_byte(value)) && clock_advanced(w2, *bus, 4));
            }
            if Bus::ram_address(pc_plus(sp, 0xFFFF)) && Bus::ram_address(pc_plus(sp, 0xFFFE))
                && !bus0.spec_dma().active {
                reveal(stack_word);
                lemma_bytes_word(value);
                assert(Bus::ram_cell(pc_plus(sp, 0xFFFF)) != Bus::ram_cell(pc_plus(sp, 0xFFFE)));
                assert(bus.read_spec(pc_plus(sp, 0xFFFF)) == bus1.read_spec(pc_plus(sp, 0xFFFF)));
            }
        }
        result
    }

    /// Pops a word pushed by `push_stack`; SP rises by two.
    #[verifier::rlimit(40)]
    #[verifier::spinoff_prover]
    fn pop_stack(&mut self, bus: &mut Bus) -> (result: Result<u16>)
        requires
            old(self).ready(old(bus), 2),
        ensures
            result is Ok ==> *final(self) == (Cpu {
                registers: Registers {
                    sp: ((old(self).registers.sp + 2) % 0x10000) as u16,
                    ..old(self).registers
                },
                elapsed_cycles: (old(self).elapsed_cycles + 8) as u32,
                ..*old(self)
            }),
            result matches Ok(w) ==> old(bus).read_spec(old(self).registers.sp) == Ok::<u8, EmulatorError>(low_byte(w)),
            stack_word(*old(bus), old(self).registers.sp) matches Some(w) ==> result == Ok::<u16, EmulatorError>(w),
            final(self).inv(),
            bus_ready(final(bus)),
            final(self).keeps_control(old(self)),
            final(bus).keeps_stable_reads(old(bus)),
            time_kept(*old(bus), old(self).elapsed_cycles, *final(bus), final(self).elapsed_cycles),
            work_kept(*old(bus), old(self).elapsed_cycles, *final(bus), final(self).elapsed_cycles),
    {
        proof {
            reveal(Bus::keeps_stable_reads);
        }
        proof {
            reveal(stack_word);
        }
        let ghost bus0 = *bus;
        let address = self.registers.sp;
        let low = match self.read_byte(bus, address) {
            Ok(b) => b,
            Err(e) => {
                return Err(e);
            },
        };
        let ghost bus1 = *bus;
        self.registers.sp = self.registers.sp.wrapping_add(1);
        let address = self.registers.sp;
        let high = match self.read_byte(bus, address) {
            Ok(b) => b,
            Err(e) => {
                return Err(e);
            },
        };
        proof {
            Bus::lemma_stable_reads_chain(&bus0, &bus1, &*bus);
        }
        self.registers.sp = self.registers.sp.wrapping_add(1);
        let w = join(high, low);
        proof {
            lemma_word_bytes(high, low);
        }
        Ok(w)
    }

    /// RST: pushes PC and jumps to `vector`.
    fn restart(&mut self, bus: &mut Bus, vector: u16) -> (result: Result<()>)
        requires
            old(self).ready(old(bus), 2),
        ensures
            result is Ok ==> *final(self) == (Cpu {
                registers: Registers {
                    sp: ((old(self).registers.sp + 0xFFFE) % 0x10000) as u16,
                    pc: vector,
                    ..old(self).registers
                },
                elapsed_cycles: (old(self).elapsed_cycles + 8) as u32,
                ..*old(self)
            }),
            result is Err ==> old(bus).spec_cartridge() is None && (Bus::cartridge_area(
                pc_plus(old(self).registers.sp, 0xFFFF),
            ) || Bus::cartridge_area(pc_plus(old(self).registers.sp, 0xFFFE))),
            old(bus).write_fails(pc_plus(old(self).registers.sp, 0xFFFF)) ==> result is Err,
            !old(bus).spec_dma().active && Bus::ram_address(pc_plus(old(self).registers.sp, 0xFFFF))
                && Bus::ram_address(pc_plus(old(self).registers.sp, 0xFFFE)) ==> result is Ok,
            pushes_word(*old(bus), *final(bus), old(self).registers.sp, old(self).registers.pc),
            final(self).inv(),
            bus_ready(final(bus)),
            final(self).keeps_control(old(self)),
            work_kept(*old(bus), old(self).elapsed_cycles, *final(bus), final(self).elapsed_cycles),
    {
        let pc = self.registers.pc;
        match self.push_stack(bus, pc) {
            Ok(()) => {},
            Err(e) => {
                return Err(e);
            },
        }
        self.registers.pc = vector;
        Ok(())
    }
}


/// The new value and F of INC r.
pub open spec fn inc_result(registers: Registers, value: u8) -> (u8, u8) {
    let result = ((value + 1) % 256) as u8;
    (result, flag_byte(result == 0, false, (value & 0x0F) + 1 > 0x0F, registers.flag_of(Flag::Carry)))
}

/// The new value and F of DEC r.
pub open spec fn dec_result(registers: Registers, value: u8) -> (u8, u8) {
    let result = ((value + 255) % 256) as u8;
    (result, flag_byte(result == 0, true, value & 0x0F == 0, registers.flag_of(Flag::Carry)))
}

/// The operation of ALU opcode group `code` (bits 3..5 of the opcode).
pub open spec fn alu_operation_of(code: u8) -> AluOperation {
    if code == 0 {
        AluOperation::Add
    } else if code == 1 {
        AluOperation::Adc
    } else if code == 2 {
        AluOperation::Sub
    } else if code == 3 {
        AluOperation::Sbc
    } else if code == 4 {
        AluOperation::And
    } else if code == 5 {
        AluOperation::Xor
    } else if code == 6 {
        AluOperation::Or
    } else {
        AluOperation::Cp
    }
}

/// The operation of a CB-prefixed rotate/shift opcode group `code`.
pub open spec fn rotate_operation_of(code: u8) -> RotateOperation {
    if code == 0 {
        RotateOperation::Rlc
    } else if code == 1 {
        RotateOperation::Rrc
    } else if code == 2 {
        RotateOperation::Rl
    } else if code == 3 {
        RotateOperation::Rr
    } else if code == 4 {
        RotateOperation::Sla
    } else if code == 5 {
        RotateOperation::Sra
    } else if code == 6 {
        RotateOperation::Swap
    } else {
        RotateOperation::Srl
    }
}

/// The value a CB-prefixed opcode leaves in its operand (BIT leaves it as
/// it was).
pub open spec fn cb_value(opcode: u8, value: u8, registers: Registers) -> u8 {
    let bit = (opcode / 8) % 8;
    if opcode < 0x40 {
        rotate_result(rotate_operation_of(opcode / 8), value, carry_bit(registers)).0
    } else if opcode < 0x80 {
        value
    } else if opcode < 0xC0 {
        value & !(1u8 << bit)
    } else {
        value | (1u8 << bit)
    }
}

/// F after a CB-prefixed opcode on `value` (RES and SET keep it).
pub open spec fn cb_flags(opcode: u8, value: u8, registers: Registers) -> u8 {
    let bit = (opcode / 8) % 8;
    if opcode < 0x40 {
        let r = rotate_result(rotate_operation_of(opcode / 8), value, carry_bit(registers));
        flag_byte(r.0 == 0, false, false, r.1)
    } else if opcode < 0x80 {
        flag_byte(value & (1u8 << bit) == 0, false, true, registers.flag_of(Flag::Carry))
    } else {
        registers.f
    }
}

/// Registers after a CB-prefixed opcode on a register operand.
pub open spec fn cb_register_result(opcode: u8, registers: Registers) -> Registers {
    let register = register8_of(opcode % 8);
    let value = registers.reg8_of(register);
    Registers {
        f: cb_flags(opcode, value, registers),
        ..registers.with_reg8(register, cb_value(opcode, value, registers))
    }
}

impl Cpu {
    /// Dispatches the lowest pending interrupt: IME off, PC pushed, PC set
    /// to the handler, the request bit cleared.
    fn service_interrupt(&mut self, bus: &mut Bus) -> (result: Result<CycleCount>)
        requires
            old(self).ready(old(bus), 2),
            old(bus).pending() != 0,
        ensures
            pushes_word(*old(bus), *final(bus), old(self).registers.sp, old(self).registers.pc),
            stack_pushable(*old(bus), old(self).registers.sp) ==> result is Ok,
            stack_pushable(*old(bus), old(self).registers.sp) ==> exists|cleared: Bus|
                #[trigger] interrupt_cleared(
                    *old(bus),
                    cleared,
                    vstd::std_specs::bits::u8_trailing_zeros(old(bus).pending()) as u8,
                ) && stack_pushed(cleared, *final(bus), old(self).registers.sp, old(self).registers.pc),
            result is Ok ==> result == Ok::<u32, EmulatorError>(20) && *final(self) == (Cpu {
                registers: Registers {
                    sp: ((old(self).registers.sp + 0xFFFE) % 0x10000) as u16,
                    pc: vector_of(vstd::std_specs::bits::u8_trailing_zeros(old(bus).pending()) as u8),
                    ..old(self).registers
                },
                interrupt_master_enabled: false,
                ime_enable_delay: None,
                elapsed_cycles: (old(self).elapsed_cycles + 8) as u32,
                ..*old(self)
            }),
            vstd::std_specs::bits::u8_trailing_zeros(old(bus).pending()) <= 4,
            final(self).inv(),
            bus_ready(final(bus)),
    {
        let pending = bus.pending_interrupts();
        let zeros = pending.trailing_zeros();
        proof {
            lemma_byte_bits();
            vstd::std_specs::bits::axiom_u8_trailing_zeros(pending);
            if zeros >= 5 {
                let t = zeros as u8;
                assert((pending >> t) & 1u8 == 0u8);
            }
        }
        let bit = zeros as u8;
        let vector = interrupt_vector(bit);
        self.interrupt_master_enabled = false;
        self.ime_enable_delay = None;
        let ghost b0 = *bus;
        bus.clear_interrupt(bit);
        let ghost b1 = *bus;
        let pc = self.registers.pc;
        match self.push_stack(bus, pc) {
            Ok(()) => {},
            Err(e) => {
                proof {
                    lemma_pushes_word_kept(b0, b1, *bus, old(self).registers.sp, pc);
                }
                return Err(e);
            },
        }
        proof {
            lemma_pushes_word_kept(b0, b1, *bus, old(self).registers.sp, pc);
            if stack_pushable(b0, old(self).registers.sp) {
                assert(interrupt_cleared(b0, b1, bit));
            }
        }
        self.registers.pc = vector;
        Ok(20)
    }

    /// JR: reads a signed offset and adds it to PC.
    fn jump_relative(&mut self, bus: &mut Bus) -> (result: Result<()>)
        requires
            old(self).ready(old(bus), 1),
        ensures
            result is Ok ==> (old(bus).read_spec(old(self).registers.pc) matches Ok(offset)
                && *final(self) == (Cpu {
                registers: Registers {
                    pc: relative_target(old(self).pc_after_fetch(), offset),
                    ..old(self).registers
                },
                halt_bug: false,
                elapsed_cycles: (old(self).elapsed_cycles + 4) as u32,
                ..*old(self)
            })),
            result is Err ==> old(bus).read_spec(old(self).registers.pc) is Err,
            final(self).inv(),
            bus_ready(final(bus)),
            final(self).keeps_control(old(self)),
            final(bus).keeps_stable_reads(old(bus)),
            time_kept(*old(bus), old(self).elapsed_cycles, *final(bus), final(self).elapsed_cycles),
            work_kept(*old(bus), old(self).elapsed_cycles, *final(bus), final(self).elapsed_cycles),
    {
        proof {
            reveal(Bus::keeps_stable_reads);
        }
        let byte = match self.fetch_byte(bus) {
            Ok(b) => b,
            Err(e) => {
                return Err(e);
            },
        };
        let offset: i16 = if byte >= 128 {
            byte as i16 - 256
        } else {
            byte as i16
        };
        self.registers.pc = self.registers.pc.wrapping_add_signed(offset);
        Ok(())
    }

    /// JR cc: taken 12 cycles, otherwise the offset is skipped in 8.
    fn jump_relative_if(&mut self, bus: &mut Bus, condition: JumpCondition) -> (result: Result<CycleCount>)
        requires
            old(self).ready(old(bus), 1),
        ensures
            result is Ok ==> (old(bus).read_spec(old(self).registers.pc) matches Ok(offset)
                && result == Ok::<u32, EmulatorError>(if condition_holds(old(self).registers, condition) { 12 } else { 8 })
                && *final(self) == (Cpu {
                registers: Registers {
                    pc: if condition_holds(old(self).registers, condition) {
                        relative_target(old(self).pc_after_fetch(), offset)
                    } else {
                        old(self).pc_after_fetch()
                    },
                    ..old(self).registers
                },
                halt_bug: false,
                elapsed_cycles: (old(self).elapsed_cycles + 4) as u32,
                ..*old(self)
            })),
            result is Err ==> old(bus).read_spec(old(self).registers.pc) is Err,
            final(self).inv(),
            bus_ready(final(bus)),
            final(self).keeps_control(old(self)),
            final(bus).keeps_stable_reads(old(bus)),
            time_kept(*old(bus), old(self).elapsed_cycles, *final(bus), final(self).elapsed_cycles),
            work_kept(*old(bus), old(self).elapsed_cycles, *final(bus), final(self).elapsed_cycles),
    {
        proof {
            reveal(Bus::keeps_stable_reads);
        }
        let should_jump = self.condition_is_met(condition);
        if should_jump {
            match self.jump_relative(bus) {
                Ok(()) => {},
                Err(e) => {
                    return Err(e);
                },
            }
            Ok(12)
        } else {
            match self.fetch_byte(bus) {
                Ok(_) => {},
                Err(e) => {
                    return Err(e);
                },
            }
            Ok(8)
        }
    }

    /// JP cc,nn: taken 16 cycles, otherwise 12.
    fn jump_absolute_if(&mut self, bus: &mut Bus, condition: JumpCondition) -> (result: Result<CycleCount>)
        requires
            old(self).ready(old(bus), 2),
        ensures
            result is Ok ==> result == Ok::<u32, EmulatorError>(if condition_holds(old(self).registers, condition) { 16 } else { 12 })
                && *final(self) == (Cpu {
                registers: Registers {
                    pc: if condition_holds(old(self).registers, condition) {
                        final(self).registers.pc
                    } else {
                        ((old(self).pc_after_fetch() + 1) % 0x10000) as u16
                    },
                    ..old(self).registers
                },
                halt_bug: false,
                elapsed_cycles: (old(self).elapsed_cycles + 8) as u32,
                ..*old(self)
            }),
            !old(self).halt_bug ==> (operand_bytes(*old(bus), old(self).registers.pc, 2) matches Some((low, high))
                ==> result is Ok && (condition_holds(old(self).registers, condition) ==> final(self).registers.pc
                == word(high, low))),
            final(self).inv(),
            bus_ready(final(bus)),
            final(self).keeps_control(old(self)),
            final(bus).keeps_stable_reads(old(bus)),
            time_kept(*old(bus), old(self).elapsed_cycles, *final(bus), final(self).elapsed_cycles),
            work_kept(*old(bus), old(self).elapsed_cycles, *final(bus), final(self).elapsed_cycles),
    {
        proof {
            reveal(Bus::keeps_stable_reads);
        }
        let address = match self.fetch_word(bus) {
            Ok(w) => w,
            Err(e) => {
                return Err(e);
            },
        };
        if self.condition_is_met(condition) {
            self.registers.pc = address;
            Ok(16)
        } else {
            Ok(12)
        }
    }

    /// CALL cc,nn: taken pushes PC and jumps in 24 cycles, otherwise 12.
    fn call_if(&mut self, bus: &mut Bus, condition: JumpCondition) -> (result: Result<CycleCount>)
        requires
            old(self).ready(old(bus), 4),
        ensures
            result is Ok ==> result == Ok::<u32, EmulatorError>(if condition_holds(old(self).registers, condition) { 24 } else { 12 })
                && *final(self) == (Cpu {
                registers: Registers {
                    pc: if condition_holds(old(self).registers, condition) {
                        final(self).registers.pc
                    } else {
                        ((old(self).pc_after_fetch() + 1) % 0x10000) as u16
                    },
                    sp: if condition_holds(old(self).registers, condition) {
                        ((old(self).registers.sp + 0xFFFE) % 0x10000) as u16
                    } else {
                        old(self).registers.sp
                    },
                    ..old(self).registers
                },
                halt_bug: false,
                elapsed_cycles: (old(self).elapsed_cycles + if condition_holds(old(self).registers, condition) { 16int } else { 8 }) as u32,
                ..*old(self)
            }),
            result is Err ==> old(self).halt_bug || operand_bytes(*old(bus), old(self).registers.pc, 2) is None
                || (old(bus).spec_cartridge() is None && (Bus::cartridge_area(
                pc_plus(old(self).registers.sp, 0xFFFF),
            ) || Bus::cartridge_area(pc_plus(old(self).registers.sp, 0xFFFE)))),
            !old(self).halt_bug ==> call_facts(
                *old(bus),
                *final(bus),
                old(self).registers,
                condition_holds(old(self).registers, condition),
                result,
                final(self).registers,
            ),
            final(self).inv(),
            bus_ready(final(bus)),
            final(self).keeps_control(old(self)),
            work_kept(*old(bus), old(self).elapsed_cycles, *final(bus), final(self).elapsed_cycles),
    {
        let ghost bus0 = *bus;
        proof {
            lemma_pc_plus_twice(self.registers.pc);
            reveal(call_facts);
        }
        let address = match self.fetch_word(bus) {
            Ok(w) => w,
            Err(e) => {
                return Err(e);
            },
        };
        if self.condition_is_met(condition) {
            let pc = self.registers.pc;
            let ghost bus1 = *bus;
            match self.push_stack(bus, pc) {
                Ok(()) => {},
                Err(e) => {
                    proof {
                        lemma_pushes_word_kept(bus0, bus1, *bus, old(self).registers.sp, pc);
                    }
                    return Err(e);
                },
            }
            proof {
                lemma_pushes_word_kept(bus0, bus1, *bus, old(self).registers.sp, pc);
            }
            self.registers.pc = address;
            Ok(24)
        } else {
            Ok(12)
        }
    }

    /// RET cc: taken pops PC in 20 cycles, otherwise 8.
    fn return_if(&mut self, bus: &mut Bus, condition: JumpCondition) -> (result: Result<CycleCount>)
        requires
            old(self).ready(old(bus), 2),
        ensures
            result is Ok ==> result == Ok::<u32, EmulatorError>(if condition_holds(old(self).registers, condition) { 20 } else { 8 })
                && *final(self) == (Cpu {
                registers: Registers {
                    pc: if condition_holds(old(self).registers, condition) {
                        final(self).registers.pc
                    } else {
                        old(self).registers.pc
                    },
                    sp: if condition_holds(old(self).registers, condition) {
                        ((old(self).registers.sp + 2) % 0x10000) as u16
                    } else {
                        old(self).registers.sp
                    },
                    ..old(self).registers
                },
                elapsed_cycles: (old(self).elapsed_cycles + if condition_holds(old(self).registers, condition) { 8int } else { 0 }) as u32,
                ..*old(self)
            }),
            stack_word(*old(bus), old(self).registers.sp) matches Some(w) ==> result is Ok && (condition_holds(
                old(self).registers,
                condition,
            ) ==> final(self).registers.pc == w),
            final(self).inv(),
            bus_ready(final(bus)),
            final(self).keeps_control(old(self)),
            final(bus).keeps_stable_reads(old(bus)),
            time_kept(*old(bus), old(self).elapsed_cycles, *final(bus), final(self).elapsed_cycles),
            work_kept(*old(bus), old(self).elapsed_cycles, *final(bus), final(self).elapsed_cycles),
    {
        proof {
            reveal(Bus::keeps_stable_reads);
        }
        if self.condition_is_met(condition) {
            let pc = match self.pop_stack(bus) {
                Ok(w) => w,
                Err(e) => {
                    return Err(e);
                },
            };
            self.registers.pc = pc;
            Ok(20)
        } else {
            Ok(8)
        }
    }

    /// INC r / INC (HL): the carry flag is kept.
    #[verifier::rlimit(40)]
    fn increment_register(&mut self, bus: &mut Bus, register: Register8) -> (result: Result<CycleCount>)
        requires
            old(self).ready(old(bus), 2),
        ensures
            register != Register8::AddressHl ==> result == Ok::<u32, EmulatorError>(4) && *final(self) == (Cpu {
                registers: Registers {
                    f: inc_result(old(self).registers, old(self).registers.reg8_of(register)).1,
                    ..old(self).registers.with_reg8(register, inc_result(old(self).registers, old(self).registers.reg8_of(register)).0)
                },
                ..*old(self)
            }),
            register == Register8::AddressHl && result is Ok ==> result == Ok::<u32, EmulatorError>(12)
                && (old(bus).read_spec(old(self).registers.hl_of()) matches Ok(v) && *final(self) == (Cpu {
                registers: Registers { f: inc_result(old(self).registers, v).1, ..old(self).registers },
                elapsed_cycles: (old(self).elapsed_cycles + 8) as u32,
                ..*old(self)
            })),
            final(self).inv(),
            bus_ready(final(bus)),
            final(self).keeps_control(old(self)),
            register != Register8::AddressHl ==> final(bus).keeps_stable_reads(old(bus)),
            register != Register8::AddressHl ==> *final(bus) == *old(bus),
            register == Register8::AddressHl ==> hl_update_facts(
                *old(bus),
                *final(bus),
                old(self).registers,
                0x34,
                result,
                final(self).registers,
            ),
            register != Register8::AddressHl ==> time_kept(*old(bus), old(self).elapsed_cycles, *final(bus), final(self).elapsed_cycles),
            work_kept(*old(bus), old(self).elapsed_cycles, *final(bus), final(self).elapsed_cycles),
    {
        proof {
            reveal(Bus::keeps_stable_reads);
            reveal(hl_update_facts);
        }
        let ghost bus0 = *bus;
        let value = match self.read8(bus, register) {
            Ok(v) => v,
            Err(e) => {
                return Err(e);
            },
        };
        let ghost bus_m = *bus;
        let result = value.wrapping_add(1);
        match self.write8(bus, register, result) {
            Ok(()) => {},
            Err(e) => {
                return Err(e);
            },
        }
        proof {
            if register == Register8::AddressHl {
                lemma_keeps_then_stores(bus0, bus_m, *bus, old(self).registers.hl_of(), result);
            }
        }
        let carry = self.registers.flag(Flag::Carry);
        proof {
            lemma_byte_bits();
        }
        self.registers.set_flags(result == 0, false, (value & 0x0F) + 1 > 0x0F, carry);
        if register == Register8::AddressHl {
            Ok(12)
        } else {
            Ok(4)
        }
    }

    /// DEC r / DEC (HL): the carry flag is kept.
    #[verifier::rlimit(40)]
    fn decrement_register(&mut self, bus: &mut Bus, register: Register8) -> (result: Result<CycleCount>)
        requires
            old(self).ready(old(bus), 2),
        ensures
            register != Register8::AddressHl ==> result == Ok::<u32, EmulatorError>(4) && *final(self) == (Cpu {
                registers: Registers {
                    f: dec_result(old(self).registers, old(self).registers.reg8_of(register)).1,
                    ..old(self).registers.with_reg8(register, dec_result(old(self).registers, old(self).registers.reg8_of(register)).0)
                },
                ..*old(self)
            }),
            register == Register8::AddressHl && result is Ok ==> result == Ok::<u32, EmulatorError>(12)
                && (old(bus).read_spec(old(self).registers.hl_of()) matches Ok(v) && *final(self) == (Cpu {
                registers: Registers { f: dec_result(old(self).registers, v).1, ..old(self).registers },
                elapsed_cycles: (old(self).elapsed_cycles + 8) as u32,
                ..*old(self)
            })),
            final(self).inv(),
            bus_ready(final(bus)),
            final(self).keeps_control(old(self)),
            register != Register8::AddressHl ==> final(bus).keeps_stable_reads(old(bus)),
            register != Register8::AddressHl ==> *final(bus) == *old(bus),
            register == Register8::AddressHl ==> hl_update_facts(
                *old(bus),
                *final(bus),
                old(self).registers,
                0x35,
                result,
                final(self).registers,
            ),
            register != Register8::AddressHl ==> time_kept(*old(bus), old(self).elapsed_cycles, *final(bus), final(self).elapsed_cycles),
            work_kept(*old(bus), old(self).elapsed_cycles, *final(bus), final(self).elapsed_cycles),
    {
        proof {
            reveal(Bus::keeps_stable_reads);
            reveal(hl_update_facts);
        }
        let ghost bus0 = *bus;
        let value = match self.read8(bus, register) {
            Ok(v) => v,
            Err(e) => {
                return Err(e);
            },
        };
        let ghost bus_m = *bus;
        let result = value.wrapping_sub(1);
        match self.write8(bus, register, result) {
            Ok(()) => {},
            Err(e) => {
                return Err(e);
            },
        }
        proof {
            if register == Register8::AddressHl {
                lemma_keeps_then_stores(bus0, bus_m, *bus, old(self).registers.hl_of(), result);
            }
        }
        let carry = self.registers.flag(Flag::Carry);
        proof {
            lemma_byte_bits();
        }
        self.registers.set_flags(result == 0, true, (value & 0x0F) == 0, carry);
        if register == Register8::AddressHl {
            Ok(12)
        } else {
            Ok(4)
        }
    }

    /// LD r,r' (0x40..=0x7F but HALT): 8 cycles when (HL) is involved.
    fn load_register_from_register(&mut self, bus: &mut Bus, opcode: u8) -> (result: Result<CycleCount>)
        requires
            old(self).ready(old(bus), 2),
            0x40 <= opcode <= 0x7F,
            opcode != 0x76,
        ensures
            ({
                let destination = register8_of((opcode / 8) % 8);
                let source = register8_of(opcode % 8);
                &&& destination != Register8::AddressHl && source != Register8::AddressHl ==> result
                    == Ok::<u32, EmulatorError>(4) && *final(self) == (Cpu {
                    registers: old(self).registers.with_reg8(destination, old(self).registers.reg8_of(source)),
                    ..*old(self)
                })
                &&& source == Register8::AddressHl && result is Ok ==> result == Ok::<u32, EmulatorError>(8)
                    && (old(bus).read_spec(old(self).registers.hl_of()) matches Ok(v) && *final(self) == (Cpu {
                    registers: old(self).registers.with_reg8(destination, v),
                    elapsed_cycles: (old(self).elapsed_cycles + 4) as u32,
                    ..*old(self)
                }))
                &&& destination == Register8::AddressHl && result is Ok ==> result == Ok::<u32, EmulatorError>(8)
                    && *final(self) == (Cpu {
                    elapsed_cycles: (old(self).elapsed_cycles + 4) as u32,
                    ..*old(self)
                })
                &&& source == Register8::AddressHl && old(bus).read_spec(old(self).registers.hl_of()) is Ok
                    ==> result is Ok
            }),
            final(self).inv(),
            bus_ready(final(bus)),
            final(self).keeps_control(old(self)),
            register8_of((opcode / 8) % 8) != Register8::AddressHl ==> final(bus).keeps_stable_reads(old(bus)),
            register8_of((opcode / 8) % 8) != Register8::AddressHl && register8_of(opcode % 8)
                != Register8::AddressHl ==> *final(bus) == *old(bus),
            register8_of((opcode / 8) % 8) == Register8::AddressHl ==> stores_byte(
                *old(bus),
                *final(bus),
                old(self).registers.hl_of(),
                old(self).registers.reg8_of(register8_of(opcode % 8)),
            ),
            register8_of((opcode / 8) % 8) == Register8::AddressHl && !old(bus).spec_dma().active
                && Bus::ram_address(old(self).registers.hl_of()) ==> result is Ok,
            register8_of((opcode / 8) % 8) != Register8::AddressHl ==> time_kept(*old(bus), old(self).elapsed_cycles, *final(bus), final(self).elapsed_cycles),
            work_kept(*old(bus), old(self).elapsed_cycles, *final(bus), final(self).elapsed_cycles),
    {
        proof {
            reveal(Bus::keeps_stable_reads);
        }
        assert((opcode >> 3) & 0b111 == (opcode / 8) % 8 && opcode & 0b111 == opcode % 8) by {
            lemma_byte_bits();
        }
        let destination = decode_register8((opcode >> 3) & 0b111);
        let source = decode_register8(opcode & 0b111);
        let value = match self.read8(bus, source) {
            Ok(v) => v,
            Err(e) => {
                return Err(e);
            },
        };
        match self.write8(bus, destination, value) {
            Ok(()) => {},
            Err(e) => {
                return Err(e);
            },
        }
        if destination == Register8::AddressHl || source == Register8::AddressHl {
            Ok(8)
        } else {
            Ok(4)
        }
    }

    /// ALU A,r (0x80..=0xBF): 8 cycles when the operand is (HL).
    fn execute_register_alu(&mut self, bus: &mut Bus, opcode: u8) -> (result: Result<CycleCount>)
        requires
            old(self).ready(old(bus), 1),
            0x80 <= opcode <= 0xBF,
        ensures
            ({
                let operation = alu_operation_of((opcode / 8) % 8);
                let source = register8_of(opcode % 8);
                &&& source != Register8::AddressHl ==> result == Ok::<u32, EmulatorError>(4) && *final(self) == (Cpu {
                    registers: old(self).registers.with_alu(
                        alu_result(operation, old(self).registers, old(self).registers.reg8_of(source)),
                    ),
                    ..*old(self)
                })
                &&& source == Register8::AddressHl && result is Ok ==> result == Ok::<u32, EmulatorError>(8)
                    && (old(bus).read_spec(old(self).registers.hl_of()) matches Ok(v) && *final(self) == (Cpu {
                    registers: old(self).registers.with_alu(alu_result(operation, old(self).registers, v)),
                    elapsed_cycles: (old(self).elapsed_cycles + 4) as u32,
                    ..*old(self)
                }))
                &&& source == Register8::AddressHl && old(bus).read_spec(old(self).registers.hl_of()) is Ok
                    ==> result is Ok
            }),
            final(self).inv(),
            bus_ready(final(bus)),
            final(self).keeps_control(old(self)),
            register8_of(opcode % 8) != Register8::AddressHl ==> *final(bus) == *old(bus),
            final(bus).keeps_stable_reads(old(bus)),
            time_kept(*old(bus), old(self).elapsed_cycles, *final(bus), final(self).elapsed_cycles),
            work_kept(*old(bus), old(self).elapsed_cycles, *final(bus), final(self).elapsed_cycles),
    {
        assert((opcode >> 3) == opcode / 8 && opcode & 0b111 == opcode % 8) by {
            lemma_byte_bits();
        }
        let operation = match opcode >> 3 {
            0x10 => AluOperation::Add,
            0x11 => AluOperation::Adc,
            0x12 => AluOperation::Sub,
            0x13 => AluOperation::Sbc,
            0x14 => AluOperation::And,
            0x15 => AluOperation::Xor,
            0x16 => AluOperation::Or,
            _ => AluOperation::Cp,
        };
        assert(operation == alu_operation_of((opcode / 8) % 8));
        let source = decode_register8(opcode & 0b111);
        let value = match self.read8(bus, source) {
            Ok(v) => v,
            Err(e) => {
                return Err(e);
            },
        };
        self.execute_alu(operation, value);
        if source == Register8::AddressHl {
            Ok(8)
        } else {
            Ok(4)
        }
    }
}


/// The 16-bit register a 2-bit pair code names (BC, DE, HL, SP).
pub open spec fn register16_of(code: u8) -> Register16 {
    if code == 0 {
        Register16::BC
    } else if code == 1 {
        Register16::DE
    } else if code == 2 {
        Register16::HL
    } else {
        Register16::SP
    }
}

/// For an opcode that touches nothing but registers, the registers after it
/// and its cycle count; `registers` are those after the opcode fetch.
pub open spec fn register_op(opcode: u8, registers: Registers) -> Option<(Registers, u32)> {
    let r = registers;
    if 0x40 <= opcode <= 0x7F && opcode != 0x76 {
        let destination = register8_of((opcode / 8) % 8);
        let source = register8_of(opcode % 8);
        if destination == Register8::AddressHl || source == Register8::AddressHl {
            None
        } else {
            Some((r.with_reg8(destination, r.reg8_of(source)), 4u32))
        }
    } else if 0x80 <= opcode <= 0xBF {
        let source = register8_of(opcode % 8);
        if source == Register8::AddressHl {
            None
        } else {
            Some(
                (
                    r.with_alu(alu_result(alu_operation_of((opcode / 8) % 8), r, r.reg8_of(source))),
                    4u32,
                ),
            )
        }
    } else if opcode < 0x40 && opcode % 8 == 4 && opcode != 0x34 {
        let register = register8_of(opcode / 8);
        let (v, f) = inc_result(r, r.reg8_of(register));
        Some((Registers { f, ..r.with_reg8(register, v) }, 4u32))
    } else if opcode < 0x40 && opcode % 8 == 5 && opcode != 0x35 {
        let register = register8_of(opcode / 8);
        let (v, f) = dec_result(r, r.reg8_of(register));
        Some((Registers { f, ..r.with_reg8(register, v) }, 4u32))
    } else if opcode < 0x40 && opcode % 16 == 0x03 {
        let pair = register16_of(opcode / 16);
        Some((r.with_pair(pair, ((r.pair_of(pair) + 1) % 0x10000) as u16), 8u32))
    } else if opcode < 0x40 && opcode % 16 == 0x0B {
        let pair = register16_of(opcode / 16);
        Some((r.with_pair(pair, ((r.pair_of(pair) + 0xFFFF) % 0x10000) as u16), 8u32))
    } else if opcode < 0x40 && opcode % 16 == 0x09 {
        let value = r.pair_of(register16_of(opcode / 16));
        let hl = r.hl_of();
        Some(
            (
                r.with_pair(Register16::HL, ((hl + value) % 0x10000) as u16).with_flags(
                    r.flag_of(Flag::Zero),
                    false,
                    (hl & 0x0FFF) + (value & 0x0FFF) > 0x0FFF,
                    hl + value > 0xFFFF,
                ),
                8u32,
            ),
        )
    } else if opcode == 0x00 {
        Some((r, 4u32))
    } else if opcode == 0x07 || opcode == 0x0F || opcode == 0x17 || opcode == 0x1F {
        let rotated = rotate_result(rotate_operation_of(opcode / 8), r.a, carry_bit(r));
        Some((r.with_alu((rotated.0, flag_byte(false, false, false, rotated.1))), 4u32))
    } else if opcode == 0x27 {
        Some((r.with_alu(daa_result(r.a, r.f)), 4u32))
    } else if opcode == 0x2F {
        Some(
            (
                r.with_alu((!r.a, flag_byte(r.flag_of(Flag::Zero), true, true, r.flag_of(Flag::Carry)))),
                4u32,
            ),
        )
    } else if opcode == 0x37 {
        Some((r.with_flags(r.flag_of(Flag::Zero), false, false, true), 4u32))
    } else if opcode == 0x3F {
        Some((r.with_flags(r.flag_of(Flag::Zero), false, false, !r.flag_of(Flag::Carry)), 4u32))
    } else if opcode == 0xE9 {
        Some((Registers { pc: r.hl_of(), ..r }, 4u32))
    } else if opcode == 0xF9 {
        Some((Registers { sp: r.hl_of(), ..r }, 8u32))
    } else {
        None
    }
}

/// The branch condition a 2-bit code names: NZ, Z, NC, C.
pub open spec fn condition_of(code: u8) -> JumpCondition {
    if code == 0 {
        JumpCondition::NotZero
    } else if code == 1 {
        JumpCondition::Zero
    } else if code == 2 {
        JumpCondition::NotCarry
    } else {
        JumpCondition::Carry
    }
}

/// A byte read as a signed number.
pub open spec fn signed_of(byte: u8) -> i8 {
    (if byte >= 128 {
        byte - 256
    } else {
        byte as int
    }) as i8
}

/// How many operand bytes follow `opcode` in `operand_op`: two for the
/// 16-bit loads and absolute jumps, one otherwise.
pub open spec fn operand_len(opcode: u8) -> int {
    if (opcode < 0x40 && opcode % 16 == 1) || opcode == 0xC2 || opcode == 0xC3 || opcode == 0xCA
        || opcode == 0xD2 || opcode == 0xDA {
        2
    } else {
        1
    }
}

/// `pc` moved on by `n` bytes.
pub open spec fn pc_plus(pc: u16, n: int) -> u16 {
    ((pc + n) % 0x10000) as u16
}

proof fn lemma_operand_byte(bus: Bus, pc: u16)
    ensures
        operand_bytes(bus, pc, 1) == (match bus.read_spec(pc) {
            Ok(b) => Some((b, 0u8)),
            Err(_) => None,
        }),
{
    reveal(operand_bytes);
}

proof fn lemma_operand_bytes_kept(b0: Bus, b1: Bus, pc: u16, count: int)
    requires
        b1.keeps_stable_reads(&b0),
        !b0.spec_dma().active,
        Bus::stable_address(pc),
    ensures
        operand_bytes(b1, pc, count) == operand_bytes(b0, pc, count),
{
    reveal(Bus::keeps_stable_reads);
    reveal(operand_bytes);
}

proof fn lemma_word_down(x: u16)
    ensures
        x.wrapping_sub(1) == ((x + 0xFFFF) % 0x10000) as u16,
{
}

/// A write of `value` to `address` took `before` to `after`: when no DMA
/// runs and `address` is RAM, it reads back `value` and every other stable
/// address (any not naming the same RAM byte) reads as before.
pub open spec fn stores_byte(before: Bus, after: Bus, address: u16, value: u8) -> bool {
    !before.spec_dma().active && Bus::ram_address(address) ==> {
        &&& !after.spec_dma().active
        &&& after.read_spec(address) == Ok::<u8, EmulatorError>(value)
        &&& forall|other: u16|
            Bus::stable_address(other) && !(Bus::ram_address(other) && Bus::ram_cell(other) == Bus::ram_cell(address))
                ==> #[trigger] after.read_spec(other) == before.read_spec(other)
    }
}

/// LD (HL),r: the opcodes 0x70..=0x77 but HALT.
pub open spec fn is_hl_store(opcode: u8) -> bool {
    0x70 <= opcode <= 0x77 && opcode != 0x76
}

/// The stores of one register byte with no operand: LD (HL),r, and
/// LD (BC),A, LD (DE),A, LD (HL+),A, LD (HL-),A and LD (C),A.
pub open spec fn is_store(opcode: u8) -> bool {
    is_hl_store(opcode) || opcode == 0x02 || opcode == 0x12 || opcode == 0x22 || opcode == 0x32 || opcode
        == 0xE2
}

/// The address a store writes to.
pub open spec fn store_address(opcode: u8, r: Registers) -> u16 {
    if opcode == 0x02 {
        r.bc_of()
    } else if opcode == 0x12 {
        r.de_of()
    } else if opcode == 0xE2 {
        (0xFF00 + r.c) as u16
    } else {
        r.hl_of()
    }
}

/// The byte a store writes.
pub open spec fn store_value(opcode: u8, r: Registers) -> u8 {
    if is_hl_store(opcode) {
        r.reg8_of(register8_of(opcode % 8))
    } else {
        r.a
    }
}

/// The registers after a store: LD (HL+),A and LD (HL-),A move HL on by
/// one either way.
pub open spec fn store_registers(opcode: u8, r: Registers) -> Registers {
    if opcode == 0x22 {
        r.with_pair(Register16::HL, ((r.hl_of() + 1) % 0x10000) as u16)
    } else if opcode == 0x32 {
        r.with_pair(Register16::HL, ((r.hl_of() + 0xFFFF) % 0x10000) as u16)
    } else {
        r
    }
}

/// What a store does from `bus0` and `r0` to `bus1` and `r1`: it writes
/// its byte to its address, succeeds when no DMA runs and the address is
/// RAM, and on success takes 8 cycles and leaves the registers as
/// `store_registers` gives them.
#[verifier::opaque]
pub open spec fn store_facts(
    bus0: Bus,
    bus1: Bus,
    r0: Registers,
    opcode: u8,
    result: Result<CycleCount>,
    r1: Registers,
) -> bool {
    is_store(opcode) ==> {
        &&& stores_byte(bus0, bus1, store_address(opcode, r0), store_value(opcode, r0))
        &&& !bus0.spec_dma().active && Bus::ram_address(store_address(opcode, r0)) ==> result is Ok
        &&& result is Ok ==> result == Ok::<u32, EmulatorError>(8) && r1 == store_registers(opcode, r0)
    }
}

/// The stores with an operand: LD (HL),n, LDH (n),A and LD (nn),A.
pub open spec fn is_operand_store(opcode: u8) -> bool {
    opcode == 0x36 || opcode == 0xE0 || opcode == 0xEA
}

/// How many operand bytes an operand store reads.
pub open spec fn operand_store_length(opcode: u8) -> int {
    if opcode == 0xEA {
        2
    } else {
        1
    }
}

/// The address an operand store writes to, given its operand bytes.
pub open spec fn operand_store_address(opcode: u8, r: Registers, low: u8, high: u8) -> u16 {
    if opcode == 0x36 {
        r.hl_of()
    } else if opcode == 0xE0 {
        (0xFF00 + low) as u16
    } else {
        word(high, low)
    }
}

/// The byte an operand store writes: the operand for LD (HL),n, else A.
pub open spec fn operand_store_value(opcode: u8, r: Registers, low: u8) -> u8 {
    if opcode == 0x36 {
        low
    } else {
        r.a
    }
}

/// The cycles an operand store takes.
pub open spec fn operand_store_cycles(opcode: u8) -> u32 {
    if opcode == 0xEA {
        16
    } else {
        12
    }
}

/// What an operand store does from `bus0` and `r0` to `bus1` and `r1`:
/// with no DMA running and its operand read from `bus0`, it writes its byte
/// to its address, succeeds when that address is RAM, and on success takes
/// its cycles and leaves the registers but PC, moved past the operand.
#[verifier::opaque]
pub open spec fn operand_store_facts(
    bus0: Bus,
    bus1: Bus,
    r0: Registers,
    opcode: u8,
    result: Result<CycleCount>,
    r1: Registers,
) -> bool {
    is_operand_store(opcode) && !bus0.spec_dma().active ==> (operand_bytes(
        bus0,
        r0.pc,
        operand_store_length(opcode),
    ) matches Some((low, high)) ==> {
        let address = operand_store_address(opcode, r0, low, high);
        &&& stores_byte(bus0, bus1, address, operand_store_value(opcode, r0, low))
        &&& Bus::ram_address(address) ==> result is Ok
        &&& result is Ok ==> result == Ok::<u32, EmulatorError>(operand_store_cycles(opcode)) && r1 == (Registers {
            pc: pc_plus(r0.pc, operand_store_length(opcode)),
            ..r0
        })
    })
}

proof fn lemma_not_operand_store(opcode: u8)
    requires
        !is_operand_store(opcode),
    ensures
        forall|bus0: Bus, bus1: Bus, r0: Registers, result: Result<CycleCount>, r1: Registers|
            #[trigger] operand_store_facts(bus0, bus1, r0, opcode, result, r1),
{
    reveal(operand_store_facts);
}

proof fn lemma_operand_store_unread(bus0: Bus, bus1: Bus, r0: Registers, opcode: u8, result: Result<CycleCount>, r1: Registers)
    requires
        operand_bytes(bus0, r0.pc, operand_store_length(opcode)) is None,
    ensures
        operand_store_facts(bus0, bus1, r0, opcode, result, r1),
{
    reveal(operand_store_facts);
}

proof fn lemma_operand_store_written(
    bus0: Bus,
    bus_m: Bus,
    bus1: Bus,
    r0: Registers,
    opcode: u8,
    result: Result<CycleCount>,
    r1: Registers,
    low: u8,
    high: u8,
)
    requires
        is_operand_store(opcode),
        bus_m.keeps_stable_reads(&bus0),
        operand_bytes(bus0, r0.pc, operand_store_length(opcode)) == Some((low, high)),
        stores_byte(
            bus_m,
            bus1,
            operand_store_address(opcode, r0, low, high),
            operand_store_value(opcode, r0, low),
        ),
        !bus_m.spec_dma().active && Bus::ram_address(operand_store_address(opcode, r0, low, high)) ==> result is Ok,
        result is Ok ==> result == Ok::<u32, EmulatorError>(operand_store_cycles(opcode)) && r1 == (Registers {
            pc: pc_plus(r0.pc, operand_store_length(opcode)),
            ..r0
        }),
    ensures
        operand_store_facts(bus0, bus1, r0, opcode, result, r1),
{
    reveal(operand_store_facts);
    reveal(Bus::keeps_stable_reads);
}

proof fn lemma_operand_store_lift(
    bus0: Bus,
    bus_a: Bus,
    bus_e: Bus,
    bus1: Bus,
    r0: Registers,
    opcode: u8,
    result: Result<CycleCount>,
    r1: Registers,
)
    requires
        bus_a.keeps_stable_reads(&bus0),
        bus1.keeps_stable_reads(&bus_e),
        operand_store_facts(bus_a, bus_e, r0, opcode, result, r1),
        Bus::stable_address(r0.pc),
    ensures
        operand_store_facts(bus0, bus1, r0, opcode, result, r1),
{
    reveal(operand_store_facts);
    reveal(Bus::keeps_stable_reads);
    if is_operand_store(opcode) && !bus0.spec_dma().active {
        lemma_operand_bytes_kept(bus0, bus_a, r0.pc, operand_store_length(opcode));
    }
}

/// INC (HL) and DEC (HL).
pub open spec fn is_hl_update(opcode: u8) -> bool {
    opcode == 0x34 || opcode == 0x35
}

/// The byte and the flags INC (HL) or DEC (HL) gives for the byte `v` at HL.
pub open spec fn hl_update_result(opcode: u8, r: Registers, v: u8) -> (u8, u8) {
    if opcode == 0x34 {
        inc_result(r, v)
    } else {
        dec_result(r, v)
    }
}

/// What INC (HL) or DEC (HL) does from `bus0` and `r0` to `bus1` and `r1`
/// when no DMA runs and HL is RAM: it takes 12 cycles, writes back the
/// byte it read moved on by one, and sets the flags from it.
#[verifier::opaque]
pub open spec fn hl_update_facts(
    bus0: Bus,
    bus1: Bus,
    r0: Registers,
    opcode: u8,
    result: Result<CycleCount>,
    r1: Registers,
) -> bool {
    is_hl_update(opcode) && !bus0.spec_dma().active && Bus::ram_address(r0.hl_of()) ==> (bus0.read_spec(
        r0.hl_of(),
    ) matches Ok(v) && {
        &&& result == Ok::<u32, EmulatorError>(12)
        &&& r1 == (Registers { f: hl_update_result(opcode, r0, v).1, ..r0 })
        &&& stores_byte(bus0, bus1, r0.hl_of(), hl_update_result(opcode, r0, v).0)
    })
}

proof fn lemma_not_hl_update(opcode: u8)
    requires
        !is_hl_update(opcode),
    ensures
        forall|bus0: Bus, bus1: Bus, r0: Registers, result: Result<CycleCount>, r1: Registers|
            #[trigger] hl_update_facts(bus0, bus1, r0, opcode, result, r1),
{
    reveal(hl_update_facts);
}

proof fn lemma_keeps_then_stores(b0: Bus, b1: Bus, b2: Bus, address: u16, value: u8)
    requires
        b1.keeps_stable_reads(&b0),
        stores_byte(b1, b2, address, value),
    ensures
        stores_byte(b0, b2, address, value),
{
    reveal(Bus::keeps_stable_reads);
}

proof fn lemma_hl_update_lift(
    bus0: Bus,
    bus_a: Bus,
    bus_e: Bus,
    bus1: Bus,
    r0: Registers,
    opcode: u8,
    result: Result<CycleCount>,
    r1: Registers,
)
    requires
        bus_a.keeps_stable_reads(&bus0),
        bus1.keeps_stable_reads(&bus_e),
        hl_update_facts(bus_a, bus_e, r0, opcode, result, r1),
    ensures
        hl_update_facts(bus0, bus1, r0, opcode, result, r1),
{
    reveal(hl_update_facts);
    reveal(Bus::keeps_stable_reads);
}

proof fn lemma_store_written(bus0: Bus, bus1: Bus, r0: Registers, opcode: u8, result: Result<CycleCount>, r1: Registers)
    requires
        opcode == 0x02 || opcode == 0x12 || opcode == 0x22 || opcode == 0x32 || opcode == 0xE2,
        stores_byte(bus0, bus1, store_address(opcode, r0), r0.a),
        !bus0.spec_dma().active && Bus::ram_address(store_address(opcode, r0)) ==> result is Ok,
        result is Ok ==> result == Ok::<u32, EmulatorError>(8) && r1 == store_registers(opcode, r0),
    ensures
        store_facts(bus0, bus1, r0, opcode, result, r1),
{
    reveal(store_facts);
}

proof fn lemma_not_store(opcode: u8)
    requires
        !is_store(opcode),
    ensures
        forall|bus0: Bus, bus1: Bus, r0: Registers, result: Result<CycleCount>, r1: Registers|
            #[trigger] store_facts(bus0, bus1, r0, opcode, result, r1),
{
    reveal(store_facts);
}

proof fn lemma_hl_store_from_load(bus0: Bus, bus1: Bus, cpu0: Cpu, cpu1: Cpu, opcode: u8, result: Result<CycleCount>)
    requires
        0x40 <= opcode <= 0x7F,
        opcode != 0x76,
        register8_of((opcode / 8) % 8) == Register8::AddressHl ==> stores_byte(
            bus0,
            bus1,
            cpu0.registers.hl_of(),
            cpu0.registers.reg8_of(register8_of(opcode % 8)),
        ),
        register8_of((opcode / 8) % 8) == Register8::AddressHl && !bus0.spec_dma().active && Bus::ram_address(
            cpu0.registers.hl_of(),
        ) ==> result is Ok,
        register8_of((opcode / 8) % 8) == Register8::AddressHl && result is Ok ==> result == Ok::<u32, EmulatorError>(8)
            && cpu1 == (Cpu { elapsed_cycles: (cpu0.elapsed_cycles + 4) as u32, ..cpu0 }),
    ensures
        store_facts(bus0, bus1, cpu0.registers, opcode, result, cpu1.registers),
{
    reveal(store_facts);
    if is_hl_store(opcode) {
        assert((opcode / 8) % 8 == 6);
    } else {
        assert((opcode / 8) % 8 != 6);
    }
}

proof fn lemma_store_lift(
    bus0: Bus,
    bus_a: Bus,
    bus_e: Bus,
    bus1: Bus,
    r0: Registers,
    opcode: u8,
    result: Result<CycleCount>,
    r1: Registers,
)
    requires
        bus_a.keeps_stable_reads(&bus0),
        bus1.keeps_stable_reads(&bus_e),
        store_facts(bus_a, bus_e, r0, opcode, result, r1),
    ensures
        store_facts(bus0, bus1, r0, opcode, result, r1),
{
    reveal(store_facts);
    reveal(Bus::keeps_stable_reads);
}

proof fn lemma_pushes_word_kept(b0: Bus, b1: Bus, b2: Bus, sp: u16, value: u16)
    requires
        b1.keeps_stable_reads(&b0),
        pushes_word(b1, b2, sp, value),
    ensures
        pushes_word(b0, b2, sp, value),
{
    reveal(Bus::keeps_stable_reads);
    reveal(pushes_word);
}

proof fn lemma_pushes_then_kept(b0: Bus, b1: Bus, b2: Bus, sp: u16, value: u16)
    requires
        pushes_word(b0, b1, sp, value),
        b2.keeps_stable_reads(&b1),
    ensures
        pushes_word(b0, b2, sp, value),
{
    reveal(pushes_word);
    reveal(Bus::keeps_stable_reads);
    reveal(stack_word);
}

proof fn lemma_push_facts_lift(
    bus0: Bus,
    bus_a: Bus,
    bus_e: Bus,
    bus1: Bus,
    fetched: Registers,
    opcode: u8,
    result: Result<CycleCount>,
    r1: Registers,
)
    requires
        bus_a.keeps_stable_reads(&bus0),
        bus1.keeps_stable_reads(&bus_e),
        push_facts(bus_a, bus_e, fetched, opcode, result, r1),
        Bus::stable_address(fetched.pc),
    ensures
        push_facts(bus0, bus1, fetched, opcode, result, r1),
{
    reveal(push_facts);
    reveal(call_facts);
    reveal(Bus::keeps_stable_reads);
    let v = if is_push(opcode) {
        push_value(opcode, fetched)
    } else if is_restart(opcode) {
        fetched.pc
    } else {
        pc_plus(fetched.pc, 2)
    };
    if is_push(opcode) || is_restart(opcode) || is_call(opcode) {
        if pushes_word(bus_a, bus_e, fetched.sp, v) {
            lemma_pushes_word_kept(bus0, bus_a, bus_e, fetched.sp, v);
            lemma_pushes_then_kept(bus0, bus_e, bus1, fetched.sp, v);
        }
    }
    if !bus0.spec_dma().active {
        lemma_operand_bytes_kept(bus0, bus_a, fetched.pc, 2);
    } else {
        reveal(operand_bytes);
    }
}

proof fn lemma_stable_reads_dma(b0: Bus, b1: Bus)
    requires
        b1.keeps_stable_reads(&b0),
        !b0.spec_dma().active,
    ensures
        !b1.spec_dma().active,
{
    reveal(Bus::keeps_stable_reads);
}

proof fn lemma_pc_plus_down(sp: u16)
    ensures
        pc_plus(sp, 0xFFFF) == sp.wrapping_sub(1),
        pc_plus(sp, 0xFFFE) == sp.wrapping_sub(1).wrapping_sub(1),
        pc_plus(pc_plus(sp, 0xFFFE), 1) == pc_plus(sp, 0xFFFF),
{
}

proof fn lemma_pc_plus_twice(pc: u16)
    ensures
        pc_plus(pc_plus(pc, 1), 1) == pc_plus(pc, 2),
        pc_plus(pc, 1) == ((pc + 1) % 0x10000) as u16,
{
}

/// LD r,n: the register the opcode names takes the operand byte.
pub open spec fn load8_result(r: Registers, opcode: u8, low: u8) -> Registers {
    Registers { pc: pc_plus(r.pc, 1), ..r.with_reg8(register8_of(opcode / 8), low) }
}

/// LD rr,nn: the register pair the opcode names takes the 16-bit operand.
pub open spec fn load16_result(r: Registers, opcode: u8, low: u8, high: u8) -> Registers {
    Registers { pc: pc_plus(r.pc, 2), ..r.with_pair(register16_of(opcode / 16), word(high, low)) }
}

/// An ALU operation on A and the operand byte.
pub open spec fn alu8_result(r: Registers, opcode: u8, low: u8) -> Registers {
    Registers { pc: pc_plus(r.pc, 1), ..r.with_alu(alu_result(alu_operation_of((opcode / 8) % 8), r, low)) }
}

/// JR and JR cc: the offset is added to the PC past it when the jump is
/// taken (12 cycles), otherwise that PC is kept (8 cycles).
pub open spec fn relative_jump_result(r: Registers, opcode: u8, low: u8) -> (Registers, u32) {
    let taken = opcode == 0x18 || condition_holds(r, condition_of((opcode / 8) % 4));
    if taken {
        (Registers { pc: relative_target(pc_plus(r.pc, 1), low), ..r }, 12u32)
    } else {
        (Registers { pc: pc_plus(r.pc, 1), ..r }, 8u32)
    }
}

/// JP nn and JP cc,nn: PC takes the operand when the jump is taken (16
/// cycles), otherwise moves past it (12 cycles).
pub open spec fn absolute_jump_result(r: Registers, opcode: u8, low: u8, high: u8) -> (Registers, u32) {
    let taken = opcode == 0xC3 || condition_holds(r, condition_of((opcode / 8) % 4));
    if taken {
        (Registers { pc: word(high, low), ..r }, 16u32)
    } else {
        (Registers { pc: pc_plus(r.pc, 2), ..r }, 12u32)
    }
}

/// ADD SP,e (16 cycles) and LD HL,SP+e (12 cycles).
pub open spec fn sp_offset_op_result(r: Registers, opcode: u8, low: u8) -> (Registers, u32) {
    let (value, f) = sp_offset_result(r.sp, signed_of(low));
    if opcode == 0xE8 {
        (Registers { sp: value, f, pc: pc_plus(r.pc, 1), ..r }, 16u32)
    } else {
        (Registers { f, pc: pc_plus(r.pc, 1), ..r.with_pair(Register16::HL, value) }, 12u32)
    }
}

/// A CB-prefixed instruction on a register (8 cycles); one on (HL) reads
/// and writes memory and has no result here.
pub open spec fn cb_op_result(r: Registers, low: u8) -> Option<(Registers, u32)> {
    if register8_of(low % 8) == Register8::AddressHl {
        None
    } else {
        Some((cb_register_result(low, Registers { pc: pc_plus(r.pc, 1), ..r }), 8u32))
    }
}

/// Whether `opcode` is a relative jump: JR, or JR with a condition.
pub open spec fn is_relative_jump(opcode: u8) -> bool {
    opcode == 0x18 || opcode == 0x20 || opcode == 0x28 || opcode == 0x30 || opcode == 0x38
}

/// Whether `opcode` is an absolute jump: JP nn, or JP cc,nn.
pub open spec fn is_absolute_jump(opcode: u8) -> bool {
    opcode == 0xC2 || opcode == 0xC3 || opcode == 0xCA || opcode == 0xD2 || opcode == 0xDA
}

/// For an opcode whose only memory accesses read its operand bytes, the
/// registers after it and its cycle count, given the bytes `low` and (for
/// a 16-bit operand) `high`; `registers` are those after the opcode fetch,
/// so PC points at `low`.
pub open spec fn operand_op(opcode: u8, registers: Registers, low: u8, high: u8) -> Option<(Registers, u32)> {
    let r = registers;
    if opcode < 0x40 && opcode % 8 == 6 && opcode != 0x36 {
        Some((load8_result(r, opcode, low), 8u32))
    } else if opcode < 0x40 && opcode % 16 == 1 {
        Some((load16_result(r, opcode, low, high), 12u32))
    } else if opcode >= 0xC0 && opcode % 8 == 6 {
        Some((alu8_result(r, opcode, low), 8u32))
    } else if is_relative_jump(opcode) {
        Some(relative_jump_result(r, opcode, low))
    } else if is_absolute_jump(opcode) {
        Some(absolute_jump_result(r, opcode, low, high))
    } else if opcode == 0xE8 || opcode == 0xF8 {
        Some(sp_offset_op_result(r, opcode, low))
    } else if opcode == 0xCB {
        cb_op_result(r, low)
    } else {
        None
    }
}

/// What `execute` promises for the opcodes of `operand_op`, one group at
/// a time: `bus` and `r0` before, `r1` after.
#[verifier::opaque]
pub open spec fn operand_facts(
    bus: Bus,
    r0: Registers,
    opcode: u8,
    result: Result<CycleCount>,
    r1: Registers,
) -> bool {
    let one = operand_bytes(bus, r0.pc, 1);
    let two = operand_bytes(bus, r0.pc, 2);
    &&& opcode < 0x40 && opcode % 8 == 6 && opcode != 0x36 ==> (one matches Some((low, high)) ==> result
        == Ok::<u32, EmulatorError>(8) && r1 == load8_result(r0, opcode, low))
    &&& opcode < 0x40 && opcode % 16 == 1 ==> (two matches Some((low, high)) ==> result == Ok::<
        u32,
        EmulatorError,
    >(12) && r1 == load16_result(r0, opcode, low, high))
    &&& is_relative_jump(opcode) ==> (one matches Some((low, high)) ==> result == Ok::<u32, EmulatorError>(
        relative_jump_result(r0, opcode, low).1,
    ) && r1 == relative_jump_result(r0, opcode, low).0)
    &&& opcode >= 0xC0 && opcode % 8 == 6 ==> (one matches Some((low, high)) ==> result == Ok::<
        u32,
        EmulatorError,
    >(8) && r1 == alu8_result(r0, opcode, low))
    &&& is_absolute_jump(opcode) ==> (two matches Some((low, high)) ==> result == Ok::<u32, EmulatorError>(
        absolute_jump_result(r0, opcode, low, high).1,
    ) && r1 == absolute_jump_result(r0, opcode, low, high).0)
    &&& opcode == 0xE8 || opcode == 0xF8 ==> (one matches Some((low, high)) ==> result == Ok::<
        u32,
        EmulatorError,
    >(sp_offset_op_result(r0, opcode, low).1) && r1 == sp_offset_op_result(r0, opcode, low).0)
    &&& opcode == 0xCB ==> (one matches Some((low, high)) ==> (cb_op_result(r0, low) matches Some((
        registers,
        c,
    )) ==> result == Ok::<u32, EmulatorError>(c) && r1 == registers))
}

/// What a step that runs an opcode of `operand_op` gives, when no DMA
/// runs and the operand bytes lie where time alone changes nothing:
/// `fetched` are the registers after the opcode fetch, `registers1` those
/// after the step.
#[verifier::opaque]
pub open spec fn operand_outcome(bus0: Bus, fetched: Registers, opcode: u8, result: Result<CycleCount>, registers1: Registers) -> bool {
    !bus0.spec_dma().active && Bus::stable_address(fetched.pc) ==> (operand_bytes(
        bus0,
        fetched.pc,
        operand_len(opcode),
    ) matches Some((low, high)) ==> (operand_op(opcode, fetched, low, high) matches Some((registers, c))
        ==> result == Ok::<u32, EmulatorError>(c) && registers1 == registers))
}

proof fn lemma_operand_outcome(bus0: Bus, bus: Bus, fetched: Registers, opcode: u8, result: Result<CycleCount>, registers1: Registers)
    requires
        bus.keeps_stable_reads(&bus0),
        operand_facts(bus, fetched, opcode, result, registers1),
    ensures
        operand_outcome(bus0, fetched, opcode, result, registers1),
{
    reveal(operand_facts);
    reveal(operand_outcome);
    if !bus0.spec_dma().active && Bus::stable_address(fetched.pc) {
        lemma_operand_bytes_kept(bus0, bus, fetched.pc, 1);
        lemma_operand_bytes_kept(bus0, bus, fetched.pc, 2);
    }
}

/// For an opcode whose one memory access reads the byte at (HL), LD r,(HL)
/// and the ALU operations on (HL), the registers after it and its cycle
/// count, given that byte; `registers` are those after the opcode fetch.
pub open spec fn hl_read_op(opcode: u8, registers: Registers, value: u8) -> Option<(Registers, u32)> {
    let r = registers;
    let source = register8_of(opcode % 8);
    let destination = register8_of((opcode / 8) % 8);
    if 0x40 <= opcode <= 0x7F && source == Register8::AddressHl && destination != Register8::AddressHl {
        Some((r.with_reg8(destination, value), 8u32))
    } else if 0x80 <= opcode <= 0xBF && source == Register8::AddressHl {
        Some((r.with_alu(alu_result(alu_operation_of((opcode / 8) % 8), r, value)), 8u32))
    } else {
        None
    }
}

/// What `execute` promises for the opcodes of `hl_read_op`: `bus` and `r0`
/// before, `r1` after.
#[verifier::opaque]
pub open spec fn hl_read_facts(
    bus: Bus,
    r0: Registers,
    opcode: u8,
    result: Result<CycleCount>,
    r1: Registers,
) -> bool {
    bus.read_spec(r0.hl_of()) matches Ok(value) ==> (hl_read_op(opcode, r0, value) matches Some((
        registers,
        c,
    )) ==> result == Ok::<u32, EmulatorError>(c) && r1 == registers)
}

/// What a step that runs an opcode of `hl_read_op` gives, when no DMA runs
/// and HL names an address time alone leaves alone: `fetched` are the
/// registers after the opcode fetch, `registers1` those after the step.
#[verifier::opaque]
pub open spec fn hl_read_outcome(
    bus0: Bus,
    fetched: Registers,
    opcode: u8,
    result: Result<CycleCount>,
    registers1: Registers,
) -> bool {
    !bus0.spec_dma().active && Bus::stable_address(fetched.hl_of()) ==> (bus0.read_spec(fetched.hl_of())
        matches Ok(value) ==> (hl_read_op(opcode, fetched, value) matches Some((registers, c)) ==> result
        == Ok::<u32, EmulatorError>(c) && registers1 == registers))
}

proof fn lemma_hl_read_outcome(
    bus0: Bus,
    bus: Bus,
    fetched: Registers,
    opcode: u8,
    result: Result<CycleCount>,
    registers1: Registers,
)
    requires
        bus.keeps_stable_reads(&bus0),
        hl_read_facts(bus, fetched, opcode, result, registers1),
    ensures
        hl_read_outcome(bus0, fetched, opcode, result, registers1),
{
    reveal(Bus::keeps_stable_reads);
    reveal(hl_read_facts);
    reveal(hl_read_outcome);
    if !bus0.spec_dma().active && Bus::stable_address(fetched.hl_of()) {
        assert(bus.read_spec(fetched.hl_of()) == bus0.read_spec(fetched.hl_of()));
    }
}

/// Whether `opcode` only reads the stack: POP rr, RET, RETI, RET cc.
pub open spec fn is_stack_read(opcode: u8) -> bool {
    opcode == 0xC1 || opcode == 0xD1 || opcode == 0xE1 || opcode == 0xF1 || opcode == 0xC9 || opcode
        == 0xD9 || opcode == 0xC0 || opcode == 0xC8 || opcode == 0xD0 || opcode == 0xD8
}

/// For an opcode of `is_stack_read`, the registers after it and its cycle
/// count, given the word `w` on top of the stack; `registers` are those
/// after the opcode fetch. POP AF keeps only the high nibble of F.
#[verifier::opaque]
pub open spec fn stack_read_op(opcode: u8, registers: Registers, w: u16) -> Option<(Registers, u32)> {
    let r = registers;
    let sp = pc_plus(r.sp, 2);
    if opcode == 0xC1 || opcode == 0xD1 || opcode == 0xE1 {
        Some((Registers { sp, ..r.with_pair(register16_of(((opcode - 0xC0) / 16) as u8), w) }, 12u32))
    } else if opcode == 0xF1 {
        Some((Registers { a: high_byte(w), f: low_byte(w) & 0xF0, sp, ..r }, 12u32))
    } else if opcode == 0xC9 || opcode == 0xD9 {
        Some((Registers { pc: w, sp, ..r }, 16u32))
    } else if opcode == 0xC0 || opcode == 0xC8 || opcode == 0xD0 || opcode == 0xD8 {
        if condition_holds(r, condition_of((opcode / 8) % 4)) {
            Some((Registers { pc: w, sp, ..r }, 20u32))
        } else {
            Some((r, 8u32))
        }
    } else {
        None
    }
}

/// What an opcode of `is_stack_read` gives with the stack of `bus`: `r0`
/// before, `r1` after.
#[verifier::opaque]
pub open spec fn stack_read_facts(
    bus: Bus,
    r0: Registers,
    opcode: u8,
    result: Result<CycleCount>,
    r1: Registers,
) -> bool {
    is_stack_read(opcode) ==> (stack_word(bus, r0.sp) matches Some(w) ==> (stack_read_op(opcode, r0, w)
        matches Some((registers, c)) ==> result == Ok::<u32, EmulatorError>(c) && r1 == registers))
}

proof fn lemma_stack_read_facts_kept(
    bus0: Bus,
    bus: Bus,
    r0: Registers,
    opcode: u8,
    result: Result<CycleCount>,
    r1: Registers,
)
    requires
        bus.keeps_stable_reads(&bus0),
        stack_read_facts(bus, r0, opcode, result, r1),
    ensures
        stack_read_facts(bus0, r0, opcode, result, r1),
{
    reveal(Bus::keeps_stable_reads);
    reveal(stack_read_facts);
    reveal(stack_word);
    let next = ((r0.sp + 1) % 0x10000) as u16;
    if !bus0.spec_dma().active && Bus::stable_address(r0.sp) && Bus::stable_address(next) {
        assert(bus.read_spec(r0.sp) == bus0.read_spec(r0.sp));
        assert(bus.read_spec(next) == bus0.read_spec(next));
    }
}

/// The address LD A,(BC), LD A,(DE), LD A,(HL+) and LD A,(HL-) read.
pub open spec fn accumulator_load_address(opcode: u8, registers: Registers) -> u16 {
    if opcode == 0x0A {
        registers.bc_of()
    } else if opcode == 0x1A {
        registers.de_of()
    } else {
        registers.hl_of()
    }
}

/// For LD A,(BC), LD A,(DE), LD A,(HL+) and LD A,(HL-), the registers
/// after it and its cycle count, given the byte read; the last two move
/// HL on by one either way.
pub open spec fn accumulator_load(opcode: u8, registers: Registers, value: u8) -> Option<(Registers, u32)> {
    let loaded = Registers { a: value, ..registers };
    let hl = registers.hl_of();
    if opcode == 0x0A || opcode == 0x1A {
        Some((loaded, 8u32))
    } else if opcode == 0x2A {
        Some((loaded.with_pair(Register16::HL, ((hl + 1) % 0x10000) as u16), 8u32))
    } else if opcode == 0x3A {
        Some((loaded.with_pair(Register16::HL, ((hl + 0xFFFF) % 0x10000) as u16), 8u32))
    } else {
        None
    }
}

/// What `execute` promises for the opcodes of `accumulator_load`: `bus`
/// and `r0` before, `r1` after.
#[verifier::opaque]
pub open spec fn accumulator_load_facts(
    bus: Bus,
    r0: Registers,
    opcode: u8,
    result: Result<CycleCount>,
    r1: Registers,
) -> bool {
    bus.read_spec(accumulator_load_address(opcode, r0)) matches Ok(value) ==> (accumulator_load(
        opcode,
        r0,
        value,
    ) matches Some((registers, c)) ==> result == Ok::<u32, EmulatorError>(c) && r1 == registers)
}

/// What a step that runs an opcode of `accumulator_load` gives, when no
/// DMA runs and the address read lies where time alone changes nothing.
#[verifier::opaque]
pub open spec fn accumulator_load_outcome(
    bus0: Bus,
    fetched: Registers,
    opcode: u8,
    result: Result<CycleCount>,
    registers1: Registers,
) -> bool {
    let address = accumulator_load_address(opcode, fetched);
    !bus0.spec_dma().active && Bus::stable_address(address) ==> (bus0.read_spec(address) matches Ok(
        value,
    ) ==> (accumulator_load(opcode, fetched, value) matches Some((registers, c)) ==> result == Ok::<
        u32,
        EmulatorError,
    >(c) && registers1 == registers))
}

proof fn lemma_accumulator_load_outcome(
    bus0: Bus,
    bus: Bus,
    fetched: Registers,
    opcode: u8,
    result: Result<CycleCount>,
    registers1: Registers,
)
    requires
        bus.keeps_stable_reads(&bus0),
        accumulator_load_facts(bus, fetched, opcode, result, registers1),
    ensures
        accumulator_load_outcome(bus0, fetched, opcode, result, registers1),
{
    reveal(Bus::keeps_stable_reads);
    reveal(accumulator_load_facts);
    reveal(accumulator_load_outcome);
    let address = accumulator_load_address(opcode, fetched);
    if !bus0.spec_dma().active && Bus::stable_address(address) {
        assert(bus.read_spec(address) == bus0.read_spec(address));
    }
}

/// The opcodes that may write memory: the stores through (BC), (DE),
/// (HL), (nn) and the I/O page, INC/DEC (HL), PUSH, CALL, RST and the
/// CB-prefixed group (whose (HL) forms write).
pub open spec fn writes_memory(opcode: u8) -> bool {
    ||| opcode == 0x02 || opcode == 0x12 || opcode == 0x22 || opcode == 0x32 || opcode == 0x08
    ||| opcode == 0x34 || opcode == 0x35 || opcode == 0x36
    ||| 0x70 <= opcode <= 0x75 || opcode == 0x77
    ||| opcode == 0xC4 || opcode == 0xCC || opcode == 0xD4 || opcode == 0xDC || opcode == 0xCD
    ||| opcode == 0xC5 || opcode == 0xD5 || opcode == 0xE5 || opcode == 0xF5
    ||| opcode == 0xC7 || opcode == 0xCF || opcode == 0xD7 || opcode == 0xDF
    ||| opcode == 0xE7 || opcode == 0xEF || opcode == 0xF7 || opcode == 0xFF
    ||| opcode == 0xE0 || opcode == 0xE2 || opcode == 0xEA || opcode == 0xCB
}

/// PUSH BC, PUSH DE, PUSH HL, PUSH AF.
pub open spec fn is_push(opcode: u8) -> bool {
    opcode == 0xC5 || opcode == 0xD5 || opcode == 0xE5 || opcode == 0xF5
}

/// The word a PUSH opcode pushes.
pub open spec fn push_value(opcode: u8, registers: Registers) -> u16 {
    if opcode == 0xC5 {
        registers.bc_of()
    } else if opcode == 0xD5 {
        registers.de_of()
    } else if opcode == 0xE5 {
        registers.hl_of()
    } else {
        registers.af_of()
    }
}

/// RST 00h..38h.
pub open spec fn is_restart(opcode: u8) -> bool {
    opcode == 0xC7 || opcode == 0xCF || opcode == 0xD7 || opcode == 0xDF || opcode == 0xE7
        || opcode == 0xEF || opcode == 0xF7 || opcode == 0xFF
}

/// CALL nn and CALL cc,nn.
pub open spec fn is_call(opcode: u8) -> bool {
    opcode == 0xCD || opcode == 0xC4 || opcode == 0xCC || opcode == 0xD4 || opcode == 0xDC
}

/// Whether a CALL opcode jumps with the flags of `registers`.
pub open spec fn call_taken(opcode: u8, registers: Registers) -> bool {
    opcode == 0xCD || condition_holds(registers, condition_of((opcode / 8) % 4))
}

/// The stack bytes just below `sp` lie in RAM and no DMA runs, so a push
/// there succeeds.
pub open spec fn stack_pushable(bus: Bus, sp: u16) -> bool {
    !bus.spec_dma().active && Bus::ram_address(pc_plus(sp, 0xFFFF)) && Bus::ram_address(pc_plus(sp, 0xFFFE))
}

/// What PUSH, RST and CALL do with `bus0` and `r0` before and `bus1` and
/// `r1` after: the word they push (`pushes_word`), when they succeed, and
/// the registers after them.
#[verifier::opaque]
pub open spec fn push_facts(
    bus0: Bus,
    bus1: Bus,
    r0: Registers,
    opcode: u8,
    result: Result<CycleCount>,
    r1: Registers,
) -> bool {
    let sp = pc_plus(r0.sp, 0xFFFE);
    &&& is_push(opcode) ==> {
        &&& pushes_word(bus0, bus1, r0.sp, push_value(opcode, r0))
        &&& stack_pushable(bus0, r0.sp) ==> result is Ok
        &&& result is Ok ==> result == Ok::<u32, EmulatorError>(16) && r1 == (Registers { sp, ..r0 })
    }
    &&& is_restart(opcode) ==> {
        &&& pushes_word(bus0, bus1, r0.sp, r0.pc)
        &&& stack_pushable(bus0, r0.sp) ==> result is Ok
        &&& result is Ok ==> result == Ok::<u32, EmulatorError>(16) && r1 == (Registers {
            sp,
            pc: (opcode - 0xC7) as u16,
            ..r0
        })
    }
    &&& is_call(opcode) ==> call_facts(bus0, bus1, r0, call_taken(opcode, r0), result, r1)
}

/// The opcodes the CPU has no instruction for.
pub open spec fn is_unimplemented(opcode: u8) -> bool {
    opcode == 0xD3 || opcode == 0xDB || opcode == 0xDD || opcode == 0xE3 || opcode == 0xE4
        || opcode == 0xEB || opcode == 0xEC || opcode == 0xED || opcode == 0xF4 || opcode == 0xFC
        || opcode == 0xFD
}

impl Cpu {
    /// A CB-prefixed instruction: rotate/shift, BIT, RES or SET on a
    /// register (8 cycles) or on (HL) (12 for BIT, otherwise 16).
    #[verifier::rlimit(40)]
    #[verifier::spinoff_prover]
    fn execute_cb_prefixed(&mut self, bus: &mut Bus) -> (result: Result<CycleCount>)
        requires
            old(self).ready(old(bus), 3),
        ensures
            result is Ok ==> (old(bus).read_spec(old(self).registers.pc) matches Ok(op) && ({
                let register = register8_of(op % 8);
                let fetched = Registers { pc: old(self).pc_after_fetch(), ..old(self).registers };
                &&& register != Register8::AddressHl ==> result == Ok::<u32, EmulatorError>(8)
                    && *final(self) == (Cpu {
                    registers: cb_register_result(op, fetched),
                    halt_bug: false,
                    elapsed_cycles: (old(self).elapsed_cycles + 4) as u32,
                    ..*old(self)
                })
                &&& register == Register8::AddressHl ==> result == Ok::<u32, EmulatorError>(
                    if 0x40 <= op < 0x80 { 12 } else { 16 },
                ) && *final(self) == (Cpu {
                    registers: Registers { f: final(self).registers.f, ..fetched },
                    halt_bug: false,
                    elapsed_cycles: (old(self).elapsed_cycles + if 0x40 <= op < 0x80 { 8int } else { 12 }) as u32,
                    ..*old(self)
                })
            })),
            operand_bytes(*old(bus), old(self).registers.pc, 1) matches Some((op, high)) ==> (register8_of(op % 8)
                != Register8::AddressHl ==> result is Ok),
            final(self).inv(),
            bus_ready(final(bus)),
            final(self).keeps_control(old(self)),
            work_kept(*old(bus), old(self).elapsed_cycles, *final(bus), final(self).elapsed_cycles),
    {
        let opcode = match self.fetch_byte(bus) {
            Ok(b) => b,
            Err(e) => {
                return Err(e);
            },
        };
        proof {
            lemma_byte_bits();
        }
        let register = decode_register8(opcode & 0b111);
        if opcode <= 0x3F {
            let operation = match opcode >> 3 {
                0 => RotateOperation::Rlc,
                1 => RotateOperation::Rrc,
                2 => RotateOperation::Rl,
                3 => RotateOperation::Rr,
                4 => RotateOperation::Sla,
                5 => RotateOperation::Sra,
                6 => RotateOperation::Swap,
                _ => RotateOperation::Srl,
            };
            let value = match self.read8(bus, register) {
                Ok(v) => v,
                Err(e) => {
                    return Err(e);
                },
            };
            let result = self.rotate_shift_value(operation, value, true);
            match self.write8(bus, register, result) {
                Ok(()) => {},
                Err(e) => {
                    return Err(e);
                },
            }
        } else if opcode <= 0x7F {
            let bit = (opcode >> 3) & 0b111;
            let value = match self.read8(bus, register) {
                Ok(v) => v,
                Err(e) => {
                    return Err(e);
                },
            };
            let carry = self.registers.flag(Flag::Carry);
            self.registers.set_flags(value & (1 << bit) == 0, false, true, carry);
        } else if opcode <= 0xBF {
            let bit = (opcode >> 3) & 0b111;
            let value = match self.read8(bus, register) {
                Ok(v) => v,
                Err(e) => {
                    return Err(e);
                },
            };
            match self.write8(bus, register, value & !(1 << bit)) {
                Ok(()) => {},
                Err(e) => {
                    return Err(e);
                },
            }
        } else {
            let bit = (opcode >> 3) & 0b111;
            let value = match self.read8(bus, register) {
                Ok(v) => v,
                Err(e) => {
                    return Err(e);
                },
            };
            match self.write8(bus, register, value | (1 << bit)) {
                Ok(()) => {},
                Err(e) => {
                    return Err(e);
                },
            }
        }
        if register == Register8::AddressHl {
            if 0x40 <= opcode && opcode <= 0x7F {
                Ok(12)
            } else {
                Ok(16)
            }
        } else {
            Ok(8)
        }
    }
}



impl Cpu {
    /// Opcodes 0x00..=0x0F.
    #[verifier::rlimit(100)]
    #[verifier::spinoff_prover]
    fn execute_row_00(&mut self, bus: &mut Bus, opcode: u8) -> (result: Result<CycleCount>)
        requires
            old(self).ready(old(bus), 5),
            old(self).elapsed_cycles == 4,
            !old(self).halt_bug,
            0x00 <= opcode <= 0x0F,
        ensures
            opcode != 0x10 ==> work_kept(
                *old(bus),
                old(self).elapsed_cycles,
                *final(bus),
                final(self).elapsed_cycles,
            ),
            !writes_memory(opcode) && opcode != 0x10 ==> time_kept(
                *old(bus),
                old(self).elapsed_cycles,
                *final(bus),
                final(self).elapsed_cycles,
            ),
            store_facts(*old(bus), *final(bus), old(self).registers, opcode, result, final(self).registers),
            result is Ok ==> !final(self).halt_bug,
            !writes_memory(opcode) ==> final(bus).keeps_stable_reads(old(bus)),
            opcode == 0x0A || opcode == 0x1A || opcode == 0x2A || opcode == 0x3A ==> (old(bus).read_spec(
                accumulator_load_address(opcode, old(self).registers),
            ) matches Ok(value) ==> (accumulator_load(opcode, old(self).registers, value) matches Some((
                registers,
                c,
            )) ==> result == Ok::<u32, EmulatorError>(c) && final(self).registers == registers)),
            opcode < 0x40 && opcode % 8 == 6 && opcode != 0x36 ==> (operand_bytes(*old(bus), old(self).registers.pc, 1)
                matches Some((low, high)) ==> result == Ok::<u32, EmulatorError>(8) && final(self).registers
                == load8_result(old(self).registers, opcode, low)),
            opcode < 0x40 && opcode % 16 == 1 ==> (operand_bytes(*old(bus), old(self).registers.pc, 2)
                matches Some((low, high)) ==> result == Ok::<u32, EmulatorError>(12) && final(self).registers
                == load16_result(old(self).registers, opcode, low, high)),
            opcode < 0x40 && opcode % 16 == 1 ==> (operand_bytes(*old(bus), old(self).registers.pc, 2)
                matches Some((low, high)) ==> result == Ok::<u32, EmulatorError>(12) && final(self).registers
                == load16_result(old(self).registers, opcode, low, high)),
            final(self).inv(),
            bus_ready(final(bus)),
            result matches Ok(c) ==> c <= MAX_INSTRUCTION_CYCLES && c % 4 == 0 && (final(self).elapsed_cycles <= c
                || (opcode == 0x10 && c == 4 && final(self).elapsed_cycles == 8)),
            register_op(opcode, old(self).registers) matches Some((registers, c)) ==> result == Ok::<u32, EmulatorError>(c)
                && final(self).registers == registers && *final(bus) == *old(bus) && final(self).elapsed_cycles == old(self).elapsed_cycles,
            final(self).interrupt_master_enabled == old(self).interrupt_master_enabled,
            final(self).ime_enable_delay == old(self).ime_enable_delay,
            final(self).mode == old(self).mode || (opcode == 0x10 && final(self).mode == CpuMode::Stopped),
            final(self).elapsed_cycles >= old(self).elapsed_cycles,
    {
        proof {
            Bus::lemma_stable_reads_refl(&*bus);
            if !is_store(opcode) {
                lemma_not_store(opcode);
            }
        }
        match opcode {
            0x00 => Ok(4),
            0x01 => {
                proof {
                    lemma_pc_plus_twice(self.registers.pc);
                }
                let value = match self.fetch_word(bus) {
                    Ok(w) => w,
                    Err(e) => {
                        return Err(e);
                    },
                };
                self.registers.set_bc(value);
                Ok(12)
            },
            0x02 => {
                let ghost bus0 = *bus;
                let ghost r0 = self.registers;
                let address = self.registers.bc();
                let a = self.registers.a;
                match self.write_byte(bus, address, a) {
                    Ok(()) => {},
                    Err(e) => {
                        proof {
                            lemma_store_written(bus0, *bus, r0, opcode, Err(e), self.registers);
                        }
                        return Err(e);
                    },
                }
                proof {
                    lemma_store_written(bus0, *bus, r0, opcode, Ok(8), self.registers);
                }
                Ok(8)
            },
            0x03 => Ok(self.increment_register16(Register16::BC)),
            0x04 => self.increment_register(bus, Register8::B),
            0x05 => self.decrement_register(bus, Register8::B),
            0x06 => {
                let value = match self.fetch_byte(bus) {
                    Ok(b) => b,
                    Err(e) => {
                        return Err(e);
                    },
                };
                self.registers.b = value;
                Ok(8)
            },
            0x07 => {
                self.rotate_accumulator(RotateOperation::Rlc);
                Ok(4)
            },
            0x08 => {
                let address = match self.fetch_word(bus) {
                    Ok(w) => w,
                    Err(e) => {
                        return Err(e);
                    },
                };
                let (high, low) = split(self.registers.sp);
                match self.write_byte(bus, address, low) {
                    Ok(()) => {},
                    Err(e) => {
                        return Err(e);
                    },
                }
                match self.write_byte(bus, address.wrapping_add(1), high) {
                    Ok(()) => {},
                    Err(e) => {
                        return Err(e);
                    },
                }
                Ok(20)
            },
            0x09 => {
                let value = self.registers.bc();
                Ok(self.add_hl(value))
            },
            0x0A => {
                let address = self.registers.bc();
                let value = match self.read_byte(bus, address) {
                    Ok(b) => b,
                    Err(e) => {
                        return Err(e);
                    },
                };
                self.registers.a = value;
                Ok(8)
            },
            0x0B => Ok(self.decrement_register16(Register16::BC)),
            0x0C => self.increment_register(bus, Register8::C),
            0x0D => self.decrement_register(bus, Register8::C),
            0x0E => {
                let value = match self.fetch_byte(bus) {
                    Ok(b) => b,
                    Err(e) => {
                        return Err(e);
                    },
                };
                self.registers.c = value;
                Ok(8)
            },
            _ => {
                self.rotate_accumulator(RotateOperation::Rrc);
                Ok(4)
            },
        }
    }

    /// Opcodes 0x10..=0x17.
    #[verifier::rlimit(100)]
    #[verifier::spinoff_prover]
    fn execute_row_10(&mut self, bus: &mut Bus, opcode: u8) -> (result: Result<CycleCount>)
        requires
            old(self).ready(old(bus), 5),
            old(self).elapsed_cycles == 4,
            !old(self).halt_bug,
            0x10 <= opcode <= 0x17,
        ensures
            opcode == 0x10 && result is Ok ==> result == Ok::<u32, EmulatorError>(4) && final(self).elapsed_cycles
                == old(self).elapsed_cycles + 4,
            opcode == 0x10 ==> exists|b: Bus|
                #[trigger] work_kept(*old(bus), old(self).elapsed_cycles, b, final(self).elapsed_cycles) && stop_effect(
                    b,
                    *final(bus),
                ),
            opcode != 0x10 ==> work_kept(
                *old(bus),
                old(self).elapsed_cycles,
                *final(bus),
                final(self).elapsed_cycles,
            ),
            !writes_memory(opcode) && opcode != 0x10 ==> time_kept(
                *old(bus),
                old(self).elapsed_cycles,
                *final(bus),
                final(self).elapsed_cycles,
            ),
            store_facts(*old(bus), *final(bus), old(self).registers, opcode, result, final(self).registers),
            result is Ok ==> !final(self).halt_bug,
            !writes_memory(opcode) ==> final(bus).keeps_stable_reads(old(bus)),
            opcode == 0x0A || opcode == 0x1A || opcode == 0x2A || opcode == 0x3A ==> (old(bus).read_spec(
                accumulator_load_address(opcode, old(self).registers),
            ) matches Ok(value) ==> (accumulator_load(opcode, old(self).registers, value) matches Some((
                registers,
                c,
            )) ==> result == Ok::<u32, EmulatorError>(c) && final(self).registers == registers)),
            opcode < 0x40 && opcode % 8 == 6 && opcode != 0x36 ==> (operand_bytes(*old(bus), old(self).registers.pc, 1)
                matches Some((low, high)) ==> result == Ok::<u32, EmulatorError>(8) && final(self).registers
                == load8_result(old(self).registers, opcode, low)),
            opcode < 0x40 && opcode % 16 == 1 ==> (operand_bytes(*old(bus), old(self).registers.pc, 2)
                matches Some((low, high)) ==> result == Ok::<u32, EmulatorError>(12) && final(self).registers
                == load16_result(old(self).registers, opcode, low, high)),
            is_relative_jump(opcode) ==> (operand_bytes(*old(bus), old(self).registers.pc, 1) matches Some((low, high))
                ==> result == Ok::<u32, EmulatorError>(relative_jump_result(old(self).registers, opcode, low).1)
                && final(self).registers == relative_jump_result(old(self).registers, opcode, low).0),
            final(self).inv(),
            bus_ready(final(bus)),
            result matches Ok(c) ==> c <= MAX_INSTRUCTION_CYCLES && c % 4 == 0 && (final(self).elapsed_cycles <= c
                || (opcode == 0x10 && c == 4 && final(self).elapsed_cycles == 8)),
            register_op(opcode, old(self).registers) matches Some((registers, c)) ==> result == Ok::<u32, EmulatorError>(c)
                && final(self).registers == registers && *final(bus) == *old(bus) && final(self).elapsed_cycles == old(self).elapsed_cycles,
            final(self).interrupt_master_enabled == old(self).interrupt_master_enabled,
            final(self).ime_enable_delay == old(self).ime_enable_delay,
            final(self).mode == old(self).mode || (opcode == 0x10 && final(self).mode == CpuMode::Stopped),
            final(self).elapsed_cycles >= old(self).elapsed_cycles,
    {
        proof {
            Bus::lemma_stable_reads_refl(&*bus);
            if !is_store(opcode) {
                lemma_not_store(opcode);
            }
        }
        match opcode {
            0x10 => {
                match self.fetch_byte(bus) {
                    Ok(_) => {},
                    Err(e) => {
                        proof {
                            assert(work_kept(*old(bus), old(self).elapsed_cycles, *bus, self.elapsed_cycles)
                                && stop_effect(*bus, *bus));
                        }
                        return Err(e);
                    },
                }
                let ghost b1 = *bus;
                let switched = bus.stop();
                proof {
                    Bus::lemma_stable_reads_chain(old(bus), &b1, &*bus);
                    assert(work_kept(*old(bus), old(self).elapsed_cycles, b1, self.elapsed_cycles) && stop_effect(
                        b1,
                        *bus,
                    ));
                }
                if !switched {
                    self.mode = CpuMode::Stopped;
                }
                Ok(4)
            },
            0x11 => {
                proof {
                    lemma_pc_plus_twice(self.registers.pc);
                }
                let value = match self.fetch_word(bus) {
                    Ok(w) => w,
                    Err(e) => {
                        return Err(e);
                    },
                };
                self.registers.set_de(value);
                Ok(12)
            },
            0x12 => {
                let ghost bus0 = *bus;
                let ghost r0 = self.registers;
                let address = self.registers.de();
                let a = self.registers.a;
                match self.write_byte(bus, address, a) {
                    Ok(()) => {},
                    Err(e) => {
                        proof {
                            lemma_store_written(bus0, *bus, r0, opcode, Err(e), self.registers);
                        }
                        return Err(e);
                    },
                }
                proof {
                    lemma_store_written(bus0, *bus, r0, opcode, Ok(8), self.registers);
                }
                Ok(8)
            },
            0x13 => Ok(self.increment_register16(Register16::DE)),
            0x14 => self.increment_register(bus, Register8::D),
            0x15 => self.decrement_register(bus, Register8::D),
            0x16 => {
                let value = match self.fetch_byte(bus) {
                    Ok(b) => b,
                    Err(e) => {
                        return Err(e);
                    },
                };
                self.registers.d = value;
                Ok(8)
            },
            _ => {
                self.rotate_accumulator(RotateOperation::Rl);
                Ok(4)
            },
        }
    }

    /// Opcodes 0x18..=0x1F.
    #[verifier::rlimit(100)]
    #[verifier::spinoff_prover]
    fn execute_row_18(&mut self, bus: &mut Bus, opcode: u8) -> (result: Result<CycleCount>)
        requires
            old(self).ready(old(bus), 5),
            old(self).elapsed_cycles == 4,
            !old(self).halt_bug,
            0x18 <= opcode <= 0x1F,
        ensures
            opcode != 0x10 ==> work_kept(
                *old(bus),
                old(self).elapsed_cycles,
                *final(bus),
                final(self).elapsed_cycles,
            ),
            !writes_memory(opcode) && opcode != 0x10 ==> time_kept(
                *old(bus),
                old(self).elapsed_cycles,
                *final(bus),
                final(self).elapsed_cycles,
            ),
            store_facts(*old(bus), *final(bus), old(self).registers, opcode, result, final(self).registers),
            result is Ok ==> !final(self).halt_bug,
            !writes_memory(opcode) ==> final(bus).keeps_stable_reads(old(bus)),
            opcode == 0x0A || opcode == 0x1A || opcode == 0x2A || opcode == 0x3A ==> (old(bus).read_spec(
                accumulator_load_address(opcode, old(self).registers),
            ) matches Ok(value) ==> (accumulator_load(opcode, old(self).registers, value) matches Some((
                registers,
                c,
            )) ==> result == Ok::<u32, EmulatorError>(c) && final(self).registers == registers)),
            opcode < 0x40 && opcode % 8 == 6 && opcode != 0x36 ==> (operand_bytes(*old(bus), old(self).registers.pc, 1)
                matches Some((low, high)) ==> result == Ok::<u32, EmulatorError>(8) && final(self).registers
                == load8_result(old(self).registers, opcode, low)),
            opcode < 0x40 && opcode % 16 == 1 ==> (operand_bytes(*old(bus), old(self).registers.pc, 2)
                matches Some((low, high)) ==> result == Ok::<u32, EmulatorError>(12) && final(self).registers
                == load16_result(old(self).registers, opcode, low, high)),
            is_relative_jump(opcode) ==> (operand_bytes(*old(bus), old(self).registers.pc, 1) matches Some((low, high))
                ==> result == Ok::<u32, EmulatorError>(relative_jump_result(old(self).registers, opcode, low).1)
                && final(self).registers == relative_jump_result(old(self).registers, opcode, low).0),
            final(self).inv(),
            bus_ready(final(bus)),
            result matches Ok(c) ==> c <= MAX_INSTRUCTION_CYCLES && c % 4 == 0 && (final(self).elapsed_cycles <= c
                || (opcode == 0x10 && c == 4 && final(self).elapsed_cycles == 8)),
            register_op(opcode, old(self).registers) matches Some((registers, c)) ==> result == Ok::<u32, EmulatorError>(c)
                && final(self).registers == registers && *final(bus) == *old(bus) && final(self).elapsed_cycles == old(self).elapsed_cycles,
            final(self).interrupt_master_enabled == old(self).interrupt_master_enabled,
            final(self).ime_enable_delay == old(self).ime_enable_delay,
            final(self).mode == old(self).mode || (opcode == 0x10 && final(self).mode == CpuMode::Stopped),
            final(self).elapsed_cycles >= old(self).elapsed_cycles,
    {
        proof {
            Bus::lemma_stable_reads_refl(&*bus);
            if !is_store(opcode) {
                lemma_not_store(opcode);
            }
        }
        match opcode {
            0x18 => {
                proof {
                    lemma_pc_plus_twice(self.registers.pc);
                    lemma_operand_byte(*bus, self.registers.pc);
                }
                match self.jump_relative(bus) {
                    Ok(()) => {},
                    Err(e) => {
                        return Err(e);
                    },
                }
                Ok(12)
            },
            0x19 => {
                let value = self.registers.de();
                Ok(self.add_hl(value))
            },
            0x1A => {
                let address = self.registers.de();
                let value = match self.read_byte(bus, address) {
                    Ok(b) => b,
                    Err(e) => {
                        return Err(e);
                    },
                };
                self.registers.a = value;
                Ok(8)
            },
            0x1B => Ok(self.decrement_register16(Register16::DE)),
            0x1C => self.increment_register(bus, Register8::E),
            0x1D => self.decrement_register(bus, Register8::E),
            0x1E => {
                let value = match self.fetch_byte(bus) {
                    Ok(b) => b,
                    Err(e) => {
                        return Err(e);
                    },
                };
                self.registers.e = value;
                Ok(8)
            },
            _ => {
                self.rotate_accumulator(RotateOperation::Rr);
                Ok(4)
            },
        }
    }

    /// Opcodes 0x20..=0x2F.
    #[verifier::rlimit(100)]
    #[verifier::spinoff_prover]
    fn execute_row_20(&mut self, bus: &mut Bus, opcode: u8) -> (result: Result<CycleCount>)
        requires
            old(self).ready(old(bus), 5),
            old(self).elapsed_cycles == 4,
            !old(self).halt_bug,
            0x20 <= opcode <= 0x2F,
        ensures
            opcode != 0x10 ==> work_kept(
                *old(bus),
                old(self).elapsed_cycles,
                *final(bus),
                final(self).elapsed_cycles,
            ),
            !writes_memory(opcode) && opcode != 0x10 ==> time_kept(
                *old(bus),
                old(self).elapsed_cycles,
                *final(bus),
                final(self).elapsed_cycles,
            ),
            store_facts(*old(bus), *final(bus), old(self).registers, opcode, result, final(self).registers),
            result is Ok ==> !final(self).halt_bug,
            !writes_memory(opcode) ==> final(bus).keeps_stable_reads(old(bus)),
            opcode == 0x0A || opcode == 0x1A || opcode == 0x2A || opcode == 0x3A ==> (old(bus).read_spec(
                accumulator_load_address(opcode, old(self).registers),
            ) matches Ok(value) ==> (accumulator_load(opcode, old(self).registers, value) matches Some((
                registers,
                c,
            )) ==> result == Ok::<u32, EmulatorError>(c) && final(self).registers == registers)),
            opcode < 0x40 && opcode % 8 == 6 && opcode != 0x36 ==> (operand_bytes(*old(bus), old(self).registers.pc, 1)
                matches Some((low, high)) ==> result == Ok::<u32, EmulatorError>(8) && final(self).registers
                == load8_result(old(self).registers, opcode, low)),
            opcode < 0x40 && opcode % 16 == 1 ==> (operand_bytes(*old(bus), old(self).registers.pc, 2)
                matches Some((low, high)) ==> result == Ok::<u32, EmulatorError>(12) && final(self).registers
                == load16_result(old(self).registers, opcode, low, high)),
            is_relative_jump(opcode) ==> (operand_bytes(*old(bus), old(self).registers.pc, 1) matches Some((low, high))
                ==> result == Ok::<u32, EmulatorError>(relative_jump_result(old(self).registers, opcode, low).1)
                && final(self).registers == relative_jump_result(old(self).registers, opcode, low).0),
            final(self).inv(),
            bus_ready(final(bus)),
            result matches Ok(c) ==> c <= MAX_INSTRUCTION_CYCLES && c % 4 == 0 && (final(self).elapsed_cycles <= c
                || (opcode == 0x10 && c == 4 && final(self).elapsed_cycles == 8)),
            register_op(opcode, old(self).registers) matches Some((registers, c)) ==> result == Ok::<u32, EmulatorError>(c)
                && final(self).registers == registers && *final(bus) == *old(bus) && final(self).elapsed_cycles == old(self).elapsed_cycles,
            final(self).interrupt_master_enabled == old(self).interrupt_master_enabled,
            final(self).ime_enable_delay == old(self).ime_enable_delay,
            final(self).mode == old(self).mode || (opcode == 0x10 && final(self).mode == CpuMode::Stopped),
            final(self).elapsed_cycles >= old(self).elapsed_cycles,
    {
        proof {
            Bus::lemma_stable_reads_refl(&*bus);
            if !is_store(opcode) {
                lemma_not_store(opcode);
            }
        }
        match opcode {
            0x20 => {
                proof {
                    lemma_pc_plus_twice(self.registers.pc);
                    lemma_operand_byte(*bus, self.registers.pc);
                }
                self.jump_relative_if(bus, JumpCondition::NotZero)
            },
            0x21 => {
                proof {
                    lemma_pc_plus_twice(self.registers.pc);
                }
                let value = match self.fetch_word(bus) {
                    Ok(w) => w,
                    Err(e) => {
                        return Err(e);
                    },
                };
                self.registers.set_hl(value);
                Ok(12)
            },
            0x22 => {
                let ghost bus0 = *bus;
                let ghost r0 = self.registers;
                let address = self.registers.hl();
                let a = self.registers.a;
                match self.write_byte(bus, address, a) {
                    Ok(()) => {},
                    Err(e) => {
                        proof {
                            lemma_store_written(bus0, *bus, r0, opcode, Err(e), self.registers);
                        }
                        return Err(e);
                    },
                }
                self.registers.set_hl(address.wrapping_add(1));
                proof {
                    lemma_store_written(bus0, *bus, r0, opcode, Ok(8), self.registers);
                }
                Ok(8)
            },
            0x23 => Ok(self.increment_register16(Register16::HL)),
            0x24 => self.increment_register(bus, Register8::H),
            0x25 => self.decrement_register(bus, Register8::H),
            0x26 => {
                let value = match self.fetch_byte(bus) {
                    Ok(b) => b,
                    Err(e) => {
                        return Err(e);
                    },
                };
                self.registers.h = value;
                Ok(8)
            },
            0x27 => {
                self.decimal_adjust_accumulator();
                Ok(4)
            },
            0x28 => {
                proof {
                    lemma_pc_plus_twice(self.registers.pc);
                    lemma_operand_byte(*bus, self.registers.pc);
                }
                self.jump_relative_if(bus, JumpCondition::Zero)
            },
            0x29 => {
                let value = self.registers.hl();
                Ok(self.add_hl(value))
            },
            0x2A => {
                let address = self.registers.hl();
                let value = match self.read_byte(bus, address) {
                    Ok(b) => b,
                    Err(e) => {
                        return Err(e);
                    },
                };
                self.registers.a = value;
                self.registers.set_hl(address.wrapping_add(1));
                Ok(8)
            },
            0x2B => Ok(self.decrement_register16(Register16::HL)),
            0x2C => self.increment_register(bus, Register8::L),
            0x2D => self.decrement_register(bus, Register8::L),
            0x2E => {
                let value = match self.fetch_byte(bus) {
                    Ok(b) => b,
                    Err(e) => {
                        return Err(e);
                    },
                };
                self.registers.l = value;
                Ok(8)
            },
            _ => {
                self.registers.a = !self.registers.a;
                let zero = self.registers.flag(Flag::Zero);
                let carry = self.registers.flag(Flag::Carry);
                self.registers.set_flags(zero, true, true, carry);
                Ok(4)
            },
        }
    }

    /// LD (HL),n: writes the operand byte at HL.
    fn store_operand_at_hl(&mut self, bus: &mut Bus) -> (result: Result<CycleCount>)
        requires
            old(self).ready(old(bus), 5),
            old(self).elapsed_cycles == 4,
            !old(self).halt_bug,
        ensures
            operand_store_facts(*old(bus), *final(bus), old(self).registers, 0x36, result, final(self).registers),
            result is Ok ==> !final(self).halt_bug,
            final(self).inv(),
            bus_ready(final(bus)),
            result matches Ok(c) ==> c == 12 && final(self).elapsed_cycles <= c,
            final(self).keeps_control(old(self)),
            work_kept(*old(bus), old(self).elapsed_cycles, *final(bus), final(self).elapsed_cycles),
    {
        let ghost bus0 = *bus;
        let ghost r0 = self.registers;
        let value = match self.fetch_byte(bus) {
            Ok(b) => b,
            Err(e) => {
                proof {
                    lemma_operand_store_unread(bus0, *bus, r0, 0x36, Err(e), self.registers);
                }
                return Err(e);
            },
        };
        let ghost bus_m = *bus;
        let address = self.registers.hl();
        match self.write_byte(bus, address, value) {
            Ok(()) => {},
            Err(e) => {
                proof {
                    lemma_operand_store_written(bus0, bus_m, *bus, r0, 0x36, Err(e), self.registers, value, 0);
                }
                return Err(e);
            },
        }
        proof {
            lemma_pc_plus_twice(r0.pc);
            lemma_operand_store_written(bus0, bus_m, *bus, r0, 0x36, Ok(12), self.registers, value, 0);
        }
        Ok(12)
    }

    /// INC (HL) and DEC (HL).
    fn update_at_hl(&mut self, bus: &mut Bus, opcode: u8) -> (result: Result<CycleCount>)
        requires
            old(self).ready(old(bus), 5),
            old(self).elapsed_cycles == 4,
            !old(self).halt_bug,
            is_hl_update(opcode),
        ensures
            hl_update_facts(*old(bus), *final(bus), old(self).registers, opcode, result, final(self).registers),
            result is Ok ==> !final(self).halt_bug,
            final(self).inv(),
            bus_ready(final(bus)),
            result matches Ok(c) ==> c == 12 && final(self).elapsed_cycles <= c,
            final(self).keeps_control(old(self)),
            work_kept(*old(bus), old(self).elapsed_cycles, *final(bus), final(self).elapsed_cycles),
    {
        if opcode == 0x34 {
            self.increment_register(bus, Register8::AddressHl)
        } else {
            self.decrement_register(bus, Register8::AddressHl)
        }
    }

    /// Opcodes 0x30..=0x37.
    #[verifier::rlimit(100)]
    #[verifier::spinoff_prover]
    fn execute_row_30(&mut self, bus: &mut Bus, opcode: u8) -> (result: Result<CycleCount>)
        requires
            old(self).ready(old(bus), 5),
            old(self).elapsed_cycles == 4,
            !old(self).halt_bug,
            0x30 <= opcode <= 0x37,
            !is_hl_update(opcode),
        ensures
            opcode != 0x10 ==> work_kept(
                *old(bus),
                old(self).elapsed_cycles,
                *final(bus),
                final(self).elapsed_cycles,
            ),
            !writes_memory(opcode) && opcode != 0x10 ==> time_kept(
                *old(bus),
                old(self).elapsed_cycles,
                *final(bus),
                final(self).elapsed_cycles,
            ),
            operand_store_facts(*old(bus), *final(bus), old(self).registers, opcode, result, final(self).registers),
            store_facts(*old(bus), *final(bus), old(self).registers, opcode, result, final(self).registers),
            result is Ok ==> !final(self).halt_bug,
            !writes_memory(opcode) ==> final(bus).keeps_stable_reads(old(bus)),
            opcode == 0x0A || opcode == 0x1A || opcode == 0x2A || opcode == 0x3A ==> (old(bus).read_spec(
                accumulator_load_address(opcode, old(self).registers),
            ) matches Ok(value) ==> (accumulator_load(opcode, old(self).registers, value) matches Some((
                registers,
                c,
            )) ==> result == Ok::<u32, EmulatorError>(c) && final(self).registers == registers)),
            opcode < 0x40 && opcode % 8 == 6 && opcode != 0x36 ==> (operand_bytes(*old(bus), old(self).registers.pc, 1)
                matches Some((low, high)) ==> result == Ok::<u32, EmulatorError>(8) && final(self).registers
                == load8_result(old(self).registers, opcode, low)),
            opcode < 0x40 && opcode % 16 == 1 ==> (operand_bytes(*old(bus), old(self).registers.pc, 2)
                matches Some((low, high)) ==> result == Ok::<u32, EmulatorError>(12) && final(self).registers
                == load16_result(old(self).registers, opcode, low, high)),
            is_relative_jump(opcode) ==> (operand_bytes(*old(bus), old(self).registers.pc, 1) matches Some((low, high))
                ==> result == Ok::<u32, EmulatorError>(relative_jump_result(old(self).registers, opcode, low).1)
                && final(self).registers == relative_jump_result(old(self).registers, opcode, low).0),
            final(self).inv(),
            bus_ready(final(bus)),
            result matches Ok(c) ==> c <= MAX_INSTRUCTION_CYCLES && c % 4 == 0 && (final(self).elapsed_cycles <= c
                || (opcode == 0x10 && c == 4 && final(self).elapsed_cycles == 8)),
            register_op(opcode, old(self).registers) matches Some((registers, c)) ==> result == Ok::<u32, EmulatorError>(c)
                && final(self).registers == registers && *final(bus) == *old(bus) && final(self).elapsed_cycles == old(self).elapsed_cycles,
            final(self).interrupt_master_enabled == old(self).interrupt_master_enabled,
            final(self).ime_enable_delay == old(self).ime_enable_delay,
            final(self).mode == old(self).mode || (opcode == 0x10 && final(self).mode == CpuMode::Stopped),
            final(self).elapsed_cycles >= old(self).elapsed_cycles,
    {
        proof {
            Bus::lemma_stable_reads_refl(&*bus);
            if !is_operand_store(opcode) {
                lemma_not_operand_store(opcode);
            }
            if !is_store(opcode) {
                lemma_not_store(opcode);
            }
        }
        match opcode {
            0x30 => {
                proof {
                    lemma_pc_plus_twice(self.registers.pc);
                    lemma_operand_byte(*bus, self.registers.pc);
                }
                self.jump_relative_if(bus, JumpCondition::NotCarry)
            },
            0x31 => {
                proof {
                    lemma_pc_plus_twice(self.registers.pc);
                }
                let value = match self.fetch_word(bus) {
                    Ok(w) => w,
                    Err(e) => {
                        return Err(e);
                    },
                };
                self.registers.sp = value;
                Ok(12)
            },
            0x32 => {
                let ghost bus0 = *bus;
                let ghost r0 = self.registers;
                let address = self.registers.hl();
                let a = self.registers.a;
                match self.write_byte(bus, address, a) {
                    Ok(()) => {},
                    Err(e) => {
                        proof {
                            lemma_store_written(bus0, *bus, r0, opcode, Err(e), self.registers);
                        }
                        return Err(e);
                    },
                }
                self.registers.set_hl(address.wrapping_sub(1));
                proof {
                    lemma_store_written(bus0, *bus, r0, opcode, Ok(8), self.registers);
                }
                Ok(8)
            },
            0x33 => Ok(self.increment_register16(Register16::SP)),
            0x36 => self.store_operand_at_hl(bus),
            _ => {
                let zero = self.registers.flag(Flag::Zero);
                self.registers.set_flags(zero, false, false, true);
                Ok(4)
            },
        }
    }

    /// Opcodes 0x38..=0x3F.
    #[verifier::rlimit(100)]
    #[verifier::spinoff_prover]
    fn execute_row_38(&mut self, bus: &mut Bus, opcode: u8) -> (result: Result<CycleCount>)
        requires
            old(self).ready(old(bus), 5),
            old(self).elapsed_cycles == 4,
            !old(self).halt_bug,
            0x38 <= opcode <= 0x3F,
            !is_hl_update(opcode),
        ensures
            opcode != 0x10 ==> work_kept(
                *old(bus),
                old(self).elapsed_cycles,
                *final(bus),
                final(self).elapsed_cycles,
            ),
            !writes_memory(opcode) && opcode != 0x10 ==> time_kept(
                *old(bus),
                old(self).elapsed_cycles,
                *final(bus),
                final(self).elapsed_cycles,
            ),
            operand_store_facts(*old(bus), *final(bus), old(self).registers, opcode, result, final(self).registers),
            store_facts(*old(bus), *final(bus), old(self).registers, opcode, result, final(self).registers),
            result is Ok ==> !final(self).halt_bug,
            !writes_memory(opcode) ==> final(bus).keeps_stable_reads(old(bus)),
            opcode == 0x0A || opcode == 0x1A || opcode == 0x2A || opcode == 0x3A ==> (old(bus).read_spec(
                accumulator_load_address(opcode, old(self).registers),
            ) matches Ok(value) ==> (accumulator_load(opcode, old(self).registers, value) matches Some((
                registers,
                c,
            )) ==> result == Ok::<u32, EmulatorError>(c) && final(self).registers == registers)),
            opcode < 0x40 && opcode % 8 == 6 && opcode != 0x36 ==> (operand_bytes(*old(bus), old(self).registers.pc, 1)
                matches Some((low, high)) ==> result == Ok::<u32, EmulatorError>(8) && final(self).registers
                == load8_result(old(self).registers, opcode, low)),
            opcode < 0x40 && opcode % 16 == 1 ==> (operand_bytes(*old(bus), old(self).registers.pc, 2)
                matches Some((low, high)) ==> result == Ok::<u32, EmulatorError>(12) && final(self).registers
                == load16_result(old(self).registers, opcode, low, high)),
            is_relative_jump(opcode) ==> (operand_bytes(*old(bus), old(self).registers.pc, 1) matches Some((low, high))
                ==> result == Ok::<u32, EmulatorError>(relative_jump_result(old(self).registers, opcode, low).1)
                && final(self).registers == relative_jump_result(old(self).registers, opcode, low).0),
            final(self).inv(),
            bus_ready(final(bus)),
            result matches Ok(c) ==> c <= MAX_INSTRUCTION_CYCLES && c % 4 == 0 && (final(self).elapsed_cycles <= c
                || (opcode == 0x10 && c == 4 && final(self).elapsed_cycles == 8)),
            register_op(opcode, old(self).registers) matches Some((registers, c)) ==> result == Ok::<u32, EmulatorError>(c)
                && final(self).registers == registers && *final(bus) == *old(bus) && final(self).elapsed_cycles == old(self).elapsed_cycles,
            final(self).interrupt_master_enabled == old(self).interrupt_master_enabled,
            final(self).ime_enable_delay == old(self).ime_enable_delay,
            final(self).mode == old(self).mode || (opcode == 0x10 && final(self).mode == CpuMode::Stopped),
            final(self).elapsed_cycles >= old(self).elapsed_cycles,
    {
        proof {
            Bus::lemma_stable_reads_refl(&*bus);
            if !is_operand_store(opcode) {
                lemma_not_operand_store(opcode);
            }
            if !is_store(opcode) {
                lemma_not_store(opcode);
            }
        }
        match opcode {
            0x38 => {
                proof {
                    lemma_pc_plus_twice(self.registers.pc);
                    lemma_operand_byte(*bus, self.registers.pc);
                }
                self.jump_relative_if(bus, JumpCondition::Carry)
            },
            0x39 => {
                let value = self.registers.sp;
                Ok(self.add_hl(value))
            },
            0x3A => {
                let address = self.registers.hl();
                proof {
                    lemma_word_down(address);
                }
                let value = match self.read_byte(bus, address) {
                    Ok(b) => b,
                    Err(e) => {
                        return Err(e);
                    },
                };
                self.registers.a = value;
                self.registers.set_hl(address.wrapping_sub(1));
                Ok(8)
            },
            0x3B => Ok(self.decrement_register16(Register16::SP)),
            0x3C => self.increment_register(bus, Register8::A),
            0x3D => self.decrement_register(bus, Register8::A),
            0x3E => {
                let value = match self.fetch_byte(bus) {
                    Ok(b) => b,
                    Err(e) => {
                        return Err(e);
                    },
                };
                self.registers.a = value;
                Ok(8)
            },
            _ => {
                let zero = self.registers.flag(Flag::Zero);
                let carry = self.registers.flag(Flag::Carry);
                self.registers.set_flags(zero, false, false, !carry);
                Ok(4)
            },
        }
    }
}


/// A byte read as a two's-complement signed number.
fn signed_byte(byte: u8) -> (offset: i8)
    ensures
        offset == (if byte >= 128 { byte - 256 } else { byte as int }),
{
    if byte >= 128 {
        (byte as i16 - 256) as i8
    } else {
        byte as i8
    }
}

impl Cpu {
    /// Opcodes 0xC0..=0xC7.
    #[verifier::rlimit(100)]
    #[verifier::spinoff_prover]
    fn execute_row_c0(&mut self, bus: &mut Bus, opcode: u8, pc: u16) -> (result: Result<CycleCount>)
        requires
            old(self).ready(old(bus), 5),
            old(self).elapsed_cycles == 4,
            !old(self).halt_bug,
            0xC0 <= opcode <= 0xC7,
        ensures
            opcode != 0x10 ==> work_kept(
                *old(bus),
                old(self).elapsed_cycles,
                *final(bus),
                final(self).elapsed_cycles,
            ),
            !writes_memory(opcode) && opcode != 0x10 ==> time_kept(
                *old(bus),
                old(self).elapsed_cycles,
                *final(bus),
                final(self).elapsed_cycles,
            ),
            result is Ok ==> !final(self).halt_bug,
            is_push(opcode) || is_restart(opcode) || is_call(opcode) ==> push_facts(
                *old(bus),
                *final(bus),
                old(self).registers,
                opcode,
                result,
                final(self).registers,
            ),
            !writes_memory(opcode) ==> final(bus).keeps_stable_reads(old(bus)),
            is_stack_read(opcode) ==> (stack_word(*old(bus), old(self).registers.sp) matches Some(w) ==> (
            stack_read_op(opcode, old(self).registers, w) matches Some((registers, c)) ==> result == Ok::<
                u32,
                EmulatorError,
            >(c) && final(self).registers == registers)),
            opcode == 0xCB ==> (operand_bytes(*old(bus), old(self).registers.pc, 1) matches Some((low, high))
                ==> (cb_op_result(old(self).registers, low) matches Some((registers, c)) ==> result == Ok::<
                u32,
                EmulatorError,
            >(c) && final(self).registers == registers)),
            opcode % 8 == 6 ==> (operand_bytes(*old(bus), old(self).registers.pc, 1) matches Some((low, high))
                ==> result == Ok::<u32, EmulatorError>(8) && final(self).registers == alu8_result(
                old(self).registers, opcode, low)),
            is_absolute_jump(opcode) ==> (operand_bytes(*old(bus), old(self).registers.pc, 2) matches Some((low, high))
                ==> result == Ok::<u32, EmulatorError>(absolute_jump_result(old(self).registers, opcode, low, high).1)
                && final(self).registers == absolute_jump_result(old(self).registers, opcode, low, high).0),
            final(self).inv(),
            bus_ready(final(bus)),
            result matches Ok(c) ==> c <= MAX_INSTRUCTION_CYCLES && c % 4 == 0 && final(self).elapsed_cycles <= c,
            register_op(opcode, old(self).registers) matches Some((registers, c)) ==> result == Ok::<u32, EmulatorError>(c)
                && final(self).registers == registers && *final(bus) == *old(bus) && final(self).elapsed_cycles == old(self).elapsed_cycles,
            is_unimplemented(opcode) ==> result == Err::<u32, EmulatorError>(EmulatorError::UnimplementedOpcode { opcode, pc }),
            final(self).mode == old(self).mode,
            opcode != 0xD9 && opcode != 0xF3 && opcode != 0xFB ==> final(self).keeps_control(old(self)),
            opcode == 0xD9 ==> (if result is Ok {
                final(self).interrupt_master_enabled && final(self).ime_enable_delay is None
            } else {
                final(self).keeps_control(old(self))
            }),
            opcode == 0xF3 ==> !final(self).interrupt_master_enabled && final(self).ime_enable_delay is None,
            opcode == 0xFB ==> final(self).interrupt_master_enabled == old(self).interrupt_master_enabled
                && final(self).ime_enable_delay == Some(2u8) && result == Ok::<u32, EmulatorError>(4),
            final(self).elapsed_cycles >= old(self).elapsed_cycles,
    {
        proof {
            Bus::lemma_stable_reads_refl(&*bus);
        }
        match opcode {
            0xC0 => {
                proof {
                    reveal(stack_read_op);
                }
                self.return_if(bus, JumpCondition::NotZero)
            },
            0xC1 => {
                proof {
                    reveal(stack_read_op);
                }
                let value = match self.pop_stack(bus) {
                    Ok(w) => w,
                    Err(e) => {
                        return Err(e);
                    },
                };
                self.registers.set_bc(value);
                Ok(12)
            },
            0xC2 => {
                proof {
                    lemma_pc_plus_twice(self.registers.pc);
                }
                self.jump_absolute_if(bus, JumpCondition::NotZero)
            },
            0xC3 => {
                proof {
                    lemma_pc_plus_twice(self.registers.pc);
                }
                let value = match self.fetch_word(bus) {
                    Ok(w) => w,
                    Err(e) => {
                        return Err(e);
                    },
                };
                self.registers.pc = value;
                Ok(16)
            },
            0xC4 => {
                proof {
                    reveal(push_facts);
                }
                self.call_if(bus, JumpCondition::NotZero)
            },
            0xC5 => {
                proof {
                    reveal(push_facts);
                }
                let value = self.registers.bc();
                match self.push_stack(bus, value) {
                    Ok(()) => {},
                    Err(e) => {
                        return Err(e);
                    },
                }
                Ok(16)
            },
            0xC6 => {
                let value = match self.fetch_byte(bus) {
                    Ok(b) => b,
                    Err(e) => {
                        return Err(e);
                    },
                };
                self.execute_alu(AluOperation::Add, value);
                Ok(8)
            },
            _ => {
                proof {
                    reveal(push_facts);
                }
                match self.restart(bus, 0x00) {
                    Ok(()) => {},
                    Err(e) => {
                        return Err(e);
                    },
                }
                Ok(16)
            },
        }
    }

    /// Opcodes 0xC8..=0xCF.
    #[verifier::rlimit(100)]
    #[verifier::spinoff_prover]
    fn execute_row_c8(&mut self, bus: &mut Bus, opcode: u8, pc: u16) -> (result: Result<CycleCount>)
        requires
            old(self).ready(old(bus), 5),
            old(self).elapsed_cycles == 4,
            !old(self).halt_bug,
            0xC8 <= opcode <= 0xCF,
        ensures
            opcode != 0x10 ==> work_kept(
                *old(bus),
                old(self).elapsed_cycles,
                *final(bus),
                final(self).elapsed_cycles,
            ),
            !writes_memory(opcode) && opcode != 0x10 ==> time_kept(
                *old(bus),
                old(self).elapsed_cycles,
                *final(bus),
                final(self).elapsed_cycles,
            ),
            result is Ok ==> !final(self).halt_bug,
            is_push(opcode) || is_restart(opcode) || is_call(opcode) ==> push_facts(
                *old(bus),
                *final(bus),
                old(self).registers,
                opcode,
                result,
                final(self).registers,
            ),
            !writes_memory(opcode) ==> final(bus).keeps_stable_reads(old(bus)),
            is_stack_read(opcode) ==> (stack_word(*old(bus), old(self).registers.sp) matches Some(w) ==> (
            stack_read_op(opcode, old(self).registers, w) matches Some((registers, c)) ==> result == Ok::<
                u32,
                EmulatorError,
            >(c) && final(self).registers == registers)),
            opcode == 0xCB ==> (operand_bytes(*old(bus), old(self).registers.pc, 1) matches Some((low, high))
                ==> (cb_op_result(old(self).registers, low) matches Some((registers, c)) ==> result == Ok::<
                u32,
                EmulatorError,
            >(c) && final(self).registers == registers)),
            opcode % 8 == 6 ==> (operand_bytes(*old(bus), old(self).registers.pc, 1) matches Some((low, high))
                ==> result == Ok::<u32, EmulatorError>(8) && final(self).registers == alu8_result(
                old(self).registers, opcode, low)),
            is_absolute_jump(opcode) ==> (operand_bytes(*old(bus), old(self).registers.pc, 2) matches Some((low, high))
                ==> result == Ok::<u32, EmulatorError>(absolute_jump_result(old(self).registers, opcode, low, high).1)
                && final(self).registers == absolute_jump_result(old(self).registers, opcode, low, high).0),
            final(self).inv(),
            bus_ready(final(bus)),
            result matches Ok(c) ==> c <= MAX_INSTRUCTION_CYCLES && c % 4 == 0 && final(self).elapsed_cycles <= c,
            register_op(opcode, old(self).registers) matches Some((registers, c)) ==> result == Ok::<u32, EmulatorError>(c)
                && final(self).registers == registers && *final(bus) == *old(bus) && final(self).elapsed_cycles == old(self).elapsed_cycles,
            is_unimplemented(opcode) ==> result == Err::<u32, EmulatorError>(EmulatorError::UnimplementedOpcode { opcode, pc }),
            final(self).mode == old(self).mode,
            opcode != 0xD9 && opcode != 0xF3 && opcode != 0xFB ==> final(self).keeps_control(old(self)),
            opcode == 0xD9 ==> (if result is Ok {
                final(self).interrupt_master_enabled && final(self).ime_enable_delay is None
            } else {
                final(self).keeps_control(old(self))
            }),
            opcode == 0xF3 ==> !final(self).interrupt_master_enabled && final(self).ime_enable_delay is None,
            opcode == 0xFB ==> final(self).interrupt_master_enabled == old(self).interrupt_master_enabled
                && final(self).ime_enable_delay == Some(2u8) && result == Ok::<u32, EmulatorError>(4),
            final(self).elapsed_cycles >= old(self).elapsed_cycles,
    {
        proof {
            Bus::lemma_stable_reads_refl(&*bus);
        }
        match opcode {
            0xC8 => {
                proof {
                    reveal(stack_read_op);
                }
                self.return_if(bus, JumpCondition::Zero)
            },
            0xC9 => {
                proof {
                    reveal(stack_read_op);
                }
                let value = match self.pop_stack(bus) {
                    Ok(w) => w,
                    Err(e) => {
                        return Err(e);
                    },
                };
                self.registers.pc = value;
                Ok(16)
            },
            0xCA => {
                proof {
                    lemma_pc_plus_twice(self.registers.pc);
                }
                self.jump_absolute_if(bus, JumpCondition::Zero)
            },
            0xCB => {
                proof {
                    lemma_pc_plus_twice(self.registers.pc);
                    lemma_operand_byte(*bus, self.registers.pc);
                }
                self.execute_cb_prefixed(bus)
            },
            0xCC => {
                proof {
                    reveal(push_facts);
                }
                self.call_if(bus, JumpCondition::Zero)
            },
            0xCD => {
                proof {
                    reveal(push_facts);
                    reveal(call_facts);
                    lemma_pc_plus_twice(self.registers.pc);
                }
                let address = match self.fetch_word(bus) {
                    Ok(w) => w,
                    Err(e) => {
                        return Err(e);
                    },
                };
                let pc = self.registers.pc;
                let ghost b1 = *bus;
                proof {
                    if !old(bus).spec_dma().active {
                        lemma_stable_reads_dma(*old(bus), b1);
                    }
                }
                match self.push_stack(bus, pc) {
                    Ok(()) => {},
                    Err(e) => {
                        proof {
                            lemma_pushes_word_kept(*old(bus), b1, *bus, old(self).registers.sp, pc);
                        }
                        return Err(e);
                    },
                }
                proof {
                    lemma_pushes_word_kept(*old(bus), b1, *bus, old(self).registers.sp, pc);
                }
                self.registers.pc = address;
                Ok(24)
            },
            0xCE => {
                let value = match self.fetch_byte(bus) {
                    Ok(b) => b,
                    Err(e) => {
                        return Err(e);
                    },
                };
                self.execute_alu(AluOperation::Adc, value);
                Ok(8)
            },
            _ => {
                proof {
                    reveal(push_facts);
                }
                match self.restart(bus, 0x08) {
                    Ok(()) => {},
                    Err(e) => {
                        return Err(e);
                    },
                }
                Ok(16)
            },
        }
    }

    /// Opcodes 0xD0..=0xDF.
    #[verifier::rlimit(80)]
    #[verifier::spinoff_prover]
    fn execute_row_d0(&mut self, bus: &mut Bus, opcode: u8, pc: u16) -> (result: Result<CycleCount>)
        requires
            old(self).ready(old(bus), 5),
            old(self).elapsed_cycles == 4,
            !old(self).halt_bug,
            0xD0 <= opcode <= 0xDF,
        ensures
            opcode != 0x10 ==> work_kept(
                *old(bus),
                old(self).elapsed_cycles,
                *final(bus),
                final(self).elapsed_cycles,
            ),
            !writes_memory(opcode) && opcode != 0x10 ==> time_kept(
                *old(bus),
                old(self).elapsed_cycles,
                *final(bus),
                final(self).elapsed_cycles,
            ),
            result is Ok ==> !final(self).halt_bug,
            is_unimplemented(opcode) ==> final(self).registers == old(self).registers && *final(bus) == *old(bus),
            is_push(opcode) || is_restart(opcode) || is_call(opcode) ==> push_facts(
                *old(bus),
                *final(bus),
                old(self).registers,
                opcode,
                result,
                final(self).registers,
            ),
            !writes_memory(opcode) ==> final(bus).keeps_stable_reads(old(bus)),
            is_stack_read(opcode) ==> (stack_word(*old(bus), old(self).registers.sp) matches Some(w) ==> (
            stack_read_op(opcode, old(self).registers, w) matches Some((registers, c)) ==> result == Ok::<
                u32,
                EmulatorError,
            >(c) && final(self).registers == registers)),
            opcode % 8 == 6 ==> (operand_bytes(*old(bus), old(self).registers.pc, 1) matches Some((low, high))
                ==> result == Ok::<u32, EmulatorError>(8) && final(self).registers == alu8_result(
                old(self).registers, opcode, low)),
            is_absolute_jump(opcode) ==> (operand_bytes(*old(bus), old(self).registers.pc, 2) matches Some((low, high))
                ==> result == Ok::<u32, EmulatorError>(absolute_jump_result(old(self).registers, opcode, low, high).1)
                && final(self).registers == absolute_jump_result(old(self).registers, opcode, low, high).0),
            final(self).inv(),
            bus_ready(final(bus)),
            result matches Ok(c) ==> c <= MAX_INSTRUCTION_CYCLES && c % 4 == 0 && final(self).elapsed_cycles <= c,
            register_op(opcode, old(self).registers) matches Some((registers, c)) ==> result == Ok::<u32, EmulatorError>(c)
                && final(self).registers == registers && *final(bus) == *old(bus) && final(self).elapsed_cycles == old(self).elapsed_cycles,
            is_unimplemented(opcode) ==> result == Err::<u32, EmulatorError>(EmulatorError::UnimplementedOpcode { opcode, pc }),
            final(self).mode == old(self).mode,
            opcode != 0xD9 && opcode != 0xF3 && opcode != 0xFB ==> final(self).keeps_control(old(self)),
            opcode == 0xD9 ==> (if result is Ok {
                final(self).interrupt_master_enabled && final(self).ime_enable_delay is None
            } else {
                final(self).keeps_control(old(self))
            }),
            opcode == 0xF3 ==> !final(self).interrupt_master_enabled && final(self).ime_enable_delay is None,
            opcode == 0xFB ==> final(self).interrupt_master_enabled == old(self).interrupt_master_enabled
                && final(self).ime_enable_delay == Some(2u8) && result == Ok::<u32, EmulatorError>(4),
            final(self).elapsed_cycles >= old(self).elapsed_cycles,
    {
        proof {
            Bus::lemma_stable_reads_refl(&*bus);
        }
        match opcode {
            0xD0 => {
                proof {
                    reveal(stack_read_op);
                }
                self.return_if(bus, JumpCondition::NotCarry)
            },
            0xD1 => {
                proof {
                    reveal(stack_read_op);
                }
                let value = match self.pop_stack(bus) {
                    Ok(w) => w,
                    Err(e) => {
                        return Err(e);
                    },
                };
                self.registers.set_de(value);
                Ok(12)
            },
            0xD2 => {
                proof {
                    lemma_pc_plus_twice(self.registers.pc);
                }
                self.jump_absolute_if(bus, JumpCondition::NotCarry)
            },
            0xD3 => Err(EmulatorError::UnimplementedOpcode { opcode, pc }),
            0xD4 => {
                proof {
                    reveal(push_facts);
                }
                self.call_if(bus, JumpCondition::NotCarry)
            },
            0xD5 => {
                proof {
                    reveal(push_facts);
                }
                let value = self.registers.de();
                match self.push_stack(bus, value) {
                    Ok(()) => {},
                    Err(e) => {
                        return Err(e);
                    },
                }
                Ok(16)
            },
            0xD6 => {
                let value = match self.fetch_byte(bus) {
                    Ok(b) => b,
                    Err(e) => {
                        return Err(e);
                    },
                };
                self.execute_alu(AluOperation::Sub, value);
                Ok(8)
            },
            0xD7 => {
                proof {
                    reveal(push_facts);
                }
                match self.restart(bus, 0x10) {
                    Ok(()) => {},
                    Err(e) => {
                        return Err(e);
                    },
                }
                Ok(16)
            },
            0xD8 => {
                proof {
                    reveal(stack_read_op);
                }
                self.return_if(bus, JumpCondition::Carry)
            },
            0xD9 => {
                proof {
                    reveal(stack_read_op);
                }
                let value = match self.pop_stack(bus) {
                    Ok(w) => w,
                    Err(e) => {
                        return Err(e);
                    },
                };
                self.registers.pc = value;
                self.interrupt_master_enabled = true;
                self.ime_enable_delay = None;
                Ok(16)
            },
            0xDA => {
                proof {
                    lemma_pc_plus_twice(self.registers.pc);
                }
                self.jump_absolute_if(bus, JumpCondition::Carry)
            },
            0xDB => Err(EmulatorError::UnimplementedOpcode { opcode, pc }),
            0xDC => {
                proof {
                    reveal(push_facts);
                }
                self.call_if(bus, JumpCondition::Carry)
            },
            0xDD => Err(EmulatorError::UnimplementedOpcode { opcode, pc }),
            0xDE => {
                let value = match self.fetch_byte(bus) {
                    Ok(b) => b,
                    Err(e) => {
                        return Err(e);
                    },
                };
                self.execute_alu(AluOperation::Sbc, value);
                Ok(8)
            },
            _ => {
                proof {
                    reveal(push_facts);
                }
                match self.restart(bus, 0x18) {
                    Ok(()) => {},
                    Err(e) => {
                        return Err(e);
                    },
                }
                Ok(16)
            },
        }
    }

    /// Opcodes 0xE0..=0xEF.
    #[verifier::rlimit(100)]
    #[verifier::spinoff_prover]
    fn execute_row_e0(&mut self, bus: &mut Bus, opcode: u8, pc: u16) -> (result: Result<CycleCount>)
        requires
            old(self).ready(old(bus), 5),
            old(self).elapsed_cycles == 4,
            !old(self).halt_bug,
            0xE0 <= opcode <= 0xEF,
        ensures
            opcode != 0x10 ==> work_kept(
                *old(bus),
                old(self).elapsed_cycles,
                *final(bus),
                final(self).elapsed_cycles,
            ),
            !writes_memory(opcode) && opcode != 0x10 ==> time_kept(
                *old(bus),
                old(self).elapsed_cycles,
                *final(bus),
                final(self).elapsed_cycles,
            ),
            operand_store_facts(*old(bus), *final(bus), old(self).registers, opcode, result, final(self).registers),
            store_facts(*old(bus), *final(bus), old(self).registers, opcode, result, final(self).registers),
            result is Ok ==> !final(self).halt_bug,
            is_unimplemented(opcode) ==> final(self).registers == old(self).registers && *final(bus) == *old(bus),
            is_push(opcode) || is_restart(opcode) || is_call(opcode) ==> push_facts(
                *old(bus),
                *final(bus),
                old(self).registers,
                opcode,
                result,
                final(self).registers,
            ),
            !writes_memory(opcode) ==> final(bus).keeps_stable_reads(old(bus)),
            is_stack_read(opcode) ==> (stack_word(*old(bus), old(self).registers.sp) matches Some(w) ==> (
            stack_read_op(opcode, old(self).registers, w) matches Some((registers, c)) ==> result == Ok::<
                u32,
                EmulatorError,
            >(c) && final(self).registers == registers)),
            opcode % 8 == 6 ==> (operand_bytes(*old(bus), old(self).registers.pc, 1) matches Some((low, high))
                ==> result == Ok::<u32, EmulatorError>(8) && final(self).registers == alu8_result(
                old(self).registers, opcode, low)),
            (opcode == 0xE8 || opcode == 0xF8) ==> (operand_bytes(*old(bus), old(self).registers.pc, 1) matches Some((low, high))
                ==> result == Ok::<u32, EmulatorError>(sp_offset_op_result(old(self).registers, opcode, low).1)
                && final(self).registers == sp_offset_op_result(old(self).registers, opcode, low).0),
            final(self).inv(),
            bus_ready(final(bus)),
            result matches Ok(c) ==> c <= MAX_INSTRUCTION_CYCLES && c % 4 == 0 && final(self).elapsed_cycles <= c,
            register_op(opcode, old(self).registers) matches Some((registers, c)) ==> result == Ok::<u32, EmulatorError>(c)
                && final(self).registers == registers && *final(bus) == *old(bus) && final(self).elapsed_cycles == old(self).elapsed_cycles,
            is_unimplemented(opcode) ==> result == Err::<u32, EmulatorError>(EmulatorError::UnimplementedOpcode { opcode, pc }),
            final(self).mode == old(self).mode,
            opcode != 0xD9 && opcode != 0xF3 && opcode != 0xFB ==> final(self).keeps_control(old(self)),
            opcode == 0xD9 ==> (if result is Ok {
                final(self).interrupt_master_enabled && final(self).ime_enable_delay is None
            } else {
                final(self).keeps_control(old(self))
            }),
            opcode == 0xF3 ==> !final(self).interrupt_master_enabled && final(self).ime_enable_delay is None,
            opcode == 0xFB ==> final(self).interrupt_master_enabled == old(self).interrupt_master_enabled
                && final(self).ime_enable_delay == Some(2u8) && result == Ok::<u32, EmulatorError>(4),
            final(self).elapsed_cycles >= old(self).elapsed_cycles,
    {
        proof {
            Bus::lemma_stable_reads_refl(&*bus);
            if !is_operand_store(opcode) {
                lemma_not_operand_store(opcode);
            }
            if !is_store(opcode) {
                lemma_not_store(opcode);
            }
        }
        match opcode {
            0xE0 => {
                let ghost bus0 = *bus;
                let ghost r0 = self.registers;
                let offset = match self.fetch_byte(bus) {
                    Ok(b) => b,
                    Err(e) => {
                        proof {
                            lemma_operand_store_unread(bus0, *bus, r0, opcode, Err(e), self.registers);
                        }
                        return Err(e);
                    },
                };
                let ghost bus_m = *bus;
                let a = self.registers.a;
                match self.write_byte(bus, 0xFF00 + offset as u16, a) {
                    Ok(()) => {},
                    Err(e) => {
                        proof {
                            lemma_operand_store_written(bus0, bus_m, *bus, r0, opcode, Err(e), self.registers, offset, 0);
                        }
                        return Err(e);
                    },
                }
                proof {
                    lemma_pc_plus_twice(r0.pc);
                    lemma_operand_store_written(bus0, bus_m, *bus, r0, opcode, Ok(12), self.registers, offset, 0);
                }
                Ok(12)
            },
            0xE1 => {
                proof {
                    reveal(stack_read_op);
                }
                let value = match self.pop_stack(bus) {
                    Ok(w) => w,
                    Err(e) => {
                        return Err(e);
                    },
                };
                self.registers.set_hl(value);
                Ok(12)
            },
            0xE2 => {
                let ghost bus0 = *bus;
                let ghost r0 = self.registers;
                let address = 0xFF00 + self.registers.c as u16;
                let a = self.registers.a;
                match self.write_byte(bus, address, a) {
                    Ok(()) => {},
                    Err(e) => {
                        proof {
                            lemma_store_written(bus0, *bus, r0, opcode, Err(e), self.registers);
                        }
                        return Err(e);
                    },
                }
                proof {
                    lemma_store_written(bus0, *bus, r0, opcode, Ok(8), self.registers);
                }
                Ok(8)
            },
            0xE3 => Err(EmulatorError::UnimplementedOpcode { opcode, pc }),
            0xE4 => Err(EmulatorError::UnimplementedOpcode { opcode, pc }),
            0xE5 => {
                proof {
                    reveal(push_facts);
                }
                let value = self.registers.hl();
                match self.push_stack(bus, value) {
                    Ok(()) => {},
                    Err(e) => {
                        return Err(e);
                    },
                }
                Ok(16)
            },
            0xE6 => {
                let value = match self.fetch_byte(bus) {
                    Ok(b) => b,
                    Err(e) => {
                        return Err(e);
                    },
                };
                self.execute_alu(AluOperation::And, value);
                Ok(8)
            },
            0xE7 => {
                proof {
                    reveal(push_facts);
                }
                match self.restart(bus, 0x20) {
                    Ok(()) => {},
                    Err(e) => {
                        return Err(e);
                    },
                }
                Ok(16)
            },
            0xE8 => {
                let byte = match self.fetch_byte(bus) {
                    Ok(b) => b,
                    Err(e) => {
                        return Err(e);
                    },
                };
                self.add_signed_offset_to_sp(signed_byte(byte));
                Ok(16)
            },
            0xE9 => {
                self.registers.pc = self.registers.hl();
                Ok(4)
            },
            0xEA => {
                let ghost bus0 = *bus;
                let ghost r0 = self.registers;
                let address = match self.fetch_word(bus) {
                    Ok(w) => w,
                    Err(e) => {
                        proof {
                            lemma_operand_store_unread(bus0, *bus, r0, opcode, Err(e), self.registers);
                        }
                        return Err(e);
                    },
                };
                let ghost bus_m = *bus;
                let a = self.registers.a;
                let written = self.write_byte(bus, address, a);
                let result: Result<CycleCount> = match written {
                    Ok(()) => Ok(16),
                    Err(e) => Err(e),
                };
                proof {
                    lemma_pc_plus_twice(r0.pc);
                    match operand_bytes(bus0, r0.pc, 2) {
                        Some((low, high)) => {
                            lemma_operand_store_written(bus0, bus_m, *bus, r0, opcode, result, self.registers, low, high);
                        },
                        None => {
                            lemma_operand_store_unread(bus0, *bus, r0, opcode, result, self.registers);
                        },
                    }
                }
                result
            },
            0xEB => Err(EmulatorError::UnimplementedOpcode { opcode, pc }),
            0xEC => Err(EmulatorError::UnimplementedOpcode { opcode, pc }),
            0xED => Err(EmulatorError::UnimplementedOpcode { opcode, pc }),
            0xEE => {
                let value = match self.fetch_byte(bus) {
                    Ok(b) => b,
                    Err(e) => {
                        return Err(e);
                    },
                };
                self.execute_alu(AluOperation::Xor, value);
                Ok(8)
            },
            _ => {
                proof {
                    reveal(push_facts);
                }
                match self.restart(bus, 0x28) {
                    Ok(()) => {},
                    Err(e) => {
                        return Err(e);
                    },
                }
                Ok(16)
            },
        }
    }

    /// Opcodes 0xF0..=0xFF.
    #[verifier::rlimit(80)]
    #[verifier::spinoff_prover]
    fn execute_row_f0(&mut self, bus: &mut Bus, opcode: u8, pc: u16) -> (result: Result<CycleCount>)
        requires
            old(self).ready(old(bus), 5),
            old(self).elapsed_cycles == 4,
            !old(self).halt_bug,
            0xF0 <= opcode <= 0xFF,
        ensures
            opcode == 0xF3 || opcode == 0xFB ==> result == Ok::<u32, EmulatorError>(4) && final(self).registers
                == old(self).registers && *final(bus) == *old(bus) && final(self).elapsed_cycles == old(self).elapsed_cycles,
            opcode != 0x10 ==> work_kept(
                *old(bus),
                old(self).elapsed_cycles,
                *final(bus),
                final(self).elapsed_cycles,
            ),
            !writes_memory(opcode) && opcode != 0x10 ==> time_kept(
                *old(bus),
                old(self).elapsed_cycles,
                *final(bus),
                final(self).elapsed_cycles,
            ),
            result is Ok ==> !final(self).halt_bug,
            is_unimplemented(opcode) ==> final(self).registers == old(self).registers && *final(bus) == *old(bus),
            is_push(opcode) || is_restart(opcode) || is_call(opcode) ==> push_facts(
                *old(bus),
                *final(bus),
                old(self).registers,
                opcode,
                result,
                final(self).registers,
            ),
            !writes_memory(opcode) ==> final(bus).keeps_stable_reads(old(bus)),
            is_stack_read(opcode) ==> (stack_word(*old(bus), old(self).registers.sp) matches Some(w) ==> (
            stack_read_op(opcode, old(self).registers, w) matches Some((registers, c)) ==> result == Ok::<
                u32,
                EmulatorError,
            >(c) && final(self).registers == registers)),
            opcode % 8 == 6 ==> (operand_bytes(*old(bus), old(self).registers.pc, 1) matches Some((low, high))
                ==> result == Ok::<u32, EmulatorError>(8) && final(self).registers == alu8_result(
                old(self).registers, opcode, low)),
            (opcode == 0xE8 || opcode == 0xF8) ==> (operand_bytes(*old(bus), old(self).registers.pc, 1) matches Some((low, high))
                ==> result == Ok::<u32, EmulatorError>(sp_offset_op_result(old(self).registers, opcode, low).1)
                && final(self).registers == sp_offset_op_result(old(self).registers, opcode, low).0),
            final(self).inv(),
            bus_ready(final(bus)),
            result matches Ok(c) ==> c <= MAX_INSTRUCTION_CYCLES && c % 4 == 0 && final(self).elapsed_cycles <= c,
            register_op(opcode, old(self).registers) matches Some((registers, c)) ==> result == Ok::<u32, EmulatorError>(c)
                && final(self).registers == registers && *final(bus) == *old(bus) && final(self).elapsed_cycles == old(self).elapsed_cycles,
            is_unimplemented(opcode) ==> result == Err::<u32, EmulatorError>(EmulatorError::UnimplementedOpcode { opcode, pc }),
            final(self).mode == old(self).mode,
            opcode != 0xD9 && opcode != 0xF3 && opcode != 0xFB ==> final(self).keeps_control(old(self)),
            opcode == 0xD9 ==> (if result is Ok {
                final(self).interrupt_master_enabled && final(self).ime_enable_delay is None
            } else {
                final(self).keeps_control(old(self))
            }),
            opcode == 0xF3 ==> !final(self).interrupt_master_enabled && final(self).ime_enable_delay is None,
            opcode == 0xFB ==> final(self).interrupt_master_enabled == old(self).interrupt_master_enabled
                && final(self).ime_enable_delay == Some(2u8) && result == Ok::<u32, EmulatorError>(4),
            final(self).elapsed_cycles >= old(self).elapsed_cycles,
    {
        proof {
            Bus::lemma_stable_reads_refl(&*bus);
        }
        match opcode {
            0xF0 => {
                let offset = match self.fetch_byte(bus) {
                    Ok(b) => b,
                    Err(e) => {
                        return Err(e);
                    },
                };
                let ghost b1 = *bus;
                let value = match self.read_byte(bus, 0xFF00 + offset as u16) {
                    Ok(b) => b,
                    Err(e) => {
                        proof {
                            Bus::lemma_stable_reads_chain(old(bus), &b1, &*bus);
                        }
                        return Err(e);
                    },
                };
                proof {
                    Bus::lemma_stable_reads_chain(old(bus), &b1, &*bus);
                }
                self.registers.a = value;
                Ok(12)
            },
            0xF1 => {
                proof {
                    reveal(stack_read_op);
                }
                let value = match self.pop_stack(bus) {
                    Ok(w) => w,
                    Err(e) => {
                        return Err(e);
                    },
                };
                self.registers.set_af(value);
                Ok(12)
            },
            0xF2 => {
                let address = 0xFF00 + self.registers.c as u16;
                let value = match self.read_byte(bus, address) {
                    Ok(b) => b,
                    Err(e) => {
                        return Err(e);
                    },
                };
                self.registers.a = value;
                Ok(8)
            },
            0xF3 => {
                self.interrupt_master_enabled = false;
                self.ime_enable_delay = None;
                Ok(4)
            },
            0xF4 => Err(EmulatorError::UnimplementedOpcode { opcode, pc }),
            0xF5 => {
                proof {
                    reveal(push_facts);
                }
                let value = self.registers.af();
                match self.push_stack(bus, value) {
                    Ok(()) => {},
                    Err(e) => {
                        return Err(e);
                    },
                }
                Ok(16)
            },
            0xF6 => {
                let value = match self.fetch_byte(bus) {
                    Ok(b) => b,
                    Err(e) => {
                        return Err(e);
                    },
                };
                self.execute_alu(AluOperation::Or, value);
                Ok(8)
            },
            0xF7 => {
                proof {
                    reveal(push_facts);
                }
                match self.restart(bus, 0x30) {
                    Ok(()) => {},
                    Err(e) => {
                        return Err(e);
                    },
                }
                Ok(16)
            },
            0xF8 => {
                let byte = match self.fetch_byte(bus) {
                    Ok(b) => b,
                    Err(e) => {
                        return Err(e);
                    },
                };
                let value = self.sp_plus_signed_offset(signed_byte(byte));
                self.registers.set_hl(value);
                Ok(12)
            },
            0xF9 => {
                self.registers.sp = self.registers.hl();
                Ok(8)
            },
            0xFA => {
                let address = match self.fetch_word(bus) {
                    Ok(w) => w,
                    Err(e) => {
                        return Err(e);
                    },
                };
                let ghost b1 = *bus;
                let value = match self.read_byte(bus, address) {
                    Ok(b) => b,
                    Err(e) => {
                        proof {
                            Bus::lemma_stable_reads_chain(old(bus), &b1, &*bus);
                        }
                        return Err(e);
                    },
                };
                proof {
                    Bus::lemma_stable_reads_chain(old(bus), &b1, &*bus);
                }
                self.registers.a = value;
                Ok(16)
            },
            0xFB => {
                self.ime_enable_delay = Some(2);
                Ok(4)
            },
            0xFC => Err(EmulatorError::UnimplementedOpcode { opcode, pc }),
            0xFD => Err(EmulatorError::UnimplementedOpcode { opcode, pc }),
            0xFE => {
                let value = match self.fetch_byte(bus) {
                    Ok(b) => b,
                    Err(e) => {
                        return Err(e);
                    },
                };
                self.execute_alu(AluOperation::Cp, value);
                Ok(8)
            },
            _ => {
                proof {
                    reveal(push_facts);
                }
                match self.restart(bus, 0x38) {
                    Ok(()) => {},
                    Err(e) => {
                        return Err(e);
                    },
                }
                Ok(16)
            },
        }
    }
}


/// IME and a pending EI after an instruction finishes: a count of 1 turns
/// IME on, a count of 2 drops to 1.
pub open spec fn ime_after(ime: bool, delay: Option<u8>) -> (bool, Option<u8>) {
    match delay {
        None => (ime, None),
        Some(d) => if d == 1 {
            (true, None)
        } else {
            (ime, Some((d - 1) as u8))
        },
    }
}


/// What one `Cpu::step` does, with `cpu0` and `bus0` the state before and
/// `cpu1` and `bus1` the state after.
#[verifier::opaque]
pub open spec fn step_outcome(cpu0: Cpu, bus0: Bus, cpu1: Cpu, bus1: Bus, result: Result<CycleCount>) -> bool {
    let dispatch = bus0.pending() != 0 && cpu0.ime();
    let halted = bus0.pending() == 0 && cpu0.spec_mode() == CpuMode::Halted;
    let fetched = Registers { pc: cpu0.pc_after_fetch(), ..cpu0.regs() };
    let pc = cpu0.regs().pc;
    &&& cpu1.inv()
    &&& bus_ready(&bus1)
    &&& result matches Ok(c) ==> 4 <= c <= MAX_INSTRUCTION_CYCLES && c % 4 == 0 && (cpu1.elapsed() == c || (c
        == 4 && cpu1.elapsed() == 8))
    &&& dispatch && result is Ok ==> cpu1.elapsed() == 20
    &&& dispatch && result is Ok ==> result == Ok::<u32, EmulatorError>(20) && cpu1.regs() == (Registers {
        sp: ((cpu0.regs().sp + 0xFFFE) % 0x10000) as u16,
        pc: vector_of(vstd::std_specs::bits::u8_trailing_zeros(bus0.pending()) as u8),
        ..cpu0.regs()
    }) && !cpu1.ime() && cpu1.ime_delay() is None && cpu1.spec_mode() == CpuMode::Running
    &&& dispatch && stack_pushable(bus0, cpu0.regs().sp) ==> dispatch_served(
        bus0,
        bus1,
        cpu0.regs().sp,
        cpu0.regs().pc,
        vstd::std_specs::bits::u8_trailing_zeros(bus0.pending()) as u8,
    )
    &&& dispatch ==> pushes_word(bus0, bus1, cpu0.regs().sp, cpu0.regs().pc) && (stack_pushable(
        bus0,
        cpu0.regs().sp,
    ) ==> result is Ok)
    &&& halted ==> cpu1.elapsed() == 4
    &&& halted ==> result == Ok::<u32, EmulatorError>(4) && cpu1.regs() == cpu0.regs() && cpu1.spec_mode()
        == CpuMode::Halted && (cpu1.ime(), cpu1.ime_delay()) == ime_after(cpu0.ime(), cpu0.ime_delay())
        && bus1.keeps_stable_reads(&bus0) && clock_ticks(bus0, bus1, 1)
    &&& !dispatch && !halted ==> match bus0.read_spec(pc) {
        Err(e) => result == Err::<u32, EmulatorError>(e) && cpu1.regs() == cpu0.regs() && bus1 == bus0
            && bus1.keeps_stable_reads(&bus0),
        Ok(opcode) => {
            &&& is_unimplemented(opcode) ==> result == Err::<u32, EmulatorError>(
                EmulatorError::UnimplementedOpcode { opcode, pc },
            ) && cpu1.regs() == fetched
            &&& !writes_memory(opcode) ==> bus1.keeps_stable_reads(&bus0)
            &&& result is Ok && opcode != 0x10 && opcode != 0x76 ==> cpu1.spec_mode() == (if bus0.pending()
                != 0 {
                CpuMode::Running
            } else {
                cpu0.spec_mode()
            }) && !cpu1.halt_bug_pending()
            &&& (is_push(opcode) || is_restart(opcode) || is_call(opcode)) && Bus::stable_address(fetched.pc)
                ==> push_facts(bus0, bus1, fetched, opcode, result, cpu1.regs())
            &&& register_op(opcode, fetched) matches Some((registers, c)) ==> result == Ok::<u32, EmulatorError>(c)
                && cpu1.regs() == registers && clock_ticks(bus0, bus1, (c / 4) as nat)
            &&& result is Ok && opcode != 0xD9 && opcode != 0xF3 && opcode != 0xFB ==> (cpu1.ime(), cpu1.ime_delay())
                == ime_after(cpu0.ime(), cpu0.ime_delay())
            &&& result is Ok && opcode == 0xD9 ==> cpu1.ime() && cpu1.ime_delay() is None
            &&& opcode == 0xF3 ==> !cpu1.ime() && cpu1.ime_delay() is None
            &&& opcode == 0xF3 || opcode == 0xFB ==> result == Ok::<u32, EmulatorError>(4) && cpu1.regs() == fetched
                && clock_ticks(bus0, bus1, 1)
            &&& opcode != 0x10 ==> (result matches Ok(c) ==> cpu1.elapsed() == c)
            &&& opcode == 0xFB ==> cpu1.ime() == cpu0.ime() && cpu1.ime_delay() == Some(1u8)
            &&& opcode == 0x76 ==> result == Ok::<u32, EmulatorError>(4) && cpu1.regs() == fetched
                && clock_ticks(bus0, bus1, 1) && (cpu1.halt_bug_pending() <==> (!cpu0.ime() && bus1.pending()
                != 0)) && (!cpu1.halt_bug_pending() ==> cpu1.spec_mode() == CpuMode::Halted)
            &&& store_facts(bus0, bus1, fetched, opcode, result, cpu1.regs())
            &&& hl_update_facts(bus0, bus1, fetched, opcode, result, cpu1.regs())
            &&& !writes_memory(opcode) && opcode != 0x10 ==> clock_ticks(bus0, bus1, (cpu1.elapsed() / 4) as nat)
            &&& opcode != 0x10 ==> bus_cycles(bus0, bus1, (cpu1.elapsed() / 4) as nat)
            &&& opcode == 0x10 ==> exists|b: Bus|
                bus_cycles(bus0, b, (cpu1.elapsed() / 4) as nat) && #[trigger] stop_effect(b, bus1)
            &&& Bus::stable_address(fetched.pc) ==> operand_store_facts(bus0, bus1, fetched, opcode, result, cpu1.regs())
            &&& operand_outcome(bus0, fetched, opcode, result, cpu1.regs())
            &&& hl_read_outcome(bus0, fetched, opcode, result, cpu1.regs())
            &&& stack_read_facts(bus0, fetched, opcode, result, cpu1.regs())
            &&& accumulator_load_outcome(bus0, fetched, opcode, result, cpu1.regs())
        },
    }
}

impl Cpu {
    /// Executes an opcode fetched from `pc`.
    #[verifier::rlimit(40)]
    #[verifier::spinoff_prover]
    fn execute(&mut self, bus: &mut Bus, opcode: u8, pc: u16) -> (result: Result<CycleCount>)
        requires
            old(self).ready(old(bus), 5),
            old(self).elapsed_cycles == 4,
            !old(self).halt_bug,
        ensures
            opcode == 0xF3 || opcode == 0xFB ==> result == Ok::<u32, EmulatorError>(4) && final(self).registers
                == old(self).registers && *final(bus) == *old(bus) && final(self).elapsed_cycles == old(self).elapsed_cycles,
            opcode == 0x10 && result is Ok ==> result == Ok::<u32, EmulatorError>(4) && final(self).elapsed_cycles
                == old(self).elapsed_cycles + 4,
            opcode == 0x10 ==> exists|b: Bus|
                #[trigger] work_kept(*old(bus), old(self).elapsed_cycles, b, final(self).elapsed_cycles) && stop_effect(
                    b,
                    *final(bus),
                ),
            opcode != 0x10 ==> work_kept(
                *old(bus),
                old(self).elapsed_cycles,
                *final(bus),
                final(self).elapsed_cycles,
            ),
            !writes_memory(opcode) && opcode != 0x10 ==> time_kept(
                *old(bus),
                old(self).elapsed_cycles,
                *final(bus),
                final(self).elapsed_cycles,
            ),
            result is Ok && opcode != 0x76 ==> !final(self).halt_bug,
            is_unimplemented(opcode) ==> final(self).registers == old(self).registers && *final(bus) == *old(bus),
            is_push(opcode) || is_restart(opcode) || is_call(opcode) ==> push_facts(
                *old(bus),
                *final(bus),
                old(self).registers,
                opcode,
                result,
                final(self).registers,
            ),
            !writes_memory(opcode) ==> final(bus).keeps_stable_reads(old(bus)),
            store_facts(*old(bus), *final(bus), old(self).registers, opcode, result, final(self).registers),
            operand_store_facts(*old(bus), *final(bus), old(self).registers, opcode, result, final(self).registers),
            hl_update_facts(*old(bus), *final(bus), old(self).registers, opcode, result, final(self).registers),
            operand_facts(*old(bus), old(self).registers, opcode, result, final(self).registers),
            hl_read_facts(*old(bus), old(self).registers, opcode, result, final(self).registers),
            stack_read_facts(*old(bus), old(self).registers, opcode, result, final(self).registers),
            accumulator_load_facts(*old(bus), old(self).registers, opcode, result, final(self).registers),
            final(self).inv(),
            bus_ready(final(bus)),
            result matches Ok(c) ==> c <= MAX_INSTRUCTION_CYCLES && c % 4 == 0 && (final(self).elapsed_cycles <= c
                || (opcode == 0x10 && c == 4 && final(self).elapsed_cycles == 8)),
            register_op(opcode, old(self).registers) matches Some((registers, c)) ==> result == Ok::<u32, EmulatorError>(c)
                && final(self).registers == registers && *final(bus) == *old(bus) && final(self).elapsed_cycles == old(self).elapsed_cycles,
            is_unimplemented(opcode) ==> result == Err::<u32, EmulatorError>(EmulatorError::UnimplementedOpcode { opcode, pc }),
            opcode != 0xD9 && opcode != 0xF3 && opcode != 0xFB ==> final(self).interrupt_master_enabled
                == old(self).interrupt_master_enabled && final(self).ime_enable_delay == old(self).ime_enable_delay,
            opcode == 0xD9 && result is Ok ==> final(self).interrupt_master_enabled && final(self).ime_enable_delay is None,
            opcode == 0xF3 ==> !final(self).interrupt_master_enabled && final(self).ime_enable_delay is None,
            opcode == 0xFB ==> final(self).interrupt_master_enabled == old(self).interrupt_master_enabled
                && final(self).ime_enable_delay == Some(2u8) && result == Ok::<u32, EmulatorError>(4),
            final(self).elapsed_cycles >= old(self).elapsed_cycles,
            opcode != 0x10 && opcode != 0x76 ==> final(self).mode == old(self).mode,
            opcode == 0x76 ==> result == Ok::<u32, EmulatorError>(4) && final(self).registers == old(self).registers
                && *final(bus) == *old(bus) && final(self).elapsed_cycles == old(self).elapsed_cycles
                && (final(self).halt_bug <==> (!old(self).interrupt_master_enabled && old(bus).pending() != 0))
                && (!final(self).halt_bug ==> final(self).mode == CpuMode::Halted),
    {
        proof {
            Bus::lemma_stable_reads_refl(&*bus);
            if !is_store(opcode) {
                lemma_not_store(opcode);
            }
            if !is_operand_store(opcode) {
                lemma_not_operand_store(opcode);
            }
            if !is_hl_update(opcode) {
                lemma_not_hl_update(opcode);
            }
            reveal(operand_facts);
            reveal(hl_read_facts);
            reveal(stack_read_facts);
            reveal(accumulator_load_facts);
        }
        if 0x40 <= opcode && opcode <= 0x7F && opcode != 0x76 {
            let ghost bus0 = *bus;
            let ghost cpu0 = *self;
            let result = self.load_register_from_register(bus, opcode);
            proof {
                lemma_hl_store_from_load(bus0, *bus, cpu0, *self, opcode, result);
            }
            result
        } else if 0x80 <= opcode && opcode <= 0xBF {
            self.execute_register_alu(bus, opcode)
        } else if opcode == 0x76 {
            if !self.interrupt_master_enabled && bus.pending_interrupts() != 0 {
                self.halt_bug = true;
            } else {
                self.mode = CpuMode::Halted;
            }
            Ok(4)
        } else if opcode <= 0x0F {
            self.execute_row_00(bus, opcode)
        } else if opcode <= 0x17 {
            self.execute_row_10(bus, opcode)
        } else if opcode <= 0x1F {
            self.execute_row_18(bus, opcode)
        } else if opcode <= 0x2F {
            self.execute_row_20(bus, opcode)
        } else if opcode == 0x34 || opcode == 0x35 {
            self.update_at_hl(bus, opcode)
        } else if opcode <= 0x37 {
            self.execute_row_30(bus, opcode)
        } else if opcode <= 0x3F {
            self.execute_row_38(bus, opcode)
        } else if opcode <= 0xCF {
            if opcode <= 0xC7 {
                self.execute_row_c0(bus, opcode, pc)
            } else {
                self.execute_row_c8(bus, opcode, pc)
            }
        } else if opcode <= 0xDF {
            self.execute_row_d0(bus, opcode, pc)
        } else if opcode <= 0xEF {
            self.execute_row_e0(bus, opcode, pc)
        } else {
            self.execute_row_f0(bus, opcode, pc)
        }
    }

    /// Runs one instruction, or dispatches an interrupt, or idles a
    /// machine cycle while halted, and reports the cycles it took.
    ///
    /// An interrupt both requested and enabled wakes a halted CPU; with IME
    /// set the lowest one is dispatched (20 cycles). Otherwise the opcode
    /// at PC is fetched and executed; an opcode with no instruction is an
    /// `UnimplementedOpcode` error naming it and its address. A pending EI
    /// takes effect once the instruction after it has finished.
    #[verifier::rlimit(40)]
    #[verifier::spinoff_prover]
    pub fn step(&mut self, bus: &mut Bus) -> (result: Result<CycleCount>)
        requires
            old(self).inv(),
            bus_ready(old(bus)),
        ensures
            step_outcome(*old(self), *old(bus), *final(self), *final(bus), result),
    {
        proof {
            reveal(step_outcome);
        }
        self.elapsed_cycles = 0;

        if bus.pending_interrupts() != 0 {
            self.mode = CpuMode::Running;

            if self.interrupt_master_enabled {
                let ghost b0 = *bus;
                let cycles = match self.service_interrupt(bus) {
                    Ok(c) => c,
                    Err(e) => {
                        return Err(e);
                    },
                };
                let ghost b1 = *bus;
                self.advance_remaining_cycles(bus, cycles);
                proof {
                    lemma_pushes_then_kept(b0, b1, *bus, old(self).registers.sp, old(self).registers.pc);
                    if stack_pushable(b0, old(self).registers.sp) {
                        let cleared = choose|cleared: Bus|
                            #[trigger] interrupt_cleared(
                                b0,
                                cleared,
                                vstd::std_specs::bits::u8_trailing_zeros(b0.pending()) as u8,
                            ) && stack_pushed(cleared, b1, old(self).registers.sp, old(self).registers.pc);
                        assert(clock_ticks(b1, *bus, 3));
                    }
                }
                return Ok(cycles);
            }
        }

        if self.mode == CpuMode::Halted {
            let ghost idle_from = *bus;
            self.idle_cycle(bus);
            self.finish_instruction();
            proof {
                lemma_ticks_one(idle_from, *bus);
            }
            return Ok(4);
        }

        let pc = self.registers.pc;
        let ghost bus0 = *bus;
        proof {
            lemma_ticks_zero(bus0);
            assert(bus_time(bus0, bus0, self.elapsed_cycles));
            lemma_cycles_zero(bus0);
            assert(worked_time(bus0, bus0, self.elapsed_cycles));
        }
        let opcode = match self.fetch_byte(bus) {
            Ok(b) => b,
            Err(e) => {
                return Err(e);
            },
        };
        let ghost bus_a = *bus;
        let ghost fetched = self.registers;
        let cycles = match self.execute(bus, opcode, pc) {
            Ok(c) => c,
            Err(e) => {
                proof {
                    Bus::lemma_stable_reads_refl(&*bus);
                    if !writes_memory(opcode) {
                        Bus::lemma_stable_reads_chain(&bus0, &bus_a, &*bus);
                    }
                    if (is_push(opcode) || is_restart(opcode) || is_call(opcode)) && Bus::stable_address(fetched.pc) {
                        lemma_push_facts_lift(bus0, bus_a, *bus, *bus, fetched, opcode, Err(e), self.registers);
                    }
                    lemma_store_lift(bus0, bus_a, *bus, *bus, fetched, opcode, Err(e), self.registers);
                    if opcode == 0x10 {
                        let b = choose|b: Bus|
                            #[trigger] work_kept(bus_a, 4, b, self.elapsed_cycles) && stop_effect(b, *bus);
                        assert(worked_time(bus0, b, self.elapsed_cycles));
                        assert(bus_cycles(bus0, b, (self.elapsed_cycles / 4) as nat) && stop_effect(b, *bus));
                    }
                    lemma_hl_update_lift(bus0, bus_a, *bus, *bus, fetched, opcode, Err(e), self.registers);
                    if Bus::stable_address(fetched.pc) {
                        lemma_operand_store_lift(bus0, bus_a, *bus, *bus, fetched, opcode, Err(e), self.registers);
                    }
                    lemma_operand_outcome(bus0, bus_a, fetched, opcode, Err(e), self.registers);
                    lemma_hl_read_outcome(bus0, bus_a, fetched, opcode, Err(e), self.registers);
                    lemma_stack_read_facts_kept(bus0, bus_a, fetched, opcode, Err(e), self.registers);
                    lemma_accumulator_load_outcome(bus0, bus_a, fetched, opcode, Err(e), self.registers);
                }
                return Err(e);
            },
        };
        proof {
            lemma_operand_outcome(bus0, bus_a, fetched, opcode, Ok(cycles), self.registers);
            lemma_hl_read_outcome(bus0, bus_a, fetched, opcode, Ok(cycles), self.registers);
            lemma_stack_read_facts_kept(bus0, bus_a, fetched, opcode, Ok(cycles), self.registers);
            lemma_accumulator_load_outcome(bus0, bus_a, fetched, opcode, Ok(cycles), self.registers);
        }
        let ghost bus_e = *bus;
        let ghost executed = self.elapsed_cycles;
        self.advance_remaining_cycles(bus, cycles);
        proof {
            if register_op(opcode, fetched) is Some || opcode == 0x76 || opcode == 0xF3 || opcode == 0xFB {
                lemma_ticks_one(bus0, bus_a);
                assert(executed == 4);
                lemma_ticks_append(bus0, bus_a, *bus, 1, ((cycles - 4) / 4) as nat);
                assert(1 + (cycles - 4) / 4 == cycles / 4);
            }
            if !writes_memory(opcode) {
                Bus::lemma_stable_reads_chain(&bus0, &bus_a, &bus_e);
                Bus::lemma_stable_reads_chain(&bus0, &bus_e, &*bus);
            }
            if (is_push(opcode) || is_restart(opcode) || is_call(opcode)) && Bus::stable_address(fetched.pc) {
                lemma_push_facts_lift(bus0, bus_a, bus_e, *bus, fetched, opcode, Ok(cycles), self.registers);
            }
            lemma_store_lift(bus0, bus_a, bus_e, *bus, fetched, opcode, Ok(cycles), self.registers);
            if opcode == 0x10 {
                let b = choose|b: Bus| #[trigger] work_kept(bus_a, 4, b, executed) && stop_effect(b, bus_e);
                assert(worked_time(bus0, b, executed));
                assert(clock_ticks(bus_e, *bus, 0));
                assert(*bus == bus_e);
                assert(self.elapsed_cycles == executed);
                assert(bus_cycles(bus0, b, (self.elapsed_cycles / 4) as nat) && stop_effect(b, *bus));
            }
            lemma_hl_update_lift(bus0, bus_a, bus_e, *bus, fetched, opcode, Ok(cycles), self.registers);
            if Bus::stable_address(fetched.pc) {
                lemma_operand_store_lift(bus0, bus_a, bus_e, *bus, fetched, opcode, Ok(cycles), self.registers);
            }
        }
        self.finish_instruction();
        Ok(cycles)
    }
}


/// A register pair reads back what was written to it, and the other pairs
/// keep their values.
pub proof fn lemma_pair_round_trip(registers: Registers, pair: Register16, value: u16)
    ensures
        registers.with_pair(pair, value).pair_of(pair) == value,
        forall|other: Register16| other != pair ==> #[trigger] registers.with_pair(pair, value).pair_of(other)
            == registers.pair_of(other),
{
    lemma_bytes_word(value);
}

/// AF reads back what was written to it with the low nibble of F cleared.
pub proof fn lemma_af_round_trip(registers: Registers, value: u16)
    ensures
        (Registers { a: high_byte(value), f: low_byte(value) & 0xF0, ..registers }).af_of() == value - value
            % 16,
        (Registers { a: high_byte(value), f: low_byte(value) & 0xF0, ..registers }).f & 0x0F == 0,
{
    let low = low_byte(value);
    assert((low & 0xF0) & 0xF0 == low & 0xF0 && low & 0xF0 == (low / 16) * 16) by {
        lemma_byte_bits();
    }
    let f = low & 0xF0;
    assert(f & 0x0F == 0) by (bit_vector)
        requires
            f == low & 0xF0,
    ;
}

/// EI takes effect after the instruction that follows it: right after EI
/// interrupts are still disabled, and once the next instruction (or idle
/// cycle while halted) completes they are enabled, unless that instruction
/// is DI, EI or RETI, which set IME themselves.
pub proof fn lemma_ei_takes_effect_after_next_instruction(
    cpu0: Cpu,
    bus0: Bus,
    cpu1: Cpu,
    bus1: Bus,
    first: Result<CycleCount>,
    cpu2: Cpu,
    bus2: Bus,
    second: Result<CycleCount>,
)
    requires
        !cpu0.ime(),
        cpu0.ime_delay() is None,
        cpu0.spec_mode() != CpuMode::Halted,
        bus0.read_spec(cpu0.regs().pc) == Ok::<u8, EmulatorError>(0xFB),
        step_outcome(cpu0, bus0, cpu1, bus1, first),
        step_outcome(cpu1, bus1, cpu2, bus2, second),
        second is Ok,
        (bus1.pending() == 0 && cpu1.spec_mode() == CpuMode::Halted) || (bus1.read_spec(cpu1.regs().pc) matches Ok(
            op,
        ) && op != 0xF3 && op != 0xFB && op != 0xD9),
    ensures
        !cpu1.ime(),
        cpu1.ime_delay() == Some(1u8),
        cpu2.ime(),
        cpu2.ime_delay() is None,
{
    reveal(step_outcome);
}
} // verus!

verus! {

#[verifier::rlimit(60)]
#[verifier::spinoff_prover]
proof fn lemma_call_step(cpu0: Cpu, bus0: Bus, cpu1: Cpu, bus1: Bus, first: Result<CycleCount>, low: u8, high: u8)
    requires
        step_outcome(cpu0, bus0, cpu1, bus1, first),
        cpu0.spec_mode() == CpuMode::Running,
        !cpu0.halt_bug_pending(),
        bus0.pending() == 0 || !cpu0.ime(),
        !bus0.spec_dma().active,
        Bus::stable_address(pc_plus(cpu0.regs().pc, 1)),
        Bus::stable_address(pc_plus(cpu0.regs().pc, 2)),
        bus0.read_spec(cpu0.regs().pc) == Ok::<u8, EmulatorError>(0xCD),
        bus0.read_spec(pc_plus(cpu0.regs().pc, 1)) == Ok::<u8, EmulatorError>(low),
        bus0.read_spec(pc_plus(cpu0.regs().pc, 2)) == Ok::<u8, EmulatorError>(high),
        stack_pushable(bus0, cpu0.regs().sp),
    ensures
        first == Ok::<u32, EmulatorError>(24),
        cpu1.regs() == (Registers { pc: word(high, low), sp: pc_plus(cpu0.regs().sp, 0xFFFE), ..cpu0.regs() }),
        cpu1.spec_mode() == CpuMode::Running,
        !cpu1.halt_bug_pending(),
        pushes_word(bus0, bus1, cpu0.regs().sp, pc_plus(cpu0.regs().pc, 3)),
{
    reveal(step_outcome);
    lemma_pc_plus_twice(cpu0.regs().pc);
    assert(cpu0.pc_after_fetch() == pc_plus(cpu0.regs().pc, 1));
    let fetched = Registers { pc: cpu0.pc_after_fetch(), ..cpu0.regs() };
    assert(push_facts(bus0, bus1, fetched, 0xCD, first, cpu1.regs()));
    reveal(push_facts);
    reveal(call_facts);
    assert(operand_bytes(bus0, fetched.pc, 2) == Some((low, high))) by {
        reveal(operand_bytes);
    }
    assert(pc_plus(fetched.pc, 2) == pc_plus(cpu0.regs().pc, 3));
}

#[verifier::rlimit(60)]
#[verifier::spinoff_prover]
proof fn lemma_ret_step(cpu1: Cpu, bus1: Bus, cpu2: Cpu, bus2: Bus, second: Result<CycleCount>, ret: u16)
    requires
        step_outcome(cpu1, bus1, cpu2, bus2, second),
        cpu1.spec_mode() == CpuMode::Running,
        !cpu1.halt_bug_pending(),
        bus1.pending() == 0 || !cpu1.ime(),
        bus1.read_spec(cpu1.regs().pc) == Ok::<u8, EmulatorError>(0xC9),
        stack_word(bus1, cpu1.regs().sp) == Some(ret),
    ensures
        second == Ok::<u32, EmulatorError>(16),
        cpu2.regs() == (Registers { pc: ret, sp: pc_plus(cpu1.regs().sp, 2), ..cpu1.regs() }),
{
    reveal(step_outcome);
    let fetched = Registers { pc: cpu1.pc_after_fetch(), ..cpu1.regs() };
    assert(stack_read_facts(bus1, fetched, 0xC9, second, cpu2.regs()));
    reveal(stack_read_facts);
    reveal(stack_read_op);
}

/// CALL then RET returns: from a running CPU with no interrupt served (none
/// pending, or IME off) and no DMA running, a CALL nn read from stable
/// memory, with the two stack bytes below SP in RAM, jumps to nn; when nn
/// holds RET (in stable memory that the push does not overwrite) and again
/// no interrupt is served, the next step comes back to the byte after the
/// CALL with every register as before.
pub proof fn lemma_call_ret_round_trip(
    cpu0: Cpu,
    bus0: Bus,
    cpu1: Cpu,
    bus1: Bus,
    first: Result<CycleCount>,
    cpu2: Cpu,
    bus2: Bus,
    second: Result<CycleCount>,
    low: u8,
    high: u8,
)
    requires
        step_outcome(cpu0, bus0, cpu1, bus1, first),
        step_outcome(cpu1, bus1, cpu2, bus2, second),
        cpu0.spec_mode() == CpuMode::Running,
        !cpu0.halt_bug_pending(),
        bus0.pending() == 0 || !cpu0.ime(),
        bus1.pending() == 0 || !cpu1.ime(),
        !bus0.spec_dma().active,
        Bus::stable_address(pc_plus(cpu0.regs().pc, 1)),
        Bus::stable_address(pc_plus(cpu0.regs().pc, 2)),
        bus0.read_spec(cpu0.regs().pc) == Ok::<u8, EmulatorError>(0xCD),
        bus0.read_spec(pc_plus(cpu0.regs().pc, 1)) == Ok::<u8, EmulatorError>(low),
        bus0.read_spec(pc_plus(cpu0.regs().pc, 2)) == Ok::<u8, EmulatorError>(high),
        stack_pushable(bus0, cpu0.regs().sp),
        Bus::stable_address(word(high, low)),
        !(Bus::ram_address(word(high, low)) && (Bus::ram_cell(word(high, low)) == Bus::ram_cell(
            pc_plus(cpu0.regs().sp, 0xFFFF),
        ) || Bus::ram_cell(word(high, low)) == Bus::ram_cell(pc_plus(cpu0.regs().sp, 0xFFFE)))),
        bus0.read_spec(word(high, low)) == Ok::<u8, EmulatorError>(0xC9),
    ensures
        first == Ok::<u32, EmulatorError>(24),
        second == Ok::<u32, EmulatorError>(16),
        cpu2.regs() == (Registers { pc: pc_plus(cpu0.regs().pc, 3), ..cpu0.regs() }),
{
    lemma_call_step(cpu0, bus0, cpu1, bus1, first, low, high);
    let ret = pc_plus(cpu0.regs().pc, 3);
    assert(bus1.read_spec(word(high, low)) == Ok::<u8, EmulatorError>(0xC9)
        && stack_word(bus1, pc_plus(cpu0.regs().sp, 0xFFFE)) == Some(ret)) by {
        reveal(pushes_word);
    }
    lemma_ret_step(cpu1, bus1, cpu2, bus2, second, ret);
    lemma_pc_plus_down(cpu0.regs().sp);
    assert(pc_plus(pc_plus(cpu0.regs().sp, 0xFFFE), 2) == cpu0.regs().sp);
}

} // verus!

verus! {

proof fn lemma_store_step(cpu0: Cpu, bus0: Bus, cpu1: Cpu, bus1: Bus, first: Result<CycleCount>, source: u8)
    requires
        step_outcome(cpu0, bus0, cpu1, bus1, first),
        cpu0.spec_mode() == CpuMode::Running,
        !cpu0.halt_bug_pending(),
        bus0.pending() == 0 || !cpu0.ime(),
        !bus0.spec_dma().active,
        source < 8,
        source != 6,
        bus0.read_spec(cpu0.regs().pc) == Ok::<u8, EmulatorError>((0x70 + source) as u8),
        Bus::ram_address(cpu0.regs().hl_of()),
    ensures
        first == Ok::<u32, EmulatorError>(8),
        cpu1.regs() == (Registers { pc: pc_plus(cpu0.regs().pc, 1), ..cpu0.regs() }),
        cpu1.spec_mode() == CpuMode::Running,
        !cpu1.halt_bug_pending(),
        stores_byte(bus0, bus1, cpu0.regs().hl_of(), cpu0.regs().reg8_of(register8_of(source))),
{
    reveal(step_outcome);
    lemma_pc_plus_twice(cpu0.regs().pc);
    let opcode = (0x70 + source) as u8;
    let fetched = Registers { pc: cpu0.pc_after_fetch(), ..cpu0.regs() };
    assert(is_store(opcode) && !is_hl_update(opcode));
    assert(opcode % 8 == source);
    assert(store_facts(bus0, bus1, fetched, opcode, first, cpu1.regs()));
    reveal(store_facts);
}

proof fn lemma_load_step(cpu1: Cpu, bus1: Bus, cpu2: Cpu, bus2: Bus, second: Result<CycleCount>, destination: u8, value: u8)
    requires
        step_outcome(cpu1, bus1, cpu2, bus2, second),
        cpu1.spec_mode() == CpuMode::Running,
        !cpu1.halt_bug_pending(),
        bus1.pending() == 0 || !cpu1.ime(),
        !bus1.spec_dma().active,
        destination < 8,
        destination != 6,
        bus1.read_spec(cpu1.regs().pc) == Ok::<u8, EmulatorError>((0x46 + destination * 8) as u8),
        Bus::stable_address(cpu1.regs().hl_of()),
        bus1.read_spec(cpu1.regs().hl_of()) == Ok::<u8, EmulatorError>(value),
    ensures
        second == Ok::<u32, EmulatorError>(8),
        cpu2.regs() == (Registers { pc: pc_plus(cpu1.regs().pc, 1), ..cpu1.regs() }).with_reg8(
            register8_of(destination),
            value,
        ),
{
    reveal(step_outcome);
    lemma_pc_plus_twice(cpu1.regs().pc);
    let opcode = (0x46 + destination * 8) as u8;
    let fetched = Registers { pc: cpu1.pc_after_fetch(), ..cpu1.regs() };
    assert(opcode % 8 == 6 && (opcode / 8) % 8 == destination);
    assert(hl_read_outcome(bus1, fetched, opcode, second, cpu2.regs()));
    reveal(hl_read_outcome);
}

/// A store then a load through HL reads back what was stored: from a
/// running CPU with no interrupt served (none pending, or IME off) and no
/// DMA running, LD (HL),r (r not (HL)) with HL naming RAM, followed by
/// LD r',(HL) (r' not (HL)) read from an address the store leaves alone,
/// gives r' the value of r, takes 8 cycles each, and leaves every other
/// register but PC as it was.
pub proof fn lemma_store_load_round_trip(
    cpu0: Cpu,
    bus0: Bus,
    cpu1: Cpu,
    bus1: Bus,
    first: Result<CycleCount>,
    cpu2: Cpu,
    bus2: Bus,
    second: Result<CycleCount>,
    source: u8,
    destination: u8,
)
    requires
        step_outcome(cpu0, bus0, cpu1, bus1, first),
        step_outcome(cpu1, bus1, cpu2, bus2, second),
        cpu0.spec_mode() == CpuMode::Running,
        !cpu0.halt_bug_pending(),
        bus0.pending() == 0 || !cpu0.ime(),
        bus1.pending() == 0 || !cpu1.ime(),
        !bus0.spec_dma().active,
        source < 8,
        source != 6,
        destination < 8,
        destination != 6,
        Bus::ram_address(cpu0.regs().hl_of()),
        bus0.read_spec(cpu0.regs().pc) == Ok::<u8, EmulatorError>((0x70 + source) as u8),
        Bus::stable_address(pc_plus(cpu0.regs().pc, 1)),
        !(Bus::ram_address(pc_plus(cpu0.regs().pc, 1)) && Bus::ram_cell(pc_plus(cpu0.regs().pc, 1))
            == Bus::ram_cell(cpu0.regs().hl_of())),
        bus0.read_spec(pc_plus(cpu0.regs().pc, 1)) == Ok::<u8, EmulatorError>((0x46 + destination * 8) as u8),
    ensures
        first == Ok::<u32, EmulatorError>(8),
        second == Ok::<u32, EmulatorError>(8),
        cpu2.regs() == (Registers { pc: pc_plus(cpu0.regs().pc, 2), ..cpu0.regs() }).with_reg8(
            register8_of(destination),
            cpu0.regs().reg8_of(register8_of(source)),
        ),
{
    lemma_store_step(cpu0, bus0, cpu1, bus1, first, source);
    let value = cpu0.regs().reg8_of(register8_of(source));
    assert(bus1.read_spec(pc_plus(cpu0.regs().pc, 1)) == Ok::<u8, EmulatorError>((0x46 + destination * 8) as u8));
    lemma_load_step(cpu1, bus1, cpu2, bus2, second, destination, value);
    lemma_pc_plus_twice(cpu0.regs().pc);
}

} // verus!

verus! {

/// PUSH of `value` with `sp` took `before` to `after`: the high byte is
/// written at SP-1, a machine cycle passes, the low byte is written at
/// SP-2, and another machine cycle passes.
pub open spec fn stack_pushed(before: Bus, after: Bus, sp: u16, value: u16) -> bool {
    exists|w1: Bus, t1: Bus, w2: Bus|
        #![trigger ram_written(before, w1, pc_plus(sp, 0xFFFF), high_byte(value)), ram_written(t1, w2, pc_plus(sp, 0xFFFE), low_byte(value))]
        ram_written(before, w1, pc_plus(sp, 0xFFFF), high_byte(value)) && clock_advanced(w1, t1, 4) && ram_written(
            t1,
            w2,
            pc_plus(sp, 0xFFFE),
            low_byte(value),
        ) && clock_advanced(w2, after, 4)
}

/// Serving interrupt `bit` took `before` to `after`: its IF request bit is
/// cleared, PC is pushed (`stack_pushed`), and three more machine cycles
/// pass, twenty cycles in all.
pub open spec fn dispatch_served(before: Bus, after: Bus, sp: u16, pc: u16, bit: u8) -> bool {
    exists|cleared: Bus, pushed: Bus|
        #![trigger interrupt_cleared(before, cleared, bit), stack_pushed(cleared, pushed, sp, pc)]
        interrupt_cleared(before, cleared, bit) && stack_pushed(cleared, pushed, sp, pc) && clock_ticks(pushed, after, 3)
}

/// Each bus of `states` is the one before it with a machine cycle (four
/// clock cycles) let pass through `clock_advanced`.
pub open spec fn clock_run(states: Seq<Bus>) -> bool {
    forall|i: int| 0 <= i < states.len() - 1 ==> #[trigger] clock_advanced(states[i], states[i + 1], 4)
}

/// `after` is `before` with `n` machine cycles let pass.
pub open spec fn clock_ticks(before: Bus, after: Bus, n: nat) -> bool {
    exists|states: Seq<Bus>|
        #[trigger] clock_run(states) && states.len() == n + 1 && states[0] == before && states[n as int] == after
}

/// The bus `bus` is `base` with the machine cycles of `elapsed` clock
/// cycles let pass.
pub open spec fn bus_time(base: Bus, bus: Bus, elapsed: u32) -> bool {
    clock_ticks(base, bus, (elapsed / 4) as nat)
}

/// Going from `b0` at `e0` cycles into an instruction to `b1` at `e1`, the
/// bus only had the machine cycles between let pass.
pub open spec fn time_kept(b0: Bus, e0: u32, b1: Bus, e1: u32) -> bool {
    forall|base: Bus| #[trigger] bus_time(base, b0, e0) ==> bus_time(base, b1, e1)
}

/// What STOP does to the bus once its two bytes are read: nothing, or the
/// speed switch that KEY1 prepared (double speed toggled, the request
/// cleared).
pub open spec fn stop_effect(before: Bus, after: Bus) -> bool {
    ||| after == before
    ||| after == before.with_cgb(
        CgbState { enabled: true, double_speed: !before.spec_cgb().double_speed, prepare_speed_switch: false },
    )
}

/// One machine cycle of an instruction: four clock cycles let pass, after
/// a CPU write (as `Bus::write_byte` states it) or none.
pub open spec fn machine_cycle(b0: Bus, b1: Bus) -> bool {
    ||| clock_advanced(b0, b1, 4)
    ||| exists|mid: Bus, address: u16, value: u8|
        #[trigger] bus_write(b0, mid, address, value, Ok(())) && clock_advanced(mid, b1, 4)
}

/// Each bus of `states` follows from the one before it by a machine cycle.
pub open spec fn cycle_run(states: Seq<Bus>) -> bool {
    forall|i: int| 0 <= i < states.len() - 1 ==> #[trigger] machine_cycle(states[i], states[i + 1])
}

/// `after` is `before` with `n` machine cycles of an instruction done.
pub open spec fn bus_cycles(before: Bus, after: Bus, n: nat) -> bool {
    exists|states: Seq<Bus>|
        #[trigger] cycle_run(states) && states.len() == n + 1 && states[0] == before && states[n as int] == after
}

/// The bus `bus` is `base` with the machine cycles of `elapsed` clock
/// cycles done, writes included.
pub open spec fn worked_time(base: Bus, bus: Bus, elapsed: u32) -> bool {
    bus_cycles(base, bus, (elapsed / 4) as nat)
}

/// Going from `b0` at `e0` cycles into an instruction to `b1` at `e1`, the
/// bus only had the machine cycles between done.
pub open spec fn work_kept(b0: Bus, e0: u32, b1: Bus, e1: u32) -> bool {
    forall|base: Bus| #[trigger] worked_time(base, b0, e0) ==> worked_time(base, b1, e1)
}

proof fn lemma_cycles_zero(b: Bus)
    ensures
        bus_cycles(b, b, 0),
{
    let states = seq![b];
    assert(cycle_run(states));
}

proof fn lemma_cycles_push(b0: Bus, b1: Bus, b2: Bus, n: nat)
    requires
        bus_cycles(b0, b1, n),
        machine_cycle(b1, b2),
    ensures
        bus_cycles(b0, b2, n + 1),
{
    let states = choose|states: Seq<Bus>|
        #[trigger] cycle_run(states) && states.len() == n + 1 && states[0] == b0 && states[n as int] == b1;
    let longer = states.push(b2);
    assert forall|i: int| 0 <= i < longer.len() - 1 implies #[trigger] machine_cycle(longer[i], longer[i + 1]) by {
        if i < n {
            assert(machine_cycle(states[i], states[i + 1]));
        }
    }
    assert(cycle_run(longer));
}

proof fn lemma_ticks_zero(b: Bus)
    ensures
        clock_ticks(b, b, 0),
{
    let states = seq![b];
    assert(clock_run(states));
}

proof fn lemma_ticks_push(b0: Bus, b1: Bus, b2: Bus, n: nat)
    requires
        clock_ticks(b0, b1, n),
        clock_advanced(b1, b2, 4),
    ensures
        clock_ticks(b0, b2, n + 1),
{
    let states = choose|states: Seq<Bus>|
        #[trigger] clock_run(states) && states.len() == n + 1 && states[0] == b0 && states[n as int] == b1;
    let longer = states.push(b2);
    assert forall|i: int| 0 <= i < longer.len() - 1 implies #[trigger] clock_advanced(longer[i], longer[i + 1], 4) by {
        if i < n {
            assert(clock_advanced(states[i], states[i + 1], 4));
        }
    }
    assert(clock_run(longer));
}

proof fn lemma_ticks_one(b0: Bus, b1: Bus)
    requires
        clock_advanced(b0, b1, 4),
    ensures
        clock_ticks(b0, b1, 1),
{
    lemma_ticks_zero(b0);
    lemma_ticks_push(b0, b0, b1, 0);
}

/// Machine cycles let pass one after another add up.
pub proof fn lemma_ticks_append(b0: Bus, b1: Bus, b2: Bus, n: nat, m: nat)
    requires
        clock_ticks(b0, b1, n),
        clock_ticks(b1, b2, m),
    ensures
        clock_ticks(b0, b2, n + m),
{
    let first = choose|states: Seq<Bus>|
        #[trigger] clock_run(states) && states.len() == n + 1 && states[0] == b0 && states[n as int] == b1;
    let second = choose|states: Seq<Bus>|
        #[trigger] clock_run(states) && states.len() == m + 1 && states[0] == b1 && states[m as int] == b2;
    let joined = first + second.skip(1);
    assert forall|i: int| 0 <= i < joined.len() - 1 implies #[trigger] clock_advanced(joined[i], joined[i + 1], 4) by {
        if i < n {
            assert(clock_advanced(first[i], first[i + 1], 4));
        } else {
            assert(joined[i] == second[i - n]);
            assert(joined[i + 1] == second[i - n + 1]);
            assert(clock_advanced(second[i - n], second[i - n + 1], 4));
        }
    }
    assert(clock_run(joined));
    assert(joined[(n + m) as int] == b2);
}

} // verus!
