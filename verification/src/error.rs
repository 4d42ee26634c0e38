use vstd::prelude::*;

verus! {

/// The ways in which loading or running a program can fail.
#[derive(Debug, Clone, PartialEq, Eq)]
pub enum EmulatorError {
    InvalidRom { reason: String },
    UnsupportedCartridge { cartridge_type: u8 },
    InvalidMemoryAccess { address: u16 },
    UnimplementedOpcode { opcode: u8, pc: u16 },
}

pub type Result<T> = core::result::Result<T, EmulatorError>;

/// The outcome is an `InvalidRom` error.
pub open spec fn is_invalid_rom<T>(result: Result<T>) -> bool {
    result is Err && result->Err_0 is InvalidRom
}

/// The character of the digit `d` (0 to 15): `0`-`9`, then `A`-`F`.
pub open spec fn digit_char(d: nat) -> char {
    if d < 10 {
        (48 + d) as char
    } else {
        (55 + d) as char
    }
}

/// The decimal digits of `n`, as `Display` writes an unsigned integer.
pub open spec fn decimal(n: nat) -> Seq<char>
    decreases n,
{
    if n < 10 {
        seq![digit_char(n)]
    } else {
        decimal(n / 10).push(digit_char(n % 10))
    }
}

/// Formats `{lead}{first}{middle}{second}` with `std::format!`, the numbers
/// in decimal.
#[verifier::external_body]
pub(crate) fn describe_two(lead: &str, first: usize, middle: &str, second: usize) -> (text: String)
    ensures
        text@ == lead@ + decimal(first as nat) + middle@ + decimal(second as nat),
{
    format!("{lead}{first}{middle}{second}")
}

/// Formats `{lead}{count}{tail}` with `std::format!`, the number in
/// decimal.
#[verifier::external_body]
pub(crate) fn describe_one(lead: &str, count: usize, tail: &str) -> (text: String)
    ensures
        text@ == lead@ + decimal(count as nat) + tail@,
{
    format!("{lead}{count}{tail}")
}

/// Formats `{lead}0x{code:02X}` with `std::format!`: the code as two
/// upper-case hexadecimal digits.
#[verifier::external_body]
pub(crate) fn describe_code(lead: &str, code: u8) -> (text: String)
    ensures
        text@ == lead@ + hex_byte(code),
{
    format!("{lead}0x{code:02X}")
}

/// `code` as `0x` and two upper-case hexadecimal digits.
pub open spec fn hex_byte(code: u8) -> Seq<char> {
    seq!['0', 'x', digit_char((code / 16) as nat), digit_char((code % 16) as nat)]
}

/// `word` as `0x` and four upper-case hexadecimal digits.
pub open spec fn hex_word(word: u16) -> Seq<char> {
    seq![
        '0',
        'x',
        digit_char((word / 4096) as nat),
        digit_char((word / 256 % 16) as nat),
        digit_char((word / 16 % 16) as nat),
        digit_char((word % 16) as nat),
    ]
}

/// Formats `{lead}0x{word:04X}` with `std::format!`: the word as four
/// upper-case hexadecimal digits.
#[verifier::external_body]
fn describe_word(lead: &str, word: u16) -> (text: String)
    ensures
        text@ == lead@ + hex_word(word),
{
    format!("{lead}0x{word:04X}")
}

/// Formats `{lead}0x{code:02X}{middle}0x{word:04X}` with `std::format!`.
#[verifier::external_body]
fn describe_code_at(lead: &str, code: u8, middle: &str, word: u16) -> (text: String)
    ensures
        text@ == lead@ + hex_byte(code) + middle@ + hex_word(word),
{
    format!("{lead}0x{code:02X}{middle}0x{word:04X}")
}

/// Formats `{lead}{tail}` with `std::format!`.
#[verifier::external_body]
pub(crate) fn joined(lead: &str, tail: &str) -> (text: String)
    ensures
        text@ == lead@ + tail@,
{
    format!("{lead}{tail}")
}

/// The message an error is reported with.
pub open spec fn error_message(error: EmulatorError) -> Seq<char> {
    match error {
        EmulatorError::InvalidRom { reason } => "invalid ROM: "@ + reason@,
        EmulatorError::UnsupportedCartridge { cartridge_type } => "unsupported cartridge type: "@ + hex_byte(
            cartridge_type,
        ),
        EmulatorError::InvalidMemoryAccess { address } => "invalid memory access at "@ + hex_word(address),
        EmulatorError::UnimplementedOpcode { opcode, pc } => "unimplemented opcode "@ + hex_byte(opcode) + " at "@
            + hex_word(pc),
    }
}

impl EmulatorError {
    /// The message the error is reported with (see `error_message`).
    pub fn message(&self) -> (text: String)
        ensures
            text@ == error_message(*self),
    {
        match self {
            EmulatorError::InvalidRom { reason } => joined("invalid ROM: ", reason.as_str()),
            EmulatorError::UnsupportedCartridge { cartridge_type } => describe_code(
                "unsupported cartridge type: ",
                *cartridge_type,
            ),
            EmulatorError::InvalidMemoryAccess { address } => describe_word("invalid memory access at ", *address),
            EmulatorError::UnimplementedOpcode { opcode, pc } => describe_code_at(
                "unimplemented opcode ",
                *opcode,
                " at ",
                *pc,
            ),
        }
    }
}

/// An `InvalidRom` error carrying the given explanation.
pub(crate) fn invalid_rom(reason: String) -> (err: EmulatorError)
    ensures
        err == (EmulatorError::InvalidRom { reason }),
{
    EmulatorError::InvalidRom { reason }
}

} // verus!
