//! Modbus holding registers: text encoding, 32-bit values split over two
//! registers, and reads of consecutive registers.

use std::collections::HashMap;
use vstd::prelude::*;
use vstd::string::StringSliceAdditionalSpecFns;

verus! {

broadcast use vstd::std_specs::hash::group_hash_axioms;

/// The byte at position `k` of `bytes`, or 0 past its end.
pub open spec fn byte_at(bytes: Seq<u8>, k: int) -> u8 {
    if 0 <= k < bytes.len() {
        bytes[k]
    } else {
        0
    }
}

/// Register `i` of a SunSpec string field: bytes `2i` and `2i + 1`, high byte first.
pub open spec fn sunspec_register(bytes: Seq<u8>, i: int) -> u16 {
    (byte_at(bytes, 2 * i) * 256 + byte_at(bytes, 2 * i + 1)) as u16
}

/// A SunSpec string field of `count` registers holding `bytes`, zero padded
/// (and cut off after `2 * count` bytes).
pub open spec fn sunspec_str_registers(bytes: Seq<u8>, count: nat) -> Seq<u16> {
    Seq::new(count, |i: int| sunspec_register(bytes, i))
}

/// Encodes the UTF-8 bytes of `s` into `register_count` registers, two bytes
/// per register with the first byte in the high half, padding with zero bytes.
pub fn encode_sunspec_str(s: &str, register_count: usize) -> (registers: Vec<u16>)
    requires
        register_count <= usize::MAX / 2,
    ensures
        registers@ == sunspec_str_registers(s.spec_bytes(), register_count as nat),
{
    let bytes = s.as_bytes();
    let mut registers: Vec<u16> = Vec::new();
    let mut i: usize = 0;
    while i < register_count
        invariant
            i <= register_count <= usize::MAX / 2,
            bytes@ == s.spec_bytes(),
            registers@ == sunspec_str_registers(s.spec_bytes(), i as nat),
        decreases register_count - i,
    {
        let b1: u8 = if i * 2 < bytes.len() { bytes[i * 2] } else { 0 };
        let b2: u8 = if i * 2 + 1 < bytes.len() { bytes[i * 2 + 1] } else { 0 };
        registers.push((b1 as u16) * 256 + (b2 as u16));
        i = i + 1;
        assert(registers@ =~= sunspec_str_registers(s.spec_bytes(), i as nat));
    }
    registers
}

/// The bytes held by registers, two per register, high byte first.
pub open spec fn register_bytes(regs: Seq<u16>) -> Seq<u8> {
    Seq::new(2 * regs.len(), |k: int| if k % 2 == 0 {
        (regs[k / 2] / 256) as u8
    } else {
        (regs[k / 2] % 256) as u8
    })
}

/// `bytes` without its trailing zero bytes.
pub open spec fn strip_trailing_zeros(bytes: Seq<u8>) -> Seq<u8>
    decreases bytes.len(),
{
    if bytes.len() > 0 && bytes.last() == 0 {
        strip_trailing_zeros(bytes.drop_last())
    } else {
        bytes
    }
}

proof fn lemma_strip_padding(bytes: Seq<u8>, padded: Seq<u8>)
    requires
        bytes.len() <= padded.len(),
        forall|i: int| 0 <= i < bytes.len() ==> #[trigger] padded[i] == bytes[i],
        forall|i: int| bytes.len() <= i < padded.len() ==> #[trigger] padded[i] == 0,
        bytes.len() > 0 ==> bytes.last() != 0,
    ensures
        strip_trailing_zeros(padded) == bytes,
    decreases padded.len(),
{
    if padded.len() > bytes.len() {
        lemma_strip_padding(bytes, padded.drop_last());
    } else {
        assert(padded =~= bytes);
    }
}

/// Decoding undoes encoding: the bytes of a SunSpec string field, with the
/// zero padding removed, are the text's bytes, when these fit the field and
/// hold no zero byte.
pub proof fn law_sunspec_str_roundtrip(bytes: Seq<u8>, count: nat)
    requires
        bytes.len() <= 2 * count,
        forall|i: int| 0 <= i < bytes.len() ==> #[trigger] bytes[i] != 0,
    ensures
        strip_trailing_zeros(register_bytes(sunspec_str_registers(bytes, count))) == bytes,
{
    let regs = sunspec_str_registers(bytes, count);
    let padded = register_bytes(regs);
    assert forall|k: int| 0 <= k < padded.len() implies #[trigger] padded[k] == byte_at(bytes, k) by {
        let i = k / 2;
        let hi = byte_at(bytes, 2 * i);
        let lo = byte_at(bytes, 2 * i + 1);
        assert(regs[i] == hi * 256 + lo);
        assert((hi * 256 + lo) / 256 == hi && (hi * 256 + lo) % 256 == lo) by (nonlinear_arith)
            requires
                0 <= hi < 256,
                0 <= lo < 256,
        ;
    }
    if bytes.len() > 0 {
        assert(bytes.last() == bytes[bytes.len() - 1]);
    }
    lemma_strip_padding(bytes, padded);
}

/// High register of a 32-bit value (bits 31..16).
pub open spec fn high_word(bits: u32) -> u16 {
    (bits / 0x10000) as u16
}

/// Low register of a 32-bit value (bits 15..0).
pub open spec fn low_word(bits: u32) -> u16 {
    (bits % 0x10000) as u16
}

/// The 32-bit value held by a high and a low register.
pub open spec fn join_words(high: u16, low: u16) -> u32 {
    (high * 0x10000 + low) as u32
}

/// Stores a 32-bit IEEE 754 value, given by its bit pattern, in two
/// consecutive registers: the high word at `base_addr`, the low word after it.
pub fn set_holding_reg_f32(regs: &mut HashMap<u16, u16>, base_addr: u16, bits: u32)
    requires
        base_addr < 0xFFFF,
    ensures
        final(regs)@ == old(regs)@.insert(base_addr, high_word(bits)).insert(
            (base_addr + 1) as u16,
            low_word(bits),
        ),
{
    regs.insert(base_addr, (bits / 0x10000) as u16);
    regs.insert(base_addr + 1, (bits % 0x10000) as u16);
}

/// Splitting a value over two registers and joining them back gives the
/// value; the first register holds the more significant half.
pub proof fn lemma_words_roundtrip(bits: u32)
    ensures
        join_words(high_word(bits), low_word(bits)) == bits,
        high_word(bits) * 0x10000 + low_word(bits) == bits,
{
}

/// Every register of `cnt` registers from `addr` exists in `regs` (and no
/// address passes 0xFFFF).
pub open spec fn all_present(regs: Map<u16, u16>, addr: u16, cnt: u16) -> bool {
    &&& addr + cnt <= 0x10000
    &&& forall|j: u16| addr <= j < addr + cnt ==> #[trigger] regs.contains_key(j)
}

/// The values of `cnt` registers from `addr`.
pub open spec fn register_values(regs: Map<u16, u16>, addr: u16, cnt: u16) -> Seq<u16> {
    Seq::new(cnt as nat, |i: int| regs[(addr + i) as u16])
}

/// A read stops at the first missing register before its addresses could
/// pass 0xFFFF.
pub open spec fn read_stays_in_range(regs: Map<u16, u16>, addr: u16, cnt: u16) -> bool {
    addr + cnt <= 0x10000 || exists|j: u16| addr <= j && !#[trigger] regs.contains_key(j)
}

/// Why a Modbus request was refused.
#[derive(Debug, Clone, Copy, PartialEq, Eq, Structural)]
pub enum ModbusException {
    IllegalFunction,
    IllegalDataAddress,
    GatewayTargetDevice,
}

/// Reads `cnt` consecutive registers from `addr`; a missing register
/// refuses the whole read with `IllegalDataAddress`.
pub fn register_read(registers: &HashMap<u16, u16>, addr: u16, cnt: u16) -> (res: Result<
    Vec<u16>,
    ModbusException,
>)
    requires
        read_stays_in_range(registers@, addr, cnt),
    ensures
        all_present(registers@, addr, cnt) ==> res == Ok::<Vec<u16>, ModbusException>(res->Ok_0)
            && res->Ok_0@ == register_values(registers@, addr, cnt),
        !all_present(registers@, addr, cnt) ==> res == Err::<Vec<u16>, ModbusException>(
            ModbusException::IllegalDataAddress,
        ),
{
    let mut values: Vec<u16> = Vec::new();
    let mut i: u16 = 0;
    while i < cnt
        invariant
            i <= cnt,
            read_stays_in_range(registers@, addr, cnt),
            all_present(registers@, addr, i),
            values@ == register_values(registers@, addr, i),
        decreases cnt - i,
    {
        if addr as u32 + i as u32 > 0xFFFF {
            // every address from addr up to 0xFFFF exists, so the read cannot stay in range
            assert(false) by {
                let j = choose|j: u16| addr <= j && !registers@.contains_key(j);
                assert(registers@.contains_key(j));
            }
        }
        let reg_addr: u16 = addr + i;
        match registers.get(&reg_addr) {
            Some(v) => {
                values.push(*v);
            },
            None => {
                return Err(ModbusException::IllegalDataAddress);
            },
        }
        i = i + 1;
        assert(values@ =~= register_values(registers@, addr, i));
    }
    Ok(values)
}

} // verus!
