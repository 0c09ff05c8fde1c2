//! The emulated SunSpec meters: each meter's register map (Model 1
//! identification followed by a Model 213 float meter block), how readings
//! are stored in it, and how Modbus requests are routed to a meter and answered.

use std::collections::HashMap;
use vstd::prelude::*;
use vstd::string::StringSliceAdditionalSpecFns;
use crate::registers::{
    all_present, byte_at, encode_sunspec_str, high_word, join_words, law_sunspec_str_roundtrip,
    lemma_words_roundtrip, low_word, read_stays_in_range, register_bytes, register_read,
    register_values, set_holding_reg_f32, strip_trailing_zeros, sunspec_register,
    sunspec_str_registers, ModbusException,
};
use crate::text::{trim, trim_chars};

verus! {

broadcast use vstd::std_specs::hash::group_hash_axioms;

/// How one emulated meter presents itself.
#[derive(Debug)]
pub struct MeterConfig {
    pub slave_id: u8,
    pub serial_number: String,
    pub invert_power: bool,
    pub name: String,
}

impl Clone for MeterConfig {
    fn clone(&self) -> (c: Self)
        ensures
            c == *self,
    {
        MeterConfig {
            slave_id: self.slave_id,
            serial_number: self.serial_number.clone(),
            invert_power: self.invert_power,
            name: self.name.clone(),
        }
    }
}

/// One measured quantity, carried as the bit pattern of its IEEE 754
/// single precision value (`f32::to_bits`).
#[derive(Debug, Clone, Copy, PartialEq, Eq, Structural)]
pub enum Readings {
    NetACCurrent(u32),
    PhaseACurrent(u32),
    PhaseBCurrent(u32),
    PhaseCCurrent(u32),
    AveragePhaseVoltage(u32),
    PhaseAVoltage(u32),
    PhaseBVoltage(u32),
    PhaseCVoltage(u32),
    AverageLLVoltage(u32),
    PhaseABVoltage(u32),
    PhaseBCVoltage(u32),
    PhaseCAVoltage(u32),
    Frequency(u32),
    TotalRealPower(u32),
    PhaseAWatts(u32),
    PhaseBWatts(u32),
    PhaseCWatts(u32),
    ApparentPower(u32),
    PhaseAVA(u32),
    PhaseBVA(u32),
    PhaseCVA(u32),
    ReactivePower(u32),
    PhaseAVAR(u32),
    PhaseBVAR(u32),
    PhaseCVAR(u32),
    PowerFactorTotal(u32),
    PhaseAPF(u32),
    PhaseBPF(u32),
    PhaseCPF(u32),
    TotalExportEnergy(u32),
    TotalImportEnergy(u32),
}

impl Readings {
    /// The first of the two registers that hold this quantity, its value
    /// bits, and whether it is an active power (whose sign a meter may invert).
    pub open spec fn parts(self) -> (u16, u32, bool) {
        match self {
            Readings::NetACCurrent(v) => (40071, v, false),
            Readings::PhaseACurrent(v) => (40073, v, false),
            Readings::PhaseBCurrent(v) => (40075, v, false),
            Readings::PhaseCCurrent(v) => (40077, v, false),
            Readings::AveragePhaseVoltage(v) => (40079, v, false),
            Readings::PhaseAVoltage(v) => (40081, v, false),
            Readings::PhaseBVoltage(v) => (40083, v, false),
            Readings::PhaseCVoltage(v) => (40085, v, false),
            Readings::AverageLLVoltage(v) => (40087, v, false),
            Readings::PhaseABVoltage(v) => (40089, v, false),
            Readings::PhaseBCVoltage(v) => (40091, v, false),
            Readings::PhaseCAVoltage(v) => (40093, v, false),
            Readings::Frequency(v) => (40095, v, false),
            Readings::TotalRealPower(v) => (40097, v, true),
            Readings::PhaseAWatts(v) => (40099, v, true),
            Readings::PhaseBWatts(v) => (40101, v, true),
            Readings::PhaseCWatts(v) => (40103, v, true),
            Readings::ApparentPower(v) => (40105, v, false),
            Readings::PhaseAVA(v) => (40107, v, false),
            Readings::PhaseBVA(v) => (40109, v, false),
            Readings::PhaseCVA(v) => (40111, v, false),
            Readings::ReactivePower(v) => (40113, v, false),
            Readings::PhaseAVAR(v) => (40115, v, false),
            Readings::PhaseBVAR(v) => (40117, v, false),
            Readings::PhaseCVAR(v) => (40119, v, false),
            Readings::PowerFactorTotal(v) => (40121, v, false),
            Readings::PhaseAPF(v) => (40123, v, false),
            Readings::PhaseBPF(v) => (40125, v, false),
            Readings::PhaseCPF(v) => (40127, v, false),
            Readings::TotalExportEnergy(v) => (40129, v, false),
            Readings::TotalImportEnergy(v) => (40137, v, false),
        }
    }

    pub open spec fn register_of(self) -> u16 {
        self.parts().0
    }

    pub open spec fn value_bits(self) -> u32 {
        self.parts().1
    }

    pub open spec fn is_active_power(self) -> bool {
        self.parts().2
    }

    /// The register address, the value bits and the active-power flag of this reading.
    pub fn register_parts(&self) -> (p: (u16, u32, bool))
        ensures
            p == self.parts(),
    {
        match self {
            Readings::NetACCurrent(v) => (40071, *v, false),
            Readings::PhaseACurrent(v) => (40073, *v, false),
            Readings::PhaseBCurrent(v) => (40075, *v, false),
            Readings::PhaseCCurrent(v) => (40077, *v, false),
            Readings::AveragePhaseVoltage(v) => (40079, *v, false),
            Readings::PhaseAVoltage(v) => (40081, *v, false),
            Readings::PhaseBVoltage(v) => (40083, *v, false),
            Readings::PhaseCVoltage(v) => (40085, *v, false),
            Readings::AverageLLVoltage(v) => (40087, *v, false),
            Readings::PhaseABVoltage(v) => (40089, *v, false),
            Readings::PhaseBCVoltage(v) => (40091, *v, false),
            Readings::PhaseCAVoltage(v) => (40093, *v, false),
            Readings::Frequency(v) => (40095, *v, false),
            Readings::TotalRealPower(v) => (40097, *v, true),
            Readings::PhaseAWatts(v) => (40099, *v, true),
            Readings::PhaseBWatts(v) => (40101, *v, true),
            Readings::PhaseCWatts(v) => (40103, *v, true),
            Readings::ApparentPower(v) => (40105, *v, false),
            Readings::PhaseAVA(v) => (40107, *v, false),
            Readings::PhaseBVA(v) => (40109, *v, false),
            Readings::PhaseCVA(v) => (40111, *v, false),
            Readings::ReactivePower(v) => (40113, *v, false),
            Readings::PhaseAVAR(v) => (40115, *v, false),
            Readings::PhaseBVAR(v) => (40117, *v, false),
            Readings::PhaseCVAR(v) => (40119, *v, false),
            Readings::PowerFactorTotal(v) => (40121, *v, false),
            Readings::PhaseAPF(v) => (40123, *v, false),
            Readings::PhaseBPF(v) => (40125, *v, false),
            Readings::PhaseCPF(v) => (40127, *v, false),
            Readings::TotalExportEnergy(v) => (40129, *v, false),
            Readings::TotalImportEnergy(v) => (40137, *v, false),
        }
    }
}

/// The value bits of `-v` for an `f32` `v` given by its bits: the IEEE 754
/// sign bit flipped, except that both zeros give positive zero.
pub open spec fn inverted_power_bits(bits: u32) -> u32 {
    if bits & 0x7FFF_FFFF == 0 {
        0
    } else {
        bits ^ 0x8000_0000
    }
}

/// The bits a meter stores for `r`: active powers are inverted on an
/// inverting meter, everything else is stored as it comes.
pub open spec fn stored_bits(r: Readings, invert_power: bool) -> u32 {
    if invert_power && r.is_active_power() {
        inverted_power_bits(r.value_bits())
    } else {
        r.value_bits()
    }
}

/// The register map after storing `r`.
pub open spec fn store_reading(regs: Map<u16, u16>, invert_power: bool, r: Readings) -> Map<u16, u16> {
    let bits = stored_bits(r, invert_power);
    regs.insert(r.register_of(), high_word(bits)).insert((r.register_of() + 1) as u16, low_word(bits))
}

/// Computes the bits to store for an active power on an inverting meter.
pub fn invert_power_bits(bits: u32) -> (r: u32)
    ensures
        r == inverted_power_bits(bits),
{
    if bits & 0x7FFF_FFFF == 0 {
        0
    } else {
        bits ^ 0x8000_0000
    }
}

/// The addresses a meter answers: two discovery registers at 0 and 1, and
/// the SunSpec map from 40000 through the end marker at 40195..40196.
pub open spec fn in_register_layout(a: u16) -> bool {
    a == 0 || a == 1 || (40000 <= a && a < 40197)
}

/// The registers that readings write: the data points of Model 213.
pub open spec fn is_measurement_register(a: u16) -> bool {
    40071 <= a && a <= 40138
}

/// The serial number a meter reports: the configured one, or "00000001"
/// when it is empty or only whitespace.
pub open spec fn reported_serial(serial: Seq<char>) -> Seq<char> {
    if trim_chars(serial).len() == 0 {
        "00000001"@
    } else {
        serial
    }
}

/// The value of register `a` of a freshly built meter.
pub open spec fn initial_register_value(slave_id: u8, serial: Seq<char>, a: u16) -> u16 {
    if a == 0 {
        1
    } else if a == 40000 {
        0x5375
    } else if a == 40001 {
        0x6e53
    } else if a == 40002 {
        1
    } else if a == 40003 {
        65
    } else if 40004 <= a < 40020 {
        sunspec_register("Fronius".spec_bytes(), a - 40004)
    } else if 40020 <= a < 40036 {
        sunspec_register("Smart Meter 63A".spec_bytes(), a - 40020)
    } else if 40036 <= a < 40044 {
        sunspec_register("".spec_bytes(), a - 40036)
    } else if 40044 <= a < 40052 {
        sunspec_register("1.0".spec_bytes(), a - 40044)
    } else if 40052 <= a < 40068 {
        sunspec_register(vstd::utf8::encode_utf8(reported_serial(serial)), a - 40052)
    } else if a == 40068 {
        slave_id as u16
    } else if a == 40069 {
        213
    } else if a == 40070 {
        124
    } else if a == 40195 {
        0xFFFF
    } else {
        0
    }
}

/// The register map of a freshly built meter.
pub open spec fn initial_registers(slave_id: u8, serial: Seq<char>) -> Map<u16, u16> {
    Map::new(|a: u16| in_register_layout(a), |a: u16| initial_register_value(slave_id, serial, a))
}

/// A register map that has the meter layout, with every register outside
/// the measurement block still holding its initial value.
pub open spec fn registers_consistent(slave_id: u8, serial: Seq<char>, regs: Map<u16, u16>) -> bool {
    &&& forall|a: u16| #[trigger] regs.contains_key(a) <==> in_register_layout(a)
    &&& forall|a: u16|
        in_register_layout(a) && !is_measurement_register(a) ==> #[trigger] regs[a]
            == initial_register_value(slave_id, serial, a)
}

/// A read of `cnt` registers from `addr` that stays inside the layout.
pub open spec fn read_allowed(addr: u16, cnt: u16) -> bool {
    cnt == 0 || addr + cnt <= 2 || (40000 <= addr && addr + cnt <= 40197)
}

/// The abstract state of a meter.
pub struct MeterState {
    pub slave_id: u8,
    pub serial_number: Seq<char>,
    pub invert_power: bool,
    pub name: Seq<char>,
    pub registers: Map<u16, u16>,
}

/// The state of a meter built from `config`.
pub open spec fn fresh_meter_state(config: MeterConfig) -> MeterState {
    MeterState {
        slave_id: config.slave_id,
        serial_number: config.serial_number@,
        invert_power: config.invert_power,
        name: config.name@,
        registers: initial_registers(config.slave_id, config.serial_number@),
    }
}

/// The state of a meter after it stored `r`.
pub open spec fn applied(s: MeterState, r: Readings) -> MeterState {
    MeterState {
        slave_id: s.slave_id,
        serial_number: s.serial_number,
        invert_power: s.invert_power,
        name: s.name,
        registers: store_reading(s.registers, s.invert_power, r),
    }
}

/// Registers `start`, `start + 1`, ... holding `values`.
pub open spec fn register_block(start: u16, values: Seq<u16>) -> Map<u16, u16> {
    Map::new(|a: u16| start <= a < start + values.len(), |a: u16| values[a - start])
}

fn insert_registers(regs: &mut HashMap<u16, u16>, start: u16, values: &Vec<u16>)
    requires
        start + values@.len() <= 0x10000,
    ensures
        final(regs)@ == old(regs)@.union_prefer_right(register_block(start, values@)),
{
    let mut i: usize = 0;
    while i < values.len()
        invariant
            start + values@.len() <= 0x10000,
            i <= values@.len(),
            regs@ == old(regs)@.union_prefer_right(register_block(start, values@.take(i as int))),
        decreases values@.len() - i,
    {
        regs.insert(start + i as u16, values[i]);
        i = i + 1;
        assert(regs@ =~= old(regs)@.union_prefer_right(register_block(start, values@.take(i as int))));
    }
    assert(values@.take(values@.len() as int) =~= values@);
}

fn fill_registers(regs: &mut HashMap<u16, u16>, start: u16, count: u16, value: u16)
    requires
        start + count <= 0x10000,
    ensures
        final(regs)@ == old(regs)@.union_prefer_right(
            Map::new(|a: u16| start <= a < start + count, |a: u16| value),
        ),
{
    let mut i: u16 = 0;
    while i < count
        invariant
            start + count <= 0x10000,
            i <= count,
            regs@ == old(regs)@.union_prefer_right(
                Map::new(|a: u16| start <= a < start + i, |a: u16| value),
            ),
        decreases count - i,
    {
        regs.insert(start + i, value);
        i = i + 1;
        assert(regs@ =~= old(regs)@.union_prefer_right(
            Map::new(|a: u16| start <= a < start + i, |a: u16| value),
        ));
    }
}

/// One emulated meter and its holding registers.
pub struct MeterInstance {
    slave_id: u8,
    serial_number: String,
    invert_power: bool,
    name: String,
    holding_registers: HashMap<u16, u16>,
}

impl View for MeterInstance {
    type V = MeterState;

    closed spec fn view(&self) -> MeterState {
        MeterState {
            slave_id: self.slave_id,
            serial_number: self.serial_number@,
            invert_power: self.invert_power,
            name: self.name@,
            registers: self.holding_registers@,
        }
    }
}

impl MeterInstance {
    /// The meter's registers have the layout, and every register outside the
    /// measurement block holds the value the meter was built with.
    pub open spec fn wf(&self) -> bool {
        registers_consistent(self@.slave_id, self@.serial_number, self@.registers)
    }

    /// Builds the meter described by `config`.
    pub fn new(config: &MeterConfig) -> (meter: Self)
        ensures
            meter@ == fresh_meter_state(*config),
            meter.wf(),
    {
        let mut regs: HashMap<u16, u16> = HashMap::new();
        // SunSpec base marker "SunS"
        regs.insert(40000, 0x5375);
        regs.insert(40001, 0x6e53);
        // Model 1 (common identification) header: id 1, 65 registers
        regs.insert(40002, 1);
        regs.insert(40003, 65);
        insert_registers(&mut regs, 40004, &encode_sunspec_str("Fronius", 16));
        insert_registers(&mut regs, 40020, &encode_sunspec_str("Smart Meter 63A", 16));
        insert_registers(&mut regs, 40036, &encode_sunspec_str("", 8));
        insert_registers(&mut regs, 40044, &encode_sunspec_str("1.0", 8));
        let serial: &str = config.serial_number.as_str();
        let clean_sn: &str = if trim(serial).is_empty() {
            "00000001"
        } else {
            serial
        };
        insert_registers(&mut regs, 40052, &encode_sunspec_str(clean_sn, 16));
        // Modbus device address
        regs.insert(40068, config.slave_id as u16);
        // Model 213 (float AC meter) header, then its 124 data registers
        regs.insert(40069, 213);
        regs.insert(40070, 124);
        fill_registers(&mut regs, 40071, 124, 0);
        // end of the SunSpec model list
        regs.insert(40195, 0xFFFF);
        regs.insert(40196, 0x0000);
        // discovery probe fallbacks
        regs.insert(0, 1);
        regs.insert(1, 0);
        assert(regs@ =~= initial_registers(config.slave_id, config.serial_number@));
        MeterInstance {
            slave_id: config.slave_id,
            serial_number: config.serial_number.clone(),
            invert_power: config.invert_power,
            name: config.name.clone(),
            holding_registers: regs,
        }
    }

    pub fn slave_id(&self) -> (id: u8)
        ensures
            id == self@.slave_id,
    {
        self.slave_id
    }

    pub fn invert_power(&self) -> (b: bool)
        ensures
            b == self@.invert_power,
    {
        self.invert_power
    }

    pub fn serial_number(&self) -> (s: &String)
        ensures
            s@ == self@.serial_number,
    {
        &self.serial_number
    }

    pub fn name(&self) -> (s: &String)
        ensures
            s@ == self@.name,
    {
        &self.name
    }

    /// Stores a reading in its two registers, high word first; an inverting
    /// meter stores active powers negated (zero as positive zero).
    pub fn update_reading(&mut self, reading: Readings)
        requires
            old(self).wf(),
        ensures
            final(self)@ == applied(old(self)@, reading),
            final(self).wf(),
    {
        let (addr, v, is_power) = reading.register_parts();
        let val: u32 = if self.invert_power && is_power {
            invert_power_bits(v)
        } else {
            v
        };
        set_holding_reg_f32(&mut self.holding_registers, addr, val);
    }

    /// Reads `cnt` registers from `addr`. The read succeeds exactly when all
    /// of them lie in the register layout.
    pub fn read_registers(&self, addr: u16, cnt: u16) -> (res: Result<Vec<u16>, ModbusException>)
        requires
            self.wf(),
        ensures
            read_allowed(addr, cnt) ==> res == Ok::<Vec<u16>, ModbusException>(res->Ok_0)
                && res->Ok_0@ == register_values(self@.registers, addr, cnt),
            !read_allowed(addr, cnt) ==> res == Err::<Vec<u16>, ModbusException>(
                ModbusException::IllegalDataAddress,
            ),
    {
        proof {
            lemma_read_allowed(self.holding_registers@, addr, cnt);
        }
        register_read(&self.holding_registers, addr, cnt)
    }
}

/// On a map with the meter layout, a read finds all its registers exactly
/// when it is allowed, and never runs past address 0xFFFF.
pub proof fn lemma_read_allowed(regs: Map<u16, u16>, addr: u16, cnt: u16)
    requires
        forall|a: u16| #[trigger] regs.contains_key(a) <==> in_register_layout(a),
    ensures
        all_present(regs, addr, cnt) <==> read_allowed(addr, cnt),
        read_stays_in_range(regs, addr, cnt),
{
    assert(!regs.contains_key(0xFFFFu16));
    if cnt > 0 && all_present(regs, addr, cnt) {
        assert(regs.contains_key(addr));
        if addr < 2 && addr + cnt > 2 {
            assert(regs.contains_key(2u16));
        }
        if addr >= 40000 && addr + cnt > 40197 {
            assert(regs.contains_key(40197u16));
        }
    }
}

/// Read after write: after a meter stores `r`, reading the two registers of
/// `r` (as holding or input registers) gives the high and the low word of the
/// stored bits, which join back to those bits; every other register is unchanged.
pub proof fn law_read_after_write(s: MeterState, r: Readings)
    ensures
        ({
            let bits = stored_bits(r, s.invert_power);
            let words = seq![high_word(bits), low_word(bits)];
            &&& answer(applied(s, r), ModbusRequest::ReadHoldingRegisters(r.register_of(), 2)) == Ok::<
                Seq<u16>,
                ModbusException,
            >(words)
            &&& answer(applied(s, r), ModbusRequest::ReadInputRegisters(r.register_of(), 2)) == Ok::<
                Seq<u16>,
                ModbusException,
            >(words)
            &&& join_words(words[0], words[1]) == bits
        }),
        forall|a: u16|
            a != r.register_of() && a != r.register_of() + 1 ==> #[trigger] applied(s, r).registers.contains_key(a)
                == s.registers.contains_key(a) && applied(s, r).registers[a] == s.registers[a],
{
    let bits = stored_bits(r, s.invert_power);
    let words = seq![high_word(bits), low_word(bits)];
    assert(register_values(applied(s, r).registers, r.register_of(), 2) =~= words);
    lemma_words_roundtrip(bits);
}

/// Inversion only concerns active powers: every other quantity is stored the
/// same on an inverting and on a plain meter, and a plain meter stores every
/// quantity as it comes.
pub proof fn law_inversion_only_for_active_power(r: Readings)
    ensures
        stored_bits(r, false) == r.value_bits(),
        !r.is_active_power() ==> stored_bits(r, true) == r.value_bits(),
        r.is_active_power() ==> stored_bits(r, true) == inverted_power_bits(r.value_bits()),
{
}

/// Inverting an active power keeps its magnitude bits and gives the
/// opposite sign, except that both zeros become positive zero (never
/// negative zero).
pub proof fn law_inversion_flips_sign(bits: u32)
    ensures
        inverted_power_bits(bits) != 0x8000_0000,
        inverted_power_bits(bits) & 0x7FFF_FFFF == bits & 0x7FFF_FFFF,
        bits & 0x7FFF_FFFF != 0 ==> (inverted_power_bits(bits) >= 0x8000_0000) != (bits
            >= 0x8000_0000),
{
    assert(bits & 0x7FFF_FFFF == 0 ==> (0u32 & 0x7FFF_FFFFu32) == (bits & 0x7FFF_FFFF))
        by (bit_vector);
    assert((bits ^ 0x8000_0000) & 0x7FFF_FFFF == bits & 0x7FFF_FFFF) by (bit_vector);
    assert(bits & 0x7FFF_FFFF != 0 ==> (bits ^ 0x8000_0000) != 0x8000_0000) by (bit_vector);
    assert(((bits ^ 0x8000_0000) >= 0x8000_0000) != (bits >= 0x8000_0000)) by (bit_vector);
}

/// Inverting twice gives the value back, except for negative zero, which
/// comes back as positive zero.
pub proof fn law_inversion_involutive(bits: u32)
    requires
        bits != 0x8000_0000,
    ensures
        inverted_power_bits(inverted_power_bits(bits)) == bits,
{
    assert(bits != 0x8000_0000 && bits & 0x7FFF_FFFF == 0 ==> bits == 0) by (bit_vector);
    assert(bits & 0x7FFF_FFFF != 0 ==> (bits ^ 0x8000_0000) & 0x7FFF_FFFF != 0 && (bits
        ^ 0x8000_0000) ^ 0x8000_0000 == bits) by (bit_vector);
}

/// Routing: a request for a unit id goes to the first meter with that id;
/// a broadcast id (0 or 255) that no meter has goes to the first meter; any
/// other unknown id goes nowhere.
pub proof fn law_routing(meters: Seq<MeterState>, slave: u8)
    requires
        meters.len() > 0,
    ensures
        route(meters, slave) matches Some(i) ==> 0 <= i < meters.len(),
        (exists|j: int| 0 <= j < meters.len() && #[trigger] meters[j].slave_id == slave) ==> (
        route(meters, slave) matches Some(i) && meters[i].slave_id == slave && forall|j: int|
            0 <= j < i ==> #[trigger] meters[j].slave_id != slave),
        (forall|j: int| 0 <= j < meters.len() ==> #[trigger] meters[j].slave_id != slave) ==> route(
            meters,
            slave,
        ) == (if slave == 0 || slave == 255 {
            Some(0int)
        } else {
            None
        }),
{
    lemma_find_meter_facts(meters, slave, 0);
}

proof fn lemma_find_meter_facts(meters: Seq<MeterState>, slave: u8, k: int)
    requires
        0 <= k,
    ensures
        find_meter_from(meters, slave, k) matches Some(i) ==> k <= i < meters.len()
            && meters[i].slave_id == slave && forall|j: int| k <= j < i ==> #[trigger] meters[j].slave_id
            != slave,
        find_meter_from(meters, slave, k) is None ==> forall|j: int|
            k <= j < meters.len() ==> #[trigger] meters[j].slave_id != slave,
    decreases meters.len() - k,
{
    if k < meters.len() && meters[k].slave_id != slave {
        lemma_find_meter_facts(meters, slave, k + 1);
    }
}

/// A reading broadcast to every meter leaves the routing as it was, and the
/// meter that serves a unit id then answers a read of the reading's two
/// registers with the words of what that meter stored.
pub proof fn law_broadcast_then_read(meters: Seq<MeterState>, r: Readings, slave: u8)
    ensures
        ({
            let after = Seq::new(meters.len(), |i: int| applied(meters[i], r));
            &&& route(after, slave) == route(meters, slave)
            &&& forall|i: int|
                route(meters, slave) == Some(i) && 0 <= i < meters.len() ==> #[trigger] answer(
                    after[i],
                    ModbusRequest::ReadHoldingRegisters(r.register_of(), 2),
                ) == Ok::<Seq<u16>, ModbusException>(
                    seq![
                        high_word(stored_bits(r, meters[i].invert_power)),
                        low_word(stored_bits(r, meters[i].invert_power)),
                    ],
                )
        }),
{
    let after = Seq::new(meters.len(), |i: int| applied(meters[i], r));
    lemma_find_meter_same_ids(meters, after, slave, 0);
    assert forall|i: int|
        route(meters, slave) == Some(i) && 0 <= i < meters.len() implies #[trigger] answer(
            after[i],
            ModbusRequest::ReadHoldingRegisters(r.register_of(), 2),
        ) == Ok::<Seq<u16>, ModbusException>(
            seq![
                high_word(stored_bits(r, meters[i].invert_power)),
                low_word(stored_bits(r, meters[i].invert_power)),
            ],
        ) by {
        law_read_after_write(meters[i], r);
    }
}

proof fn lemma_find_meter_same_ids(a: Seq<MeterState>, b: Seq<MeterState>, slave: u8, k: int)
    requires
        a.len() == b.len(),
        forall|i: int| 0 <= i < a.len() ==> #[trigger] a[i].slave_id == b[i].slave_id,
    ensures
        find_meter_from(a, slave, k) == find_meter_from(b, slave, k),
    decreases a.len() - k,
{
    if 0 <= k < a.len() {
        lemma_find_meter_same_ids(a, b, slave, k + 1);
    }
}

/// The state of a meter after it stored the readings `rs`, in order.
pub open spec fn apply_all(s: MeterState, rs: Seq<Readings>) -> MeterState
    decreases rs.len(),
{
    if rs.len() == 0 {
        s
    } else {
        applied(apply_all(s, rs.drop_last()), rs.last())
    }
}

/// Whether storing `r` writes register `a`.
pub open spec fn writes(r: Readings, a: u16) -> bool {
    a == r.register_of() || a == r.register_of() + 1
}

/// The word that storing `r` writes to register `a` (one of its two).
pub open spec fn written_word(r: Readings, invert_power: bool, a: u16) -> u16 {
    if a == r.register_of() {
        high_word(stored_bits(r, invert_power))
    } else {
        low_word(stored_bits(r, invert_power))
    }
}

proof fn lemma_apply_all_fields(s: MeterState, rs: Seq<Readings>)
    ensures
        apply_all(s, rs).slave_id == s.slave_id,
        apply_all(s, rs).serial_number == s.serial_number,
        apply_all(s, rs).invert_power == s.invert_power,
        apply_all(s, rs).name == s.name,
    decreases rs.len(),
{
    if rs.len() > 0 {
        lemma_apply_all_fields(s, rs.drop_last());
    }
}

proof fn lemma_store_word(regs: Map<u16, u16>, invert_power: bool, r: Readings, a: u16)
    ensures
        writes(r, a) ==> store_reading(regs, invert_power, r).contains_key(a) && store_reading(
            regs,
            invert_power,
            r,
        )[a] == written_word(r, invert_power, a),
        !writes(r, a) ==> store_reading(regs, invert_power, r).contains_key(a) == regs.contains_key(a)
            && store_reading(regs, invert_power, r)[a] == regs[a],
{
}

proof fn lemma_apply_all_step(s: MeterState, rs: Seq<Readings>)
    requires
        rs.len() > 0,
    ensures
        apply_all(s, rs).registers == store_reading(
            apply_all(s, rs.drop_last()).registers,
            s.invert_power,
            rs.last(),
        ),
{
    lemma_apply_all_fields(s, rs.drop_last());
}

/// A register that none of the readings writes keeps its value; the meter's
/// other fields never change.
pub proof fn law_unwritten_register_kept(s: MeterState, rs: Seq<Readings>, a: u16)
    requires
        forall|k: int| 0 <= k < rs.len() ==> !writes(#[trigger] rs[k], a),
    ensures
        apply_all(s, rs).registers.contains_key(a) == s.registers.contains_key(a),
        apply_all(s, rs).registers[a] == s.registers[a],
        apply_all(s, rs).slave_id == s.slave_id,
        apply_all(s, rs).serial_number == s.serial_number,
        apply_all(s, rs).invert_power == s.invert_power,
        apply_all(s, rs).name == s.name,
    decreases rs.len(),
{
    lemma_apply_all_fields(s, rs);
    if rs.len() > 0 {
        let init = rs.drop_last();
        assert forall|k: int| 0 <= k < init.len() implies !writes(#[trigger] init[k], a) by {
            assert(init[k] == rs[k]);
        }
        law_unwritten_register_kept(s, init, a);
        lemma_apply_all_step(s, rs);
        assert(!writes(rs[rs.len() - 1], a));
        lemma_store_word(apply_all(s, init).registers, s.invert_power, rs.last(), a);
    }
}

/// Last write wins: after a sequence of readings, a register holds the word
/// written by the last reading `rs[k]` that writes it.
pub proof fn law_last_write_wins(s: MeterState, rs: Seq<Readings>, a: u16, k: int)
    requires
        0 <= k < rs.len(),
        writes(rs[k], a),
        forall|j: int| k < j < rs.len() ==> !writes(#[trigger] rs[j], a),
    ensures
        apply_all(s, rs).registers.contains_key(a),
        apply_all(s, rs).registers[a] == written_word(rs[k], s.invert_power, a),
    decreases rs.len(),
{
    let init = rs.drop_last();
    lemma_apply_all_step(s, rs);
    lemma_apply_all_fields(s, init);
    lemma_store_word(apply_all(s, init).registers, s.invert_power, rs.last(), a);
    if k < rs.len() - 1 {
        assert(!writes(rs[rs.len() - 1], a));
        assert(init[k] == rs[k]);
        assert forall|j: int| k < j < init.len() implies !writes(#[trigger] init[j], a) by {
            assert(init[j] == rs[j]);
        }
        law_last_write_wins(s, init, a, k);
    }
}

/// The meters after every reading of `rs` was handled in order, each one
/// stored in every meter (the step that `handle_register_event` takes).
pub open spec fn handled_all(meters: Seq<MeterState>, rs: Seq<Readings>) -> Seq<MeterState>
    decreases rs.len(),
{
    if rs.len() == 0 {
        meters
    } else {
        let before = handled_all(meters, rs.drop_last());
        Seq::new(before.len(), |i: int| applied(before[i], rs.last()))
    }
}

/// Handling readings r1..rn in order leaves every meter as if it had stored
/// r1..rn itself, in that order.
pub proof fn law_handled_events(meters: Seq<MeterState>, rs: Seq<Readings>)
    ensures
        handled_all(meters, rs).len() == meters.len(),
        forall|i: int|
            0 <= i < meters.len() ==> #[trigger] handled_all(meters, rs)[i] == apply_all(meters[i], rs),
    decreases rs.len(),
{
    if rs.len() > 0 {
        law_handled_events(meters, rs.drop_last());
    }
}

/// The first registers of the four active powers.
pub open spec fn is_active_power_register(a: u16) -> bool {
    a == 40097 || a == 40099 || a == 40101 || a == 40103
}

/// The registers that hold active powers.
pub open spec fn in_active_power_block(a: u16) -> bool {
    40097 <= a <= 40104
}

/// The 32-bit value of the register pair that starts at `a`.
pub open spec fn pair_bits(regs: Map<u16, u16>, a: u16) -> u32 {
    join_words(regs[a], regs[(a + 1) as u16])
}

/// Register maps of an inverting meter (`p`) and of a plain meter (`q`) that
/// agree on every register outside the active powers, while each
/// active-power pair of `p` holds the inversion of `q`'s.
pub open spec fn inversion_related(p: Map<u16, u16>, q: Map<u16, u16>) -> bool {
    &&& forall|a: u16|
        #![trigger p.contains_key(a)]
        #![trigger q.contains_key(a)]
        !in_active_power_block(a) ==> p.contains_key(a) == q.contains_key(a) && p[a] == q[a]
    &&& forall|a: u16|
        #![trigger p.contains_key(a)]
        #![trigger q.contains_key(a)]
        in_active_power_block(a) ==> p.contains_key(a) && q.contains_key(a)
    &&& forall|a: u16|
        is_active_power_register(a) ==> #[trigger] pair_bits(p, a) == inverted_power_bits(
            pair_bits(q, a),
        )
}

proof fn lemma_store_keeps_related(p: Map<u16, u16>, q: Map<u16, u16>, r: Readings)
    requires
        inversion_related(p, q),
    ensures
        inversion_related(store_reading(p, true, r), store_reading(q, false, r)),
{
    let p2 = store_reading(p, true, r);
    let q2 = store_reading(q, false, r);
    let addr = r.register_of();
    let b = r.value_bits();
    if r.is_active_power() {
        lemma_words_roundtrip(inverted_power_bits(b));
        lemma_words_roundtrip(b);
        assert forall|a: u16| is_active_power_register(a) implies #[trigger] pair_bits(p2, a)
            == inverted_power_bits(pair_bits(q2, a)) by {
            if a == addr {
                assert(pair_bits(p2, a) == inverted_power_bits(b));
                assert(pair_bits(q2, a) == b);
            } else {
                assert(pair_bits(p2, a) == pair_bits(p, a));
                assert(pair_bits(q2, a) == pair_bits(q, a));
            }
        }
    } else {
        assert forall|a: u16| is_active_power_register(a) implies #[trigger] pair_bits(p2, a)
            == inverted_power_bits(pair_bits(q2, a)) by {
            assert(pair_bits(p2, a) == pair_bits(p, a));
            assert(pair_bits(q2, a) == pair_bits(q, a));
        }
    }
}

/// An inverting and a plain meter built alike (same unit id and serial) and
/// fed the same readings agree on every register outside the active powers,
/// and each active power of the inverting meter is the inversion of the
/// plain meter's: the sign flipped, with zero as positive zero.
pub proof fn law_inverting_and_plain_meters(
    inverting: MeterConfig,
    plain: MeterConfig,
    rs: Seq<Readings>,
)
    requires
        inverting.invert_power,
        !plain.invert_power,
        inverting.slave_id == plain.slave_id,
        inverting.serial_number@ == plain.serial_number@,
    ensures
        inversion_related(
            apply_all(fresh_meter_state(inverting), rs).registers,
            apply_all(fresh_meter_state(plain), rs).registers,
        ),
{
    let p = fresh_meter_state(inverting);
    let q = fresh_meter_state(plain);
    assert(inverted_power_bits(0) == 0) by {
        assert(0u32 & 0x7FFF_FFFFu32 == 0) by (bit_vector);
    }
    assert forall|a: u16| is_active_power_register(a) implies #[trigger] pair_bits(p.registers, a)
        == inverted_power_bits(pair_bits(q.registers, a)) by {
        assert(pair_bits(p.registers, a) == 0);
    }
    lemma_apply_all_related(p, q, rs);
}

proof fn lemma_apply_all_related(p: MeterState, q: MeterState, rs: Seq<Readings>)
    requires
        p.invert_power,
        !q.invert_power,
        inversion_related(p.registers, q.registers),
    ensures
        inversion_related(apply_all(p, rs).registers, apply_all(q, rs).registers),
        apply_all(p, rs).invert_power,
        !apply_all(q, rs).invert_power,
    decreases rs.len(),
{
    if rs.len() > 0 {
        lemma_apply_all_related(p, q, rs.drop_last());
        lemma_store_keeps_related(
            apply_all(p, rs.drop_last()).registers,
            apply_all(q, rs.drop_last()).registers,
            rs.last(),
        );
    }
}

/// The SunSpec Model 213 register of every quantity: each reading kind has
/// its own pair of registers (net current at 40071, phase currents at
/// 40073..40077, voltages from 40079, frequency at 40095, active powers at
/// 40097..40103, apparent, reactive powers and power factors after them,
/// exported energy at 40129, imported energy at 40137), carries its value
/// unchanged, and only the four active powers are subject to inversion.
pub proof fn law_reading_registers(v: u32)
    ensures
        Readings::NetACCurrent(v).register_of() == 40071 && Readings::NetACCurrent(v).value_bits() == v && Readings::NetACCurrent(v).is_active_power() == false,
        Readings::PhaseACurrent(v).register_of() == 40073 && Readings::PhaseACurrent(v).value_bits() == v && Readings::PhaseACurrent(v).is_active_power() == false,
        Readings::PhaseBCurrent(v).register_of() == 40075 && Readings::PhaseBCurrent(v).value_bits() == v && Readings::PhaseBCurrent(v).is_active_power() == false,
        Readings::PhaseCCurrent(v).register_of() == 40077 && Readings::PhaseCCurrent(v).value_bits() == v && Readings::PhaseCCurrent(v).is_active_power() == false,
        Readings::AveragePhaseVoltage(v).register_of() == 40079 && Readings::AveragePhaseVoltage(v).value_bits() == v && Readings::AveragePhaseVoltage(v).is_active_power() == false,
        Readings::PhaseAVoltage(v).register_of() == 40081 && Readings::PhaseAVoltage(v).value_bits() == v && Readings::PhaseAVoltage(v).is_active_power() == false,
        Readings::PhaseBVoltage(v).register_of() == 40083 && Readings::PhaseBVoltage(v).value_bits() == v && Readings::PhaseBVoltage(v).is_active_power() == false,
        Readings::PhaseCVoltage(v).register_of() == 40085 && Readings::PhaseCVoltage(v).value_bits() == v && Readings::PhaseCVoltage(v).is_active_power() == false,
        Readings::AverageLLVoltage(v).register_of() == 40087 && Readings::AverageLLVoltage(v).value_bits() == v && Readings::AverageLLVoltage(v).is_active_power() == false,
        Readings::PhaseABVoltage(v).register_of() == 40089 && Readings::PhaseABVoltage(v).value_bits() == v && Readings::PhaseABVoltage(v).is_active_power() == false,
        Readings::PhaseBCVoltage(v).register_of() == 40091 && Readings::PhaseBCVoltage(v).value_bits() == v && Readings::PhaseBCVoltage(v).is_active_power() == false,
        Readings::PhaseCAVoltage(v).register_of() == 40093 && Readings::PhaseCAVoltage(v).value_bits() == v && Readings::PhaseCAVoltage(v).is_active_power() == false,
        Readings::Frequency(v).register_of() == 40095 && Readings::Frequency(v).value_bits() == v && Readings::Frequency(v).is_active_power() == false,
        Readings::TotalRealPower(v).register_of() == 40097 && Readings::TotalRealPower(v).value_bits() == v && Readings::TotalRealPower(v).is_active_power() == true,
        Readings::PhaseAWatts(v).register_of() == 40099 && Readings::PhaseAWatts(v).value_bits() == v && Readings::PhaseAWatts(v).is_active_power() == true,
        Readings::PhaseBWatts(v).register_of() == 40101 && Readings::PhaseBWatts(v).value_bits() == v && Readings::PhaseBWatts(v).is_active_power() == true,
        Readings::PhaseCWatts(v).register_of() == 40103 && Readings::PhaseCWatts(v).value_bits() == v && Readings::PhaseCWatts(v).is_active_power() == true,
        Readings::ApparentPower(v).register_of() == 40105 && Readings::ApparentPower(v).value_bits() == v && Readings::ApparentPower(v).is_active_power() == false,
        Readings::PhaseAVA(v).register_of() == 40107 && Readings::PhaseAVA(v).value_bits() == v && Readings::PhaseAVA(v).is_active_power() == false,
        Readings::PhaseBVA(v).register_of() == 40109 && Readings::PhaseBVA(v).value_bits() == v && Readings::PhaseBVA(v).is_active_power() == false,
        Readings::PhaseCVA(v).register_of() == 40111 && Readings::PhaseCVA(v).value_bits() == v && Readings::PhaseCVA(v).is_active_power() == false,
        Readings::ReactivePower(v).register_of() == 40113 && Readings::ReactivePower(v).value_bits() == v && Readings::ReactivePower(v).is_active_power() == false,
        Readings::PhaseAVAR(v).register_of() == 40115 && Readings::PhaseAVAR(v).value_bits() == v && Readings::PhaseAVAR(v).is_active_power() == false,
        Readings::PhaseBVAR(v).register_of() == 40117 && Readings::PhaseBVAR(v).value_bits() == v && Readings::PhaseBVAR(v).is_active_power() == false,
        Readings::PhaseCVAR(v).register_of() == 40119 && Readings::PhaseCVAR(v).value_bits() == v && Readings::PhaseCVAR(v).is_active_power() == false,
        Readings::PowerFactorTotal(v).register_of() == 40121 && Readings::PowerFactorTotal(v).value_bits() == v && Readings::PowerFactorTotal(v).is_active_power() == false,
        Readings::PhaseAPF(v).register_of() == 40123 && Readings::PhaseAPF(v).value_bits() == v && Readings::PhaseAPF(v).is_active_power() == false,
        Readings::PhaseBPF(v).register_of() == 40125 && Readings::PhaseBPF(v).value_bits() == v && Readings::PhaseBPF(v).is_active_power() == false,
        Readings::PhaseCPF(v).register_of() == 40127 && Readings::PhaseCPF(v).value_bits() == v && Readings::PhaseCPF(v).is_active_power() == false,
        Readings::TotalExportEnergy(v).register_of() == 40129 && Readings::TotalExportEnergy(v).value_bits() == v && Readings::TotalExportEnergy(v).is_active_power() == false,
        Readings::TotalImportEnergy(v).register_of() == 40137 && Readings::TotalImportEnergy(v).value_bits() == v && Readings::TotalImportEnergy(v).is_active_power() == false,
{
}

/// Readings never share a register: every quantity starts at an odd address
/// of the Model 213 data block, so two pairs are either the same or apart.
pub proof fn law_reading_pairs_disjoint(r1: Readings, r2: Readings, a: u16)
    ensures
        40071 <= r1.register_of() <= 40137,
        (r1.register_of() - 40071) % 2 == 0,
        writes(r1, a) && writes(r2, a) ==> r1.register_of() == r2.register_of(),
{
}

/// The register map of a fresh meter with unit id `slave_id` and configured
/// serial `serial`: the "SunS" marker at 40000; the Model 1 header (1, 65)
/// and its text fields "Fronius", "Smart Meter 63A", an empty options field,
/// "1.0" and the serial number; the device address at 40068; the Model 213
/// header (213, 124) with 124 zeroed data registers; the end marker
/// (0xFFFF, 0) at 40195; and the discovery registers 0 and 1 holding 1 and 0.
/// No other address exists.
pub proof fn law_fresh_meter_layout(slave_id: u8, serial: Seq<char>)
    ensures
        ({
            let regs = initial_registers(slave_id, serial);
            &&& forall|a: u16|
                #[trigger] regs.contains_key(a) <==> (a == 0 || a == 1 || (40000 <= a && a <= 40196))
            &&& register_values(regs, 40000, 2) == seq![0x5375u16, 0x6e53u16]
            &&& register_values(regs, 40002, 2) == seq![1u16, 65u16]
            &&& register_values(regs, 40004, 16) == sunspec_str_registers("Fronius".spec_bytes(), 16)
            &&& register_values(regs, 40020, 16) == sunspec_str_registers(
                "Smart Meter 63A".spec_bytes(),
                16,
            )
            &&& register_values(regs, 40036, 8) == Seq::new(8, |i: int| 0u16)
            &&& register_values(regs, 40044, 8) == sunspec_str_registers("1.0".spec_bytes(), 8)
            &&& register_values(regs, 40068, 1) == seq![slave_id as u16]
            &&& register_values(regs, 40069, 2) == seq![213u16, 124u16]
            &&& register_values(regs, 40071, 124) == Seq::new(124, |i: int| 0u16)
            &&& register_values(regs, 40195, 2) == seq![0xFFFFu16, 0u16]
            &&& register_values(regs, 0, 2) == seq![1u16, 0u16]
        }),
{
    let regs = initial_registers(slave_id, serial);
    assert(register_values(regs, 40000, 2) =~= seq![0x5375u16, 0x6e53u16]);
    assert(register_values(regs, 40002, 2) =~= seq![1u16, 65u16]);
    assert(register_values(regs, 40004, 16) =~= sunspec_str_registers("Fronius".spec_bytes(), 16));
    assert(register_values(regs, 40020, 16) =~= sunspec_str_registers(
        "Smart Meter 63A".spec_bytes(),
        16,
    ));
    assert(register_values(regs, 40036, 8) =~= Seq::new(8, |i: int| 0u16)) by {
        assert forall|i: int| 0 <= i < 8 implies #[trigger] register_values(regs, 40036, 8)[i] == 0u16 by {
            reveal_strlit("");
            assert(byte_at("".spec_bytes(), 2 * i) == 0);
            assert(byte_at("".spec_bytes(), 2 * i + 1) == 0);
        }
    }
    assert(register_values(regs, 40044, 8) =~= sunspec_str_registers("1.0".spec_bytes(), 8));
    assert(register_values(regs, 40068, 1) =~= seq![slave_id as u16]);
    assert(register_values(regs, 40069, 2) =~= seq![213u16, 124u16]);
    assert(register_values(regs, 40071, 124) =~= Seq::new(124, |i: int| 0u16));
    assert(register_values(regs, 40195, 2) =~= seq![0xFFFFu16, 0u16]);
    assert(register_values(regs, 0, 2) =~= seq![1u16, 0u16]);
}

/// The serial number field (40052..40067) of a fresh meter holds the
/// configured serial as a 16-register SunSpec string, or "00000001" when the
/// serial is blank; a serial of up to 32 bytes with no zero byte reads back
/// whole once the padding is removed.
pub proof fn law_fresh_meter_serial(slave_id: u8, serial: Seq<char>)
    ensures
        ({
            let field = register_values(initial_registers(slave_id, serial), 40052, 16);
            let bytes = vstd::utf8::encode_utf8(serial);
            &&& trim_chars(serial).len() > 0 ==> field == sunspec_str_registers(bytes, 16)
            &&& trim_chars(serial).len() == 0 ==> field == sunspec_str_registers(
                "00000001".spec_bytes(),
                16,
            )
            &&& trim_chars(serial).len() > 0 && bytes.len() <= 32 && (forall|i: int|
                0 <= i < bytes.len() ==> #[trigger] bytes[i] != 0) ==> strip_trailing_zeros(
                register_bytes(field),
            ) == bytes
        }),
{
    let regs = initial_registers(slave_id, serial);
    let field = register_values(regs, 40052, 16);
    let reported = vstd::utf8::encode_utf8(reported_serial(serial));
    assert(field =~= sunspec_str_registers(reported, 16));
    let bytes = vstd::utf8::encode_utf8(serial);
    if trim_chars(serial).len() > 0 && bytes.len() <= 32 && (forall|i: int|
        0 <= i < bytes.len() ==> #[trigger] bytes[i] != 0) {
        law_sunspec_str_roundtrip(bytes, 16);
    }
}

/// A Modbus request as the emulator sees it: the two register reads it
/// answers, and everything else.
#[derive(Debug, Clone, Copy, PartialEq, Eq, Structural)]
pub enum ModbusRequest {
    ReadInputRegisters(u16, u16),
    ReadHoldingRegisters(u16, u16),
    Other,
}

/// The answer to a register read.
#[derive(Debug)]
pub enum ModbusResponse {
    ReadInputRegisters(Vec<u16>),
    ReadHoldingRegisters(Vec<u16>),
}

/// The first meter at or after index `k` with Modbus unit id `slave`.
pub open spec fn find_meter_from(meters: Seq<MeterState>, slave: u8, k: int) -> Option<int>
    decreases meters.len() - k,
{
    if k < 0 || k >= meters.len() {
        None
    } else if meters[k].slave_id == slave {
        Some(k)
    } else {
        find_meter_from(meters, slave, k + 1)
    }
}

/// The meter that serves unit id `slave`: the first meter with that id;
/// failing that, for the broadcast ids 0 and 255, the first meter.
pub open spec fn route(meters: Seq<MeterState>, slave: u8) -> Option<int> {
    match find_meter_from(meters, slave, 0) {
        Some(i) => Some(i),
        None => if slave == 0 || slave == 255 {
            Some(0)
        } else {
            None
        },
    }
}

/// How a meter in state `m` answers `request`: `Ok` with the register values
/// read, or the exception.
pub open spec fn answer(m: MeterState, request: ModbusRequest) -> Result<Seq<u16>, ModbusException> {
    match request {
        ModbusRequest::ReadInputRegisters(addr, cnt) | ModbusRequest::ReadHoldingRegisters(
            addr,
            cnt,
        ) => if read_allowed(addr, cnt) {
            Ok(register_values(m.registers, addr, cnt))
        } else {
            Err(ModbusException::IllegalDataAddress)
        },
        ModbusRequest::Other => Err(ModbusException::IllegalFunction),
    }
}

/// `res` is the emulator's reply to `request` for the unit id `slave`.
pub open spec fn replies(
    meters: Seq<MeterState>,
    slave: u8,
    request: ModbusRequest,
    res: Result<ModbusResponse, ModbusException>,
) -> bool {
    match route(meters, slave) {
        None => res == Err::<ModbusResponse, ModbusException>(ModbusException::GatewayTargetDevice),
        Some(i) => match answer(meters[i], request) {
            Err(e) => res == Err::<ModbusResponse, ModbusException>(e),
            Ok(values) => match res {
                Ok(ModbusResponse::ReadInputRegisters(v)) => request is ReadInputRegisters
                    && v@ == values,
                Ok(ModbusResponse::ReadHoldingRegisters(v)) => request is ReadHoldingRegisters
                    && v@ == values,
                Err(_) => false,
            },
        },
    }
}

/// A register read is answered in kind: input registers as input registers,
/// holding registers as holding registers; any other request is refused with
/// `IllegalFunction` by whichever meter serves it.
pub proof fn law_response_kind(
    meters: Seq<MeterState>,
    slave: u8,
    request: ModbusRequest,
    res: Result<ModbusResponse, ModbusException>,
)
    requires
        replies(meters, slave, request, res),
    ensures
        res matches Ok(ModbusResponse::ReadInputRegisters(_)) ==> request is ReadInputRegisters,
        res matches Ok(ModbusResponse::ReadHoldingRegisters(_)) ==> request is ReadHoldingRegisters,
        request is Other && route(meters, slave) is Some ==> res == Err::<
            ModbusResponse,
            ModbusException,
        >(ModbusException::IllegalFunction),
{
}

/// A set of emulated meters served under one Modbus server; the first meter
/// answers the broadcast unit ids.
pub struct SmartMeterEmulator {
    meters: Vec<MeterInstance>,
}

impl View for SmartMeterEmulator {
    type V = Seq<MeterState>;

    closed spec fn view(&self) -> Seq<MeterState> {
        self.meters@.map_values(|m: MeterInstance| m@)
    }
}

impl SmartMeterEmulator {
    /// There is at least one meter, and every meter is well formed.
    pub closed spec fn wf(&self) -> bool {
        &&& self.meters@.len() > 0
        &&& forall|i: int| 0 <= i < self.meters@.len() ==> #[trigger] self.meters@[i].wf()
    }

    /// Builds one meter per configuration, in order.
    pub fn new(configs: Vec<MeterConfig>) -> (emulator: Self)
        requires
            configs@.len() > 0,
        ensures
            emulator.wf(),
            emulator@.len() == configs@.len(),
            forall|i: int| 0 <= i < configs@.len() ==> #[trigger] emulator@[i] == fresh_meter_state(configs@[i]),
    {
        let mut meters: Vec<MeterInstance> = Vec::new();
        let mut i: usize = 0;
        while i < configs.len()
            invariant
                i <= configs@.len(),
                meters@.len() == i,
                forall|j: int| 0 <= j < i ==> #[trigger] meters@[j].wf(),
                forall|j: int| 0 <= j < i ==> #[trigger] meters@[j]@ == fresh_meter_state(configs@[j]),
            decreases configs@.len() - i,
        {
            meters.push(MeterInstance::new(&configs[i]));
            i = i + 1;
        }
        SmartMeterEmulator { meters }
    }

    /// An emulator with one meter named "SingleMeter".
    pub fn new_single(slave_id: u8, serial_number: &str, invert_power: bool) -> (emulator: Self)
        ensures
            emulator.wf(),
            emulator@.len() == 1,
            emulator@[0].slave_id == slave_id,
            emulator@[0].serial_number == serial_number@,
            emulator@[0].invert_power == invert_power,
            emulator@[0].name == "SingleMeter"@,
            emulator@[0].registers == initial_registers(slave_id, serial_number@),
    {
        let mut configs: Vec<MeterConfig> = Vec::new();
        configs.push(
            MeterConfig {
                slave_id,
                serial_number: serial_number.to_owned(),
                invert_power,
                name: "SingleMeter".to_owned(),
            },
        );
        SmartMeterEmulator::new(configs)
    }

    /// The number of meters.
    pub fn meter_count(&self) -> (n: usize)
        ensures
            n == self@.len(),
    {
        self.meters.len()
    }

    /// The meter at position `i`.
    pub fn meter(&self, i: usize) -> (m: &MeterInstance)
        requires
            self.wf(),
            i < self@.len(),
        ensures
            m@ == self@[i as int],
            m.wf(),
    {
        &self.meters[i]
    }

    /// Handles one event of the reading stream: a reading is stored in every
    /// meter, and the stream continues; no reading (the stream ended or went
    /// quiet for too long) stops it.
    pub fn handle_register_event(&mut self, event: Option<Readings>) -> (keep_running: bool)
        requires
            old(self).wf(),
        ensures
            final(self).wf(),
            keep_running == (event is Some),
            event is None ==> final(self)@ == old(self)@,
            event matches Some(r) ==> final(self)@ == Seq::new(
                old(self)@.len(),
                |i: int| applied(old(self)@[i], r),
            ),
    {
        match event {
            None => false,
            Some(reading) => {
                let n = self.meters.len();
                let mut i: usize = 0;
                while i < n
                    invariant
                        n == self.meters@.len() == old(self).meters@.len(),
                        i <= n,
                        forall|j: int| 0 <= j < n ==> #[trigger] self.meters@[j].wf(),
                        forall|j: int|
                            0 <= j < i ==> #[trigger] self.meters@[j]@ == applied(
                                old(self).meters@[j]@,
                                reading,
                            ),
                        forall|j: int| i <= j < n ==> #[trigger] self.meters@[j] == old(self).meters@[j],
                    decreases n - i,
                {
                    self.meters[i].update_reading(reading);
                    i = i + 1;
                }
                assert(self@ =~= Seq::new(old(self)@.len(), |i: int| applied(old(self)@[i], reading)));
                true
            },
        }
    }

    /// The index of the meter that serves unit id `slave`, if any.
    pub fn find_meter(&self, slave: u8) -> (r: Option<usize>)
        requires
            self.wf(),
        ensures
            r matches Some(i) ==> Some(i as int) == route(self@, slave) && i < self@.len(),
            r is None ==> route(self@, slave) is None,
    {
        proof {
            lemma_find_meter_facts(self@, slave, 0);
        }
        let n = self.meters.len();
        let mut i: usize = 0;
        while i < n
            invariant
                n == self@.len(),
                i <= n,
                find_meter_from(self@, slave, 0) == find_meter_from(self@, slave, i as int),
            decreases n - i,
        {
            if self.meters[i].slave_id() == slave {
                return Some(i);
            }
            i = i + 1;
        }
        if slave == 0 || slave == 255 {
            Some(0)
        } else {
            None
        }
    }

    /// Answers a Modbus request for unit id `slave`: the serving meter reads
    /// the requested input or holding registers; an unknown unit id is refused
    /// with `GatewayTargetDevice`, any other function with `IllegalFunction`.
    pub fn call(&self, slave: u8, request: ModbusRequest) -> (res: Result<ModbusResponse, ModbusException>)
        requires
            self.wf(),
        ensures
            replies(self@, slave, request, res),
    {
        let idx = match self.find_meter(slave) {
            Some(i) => i,
            None => {
                return Err(ModbusException::GatewayTargetDevice);
            },
        };
        let meter = self.meter(idx);
        match request {
            ModbusRequest::ReadInputRegisters(addr, cnt) => match meter.read_registers(addr, cnt) {
                Ok(v) => Ok(ModbusResponse::ReadInputRegisters(v)),
                Err(e) => Err(e),
            },
            ModbusRequest::ReadHoldingRegisters(addr, cnt) => match meter.read_registers(addr, cnt) {
                Ok(v) => Ok(ModbusResponse::ReadHoldingRegisters(v)),
                Err(e) => Err(e),
            },
            ModbusRequest::Other => Err(ModbusException::IllegalFunction),
        }
    }
}

} // verus!
