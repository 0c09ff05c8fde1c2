use smart_meter_emulator::meter::{
    MeterConfig, MeterInstance, ModbusRequest, ModbusResponse, Readings, SmartMeterEmulator,
};
use smart_meter_emulator::registers::{encode_sunspec_str, ModbusException};

fn decode_f32(reg1: u16, reg2: u16) -> f32 {
    let bits = ((reg1 as u32) << 16) | (reg2 as u32);
    f32::from_bits(bits)
}

fn config(slave_id: u8, serial: &str, invert_power: bool, name: &str) -> MeterConfig {
    MeterConfig {
        slave_id,
        serial_number: serial.to_string(),
        invert_power,
        name: name.to_string(),
    }
}

fn holding(res: Result<ModbusResponse, ModbusException>) -> Vec<u16> {
    match res {
        Ok(ModbusResponse::ReadHoldingRegisters(regs)) => regs,
        other => panic!("Unexpected response type: {:?}", other),
    }
}

#[test]
fn test_encode_sunspec_str() {
    let encoded = encode_sunspec_str("Fronius", 16);
    assert_eq!(encoded.len(), 16);
    assert_eq!(encoded[0], 0x4672); // 'Fr'
    assert_eq!(encoded[1], 0x6f6e); // 'on'
    assert_eq!(encoded[2], 0x6975); // 'iu'
    assert_eq!(encoded[3], 0x7300); // 's\0'
    assert_eq!(encoded[4], 0x0000);
}

#[test]
fn test_meter_instance_initialization() {
    let config = config(126, "12345678", true, "FroniusMeter");
    let meter = MeterInstance::new(&config);

    // SunSpec marker
    let marker = meter.read_registers(40000, 2).unwrap();
    assert_eq!(marker, vec![0x5375, 0x6e53]);

    // Model 1 header
    let m1_header = meter.read_registers(40002, 2).unwrap();
    assert_eq!(m1_header, vec![1, 65]);

    // Device address at 40068
    let dev_addr = meter.read_registers(40068, 1).unwrap();
    assert_eq!(dev_addr, vec![126]);

    // Model 213 header at 40069
    let m213_header = meter.read_registers(40069, 2).unwrap();
    assert_eq!(m213_header, vec![213, 124]);

    // End of list marker at 40195
    let eol = meter.read_registers(40195, 2).unwrap();
    assert_eq!(eol, vec![0xFFFF, 0x0000]);

    // Fallbacks
    let fallback = meter.read_registers(0, 2).unwrap();
    assert_eq!(fallback, vec![1, 0]);
}

#[test]
fn test_power_inversion_vs_plain() {
    let fronius_cfg = config(240, "11111111", true, "Fronius");
    let evcc_cfg = config(241, "22222222", false, "EVCC");

    let mut fronius_meter = MeterInstance::new(&fronius_cfg);
    let mut evcc_meter = MeterInstance::new(&evcc_cfg);

    // Apply positive power reading (e.g., 600W generation)
    for meter in [&mut fronius_meter, &mut evcc_meter] {
        meter.update_reading(Readings::TotalRealPower(600.0f32.to_bits()));
        meter.update_reading(Readings::PhaseAWatts(600.0f32.to_bits()));
        meter.update_reading(Readings::PhaseAVoltage(230.0f32.to_bits()));
        meter.update_reading(Readings::TotalExportEnergy(50000.0f32.to_bits()));
    }

    // Fronius meter should have -600.0 for power
    let f_power_regs = fronius_meter.read_registers(40097, 2).unwrap();
    assert_eq!(decode_f32(f_power_regs[0], f_power_regs[1]), -600.0);

    let f_phase_a_regs = fronius_meter.read_registers(40099, 2).unwrap();
    assert_eq!(decode_f32(f_phase_a_regs[0], f_phase_a_regs[1]), -600.0);

    // EVCC meter should have +600.0 for power
    let e_power_regs = evcc_meter.read_registers(40097, 2).unwrap();
    assert_eq!(decode_f32(e_power_regs[0], e_power_regs[1]), 600.0);

    let e_phase_a_regs = evcc_meter.read_registers(40099, 2).unwrap();
    assert_eq!(decode_f32(e_phase_a_regs[0], e_phase_a_regs[1]), 600.0);

    // Voltage and energy should NOT be inverted on either meter
    let f_voltage_regs = fronius_meter.read_registers(40081, 2).unwrap();
    assert_eq!(decode_f32(f_voltage_regs[0], f_voltage_regs[1]), 230.0);

    let e_voltage_regs = evcc_meter.read_registers(40081, 2).unwrap();
    assert_eq!(decode_f32(e_voltage_regs[0], e_voltage_regs[1]), 230.0);

    let f_energy_regs = fronius_meter.read_registers(40129, 2).unwrap();
    assert_eq!(decode_f32(f_energy_regs[0], f_energy_regs[1]), 50000.0);

    let e_energy_regs = evcc_meter.read_registers(40129, 2).unwrap();
    assert_eq!(decode_f32(e_energy_regs[0], e_energy_regs[1]), 50000.0);

    // 0.0 power check
    fronius_meter.update_reading(Readings::TotalRealPower(0.0f32.to_bits()));
    let f_zero_regs = fronius_meter.read_registers(40097, 2).unwrap();
    let f_zero = decode_f32(f_zero_regs[0], f_zero_regs[1]);
    assert_eq!(f_zero, 0.0);
    assert_eq!(f_zero.to_bits(), 0.0f32.to_bits()); // not negative zero
}

#[test]
fn test_service_routing_by_slave_id() {
    let configs = vec![
        config(240, "FRONIUS01", true, "Fronius"),
        config(241, "EVCC01", false, "EVCC"),
    ];

    let mut emulator = SmartMeterEmulator::new(configs);

    // Power update
    assert!(emulator.handle_register_event(Some(Readings::TotalRealPower(750.0f32.to_bits()))));

    // Query Slave 240 (Fronius - inverted)
    let regs = holding(emulator.call(240, ModbusRequest::ReadHoldingRegisters(40097, 2)));
    assert_eq!(decode_f32(regs[0], regs[1]), -750.0);

    // Query Slave 241 (EVCC - plain)
    let regs = holding(emulator.call(241, ModbusRequest::ReadHoldingRegisters(40097, 2)));
    assert_eq!(decode_f32(regs[0], regs[1]), 750.0);

    // Query Slave 0 (fallback to default meter: Fronius)
    let regs = holding(emulator.call(0, ModbusRequest::ReadHoldingRegisters(40097, 2)));
    assert_eq!(decode_f32(regs[0], regs[1]), -750.0);

    // Query unknown Slave 99
    let err_unknown = emulator
        .call(99, ModbusRequest::ReadHoldingRegisters(40097, 2))
        .unwrap_err();
    assert_eq!(err_unknown, ModbusException::GatewayTargetDevice);

    // Query invalid register address
    let err_invalid = emulator
        .call(240, ModbusRequest::ReadHoldingRegisters(50000, 2))
        .unwrap_err();
    assert_eq!(err_invalid, ModbusException::IllegalDataAddress);
}

#[test]
fn test_multi_slave_query_both_meters() {
    let configs = vec![
        config(240, "FRONIUS01", true, "Fronius"),
        config(241, "EVCC01", false, "EVCC"),
    ];
    let mut emulator = SmartMeterEmulator::new(configs);
    assert!(emulator.handle_register_event(Some(Readings::TotalRealPower(1250.0f32.to_bits()))));
    assert!(emulator.handle_register_event(Some(Readings::PhaseAVoltage(230.0f32.to_bits()))));

    let f_regs = holding(emulator.call(240, ModbusRequest::ReadHoldingRegisters(40097, 2)));
    assert_eq!(decode_f32(f_regs[0], f_regs[1]), -1250.0);
    let e_regs = holding(emulator.call(241, ModbusRequest::ReadHoldingRegisters(40097, 2)));
    assert_eq!(decode_f32(e_regs[0], e_regs[1]), 1250.0);

    let f_v = holding(emulator.call(240, ModbusRequest::ReadHoldingRegisters(40081, 2)));
    assert_eq!(decode_f32(f_v[0], f_v[1]), 230.0);
    let e_v = holding(emulator.call(241, ModbusRequest::ReadHoldingRegisters(40081, 2)));
    assert_eq!(decode_f32(e_v[0], e_v[1]), 230.0);
}

#[test]
fn identification_block_holds_names_and_serial() {
    let meter = MeterInstance::new(&config(7, "AB", false, "x"));
    let manufacturer = meter.read_registers(40004, 16).unwrap();
    assert_eq!(manufacturer, encode_sunspec_str("Fronius", 16));
    let model = meter.read_registers(40020, 16).unwrap();
    assert_eq!(model, encode_sunspec_str("Smart Meter 63A", 16));
    assert_eq!(meter.read_registers(40036, 8).unwrap(), vec![0u16; 8]);
    assert_eq!(meter.read_registers(40044, 8).unwrap(), encode_sunspec_str("1.0", 8));
    let serial = meter.read_registers(40052, 16).unwrap();
    assert_eq!(serial[0], 0x4142);
    assert!(serial[1..].iter().all(|r| *r == 0));
    // the whole Model 213 block starts zeroed
    assert_eq!(meter.read_registers(40071, 124).unwrap(), vec![0u16; 124]);
}

#[test]
fn blank_serial_is_reported_as_default() {
    let meter = MeterInstance::new(&config(1, " \t ", false, "x"));
    let serial = meter.read_registers(40052, 16).unwrap();
    assert_eq!(serial, encode_sunspec_str("00000001", 16));
    assert_eq!(meter.serial_number(), " \t ");
}

#[test]
fn reads_outside_layout_are_refused() {
    let meter = MeterInstance::new(&config(1, "1", false, "x"));
    assert_eq!(meter.read_registers(1, 2), Err(ModbusException::IllegalDataAddress));
    assert_eq!(meter.read_registers(40196, 2), Err(ModbusException::IllegalDataAddress));
    assert_eq!(meter.read_registers(39999, 1), Err(ModbusException::IllegalDataAddress));
    assert_eq!(meter.read_registers(0xFFFF, 3), Err(ModbusException::IllegalDataAddress));
    assert_eq!(meter.read_registers(50000, 0), Ok(vec![]));
    assert_eq!(meter.read_registers(40000, 197).unwrap().len(), 197);
}

#[test]
fn negative_power_becomes_positive_on_inverting_meter() {
    let mut meter = MeterInstance::new(&config(1, "1", true, "x"));
    meter.update_reading(Readings::PhaseCWatts((-42.5f32).to_bits()));
    let regs = meter.read_registers(40103, 2).unwrap();
    assert_eq!(decode_f32(regs[0], regs[1]), 42.5);
    meter.update_reading(Readings::TotalRealPower((-0.0f32).to_bits()));
    let regs = meter.read_registers(40097, 2).unwrap();
    assert_eq!(decode_f32(regs[0], regs[1]).to_bits(), 0);
}

#[test]
fn import_energy_lives_at_its_own_register() {
    let mut meter = MeterInstance::new(&config(1, "1", true, "x"));
    meter.update_reading(Readings::TotalImportEnergy(0x1234_5678));
    assert_eq!(meter.read_registers(40137, 2).unwrap(), vec![0x1234, 0x5678]);
    assert_eq!(meter.read_registers(40129, 2).unwrap(), vec![0, 0]);
}

#[test]
fn input_and_other_requests() {
    let emulator = SmartMeterEmulator::new_single(5, "S", false);
    match emulator.call(5, ModbusRequest::ReadInputRegisters(40002, 2)) {
        Ok(ModbusResponse::ReadInputRegisters(regs)) => assert_eq!(regs, vec![1, 65]),
        other => panic!("unexpected {:?}", other),
    }
    assert_eq!(emulator.call(5, ModbusRequest::Other).unwrap_err(), ModbusException::IllegalFunction);
    assert_eq!(emulator.call(255, ModbusRequest::Other).unwrap_err(), ModbusException::IllegalFunction);
    assert_eq!(emulator.meter(0).name(), "SingleMeter");
    assert_eq!(emulator.meter_count(), 1);
}

#[test]
fn first_meter_with_a_shared_id_answers() {
    let mut emulator = SmartMeterEmulator::new(vec![
        config(9, "A", true, "a"),
        config(9, "B", false, "b"),
    ]);
    emulator.handle_register_event(Some(Readings::PhaseBWatts(1.0f32.to_bits())));
    let regs = holding(emulator.call(9, ModbusRequest::ReadHoldingRegisters(40101, 2)));
    assert_eq!(decode_f32(regs[0], regs[1]), -1.0);
}

#[test]
fn end_of_stream_stops_and_leaves_meters_alone() {
    let mut emulator = SmartMeterEmulator::new_single(1, "1", false);
    assert!(!emulator.handle_register_event(None));
    let regs = holding(emulator.call(1, ModbusRequest::ReadHoldingRegisters(40071, 2)));
    assert_eq!(regs, vec![0, 0]);
}

#[test]
fn sunspec_text_decodes_back() {
    for (text, count) in [("Fronius", 16usize), ("Smart Meter 63A", 16), ("1.0", 8), ("", 8), ("12345678", 4)] {
        let regs = encode_sunspec_str(text, count);
        let mut bytes: Vec<u8> = regs.iter().flat_map(|r| [(r >> 8) as u8, (r & 0xFF) as u8]).collect();
        while bytes.last() == Some(&0) {
            bytes.pop();
        }
        assert_eq!(bytes, text.as_bytes(), "text {:?}", text);
    }
    // text longer than the field is cut off
    assert_eq!(encode_sunspec_str("ABCDE", 2), vec![0x4142, 0x4344]);
}

#[test]
fn inverting_and_plain_meters_over_a_sequence() {
    let mut p = MeterInstance::new(&config(3, "S", true, "p"));
    let mut q = MeterInstance::new(&config(3, "S", false, "q"));
    let readings = [
        Readings::TotalRealPower(1.5f32.to_bits()),
        Readings::PhaseAWatts((-2.0f32).to_bits()),
        Readings::Frequency(50.0f32.to_bits()),
        Readings::PhaseBWatts((-0.0f32).to_bits()),
        Readings::TotalRealPower(7.0f32.to_bits()),
        Readings::TotalExportEnergy(9.0f32.to_bits()),
    ];
    for r in readings {
        p.update_reading(r);
        q.update_reading(r);
    }
    let pr = p.read_registers(40071, 68).unwrap();
    let qr = q.read_registers(40071, 68).unwrap();
    for (i, (a, b)) in pr.iter().zip(qr.iter()).enumerate() {
        let addr = 40071 + i;
        if !(40097..=40104).contains(&addr) {
            assert_eq!(a, b, "register {}", addr);
        }
    }
    // last write wins, with the sign flipped on the inverting meter
    assert_eq!(decode_f32(pr[26], pr[27]), -7.0);
    assert_eq!(decode_f32(qr[26], qr[27]), 7.0);
    assert_eq!(decode_f32(pr[28], pr[29]), 2.0);
    assert_eq!(decode_f32(pr[30], pr[31]).to_bits(), 0);
    assert_eq!(decode_f32(qr[30], qr[31]).to_bits(), (-0.0f32).to_bits());
}
