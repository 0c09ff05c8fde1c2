use smart_meter_emulator::meter::Readings;
use smart_meter_emulator::mqtt::{MeasurementTopic, MqttFetcher, ValueScale};

#[test]
fn topics_are_classified_by_suffix() {
    let cases = [
        ("opendtu/1234/0/voltage", Some(MeasurementTopic::Voltage)),
        ("opendtu/1234/0/current", Some(MeasurementTopic::Current)),
        ("opendtu/1234/0/power", Some(MeasurementTopic::Power)),
        ("ac/power", Some(MeasurementTopic::Power)),
        ("opendtu/ac/power", None),
        ("opendtu/1234/1/power", None),
        ("opendtu/1234/1/voltage", None),
        ("opendtu/1234/2/current", None),
        ("opendtu/1234/1/yieldtotal", None),
        ("opendtu/1234/0/frequency", Some(MeasurementTopic::Frequency)),
        ("opendtu/1234/0/powerfactor", Some(MeasurementTopic::PowerFactor)),
        ("opendtu/1234/0/reactivepower", Some(MeasurementTopic::ReactivePower)),
        ("opendtu/1234/0/yieldtotal", Some(MeasurementTopic::YieldTotal)),
        ("ac/yieldtotal", Some(MeasurementTopic::YieldTotal)),
        ("opendtu/1234/0/temperature", None),
        ("0/power", None),
        ("voltage", None),
        ("", None),
    ];
    for (topic, expected) in cases {
        assert_eq!(MqttFetcher::classify_topic(topic, None), expected, "topic {}", topic);
    }
}

#[test]
fn topics_are_filtered_by_inverter_serial() {
    let serial = Some("119182145457");
    let cases = [
        ("opendtu/119182145457/0/power", Some(MeasurementTopic::Power)),
        ("opendtu/119182145457/0/voltage", Some(MeasurementTopic::Voltage)),
        ("119182145457/0/yieldtotal", Some(MeasurementTopic::YieldTotal)),
        ("opendtu/114182922223/0/power", None),
        ("opendtu/x119182145457/0/power", None),
        ("opendtu/119182145457/1/power", None),
        ("ac/power", None),
        ("ac/yieldtotal", None),
        ("opendtu/119182145457/0/temperature", None),
    ];
    for (topic, expected) in cases {
        assert_eq!(MqttFetcher::classify_topic(topic, serial), expected, "topic {}", topic);
    }
}

#[test]
fn scales_and_readings() {
    assert_eq!(MeasurementTopic::PowerFactor.scale(), ValueScale::PercentToFraction);
    assert_eq!(MeasurementTopic::YieldTotal.scale(), ValueScale::KiloToUnit);
    assert_eq!(MeasurementTopic::Power.scale(), ValueScale::Unit);
    let b = 98.0f32.to_bits();
    assert_eq!(MeasurementTopic::Voltage.readings(b), vec![Readings::PhaseAVoltage(b), Readings::AveragePhaseVoltage(b)]);
    assert_eq!(MeasurementTopic::Current.readings(b), vec![Readings::PhaseACurrent(b), Readings::NetACCurrent(b)]);
    assert_eq!(MeasurementTopic::Power.readings(b), vec![Readings::PhaseAWatts(b), Readings::TotalRealPower(b)]);
    assert_eq!(MeasurementTopic::Frequency.readings(b), vec![Readings::Frequency(b)]);
    assert_eq!(MeasurementTopic::PowerFactor.readings(b), vec![Readings::PhaseAPF(b), Readings::PowerFactorTotal(b)]);
    assert_eq!(MeasurementTopic::ReactivePower.readings(b), vec![Readings::PhaseAVAR(b), Readings::ReactivePower(b)]);
    assert_eq!(MeasurementTopic::YieldTotal.readings(b), vec![Readings::TotalExportEnergy(b)]);
}

#[test]
fn payload_text_is_trimmed_utf8() {
    assert_eq!(MqttFetcher::payload_text(b" 230.5\n"), Some("230.5"));
    assert_eq!(MqttFetcher::payload_text(b"\xff\xfe"), None);
    assert_eq!(MqttFetcher::payload_text("  \u{e9}t\u{e9} ".as_bytes()), Some("\u{e9}t\u{e9}"));
    assert_eq!(MqttFetcher::payload_text(b""), Some(""));
}

#[test]
fn rejected_messages_send_nothing() {
    let bits = 600.0f32.to_bits();
    let topic = "opendtu/1234/0/power";
    assert_eq!(
        MqttFetcher::message_readings(topic, None, b"600", Some(bits)),
        vec![Readings::PhaseAWatts(bits), Readings::TotalRealPower(bits)]
    );
    // not UTF-8
    assert!(MqttFetcher::message_readings(topic, None, b"\xff600", Some(bits)).is_empty());
    // not a number
    assert!(MqttFetcher::message_readings(topic, None, b"abc", None).is_empty());
    // topic not recognised, or of another inverter
    assert!(MqttFetcher::message_readings("opendtu/1234/0/temperature", None, b"600", Some(bits)).is_empty());
    assert!(MqttFetcher::message_readings(topic, Some("5678"), b"600", Some(bits)).is_empty());
    assert_eq!(MqttFetcher::message_readings(topic, Some("1234"), b"600", Some(bits)).len(), 2);
}

#[test]
fn blank_serial_filters_nothing() {
    assert_eq!(MqttFetcher::classify_topic("opendtu/1234/0/power", Some("")), Some(MeasurementTopic::Power));
    assert_eq!(MqttFetcher::classify_topic("ac/power", Some("  ")), Some(MeasurementTopic::Power));
}
