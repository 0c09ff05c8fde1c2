//! What the MQTT bridge makes of a message: which measurement a topic
//! carries, how its value is scaled, and which meter readings it becomes.

use vstd::prelude::*;
use vstd::string::StringSliceAdditionalSpecFns;
use crate::meter::Readings;
use crate::text::{bytes_eq, ends_at, ends_at_bytes, trim, trim_chars};

verus! {

/// The MQTT side of the bridge (OpenDTU topics, AC channel 0).
pub struct MqttFetcher;

/// The measurement an OpenDTU topic carries.
#[derive(Debug, Clone, Copy, PartialEq, Eq, Structural)]
pub enum MeasurementTopic {
    Voltage,
    Current,
    Power,
    Frequency,
    PowerFactor,
    ReactivePower,
    YieldTotal,
}

/// How a published value converts to the unit a meter reports.
#[derive(Debug, Clone, Copy, PartialEq, Eq, Structural)]
pub enum ValueScale {
    /// Taken as it is.
    Unit,
    /// Percent to a factor: divided by 100 (98.0 % becomes 0.98).
    PercentToFraction,
    /// kWh to Wh: multiplied by 1000.
    KiloToUnit,
}

/// The bytes of `/0/`, the channel-0 segment of an OpenDTU topic.
pub open spec fn channel0_marker() -> Seq<u8> {
    seq![0x2Fu8, 0x30u8, 0x2Fu8]
}

/// A topic of channel 0 (the AC side) of an OpenDTU inverter: it ends in
/// `/0/<field>`; with an inverter serial configured, it ends in
/// `<serial>/0/<field>` with the serial a whole segment of the topic.
pub open spec fn channel_topic(t: Seq<u8>, serial: Option<Seq<u8>>, field: Seq<u8>) -> bool {
    let field_start = t.len() - field.len();
    let channel_start = field_start - 3;
    &&& ends_at(t, t.len() as int, field)
    &&& ends_at(t, field_start, channel0_marker())
    &&& match serial {
        None => true,
        Some(s) => ends_at(t, channel_start, s) && (channel_start == s.len() || t[channel_start
            - s.len() - 1] == 0x2F),
    }
}

/// A topic that names no inverter (`ac/power`, `ac/yieldtotal`): taken only
/// when no inverter serial is configured.
pub open spec fn inverterless_topic(t: Seq<u8>, serial: Option<Seq<u8>>, name: Seq<u8>) -> bool {
    serial is None && t == name
}

/// `t` has `s` as one of its '/'-separated segments, followed by another.
pub open spec fn carries_serial(t: Seq<u8>, s: Seq<u8>) -> bool {
    exists|end: int|
        #[trigger] ends_at(t, end, s) && (end == s.len() || t[end - s.len() - 1] == 0x2F) && end
            < t.len() && t[end] == 0x2F
}

/// The measurement carried by a topic (given by its UTF-8 bytes) when the
/// bridge serves the inverter `serial` (any inverter when `None`), decided
/// by the first rule that matches, in this order.
pub open spec fn topic_measurement(t: Seq<u8>, serial: Option<Seq<u8>>) -> Option<MeasurementTopic> {
    if channel_topic(t, serial, "voltage".spec_bytes()) {
        Some(MeasurementTopic::Voltage)
    } else if channel_topic(t, serial, "current".spec_bytes()) {
        Some(MeasurementTopic::Current)
    } else if channel_topic(t, serial, "power".spec_bytes()) || inverterless_topic(
        t,
        serial,
        "ac/power".spec_bytes(),
    ) {
        Some(MeasurementTopic::Power)
    } else if channel_topic(t, serial, "frequency".spec_bytes()) {
        Some(MeasurementTopic::Frequency)
    } else if channel_topic(t, serial, "powerfactor".spec_bytes()) {
        Some(MeasurementTopic::PowerFactor)
    } else if channel_topic(t, serial, "reactivepower".spec_bytes()) {
        Some(MeasurementTopic::ReactivePower)
    } else if channel_topic(t, serial, "yieldtotal".spec_bytes()) || inverterless_topic(
        t,
        serial,
        "ac/yieldtotal".spec_bytes(),
    ) {
        Some(MeasurementTopic::YieldTotal)
    } else {
        None
    }
}

/// Topic filtering: with an inverter serial configured, a topic that does not
/// carry that serial as a segment is not taken.
pub proof fn law_foreign_topics_ignored(t: Seq<u8>, s: Seq<u8>)
    requires
        !carries_serial(t, s),
    ensures
        topic_measurement(t, Some(s)) is None,
{
    lemma_channel_topic_carries(t, s, "voltage".spec_bytes());
    lemma_channel_topic_carries(t, s, "current".spec_bytes());
    lemma_channel_topic_carries(t, s, "power".spec_bytes());
    lemma_channel_topic_carries(t, s, "frequency".spec_bytes());
    lemma_channel_topic_carries(t, s, "powerfactor".spec_bytes());
    lemma_channel_topic_carries(t, s, "reactivepower".spec_bytes());
    lemma_channel_topic_carries(t, s, "yieldtotal".spec_bytes());
}

proof fn lemma_channel_topic_carries(t: Seq<u8>, s: Seq<u8>, field: Seq<u8>)
    ensures
        channel_topic(t, Some(s), field) ==> carries_serial(t, s),
{
    if channel_topic(t, Some(s), field) {
        let channel_start = t.len() - field.len() - 3;
        let marker = t.subrange(channel_start, channel_start + 3);
        assert(marker == channel0_marker());
        assert(t[channel_start] == marker[0]);
        assert(ends_at(t, channel_start, s));
    }
}

/// The OpenDTU field name that carries a measurement.
pub open spec fn field_name(m: MeasurementTopic) -> Seq<u8> {
    match m {
        MeasurementTopic::Voltage => "voltage".spec_bytes(),
        MeasurementTopic::Current => "current".spec_bytes(),
        MeasurementTopic::Power => "power".spec_bytes(),
        MeasurementTopic::Frequency => "frequency".spec_bytes(),
        MeasurementTopic::PowerFactor => "powerfactor".spec_bytes(),
        MeasurementTopic::ReactivePower => "reactivepower".spec_bytes(),
        MeasurementTopic::YieldTotal => "yieldtotal".spec_bytes(),
    }
}

/// The channel-0 topic of inverter `serial` for `field`, under `prefix`:
/// `<prefix><serial>/0/<field>`.
pub open spec fn inverter_topic(prefix: Seq<u8>, serial: Seq<u8>, field: Seq<u8>) -> Seq<u8> {
    prefix + serial + "/0/".spec_bytes() + field
}

/// The bytes of the field names and of the channel marker.
proof fn lemma_field_bytes()
    ensures
        "voltage".spec_bytes() == seq![0x76u8, 0x6fu8, 0x6cu8, 0x74u8, 0x61u8, 0x67u8, 0x65u8],
        "current".spec_bytes() == seq![0x63u8, 0x75u8, 0x72u8, 0x72u8, 0x65u8, 0x6eu8, 0x74u8],
        "power".spec_bytes() == seq![0x70u8, 0x6fu8, 0x77u8, 0x65u8, 0x72u8],
        "frequency".spec_bytes() == seq![0x66u8, 0x72u8, 0x65u8, 0x71u8, 0x75u8, 0x65u8, 0x6eu8, 0x63u8, 0x79u8],
        "powerfactor".spec_bytes() == seq![0x70u8, 0x6fu8, 0x77u8, 0x65u8, 0x72u8, 0x66u8, 0x61u8, 0x63u8, 0x74u8, 0x6fu8, 0x72u8],
        "reactivepower".spec_bytes() == seq![0x72u8, 0x65u8, 0x61u8, 0x63u8, 0x74u8, 0x69u8, 0x76u8, 0x65u8, 0x70u8, 0x6fu8, 0x77u8, 0x65u8, 0x72u8],
        "yieldtotal".spec_bytes() == seq![0x79u8, 0x69u8, 0x65u8, 0x6cu8, 0x64u8, 0x74u8, 0x6fu8, 0x74u8, 0x61u8, 0x6cu8],
        "/0/".spec_bytes() == seq![0x2fu8, 0x30u8, 0x2fu8],
        "ac/power".spec_bytes().len() == 8,
{
    reveal_strlit("ac/power");
    vstd::string::is_ascii_spec_bytes("ac/power");
    reveal_strlit("voltage");
    assert("voltage"@ =~= seq!['v', 'o', 'l', 't', 'a', 'g', 'e']);
    vstd::string::is_ascii_spec_bytes("voltage");
    assert("voltage".spec_bytes() =~= seq![0x76u8, 0x6fu8, 0x6cu8, 0x74u8, 0x61u8, 0x67u8, 0x65u8]);
    reveal_strlit("current");
    assert("current"@ =~= seq!['c', 'u', 'r', 'r', 'e', 'n', 't']);
    vstd::string::is_ascii_spec_bytes("current");
    assert("current".spec_bytes() =~= seq![0x63u8, 0x75u8, 0x72u8, 0x72u8, 0x65u8, 0x6eu8, 0x74u8]);
    reveal_strlit("power");
    assert("power"@ =~= seq!['p', 'o', 'w', 'e', 'r']);
    vstd::string::is_ascii_spec_bytes("power");
    assert("power".spec_bytes() =~= seq![0x70u8, 0x6fu8, 0x77u8, 0x65u8, 0x72u8]);
    reveal_strlit("frequency");
    assert("frequency"@ =~= seq!['f', 'r', 'e', 'q', 'u', 'e', 'n', 'c', 'y']);
    vstd::string::is_ascii_spec_bytes("frequency");
    assert("frequency".spec_bytes() =~= seq![0x66u8, 0x72u8, 0x65u8, 0x71u8, 0x75u8, 0x65u8, 0x6eu8, 0x63u8, 0x79u8]);
    reveal_strlit("powerfactor");
    assert("powerfactor"@ =~= seq!['p', 'o', 'w', 'e', 'r', 'f', 'a', 'c', 't', 'o', 'r']);
    vstd::string::is_ascii_spec_bytes("powerfactor");
    assert("powerfactor".spec_bytes() =~= seq![0x70u8, 0x6fu8, 0x77u8, 0x65u8, 0x72u8, 0x66u8, 0x61u8, 0x63u8, 0x74u8, 0x6fu8, 0x72u8]);
    reveal_strlit("reactivepower");
    assert("reactivepower"@ =~= seq!['r', 'e', 'a', 'c', 't', 'i', 'v', 'e', 'p', 'o', 'w', 'e', 'r']);
    vstd::string::is_ascii_spec_bytes("reactivepower");
    assert("reactivepower".spec_bytes() =~= seq![0x72u8, 0x65u8, 0x61u8, 0x63u8, 0x74u8, 0x69u8, 0x76u8, 0x65u8, 0x70u8, 0x6fu8, 0x77u8, 0x65u8, 0x72u8]);
    reveal_strlit("yieldtotal");
    assert("yieldtotal"@ =~= seq!['y', 'i', 'e', 'l', 'd', 't', 'o', 't', 'a', 'l']);
    vstd::string::is_ascii_spec_bytes("yieldtotal");
    assert("yieldtotal".spec_bytes() =~= seq![0x79u8, 0x69u8, 0x65u8, 0x6cu8, 0x64u8, 0x74u8, 0x6fu8, 0x74u8, 0x61u8, 0x6cu8]);
    reveal_strlit("/0/");
    assert("/0/"@ =~= seq!['/', '0', '/']);
    vstd::string::is_ascii_spec_bytes("/0/");
    assert("/0/".spec_bytes() =~= seq![0x2fu8, 0x30u8, 0x2fu8]);
}

proof fn lemma_byte_from_end(t: Seq<u8>, end: int, piece: Seq<u8>, k: int)
    requires
        ends_at(t, end, piece),
        0 <= k < piece.len(),
    ensures
        t[end - 1 - k] == piece[piece.len() - 1 - k],
{
    assert(t.subrange(end - piece.len(), end)[piece.len() - 1 - k] == t[end - 1 - k]);
}

/// Every channel-0 topic of an inverter is taken as the measurement its
/// field names: under the inverter's own serial (whatever segments come
/// before it), and when no serial is configured.
pub proof fn law_inverter_topics_classified(prefix: Seq<u8>, serial: Seq<u8>, m: MeasurementTopic)
    requires
        prefix.len() == 0 || prefix.last() == 0x2F,
    ensures
        topic_measurement(inverter_topic(prefix, serial, field_name(m)), Some(serial)) == Some(m),
        topic_measurement(inverter_topic(prefix, serial, field_name(m)), None) == Some(m),
{
    lemma_field_bytes();
    let t = inverter_topic(prefix, serial, field_name(m));
    let n = t.len() as int;
    let f = field_name(m);
    let fs = n - f.len();
    let cs = fs - 3;
    assert(t.subrange(fs, n) =~= f);
    assert(t.subrange(cs, fs) =~= channel0_marker());
    assert(t.subrange(cs - serial.len(), cs) =~= serial);
    if prefix.len() > 0 {
        assert(t[cs - serial.len() - 1] == prefix.last());
    }
    assert(channel_topic(t, Some(serial), f));
    assert(channel_topic(t, None, f));
    lemma_channel_topic_measurement(t, Some(serial), m);
    lemma_channel_topic_measurement(t, None, m);
}

/// A channel-0 topic (of the configured inverter, when one is) is taken as
/// the measurement its field names, whichever the field.
pub proof fn lemma_channel_topic_measurement(t: Seq<u8>, serial: Option<Seq<u8>>, m: MeasurementTopic)
    requires
        channel_topic(t, serial, field_name(m)),
    ensures
        topic_measurement(t, serial) == Some(m),
{
    lemma_field_bytes();
    let f = field_name(m);
    assert(ends_at(t, t.len() as int, f));
    assert(ends_at(t, t.len() - f.len(), channel0_marker()));
    if m != MeasurementTopic::Power {
        assert(t.len() > 8);
    }
    lemma_not_earlier(t, serial, m);
}

/// No field tried before `m`'s matches a topic that ends in `/0/<field of m>`.
proof fn lemma_not_earlier(t: Seq<u8>, serial: Option<Seq<u8>>, m: MeasurementTopic)
    requires
        ends_at(t, t.len() as int, field_name(m)),
        ends_at(t, t.len() - field_name(m).len(), channel0_marker()),
    ensures
        m != MeasurementTopic::Voltage ==> !channel_topic(t, serial, field_name(MeasurementTopic::Voltage)),
        m != MeasurementTopic::Voltage && m != MeasurementTopic::Current ==> !channel_topic(
            t,
            serial,
            field_name(MeasurementTopic::Current),
        ),
        m != MeasurementTopic::Voltage && m != MeasurementTopic::Current && m != MeasurementTopic::Power
            ==> !channel_topic(t, serial, field_name(MeasurementTopic::Power)),
        m is PowerFactor || m is ReactivePower || m is YieldTotal ==> !channel_topic(
            t,
            serial,
            field_name(MeasurementTopic::Frequency),
        ),
        m is ReactivePower || m is YieldTotal ==> !channel_topic(
            t,
            serial,
            field_name(MeasurementTopic::PowerFactor),
        ),
        m is YieldTotal ==> !channel_topic(t, serial, field_name(MeasurementTopic::ReactivePower)),
{
    lemma_field_bytes();
    let n = t.len() as int;
    match m {
        MeasurementTopic::Voltage => {

        },
        MeasurementTopic::Current => {
            if channel_topic(t, serial, field_name(MeasurementTopic::Voltage)) {
                lemma_byte_from_end(t, n, field_name(MeasurementTopic::Voltage), 0);
                lemma_byte_from_end(t, n, field_name(m), 0);
            }
        },
        MeasurementTopic::Power => {
            if channel_topic(t, serial, field_name(MeasurementTopic::Voltage)) {
                lemma_byte_from_end(t, n, field_name(MeasurementTopic::Voltage), 0);
                lemma_byte_from_end(t, n, field_name(m), 0);
            }
            if channel_topic(t, serial, field_name(MeasurementTopic::Current)) {
                lemma_byte_from_end(t, n, field_name(MeasurementTopic::Current), 0);
                lemma_byte_from_end(t, n, field_name(m), 0);
            }
        },
        MeasurementTopic::Frequency => {
            if channel_topic(t, serial, field_name(MeasurementTopic::Voltage)) {
                lemma_byte_from_end(t, n, field_name(MeasurementTopic::Voltage), 0);
                lemma_byte_from_end(t, n, field_name(m), 0);
            }
            if channel_topic(t, serial, field_name(MeasurementTopic::Current)) {
                lemma_byte_from_end(t, n, field_name(MeasurementTopic::Current), 0);
                lemma_byte_from_end(t, n, field_name(m), 0);
            }
            if channel_topic(t, serial, field_name(MeasurementTopic::Power)) {
                lemma_byte_from_end(t, n, field_name(MeasurementTopic::Power), 0);
                lemma_byte_from_end(t, n, field_name(m), 0);
            }
        },
        MeasurementTopic::PowerFactor => {
            if channel_topic(t, serial, field_name(MeasurementTopic::Voltage)) {
                lemma_byte_from_end(t, n, field_name(MeasurementTopic::Voltage), 0);
                lemma_byte_from_end(t, n, field_name(m), 0);
            }
            if channel_topic(t, serial, field_name(MeasurementTopic::Current)) {
                lemma_byte_from_end(t, n, field_name(MeasurementTopic::Current), 0);
                lemma_byte_from_end(t, n, field_name(m), 0);
            }
            if channel_topic(t, serial, field_name(MeasurementTopic::Power)) {
                lemma_byte_from_end(t, n, field_name(MeasurementTopic::Power), 1);
                lemma_byte_from_end(t, n, field_name(m), 1);
            }
            if channel_topic(t, serial, field_name(MeasurementTopic::Frequency)) {
                lemma_byte_from_end(t, n, field_name(MeasurementTopic::Frequency), 0);
                lemma_byte_from_end(t, n, field_name(m), 0);
            }
        },
        MeasurementTopic::ReactivePower => {
            if channel_topic(t, serial, field_name(MeasurementTopic::Voltage)) {
                lemma_byte_from_end(t, n, field_name(MeasurementTopic::Voltage), 0);
                lemma_byte_from_end(t, n, field_name(m), 0);
            }
            if channel_topic(t, serial, field_name(MeasurementTopic::Current)) {
                lemma_byte_from_end(t, n, field_name(MeasurementTopic::Current), 0);
                lemma_byte_from_end(t, n, field_name(m), 0);
            }
            if channel_topic(t, serial, field_name(MeasurementTopic::Power)) {
                lemma_byte_from_end(t, n - field_name(MeasurementTopic::Power).len(), channel0_marker(), 0);
                lemma_byte_from_end(t, n, field_name(m), 5);
            }
            if channel_topic(t, serial, field_name(MeasurementTopic::Frequency)) {
                lemma_byte_from_end(t, n, field_name(MeasurementTopic::Frequency), 0);
                lemma_byte_from_end(t, n, field_name(m), 0);
            }
            if channel_topic(t, serial, field_name(MeasurementTopic::PowerFactor)) {
                lemma_byte_from_end(t, n, field_name(MeasurementTopic::PowerFactor), 1);
                lemma_byte_from_end(t, n, field_name(m), 1);
            }
        },
        MeasurementTopic::YieldTotal => {
            if channel_topic(t, serial, field_name(MeasurementTopic::Voltage)) {
                lemma_byte_from_end(t, n, field_name(MeasurementTopic::Voltage), 0);
                lemma_byte_from_end(t, n, field_name(m), 0);
            }
            if channel_topic(t, serial, field_name(MeasurementTopic::Current)) {
                lemma_byte_from_end(t, n, field_name(MeasurementTopic::Current), 0);
                lemma_byte_from_end(t, n, field_name(m), 0);
            }
            if channel_topic(t, serial, field_name(MeasurementTopic::Power)) {
                lemma_byte_from_end(t, n, field_name(MeasurementTopic::Power), 0);
                lemma_byte_from_end(t, n, field_name(m), 0);
            }
            if channel_topic(t, serial, field_name(MeasurementTopic::Frequency)) {
                lemma_byte_from_end(t, n, field_name(MeasurementTopic::Frequency), 0);
                lemma_byte_from_end(t, n, field_name(m), 0);
            }
            if channel_topic(t, serial, field_name(MeasurementTopic::PowerFactor)) {
                lemma_byte_from_end(t, n, field_name(MeasurementTopic::PowerFactor), 0);
                lemma_byte_from_end(t, n, field_name(m), 0);
            }
            if channel_topic(t, serial, field_name(MeasurementTopic::ReactivePower)) {
                lemma_byte_from_end(t, n, field_name(MeasurementTopic::ReactivePower), 0);
                lemma_byte_from_end(t, n, field_name(m), 0);
            }
        },
    }
}

/// Only the power factor is published as a percentage and only the yield in
/// kWh; every other measurement is taken as published.
pub proof fn law_measurement_scales(m: MeasurementTopic)
    ensures
        (m.scale_of() == ValueScale::PercentToFraction) <==> (m == MeasurementTopic::PowerFactor),
        (m.scale_of() == ValueScale::KiloToUnit) <==> (m == MeasurementTopic::YieldTotal),
        (m.scale_of() == ValueScale::Unit) <==> (m != MeasurementTopic::PowerFactor && m
            != MeasurementTopic::YieldTotal),
{
}

/// The registers that a measurement's value goes to, in the order the
/// readings are sent: phase A first, then the total or average (voltage to
/// 40081 and 40079, current to 40073 and 40071, power to 40099 and 40097,
/// power factor to 40123 and 40121, reactive power to 40115 and 40113);
/// frequency to 40095 and the yield to the exported energy at 40129 alone.
/// Every reading carries the value unchanged.
pub proof fn law_measurement_readings(m: MeasurementTopic, bits: u32)
    ensures
        forall|i: int|
            0 <= i < m.readings_of(bits).len() ==> #[trigger] m.readings_of(bits)[i].value_bits() == bits,
        m.readings_of(bits).map_values(|r: Readings| r.register_of()) == match m {
            MeasurementTopic::Voltage => seq![40081u16, 40079u16],
            MeasurementTopic::Current => seq![40073u16, 40071u16],
            MeasurementTopic::Power => seq![40099u16, 40097u16],
            MeasurementTopic::Frequency => seq![40095u16],
            MeasurementTopic::PowerFactor => seq![40123u16, 40121u16],
            MeasurementTopic::ReactivePower => seq![40115u16, 40113u16],
            MeasurementTopic::YieldTotal => seq![40129u16],
        },
{
    assert(m.readings_of(bits).map_values(|r: Readings| r.register_of()) =~= match m {
        MeasurementTopic::Voltage => seq![40081u16, 40079u16],
        MeasurementTopic::Current => seq![40073u16, 40071u16],
        MeasurementTopic::Power => seq![40099u16, 40097u16],
        MeasurementTopic::Frequency => seq![40095u16],
        MeasurementTopic::PowerFactor => seq![40123u16, 40121u16],
        MeasurementTopic::ReactivePower => seq![40115u16, 40113u16],
        MeasurementTopic::YieldTotal => seq![40129u16],
    });
}

impl MeasurementTopic {
    pub open spec fn scale_of(self) -> ValueScale {
        match self {
            MeasurementTopic::PowerFactor => ValueScale::PercentToFraction,
            MeasurementTopic::YieldTotal => ValueScale::KiloToUnit,
            _ => ValueScale::Unit,
        }
    }

    /// The readings, in the order they are sent, that a scaled value (given by
    /// its `f32` bits) of this measurement becomes.
    pub open spec fn readings_of(self, bits: u32) -> Seq<Readings> {
        match self {
            MeasurementTopic::Voltage => seq![
                Readings::PhaseAVoltage(bits),
                Readings::AveragePhaseVoltage(bits),
            ],
            MeasurementTopic::Current => seq![
                Readings::PhaseACurrent(bits),
                Readings::NetACCurrent(bits),
            ],
            MeasurementTopic::Power => seq![
                Readings::PhaseAWatts(bits),
                Readings::TotalRealPower(bits),
            ],
            MeasurementTopic::Frequency => seq![Readings::Frequency(bits)],
            MeasurementTopic::PowerFactor => seq![
                Readings::PhaseAPF(bits),
                Readings::PowerFactorTotal(bits),
            ],
            MeasurementTopic::ReactivePower => seq![
                Readings::PhaseAVAR(bits),
                Readings::ReactivePower(bits),
            ],
            MeasurementTopic::YieldTotal => seq![Readings::TotalExportEnergy(bits)],
        }
    }

    /// How the published value of this measurement is scaled.
    pub fn scale(&self) -> (s: ValueScale)
        ensures
            s == self.scale_of(),
    {
        match self {
            MeasurementTopic::PowerFactor => ValueScale::PercentToFraction,
            MeasurementTopic::YieldTotal => ValueScale::KiloToUnit,
            _ => ValueScale::Unit,
        }
    }

    /// The readings that a scaled value (its `f32` bits) becomes.
    pub fn readings(&self, bits: u32) -> (r: Vec<Readings>)
        ensures
            r@ == self.readings_of(bits),
    {
        let mut r: Vec<Readings> = Vec::new();
        match self {
            MeasurementTopic::Voltage => {
                r.push(Readings::PhaseAVoltage(bits));
                r.push(Readings::AveragePhaseVoltage(bits));
            },
            MeasurementTopic::Current => {
                r.push(Readings::PhaseACurrent(bits));
                r.push(Readings::NetACCurrent(bits));
            },
            MeasurementTopic::Power => {
                r.push(Readings::PhaseAWatts(bits));
                r.push(Readings::TotalRealPower(bits));
            },
            MeasurementTopic::Frequency => {
                r.push(Readings::Frequency(bits));
            },
            MeasurementTopic::PowerFactor => {
                r.push(Readings::PhaseAPF(bits));
                r.push(Readings::PowerFactorTotal(bits));
            },
            MeasurementTopic::ReactivePower => {
                r.push(Readings::PhaseAVAR(bits));
                r.push(Readings::ReactivePower(bits));
            },
            MeasurementTopic::YieldTotal => {
                r.push(Readings::TotalExportEnergy(bits));
            },
        }
        assert(r@ =~= self.readings_of(bits));
        r
    }
}

/// The bytes of an optional byte string.
pub open spec fn opt_bytes(o: Option<&[u8]>) -> Option<Seq<u8>> {
    match o {
        Some(b) => Some(b@),
        None => None,
    }
}

/// The inverter serial that topics are filtered by: the configured one,
/// given by its UTF-8 bytes; a blank (empty or whitespace) serial filters nothing.
pub open spec fn serial_filter(o: Option<&str>) -> Option<Seq<u8>> {
    match o {
        Some(s) => if trim_chars(s@).len() > 0 {
            Some(s.spec_bytes())
        } else {
            None
        },
        None => None,
    }
}

/// The readings a message becomes: those of its topic's measurement, for the
/// (scaled) value `value_bits`; none when the topic is not taken, the payload
/// is not UTF-8, or the payload is not a number (`value_bits` is `None`).
pub open spec fn message_readings_of(
    topic: Seq<u8>,
    serial: Option<Seq<u8>>,
    payload: Seq<u8>,
    value_bits: Option<u32>,
) -> Seq<Readings> {
    match (topic_measurement(topic, serial), value_bits) {
        (Some(m), Some(bits)) => if vstd::utf8::valid_utf8(payload) {
            m.readings_of(bits)
        } else {
            Seq::empty()
        },
        _ => Seq::empty(),
    }
}

/// `std::str::from_utf8`: the bytes as text exactly when they are valid UTF-8.
#[verifier::external_body]
fn utf8_text(bytes: &[u8]) -> (text: Option<&str>)
    ensures
        text is Some <==> vstd::utf8::valid_utf8(bytes@),
        text matches Some(t) ==> t.spec_bytes() == bytes@,
{
    std::str::from_utf8(bytes).ok()
}

impl MqttFetcher {
    /// Whether `t` is a channel-0 topic of `field` (see `channel_topic`).
    fn is_channel_topic(t: &[u8], serial: Option<&[u8]>, field: &[u8]) -> (r: bool)
        ensures
            r == channel_topic(t@, opt_bytes(serial), field@),
    {
        let n = t.len();
        if !ends_at_bytes(t, n, field) {
            return false;
        }
        let field_start = n - field.len();
        let marker: [u8; 3] = [0x2F, 0x30, 0x2F];
        assert(marker@ == channel0_marker());
        if !ends_at_bytes(t, field_start, marker.as_slice()) {
            return false;
        }
        let channel_start = field_start - 3;
        match serial {
            None => true,
            Some(s) => ends_at_bytes(t, channel_start, s) && (channel_start == s.len()
                || t[channel_start - s.len() - 1] == 0x2F),
        }
    }

    /// The measurement a topic carries, if the bridge forwards it for the
    /// inverter `inverter_serial` (for any inverter when `None`).
    pub fn classify_topic(topic: &str, inverter_serial: Option<&str>) -> (m: Option<MeasurementTopic>)
        ensures
            m == topic_measurement(topic.spec_bytes(), serial_filter(inverter_serial)),
            inverter_serial matches Some(s) && trim_chars(s@).len() > 0 && !carries_serial(
                topic.spec_bytes(),
                s.spec_bytes(),
            ) ==> m is None,
    {
        proof {
            if let Some(s) = inverter_serial {
                if !carries_serial(topic.spec_bytes(), s.spec_bytes()) {
                    law_foreign_topics_ignored(topic.spec_bytes(), s.spec_bytes());
                }
            }
        }
        let t = topic.as_bytes();
        let serial: Option<&[u8]> = match inverter_serial {
            Some(s) => if trim(s).is_empty() {
                None
            } else {
                Some(s.as_bytes())
            },
            None => None,
        };
        let no_serial = serial.is_none();
        if Self::is_channel_topic(t, serial, "voltage".as_bytes()) {
            Some(MeasurementTopic::Voltage)
        } else if Self::is_channel_topic(t, serial, "current".as_bytes()) {
            Some(MeasurementTopic::Current)
        } else if Self::is_channel_topic(t, serial, "power".as_bytes()) || (no_serial && bytes_eq(
            t,
            "ac/power".as_bytes(),
        )) {
            Some(MeasurementTopic::Power)
        } else if Self::is_channel_topic(t, serial, "frequency".as_bytes()) {
            Some(MeasurementTopic::Frequency)
        } else if Self::is_channel_topic(t, serial, "powerfactor".as_bytes()) {
            Some(MeasurementTopic::PowerFactor)
        } else if Self::is_channel_topic(t, serial, "reactivepower".as_bytes()) {
            Some(MeasurementTopic::ReactivePower)
        } else if Self::is_channel_topic(t, serial, "yieldtotal".as_bytes()) || (no_serial
            && bytes_eq(t, "ac/yieldtotal".as_bytes())) {
            Some(MeasurementTopic::YieldTotal)
        } else {
            None
        }
    }

    /// The readings to forward for a message on `topic` with `payload`, given
    /// `value_bits`: the `f32` bits of the payload text's number, scaled for
    /// the topic's measurement (`None` when the text is not a number).
    pub fn message_readings(
        topic: &str,
        inverter_serial: Option<&str>,
        payload: &[u8],
        value_bits: Option<u32>,
    ) -> (r: Vec<Readings>)
        ensures
            r@ == message_readings_of(
                topic.spec_bytes(),
                serial_filter(inverter_serial),
                payload@,
                value_bits,
            ),
            !vstd::utf8::valid_utf8(payload@) ==> r@.len() == 0,
            value_bits is None ==> r@.len() == 0,
            topic_measurement(topic.spec_bytes(), serial_filter(inverter_serial)) is None ==> r@.len()
                == 0,
    {
        match (Self::classify_topic(topic, inverter_serial), value_bits) {
            (Some(m), Some(bits)) => match Self::payload_text(payload) {
                Some(_) => m.readings(bits),
                None => Vec::new(),
            },
            _ => Vec::new(),
        }
    }

    /// The text of a message payload with surrounding whitespace removed, or
    /// `None` when the payload is not valid UTF-8.
    pub fn payload_text(payload: &[u8]) -> (text: Option<&str>)
        ensures
            text is Some <==> vstd::utf8::valid_utf8(payload@),
            text matches Some(t) ==> t@ == trim_chars(vstd::utf8::decode_utf8(payload@)),
    {
        match utf8_text(payload) {
            Some(s) => {
                proof {
                    vstd::utf8::encode_utf8_decode_utf8(s@);
                }
                Some(trim(s))
            },
            None => None,
        }
    }
}

} // verus!
