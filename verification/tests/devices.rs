use smart_meter_emulator::home_assistant::{HASensor, HomeAssistantAPI, HomeAssistantError};
use smart_meter_emulator::shelly::{merge_u16_bits, total_power_bits, TOTAL_ACTIVE_POWER_REGISTER};

#[test]
fn test_home_assistant_api_no_connection() {
    let api = HomeAssistantAPI::new(String::new(), "test_token".to_string());
    let result = api.sensor_request("sensor.temperature");
    assert!(result.is_err());
    let err = match result {
        Err(e) => e,
        Ok(_) => unreachable!(),
    };
    assert_eq!(err, HomeAssistantError::NoConnection);
    assert_eq!(err.message(), "No HA connection");
}

#[test]
fn sensor_request_url_and_token() {
    let api = HomeAssistantAPI::new("http://127.0.0.1:8123".to_string(), "test_token".to_string());
    assert!(api.is_configured());
    let req = match api.sensor_request("sensor.temperature") {
        Ok(r) => r,
        Err(_) => panic!("configured endpoint refused"),
    };
    assert_eq!(req.url, "http://127.0.0.1:8123/api/states/sensor.temperature");
    assert_eq!(req.bearer_token, "test_token");
    assert!(!HomeAssistantAPI::new("u".to_string(), String::new()).is_configured());
    assert!(!HomeAssistantAPI::new(String::new(), "t".to_string()).is_configured());
}

#[test]
fn sensor_default_and_clone() {
    let s = HASensor::default();
    assert_eq!(s.state, "");
    let t = HASensor { entity_id: "sensor.temperature".to_string(), state: "22.5".to_string(), ..s };
    let u = t.clone();
    assert_eq!(u.entity_id, "sensor.temperature");
    assert_eq!(u.state, "22.5");
}

#[test]
fn shelly_registers_are_low_word_first() {
    assert_eq!(TOTAL_ACTIVE_POWER_REGISTER, 1013);
    let bits = 1234.5f32.to_bits();
    let low = (bits & 0xFFFF) as u16;
    let high = (bits >> 16) as u16;
    assert_eq!(merge_u16_bits(low, high), bits);
    assert_eq!(f32::from_bits(total_power_bits(&vec![low, high, 9])), 1234.5);
    assert_eq!(merge_u16_bits(0x0001, 0x0002), 0x0002_0001);
}

#[test]
fn sensors_compare_by_fields() {
    let a = HASensor { entity_id: "sensor.temperature".to_string(), state: "22.5".to_string(), ..HASensor::default() };
    let b = a.clone();
    assert!(a == b);
    let c = HASensor { state: "22.6".to_string(), ..a.clone() };
    assert!(a != c);
}
