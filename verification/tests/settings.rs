use smart_meter_emulator::settings::{
    bridge_meter_configs, parse_bool_env, parse_string_env, parse_switch, parse_u16, parse_u8,
    parse_u8_env,
};
use smart_meter_emulator::text::trim;

fn vals(v: &[Option<&str>]) -> Vec<Option<String>> {
    v.iter().map(|o| o.map(|s| s.to_string())).collect()
}

#[test]
fn bool_setting_first_set_variable_decides() {
    assert!(parse_bool_env(&vals(&[None, Some(" YES ")]), false));
    assert!(!parse_bool_env(&vals(&[Some("off"), Some("true")]), true));
    // an unknown value falls back to the default, even if a later name is set
    assert!(parse_bool_env(&vals(&[Some("maybe"), Some("false")]), true));
    assert!(!parse_bool_env(&vals(&[None, None]), false));
    assert!(parse_bool_env(&vals(&[]), true));
    assert!(parse_bool_env(&vals(&[Some("TRUE")]), false));
    assert!(!parse_bool_env(&vals(&[Some("N")]), true));
}

#[test]
fn switch_words() {
    for w in ["true", "1", "yes", "on", "y"] {
        assert!(parse_switch(w, false));
    }
    for w in ["false", "0", "no", "off", "n"] {
        assert!(!parse_switch(w, true));
    }
    assert!(parse_switch("TRUE", true));
    assert!(!parse_switch("TRUE", false));
}

#[test]
fn u8_setting_skips_unparsable_values() {
    assert_eq!(parse_u8_env(&vals(&[Some("abc"), Some(" 126 ")]), 240), 126);
    assert_eq!(parse_u8_env(&vals(&[Some("256"), None]), 240), 240);
    assert_eq!(parse_u8_env(&vals(&[None, Some("7")]), 1), 7);
    assert_eq!(parse_u8_env(&vals(&[]), 241), 241);
}

#[test]
fn u8_parsing_follows_from_str() {
    for s in ["0", "255", "+7", "007", "+0", "", "+", "-1", "256", "1a", " 1", "1000", "99999999999"] {
        assert_eq!(parse_u8(s), s.parse::<u8>().ok(), "input {:?}", s);
    }
    for s in ["0", "65535", "65536", "+1883", "1883", "x", ""] {
        assert_eq!(parse_u16(s), s.parse::<u16>().ok(), "input {:?}", s);
    }
}

#[test]
fn string_setting_takes_first_non_blank() {
    assert_eq!(parse_string_env(&vals(&[Some("   "), Some(" sn1 ")])), Some("sn1".to_string()));
    assert_eq!(parse_string_env(&vals(&[None, Some("")])), None);
    assert_eq!(parse_string_env(&vals(&[Some("a b"), Some("c")])), Some("a b".to_string()));
}

#[test]
fn trim_follows_std() {
    for s in ["", "  ", " a ", "\u{3000}x\u{2009}", "\t\n x y \r", "\u{200B}z", "\u{85}q\u{a0}"] {
        assert_eq!(trim(s), s.trim(), "input {:?}", s);
    }
}

#[test]
fn bridge_configs_serials() {
    let c = bridge_meter_configs(240, true, None, 241, false, None, Some("119182145457".to_string()));
    assert_eq!(c.len(), 2);
    assert_eq!(c[0].serial_number, "119182145457");
    assert_eq!(c[1].serial_number, "119182145457");
    assert_eq!(c[0].name, "Fronius (Inverted Power)");
    assert_eq!(c[1].name, "EVCC (Plain Power)");
    assert!(c[0].invert_power && !c[1].invert_power);
    assert_eq!((c[0].slave_id, c[1].slave_id), (240, 241));

    let d = bridge_meter_configs(126, true, Some("M1".to_string()), 1, false, None, None);
    assert_eq!(d[0].serial_number, "M1");
    assert_eq!(d[1].serial_number, "00000002");
    let e = bridge_meter_configs(1, true, None, 2, false, Some("M2".to_string()), None);
    assert_eq!(e[0].serial_number, "00000001");
    assert_eq!(e[1].serial_number, "M2");
}
