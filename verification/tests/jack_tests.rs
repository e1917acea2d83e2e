use stella::headphones_jack::{always_present_line, has_suffix, jack_kind, plug_state_line, JackKind};

#[test]
fn jack_controls_are_told_apart() {
    assert!(matches!(jack_kind("Master"), JackKind::NotAJack));
    assert!(matches!(jack_kind("Jack"), JackKind::NotAJack));
    match jack_kind("Headphone Jack") {
        JackKind::Switched(d) => assert_eq!(d, "Headphone"),
        other => panic!("{:?}", other),
    }
    match jack_kind("Front Mic Phantom Jack") {
        JackKind::AlwaysPresent(d) => assert_eq!(d, "Front Mic"),
        other => panic!("{:?}", other),
    }
    match jack_kind(" Jack") {
        JackKind::Switched(d) => assert_eq!(d, ""),
        other => panic!("{:?}", other),
    }
}

#[test]
fn report_lines() {
    assert_eq!(always_present_line("Front Mic"), "Front Mic is always present");
    assert_eq!(plug_state_line("Headphone", true), "Headphone is plugged in");
    assert_eq!(plug_state_line("Headphone", false), "Headphone is unplugged");
}

#[test]
fn suffixes() {
    assert!(has_suffix("abc", "bc"));
    assert!(has_suffix("abc", ""));
    assert!(!has_suffix("bc", "abc"));
    assert!(!has_suffix("abd", "bc"));
}
