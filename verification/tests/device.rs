use audio_switch::device::{has_distinct_ids, AudioDevice, FormFactor};

fn with_id(id: &str) -> AudioDevice {
    AudioDevice::new(id.to_string(), "Same name".to_string(), FormFactor::Other)
}

#[test]
fn distinct_identifiers_are_recognised() {
    assert!(has_distinct_ids(&Vec::new()));
    assert!(has_distinct_ids(&vec![with_id("A")]));
    assert!(has_distinct_ids(&vec![with_id("A"), with_id("B"), with_id("C")]));
    assert!(has_distinct_ids(&vec![with_id("A"), with_id("a"), with_id("")]));
}

#[test]
fn repeated_identifiers_are_recognised() {
    assert!(!has_distinct_ids(&vec![with_id("A"), with_id("A")]));
    assert!(!has_distinct_ids(&vec![with_id("A"), with_id("B"), with_id("A")]));
    assert!(!has_distinct_ids(&vec![with_id("A"), with_id("B"), with_id("C"), with_id("C")]));
    assert!(!has_distinct_ids(&vec![with_id(""), with_id("")]));
}

#[test]
fn equal_names_do_not_count_as_equal_devices() {
    let devices = vec![with_id("A"), with_id("B")];
    assert_eq!(devices[0].friendly_name, devices[1].friendly_name);
    assert!(has_distinct_ids(&devices));
    assert_ne!(devices[0], devices[1]);
}
