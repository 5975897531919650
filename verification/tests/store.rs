use std::collections::HashMap;

use audio_switch::device::{AudioDevice, FormFactor};
use audio_switch::states::SavedStates;
use audio_switch::store::{
    apply_device_selectable_state, load_device_selectable_state, loaded_or_empty, read_states,
    save_device_selectable_state, states_of_devices, PersistenceError, StoredText,
};

fn dev(id: &str, selectable: bool) -> AudioDevice {
    AudioDevice {
        id: id.to_string(),
        friendly_name: format!("Name of {id}"),
        selectable,
        form_factor: FormFactor::Speaker,
    }
}

fn json_error() -> serde_json::Error {
    serde_json::from_str::<bool>("not json").unwrap_err()
}

#[test]
fn saved_states_start_empty() {
    let s = SavedStates::new();
    assert_eq!(s.len(), 0);
    assert!(s.is_empty());
    assert_eq!(s.get("A"), None);
    assert!(!s.contains_key("A"));
    assert!(s.pairs().is_empty());
}

#[test]
fn saved_states_insert_and_get() {
    let mut s = SavedStates::new();
    s.insert("A".to_string(), true);
    s.insert("B".to_string(), false);
    assert_eq!(s.len(), 2);
    assert!(!s.is_empty());
    assert_eq!(s.get("A"), Some(true));
    assert_eq!(s.get("B"), Some(false));
    assert_eq!(s.get("C"), None);
    assert!(s.contains_key("B"));
    assert!(!s.contains_key("b"));
}

#[test]
fn saved_states_insert_replaces() {
    let mut s = SavedStates::new();
    s.insert("A".to_string(), true);
    s.insert("B".to_string(), true);
    s.insert("A".to_string(), false);
    assert_eq!(s.len(), 2);
    assert_eq!(s.get("A"), Some(false));
    assert_eq!(s.get("B"), Some(true));
    assert_eq!(s.pairs(), &vec![("A".to_string(), false), ("B".to_string(), true)]);
}

#[test]
fn from_pairs_lets_the_later_pair_count() {
    let pairs = vec![
        ("A".to_string(), true),
        ("B".to_string(), false),
        ("A".to_string(), false),
    ];
    let s = SavedStates::from_pairs(&pairs);
    assert_eq!(s.len(), 2);
    assert_eq!(s.get("A"), Some(false));
    assert_eq!(s.get("B"), Some(false));
}

#[test]
fn states_of_devices_holds_every_flag() {
    let devices = vec![dev("A", true), dev("B", false)];
    let s = states_of_devices(&devices);
    assert_eq!(s.len(), 2);
    assert_eq!(s.get("A"), Some(true));
    assert_eq!(s.get("B"), Some(false));
}

#[test]
fn apply_overwrites_stored_devices_only() {
    let mut devices = vec![dev("A", true), dev("B", true), dev("C", false)];
    let mut saved = SavedStates::new();
    saved.insert("A".to_string(), false);
    saved.insert("C".to_string(), true);
    apply_device_selectable_state(&mut devices, &saved);
    assert_eq!(devices, vec![dev("A", false), dev("B", true), dev("C", true)]);
}

#[test]
fn apply_of_no_flags_changes_nothing() {
    let mut devices = vec![dev("A", true), dev("B", false)];
    apply_device_selectable_state(&mut devices, &SavedStates::new());
    assert_eq!(devices, vec![dev("A", true), dev("B", false)]);
}

#[test]
fn apply_ignores_unknown_identifier() {
    let mut devices = vec![dev("A", true), dev("B", true)];
    let mut saved = SavedStates::new();
    saved.insert("removed".to_string(), false);
    saved.insert("B".to_string(), false);
    apply_device_selectable_state(&mut devices, &saved);
    assert_eq!(devices, vec![dev("A", true), dev("B", false)]);
}

#[test]
fn apply_reaches_every_device_with_a_repeated_identifier() {
    let mut devices = vec![dev("A", true), dev("A", true)];
    let mut saved = SavedStates::new();
    saved.insert("A".to_string(), false);
    apply_device_selectable_state(&mut devices, &saved);
    assert_eq!(devices, vec![dev("A", false), dev("A", false)]);
}

#[test]
fn new_device_keeps_default_flag_after_apply() {
    let loaded =
        load_device_selectable_state(&StoredText::Present("{\"old\": false}".to_string())).unwrap();
    let mut devices = vec![AudioDevice::new(
        "new".to_string(),
        "New device".to_string(),
        FormFactor::Headphones,
    )];
    apply_device_selectable_state(&mut devices, &loaded);
    assert!(devices[0].selectable);
}

#[test]
fn save_writes_a_json_object_of_flags() {
    let devices = vec![dev("A", true), dev("B", false)];
    let text = save_device_selectable_state(&devices);
    let parsed: HashMap<String, bool> = serde_json::from_str(&text).unwrap();
    let mut expected = HashMap::new();
    expected.insert("A".to_string(), true);
    expected.insert("B".to_string(), false);
    assert_eq!(parsed, expected);
}

#[test]
fn save_of_no_devices_writes_empty_object() {
    let devices: Vec<AudioDevice> = Vec::new();
    let text = save_device_selectable_state(&devices);
    assert_eq!(text, "{}");
}

#[test]
fn save_of_one_device_is_pretty_printed() {
    let devices = vec![dev("A", true)];
    let text = save_device_selectable_state(&devices);
    assert_eq!(text, "{\n  \"A\": true\n}");
}

#[test]
fn save_lets_the_later_of_two_equal_identifiers_count() {
    let devices = vec![dev("A", true), dev("A", false)];
    let text = save_device_selectable_state(&devices);
    assert_eq!(text, "{\n  \"A\": false\n}");
}

#[test]
fn save_load_apply_round_trip() {
    let saved_devices = vec![dev("A", true), dev("B", false)];
    let text = save_device_selectable_state(&saved_devices);
    let loaded = load_device_selectable_state(&StoredText::Present(text)).unwrap();
    let mut devices = vec![
        AudioDevice::new("A".to_string(), "Name of A".to_string(), FormFactor::Speaker),
        AudioDevice::new("B".to_string(), "Name of B".to_string(), FormFactor::Speaker),
    ];
    apply_device_selectable_state(&mut devices, &loaded);
    assert!(devices[0].selectable);
    assert!(!devices[1].selectable);
    assert_eq!(devices, saved_devices);
}

#[test]
fn round_trip_keeps_odd_identifiers() {
    let ids = [
        "{0.0.0.00000000}.{6f1e3b0a-0c1d-4a57-9b0e-3f1d2c4b5a69}",
        "quote\" backslash\\ slash/",
        "tab\t newline\n bell\u{7}",
        "ünïcödé 音频 🎧",
        "",
    ];
    let saved_devices: Vec<AudioDevice> =
        ids.iter().enumerate().map(|(i, id)| dev(id, i % 2 == 0)).collect();
    let text = save_device_selectable_state(&saved_devices);
    let loaded = load_device_selectable_state(&StoredText::Present(text)).unwrap();
    assert_eq!(loaded.len(), ids.len());
    let mut devices: Vec<AudioDevice> = ids.iter().map(|id| dev(id, true)).collect();
    apply_device_selectable_state(&mut devices, &loaded);
    assert_eq!(devices, saved_devices);
}

#[test]
fn round_trip_onto_a_changed_enumeration() {
    let saved_devices = vec![dev("A", false), dev("B", true), dev("C", false)];
    let text = save_device_selectable_state(&saved_devices);
    let loaded = load_device_selectable_state(&StoredText::Present(text)).unwrap();
    let mut devices = vec![dev("D", true), dev("C", true), dev("A", true)];
    apply_device_selectable_state(&mut devices, &loaded);
    assert_eq!(devices, vec![dev("D", true), dev("C", false), dev("A", false)]);
}

#[test]
fn load_of_absent_state_is_empty() {
    let loaded = load_device_selectable_state(&StoredText::Absent).unwrap();
    assert!(loaded.is_empty());
    assert_eq!(loaded.len(), 0);
}

#[test]
fn load_of_unreadable_state_fails() {
    let loaded = load_device_selectable_state(&StoredText::Unreadable);
    assert_eq!(loaded.unwrap_err(), PersistenceError::Unreadable);
}

#[test]
fn load_reads_flags() {
    let text = "{\"A\": true, \"B\": false}".to_string();
    let loaded = load_device_selectable_state(&StoredText::Present(text)).unwrap();
    assert_eq!(loaded.len(), 2);
    assert_eq!(loaded.get("A"), Some(true));
    assert_eq!(loaded.get("B"), Some(false));
    assert_eq!(loaded.get("C"), None);
}

#[test]
fn load_of_empty_object_is_empty() {
    let loaded = load_device_selectable_state(&StoredText::Present("{}".to_string())).unwrap();
    assert!(loaded.is_empty());
}

#[test]
fn load_lets_the_later_of_two_equal_keys_count() {
    let text = "{\"A\": true, \"A\": false}".to_string();
    let loaded = load_device_selectable_state(&StoredText::Present(text)).unwrap();
    assert_eq!(loaded.len(), 1);
    assert_eq!(loaded.get("A"), Some(false));
}

#[test]
fn load_of_malformed_text_fails() {
    for text in [
        "",
        "not json",
        "{",
        "[]",
        "[true]",
        "null",
        "true",
        "{\"A\": 1}",
        "{\"A\": \"true\"}",
        "{\"A\": null}",
        "{\"A\": true,}",
        "{\"A\": true} trailing",
        "{A: true}",
    ] {
        let loaded = load_device_selectable_state(&StoredText::Present(text.to_string()));
        assert_eq!(loaded.unwrap_err(), PersistenceError::Malformed, "text: {text:?}");
    }
}

#[test]
fn loaded_or_empty_falls_back_to_no_flags() {
    let failed = load_device_selectable_state(&StoredText::Present("oops".to_string()));
    assert!(loaded_or_empty(failed).is_empty());
    assert!(loaded_or_empty(Err(PersistenceError::Unreadable)).is_empty());
    let good = load_device_selectable_state(&StoredText::Present("{\"A\": false}".to_string()));
    let states = loaded_or_empty(good);
    assert_eq!(states.get("A"), Some(false));
    assert_eq!(states.len(), 1);
}

#[test]
fn read_states_maps_refusal_to_malformed() {
    let states = read_states(Ok(vec![("A".to_string(), false), ("B".to_string(), true)])).unwrap();
    assert_eq!(states.get("A"), Some(false));
    assert_eq!(states.get("B"), Some(true));
    assert_eq!(states.len(), 2);
    assert_eq!(read_states(Err(json_error())).unwrap_err(), PersistenceError::Malformed);
}

#[test]
fn save_has_one_entry_per_identifier_and_none_per_name() {
    let devices = vec![
        AudioDevice {
            id: "A".to_string(),
            friendly_name: "Alpha".to_string(),
            selectable: true,
            form_factor: FormFactor::Speaker,
        },
        AudioDevice {
            id: "B".to_string(),
            friendly_name: "Alpha".to_string(),
            selectable: false,
            form_factor: FormFactor::Headset,
        },
    ];
    let text = save_device_selectable_state(&devices);
    let parsed: HashMap<String, bool> = serde_json::from_str(&text).unwrap();
    assert_eq!(parsed.len(), 2);
    assert_eq!(parsed.get("A"), Some(&true));
    assert_eq!(parsed.get("B"), Some(&false));
    assert!(!parsed.contains_key("Alpha"));
}

#[test]
fn save_does_not_depend_on_what_was_loaded_before() {
    let old = load_device_selectable_state(&StoredText::Present("{\"Old\": true}".to_string()));
    assert_eq!(old.unwrap().get("Old"), Some(true));
    let devices = vec![dev("A", true), dev("B", false)];
    let text = save_device_selectable_state(&devices);
    let loaded = load_device_selectable_state(&StoredText::Present(text)).unwrap();
    assert_eq!(loaded.len(), 2);
    assert_eq!(loaded.get("Old"), None);
    assert_eq!(loaded.get("A"), Some(true));
    assert_eq!(loaded.get("B"), Some(false));
}

#[test]
fn save_leaves_devices_untouched() {
    let devices = vec![dev("A", false), dev("B", true)];
    let before = devices.clone();
    let _ = save_device_selectable_state(&devices);
    assert_eq!(devices, before);
}

#[test]
fn save_succeeds_on_many_devices_with_odd_identifiers() {
    let devices: Vec<AudioDevice> = (0..300u32)
        .map(|n| dev(&format!("{{0.0.0.{n:08}}}.\u{1F3A7}\"\\\n{n}"), n % 3 == 0))
        .collect();
    let text = save_device_selectable_state(&devices);
    let loaded = load_device_selectable_state(&StoredText::Present(text)).unwrap();
    assert_eq!(loaded.len(), 300);
    for device in &devices {
        assert_eq!(loaded.get(&device.id), Some(device.selectable));
    }
}
