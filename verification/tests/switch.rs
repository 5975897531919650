use audio_switch::device::{AudioDevice, FormFactor};
use audio_switch::menu::{MenuEntry, MenuTarget};
use audio_switch::switch::{is_dark_mode, AdaptiveIcon, AudioSwitch};

fn named(id: &str, name: &str, selectable: bool, form_factor: FormFactor) -> AudioDevice {
    AudioDevice { id: id.to_string(), friendly_name: name.to_string(), selectable, form_factor }
}

fn switch_with(devices: Vec<AudioDevice>) -> AudioSwitch<u32> {
    AudioSwitch {
        icon: AdaptiveIcon::new(10, 11),
        available_devices: devices,
        headphones_icon: AdaptiveIcon::new(20, 21),
        headset_icon: AdaptiveIcon::new(30, 31),
        speaker_icon: AdaptiveIcon::new(40, 41),
    }
}

fn three() -> Vec<AudioDevice> {
    vec![
        named("123456789", "Speakers", true, FormFactor::Speaker),
        named("a", "Headphones", false, FormFactor::Headphones),
        named("endpoint-123", "Monitor", true, FormFactor::Other),
    ]
}

#[test]
fn dark_mode_unless_light_theme_is_one() {
    assert!(!is_dark_mode(1));
    assert!(is_dark_mode(0));
    assert!(is_dark_mode(2));
    assert!(is_dark_mode(u32::MAX));
}

#[test]
fn adaptive_icon_follows_the_theme() {
    let icon = AdaptiveIcon::new("light", "dark");
    assert_eq!(icon.light, "light");
    assert_eq!(icon.dark, "dark");
    assert_eq!(*icon.icon(false), "light");
    assert_eq!(*icon.icon(true), "dark");
}

#[test]
fn icon_for_each_form_factor() {
    let switch = switch_with(Vec::new());
    assert_eq!(*switch.icon_for_form_factor(FormFactor::Other, false), 10);
    assert_eq!(*switch.icon_for_form_factor(FormFactor::Other, true), 11);
    assert_eq!(*switch.icon_for_form_factor(FormFactor::Headphones, false), 20);
    assert_eq!(*switch.icon_for_form_factor(FormFactor::Headphones, true), 21);
    assert_eq!(*switch.icon_for_form_factor(FormFactor::Headset, false), 30);
    assert_eq!(*switch.icon_for_form_factor(FormFactor::Headset, true), 31);
    assert_eq!(*switch.icon_for_form_factor(FormFactor::Speaker, false), 40);
    assert_eq!(*switch.icon_for_form_factor(FormFactor::Speaker, true), 41);
}

#[test]
fn current_device_is_found_by_identifier() {
    let switch = switch_with(three());
    assert_eq!(switch.current_device("a").unwrap().friendly_name, "Headphones");
    assert_eq!(switch.current_device("123456789"), Some(&three()[0]));
    assert_eq!(switch.current_device("Headphones"), None);
    assert_eq!(switch.current_device("missing"), None);
}

#[test]
fn current_icon_follows_the_current_device() {
    let switch = switch_with(three());
    assert_eq!(switch.current_icon("123456789", false), Some(&40));
    assert_eq!(switch.current_icon("a", true), Some(&21));
    assert_eq!(switch.current_icon("endpoint-123", false), Some(&10));
    assert_eq!(switch.current_icon("missing", false), None);
}

#[test]
fn popup_menu_names_the_current_device() {
    let switch = switch_with(three());
    assert_eq!(
        switch.show_popup_menu("a"),
        Some(MenuEntry::CurrentDevice { label: "Headphones".to_string() })
    );
    assert_eq!(switch.show_popup_menu("missing"), None);
}

#[test]
fn menu_selection_of_exit_changes_nothing() {
    let mut switch = switch_with(three());
    assert_eq!(switch.menu_selection(1), MenuTarget::Exit);
    assert_eq!(switch.available_devices, three());
}

#[test]
fn menu_selection_toggles_the_device() {
    let mut switch = switch_with(three());
    assert_eq!(switch.menu_selection(0xE8C1), MenuTarget::Device(1));
    assert!(switch.available_devices[1].selectable);
    assert!(switch.available_devices[0].selectable);
    assert!(switch.available_devices[2].selectable);
    assert_eq!(switch.menu_selection(0xBB3D), MenuTarget::Device(0));
    assert!(!switch.available_devices[0].selectable);
    assert_eq!(switch.menu_selection(0xBB3D), MenuTarget::Device(0));
    assert!(switch.available_devices[0].selectable);
    assert_eq!(switch.available_devices[0].friendly_name, "Speakers");
    assert_eq!(switch.available_devices[0].id, "123456789");
    assert_eq!(switch.icon.light, 10);
    assert_eq!(switch.speaker_icon.dark, 41);
}

#[test]
fn menu_selection_of_unknown_number_changes_nothing() {
    let mut switch = switch_with(three());
    assert_eq!(switch.menu_selection(0x1234), MenuTarget::Unknown);
    assert_eq!(switch.menu_selection(2), MenuTarget::Unknown);
    assert_eq!(switch.menu_selection(0), MenuTarget::Unknown);
    assert_eq!(switch.available_devices, three());
}

#[test]
fn menu_selection_reaches_the_later_of_two_colliding_devices() {
    let mut switch = switch_with(vec![
        named("dev-405", "First", true, FormFactor::Other),
        named("dev-800", "Second", true, FormFactor::Other),
    ]);
    assert_eq!(switch.menu_selection(19833), MenuTarget::Device(1));
    assert!(switch.available_devices[0].selectable);
    assert!(!switch.available_devices[1].selectable);
}

#[test]
fn menu_selection_prefers_exit_over_a_colliding_device() {
    let mut switch = switch_with(vec![named("dev-1010391", "Unlucky", true, FormFactor::Other)]);
    assert_eq!(switch.menu_selection(1), MenuTarget::Exit);
    assert!(switch.available_devices[0].selectable);
}

#[test]
fn next_device_returns_the_device() {
    let switch = switch_with(three());
    assert_eq!(switch.next_device("123456789").unwrap().id, "endpoint-123");
    assert_eq!(switch.next_device("endpoint-123").unwrap().id, "123456789");
    assert_eq!(switch.next_device("a").unwrap().friendly_name, "Monitor");
    assert_eq!(switch.next_device("missing").unwrap().id, "endpoint-123");
}

#[test]
fn next_device_is_none_without_selectable_devices() {
    let switch = switch_with(vec![named("a", "Headphones", false, FormFactor::Headphones)]);
    assert_eq!(switch.next_device("a"), None);
    let empty = switch_with(Vec::new());
    assert_eq!(empty.next_device("a"), None);
}

#[test]
fn toggling_in_the_menu_changes_the_rotation() {
    let mut switch = switch_with(three());
    assert_eq!(switch.next_device("123456789").unwrap().id, "endpoint-123");
    switch.menu_selection(0xE8C1);
    assert_eq!(switch.next_device("123456789").unwrap().id, "a");
}
