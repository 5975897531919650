//! The popup menu as data: the identifiers of its items, its layout, and the
//! way back from a chosen item to a device.
//!
//! A menu item is known to the shell by a 16-bit number only. A device's
//! number is the CRC-16/ARC checksum of its identifier, so that it is the
//! same on every run. Two numbers are set aside for items that are no
//! device. Nothing keeps a checksum from meeting one of them or the
//! checksum of another device: where two devices share a number, choosing
//! it reaches the later one.

use vstd::prelude::*;
use vstd::utf8::encode_utf8;
use crate::device::AudioDevice;

verus! {

/// The number of the item that ends the program.
pub const POPUP_EXIT_ID: u32 = 1;

/// The number of the item that shows the current device and cannot be chosen.
pub const POPUP_CURRENT_DEVICE_ID: u32 = 2;

/// The CRC-16/ARC checksum of a byte string, as the `crc16` crate computes it.
pub uninterp spec fn crc16_arc(bytes: Seq<u8>) -> u16;

/// `crc16::State::<crc16::ARC>::calculate`.
///
/// Trusted: the result is the checksum that `crc16_arc` names, a function
/// of the bytes alone.
#[verifier::external_body]
fn crc16_arc_of(bytes: &[u8]) -> (crc: u16)
    ensures
        crc == crc16_arc(bytes@),
{
    crc16::State::<crc16::ARC>::calculate(bytes)
}

/// The menu number of the device with the given identifier: the checksum of
/// the identifier's UTF-8 bytes.
pub open spec fn menu_id_of(id: Seq<char>) -> u32 {
    crc16_arc(encode_utf8(id)) as u32
}

/// The menu numbers of a device list, in enumeration order.
pub open spec fn menu_ids_of(devices: Seq<AudioDevice>) -> Seq<u32> {
    Seq::new(devices.len(), |i: int| menu_id_of(devices[i].id@))
}

/// The menu number of a device identifier. It depends on the identifier
/// alone and fits in sixteen bits.
pub fn device_id_to_menu_id(device_id: &str) -> (menu_id: u32)
    ensures
        menu_id == menu_id_of(device_id@),
        menu_id <= 0xffff,
{
    crc16_arc_of(device_id.as_bytes()) as u32
}

/// The menu numbers of the devices, in enumeration order.
pub fn menu_ids(devices: &Vec<AudioDevice>) -> (numbers: Vec<u32>)
    ensures
        numbers@ == menu_ids_of(devices@),
{
    let mut numbers: Vec<u32> = Vec::new();
    let mut i: usize = 0;
    while i < devices.len()
        invariant
            i <= devices.len(),
            numbers@.len() == i,
            forall|j: int| 0 <= j < i ==> numbers@[j] == menu_id_of(devices@[j].id@),
        decreases devices.len() - i,
    {
        numbers.push(device_id_to_menu_id(devices[i].id.as_str()));
        i = i + 1;
    }
    assert(numbers@ =~= menu_ids_of(devices@));
    numbers
}

/// Whether a menu number is one of the two that are set aside.
pub fn is_reserved(menu_id: u32) -> (reserved: bool)
    ensures
        reserved == (menu_id == POPUP_EXIT_ID || menu_id == POPUP_CURRENT_DEVICE_ID),
{
    menu_id == POPUP_EXIT_ID || menu_id == POPUP_CURRENT_DEVICE_ID
}

/// One item of the popup menu.
#[derive(Clone, Debug, PartialEq, Eq)]
pub enum MenuEntry {
    /// The program's name at the top; it cannot be chosen.
    Title,
    /// The name of the current default device; it cannot be chosen.
    CurrentDevice { label: String },
    /// A dividing line.
    Separator,
    /// A device, ticked where it takes part in the rotation.
    Device { label: String, menu_id: u32, checked: bool },
    /// The item that ends the program.
    Exit,
}

impl MenuEntry {
    /// The number by which the shell reports the item, where it has one.
    pub open spec fn spec_id(self) -> Option<u32> {
        match self {
            MenuEntry::Title => None,
            MenuEntry::CurrentDevice { .. } => Some(POPUP_CURRENT_DEVICE_ID),
            MenuEntry::Separator => None,
            MenuEntry::Device { menu_id, .. } => Some(menu_id),
            MenuEntry::Exit => Some(POPUP_EXIT_ID),
        }
    }

    /// The number by which the shell reports the item, where it has one.
    pub fn id(&self) -> (id: Option<u32>)
        ensures
            id == self.spec_id(),
    {
        match self {
            MenuEntry::Title => None,
            MenuEntry::CurrentDevice { .. } => Some(POPUP_CURRENT_DEVICE_ID),
            MenuEntry::Separator => None,
            MenuEntry::Device { menu_id, .. } => Some(*menu_id),
            MenuEntry::Exit => Some(POPUP_EXIT_ID),
        }
    }

    /// The text the item shows; a dividing line shows none.
    pub fn label(&self) -> (text: &str)
        ensures
            match *self {
                MenuEntry::Title => text@ == "AudioSwitch"@,
                MenuEntry::CurrentDevice { label } => text@ == label@,
                MenuEntry::Separator => text@ == ""@,
                MenuEntry::Device { label, .. } => text@ == label@,
                MenuEntry::Exit => text@ == "Exit"@,
            },
    {
        match self {
            MenuEntry::Title => "AudioSwitch",
            MenuEntry::CurrentDevice { label } => label.as_str(),
            MenuEntry::Separator => "",
            MenuEntry::Device { label, .. } => label.as_str(),
            MenuEntry::Exit => "Exit",
        }
    }

    /// Whether the user can choose the item.
    pub fn is_enabled(&self) -> (enabled: bool)
        ensures
            enabled == (self is Device || self is Exit),
    {
        match self {
            MenuEntry::Device { .. } => true,
            MenuEntry::Exit => true,
            _ => false,
        }
    }
}

/// The menu for a device list, from top to bottom: the title, the current
/// device, a line, the devices in enumeration order, a line, the exit item.
pub open spec fn menu_of(devices: Seq<AudioDevice>, current: AudioDevice) -> Seq<MenuEntry> {
    seq![
        MenuEntry::Title,
        MenuEntry::CurrentDevice { label: current.friendly_name },
        MenuEntry::Separator,
    ] + Seq::new(
        devices.len(),
        |i: int|
            MenuEntry::Device {
                label: devices[i].friendly_name,
                menu_id: menu_id_of(devices[i].id@),
                checked: devices[i].selectable,
            },
    ) + seq![MenuEntry::Separator, MenuEntry::Exit]
}

/// The place of the item that names the current device, counted from the top.
pub const CURRENT_DEVICE_POSITION: usize = 1;

/// The place of the first device's item, counted from the top.
pub const FIRST_DEVICE_POSITION: usize = 3;

/// The popup menu for the devices, from top to bottom.
///
/// The item of the device at place `i` of the enumeration stands at place
/// `FIRST_DEVICE_POSITION + i` of the menu.
pub fn menu_layout(devices: &Vec<AudioDevice>, current_device: &AudioDevice) -> (menu: Vec<
    MenuEntry,
>)
    ensures
        menu@ == menu_of(devices@, *current_device),
        menu@.len() == devices@.len() + 5,
        menu@[CURRENT_DEVICE_POSITION as int] == (MenuEntry::CurrentDevice {
            label: current_device.friendly_name,
        }),
        forall|i: int|
            0 <= i < devices@.len() ==> #[trigger] menu@[FIRST_DEVICE_POSITION + i]
                == (MenuEntry::Device {
                label: devices@[i].friendly_name,
                menu_id: menu_id_of(devices@[i].id@),
                checked: devices@[i].selectable,
            }),
{
    let mut menu: Vec<MenuEntry> = Vec::new();
    menu.push(MenuEntry::Title);
    menu.push(MenuEntry::CurrentDevice { label: current_device.friendly_name.clone() });
    menu.push(MenuEntry::Separator);
    let mut i: usize = 0;
    while i < devices.len()
        invariant
            i <= devices.len(),
            menu@.len() == 3 + i,
            menu@[0] == MenuEntry::Title,
            menu@[1] == (MenuEntry::CurrentDevice { label: current_device.friendly_name }),
            menu@[2] == MenuEntry::Separator,
            forall|j: int|
                0 <= j < i ==> menu@[3 + j] == (MenuEntry::Device {
                    label: devices@[j].friendly_name,
                    menu_id: menu_id_of(devices@[j].id@),
                    checked: devices@[j].selectable,
                }),
        decreases devices.len() - i,
    {
        let device = &devices[i];
        menu.push(
            MenuEntry::Device {
                label: device.friendly_name.clone(),
                menu_id: device_id_to_menu_id(device.id.as_str()),
                checked: device.selectable,
            },
        );
        i = i + 1;
    }
    menu.push(MenuEntry::Separator);
    menu.push(MenuEntry::Exit);
    assert(menu@ =~= menu_of(devices@, *current_device));
    menu
}

/// The last place at which `menu_id` stands, if there is one.
pub open spec fn last_place(numbers: Seq<u32>, menu_id: u32) -> Option<int>
    decreases numbers.len(),
{
    if numbers.len() == 0 {
        None
    } else if numbers.last() == menu_id {
        Some(numbers.len() - 1)
    } else {
        last_place(numbers.drop_last(), menu_id)
    }
}

/// `last_place` finds the greatest matching place, and finds none exactly
/// when there is none.
pub proof fn lemma_last_place(numbers: Seq<u32>, menu_id: u32)
    ensures
        match last_place(numbers, menu_id) {
            Some(i) => {
                &&& 0 <= i < numbers.len()
                &&& numbers[i] == menu_id
                &&& forall|j: int| i < j < numbers.len() ==> numbers[j] != menu_id
            },
            None => forall|j: int| 0 <= j < numbers.len() ==> numbers[j] != menu_id,
        },
    decreases numbers.len(),
{
    if numbers.len() > 0 && numbers.last() != menu_id {
        let front = numbers.drop_last();
        lemma_last_place(front, menu_id);
        match last_place(front, menu_id) {
            Some(i) => {
                assert(front[i] == numbers[i]);
                assert forall|j: int| i < j < numbers.len() implies numbers[j] != menu_id by {
                    if j < front.len() {
                        assert(front[j] == numbers[j]);
                    }
                }
            },
            None => {
                assert forall|j: int| 0 <= j < numbers.len() implies numbers[j] != menu_id by {
                    if j < front.len() {
                        assert(front[j] == numbers[j]);
                    }
                }
            },
        }
    }
}

/// What a chosen menu item asks for.
#[derive(Clone, Copy, Debug, PartialEq, Eq, Structural)]
pub enum MenuTarget {
    /// End the program.
    Exit,
    /// Flip the rotation flag of the device at this place.
    Device(usize),
    /// The number belongs to no item that can be chosen.
    Unknown,
}

/// What the menu number `menu_id` asks for, given the menu numbers of the
/// devices in enumeration order.
pub open spec fn target_of(numbers: Seq<u32>, menu_id: u32) -> MenuTarget {
    if menu_id == POPUP_EXIT_ID {
        MenuTarget::Exit
    } else {
        match last_place(numbers, menu_id) {
            Some(i) => MenuTarget::Device(i as usize),
            None => MenuTarget::Unknown,
        }
    }
}

/// Resolves a chosen menu number against the menu numbers of the devices.
///
/// The exit number always means exit. Any other number means the last
/// device that has it, and nothing where no device has it.
pub fn resolve_menu_id(numbers: &Vec<u32>, menu_id: u32) -> (target: MenuTarget)
    ensures
        target == target_of(numbers@, menu_id),
        match target {
            MenuTarget::Exit => menu_id == POPUP_EXIT_ID,
            MenuTarget::Device(i) => {
                &&& menu_id != POPUP_EXIT_ID
                &&& i < numbers.len()
                &&& numbers[i as int] == menu_id
                &&& forall|j: int| i < j < numbers.len() ==> numbers[j] != menu_id
            },
            MenuTarget::Unknown => {
                &&& menu_id != POPUP_EXIT_ID
                &&& forall|j: int| 0 <= j < numbers.len() ==> numbers[j] != menu_id
            },
        },
{
    if menu_id == POPUP_EXIT_ID {
        return MenuTarget::Exit;
    }
    proof {
        lemma_last_place(numbers@, menu_id);
    }
    let mut i: usize = numbers.len();
    assert(numbers@.take(i as int) =~= numbers@);
    while i > 0
        invariant
            i <= numbers.len(),
            menu_id != POPUP_EXIT_ID,
            last_place(numbers@, menu_id) == last_place(numbers@.take(i as int), menu_id),
            match last_place(numbers@, menu_id) {
                Some(k) => {
                    &&& 0 <= k < numbers.len()
                    &&& numbers[k] == menu_id
                    &&& forall|j: int| k < j < numbers.len() ==> numbers[j] != menu_id
                },
                None => forall|j: int| 0 <= j < numbers.len() ==> numbers[j] != menu_id,
            },
        decreases i,
    {
        proof {
            assert(numbers@.take(i as int).drop_last() =~= numbers@.take(i - 1));
            assert(numbers@.take(i as int).last() == numbers@[i - 1]);
        }
        if numbers[i - 1] == menu_id {
            return MenuTarget::Device(i - 1);
        }
        i = i - 1;
    }
    MenuTarget::Unknown
}

} // verus!
