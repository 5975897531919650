//! The state of the tray utility and what each of its handlers decides.
//!
//! The state is one object that the driver of the message loop owns and
//! hands to each handler. The handlers do no input or output: they are told
//! what the operating system reported and answer what is to be done.

use vstd::prelude::*;
use crate::device::{ids, position, with_flag, AudioDevice, FormFactor};
use crate::menu::{menu_ids, menu_ids_of, resolve_menu_id, target_of, MenuEntry, MenuTarget};
use crate::rotation::{find_device, rotation_target};

verus! {

/// Whether the dark theme is in use, from the setting that says whether
/// applications use the light theme: only the value one means light.
pub fn is_dark_mode(apps_use_light_theme: u32) -> (dark: bool)
    ensures
        dark == (apps_use_light_theme != 1),
{
    let light_theme: bool = apps_use_light_theme == 1;
    !light_theme
}

/// An icon in two versions, one for the light theme and one for the dark.
/// `H` is whatever the shell uses to name a loaded icon.
#[derive(Debug)]
pub struct AdaptiveIcon<H> {
    pub light: H,
    pub dark: H,
}

impl<H> AdaptiveIcon<H> {
    /// An icon from its two versions.
    pub fn new(light: H, dark: H) -> (icon: Self)
        ensures
            icon.light == light,
            icon.dark == dark,
    {
        AdaptiveIcon { light, dark }
    }

    /// The version for the theme in use.
    pub fn icon(&self, dark_mode: bool) -> (icon: &H)
        ensures
            *icon == (if dark_mode {
                self.dark
            } else {
                self.light
            }),
    {
        if dark_mode {
            &self.dark
        } else {
            &self.light
        }
    }
}

/// The state of the tray utility: the devices of the last enumeration with
/// their rotation flags, and the icons to show for them.
#[derive(Debug)]
pub struct AudioSwitch<H> {
    /// The icon for a device that is neither headphones, headset nor speaker.
    pub icon: AdaptiveIcon<H>,
    pub available_devices: Vec<AudioDevice>,
    pub headphones_icon: AdaptiveIcon<H>,
    pub headset_icon: AdaptiveIcon<H>,
    pub speaker_icon: AdaptiveIcon<H>,
}

impl<H> AudioSwitch<H> {
    /// The icon that stands for a form factor.
    pub open spec fn adaptive_icon_for(self, form_factor: FormFactor) -> AdaptiveIcon<H> {
        match form_factor {
            FormFactor::Headphones => self.headphones_icon,
            FormFactor::Headset => self.headset_icon,
            FormFactor::Speaker => self.speaker_icon,
            FormFactor::Other => self.icon,
        }
    }

    /// The icon to show for a device of the given form factor under the
    /// theme in use.
    pub fn icon_for_form_factor(&self, form_factor: FormFactor, dark_mode: bool) -> (icon: &H)
        ensures
            *icon == (if dark_mode {
                self.adaptive_icon_for(form_factor).dark
            } else {
                self.adaptive_icon_for(form_factor).light
            }),
    {
        let adaptive_icon = match form_factor {
            FormFactor::Headphones => &self.headphones_icon,
            FormFactor::Headset => &self.headset_icon,
            FormFactor::Speaker => &self.speaker_icon,
            FormFactor::Other => &self.icon,
        };
        adaptive_icon.icon(dark_mode)
    }

    /// The device whose identifier is `current_device_id`: the first such
    /// device, or `None` where the enumeration holds none.
    pub fn current_device(&self, current_device_id: &str) -> (device: Option<&AudioDevice>)
        ensures
            match position(ids(self.available_devices@), current_device_id@) {
                Some(i) => device == Some(&self.available_devices@[i]),
                None => device is None,
            },
    {
        match find_device(&self.available_devices, current_device_id) {
            Some(i) => Some(&self.available_devices[i]),
            None => None,
        }
    }

    /// The icon to show while the device with the given identifier is the
    /// default, or `None` where the enumeration holds no such device.
    pub fn current_icon(&self, current_device_id: &str, dark_mode: bool) -> (icon: Option<&H>)
        ensures
            match position(ids(self.available_devices@), current_device_id@) {
                Some(i) => icon is Some && *icon->Some_0 == (if dark_mode {
                    self.adaptive_icon_for(self.available_devices@[i].form_factor).dark
                } else {
                    self.adaptive_icon_for(self.available_devices@[i].form_factor).light
                }),
                None => icon is None,
            },
    {
        match self.current_device(current_device_id) {
            Some(device) => Some(self.icon_for_form_factor(device.form_factor, dark_mode)),
            None => None,
        }
    }

    /// The menu item to refresh before the popup menu is shown: the one that
    /// names the current default device. `None` where the enumeration holds
    /// no device with the given identifier; the menu is then not shown.
    pub fn show_popup_menu(&self, current_device_id: &str) -> (item: Option<MenuEntry>)
        ensures
            match position(ids(self.available_devices@), current_device_id@) {
                Some(i) => item == Some(
                    MenuEntry::CurrentDevice { label: self.available_devices@[i].friendly_name },
                ),
                None => item is None,
            },
    {
        match self.current_device(current_device_id) {
            Some(device) => Some(MenuEntry::CurrentDevice { label: device.friendly_name.clone() }),
            None => None,
        }
    }

    /// Handles the choice of the menu item with the number `id`.
    ///
    /// The exit number asks for the end of the program and changes nothing.
    /// The number of a device flips that device's rotation flag; the caller
    /// then updates the tick of the item and stores the flags. Any other
    /// number changes nothing.
    pub fn menu_selection(&mut self, id: u32) -> (target: MenuTarget)
        ensures
            target == target_of(menu_ids_of(old(self).available_devices@), id),
            match target {
                MenuTarget::Device(i) => {
                    &&& i < old(self).available_devices.len()
                    &&& final(self).available_devices@ == old(self).available_devices@.update(
                        i as int,
                        with_flag(
                            old(self).available_devices@[i as int],
                            !old(self).available_devices@[i as int].selectable,
                        ),
                    )
                },
                _ => final(self).available_devices@ == old(self).available_devices@,
            },
            final(self).icon == old(self).icon,
            final(self).headphones_icon == old(self).headphones_icon,
            final(self).headset_icon == old(self).headset_icon,
            final(self).speaker_icon == old(self).speaker_icon,
    {
        let numbers = menu_ids(&self.available_devices);
        let target = resolve_menu_id(&numbers, id);
        match target {
            MenuTarget::Device(i) => {
                let flag: bool = self.available_devices[i].selectable;
                self.available_devices[i].selectable = !flag;
                assert(self.available_devices@ =~= old(self).available_devices@.update(
                    i as int,
                    with_flag(
                        old(self).available_devices@[i as int],
                        !old(self).available_devices@[i as int].selectable,
                    ),
                ));
            },
            _ => {},
        }
        target
    }

    /// The device to make the default when the device with the identifier
    /// `current_device_id` is the default now: the next selectable device in
    /// enumeration order, or the first one where none follows.
    ///
    /// An identifier that the enumeration does not hold counts as the front
    /// of the list. `None` means that no device is selectable; the default
    /// is then left as it is.
    pub fn next_device(&self, current_device_id: &str) -> (device: Option<&AudioDevice>)
        ensures
            match rotation_target(self.available_devices@, current_device_id@) {
                Some(i) => 0 <= i < self.available_devices.len() && device == Some(
                    &self.available_devices@[i],
                ),
                None => device is None,
            },
            device is None <==> forall|j: int|
                0 <= j < self.available_devices.len() ==> !self.available_devices[j].selectable,
            device is Some ==> device->Some_0.selectable,
    {
        match crate::rotation::next_device(&self.available_devices, current_device_id) {
            Some(i) => Some(&self.available_devices[i]),
            None => None,
        }
    }
}

} // verus!
