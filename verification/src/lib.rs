//! The state engine of a tray utility that cycles the default audio output
//! device: the device model, the menu identifier codec, the store of
//! per-device rotation flags, the rotation itself, and the plain-value side
//! of the shell and of the default-endpoint adapter.

pub mod device;
pub mod directory;
pub mod text;
pub mod rotation;
pub mod cycle;
pub mod states;
pub mod store;
pub mod menu;
pub mod events;
pub mod adapter;
pub mod switch;

pub use adapter::{AdapterError, Role};
pub use device::{AudioDevice, FormFactor};
pub use events::{window_event, WindowEvent, HIWORD, LOWORD};
pub use menu::{device_id_to_menu_id, MenuEntry, MenuTarget, POPUP_CURRENT_DEVICE_ID, POPUP_EXIT_ID};
pub use states::SavedStates;
pub use store::{
    apply_device_selectable_state, load_device_selectable_state, save_device_selectable_state,
    PersistenceError, StoredText,
};
pub use switch::{AdaptiveIcon, AudioSwitch};
pub use text::string_to_tip;
