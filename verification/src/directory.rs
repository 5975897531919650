//! From what the operating system reports of an endpoint to an `AudioDevice`.
//!
//! The caller asks the operating system for the active render endpoints and
//! hands over, for each, its identifier and the two properties read from
//! its property store. What those properties must hold is decided here.

use vstd::prelude::*;
use crate::device::{AudioDevice, FormFactor};

verus! {

/// The variant type of a property that holds a string.
pub const VT_LPWSTR: u16 = 31;

/// The variant type of a property that holds an unsigned 32-bit number.
pub const VT_UI4: u16 = 19;

/// What a property of an endpoint holds, as far as the program reads it.
#[derive(Clone, Debug, PartialEq, Eq)]
pub enum PropertyValue {
    /// A string.
    Text(String),
    /// An unsigned 32-bit number.
    Unsigned(u32),
    /// Something else, of this variant type.
    Unsupported(u16),
}

/// Why an endpoint could not be taken into the device list.
#[derive(Clone, Copy, Debug, PartialEq, Eq, Structural)]
pub enum EnumerationError {
    /// The display name is no string but of this variant type.
    UnsupportedName(u16),
    /// The form factor is no unsigned number but of this variant type.
    UnsupportedFormFactor(u16),
}

impl PropertyValue {
    /// The variant type of the value.
    pub open spec fn spec_variant_type(self) -> u16 {
        match self {
            PropertyValue::Text(_) => VT_LPWSTR,
            PropertyValue::Unsigned(_) => VT_UI4,
            PropertyValue::Unsupported(vt) => vt,
        }
    }

    /// The variant type of the value.
    pub fn variant_type(&self) -> (vt: u16)
        ensures
            vt == self.spec_variant_type(),
    {
        match self {
            PropertyValue::Text(_) => VT_LPWSTR,
            PropertyValue::Unsigned(_) => VT_UI4,
            PropertyValue::Unsupported(vt) => *vt,
        }
    }
}

impl FormFactor {
    /// The form factor that the operating system's number stands for. Only
    /// speakers, headphones and headsets have an icon of their own; every
    /// other number is `Other`.
    pub open spec fn spec_from_code(code: u32) -> FormFactor {
        if code == 1 {
            FormFactor::Speaker
        } else if code == 3 {
            FormFactor::Headphones
        } else if code == 5 {
            FormFactor::Headset
        } else {
            FormFactor::Other
        }
    }

    /// The form factor that the operating system's number stands for.
    pub fn from_code(code: u32) -> (form_factor: FormFactor)
        ensures
            form_factor == FormFactor::spec_from_code(code),
    {
        if code == 1 {
            FormFactor::Speaker
        } else if code == 3 {
            FormFactor::Headphones
        } else if code == 5 {
            FormFactor::Headset
        } else {
            FormFactor::Other
        }
    }
}

/// The string that a property holds; a property that holds no string is
/// refused with its variant type.
pub fn propvariant_to_string(value: &PropertyValue) -> (text: Result<String, EnumerationError>)
    ensures
        match *value {
            PropertyValue::Text(s) => text is Ok && text->Ok_0@ == s@,
            _ => text == Err::<String, EnumerationError>(
                EnumerationError::UnsupportedName(value.spec_variant_type()),
            ),
        },
{
    match value {
        PropertyValue::Text(s) => Ok(s.clone()),
        _ => Err(EnumerationError::UnsupportedName(value.variant_type())),
    }
}

/// The form factor that a property holds; a property that holds no
/// unsigned number is refused with its variant type.
pub fn propvariant_to_form_factor(value: &PropertyValue) -> (form_factor: Result<
    FormFactor,
    EnumerationError,
>)
    ensures
        match *value {
            PropertyValue::Unsigned(code) => form_factor == Ok::<FormFactor, EnumerationError>(
                FormFactor::spec_from_code(code),
            ),
            _ => form_factor == Err::<FormFactor, EnumerationError>(
                EnumerationError::UnsupportedFormFactor(value.spec_variant_type()),
            ),
        },
{
    match value {
        PropertyValue::Unsigned(code) => Ok(FormFactor::from_code(*code)),
        _ => Err(EnumerationError::UnsupportedFormFactor(value.variant_type())),
    }
}

/// The device that an endpoint with the given identifier and properties is.
///
/// The form factor is looked at first: where both properties are of the
/// wrong kind, the error names the form factor. A device that is taken in
/// is selectable.
pub fn device_from_endpoint(
    id: String,
    friendly_name: &PropertyValue,
    form_factor: &PropertyValue,
) -> (device: Result<AudioDevice, EnumerationError>)
    ensures
        match (*form_factor, *friendly_name) {
            (PropertyValue::Unsigned(code), PropertyValue::Text(name)) => {
                &&& device is Ok
                &&& device->Ok_0.id == id
                &&& device->Ok_0.friendly_name@ == name@
                &&& device->Ok_0.selectable
                &&& device->Ok_0.form_factor == FormFactor::spec_from_code(code)
            },
            (PropertyValue::Unsigned(_), _) => device == Err::<AudioDevice, EnumerationError>(
                EnumerationError::UnsupportedName(friendly_name.spec_variant_type()),
            ),
            _ => device == Err::<AudioDevice, EnumerationError>(
                EnumerationError::UnsupportedFormFactor(form_factor.spec_variant_type()),
            ),
        },
{
    let form_factor = match propvariant_to_form_factor(form_factor) {
        Ok(f) => f,
        Err(e) => {
            return Err(e);
        },
    };
    match propvariant_to_string(friendly_name) {
        Ok(name) => Ok(AudioDevice::new(id, name, form_factor)),
        Err(e) => Err(e),
    }
}

} // verus!
