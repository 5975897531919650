//! The plain-value side of the default-endpoint adapter: the role to set,
//! the place of the operation in the native method table, and what a native
//! status code means.
//!
//! The native interface is not documented. Its method table starts with the
//! three operations every such interface has; ten accessors of the audio
//! policy follow; the operation that sets the default endpoint comes right
//! after them.

use vstd::prelude::*;

verus! {

/// The use for which a default endpoint is set.
#[derive(Clone, Copy, Debug, PartialEq, Eq, Structural)]
pub enum Role {
    Console,
    Multimedia,
    Communications,
}

impl Role {
    /// The number by which the native interface knows the role.
    pub open spec fn spec_code(self) -> i32 {
        match self {
            Role::Console => 0,
            Role::Multimedia => 1,
            Role::Communications => 2,
        }
    }

    /// The number by which the native interface knows the role.
    pub fn code(self) -> (code: i32)
        ensures
            code == self.spec_code(),
    {
        match self {
            Role::Console => 0,
            Role::Multimedia => 1,
            Role::Communications => 2,
        }
    }
}

/// Why the default endpoint was not set.
#[derive(Clone, Copy, Debug, PartialEq, Eq, Structural)]
pub enum AdapterError {
    /// The native call returned this failure status.
    NativeCallFailed(i32),
    /// The method table is not laid out as the binding expects.
    TableMismatch,
}

/// What a native status code means: a negative one is a failure and is
/// carried in the error, any other is success.
pub fn status_to_result(status: i32) -> (result: Result<(), AdapterError>)
    ensures
        status >= 0 ==> result == Ok::<(), AdapterError>(()),
        status < 0 ==> result == Err::<(), AdapterError>(AdapterError::NativeCallFailed(status)),
{
    if status >= 0 {
        Ok(())
    } else {
        Err(AdapterError::NativeCallFailed(status))
    }
}

/// The number of operations at the head of every native method table.
pub const BASE_METHODS: usize = 3;

/// The operations of the policy interface, in the order of its method table.
#[derive(Clone, Copy, Debug, PartialEq, Eq, Structural)]
pub enum PolicyMethod {
    GetMixFormat,
    GetDeviceFormat,
    ResetDeviceFormat,
    SetDeviceFormat,
    GetProcessingPeriod,
    SetProcessingPeriod,
    GetShareMode,
    SetShareMode,
    GetPropertyValue,
    SetPropertyValue,
    SetDefaultEndpoint,
    SetEndpointVisibility,
}

impl PolicyMethod {
    /// The place of the operation among the operations of the policy
    /// interface itself, counted from zero.
    pub open spec fn spec_ordinal(self) -> nat {
        match self {
            PolicyMethod::GetMixFormat => 0,
            PolicyMethod::GetDeviceFormat => 1,
            PolicyMethod::ResetDeviceFormat => 2,
            PolicyMethod::SetDeviceFormat => 3,
            PolicyMethod::GetProcessingPeriod => 4,
            PolicyMethod::SetProcessingPeriod => 5,
            PolicyMethod::GetShareMode => 6,
            PolicyMethod::SetShareMode => 7,
            PolicyMethod::GetPropertyValue => 8,
            PolicyMethod::SetPropertyValue => 9,
            PolicyMethod::SetDefaultEndpoint => 10,
            PolicyMethod::SetEndpointVisibility => 11,
        }
    }

    /// Whether the operation reads or writes a setting of the audio policy
    /// of one device, as the ten operations before `SetDefaultEndpoint` do.
    pub open spec fn is_accessor(self) -> bool {
        self.spec_ordinal() < 10
    }

    /// The place of the operation in the method table, counted from zero.
    pub open spec fn spec_slot(self) -> nat {
        BASE_METHODS as nat + self.spec_ordinal()
    }

    /// The place of the operation in the method table, counted from zero.
    pub fn slot(self) -> (slot: usize)
        ensures
            slot == self.spec_slot(),
    {
        let ordinal: usize = match self {
            PolicyMethod::GetMixFormat => 0,
            PolicyMethod::GetDeviceFormat => 1,
            PolicyMethod::ResetDeviceFormat => 2,
            PolicyMethod::SetDeviceFormat => 3,
            PolicyMethod::GetProcessingPeriod => 4,
            PolicyMethod::SetProcessingPeriod => 5,
            PolicyMethod::GetShareMode => 6,
            PolicyMethod::SetShareMode => 7,
            PolicyMethod::GetPropertyValue => 8,
            PolicyMethod::SetPropertyValue => 9,
            PolicyMethod::SetDefaultEndpoint => 10,
            PolicyMethod::SetEndpointVisibility => 11,
        };
        BASE_METHODS + ordinal
    }
}

/// The operation that sets the default endpoint stands right behind the
/// base operations and the accessors: every accessor has a smaller place,
/// and no place between the last accessor and it is left.
pub proof fn lemma_set_default_endpoint_slot(method: PolicyMethod)
    ensures
        PolicyMethod::SetDefaultEndpoint.spec_slot() == 13,
        method.is_accessor() ==> BASE_METHODS <= method.spec_slot()
            < PolicyMethod::SetDefaultEndpoint.spec_slot(),
        method.spec_slot() < PolicyMethod::SetDefaultEndpoint.spec_slot() ==> method.is_accessor(),
{
}

/// Checks where an operation's entry was found in the native method table.
///
/// `byte_offset` is the distance of the entry from the start of the table and
/// `pointer_size` the size of one entry. The check passes exactly when the
/// entry stands at the operation's place.
pub fn check_table_offset(method: PolicyMethod, byte_offset: usize, pointer_size: usize) -> (result:
    Result<(), AdapterError>)
    ensures
        byte_offset == method.spec_slot() * pointer_size ==> result == Ok::<(), AdapterError>(()),
        byte_offset != method.spec_slot() * pointer_size ==> result == Err::<(), AdapterError>(
            AdapterError::TableMismatch,
        ),
{
    let slot: usize = method.slot();
    match slot.checked_mul(pointer_size) {
        Some(expected) => {
            if expected == byte_offset {
                Ok(())
            } else {
                Err(AdapterError::TableMismatch)
            }
        },
        None => Err(AdapterError::TableMismatch),
    }
}

} // verus!
