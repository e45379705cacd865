//! What a hook hands back to the program, and what can go wrong.
use vstd::prelude::*;

verus! {

/// `std::io::Error`, carried through as it is.
#[verifier::external_type_specification]
#[verifier::external_body]
pub struct ExIoError(std::io::Error);

/// Why the layer steps aside and leaves a call to the system.
#[derive(Debug, Clone, Copy, PartialEq, Eq, Structural)]
pub enum Bypass {
    /// The socket type is neither a stream nor a datagram type.
    Type(i32),
    /// The address is not an internet address.
    AddressConversion,
    /// A value that the hook needs is not there.
    EmptyOption,
}

/// Why a hook fails.
#[derive(Debug)]
pub enum HookError {
    /// The program passed a null pointer.
    NullPointer,
    /// The system reported an error.
    IO(std::io::Error),
    /// The agent reported an error.
    Agent(String),
}

/// Why the layer cannot be set up.
#[derive(Debug)]
pub enum LayerError {
    /// The configuration lacks a value.
    MissingConfigValue(String),
    /// The configuration holds something that cannot be understood.
    InvalidConfig(String),
}

/// The outcome of a hook.
#[derive(Debug)]
pub enum Detour<S> {
    /// The hook did its work.
    Success(S),
    /// The call is left to the system.
    Bypass(Bypass),
    /// The hook failed.
    Error(HookError),
}

impl<S> Detour<S> {
    /// The value where there is one, and otherwise `reason` to step aside.
    pub open spec fn spec_or_bypass(value: Option<S>, reason: Bypass) -> Detour<S> {
        match value {
            Some(value) => Detour::Success(value),
            None => Detour::Bypass(reason),
        }
    }

    /// Succeeds with `value` where there is one, and otherwise steps aside for `reason`.
    pub fn or_bypass(value: Option<S>, reason: Bypass) -> (detour: Detour<S>)
        ensures
            detour == Self::spec_or_bypass(value, reason),
    {
        match value {
            Some(value) => Detour::Success(value),
            None => Detour::Bypass(reason),
        }
    }
}

/// A value is a success, and its absence is the reason to step aside.
pub proof fn law_absence_steps_aside<S>(
    value: S,
    reason: Bypass,
    present: Detour<S>,
    absent: Detour<S>,
)
    requires
        call_ensures(Detour::<S>::or_bypass, (Some(value), reason), present),
        call_ensures(Detour::<S>::or_bypass, (None, reason), absent),
    ensures
        present == Detour::Success(value),
        absent == Detour::<S>::Bypass(reason),
        Detour::<S>::spec_or_bypass(Some(value), reason) == Detour::Success(value),
        Detour::<S>::spec_or_bypass(None, reason) == Detour::<S>::Bypass(reason),
{
}

} // verus!
