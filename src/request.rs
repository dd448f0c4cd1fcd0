use vstd::prelude::*;

verus! {

/// Operation tag of a property-change install request.
pub const PROPERTY_CHANGE: u32 = 0x12;

/// State-change code that enables a device.
pub const STATE_ENABLE: u32 = 1;

/// State-change code that disables a device.
pub const STATE_DISABLE: u32 = 2;

/// Scope code for a change that applies to every hardware profile.
pub const SCOPE_GLOBAL: u32 = 1;

/// The state a device is asked to take.
#[derive(Clone, Copy, Debug, PartialEq, Eq, Structural)]
pub enum DesiredState {
    Enable,
    Disable,
}

impl DesiredState {
    pub open spec fn code_spec(self) -> u32 {
        match self {
            DesiredState::Enable => STATE_ENABLE,
            DesiredState::Disable => STATE_DISABLE,
        }
    }

    /// The platform's state-change code for this state.
    pub fn code(self) -> (r: u32)
        ensures
            r == self.code_spec(),
    {
        match self {
            DesiredState::Enable => STATE_ENABLE,
            DesiredState::Disable => STATE_DISABLE,
        }
    }
}

/// The record submitted as a device's pending install parameters.
#[derive(Clone, Copy, Debug, PartialEq, Eq, Structural)]
pub struct ChangeRequest {
    pub install_function: u32,
    pub state_change: u32,
    pub scope: u32,
    pub hw_profile: u32,
}

/// A property change to `state`, global in scope, with no profile override.
pub open spec fn property_change(state: DesiredState) -> ChangeRequest {
    ChangeRequest {
        install_function: PROPERTY_CHANGE,
        state_change: state.code_spec(),
        scope: SCOPE_GLOBAL,
        hw_profile: 0,
    }
}

/// Builds the change-request record for `state`.
pub fn change_request(state: DesiredState) -> (r: ChangeRequest)
    ensures
        r == property_change(state),
{
    ChangeRequest {
        install_function: PROPERTY_CHANGE,
        state_change: state.code(),
        scope: SCOPE_GLOBAL,
        hw_profile: 0,
    }
}

/// The token `/enable`, as bytes.
pub open spec fn enable_token() -> Seq<u8> {
    seq![47u8, 101u8, 110u8, 97u8, 98u8, 108u8, 101u8]
}

/// The token `/disable`, as bytes.
pub open spec fn disable_token() -> Seq<u8> {
    seq![47u8, 100u8, 105u8, 115u8, 97u8, 98u8, 108u8, 101u8]
}

/// The state an action token names: exactly `/enable` or `/disable`,
/// case-sensitive; anything else names none.
pub open spec fn action_of(token: Seq<u8>) -> Option<DesiredState> {
    if token == enable_token() {
        Some(DesiredState::Enable)
    } else if token == disable_token() {
        Some(DesiredState::Disable)
    } else {
        None
    }
}

fn bytes_equal(a: &[u8], b: &[u8]) -> (r: bool)
    ensures
        r == (a@ == b@),
{
    if a.len() != b.len() {
        return false;
    }
    let mut i: usize = 0;
    while i < a.len()
        invariant
            a@.len() == b@.len(),
            0 <= i <= a@.len(),
            forall|j: int| 0 <= j < i ==> a@[j] == b@[j],
        decreases a@.len() - i,
    {
        if a[i] != b[i] {
            return false;
        }
        i = i + 1;
    }
    assert(a@ =~= b@);
    true
}

/// Reads an action token given as bytes.
pub fn parse_action(token: &[u8]) -> (r: Option<DesiredState>)
    ensures
        r == action_of(token@),
{
    let enable: [u8; 7] = [47u8, 101u8, 110u8, 97u8, 98u8, 108u8, 101u8];
    let disable: [u8; 8] = [47u8, 100u8, 105u8, 115u8, 97u8, 98u8, 108u8, 101u8];
    assert(enable@ =~= enable_token());
    assert(disable@ =~= disable_token());
    if bytes_equal(token, enable.as_slice()) {
        Some(DesiredState::Enable)
    } else if bytes_equal(token, disable.as_slice()) {
        Some(DesiredState::Disable)
    } else {
        None
    }
}

} // verus!
