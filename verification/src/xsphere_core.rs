//! The game engine core: for now only its state indicator.

use vstd::prelude::*;

verus! {

/// The state value that signals an active game.
pub const GAME_STATE_ACTIVE: u32 = 1;

/// The operations of the game engine core.
pub trait XSphereCoreContract: Sized {
    /// Sets the engine up. There is nothing to set up yet.
    fn init() -> (core: Self);

    /// The state of the game, which is always active.
    fn get_game_state(&self) -> (state: u32)
        ensures
            state == GAME_STATE_ACTIVE,
    ;
}

/// The engine core. It keeps no state of its own.
pub struct XSphereCore {}

impl XSphereCoreContract for XSphereCore {
    fn init() -> (core: Self) {
        XSphereCore {  }
    }

    fn get_game_state(&self) -> (state: u32) {
        GAME_STATE_ACTIVE
    }
}

} // verus!
