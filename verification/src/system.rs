//! Traits for OS related things. The platform layer implements them; the
//! engine works through them.

use crate::types::EventAction;
use vstd::prelude::*;

verus! {

/// Trait representing a bitmap buffer that can be drawn into.
pub trait BackBuffer {
    /// Returns the buffer as slice.
    fn get_buffer(&mut self) -> &mut [u32];

    /// Returns the width of the back buffer.
    fn get_width(&self) -> u32;

    /// Returns the height of the buffer.
    fn get_height(&self) -> u32;
}

/// Trait representing the main window.
pub trait Window {
    /// The kind of back buffer that the window draws from.
    type Buffer: BackBuffer;

    /// Shows the main window.
    fn show_window(&self);

    /// Returns true until the program should terminate.
    /// The flag will be set to false if the window is destroyed
    /// and the message loop retrieves the final message.
    fn is_running(&self) -> bool;

    /// Should be called for each iteration of the game loop
    /// to handle window/system messages.
    fn handle_message(&mut self) -> Vec<EventAction>;

    /// Returns the back buffer of the Window. This is
    /// used to draw stuff into.
    fn get_backbuffer(&mut self) -> &mut Self::Buffer;

    /// Renders the back buffer to the window.
    fn render(&mut self);
}

/// Trait required to switch between fullscreen and windowed mode.
pub trait ToggleFullscreen {
    /// Switches between fullscreen and windowed mode.
    fn toggle_fullscreen(&mut self);
}

/// Trait representing the sound device of the platform.
pub trait NativeSoundEngine {
    /// Whether `init` may take a device from the state `self` to the state
    /// `next`. Each device says so for itself; one that says nothing
    /// promises nothing.
    open spec fn init_leads_to(&self, next: &Self) -> bool {
        true
    }

    /// Whether `shutdown` may take a device from the state `self` to the
    /// state `next`. Each device says so for itself; one that says nothing
    /// promises nothing.
    open spec fn shutdown_leads_to(&self, next: &Self) -> bool {
        true
    }

    /// Sets the device up for playback.
    fn init(&mut self)
        ensures
            old(self).init_leads_to(final(self)),
    ;

    /// Stops playback and releases the device.
    fn shutdown(&mut self)
        ensures
            old(self).shutdown_leads_to(final(self)),
    ;
}

} // verus!
