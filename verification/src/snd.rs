//! The sound engine of the game, on top of the sound device of the platform.

use crate::system::NativeSoundEngine;
use vstd::prelude::*;

verus! {

/// The sound engine. It owns the sound device of the platform.
pub struct SoundEngine<N: NativeSoundEngine> {
    native_snd: Box<N>,
}

impl<N: NativeSoundEngine> SoundEngine<N> {
    /// The sound device as it stands.
    pub closed spec fn native(&self) -> N {
        *self.native_snd
    }

    /// Creates a sound engine. Only one of those should exist.
    pub fn new(native_snd: Box<N>) -> (engine: SoundEngine<N>)
        ensures
            engine.native() == *native_snd,
    {
        SoundEngine { native_snd }
    }

    /// Initializes the sound engine: the device is initialized once.
    pub fn init(&mut self)
        ensures
            old(self).native().init_leads_to(&final(self).native()),
    {
        self.native_snd.init();
    }

    /// Mixes what is to be heard next. Nothing is mixed yet: the engine
    /// stays as it is.
    pub fn update(&mut self)
        ensures
            final(self).native() == old(self).native(),
    {
    }

    /// Shuts down any sound processing: the device is shut down once.
    pub fn shutdown(&mut self)
        ensures
            old(self).native().shutdown_leads_to(&final(self).native()),
    {
        self.native_snd.shutdown();
    }
}

} // verus!
