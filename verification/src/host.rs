//! Code for the local server setup, teardown and game loop.

use crate::resources::GameResources;
use crate::snd::SoundEngine;
use crate::system::NativeSoundEngine;
use vstd::prelude::*;

verus! {

/// The directory of the base game, which every start-up adds.
pub open spec fn base_directory() -> Seq<char> {
    "Id1"@
}

/// Local server instance. It works on the resources and on the sound
/// engine of its owner, through the two references it holds.
pub struct Host<'a, G: GameResources, N: NativeSoundEngine> {
    /// The resources of the game.
    pub game_res: &'a mut G,
    /// The sound engine.
    pub snd: &'a mut SoundEngine<N>,
}

impl<'a, G: GameResources, N: NativeSoundEngine> Host<'a, G, N> {
    /// Creates a new local server instance.
    pub fn new(game_res: &'a mut G, snd: &'a mut SoundEngine<N>) -> (host: Host<'a, G, N>)
        ensures
            *host.game_res == *old(game_res),
            *host.snd == *old(snd),
            *final(host.game_res) == *final(game_res),
            *final(host.snd) == *final(snd),
    {
        Host { game_res, snd }
    }

    /// Initializes the server: adds the directory of the base game to the
    /// resources, then initializes the sound engine.
    pub fn init(&mut self)
        ensures
            old(self).game_res.directory_added(base_directory(), &*final(self).game_res),
            old(self).snd.native().init_leads_to(&final(self).snd.native()),
            *final(final(self).game_res) == *final(old(self).game_res),
            *final(final(self).snd) == *final(old(self).snd),
    {
        self.game_res.add_game_directory("Id1");
        self.snd.init();
    }

    /// Shuts down the local server: shuts the sound engine down and leaves
    /// the resources as they are.
    pub fn shutdown(&mut self)
        ensures
            *final(self).game_res == *old(self).game_res,
            old(self).snd.native().shutdown_leads_to(&final(self).snd.native()),
            *final(final(self).game_res) == *final(old(self).game_res),
            *final(final(self).snd) == *final(old(self).snd),
    {
        self.snd.shutdown();
    }
}

} // verus!
