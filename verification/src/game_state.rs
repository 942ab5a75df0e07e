//! Game-wide state: the running flag, the stack of maps, and the index
//! of the active map.

use vstd::prelude::*;

verus! {

use crate::map::GameMap;

pub struct GameState {
    pub running: bool,
    pub maps: Vec<GameMap>,
    pub map: usize,
}

impl GameState {
    /// The active map index is valid; a missing map is a programming
    /// error, so callers must establish this.
    pub open spec fn wf(self) -> bool {
        self.map < self.maps@.len()
    }

    pub fn new(maps: Vec<GameMap>) -> (s: Self)
        ensures
            s.running,
            s.maps@ == maps@,
            s.map == 0,
    {
        GameState { running: true, maps, map: 0 }
    }

    pub fn get_map(&self) -> (m: &GameMap)
        requires
            self.wf(),
        ensures
            *m == self.maps@[self.map as int],
    {
        &self.maps[self.map]
    }

    pub fn get_map_mut(&mut self) -> (m: &mut GameMap)
        requires
            old(self).wf(),
        ensures
            *m == old(self).maps@[old(self).map as int],
            final(self).maps@ == old(self).maps@.update(old(self).map as int, *final(m)),
            final(self).running == old(self).running,
            final(self).map == old(self).map,
    {
        &mut self.maps[self.map]
    }
}

} // verus!
