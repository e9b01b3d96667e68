//! The scheduling interface, and the choice between the two schedulers.
use crate::cellular::CellularSim;
use crate::random::RandomSource;
use crate::space::{scene, Scene, Space};
use crate::swapping::SwappingSim;
use vstd::prelude::*;
use vstd::string::StringSliceAdditionalSpecFns;

verus! {

/// A scheduler: what advances a space by one tick.
pub trait Simulator {
    /// The scene after one tick of this scheduler.
    spec fn step(&self, s: Scene) -> Scene;

    /// Advances the space by exactly one generation.
    fn tick(&mut self, space: &mut Space, rng: &mut RandomSource)
        requires
            old(space).wf(),
        ensures
            final(space).wf(),
            final(space)@.shaped_like(old(space)@.bump()),
            scene(final(space)@, final(rng)@) == old(self).step(scene(old(space)@, old(rng)@)),
    ;
}

impl Simulator for SwappingSim {
    open spec fn step(&self, s: Scene) -> Scene {
        crate::swapping::advance(s)
    }

    fn tick(&mut self, space: &mut Space, rng: &mut RandomSource)
        ensures
            final(space)@.settled(),
    {
        self.advance(space, rng);
    }
}

impl Simulator for CellularSim {
    open spec fn step(&self, s: Scene) -> Scene {
        crate::cellular::advance(s)
    }

    fn tick(&mut self, space: &mut Space, rng: &mut RandomSource) {
        self.advance(space, rng);
    }
}

/// The scheduler that a world runs, chosen when the world is made.
#[derive(Copy, Clone, Debug, PartialEq, Eq, Structural)]
pub enum Strategy {
    /// The row sweep with moves by exchange.
    Swap,
    /// The block automaton with its rule table.
    Block,
}

/// The scheduler that a configuration names: `swap` or `block`, spelled in
/// ASCII and in lower case; any other name is none.
pub open spec fn strategy_named(name: Seq<u8>) -> Option<Strategy> {
    if name == seq![0x73u8, 0x77u8, 0x61u8, 0x70u8] {
        Some(Strategy::Swap)
    } else if name == seq![0x62u8, 0x6cu8, 0x6fu8, 0x63u8, 0x6bu8] {
        Some(Strategy::Block)
    } else {
        None
    }
}

impl Strategy {
    /// The scheduler of the given name, `"swap"` or `"block"`.
    pub fn from_name(name: &str) -> (strategy: Option<Strategy>)
        ensures
            strategy == strategy_named(name.spec_bytes()),
    {
        let bytes = name.as_bytes();
        let swap: [u8; 4] = [0x73, 0x77, 0x61, 0x70];
        let block: [u8; 5] = [0x62, 0x6c, 0x6f, 0x63, 0x6b];
        if bytes.len() == 4 && bytes[0] == swap[0] && bytes[1] == swap[1] && bytes[2] == swap[2]
            && bytes[3] == swap[3] {
            assert(bytes@ =~= seq![0x73u8, 0x77u8, 0x61u8, 0x70u8]);
            Some(Strategy::Swap)
        } else if bytes.len() == 5 && bytes[0] == block[0] && bytes[1] == block[1] && bytes[2]
            == block[2] && bytes[3] == block[3] && bytes[4] == block[4] {
            assert(bytes@ =~= seq![0x62u8, 0x6cu8, 0x6fu8, 0x63u8, 0x6bu8]);
            Some(Strategy::Block)
        } else {
            assert(bytes@ != seq![0x73u8, 0x77u8, 0x61u8, 0x70u8]) by {
                let swap = seq![0x73u8, 0x77u8, 0x61u8, 0x70u8];
                assert(swap.len() == 4 && swap[0] == 0x73 && swap[1] == 0x77 && swap[2] == 0x61
                    && swap[3] == 0x70);
            }
            assert(bytes@ != seq![0x62u8, 0x6cu8, 0x6fu8, 0x63u8, 0x6bu8]) by {
                let block = seq![0x62u8, 0x6cu8, 0x6fu8, 0x63u8, 0x6bu8];
                assert(block.len() == 5 && block[0] == 0x62 && block[1] == 0x6c && block[2]
                    == 0x6f && block[3] == 0x63 && block[4] == 0x6b);
            }
            None
        }
    }
}

impl Simulator for Strategy {
    open spec fn step(&self, s: Scene) -> Scene {
        match self {
            Strategy::Swap => crate::swapping::advance(s),
            Strategy::Block => crate::cellular::advance(s),
        }
    }

    fn tick(&mut self, space: &mut Space, rng: &mut RandomSource)
        ensures
            *final(self) == *old(self),
            *old(self) == Strategy::Swap ==> final(space)@.settled(),
    {
        match self {
            Strategy::Swap => {
                let mut sim = SwappingSim;
                sim.tick(space, rng);
            },
            Strategy::Block => {
                let mut sim = CellularSim;
                sim.tick(space, rng);
            },
        }
    }
}

} // verus!
