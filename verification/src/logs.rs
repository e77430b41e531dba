//! The in-game message log.
use vstd::prelude::*;

verus! {

pub struct Log {
    pub entries: Vec<String>,
}

/// The entries as sequences of characters.
pub open spec fn log_v(s: Seq<String>) -> Seq<Seq<char>> {
    s.map_values(|m: String| m@)
}

/// What appending one message does: a message equal to the most recent
/// entry is dropped, anything else is pushed.
pub open spec fn spec_log(entries: Seq<Seq<char>>, m: Seq<char>) -> Seq<Seq<char>> {
    if entries.len() > 0 && entries.last() == m {
        entries
    } else {
        entries.push(m)
    }
}

impl Log {
    pub fn log(&mut self, message: &str)
        ensures
            log_v(final(self).entries@) == spec_log(log_v(old(self).entries@), message@),
    {
        let m: String = message.to_owned();
        let n = self.entries.len();
        if n > 0 && self.entries[n - 1].eq(&m) {
            proof {
                assert(log_v(self.entries@).last() == message@);
            }
        } else {
            self.entries.push(m);
            proof {
                assert(log_v(final(self).entries@) =~= log_v(old(self).entries@).push(message@));
            }
        }
    }
}


impl Log {
    /// Append a message to the log held by the world.
    pub fn by_world(world: &mut crate::world::World, message: &str)
        ensures
            log_v(final(world).log.entries@) == spec_log(
                log_v(old(world).log.entries@),
                message@,
            ),
            final(world).positions == old(world).positions,
            final(world).renderables == old(world).renderables,
            final(world).players == old(world).players,
            final(world).names == old(world).names,
            final(world).items == old(world).items,
            final(world).flints == old(world).flints,
            final(world).bushes == old(world).bushes,
            final(world).wooden_sticks == old(world).wooden_sticks,
            final(world).roses == old(world).roses,
            final(world).axes == old(world).axes,
            final(world).fire_pits == old(world).fire_pits,
            final(world).pickup_queue == old(world).pickup_queue,
            final(world).craft_queue == old(world).craft_queue,
            final(world).backpacks == old(world).backpacks,
            final(world).tiers == old(world).tiers,
            final(world).blockers == old(world).blockers,
            final(world).map == old(world).map,
            final(world).ui == old(world).ui,
            final(world).player == old(world).player,
            final(world).next_id == old(world).next_id,
            final(world).pending_deletes == old(world).pending_deletes,
            final(world).pending_spawns == old(world).pending_spawns,
    {
        world.log.log(message);
    }
}

} // verus!
