use vstd::prelude::*;

verus! {

/// A flat, self-contained player profile: a name, the marker string drawn
/// on the board, and a running win count. It carries no control mode; the
/// caller decides who enters the moves.
#[derive(Debug, Clone)]
pub struct Player {
    /// The profile's display name.
    pub username: String,
    /// The marker string drawn on the board for this profile.
    pub sprite: String,
    /// How many games this profile has won.
    pub total_wins: usize,
}

impl Player {
    /// A profile with the given name and marker and no wins yet.
    pub fn new(username: String, sprite: String) -> (r: Player)
        ensures
            r.username@ == username@,
            r.sprite@ == sprite@,
            r.total_wins == 0,
    {
        Player { username, sprite, total_wins: 0 }
    }

    /// Grants the profile `update_scale` more wins.
    pub fn update_wins(&mut self, update_scale: usize)
        requires
            old(self).total_wins + update_scale <= usize::MAX,
        ensures
            final(self).total_wins == old(self).total_wins + update_scale,
            final(self).username@ == old(self).username@,
            final(self).sprite@ == old(self).sprite@,
    {
        self.total_wins = self.total_wins + update_scale;
    }

    /// Clears the profile's win count.
    fn clear_wins(&mut self)
        ensures
            final(self).total_wins == 0,
            final(self).username@ == old(self).username@,
            final(self).sprite@ == old(self).sprite@,
    {
        self.total_wins = 0;
    }

    /// Renames the profile. A new name starts fresh: the win count is
    /// cleared along with it.
    pub fn change_username(&mut self, updated_username: String)
        ensures
            final(self).username@ == updated_username@,
            final(self).total_wins == 0,
            final(self).sprite@ == old(self).sprite@,
    {
        self.clear_wins();
        self.username = updated_username;
    }

    /// Replaces the profile's marker string.
    pub fn change_sprite(&mut self, updated_sprite: String)
        ensures
            final(self).sprite@ == updated_sprite@,
            final(self).username@ == old(self).username@,
            final(self).total_wins == old(self).total_wins,
    {
        self.sprite = updated_sprite;
    }
}

} // verus!
