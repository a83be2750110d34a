use vstd::prelude::*;

verus! {

/// The token shown in a board cell that no player has claimed: a single
/// space. The engine's invariants keep every real player marker distinct
/// from this sentinel.
pub open spec fn empty_mark() -> Seq<char> {
    seq![' ']
}

/// A small printable token that represents a player on the board. It wraps
/// the string that is drawn in the player's cells.
#[derive(Debug, Clone)]
pub struct Sprite(pub String);

impl View for Sprite {
    type V = Seq<char>;

    open spec fn view(&self) -> Seq<char> {
        self.0@
    }
}

impl PartialEq for Sprite {
    fn eq(&self, other: &Sprite) -> (r: bool) {
        self.0 == other.0
    }
}

impl vstd::std_specs::cmp::PartialEqSpecImpl for Sprite {
    open spec fn obeys_eq_spec() -> bool {
        true
    }

    open spec fn eq_spec(&self, other: &Sprite) -> bool {
        self@ == other@
    }
}

impl Sprite {
    /// Builds a sprite from the given token.
    pub fn new(new_sprite: &str) -> (r: Sprite)
        ensures
            r@ == new_sprite@,
    {
        Sprite(new_sprite.to_owned())
    }

    /// True exactly when this sprite is the unclaimed-cell sentinel.
    pub fn is_empty_mark(&self) -> (r: bool)
        ensures
            r == (self@ == empty_mark()),
    {
        let blank = Sprite::default();
        *self == blank
    }
}

impl Default for Sprite {
    /// The sentinel sprite of an unclaimed cell.
    fn default() -> (r: Sprite)
        ensures
            r@ == empty_mark(),
    {
        let s: String = " ".to_owned();
        proof {
            reveal_strlit(" ");
            assert(s@ =~= empty_mark());
        }
        Sprite(s)
    }
}

/// How a player is steered: by a person at the prompt or by the trivial
/// computer player.
#[derive(Debug, PartialEq, Eq, Structural, Clone, Copy)]
pub enum ControlMode {
    /// A person enters the moves.
    Human,
    /// The computer draws the moves.
    Ai,
}

impl ControlMode {
    /// Decodes a menu selection into a control mode: `1` is a person, `2`
    /// the computer, anything else names none.
    pub fn from_selection(selection: usize) -> (r: Option<ControlMode>)
        ensures
            (r == Some(ControlMode::Human)) <==> selection == 1,
            (r == Some(ControlMode::Ai)) <==> selection == 2,
            (r == None::<ControlMode>) <==> (selection == 0 || selection > 2),
    {
        match selection {
            1 => Some(ControlMode::Human),
            2 => Some(ControlMode::Ai),
            _ => None,
        }
    }
}

/// A player: who steers it, its name, its board marker and its win count.
#[derive(Debug, Clone)]
pub struct Player {
    /// Whether a person or the computer steers this player.
    pub control: ControlMode,
    /// The player's display name.
    pub name: String,
    /// The marker this player claims cells with.
    pub sprite: Sprite,
    /// How many games this player has won.
    pub wins: usize,
}

impl Player {
    /// A player with every field chosen by the caller; the win count
    /// starts at zero.
    pub fn new(control: ControlMode, name: String, sprite: Sprite) -> (r: Player)
        ensures
            r.control == control,
            r.name@ == name@,
            r.sprite@ == sprite@,
            r.wins == 0,
    {
        Player { control, name, sprite, wins: 0 }
    }

    /// A person-steered player.
    pub fn human(name: String, sprite: Sprite) -> (r: Player)
        ensures
            r.control == ControlMode::Human,
            r.name@ == name@,
            r.sprite@ == sprite@,
            r.wins == 0,
    {
        Player { control: ControlMode::Human, name, sprite, wins: 0 }
    }

    /// A computer-steered player, named after a famous one.
    pub fn ai(sprite: Sprite) -> (r: Player)
        ensures
            r.control == ControlMode::Ai,
            r.name@ == "HAL"@,
            r.sprite@ == sprite@,
            r.wins == 0,
    {
        Player { control: ControlMode::Ai, name: "HAL".to_owned(), sprite, wins: 0 }
    }

    /// Grants the player `update_scale` more wins.
    pub fn update_wins(&mut self, update_scale: usize)
        requires
            old(self).wins + update_scale <= usize::MAX,
        ensures
            final(self).wins == old(self).wins + update_scale,
            final(self).control == old(self).control,
            final(self).name@ == old(self).name@,
            final(self).sprite@ == old(self).sprite@,
    {
        self.wins = self.wins + update_scale;
    }

    /// Clears the player's win count.
    pub fn reset(&mut self)
        ensures
            final(self).wins == 0,
            final(self).control == old(self).control,
            final(self).name@ == old(self).name@,
            final(self).sprite@ == old(self).sprite@,
    {
        self.wins = 0;
    }
}

/// The two players of a match.
#[derive(Debug, Clone)]
pub struct List {
    /// The player that moves first after a fresh game.
    pub player_1: Player,
    /// The player that moves second.
    pub player_2: Player,
}

} // verus!
