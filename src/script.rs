use vstd::prelude::*;

verus! {

/// Instructions are executed in the game.
#[derive(Clone, PartialEq, Eq, Debug)]
pub enum Instruction {
    /// Jump to the given section
    Jump(String),
    /// Jump if the given expression is true
    JumpIf(String, Expr),
    /// Talk: text id, and for each choice its text id and destination section
    Talk(String, Vec<(String, String)>),
    /// The player receives money
    RecieveMoney(Expr),
    /// Remove an item from the player's inventory
    RemoveItem(String),
    /// Start buying at a shop
    ShopBuy,
    /// Start selling at a shop
    ShopSell,
    /// Get the locations of dungeons
    GetDungeonLocation,
}

#[derive(Clone, PartialEq, Eq, Debug)]
pub enum Expr {
    Value(Value),
    HasItem(String),
}

#[derive(Clone, Copy, PartialEq, Eq, Structural, Debug)]
pub enum Value {
    Bool(bool),
    Int(i32),
    Error,
}

/// The section that ends a script.
pub const QUIT_SECTION: &'static str = "quit";

/// A position in a script: a section and an instruction index in it.
#[derive(Clone, PartialEq, Eq, Debug)]
pub struct ScriptPos {
    pub section: String,
    pub i: usize,
}

impl ScriptPos {
    pub fn advance(&mut self)
        requires
            old(self).i < usize::MAX,
        ensures
            final(self).i == old(self).i + 1,
            final(self).section@ == old(self).section@,
    {
        self.i = self.i + 1;
    }

    /// Moves to the start of `section`, which may not be the quit section.
    pub fn set_section(&mut self, section: String)
        requires
            section@ != QUIT_SECTION@,
        ensures
            final(self).i == 0,
            final(self).section@ == section@,
    {
        self.i = 0;
        self.section = section;
    }
}

#[derive(Clone, Debug)]
pub struct ScriptParseError {
    pub description: String,
}

} // verus!
