//! Shared state the stages communicate through: the pending input token,
//! the outer game state, menus, targeting continuations, and the bounded
//! message log.

use crate::components::Color;
use vstd::prelude::*;

verus! {

/// The most recent abstract input event, consumed exactly once and then
/// reset to `Noop`.
#[derive(Clone, Copy, Debug, PartialEq, Eq, Structural)]
pub enum InputAction {
    Noop,
    MoveNorth,
    MoveEast,
    MoveSouth,
    MoveWest,
    MoveDown,
    PickUp,
    Drop(usize),
    UseFromInventory(usize),
    OpenDropMenu,
    OpenInventoryMenu,
    MenuChoice(usize),
    DismissMenu,
    NewGame,
    LoadGame,
    MainMenu,
    Exit,
    ToggleFullScreen,
    NextLevel,
}

impl Default for InputAction {
    fn default() -> (r: Self)
        ensures
            r == InputAction::Noop,
    {
        InputAction::Noop
    }
}

/// The outer game state: at the main menu, playing, or just loaded and in
/// need of a visibility recompute.
#[derive(PartialEq, Eq, Structural, Debug, Clone, Copy)]
pub enum State {
    MainMenu,
    Game,
    Loaded,
}

impl Default for State {
    fn default() -> (r: Self)
        ensures
            r == State::MainMenu,
    {
        State::MainMenu
    }
}

/// A modal menu awaiting a choice.
#[derive(Clone, PartialEq, Eq, Debug)]
pub struct Menu {
    pub items: Vec<String>,
    pub header: String,
    pub width: i32,
    pub kind: MenuKind,
}

#[derive(Copy, Clone, PartialEq, Eq, Structural, Debug)]
pub enum MenuKind {
    Inventory,
    Drop,
    Main,
}

/// A suspended item use awaiting a target choice.
#[derive(Clone, Copy, PartialEq, Eq, Structural, Debug)]
pub struct Targeting {
    pub used_item: usize,
    pub kind: TargetingKind,
    pub max_range: Option<i32>,
}

#[derive(Clone, Copy, PartialEq, Eq, Structural, Debug)]
pub enum TargetingKind {
    Monster,
    Tile,
}

/// A narrative event for the message log. The presentation layer renders
/// these to text; the engine itself never consumes them.
#[derive(Clone, PartialEq, Eq, Debug)]
pub enum Msg {
    Welcome,
    Attack { attacker: String, target: String, damage: i64 },
    NoEffect { attacker: String, target: String },
    MonsterDead { name: String },
    PlayerDead,
    NoLongerConfused { name: String },
    PickedUp { name: String },
    InventoryFull { name: String },
    Dropped { name: String },
    AlreadyFullHealth,
    WoundsFeelBetter,
    LightningStrikes { name: String, damage: i64 },
    NoEnemyInRange,
    LooksVacant { name: String },
    ChooseConfuseTarget,
    ChooseFireballTarget,
    FireballExplodes { radius: i32 },
    Burned { name: String, damage: i64 },
    CannotBeUsed { name: String },
    Cancelled,
}

/// The mathematical shape of a narrative event: strings as character
/// sequences, numbers as integers. Contracts pin log contents through
/// this view, since two runtime strings with equal text need not be the
/// same value.
pub enum MsgV {
    Welcome,
    Attack { attacker: Seq<char>, target: Seq<char>, damage: int },
    NoEffect { attacker: Seq<char>, target: Seq<char> },
    MonsterDead { name: Seq<char> },
    PlayerDead,
    NoLongerConfused { name: Seq<char> },
    PickedUp { name: Seq<char> },
    InventoryFull { name: Seq<char> },
    Dropped { name: Seq<char> },
    AlreadyFullHealth,
    WoundsFeelBetter,
    LightningStrikes { name: Seq<char>, damage: int },
    NoEnemyInRange,
    LooksVacant { name: Seq<char> },
    ChooseConfuseTarget,
    ChooseFireballTarget,
    FireballExplodes { radius: int },
    Burned { name: Seq<char>, damage: int },
    CannotBeUsed { name: Seq<char> },
    Cancelled,
}

/// The view of one event.
pub open spec fn msg_view(m: Msg) -> MsgV {
    match m {
        Msg::Welcome => MsgV::Welcome,
        Msg::Attack { attacker, target, damage } => MsgV::Attack {
            attacker: attacker@,
            target: target@,
            damage: damage as int,
        },
        Msg::NoEffect { attacker, target } => MsgV::NoEffect {
            attacker: attacker@,
            target: target@,
        },
        Msg::MonsterDead { name } => MsgV::MonsterDead { name: name@ },
        Msg::PlayerDead => MsgV::PlayerDead,
        Msg::NoLongerConfused { name } => MsgV::NoLongerConfused { name: name@ },
        Msg::PickedUp { name } => MsgV::PickedUp { name: name@ },
        Msg::InventoryFull { name } => MsgV::InventoryFull { name: name@ },
        Msg::Dropped { name } => MsgV::Dropped { name: name@ },
        Msg::AlreadyFullHealth => MsgV::AlreadyFullHealth,
        Msg::WoundsFeelBetter => MsgV::WoundsFeelBetter,
        Msg::LightningStrikes { name, damage } => MsgV::LightningStrikes {
            name: name@,
            damage: damage as int,
        },
        Msg::NoEnemyInRange => MsgV::NoEnemyInRange,
        Msg::LooksVacant { name } => MsgV::LooksVacant { name: name@ },
        Msg::ChooseConfuseTarget => MsgV::ChooseConfuseTarget,
        Msg::ChooseFireballTarget => MsgV::ChooseFireballTarget,
        Msg::FireballExplodes { radius } => MsgV::FireballExplodes { radius: radius as int },
        Msg::Burned { name, damage } => MsgV::Burned { name: name@, damage: damage as int },
        Msg::CannotBeUsed { name } => MsgV::CannotBeUsed { name: name@ },
        Msg::Cancelled => MsgV::Cancelled,
    }
}

/// The view of a whole log.
pub open spec fn log_view(inner: Seq<(Msg, Color)>) -> Seq<(MsgV, Color)> {
    inner.map_values(|e: (Msg, Color)| (msg_view(e.0), e.1))
}

/// What one bounded push does to a log, at the view level.
pub open spec fn push_view(
    log: Seq<(MsgV, Color)>,
    limit: int,
    m: (MsgV, Color),
) -> Seq<(MsgV, Color)> {
    log.skip(evicted(log.len() as int, limit)) + seq![m]
}

/// A run of bounded pushes, in order.
pub open spec fn push_all_view(
    log: Seq<(MsgV, Color)>,
    limit: int,
    items: Seq<(MsgV, Color)>,
) -> Seq<(MsgV, Color)>
    decreases items.len(),
{
    if items.len() == 0 {
        log
    } else {
        push_all_view(push_view(log, limit, items[0]), limit, items.skip(1))
    }
}

/// A run of pushes appends its items: pushing one batch and then another
/// is pushing the concatenation.
pub proof fn lemma_push_all_view_concat(
    log: Seq<(MsgV, Color)>,
    limit: int,
    a: Seq<(MsgV, Color)>,
    b: Seq<(MsgV, Color)>,
)
    ensures
        push_all_view(push_all_view(log, limit, a), limit, b) == push_all_view(
            log,
            limit,
            a + b,
        ),
    decreases a.len(),
{
    if a.len() == 0 {
        assert(a + b =~= b);
    } else {
        lemma_push_all_view_concat(push_view(log, limit, a[0]), limit, a.skip(1), b);
        assert((a + b).skip(1) =~= a.skip(1) + b);
        assert((a + b)[0] == a[0]);
    }
}

/// How many of the oldest entries a log of length `len` and capacity
/// `limit` evicts to make room for one more.
pub open spec fn evicted(len: int, limit: int) -> int {
    if len + 1 > limit {
        len + 1 - limit
    } else {
        0
    }
}

/// An append-only, capacity-bounded message log; pushing beyond the
/// capacity evicts the oldest entries.
#[derive(Clone, PartialEq, Eq, Debug)]
pub struct Messages {
    pub limit: usize,
    pub inner: Vec<(Msg, Color)>,
}

impl Messages {
    pub fn new(limit: usize) -> (r: Messages)
        ensures
            r.limit == limit,
            r.inner@ == Seq::<(Msg, Color)>::empty(),
    {
        Messages { limit, inner: Vec::new() }
    }

    /// Append an event, evicting the oldest entries if the log is at
    /// capacity. A log with capacity zero cannot hold what it is handed.
    pub fn push(&mut self, message: Msg, color: Color)
        requires
            old(self).limit > 0,
        ensures
            final(self).limit == old(self).limit,
            final(self).inner@ == old(self).inner@.skip(
                evicted(old(self).inner@.len() as int, old(self).limit as int),
            ) + seq![(message, color)],
            log_view(final(self).inner@) == push_view(
                log_view(old(self).inner@),
                old(self).limit as int,
                (msg_view(message), color),
            ),
    {
        while self.inner.len() >= self.limit
            invariant
                self.limit == old(self).limit,
                self.limit > 0,
                self.inner@.len() <= old(self).inner@.len(),
                self.inner@ == old(self).inner@.skip(
                    old(self).inner@.len() - self.inner@.len(),
                ),
                self.inner@.len() >= self.limit - 1 || self.inner@.len() == old(
                    self,
                ).inner@.len(),
            decreases self.inner@.len(),
        {
            self.inner.remove(0);
            proof {
                assert(self.inner@ =~= old(self).inner@.skip(
                    old(self).inner@.len() - self.inner@.len(),
                ));
            }
        }
        self.inner.push((message, color));
        proof {
            assert(self.inner@ =~= old(self).inner@.skip(
                evicted(old(self).inner@.len() as int, old(self).limit as int),
            ) + seq![(message, color)]);
            assert(log_view(self.inner@) =~= push_view(
                log_view(old(self).inner@),
                old(self).limit as int,
                (msg_view(message), color),
            ));
        }
    }

    /// Empty the log.
    pub fn clear(&mut self)
        ensures
            final(self).limit == old(self).limit,
            final(self).inner@ == Seq::<(Msg, Color)>::empty(),
    {
        self.inner.clear();
    }
}

impl Default for Messages {
    /// A log sized to the message panel of the presentation layer.
    fn default() -> (r: Self)
        ensures
            r.limit == 7,
            r.inner@ == Seq::<(Msg, Color)>::empty(),
    {
        Self::new(7)
    }
}

} // verus!
