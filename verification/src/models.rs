//! The domain model: the closed vocabulary of the game.
//!
//! Every entity is a plain value type. Each executable type has a
//! mathematical view (`PoolView`, `CardView`, `PermanentView`, `ActionView`,
//! `StateView`) over which all contracts in this crate are stated.

use vstd::prelude::*;

verus! {

/// The six kinds of mana a pool can hold.
#[derive(Debug, PartialEq, Eq, Structural, Hash, Clone, Copy)]
pub enum Color {
    White,
    Blue,
    Black,
    Red,
    Green,
    Colorless,
}

/// The closed set of card types. `Unknown` is a safety fallback for
/// unrecognized input, not a real game type; timing checks treat it
/// permissively so unrecognized data is never falsely ruled illegal.
#[derive(Debug, PartialEq, Eq, Structural, Clone, Copy)]
pub enum CardType {
    Artifact,
    Creature,
    Enchantment,
    Instant,
    Land,
    Planeswalker,
    Sorcery,
    Battle,
    Unknown,
}

/// The phases of a turn.
#[derive(Debug, PartialEq, Eq, Structural, Clone, Copy)]
pub enum Phase {
    Untap,
    Upkeep,
    Draw,
    Main1,
    Combat,
    Main2,
    End,
}

/// A pool of floating mana: six non-negative counters, one per color plus
/// colorless. Counters are never negative at rest; payment simulation that
/// would drive one negative is rejected before any mutation.
#[derive(Debug, PartialEq, Eq, Structural, Clone, Copy)]
pub struct ManaPool {
    pub white: u32,
    pub blue: u32,
    pub black: u32,
    pub red: u32,
    pub green: u32,
    pub colorless: u32,
}

/// The mathematical model of a `ManaPool`: the six counters as integers.
#[verifier::ext_equal]
pub struct PoolView {
    pub white: int,
    pub blue: int,
    pub black: int,
    pub red: int,
    pub green: int,
    pub colorless: int,
}

impl PoolView {
    /// The all-zero pool.
    pub open spec fn empty() -> PoolView {
        PoolView { white: 0, blue: 0, black: 0, red: 0, green: 0, colorless: 0 }
    }
}

impl View for ManaPool {
    type V = PoolView;

    open spec fn view(&self) -> PoolView {
        PoolView {
            white: self.white as int,
            blue: self.blue as int,
            black: self.black as int,
            red: self.red as int,
            green: self.green as int,
            colorless: self.colorless as int,
        }
    }
}

impl DeepView for ManaPool {
    type V = PoolView;

    open spec fn deep_view(&self) -> PoolView {
        self.view()
    }
}

impl Default for ManaPool {
    /// The empty pool.
    fn default() -> (r: Self)
        ensures
            r@ == PoolView::empty(),
    {
        ManaPool { white: 0, blue: 0, black: 0, red: 0, green: 0, colorless: 0 }
    }
}

impl DeepView for Color {
    type V = Color;

    open spec fn deep_view(&self) -> Color {
        *self
    }
}

impl DeepView for CardType {
    type V = CardType;

    open spec fn deep_view(&self) -> CardType {
        *self
    }
}

/// A prospective spell or land not yet on the battlefield. Used only inside a
/// pending action. `mana_cost` is the textual cost (e.g. `"{1}{U}{U}"`);
/// `None` means the card has no cost and is always affordable.
#[derive(Debug)]
pub struct Card {
    pub name: String,
    pub type_line: Vec<CardType>,
    pub mana_cost: Option<String>,
}

/// The mathematical model of a `Card`.
#[verifier::ext_equal]
pub struct CardView {
    pub name: Seq<char>,
    pub type_line: Seq<CardType>,
    pub mana_cost: Option<Seq<char>>,
}

impl View for Card {
    type V = CardView;

    open spec fn view(&self) -> CardView {
        CardView {
            name: self.name@,
            type_line: self.type_line.deep_view(),
            mana_cost: self.mana_cost.deep_view(),
        }
    }
}

impl DeepView for Card {
    type V = CardView;

    open spec fn deep_view(&self) -> CardView {
        self.view()
    }
}

/// A card materialized on the battlefield. `is_tapped` and `damage_marked`
/// are the engine-mutable fields; everything else is identity.
#[derive(Debug)]
pub struct Permanent {
    pub id: String,
    pub name: String,
    pub oracle_text: String,
    pub mana_value: u32,
    pub types: Vec<CardType>,
    pub colors: Vec<Color>,
    pub is_legendary: bool,
    pub controller: String,
    pub is_tapped: bool,
    pub damage_marked: u32,
}

/// The mathematical model of a `Permanent`.
#[verifier::ext_equal]
pub struct PermanentView {
    pub id: Seq<char>,
    pub name: Seq<char>,
    pub oracle_text: Seq<char>,
    pub mana_value: u32,
    pub types: Seq<CardType>,
    pub colors: Seq<Color>,
    pub is_legendary: bool,
    pub controller: Seq<char>,
    pub is_tapped: bool,
    pub damage_marked: u32,
}

impl View for Permanent {
    type V = PermanentView;

    open spec fn view(&self) -> PermanentView {
        PermanentView {
            id: self.id@,
            name: self.name@,
            oracle_text: self.oracle_text@,
            mana_value: self.mana_value,
            types: self.types.deep_view(),
            colors: self.colors.deep_view(),
            is_legendary: self.is_legendary,
            controller: self.controller@,
            is_tapped: self.is_tapped,
            damage_marked: self.damage_marked,
        }
    }
}

impl DeepView for Permanent {
    type V = PermanentView;

    open spec fn deep_view(&self) -> PermanentView {
        self.view()
    }
}

/// The single action a player is attempting this call.
#[derive(Debug)]
pub enum GameAction {
    CastSpell(Card),
    PlayLand(Card),
    ActivateAbility { source_id: String, ability_index: u32 },
}

/// The mathematical model of a `GameAction`.
#[verifier::ext_equal]
pub enum ActionView {
    CastSpell(CardView),
    PlayLand(CardView),
    ActivateAbility { source_id: Seq<char>, ability_index: u32 },
}

impl View for GameAction {
    type V = ActionView;

    open spec fn view(&self) -> ActionView {
        match self {
            GameAction::CastSpell(card) => ActionView::CastSpell(card@),
            GameAction::PlayLand(card) => ActionView::PlayLand(card@),
            GameAction::ActivateAbility { source_id, ability_index } => {
                ActionView::ActivateAbility {
                    source_id: source_id@,
                    ability_index: *ability_index,
                }
            },
        }
    }
}

impl DeepView for GameAction {
    type V = ActionView;

    open spec fn deep_view(&self) -> ActionView {
        self.view()
    }
}

/// The aggregate board snapshot a caller supplies for one assessment or
/// commit call. `lands_played` counts lands committed this turn; the external
/// turn-management collaborator resets it at the start of each turn.
#[derive(Debug)]
pub struct GameState {
    pub active_player: String,
    pub is_active_player: bool,
    pub phase: Phase,
    pub battlefield: Vec<Permanent>,
    pub stack: Vec<String>,
    pub lands_played: u8,
    pub mana_pool: ManaPool,
    pub pending_action: Option<GameAction>,
}

/// The mathematical model of a `GameState`.
#[verifier::ext_equal]
pub struct StateView {
    pub active_player: Seq<char>,
    pub is_active_player: bool,
    pub phase: Phase,
    pub battlefield: Seq<PermanentView>,
    pub stack: Seq<Seq<char>>,
    pub lands_played: u8,
    pub mana_pool: PoolView,
    pub pending_action: Option<ActionView>,
}

impl View for GameState {
    type V = StateView;

    open spec fn view(&self) -> StateView {
        StateView {
            active_player: self.active_player@,
            is_active_player: self.is_active_player,
            phase: self.phase,
            battlefield: self.battlefield.deep_view(),
            stack: self.stack.deep_view(),
            lands_played: self.lands_played,
            mana_pool: self.mana_pool@,
            pending_action: self.pending_action.deep_view(),
        }
    }
}

impl DeepView for GameState {
    type V = StateView;

    open spec fn deep_view(&self) -> StateView {
        self.view()
    }
}

} // verus!
