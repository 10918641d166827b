use mtg_logic_core::models::{
    Card, CardType, GameAction, GameState, ManaPool, Permanent, Phase,
};
use mtg_logic_core::rules::{Judge, Ruling};

fn base_state() -> GameState {
    GameState {
        active_player: "Hero".into(),
        is_active_player: true,
        phase: Phase::Main1,
        battlefield: vec![],
        stack: vec![],
        lands_played: 0,
        mana_pool: ManaPool::default(),
        pending_action: None,
    }
}

fn legend(name: &str, controller: &str) -> Permanent {
    Permanent {
        id: format!("{}-{}", name, controller),
        name: name.into(),
        oracle_text: String::new(),
        mana_value: 2,
        types: vec![CardType::Creature],
        colors: vec![],
        is_legendary: true,
        controller: controller.into(),
        is_tapped: false,
        damage_marked: 0,
    }
}

#[test]
fn test_mana_parsing_and_payment() {
    // Scenario: cost is "{1}{U}{U}", player has three blue mana.
    let card = Card {
        name: "Counterspell".into(),
        type_line: vec![CardType::Instant],
        mana_cost: Some("{1}{U}{U}".into()),
    };

    let mut pool = ManaPool::default();
    pool.blue = 3;

    let state = GameState {
        active_player: "Hero".into(),
        is_active_player: true,
        phase: Phase::Main1,
        battlefield: vec![],
        stack: vec![],
        lands_played: 0,
        mana_pool: pool,
        pending_action: Some(GameAction::CastSpell(card)),
    };

    // Legal: two blue pay the colored part, the remaining blue pays generic.
    let rulings = Judge::assess_state(&state);
    assert!(matches!(rulings[0], Ruling::Legal));
}

#[test]
fn test_mana_insufficient_generic() {
    // Scenario: cost "{4}", player has three red mana.
    let card = Card {
        name: "Golem".into(),
        type_line: vec![CardType::Artifact],
        mana_cost: Some("{4}".into()),
    };

    let mut pool = ManaPool::default();
    pool.red = 3;

    let state = GameState {
        active_player: "Hero".into(),
        is_active_player: true,
        phase: Phase::Main1,
        battlefield: vec![],
        stack: vec![],
        lands_played: 0,
        mana_pool: pool,
        pending_action: Some(GameAction::CastSpell(card)),
    };

    let rulings = Judge::assess_state(&state);
    match &rulings[0] {
        Ruling::Illegal(msg) => assert!(msg.contains("Not enough generic")),
        _ => panic!("Should fail generic check"),
    }
}

#[test]
fn test_mana_insufficient_color() {
    // Scenario: cost "{U}", player has ten red mana.
    let card = Card {
        name: "Unsummon".into(),
        type_line: vec![CardType::Instant],
        mana_cost: Some("{U}".into()),
    };

    let mut pool = ManaPool::default();
    pool.red = 10;

    let state = GameState {
        active_player: "Hero".into(),
        is_active_player: true,
        phase: Phase::Main1,
        battlefield: vec![],
        stack: vec![],
        lands_played: 0,
        mana_pool: pool,
        pending_action: Some(GameAction::CastSpell(card)),
    };

    let rulings = Judge::assess_state(&state);
    match &rulings[0] {
        Ruling::Illegal(msg) => assert!(msg.contains("Not enough Blue")),
        _ => panic!("Should fail color check"),
    }
}

#[test]
fn quiet_board_is_exactly_legal() {
    let mut state = base_state();
    state.battlefield = vec![legend("Karn", "Hero"), legend("Urza", "Hero")];
    let rulings = Judge::assess_state(&state);
    assert_eq!(rulings.len(), 1);
    assert!(matches!(rulings[0], Ruling::Legal));
}

#[test]
fn duplicate_legend_triggers_sba() {
    let mut state = base_state();
    state.battlefield = vec![legend("Karn", "Hero"), legend("Karn", "Hero")];
    let rulings = Judge::assess_state(&state);
    assert_eq!(rulings.len(), 1);
    match &rulings[0] {
        Ruling::StateBasedAction(msg) => assert_eq!(
            msg,
            "Legend Rule Violation: Two instances of 'Karn' controlled by 'Hero'"
        ),
        _ => panic!("Expected a state-based action"),
    }
}

#[test]
fn same_legend_different_controller_is_fine() {
    let mut state = base_state();
    state.battlefield = vec![legend("Karn", "Hero"), legend("Karn", "Villain")];
    let rulings = Judge::assess_state(&state);
    assert_eq!(rulings.len(), 1);
    assert!(matches!(rulings[0], Ruling::Legal));
}

#[test]
fn same_name_not_legendary_is_fine() {
    let mut state = base_state();
    let mut a = legend("Bear", "Hero");
    a.is_legendary = false;
    let mut b = legend("Bear", "Hero");
    b.is_legendary = false;
    state.battlefield = vec![a, b];
    let rulings = Judge::assess_state(&state);
    assert!(matches!(rulings[0], Ruling::Legal));
}

fn forest() -> Card {
    Card {
        name: "Forest".into(),
        type_line: vec![CardType::Land],
        mana_cost: None,
    }
}

#[test]
fn land_drop_legal_on_main_phase() {
    let mut state = base_state();
    state.pending_action = Some(GameAction::PlayLand(forest()));
    let rulings = Judge::assess_state(&state);
    assert_eq!(rulings.len(), 1);
    assert!(matches!(rulings[0], Ruling::Legal));
}

#[test]
fn land_drop_rejects_non_land() {
    let mut state = base_state();
    state.pending_action = Some(GameAction::PlayLand(Card {
        name: "Golem".into(),
        type_line: vec![CardType::Artifact],
        mana_cost: None,
    }));
    let rulings = Judge::assess_state(&state);
    match &rulings[0] {
        Ruling::Illegal(msg) => assert_eq!(msg, "Golem is not a Land."),
        _ => panic!("Expected illegal"),
    }
}

#[test]
fn land_drop_rejects_opponents_turn() {
    let mut state = base_state();
    state.is_active_player = false;
    state.pending_action = Some(GameAction::PlayLand(forest()));
    let rulings = Judge::assess_state(&state);
    match &rulings[0] {
        Ruling::Illegal(msg) => assert_eq!(msg, "Cannot play lands on opponent's turn."),
        _ => panic!("Expected illegal"),
    }
}

#[test]
fn stack_blocks_land_drop_before_phase_and_limit() {
    // The stack check precedes the phase and land-limit checks: even in a
    // wrong phase with the limit already spent, the stack reason is reported.
    let mut state = base_state();
    state.phase = Phase::End;
    state.lands_played = 5;
    state.stack = vec!["Lightning Bolt".into()];
    state.pending_action = Some(GameAction::PlayLand(forest()));
    let rulings = Judge::assess_state(&state);
    match &rulings[0] {
        Ruling::Illegal(msg) => {
            assert_eq!(msg, "Cannot play lands while spells are on the stack.")
        }
        _ => panic!("Expected illegal"),
    }
}

#[test]
fn land_drop_rejects_wrong_phase() {
    let mut state = base_state();
    state.phase = Phase::Combat;
    state.pending_action = Some(GameAction::PlayLand(forest()));
    let rulings = Judge::assess_state(&state);
    match &rulings[0] {
        Ruling::Illegal(msg) => assert_eq!(msg, "Lands can only be played during Main Phases."),
        _ => panic!("Expected illegal"),
    }
}

#[test]
fn land_drop_rejects_second_land() {
    let mut state = base_state();
    state.lands_played = 1;
    state.pending_action = Some(GameAction::PlayLand(forest()));
    let rulings = Judge::assess_state(&state);
    match &rulings[0] {
        Ruling::Illegal(msg) => assert_eq!(msg, "Land limit for turn reached."),
        _ => panic!("Expected illegal"),
    }
}

#[test]
fn sorcery_timing_rejected_off_turn() {
    let mut state = base_state();
    state.is_active_player = false;
    state.pending_action = Some(GameAction::CastSpell(Card {
        name: "Divination".into(),
        type_line: vec![CardType::Sorcery],
        mana_cost: Some("{2}{U}".into()),
    }));
    let rulings = Judge::assess_state(&state);
    match &rulings[0] {
        Ruling::Illegal(msg) => {
            assert_eq!(msg, "Cannot cast sorcery-speed spells on opponent's turn.")
        }
        _ => panic!("Expected illegal"),
    }
}

#[test]
fn instant_timing_legal_off_turn_with_stack() {
    let mut state = base_state();
    state.is_active_player = false;
    state.phase = Phase::Combat;
    state.stack = vec!["Shock".into()];
    state.mana_pool.blue = 1;
    state.pending_action = Some(GameAction::CastSpell(Card {
        name: "Unsummon".into(),
        type_line: vec![CardType::Instant],
        mana_cost: Some("{U}".into()),
    }));
    let rulings = Judge::assess_state(&state);
    assert!(matches!(rulings[0], Ruling::Legal));
}

#[test]
fn unknown_type_is_timing_permissive() {
    let mut state = base_state();
    state.is_active_player = false;
    state.phase = Phase::End;
    state.pending_action = Some(GameAction::CastSpell(Card {
        name: "Mystery".into(),
        type_line: vec![CardType::Unknown],
        mana_cost: None,
    }));
    let rulings = Judge::assess_state(&state);
    assert!(matches!(rulings[0], Ruling::Legal));
}

#[test]
fn sorcery_timing_rejected_with_stack() {
    let mut state = base_state();
    state.stack = vec!["Shock".into()];
    state.pending_action = Some(GameAction::CastSpell(Card {
        name: "Divination".into(),
        type_line: vec![CardType::Sorcery],
        mana_cost: None,
    }));
    let rulings = Judge::assess_state(&state);
    match &rulings[0] {
        Ruling::Illegal(msg) => {
            assert_eq!(msg, "Cannot cast sorcery-speed spells while stack is not empty.")
        }
        _ => panic!("Expected illegal"),
    }
}

#[test]
fn sorcery_timing_rejected_wrong_phase() {
    let mut state = base_state();
    state.phase = Phase::Upkeep;
    state.pending_action = Some(GameAction::CastSpell(Card {
        name: "Divination".into(),
        type_line: vec![CardType::Sorcery],
        mana_cost: None,
    }));
    let rulings = Judge::assess_state(&state);
    match &rulings[0] {
        Ruling::Illegal(msg) => {
            assert_eq!(msg, "Sorcery-speed spells can only be cast during Main Phases.")
        }
        _ => panic!("Expected illegal"),
    }
}

#[test]
fn malformed_cost_is_an_illegal_ruling() {
    let mut state = base_state();
    state.pending_action = Some(GameAction::CastSpell(Card {
        name: "Gibberish".into(),
        type_line: vec![CardType::Sorcery],
        mana_cost: Some("{Q}".into()),
    }));
    let rulings = Judge::assess_state(&state);
    match &rulings[0] {
        Ruling::Illegal(msg) => assert_eq!(msg, "Invalid Mana Cost: Unknown symbol 'Q'"),
        _ => panic!("Expected illegal"),
    }
}

#[test]
fn generic_shortfall_message_is_exact() {
    let mut state = base_state();
    state.mana_pool.red = 3;
    state.pending_action = Some(GameAction::CastSpell(Card {
        name: "Golem".into(),
        type_line: vec![CardType::Artifact],
        mana_cost: Some("{4}".into()),
    }));
    let rulings = Judge::assess_state(&state);
    match &rulings[0] {
        Ruling::Illegal(msg) => assert_eq!(msg, "Not enough generic mana. Need 4, have 3."),
        _ => panic!("Expected illegal"),
    }
}

#[test]
fn ability_activation_is_unvalidated() {
    // Ability legality is out of this engine's scope: the action contributes
    // no ruling, so a board with nothing else to report is ruled legal.
    let mut state = base_state();
    state.pending_action = Some(GameAction::ActivateAbility {
        source_id: "perm-0".into(),
        ability_index: 0,
    });
    let rulings = Judge::assess_state(&state);
    assert_eq!(rulings.len(), 1);
    assert!(matches!(rulings[0], Ruling::Legal));
}

#[test]
fn sba_is_reported_alongside_action_ruling() {
    let mut state = base_state();
    state.battlefield = vec![legend("Karn", "Hero"), legend("Karn", "Hero")];
    state.pending_action = Some(GameAction::PlayLand(forest()));
    let rulings = Judge::assess_state(&state);
    assert_eq!(rulings.len(), 2);
    assert!(matches!(rulings[0], Ruling::StateBasedAction(_)));
    assert!(matches!(rulings[1], Ruling::Legal));
}

#[test]
fn commit_land_drop_mutates_exactly() {
    let mut state = base_state();
    state.pending_action = Some(GameAction::PlayLand(forest()));
    let result = Judge::apply_action(&mut state);
    assert!(result.is_ok());
    assert_eq!(state.lands_played, 1);
    assert_eq!(state.battlefield.len(), 1);
    let perm = &state.battlefield[0];
    assert_eq!(perm.name, "Forest");
    assert_eq!(perm.controller, "Hero");
    assert_eq!(perm.types, vec![CardType::Land]);
    assert!(!perm.is_tapped);
    assert_eq!(perm.damage_marked, 0);
    assert_eq!(perm.id, "perm-0");
    assert!(state.pending_action.is_none());
}

#[test]
fn commit_rejected_action_mutates_nothing() {
    let mut state = base_state();
    state.lands_played = 1;
    state.mana_pool.green = 2;
    state.pending_action = Some(GameAction::PlayLand(forest()));
    let result = Judge::apply_action(&mut state);
    match result {
        Err(msg) => assert_eq!(msg, "Land limit for turn reached."),
        Ok(()) => panic!("Commit should have been refused"),
    }
    assert_eq!(state.lands_played, 1);
    assert_eq!(state.battlefield.len(), 0);
    assert_eq!(state.mana_pool.green, 2);
    assert!(matches!(
        state.pending_action,
        Some(GameAction::PlayLand(_))
    ));
}

#[test]
fn commit_cast_pays_and_stacks() {
    let mut state = base_state();
    state.mana_pool.blue = 3;
    state.pending_action = Some(GameAction::CastSpell(Card {
        name: "Counterspell".into(),
        type_line: vec![CardType::Instant],
        mana_cost: Some("{1}{U}{U}".into()),
    }));
    let result = Judge::apply_action(&mut state);
    assert!(result.is_ok());
    assert_eq!(state.stack, vec!["Counterspell".to_string()]);
    assert_eq!(state.mana_pool, ManaPool::default());
    assert!(state.pending_action.is_none());
}

#[test]
fn commit_with_duplicate_legend_still_succeeds() {
    // A state-based-action ruling is informational; it does not block commit.
    let mut state = base_state();
    state.battlefield = vec![legend("Karn", "Hero"), legend("Karn", "Hero")];
    state.pending_action = Some(GameAction::PlayLand(forest()));
    let result = Judge::apply_action(&mut state);
    assert!(result.is_ok());
    assert_eq!(state.lands_played, 1);
    assert_eq!(state.battlefield.len(), 3);
}

#[test]
fn commit_unaffordable_cast_mutates_nothing() {
    let mut state = base_state();
    state.mana_pool.red = 10;
    state.pending_action = Some(GameAction::CastSpell(Card {
        name: "Unsummon".into(),
        type_line: vec![CardType::Instant],
        mana_cost: Some("{U}".into()),
    }));
    let result = Judge::apply_action(&mut state);
    match result {
        Err(msg) => assert_eq!(msg, "Not enough Blue mana."),
        Ok(()) => panic!("Commit should have been refused"),
    }
    assert_eq!(state.mana_pool.red, 10);
    assert_eq!(state.stack.len(), 0);
    assert!(matches!(
        state.pending_action,
        Some(GameAction::CastSpell(_))
    ));
}

#[test]
fn commit_without_pending_action_is_a_no_op() {
    let mut state = base_state();
    state.mana_pool.white = 7;
    let result = Judge::apply_action(&mut state);
    assert!(result.is_ok());
    assert_eq!(state.battlefield.len(), 0);
    assert_eq!(state.lands_played, 0);
    assert_eq!(state.mana_pool.white, 7);
    assert!(state.pending_action.is_none());
}
