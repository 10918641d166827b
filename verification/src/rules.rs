//! The judge: assessment of a board snapshot and commitment of a validated
//! action.
//!
//! Assessment runs the board-wide legend-rule check and then, if an action is
//! pending, the action-specific check, and returns an ordered, never-empty
//! list of rulings. Commitment re-assesses, refuses to touch the snapshot if
//! any ruling is illegal, and otherwise mutates it exactly as the action
//! prescribes.

use vstd::prelude::*;
use vstd::string::StrSliceExecFns;
use vstd::string::StringExecFns;

use crate::mana::{
    add_capped, add_color, cap32, classify, classify_token, cost_fits, cost_too_large_msg,
    find_close, find_non_brace, first_short, lemma_first_close_at, lemma_strip_braces_at,
    merge_cost, pay_result, pool_add, pool_total, spec_can_pay, spec_parse, strip_braces,
    sub_colored, tail_at, CostSymbol, CostView, TokenKind,
};
use crate::models::{
    ActionView, Card, CardType, CardView, Color, GameAction, GameState, ManaPool, Permanent,
    PermanentView, Phase, PoolView, StateView,
};
use crate::text::{
    color_short_msg, generic_short_msg, invalid_cost_msg, legend_rule_msg, make_color_short_msg,
    make_generic_short_msg, make_invalid_cost_msg, make_legend_rule_msg, make_not_a_land_msg,
    make_perm_id, make_unknown_symbol_msg, not_a_land_msg, perm_id_msg, unknown_symbol_msg,
};

verus! {

/// The outcome of one legality check. Not an error type: assessment always
/// produces rulings, and an illegal ruling is ordinary output carrying its
/// human-readable reason.
#[derive(Debug)]
pub enum Ruling {
    Legal,
    Illegal(String),
    StateBasedAction(String),
}

/// The mathematical model of a `Ruling`.
#[verifier::ext_equal]
pub enum RulingView {
    Legal,
    Illegal(Seq<char>),
    StateBasedAction(Seq<char>),
}

impl View for Ruling {
    type V = RulingView;

    open spec fn view(&self) -> RulingView {
        match self {
            Ruling::Legal => RulingView::Legal,
            Ruling::Illegal(reason) => RulingView::Illegal(reason@),
            Ruling::StateBasedAction(action) => RulingView::StateBasedAction(action@),
        }
    }
}

impl DeepView for Ruling {
    type V = RulingView;

    open spec fn deep_view(&self) -> RulingView {
        self.view()
    }
}

/// The assessment engine. All its operations are associated functions over
/// snapshots supplied by the caller.
pub struct Judge;

/// The model of the land-drop check: a land may be played only by the active
/// player, with an empty stack, during a main phase, within the one-land
/// limit for the turn. Conditions are checked in this fixed order and only
/// the first failing reason is reported.
pub open spec fn spec_land_drop(s: StateView, c: CardView) -> RulingView {
    if !c.type_line.contains(CardType::Land) {
        RulingView::Illegal(not_a_land_msg(c.name))
    } else if !s.is_active_player {
        RulingView::Illegal("Cannot play lands on opponent's turn."@)
    } else if s.stack.len() > 0 {
        RulingView::Illegal("Cannot play lands while spells are on the stack."@)
    } else if !(s.phase == Phase::Main1 || s.phase == Phase::Main2) {
        RulingView::Illegal("Lands can only be played during Main Phases."@)
    } else if s.lands_played >= 1 {
        RulingView::Illegal("Land limit for turn reached."@)
    } else {
        RulingView::Legal
    }
}

/// The model of the cast-timing check: instant-speed spells (and the
/// `Unknown` safety fallback, treated permissively) are always legal by
/// timing; anything else follows sorcery-speed rules, in the same fixed
/// short-circuit order as the land drop.
pub open spec fn spec_cast_timing(s: StateView, c: CardView) -> RulingView {
    if c.type_line.contains(CardType::Instant) || c.type_line.contains(CardType::Unknown) {
        RulingView::Legal
    } else if !s.is_active_player {
        RulingView::Illegal("Cannot cast sorcery-speed spells on opponent's turn."@)
    } else if s.stack.len() > 0 {
        RulingView::Illegal("Cannot cast sorcery-speed spells while stack is not empty."@)
    } else if s.phase == Phase::Main1 || s.phase == Phase::Main2 {
        RulingView::Legal
    } else {
        RulingView::Illegal("Sorcery-speed spells can only be cast during Main Phases."@)
    }
}

/// The model of the mana-cost check: parse the card's cost text (a missing
/// cost is the empty text, which always parses to a free cost), report a
/// parse failure as an illegal ruling, then report the first insufficient
/// colored requirement, then the generic shortfall, and otherwise rule legal.
pub open spec fn spec_check_mana_cost(pool: PoolView, c: CardView) -> RulingView {
    let cost_text = match c.mana_cost {
        Some(t) => t,
        None => Seq::<char>::empty(),
    };
    match spec_parse(cost_text) {
        CostView::Unrecognized { symbol } => RulingView::Illegal(
            invalid_cost_msg(unknown_symbol_msg(symbol)),
        ),
        CostView::Parsed { generic, colored } => {
            if !cost_fits(generic, colored) {
                RulingView::Illegal(invalid_cost_msg(cost_too_large_msg()))
            } else {
                match first_short(pool, colored) {
                    Some(col) => RulingView::Illegal(color_short_msg(col)),
                    None => {
                        let remaining = pool_total(sub_colored(pool, colored));
                        if remaining < generic {
                            RulingView::Illegal(generic_short_msg(generic, remaining))
                        } else {
                            RulingView::Legal
                        }
                    },
                }
            }
        },
    }
}

/// Whether permanent `j` duplicates permanent `i` for the legend rule: a
/// distinct legendary permanent with the same name and the same controller.
pub open spec fn partner_at(b: Seq<PermanentView>, i: int, j: int) -> bool {
    &&& j != i
    &&& b[j].is_legendary
    &&& b[j].name == b[i].name
    &&& b[j].controller == b[i].controller
}

/// Whether permanent `i` is a legendary permanent with a duplicate somewhere
/// on the battlefield.
pub open spec fn has_partner(b: Seq<PermanentView>, i: int) -> bool {
    &&& b[i].is_legendary
    &&& exists|j: int| 0 <= j < b.len() && partner_at(b, i, j)
}

/// The first index (scanning from `i` up) of a legendary permanent with a
/// duplicate, or `None` if there is none.
pub open spec fn first_dup_from(b: Seq<PermanentView>, i: int) -> Option<int>
    recommends
        0 <= i <= b.len(),
    decreases b.len() - i,
{
    if i >= b.len() {
        None
    } else if has_partner(b, i) {
        Some(i)
    } else {
        first_dup_from(b, i + 1)
    }
}

/// Scanning may start past a prefix known to have no duplicates.
pub proof fn lemma_first_dup_skip(b: Seq<PermanentView>, i: int)
    requires
        0 <= i <= b.len(),
        forall|m: int| 0 <= m < i ==> !has_partner(b, m),
    ensures
        first_dup_from(b, 0) == first_dup_from(b, i),
    decreases i,
{
    if i > 0 {
        lemma_first_dup_skip(b, i - 1);
        assert(!has_partner(b, i - 1));
    }
}

/// The model of the legend-rule check: the first legendary permanent that
/// shares a name and a controller with a distinct legendary permanent is
/// reported; only one legend-rule ruling is ever produced, even if several
/// duplicates exist.
pub open spec fn spec_legend_rule(b: Seq<PermanentView>) -> Option<RulingView> {
    match first_dup_from(b, 0) {
        None => None,
        Some(i) => Some(
            RulingView::StateBasedAction(legend_rule_msg(b[i].name, b[i].controller)),
        ),
    }
}

/// The rulings the pending action contributes: none when no action is
/// pending, none for ability activation (genuinely unspecified, left to the
/// caller), one for a land drop, and for a spell the timing ruling when
/// timing fails, else the mana ruling.
pub open spec fn spec_action_rulings(s: StateView) -> Seq<RulingView> {
    match s.pending_action {
        None => Seq::<RulingView>::empty(),
        Some(ActionView::PlayLand(c)) => seq![spec_land_drop(s, c)],
        Some(ActionView::CastSpell(c)) => {
            let timing = spec_cast_timing(s, c);
            if timing is Illegal {
                seq![timing]
            } else {
                seq![spec_check_mana_cost(s.mana_pool, c)]
            }
        },
        Some(ActionView::ActivateAbility { .. }) => Seq::<RulingView>::empty(),
    }
}

/// The model of a whole assessment: the legend-rule ruling, if any, then the
/// pending action's ruling, if any; a board with nothing to report is ruled
/// legal, so the result is never empty.
pub open spec fn spec_assess(s: StateView) -> Seq<RulingView> {
    let sba = match spec_legend_rule(s.battlefield) {
        None => Seq::<RulingView>::empty(),
        Some(r) => seq![r],
    };
    let rulings = sba + spec_action_rulings(s);
    if rulings.len() == 0 {
        seq![RulingView::Legal]
    } else {
        rulings
    }
}

/// Whether any ruling in the sequence is illegal.
pub open spec fn spec_has_illegal(rs: Seq<RulingView>) -> bool {
    exists|i: int| 0 <= i < rs.len() && rs[i] is Illegal
}

/// The reason of the first illegal ruling at or after `i`, if any.
pub open spec fn first_illegal_from(rs: Seq<RulingView>, i: int) -> Option<Seq<char>>
    recommends
        0 <= i <= rs.len(),
    decreases rs.len() - i,
{
    if i >= rs.len() {
        None
    } else if rs[i] is Illegal {
        Some(rs[i]->Illegal_0)
    } else {
        first_illegal_from(rs, i + 1)
    }
}

/// Scanning may start past a prefix known to hold no illegal ruling.
pub proof fn lemma_first_illegal_skip(rs: Seq<RulingView>, i: int)
    requires
        0 <= i <= rs.len(),
        forall|m: int| 0 <= m < i ==> !(rs[m] is Illegal),
    ensures
        first_illegal_from(rs, 0) == first_illegal_from(rs, i),
    decreases i,
{
    if i > 0 {
        lemma_first_illegal_skip(rs, i - 1);
    }
}

/// The permanent a committed land drop creates: a fresh serial identity, the
/// card's name and types, no oracle text, colors or mana value of its own,
/// not legendary, untapped, no damage marked, controlled by the active
/// player.
pub open spec fn spec_new_permanent(s: StateView, c: CardView) -> PermanentView {
    PermanentView {
        id: perm_id_msg(s.battlefield.len() as int),
        name: c.name,
        oracle_text: Seq::<char>::empty(),
        mana_value: 0,
        types: c.type_line,
        colors: Seq::<Color>::empty(),
        is_legendary: false,
        controller: s.active_player,
        is_tapped: false,
        damage_marked: 0,
    }
}

/// The snapshot after a committed land drop: the land count up by one, the
/// new permanent appended, the pending action cleared, all else untouched.
pub open spec fn spec_apply_land(s: StateView, c: CardView) -> StateView {
    StateView {
        battlefield: s.battlefield.push(spec_new_permanent(s, c)),
        lands_played: (s.lands_played + 1) as u8,
        pending_action: None,
        ..s
    }
}

/// The snapshot after a committed spell cast: the cost paid out of the live
/// pool, the spell's name on the stack, the pending action cleared, all else
/// untouched. Commitment happens only after assessment ruled the cast legal,
/// so the cost text parses; the unrecognized case never arises there.
pub open spec fn spec_apply_cast(s: StateView, c: CardView) -> StateView {
    let cost_text = match c.mana_cost {
        Some(t) => t,
        None => Seq::<char>::empty(),
    };
    match spec_parse(cost_text) {
        CostView::Parsed { generic, colored } => StateView {
            mana_pool: pay_result(s.mana_pool, colored, generic),
            stack: s.stack.push(c.name),
            pending_action: None,
            ..s
        },
        CostView::Unrecognized { .. } => s,
    }
}

/// The snapshot with its pending action discarded and nothing else changed.
pub open spec fn spec_clear_pending(s: StateView) -> StateView {
    StateView { pending_action: None, ..s }
}

/// Whether the card's type line lists the given type.
fn has_type(types: &Vec<CardType>, t: CardType) -> (r: bool)
    ensures
        r == types.deep_view().contains(t),
{
    let ghost tv = types.deep_view();
    let mut i: usize = 0;
    #[verifier::loop_isolation(false)]
    while i < types.len()
        invariant
            i <= types.len(),
            forall|m: int| 0 <= m < i ==> tv[m] != t,
        decreases types.len() - i,
    {
        if types[i] == t {
            assert(tv[i as int] == t);
            return true;
        }
        i += 1;
    }
    false
}

impl Judge {
    /// Parses cost text such as `"{3}{U}{B}"` into its generic amount and
    /// colored requirement, exactly as `spec_parse` models it: the leftmost
    /// unrecognized symbol is reported, and a cost whose accumulated amounts
    /// do not fit the pool's counters is rejected rather than truncated.
    pub fn parse_mana_cost(cost_str: &str) -> (r: Result<(u32, ManaPool), String>)
        ensures
            ({
                match spec_parse(cost_str@) {
                    CostView::Unrecognized { symbol } => r matches Err(m) && m@
                        == unknown_symbol_msg(symbol),
                    CostView::Parsed { generic, colored } => {
                        if cost_fits(generic, colored) {
                            r matches Ok(p) && p.0 as int == generic && p.1@ == colored
                        } else {
                            r matches Err(m) && m@ == cost_too_large_msg()
                        }
                    },
                }
            }),
    {
        let n = cost_str.unicode_len();
        let mut pos: usize = 0;
        // Exact accumulated amounts, as mathematical integers.
        let ghost mut acc_g: int = 0;
        let ghost mut acc_p: PoolView = PoolView::empty();
        // Executable accumulators, each kept at `cap32` of its exact value.
        let mut gen: u64 = 0;
        let mut wh: u64 = 0;
        let mut bu: u64 = 0;
        let mut bk: u64 = 0;
        let mut rd: u64 = 0;
        let mut gr: u64 = 0;
        let mut cl: u64 = 0;
        proof {
            assert(tail_at(cost_str@, 0) =~= cost_str@);
        }
        #[verifier::loop_isolation(false)]
        while pos < n
            invariant
                n == cost_str@.len(),
                pos <= n,
                acc_g >= 0,
                acc_p.white >= 0,
                acc_p.blue >= 0,
                acc_p.black >= 0,
                acc_p.red >= 0,
                acc_p.green >= 0,
                acc_p.colorless >= 0,
                gen as int == cap32(acc_g),
                wh as int == cap32(acc_p.white),
                bu as int == cap32(acc_p.blue),
                bk as int == cap32(acc_p.black),
                rd as int == cap32(acc_p.red),
                gr as int == cap32(acc_p.green),
                cl as int == cap32(acc_p.colorless),
                spec_parse(cost_str@) == merge_cost(
                    acc_g,
                    acc_p,
                    spec_parse(tail_at(cost_str@, pos as int)),
                ),
            decreases n - pos,
        {
            let ghost s = cost_str@;
            let ghost sfx = tail_at(s, pos as int);
            let k = find_close(cost_str, pos);
            proof {
                assert forall|m: int| 0 <= m < k - pos implies sfx[m] != '}' by {
                    assert(sfx[m] == s[pos + m]);
                }
                if k < n {
                    assert(sfx[k - pos] == s[k as int]);
                }
                lemma_first_close_at(sfx, k as int - pos as int);
            }
            let ghost seg = sfx.subrange(0, k as int - pos as int);
            let ghost rest = if k == n {
                Seq::<char>::empty()
            } else {
                sfx.subrange(k as int - pos as int + 1, sfx.len() as int)
            };
            proof {
                assert(seg =~= s.subrange(pos as int, k as int));
                if k < n {
                    assert(rest =~= s.subrange(k as int + 1, n as int));
                    assert(rest =~= tail_at(s, k as int + 1));
                } else {
                    assert(rest =~= tail_at(s, n as int));
                }
            }
            if k > pos {
                let j0 = find_non_brace(cost_str, pos, k);
                proof {
                    assert forall|m: int| 0 <= m < j0 - pos implies seg[m] == '{' by {
                        assert(seg[m] == s[pos + m]);
                    }
                    if j0 < k {
                        assert(seg[j0 - pos] == s[j0 as int]);
                    }
                    lemma_strip_braces_at(seg, j0 as int - pos as int);
                    assert(seg.subrange(j0 as int - pos as int, seg.len() as int) =~= s.subrange(
                        j0 as int,
                        k as int,
                    ));
                }
                let ghost tok = strip_braces(seg);
                let kind = classify_token(cost_str, j0, k);
                match kind {
                    TokenKind::Bad => {
                        let sym = cost_str.substring_char(j0, k);
                        proof {
                            assert(classify(tok) is Bad);
                            assert(spec_parse(sfx) == CostView::Unrecognized { symbol: tok });
                            assert(spec_parse(s) == CostView::Unrecognized { symbol: tok });
                        }
                        return Err(make_unknown_symbol_msg(sym));
                    },
                    TokenKind::Variable => {
                        proof {
                            assert(classify(tok) is Variable);
                            assert(spec_parse(sfx) == spec_parse(rest));
                        }
                    },
                    TokenKind::Colored(col) => {
                        proof {
                            assert(classify(tok) == CostSymbol::Colored(col));
                        }
                        match col {
                            Color::White => {
                                wh = add_capped(wh, 1, Ghost(acc_p.white));
                            },
                            Color::Blue => {
                                bu = add_capped(bu, 1, Ghost(acc_p.blue));
                            },
                            Color::Black => {
                                bk = add_capped(bk, 1, Ghost(acc_p.black));
                            },
                            Color::Red => {
                                rd = add_capped(rd, 1, Ghost(acc_p.red));
                            },
                            Color::Green => {
                                gr = add_capped(gr, 1, Ghost(acc_p.green));
                            },
                            Color::Colorless => {
                                cl = add_capped(cl, 1, Ghost(acc_p.colorless));
                            },
                        }
                        proof {
                            let acc_p0 = acc_p;
                            acc_p = add_color(acc_p0, col);
                            match spec_parse(rest) {
                                CostView::Unrecognized { .. } => {
                                    assert(spec_parse(sfx) == spec_parse(rest));
                                },
                                CostView::Parsed { generic: g2, colored: p2 } => {
                                    assert(spec_parse(sfx) == CostView::Parsed {
                                        generic: g2,
                                        colored: add_color(p2, col),
                                    });
                                    assert(pool_add(acc_p0, add_color(p2, col)) == pool_add(
                                        add_color(acc_p0, col),
                                        p2,
                                    ));
                                },
                            }
                        }
                    },
                    TokenKind::Generic(v) => {
                        proof {
                            assert(classify(tok) == CostSymbol::Generic(v as int));
                        }
                        gen = add_capped(gen, v, Ghost(acc_g));
                        proof {
                            let acc_g0 = acc_g;
                            acc_g = acc_g0 + v as int;
                            match spec_parse(rest) {
                                CostView::Unrecognized { .. } => {
                                    assert(spec_parse(sfx) == spec_parse(rest));
                                },
                                CostView::Parsed { generic: g2, colored: p2 } => {
                                    assert(spec_parse(sfx) == CostView::Parsed {
                                        generic: g2 + v as int,
                                        colored: p2,
                                    });
                                },
                            }
                        }
                    },
                }
            }
            pos = if k == n {
                n
            } else {
                k + 1
            };
        }
        proof {
            assert(tail_at(cost_str@, n as int) =~= Seq::<char>::empty());
            assert(spec_parse(cost_str@) == CostView::Parsed {
                generic: acc_g,
                colored: pool_add(acc_p, PoolView::empty()),
            });
            assert(pool_add(acc_p, PoolView::empty()) == acc_p);
        }
        if gen > 0xffff_ffff || wh > 0xffff_ffff || bu > 0xffff_ffff || bk > 0xffff_ffff || rd
            > 0xffff_ffff || gr > 0xffff_ffff || cl > 0xffff_ffff {
            return Err(String::from_str("Mana cost is too large."));
        }
        let pool = ManaPool {
            white: wh as u32,
            blue: bu as u32,
            black: bk as u32,
            red: rd as u32,
            green: gr as u32,
            colorless: cl as u32,
        };
        Ok((gen as u32, pool))
    }

    /// Checks whether the pending card may be played as a land right now.
    pub fn check_land_drop(state: &GameState, card: &Card) -> (r: Ruling)
        ensures
            r@ == spec_land_drop(state@, card@),
    {
        if !has_type(&card.type_line, CardType::Land) {
            return Ruling::Illegal(make_not_a_land_msg(card.name.as_str()));
        }
        if !state.is_active_player {
            return Ruling::Illegal(String::from_str("Cannot play lands on opponent's turn."));
        }
        if state.stack.len() > 0 {
            return Ruling::Illegal(
                String::from_str("Cannot play lands while spells are on the stack."),
            );
        }
        match state.phase {
            Phase::Main1 | Phase::Main2 => {},
            _ => {
                return Ruling::Illegal(
                    String::from_str("Lands can only be played during Main Phases."),
                );
            },
        }
        if state.lands_played >= 1 {
            return Ruling::Illegal(String::from_str("Land limit for turn reached."));
        }
        Ruling::Legal
    }

    /// Checks whether the pending spell may be cast right now, by timing
    /// alone.
    pub fn check_cast_timing(state: &GameState, card: &Card) -> (r: Ruling)
        ensures
            r@ == spec_cast_timing(state@, card@),
    {
        let instant_speed = has_type(&card.type_line, CardType::Instant) || has_type(
            &card.type_line,
            CardType::Unknown,
        );
        if instant_speed {
            return Ruling::Legal;
        }
        if !state.is_active_player {
            return Ruling::Illegal(
                String::from_str("Cannot cast sorcery-speed spells on opponent's turn."),
            );
        }
        if state.stack.len() > 0 {
            return Ruling::Illegal(
                String::from_str("Cannot cast sorcery-speed spells while stack is not empty."),
            );
        }
        match state.phase {
            Phase::Main1 | Phase::Main2 => Ruling::Legal,
            _ => Ruling::Illegal(
                String::from_str("Sorcery-speed spells can only be cast during Main Phases."),
            ),
        }
    }

    /// Checks whether the snapshot's floating mana can pay the pending
    /// spell's cost. The simulation runs against a copy of the pool;
    /// assessment never mutates the snapshot.
    pub fn check_mana_cost(state: &GameState, card: &Card) -> (r: Ruling)
        ensures
            r@ == spec_check_mana_cost(state@.mana_pool, card@),
    {
        let cost_text: &str = match &card.mana_cost {
            Some(t) => t.as_str(),
            None => "",
        };
        proof {
            reveal_strlit("");
            assert(""@ =~= Seq::<char>::empty());
        }
        let parsed = Judge::parse_mana_cost(cost_text);
        match parsed {
            Err(e) => Ruling::Illegal(make_invalid_cost_msg(e.as_str())),
            Ok((generic, colored)) => {
                let available = state.mana_pool;
                if available.white < colored.white {
                    return Ruling::Illegal(make_color_short_msg(Color::White));
                }
                if available.blue < colored.blue {
                    return Ruling::Illegal(make_color_short_msg(Color::Blue));
                }
                if available.black < colored.black {
                    return Ruling::Illegal(make_color_short_msg(Color::Black));
                }
                if available.red < colored.red {
                    return Ruling::Illegal(make_color_short_msg(Color::Red));
                }
                if available.green < colored.green {
                    return Ruling::Illegal(make_color_short_msg(Color::Green));
                }
                if available.colorless < colored.colorless {
                    return Ruling::Illegal(make_color_short_msg(Color::Colorless));
                }
                let remaining: u64 = (available.white - colored.white) as u64 + (available.blue
                    - colored.blue) as u64 + (available.black - colored.black) as u64
                    + (available.red - colored.red) as u64 + (available.green
                    - colored.green) as u64 + (available.colorless - colored.colorless) as u64;
                if remaining < generic as u64 {
                    return Ruling::Illegal(make_generic_short_msg(generic as u64, remaining));
                }
                Ruling::Legal
            },
        }
    }

    /// Scans the battlefield for the legend rule: the first legendary
    /// permanent sharing a name and a controller with a distinct legendary
    /// permanent is reported as a state-based action.
    pub fn check_legend_rule(permanents: &[Permanent]) -> (r: Option<Ruling>)
        ensures
            ({
                match spec_legend_rule(permanents.deep_view()) {
                    None => r is None,
                    Some(rv) => r matches Some(x) && x@ == rv,
                }
            }),
    {
        let ghost b = permanents.deep_view();
        let n = permanents.len();
        let mut i: usize = 0;
        #[verifier::loop_isolation(false)]
        while i < n
            invariant
                i <= n,
                forall|m: int| 0 <= m < i ==> !has_partner(b, m),
            decreases n - i,
        {
            if permanents[i].is_legendary {
                let mut j: usize = 0;
                #[verifier::loop_isolation(false)]
                while j < n
                    invariant
                        j <= n,
                        forall|m: int| 0 <= m < j ==> !partner_at(b, i as int, m),
                    decreases n - j,
                {
                    if j != i {
                        let pi = &permanents[i];
                        let pj = &permanents[j];
                        if pj.is_legendary && pj.name == pi.name && pj.controller
                            == pi.controller {
                            proof {
                                assert(partner_at(b, i as int, j as int));
                                assert(has_partner(b, i as int));
                                lemma_first_dup_skip(b, i as int);
                            }
                            let msg = make_legend_rule_msg(
                                permanents[i].name.as_str(),
                                permanents[i].controller.as_str(),
                            );
                            return Some(Ruling::StateBasedAction(msg));
                        }
                    }
                    j += 1;
                }
                proof {
                    assert(!has_partner(b, i as int));
                }
            } else {
                proof {
                    assert(!b[i as int].is_legendary);
                }
            }
            i += 1;
        }
        proof {
            lemma_first_dup_skip(b, n as int);
        }
        None
    }

    /// Assesses the whole snapshot: checks the board-wide legend rule, then
    /// the pending action if there is one, and returns the ordered rulings —
    /// never empty, defaulting to a single legal ruling when nothing is
    /// amiss. Assessment is a pure function of the snapshot; it mutates
    /// nothing.
    pub fn assess_state(state: &GameState) -> (rulings: Vec<Ruling>)
        ensures
            rulings.deep_view() == spec_assess(state@),
    {
        let mut rulings: Vec<Ruling> = Vec::new();
        let battlefield = state.battlefield.as_slice();
        proof {
            assert(battlefield.deep_view() =~= state@.battlefield);
        }
        let sba = Judge::check_legend_rule(battlefield);
        match sba {
            Some(r) => {
                rulings.push(r);
            },
            None => {},
        }
        match &state.pending_action {
            None => {},
            Some(GameAction::PlayLand(card)) => {
                let r = Judge::check_land_drop(state, card);
                rulings.push(r);
            },
            Some(GameAction::CastSpell(card)) => {
                let timing = Judge::check_cast_timing(state, card);
                let timing_illegal = match &timing {
                    Ruling::Illegal(_) => true,
                    _ => false,
                };
                if timing_illegal {
                    rulings.push(timing);
                } else {
                    let r = Judge::check_mana_cost(state, card);
                    rulings.push(r);
                }
            },
            Some(GameAction::ActivateAbility { .. }) => {},
        }
        if rulings.len() == 0 {
            rulings.push(Ruling::Legal);
        }
        proof {
            assert(rulings.deep_view() =~= spec_assess(state@));
        }
        rulings
    }

    /// Commits the pending action. The snapshot is re-assessed first: if any
    /// ruling is illegal, the commit fails with the first such reason and the
    /// snapshot is left untouched. A state-based-action ruling does not block
    /// commit — the legend rule is a cleanup trigger, not a play restriction.
    /// On success the snapshot is mutated exactly as the action prescribes
    /// and the pending action is cleared.
    pub fn apply_action(state: &mut GameState) -> (r: Result<(), String>)
        ensures
            ({
                let rulings = spec_assess(old(state)@);
                if spec_has_illegal(rulings) {
                    &&& *final(state) == *old(state)
                    &&& r matches Err(m) && Some(m@) == first_illegal_from(rulings, 0)
                } else {
                    &&& r is Ok
                    &&& match old(state)@.pending_action {
                        Some(ActionView::PlayLand(c)) => final(state)@ == spec_apply_land(
                            old(state)@,
                            c,
                        ),
                        Some(ActionView::CastSpell(c)) => final(state)@ == spec_apply_cast(
                            old(state)@,
                            c,
                        ),
                        Some(ActionView::ActivateAbility { .. }) => final(state)@
                            == spec_clear_pending(old(state)@),
                        None => final(state)@ == spec_clear_pending(old(state)@),
                    }
                }
            }),
    {
        let rulings = Judge::assess_state(state);
        let ghost dv = rulings.deep_view();
        let ghost s0 = state@;
        let n = rulings.len();
        let mut i: usize = 0;
        #[verifier::loop_isolation(false)]
        while i < n
            invariant
                i <= n,
                n == rulings@.len(),
                forall|m: int| 0 <= m < i ==> !(dv[m] is Illegal),
            decreases n - i,
        {
            match &rulings[i] {
                Ruling::Illegal(reason) => {
                    proof {
                        assert(dv[i as int] is Illegal);
                        lemma_first_illegal_skip(dv, i as int);
                    }
                    return Err(reason.clone());
                },
                _ => {
                    proof {
                        assert(!(dv[i as int] is Illegal));
                    }
                },
            }
            i += 1;
        }
        proof {
            assert(!spec_has_illegal(dv));
        }
        // Nothing illegal: execute the action.
        let pending = state.pending_action.take();
        match pending {
            None => {
                proof {
                    assert(state@ =~= spec_clear_pending(s0));
                }
                Ok(())
            },
            Some(GameAction::ActivateAbility { .. }) => {
                proof {
                    assert(state@ =~= spec_clear_pending(s0));
                }
                Ok(())
            },
            Some(GameAction::PlayLand(card)) => {
                let ghost c = card@;
                proof {
                    assert(s0.pending_action == Some(ActionView::PlayLand(c)));
                    assert(spec_action_rulings(s0) == seq![spec_land_drop(s0, c)]);
                    assert(spec_assess(s0).last() == spec_land_drop(s0, c));
                    assert(!(spec_land_drop(s0, c) is Illegal));
                    assert(s0.lands_played < 1);
                }
                let id = make_perm_id(state.battlefield.len() as u64);
                let controller = state.active_player.clone();
                let Card { name, type_line, mana_cost: _ } = card;
                let perm = Permanent {
                    id,
                    name,
                    oracle_text: String::new(),
                    mana_value: 0,
                    types: type_line,
                    colors: Vec::new(),
                    is_legendary: false,
                    controller,
                    is_tapped: false,
                    damage_marked: 0,
                };
                proof {
                    assert(perm.deep_view() =~= spec_new_permanent(s0, c));
                }
                state.battlefield.push(perm);
                state.lands_played = state.lands_played + 1;
                proof {
                    assert(state@.battlefield =~= spec_apply_land(s0, c).battlefield);
                    assert(state@ =~= spec_apply_land(s0, c));
                }
                Ok(())
            },
            Some(GameAction::CastSpell(card)) => {
                let ghost c = card@;
                proof {
                    assert(s0.pending_action == Some(ActionView::CastSpell(c)));
                    assert(spec_assess(s0).last() == spec_action_rulings(s0).last());
                    if spec_cast_timing(s0, c) is Illegal {
                        assert(spec_action_rulings(s0) == seq![spec_cast_timing(s0, c)]);
                        assert(false);
                    }
                    assert(spec_action_rulings(s0) == seq![
                        spec_check_mana_cost(s0.mana_pool, c),
                    ]);
                    assert(!(spec_check_mana_cost(s0.mana_pool, c) is Illegal));
                }
                let cost_text: &str = match &card.mana_cost {
                    Some(t) => t.as_str(),
                    None => "",
                };
                proof {
                    reveal_strlit("");
                    assert(""@ =~= Seq::<char>::empty());
                }
                let parsed = Judge::parse_mana_cost(cost_text);
                match parsed {
                    Err(_) => {
                        // Assessment already ruled the cast legal, so the cost
                        // parses and fits; this arm is provably unreachable and
                        // stands only as the distinct internal-consistency
                        // fault the error design calls for.
                        proof {
                            assert(false);
                        }
                        Err(String::from_str("Internal fault: cost unreadable at commit."))
                    },
                    Ok((generic, colored)) => {
                        proof {
                            assert(spec_can_pay(s0.mana_pool, colored@, generic as int));
                        }
                        let paid = state.mana_pool.pay(&colored, generic);
                        if !paid {
                            // Unreachable for the same reason: assessment
                            // confirmed affordability, and `pay` succeeds
                            // exactly when the cost is affordable.
                            proof {
                                assert(false);
                            }
                            return Err(
                                String::from_str("Internal fault: payment failed at commit."),
                            );
                        }
                        state.stack.push(card.name);
                        proof {
                            assert(state@.stack =~= spec_apply_cast(s0, c).stack);
                            assert(state@ =~= spec_apply_cast(s0, c));
                        }
                        Ok(())
                    },
                }
            },
        }
    }
}

} // verus!
