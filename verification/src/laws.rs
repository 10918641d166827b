//! Board-wide guarantees of the judge, stated and proved once over the
//! models, so that callers need not re-derive them from the individual
//! contracts.

use vstd::prelude::*;

use crate::models::{ActionView, CardView, PermanentView, StateView};
use crate::rules::{
    first_dup_from, has_partner, lemma_first_dup_skip, partner_at, spec_action_rulings,
    spec_assess, spec_cast_timing, spec_check_mana_cost, spec_has_illegal, spec_land_drop,
    spec_legend_rule, RulingView,
};

verus! {

/// Whether no two distinct legendary permanents on the battlefield share
/// both a name and a controller.
pub open spec fn no_duplicate_legends(b: Seq<PermanentView>) -> bool {
    forall|i: int, j: int|
        0 <= i < b.len() && 0 <= j < b.len() && i != j && b[i].is_legendary
            && b[j].is_legendary ==> !(b[j].name == b[i].name && b[j].controller
            == b[i].controller)
}

/// On a battlefield with no duplicated legend, no permanent has a partner.
proof fn lemma_no_duplicates_no_partner(b: Seq<PermanentView>)
    requires
        no_duplicate_legends(b),
    ensures
        forall|m: int| 0 <= m < b.len() ==> !has_partner(b, m),
{
    assert forall|m: int| 0 <= m < b.len() implies !has_partner(b, m) by {
        if has_partner(b, m) {
            let j = choose|j: int| 0 <= j < b.len() && partner_at(b, m, j);
            assert(b[m].is_legendary && b[j].is_legendary);
        }
    }
}

/// A scan that returns no duplicate index means no permanent from `i` on has
/// a partner.
proof fn lemma_first_dup_none(b: Seq<PermanentView>, i: int)
    requires
        0 <= i <= b.len(),
        first_dup_from(b, i) is None,
    ensures
        forall|m: int| i <= m < b.len() ==> !has_partner(b, m),
    decreases b.len() - i,
{
    if i < b.len() {
        lemma_first_dup_none(b, i + 1);
    }
}

/// A snapshot with no pending action and no duplicated legend is assessed as
/// exactly one legal ruling.
pub proof fn lemma_quiet_board_assessed_legal(s: StateView)
    requires
        s.pending_action is None,
        no_duplicate_legends(s.battlefield),
    ensures
        spec_assess(s) =~= seq![RulingView::Legal],
{
    lemma_no_duplicates_no_partner(s.battlefield);
    lemma_first_dup_skip(s.battlefield, s.battlefield.len() as int);
    assert(spec_legend_rule(s.battlefield) is None);
}

/// Two distinct legendary permanents sharing a name and a controller make
/// assessment include a state-based-action ruling.
pub proof fn lemma_duplicate_legend_flagged(s: StateView, i: int, j: int)
    requires
        0 <= i < s.battlefield.len(),
        0 <= j < s.battlefield.len(),
        i != j,
        s.battlefield[i].is_legendary,
        s.battlefield[j].is_legendary,
        s.battlefield[j].name == s.battlefield[i].name,
        s.battlefield[j].controller == s.battlefield[i].controller,
    ensures
        exists|k: int|
            0 <= k < spec_assess(s).len() && spec_assess(s)[k] is StateBasedAction,
{
    let b = s.battlefield;
    assert(partner_at(b, i, j));
    assert(has_partner(b, i));
    if first_dup_from(b, 0) is None {
        lemma_first_dup_none(b, 0);
        assert(false);
    }
    assert(spec_legend_rule(b) is Some);
    assert(spec_assess(s)[0] is StateBasedAction);
}

/// With no duplicated legend, assessment includes no state-based-action
/// ruling: the other checks rule only legal or illegal.
pub proof fn lemma_no_duplicate_no_sba(s: StateView)
    requires
        no_duplicate_legends(s.battlefield),
    ensures
        forall|k: int|
            0 <= k < spec_assess(s).len() ==> !(#[trigger] spec_assess(s)[k]
                is StateBasedAction),
{
    lemma_no_duplicates_no_partner(s.battlefield);
    lemma_first_dup_skip(s.battlefield, s.battlefield.len() as int);
    assert(spec_legend_rule(s.battlefield) is None);
    let act = spec_action_rulings(s);
    assert forall|k: int| 0 <= k < act.len() implies !(#[trigger] act[k]
        is StateBasedAction) by {
        match s.pending_action {
            Some(ActionView::PlayLand(c)) => {
                assert(act[k] == spec_land_drop(s, c));
            },
            Some(ActionView::CastSpell(c)) => {
                if spec_cast_timing(s, c) is Illegal {
                    assert(act[k] == spec_cast_timing(s, c));
                } else {
                    assert(act[k] == spec_check_mana_cost(s.mana_pool, c));
                }
            },
            _ => {},
        }
    }
    assert(spec_assess(s) =~= if act.len() == 0 {
        seq![RulingView::Legal]
    } else {
        act
    });
}

/// A pending land drop with anything on the stack is ruled illegal, whatever
/// the phase and however many lands were already played: every check that
/// precedes the stack check can itself only fail, and the stack check
/// precedes both the phase and the land-limit checks.
pub proof fn lemma_stack_blocks_land_drop(s: StateView, c: CardView)
    requires
        s.pending_action == Some(ActionView::PlayLand(c)),
        s.stack.len() > 0,
    ensures
        spec_land_drop(s, c) is Illegal,
        spec_assess(s).last() == spec_land_drop(s, c),
        spec_has_illegal(spec_assess(s)),
{
    let rulings = spec_assess(s);
    assert(spec_action_rulings(s) == seq![spec_land_drop(s, c)]);
    assert(rulings.last() == spec_land_drop(s, c));
    assert(rulings[rulings.len() - 1] is Illegal);
}

} // verus!
