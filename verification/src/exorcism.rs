//! Exorcism: the card shown while Willo is dead.
use crate::willo::WilloState;
use vstd::prelude::*;

verus! {

/// Fires when Willo steps on an exorcism tile.
#[derive(Copy, Clone, Debug, PartialEq, Eq, Hash, Structural)]
pub struct ExorcismEvent;

/// How long the death card takes to rise over the screen, in nanoseconds.
pub const DEATH_CARD_RISE_TIME: u64 = 600_000_000;

/// The notice the death card shows.
pub open spec fn exorcised_notice() -> Seq<char> {
    "EXORCISED\n\nR to restart\nZ to undo"@
}

/// The death card: the notice it shows, and how long it takes to rise from below the screen to
/// cover it (it starts hidden, until it is laid out).
#[derive(Copy, Clone, Debug, PartialEq, Eq, Hash)]
pub struct DeathCard {
    pub text: &'static str,
    pub rise_time: u64,
}

/// The death card as it is spawned.
pub open spec fn fresh_death_card() -> DeathCard {
    DeathCard { text: "EXORCISED\n\nR to restart\nZ to undo", rise_time: DEATH_CARD_RISE_TIME }
}

/// Builds the death card: the exorcised notice with the restart and undo hints, rising over
/// `DEATH_CARD_RISE_TIME`.
pub fn death_card() -> (card: DeathCard)
    ensures
        card == fresh_death_card(),
        card.text@ == exorcised_notice(),
{
    proof {
        reveal_strlit("EXORCISED\n\nR to restart\nZ to undo");
    }
    DeathCard { text: "EXORCISED\n\nR to restart\nZ to undo", rise_time: DEATH_CARD_RISE_TIME }
}

/// What happens to the death card when Willo's state changes.
#[derive(Copy, Clone, Debug, PartialEq, Eq, Hash)]
pub enum DeathCardAction {
    /// Willo just died: this card rises.
    Spawn(DeathCard),
    /// Willo just came back: the card goes away.
    Despawn,
    /// Nothing changes.
    Keep,
}

/// The death card's reaction to each new state of Willo, in order: it rises when Willo dies (the
/// card of `fresh_death_card`, showing `exorcised_notice`) and goes away when Willo comes back; `last_state` remembers the state seen last.
pub fn spawn_death_card(states: &Vec<WilloState>, last_state: &mut WilloState) -> (actions: Vec<
    DeathCardAction,
>)
    ensures
        actions.len() == states.len(),
        forall|i: int|
            0 <= i < states.len() ==> #[trigger] actions[i] == death_card_action(
                if i == 0 {
                    *old(last_state)
                } else {
                    states[i - 1]
                },
                states[i],
            ),
        forall|i: int|
            0 <= i < actions.len() ==> (#[trigger] actions[i] matches DeathCardAction::Spawn(card)
                ==> card.text@ == exorcised_notice()),
        states.len() > 0 ==> *final(last_state) == states[states.len() - 1],
        states.len() == 0 ==> *final(last_state) == *old(last_state),
{
    let mut actions: Vec<DeathCardAction> = Vec::new();
    let mut i: usize = 0;
    let ghost first = *last_state;
    while i < states.len()
        invariant
            0 <= i <= states.len(),
            actions.len() == i,
            i == 0 ==> *last_state == first,
            i > 0 ==> *last_state == states[i - 1],
            forall|j: int|
                0 <= j < i ==> (#[trigger] actions[j] matches DeathCardAction::Spawn(card)
                    ==> card.text@ == exorcised_notice()),
            forall|j: int|
                0 <= j < i ==> #[trigger] actions[j] == death_card_action(
                    if j == 0 {
                        first
                    } else {
                        states[j - 1]
                    },
                    states[j],
                ),
        decreases states.len() - i,
    {
        let state = states[i];
        let action = if state == WilloState::Dead && *last_state != WilloState::Dead {
            DeathCardAction::Spawn(death_card())
        } else if state != WilloState::Dead && *last_state == WilloState::Dead {
            DeathCardAction::Despawn
        } else {
            DeathCardAction::Keep
        };
        actions.push(action);
        *last_state = state;
        i = i + 1;
    }
    actions
}

/// The death card's reaction when Willo goes from `last` to `state`.
pub open spec fn death_card_action(last: WilloState, state: WilloState) -> DeathCardAction {
    if state == WilloState::Dead && last != WilloState::Dead {
        DeathCardAction::Spawn(fresh_death_card())
    } else if state != WilloState::Dead && last == WilloState::Dead {
        DeathCardAction::Despawn
    } else {
        DeathCardAction::Keep
    }
}

} // verus!
