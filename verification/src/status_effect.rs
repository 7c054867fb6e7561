//! A single timed or indefinite status effect.
//!
//! An effect owns its duration countdown and decides, each time one of its
//! owning creature's turn phases fires, whether it keeps ticking, stays
//! dormant, or expires.

use vstd::prelude::*;

verus! {

/// Which turn phase governs a finite effect's countdown and expiry check.
pub enum ClearType {
    BeginningOfTurn,
    EndOfTurn,
}

/// Remaining lifetime of an effect: indefinite, or a finite number of turns.
pub enum TurnsLeft {
    Indefinite,
    Finite(usize),
}

/// Result of evaluating one turn phase on an effect.
pub enum DurationStatus {
    Expired,
    NonExpired,
}

/// One status effect attached to a creature. The `id` is unique within the
/// owning creature and assigned monotonically by it.
pub struct StatusEffect {
    pub id: usize,
    pub effect_name: String,
    pub turns_left: TurnsLeft,
    pub clear_type: ClearType,
}

/// Intermediate builder for a `StatusEffect`; the clear type is optional and
/// defaults to `BeginningOfTurn`.
pub struct StatusEffectBuilder {
    pub id: usize,
    pub effect_name: String,
    pub turns_left: TurnsLeft,
    pub clear_type: Option<ClearType>,
}

/// True when one phase evaluation of `e` during `phase` reports it expired:
/// the effect is finite, the phase matches its clear type, and at most one
/// turn remains. A `Finite(1)` effect thus expires on the very next matching
/// phase, without ever reaching a stored count of zero.
pub open spec fn phase_expires(e: StatusEffect, phase: ClearType) -> bool {
    match e.turns_left {
        TurnsLeft::Indefinite => false,
        TurnsLeft::Finite(n) => e.clear_type == phase && n <= 1,
    }
}

/// The value of `e` after one phase evaluation during `phase` that did not
/// expire it: a finite effect on its matching phase with more than one turn
/// left is decremented by one; every other effect is untouched. An expiring
/// effect is also untouched, since its owner removes it immediately.
pub open spec fn phase_tick(e: StatusEffect, phase: ClearType) -> StatusEffect {
    match e.turns_left {
        TurnsLeft::Indefinite => e,
        TurnsLeft::Finite(n) => if e.clear_type == phase && n > 1 {
            StatusEffect { turns_left: TurnsLeft::Finite((n - 1) as usize), ..e }
        } else {
            e
        },
    }
}

/// The status a phase evaluation returns for `e` during `phase`.
pub open spec fn phase_status(e: StatusEffect, phase: ClearType) -> DurationStatus {
    if phase_expires(e, phase) {
        DurationStatus::Expired
    } else {
        DurationStatus::NonExpired
    }
}

impl StatusEffect {
    /// Start building an effect from its required fields.
    pub fn builder(id: usize, effect_name: String, turns_left: TurnsLeft) -> (b: StatusEffectBuilder)
        ensures
            b.id == id,
            b.effect_name == effect_name,
            b.turns_left == turns_left,
            b.clear_type is None,
    {
        StatusEffectBuilder { id, effect_name, turns_left, clear_type: None }
    }

    pub fn name(&self) -> (r: &str)
        ensures
            r@ == self.effect_name@,
    {
        self.effect_name.as_str()
    }

    pub fn id(&self) -> (r: usize)
        ensures
            r == self.id,
    {
        self.id
    }

    pub fn clear_type(&self) -> (r: &ClearType)
        ensures
            *r == self.clear_type,
    {
        &self.clear_type
    }

    pub fn turns_left(&self) -> (r: &TurnsLeft)
        ensures
            *r == self.turns_left,
    {
        &self.turns_left
    }

    /// Evaluate the beginning-of-turn phase. Effects cleared at end of turn
    /// and indefinite effects are untouched; a finite beginning-of-turn
    /// effect with at most one turn left is reported expired (and left for
    /// the owner to remove), otherwise its countdown drops by one.
    pub fn begin_turn(&mut self) -> (r: DurationStatus)
        ensures
            *final(self) == phase_tick(*old(self), ClearType::BeginningOfTurn),
            r == phase_status(*old(self), ClearType::BeginningOfTurn),
    {
        match self.turns_left {
            TurnsLeft::Indefinite => DurationStatus::NonExpired,
            TurnsLeft::Finite(turns) => {
                match self.clear_type {
                    ClearType::BeginningOfTurn => {
                        if turns <= 1 {
                            return DurationStatus::Expired;
                        }
                        self.turns_left = TurnsLeft::Finite(turns - 1);
                        DurationStatus::NonExpired
                    }
                    ClearType::EndOfTurn => DurationStatus::NonExpired,
                }
            }
        }
    }

    /// Evaluate the end-of-turn phase: the mirror of `begin_turn`, with the
    /// two clear types' roles swapped.
    pub fn end_turn(&mut self) -> (r: DurationStatus)
        ensures
            *final(self) == phase_tick(*old(self), ClearType::EndOfTurn),
            r == phase_status(*old(self), ClearType::EndOfTurn),
    {
        match self.turns_left {
            TurnsLeft::Indefinite => DurationStatus::NonExpired,
            TurnsLeft::Finite(turns) => {
                match self.clear_type {
                    ClearType::BeginningOfTurn => DurationStatus::NonExpired,
                    ClearType::EndOfTurn => {
                        if turns <= 1 {
                            return DurationStatus::Expired;
                        }
                        self.turns_left = TurnsLeft::Finite(turns - 1);
                        DurationStatus::NonExpired
                    }
                }
            }
        }
    }
}

impl StatusEffectBuilder {
    /// Choose an explicit clear type instead of the default.
    pub fn clear_type(self, clear_type: ClearType) -> (b: Self)
        ensures
            b.id == self.id,
            b.effect_name == self.effect_name,
            b.turns_left == self.turns_left,
            b.clear_type == Some(clear_type),
    {
        StatusEffectBuilder {
            id: self.id,
            effect_name: self.effect_name,
            turns_left: self.turns_left,
            clear_type: Some(clear_type),
        }
    }

    /// Finish the effect; an unset clear type falls back to the default,
    /// `BeginningOfTurn`.
    pub fn build(self) -> (e: StatusEffect)
        ensures
            e.id == self.id,
            e.effect_name == self.effect_name,
            e.turns_left == self.turns_left,
            e.clear_type == (match self.clear_type {
                Some(c) => c,
                None => ClearType::BeginningOfTurn,
            }),
    {
        let clear_type = match self.clear_type {
            Some(c) => c,
            None => ClearType::default(),
        };
        StatusEffect {
            id: self.id,
            effect_name: self.effect_name,
            turns_left: self.turns_left,
            clear_type,
        }
    }
}

impl Default for ClearType {
    fn default() -> (r: Self)
        ensures
            r == ClearType::BeginningOfTurn,
    {
        ClearType::BeginningOfTurn
    }
}

} // verus!
