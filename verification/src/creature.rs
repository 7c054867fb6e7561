//! A named combatant that owns an ordered collection of status effects.
//!
//! The creature allocates unique, monotonically increasing effect ids,
//! sequences per-turn effect processing across all owned effects, and
//! aggregates expiry notifications into a single report.

use vstd::prelude::*;
use vstd::seq_lib::*;
use vstd::string::StringExecFns;

use crate::status_effect::ClearType;
use crate::status_effect::DurationStatus;
use crate::status_effect::StatusEffect;
use crate::status_effect::TurnsLeft;
use crate::status_effect::phase_expires;
use crate::status_effect::phase_status;
use crate::status_effect::phase_tick;
use crate::text::dec_str;
use crate::text::usize_to_string;

verus! {

/// A combatant: a name, an initiative score (higher acts first), the owned
/// status effects in attachment order, and the effect-id counter, which
/// only ever grows and is never reset. The fields are exposed for use in
/// specifications; mutate a creature only through its methods, which keep
/// `wf` intact.
pub struct Creature {
    pub name: String,
    pub initiative: isize,
    pub status_effects: Vec<StatusEffect>,
    pub next_effect_id: usize,
}

/// Aggregated report of one turn phase: either nothing happened, or one
/// human-readable message per expired effect.
pub enum CreatureUpdate {
    Updates(Vec<String>),
    NoUpdate,
}

/// The views of a list of message strings.
pub open spec fn msgs_view(v: Seq<String>) -> Seq<Seq<char>> {
    v.map_values(|s: String| s@)
}

/// The messages carried by a `CreatureUpdate`, as character sequences;
/// `NoUpdate` carries none.
pub open spec fn update_msgs(u: CreatureUpdate) -> Seq<Seq<char>> {
    match u {
        CreatureUpdate::Updates(v) => msgs_view(v@),
        CreatureUpdate::NoUpdate => Seq::empty(),
    }
}

/// The notification text reported when an effect expires.
pub open spec fn expiry_message(effect_name: Seq<char>, creature_name: Seq<char>) -> Seq<char> {
    effect_name + " has expired for creature "@ + creature_name + "."@
}

/// Predicate picking the effects that one evaluation of `phase` expires.
pub open spec fn expires_pred(phase: ClearType) -> spec_fn(StatusEffect) -> bool {
    |e: StatusEffect| phase_expires(e, phase)
}

/// Predicate picking the effects that survive one evaluation of `phase`.
pub open spec fn survives_pred(phase: ClearType) -> spec_fn(StatusEffect) -> bool {
    |e: StatusEffect| !phase_expires(e, phase)
}

/// One phase evaluation applied to each element of a list of effects.
pub open spec fn tick_fn(phase: ClearType) -> spec_fn(StatusEffect) -> StatusEffect {
    |e: StatusEffect| phase_tick(e, phase)
}

/// Predicate picking the effects whose id occurs in `ids`.
pub open spec fn id_in_pred(ids: Seq<usize>) -> spec_fn(StatusEffect) -> bool {
    |e: StatusEffect| ids.contains(e.id)
}

/// Predicate picking the effects whose id does not occur in `ids`.
pub open spec fn id_not_in_pred(ids: Seq<usize>) -> spec_fn(StatusEffect) -> bool {
    |e: StatusEffect| !ids.contains(e.id)
}

/// The map from an effect to its expiry message for creature `creature_name`.
pub open spec fn message_fn(creature_name: Seq<char>) -> spec_fn(StatusEffect) -> Seq<char> {
    |e: StatusEffect| expiry_message(e.effect_name@, creature_name)
}

/// The effects of `s` that one evaluation of `phase` expires, in order.
pub open spec fn expired_effects(s: Seq<StatusEffect>, phase: ClearType) -> Seq<StatusEffect> {
    s.filter(expires_pred(phase))
}

/// The ids of the effects of `s` that one evaluation of `phase` expires.
pub open spec fn expired_ids(s: Seq<StatusEffect>, phase: ClearType) -> Seq<usize> {
    expired_effects(s, phase).map_values(|e: StatusEffect| e.id)
}

/// The effect list after one full evaluation of `phase`: expiring effects
/// are removed, surviving finite effects on their matching phase are
/// decremented, and relative order is preserved.
pub open spec fn effects_after_phase(s: Seq<StatusEffect>, phase: ClearType) -> Seq<StatusEffect> {
    s.filter(survives_pred(phase)).map_values(tick_fn(phase))
}

/// The expiry notifications one evaluation of `phase` produces for a
/// creature named `creature_name` with effects `s`: one message per
/// expiring effect, in attachment order.
pub open spec fn expiry_messages(
    s: Seq<StatusEffect>,
    phase: ClearType,
    creature_name: Seq<char>,
) -> Seq<Seq<char>> {
    expired_effects(s, phase).map_values(message_fn(creature_name))
}

impl Creature {
    /// Well-formedness: effect ids are strictly increasing in attachment
    /// order (hence unique), and all are below the allocation counter.
    pub open spec fn wf(self) -> bool {
        &&& forall|i: int, j: int|
            0 <= i < j < self.status_effects@.len()
                ==> self.status_effects@[i].id < self.status_effects@[j].id
        &&& forall|i: int|
            0 <= i < self.status_effects@.len()
                ==> #[trigger] self.status_effects@[i].id < self.next_effect_id
    }

    /// The two phases of a turn relate the old and new creature state: the
    /// identity fields are untouched and the effect list steps by one
    /// evaluation of `phase`.
    pub open spec fn turn_phase_applied(self, pre: Creature, phase: ClearType) -> bool {
        &&& self.name == pre.name
        &&& self.initiative == pre.initiative
        &&& self.next_effect_id == pre.next_effect_id
        &&& self.status_effects@ == effects_after_phase(pre.status_effects@, phase)
    }

    pub fn new(name: String, initiative: isize) -> (c: Creature)
        ensures
            c.name == name,
            c.initiative == initiative,
            c.status_effects@ == Seq::<StatusEffect>::empty(),
            c.next_effect_id == 0,
            c.wf(),
    {
        Creature { name, initiative, status_effects: Vec::new(), next_effect_id: 0 }
    }

    /// Attach an indefinite effect under the next fresh id.
    pub fn add_status_effect(&mut self, name: String)
        requires
            old(self).wf(),
            old(self).next_effect_id < usize::MAX,
        ensures
            final(self).wf(),
            final(self).name == old(self).name,
            final(self).initiative == old(self).initiative,
            final(self).next_effect_id == old(self).next_effect_id + 1,
            final(self).status_effects@ == old(self).status_effects@.push(
                (StatusEffect {
                    id: old(self).next_effect_id,
                    effect_name: name,
                    turns_left: TurnsLeft::Indefinite,
                    clear_type: ClearType::BeginningOfTurn,
                }),
            ),
    {
        let effect = StatusEffect::builder(
            self.get_status_id(),
            name,
            TurnsLeft::Indefinite,
        ).build();
        self.add_status_effect_to_list(effect);
    }

    /// Attach a finite effect under the next fresh id. A zero duration is
    /// legal and expires on the next matching phase.
    pub fn add_status_effect_timed(&mut self, name: String, turn_duration: usize, clear_type: ClearType)
        requires
            old(self).wf(),
            old(self).next_effect_id < usize::MAX,
        ensures
            final(self).wf(),
            final(self).name == old(self).name,
            final(self).initiative == old(self).initiative,
            final(self).next_effect_id == old(self).next_effect_id + 1,
            final(self).status_effects@ == old(self).status_effects@.push(
                (StatusEffect {
                    id: old(self).next_effect_id,
                    effect_name: name,
                    turns_left: TurnsLeft::Finite(turn_duration),
                    clear_type: clear_type,
                }),
            ),
    {
        let duration = TurnsLeft::Finite(turn_duration);
        let effect = StatusEffect::builder(
            self.get_status_id(),
            name,
            duration,
        ).clear_type(clear_type).build();
        self.add_status_effect_to_list(effect);
    }

    pub fn initiative(&self) -> (r: isize)
        ensures
            r == self.initiative,
    {
        self.initiative
    }

    pub fn name(&self) -> (r: &str)
        ensures
            r@ == self.name@,
    {
        self.name.as_str()
    }

    /// Allocate the next effect id; the counter only ever grows.
    fn get_status_id(&mut self) -> (r: usize)
        requires
            old(self).next_effect_id < usize::MAX,
        ensures
            r == old(self).next_effect_id,
            final(self).next_effect_id == old(self).next_effect_id + 1,
            final(self).name == old(self).name,
            final(self).initiative == old(self).initiative,
            final(self).status_effects == old(self).status_effects,
    {
        self.next_effect_id += 1;
        self.next_effect_id - 1
    }

    fn add_status_effect_to_list(&mut self, effect: StatusEffect)
        ensures
            final(self).name == old(self).name,
            final(self).initiative == old(self).initiative,
            final(self).next_effect_id == old(self).next_effect_id,
            final(self).status_effects@ == old(self).status_effects@.push(effect),
    {
        self.status_effects.push(effect);
    }
}

/// The identity of an effect is untouched by a phase evaluation: only the
/// countdown can change.
proof fn lemma_tick_keeps_identity(phase: ClearType)
    ensures
        forall|e: StatusEffect| (#[trigger] phase_tick(e, phase)).id == e.id,
        forall|e: StatusEffect| (#[trigger] phase_tick(e, phase)).effect_name == e.effect_name,
        forall|e: StatusEffect| phase_expires(e, phase) ==> #[trigger] phase_tick(e, phase) == e,
{
}

/// Two predicates that agree on every element of a sequence filter it to
/// the same subsequence.
proof fn lemma_filter_agree(
    s: Seq<StatusEffect>,
    p1: spec_fn(StatusEffect) -> bool,
    p2: spec_fn(StatusEffect) -> bool,
)
    requires
        forall|i: int| 0 <= i < s.len() ==> p1(s[i]) == p2(s[i]),
    ensures
        s.filter(p1) == s.filter(p2),
    decreases s.len(),
{
    reveal(Seq::filter);
    if s.len() > 0 {
        let t = s.drop_last();
        assert forall|i: int| 0 <= i < t.len() implies p1(t[i]) == p2(t[i]) by {
            assert(t[i] == s[i]);
        }
        lemma_filter_agree(t, p1, p2);
    }
}

/// An element of a filtered sequence is an element of the original.
proof fn lemma_filter_member_at(s: Seq<StatusEffect>, p: spec_fn(StatusEffect) -> bool, i: int)
    requires
        0 <= i < s.filter(p).len(),
    ensures
        exists|k: int| 0 <= k < s.len() && s.filter(p)[i] == s[k],
    decreases s.len(),
{
    reveal(Seq::filter);
    if s.len() > 0 {
        let t = s.drop_last();
        let f = s.filter(p);
        let ft = t.filter(p);
        if i < ft.len() {
            lemma_filter_member_at(t, p, i);
            let k = choose|k: int| 0 <= k < t.len() && ft[i] == t[k];
            assert(f[i] == ft[i] && t[k] == s[k]);
            assert(f[i] == s[k]);
        } else {
            assert(f[i] == s.last() && s.last() == s[s.len() - 1]);
        }
    }
}

/// Filtering keeps the strict increase of effect ids.
proof fn lemma_filter_keeps_id_order(s: Seq<StatusEffect>, p: spec_fn(StatusEffect) -> bool)
    requires
        forall|i: int, j: int| 0 <= i < j < s.len() ==> s[i].id < s[j].id,
    ensures
        forall|i: int, j: int|
            0 <= i < j < s.filter(p).len() ==> s.filter(p)[i].id < s.filter(p)[j].id,
        forall|i: int|
            0 <= i < s.filter(p).len() ==> exists|k: int|
                0 <= k < s.len() && #[trigger] s.filter(p)[i] == s[k],
    decreases s.len(),
{
    reveal(Seq::filter);
    if s.len() > 0 {
        let t = s.drop_last();
        let x = s.last();
        assert forall|i: int, j: int| 0 <= i < j < t.len() implies t[i].id < t[j].id by {
            assert(t[i] == s[i] && t[j] == s[j]);
        }
        lemma_filter_keeps_id_order(t, p);
        let f = s.filter(p);
        let ft = t.filter(p);
        assert forall|i: int|
            0 <= i < f.len() implies exists|k: int| 0 <= k < s.len() && #[trigger] f[i] == s[k] by {
            lemma_filter_member_at(s, p, i);
        }
        assert forall|i: int, j: int| 0 <= i < j < f.len() implies f[i].id < f[j].id by {
            if j < ft.len() {
                assert(f[i] == ft[i] && f[j] == ft[j]);
            } else {
                // j names the pushed last element; f[i] comes from t
                lemma_filter_member_at(t, p, i);
                let k = choose|k: int| 0 <= k < t.len() && ft[i] == t[k];
                assert(f[i] == ft[i]);
                assert(f[j] == x);
                assert(t[k] == s[k] && x == s[s.len() - 1]);
                assert(t[k].id < x.id);
            }
        }
    }
}

/// An expired id is the id of some element of the list.
proof fn lemma_expired_id_member_at(s: Seq<StatusEffect>, phase: ClearType, k: int)
    requires
        0 <= k < expired_ids(s, phase).len(),
    ensures
        exists|j: int| 0 <= j < s.len() && expired_ids(s, phase)[k] == s[j].id,
{
    assert(0 <= k < s.filter(expires_pred(phase)).len());
    lemma_filter_member_at(s, expires_pred(phase), k);
    let j = choose|j: int| 0 <= j < s.len() && s.filter(expires_pred(phase))[k] == s[j];
    assert(expired_ids(s, phase)[k] == s[j].id);
}

/// After every effect has been ticked once for `phase`, splitting the
/// ticked list by membership of each id among the expired ids yields
/// exactly the surviving list and the expired list.
proof fn lemma_phase_decomposition(s: Seq<StatusEffect>, phase: ClearType)
    requires
        forall|i: int, j: int| 0 <= i < j < s.len() ==> s[i].id < s[j].id,
    ensures
        s.map_values(tick_fn(phase)).filter(id_not_in_pred(expired_ids(s, phase)))
            == effects_after_phase(s, phase),
        s.map_values(tick_fn(phase)).filter(id_in_pred(expired_ids(s, phase)))
            == expired_effects(s, phase),
    decreases s.len(),
{
    reveal(Seq::filter);
    lemma_tick_keeps_identity(phase);
    let ticked = s.map_values(tick_fn(phase));
    let ids = expired_ids(s, phase);
    if s.len() == 0 {
        assert(ticked =~= Seq::<StatusEffect>::empty());
        assert(expired_effects(s, phase) =~= Seq::<StatusEffect>::empty());
        assert(effects_after_phase(s, phase) =~= Seq::<StatusEffect>::empty());
    } else {
        let t = s.drop_last();
        let x = s.last();
        assert(s =~= t.push(x));
        assert forall|i: int, j: int| 0 <= i < j < t.len() implies t[i].id < t[j].id by {
            assert(t[i] == s[i] && t[j] == s[j]);
        }
        lemma_phase_decomposition(t, phase);
        let ticked_t = t.map_values(tick_fn(phase));
        let ids_t = expired_ids(t, phase);
        t.lemma_push_map_commute(tick_fn(phase), x);
        assert(ticked == ticked_t.push(phase_tick(x, phase)));
        t.lemma_filter_push(x, expires_pred(phase));
        t.lemma_filter_push(x, survives_pred(phase));
        // every expired id of t belongs to an element of t, so it is below x.id
        assert forall|k: int| 0 <= k < ids_t.len() implies #[trigger] ids_t[k] < x.id by {
            lemma_expired_id_member_at(t, phase, k);
            let j = choose|j: int| 0 <= j < t.len() && ids_t[k] == t[j].id;
            assert(t[j] == s[j]);
        }
        if phase_expires(x, phase) {
            assert(expired_effects(s, phase) == expired_effects(t, phase).push(x));
            expired_effects(t, phase).lemma_push_map_commute(|e: StatusEffect| e.id, x);
            assert(ids == ids_t.push(x.id));
            assert(effects_after_phase(s, phase) == effects_after_phase(t, phase));
            // membership in ids and in ids_t agrees on all of ticked_t
            assert forall|i: int| 0 <= i < ticked_t.len()
                implies id_in_pred(ids)(ticked_t[i]) == id_in_pred(ids_t)(ticked_t[i])
                    && id_not_in_pred(ids)(ticked_t[i]) == id_not_in_pred(ids_t)(ticked_t[i]) by {
                assert(ticked_t[i].id == t[i].id);
                assert(t[i].id < x.id);
                if ids_t.contains(t[i].id) {
                    assert(ids.contains(t[i].id)) by {
                        let k = choose|k: int| 0 <= k < ids_t.len() && ids_t[k] == t[i].id;
                        assert(ids[k] == t[i].id);
                    }
                }
                if ids.contains(t[i].id) {
                    let k = choose|k: int| 0 <= k < ids.len() && ids[k] == t[i].id;
                    assert(k < ids_t.len());
                }
            }
            lemma_filter_agree(ticked_t, id_in_pred(ids), id_in_pred(ids_t));
            lemma_filter_agree(ticked_t, id_not_in_pred(ids), id_not_in_pred(ids_t));
            ticked_t.lemma_filter_push(phase_tick(x, phase), id_in_pred(ids));
            ticked_t.lemma_filter_push(phase_tick(x, phase), id_not_in_pred(ids));
            assert(phase_tick(x, phase) == x);
            assert(ids.contains(x.id)) by {
                assert(ids[ids.len() - 1] == x.id);
            }
            assert(id_in_pred(ids)(phase_tick(x, phase)));
        } else {
            assert(expired_effects(s, phase) == expired_effects(t, phase));
            assert(ids == ids_t);
            assert(effects_after_phase(s, phase)
                == effects_after_phase(t, phase).push(phase_tick(x, phase))) by {
                t.filter(survives_pred(phase)).lemma_push_map_commute(tick_fn(phase), x);
            }
            ticked_t.lemma_filter_push(phase_tick(x, phase), id_in_pred(ids));
            ticked_t.lemma_filter_push(phase_tick(x, phase), id_not_in_pred(ids));
            assert(!ids.contains(x.id)) by {
                if ids.contains(x.id) {
                    let k = choose|k: int| 0 <= k < ids.len() && ids[k] == x.id;
                    assert(ids_t[k] < x.id);
                }
            }
            assert(id_not_in_pred(ids)(phase_tick(x, phase)));
        }
    }
}

impl Creature {
    /// Run the beginning-of-turn phase over every owned effect in
    /// attachment order, then remove the expired ones and report one
    /// message per expired effect, in that same order.
    pub fn begin_turn(&mut self) -> (r: CreatureUpdate)
        requires
            old(self).wf(),
        ensures
            final(self).wf(),
            final(self).turn_phase_applied(*old(self), ClearType::BeginningOfTurn),
            update_msgs(r) == expiry_messages(
                old(self).status_effects@,
                ClearType::BeginningOfTurn,
                old(self).name@,
            ),
            (r is NoUpdate) <==> expiry_messages(
                old(self).status_effects@,
                ClearType::BeginningOfTurn,
                old(self).name@,
            ).len() == 0,
    {
        let ghost orig = self.status_effects@;
        // List of ids of effects to remove from the status effect list
        let mut effects_to_remove: Vec<usize> = Vec::new();
        let n = self.status_effects.len();
        for i in 0..n
            invariant
                n == orig.len(),
                self.status_effects@.len() == orig.len(),
                forall|j: int|
                    0 <= j < i ==> self.status_effects@[j] == phase_tick(
                        orig[j],
                        ClearType::BeginningOfTurn,
                    ),
                forall|j: int| i <= j < orig.len() ==> self.status_effects@[j] == orig[j],
                effects_to_remove@ == expired_ids(orig.take(i as int), ClearType::BeginningOfTurn),
                self.name == old(self).name,
                self.initiative == old(self).initiative,
                self.next_effect_id == old(self).next_effect_id,
        {
            proof {
                orig.lemma_take_succ_push(i as int);
                orig.take(i as int).lemma_filter_push(orig[i as int], expires_pred(ClearType::BeginningOfTurn));
                expired_effects(orig.take(i as int), ClearType::BeginningOfTurn)
                    .lemma_push_map_commute(|e: StatusEffect| e.id, orig[i as int]);
            }
            let status = self.status_effects[i].begin_turn();
            match status {
                DurationStatus::NonExpired => {}
                DurationStatus::Expired => {
                    let id = self.status_effects[i].id();
                    effects_to_remove.push(id);
                }
            }
        }
        proof {
            orig.lemma_take_len();
            assert(self.status_effects@ =~= orig.map_values(tick_fn(ClearType::BeginningOfTurn)));
            lemma_tick_keeps_identity(ClearType::BeginningOfTurn);
            assert(self.wf());
            lemma_phase_decomposition(orig, ClearType::BeginningOfTurn);
        }
        self.return_creature_updates(&effects_to_remove)
    }

    /// Run the end-of-turn phase: the mirror of `begin_turn`.
    pub fn end_turn(&mut self) -> (r: CreatureUpdate)
        requires
            old(self).wf(),
        ensures
            final(self).wf(),
            final(self).turn_phase_applied(*old(self), ClearType::EndOfTurn),
            update_msgs(r) == expiry_messages(
                old(self).status_effects@,
                ClearType::EndOfTurn,
                old(self).name@,
            ),
            (r is NoUpdate) <==> expiry_messages(
                old(self).status_effects@,
                ClearType::EndOfTurn,
                old(self).name@,
            ).len() == 0,
    {
        let ghost orig = self.status_effects@;
        let mut effects_to_remove: Vec<usize> = Vec::new();
        let n = self.status_effects.len();
        for i in 0..n
            invariant
                n == orig.len(),
                self.status_effects@.len() == orig.len(),
                forall|j: int|
                    0 <= j < i ==> self.status_effects@[j] == phase_tick(
                        orig[j],
                        ClearType::EndOfTurn,
                    ),
                forall|j: int| i <= j < orig.len() ==> self.status_effects@[j] == orig[j],
                effects_to_remove@ == expired_ids(orig.take(i as int), ClearType::EndOfTurn),
                self.name == old(self).name,
                self.initiative == old(self).initiative,
                self.next_effect_id == old(self).next_effect_id,
        {
            proof {
                orig.lemma_take_succ_push(i as int);
                orig.take(i as int).lemma_filter_push(orig[i as int], expires_pred(ClearType::EndOfTurn));
                expired_effects(orig.take(i as int), ClearType::EndOfTurn)
                    .lemma_push_map_commute(|e: StatusEffect| e.id, orig[i as int]);
            }
            let status = self.status_effects[i].end_turn();
            match status {
                DurationStatus::NonExpired => {}
                DurationStatus::Expired => {
                    let id = self.status_effects[i].id();
                    effects_to_remove.push(id);
                }
            }
        }
        proof {
            orig.lemma_take_len();
            assert(self.status_effects@ =~= orig.map_values(tick_fn(ClearType::EndOfTurn)));
            lemma_tick_keeps_identity(ClearType::EndOfTurn);
            assert(self.wf());
            lemma_phase_decomposition(orig, ClearType::EndOfTurn);
        }
        self.return_creature_updates(&effects_to_remove)
    }

    /// Remove every effect whose id was collected, in attachment order, and
    /// build one expiry notification per removed effect. Ids are collected
    /// first and only then removed by id lookup, so that no removal happens
    /// while the effect list is being scanned.
    fn return_creature_updates(&mut self, effects_to_remove: &Vec<usize>) -> (r: CreatureUpdate)
        requires
            old(self).wf(),
        ensures
            final(self).wf(),
            final(self).name == old(self).name,
            final(self).initiative == old(self).initiative,
            final(self).next_effect_id == old(self).next_effect_id,
            final(self).status_effects@ == old(self).status_effects@.filter(
                id_not_in_pred(effects_to_remove@),
            ),
            update_msgs(r) == old(self).status_effects@.filter(
                id_in_pred(effects_to_remove@),
            ).map_values(message_fn(old(self).name@)),
            (r is NoUpdate) <==> old(self).status_effects@.filter(
                id_in_pred(effects_to_remove@),
            ).len() == 0,
    {
        let ghost orig = self.status_effects@;
        let ghost ids = effects_to_remove@;
        let mut updates: Vec<String> = Vec::new();
        let mut kept: Vec<StatusEffect> = Vec::new();
        let n = self.status_effects.len();
        for k in 0..n
            invariant
                n == orig.len(),
                self.status_effects@ == orig.skip(k as int),
                ids == effects_to_remove@,
                self.name == old(self).name,
                self.initiative == old(self).initiative,
                self.next_effect_id == old(self).next_effect_id,
                kept@ == orig.take(k as int).filter(id_not_in_pred(ids)),
                msgs_view(updates@) == orig.take(k as int).filter(id_in_pred(ids)).map_values(
                    message_fn(old(self).name@),
                ),
        {
            proof {
                assert(orig.skip(k as int)[0] == orig[k as int]);
                assert(orig.skip(k as int).remove(0) =~= orig.skip(k as int + 1));
                orig.lemma_take_succ_push(k as int);
                orig.take(k as int).lemma_filter_push(orig[k as int], id_in_pred(ids));
                orig.take(k as int).lemma_filter_push(orig[k as int], id_not_in_pred(ids));
            }
            let effect = self.status_effects.remove(0);
            let removed = contains_id(effects_to_remove, effect.id());
            if removed {
                let msg = make_expiry_message(effect.name(), self.name.as_str());
                proof {
                    orig.take(k as int).filter(id_in_pred(ids)).lemma_push_map_commute(
                        message_fn(old(self).name@),
                        orig[k as int],
                    );
                }
                updates.push(msg);
                proof {
                    assert(msgs_view(updates@) =~= orig.take(k as int + 1).filter(
                        id_in_pred(ids),
                    ).map_values(message_fn(old(self).name@)));
                }
            } else {
                kept.push(effect);
            }
        }
        proof {
            orig.lemma_take_len();
        }
        self.status_effects = kept;
        proof {
            lemma_filter_keeps_id_order(orig, id_not_in_pred(ids));
            assert forall|i: int|
                0 <= i < self.status_effects@.len()
                    implies #[trigger] self.status_effects@[i].id < self.next_effect_id by {
                let k = choose|k: int|
                    0 <= k < orig.len() && self.status_effects@[i] == orig[k];
            }
        }
        match updates.len() {
            0 => CreatureUpdate::NoUpdate,
            _ => CreatureUpdate::Updates(updates),
        }
    }
}

/// Predicate picking the indefinite effects.
pub open spec fn indefinite_pred() -> spec_fn(StatusEffect) -> bool {
    |e: StatusEffect| e.turns_left is Indefinite
}

/// An effect that one evaluation of `phase` expires is reported by message
/// and removed from the list, ids being unique.
proof fn lemma_expiring_effect_reported(
    s: Seq<StatusEffect>,
    i: int,
    phase: ClearType,
    creature_name: Seq<char>,
)
    requires
        0 <= i < s.len(),
        phase_expires(s[i], phase),
        forall|p: int, q: int| 0 <= p < q < s.len() ==> s[p].id < s[q].id,
    ensures
        expiry_messages(s, phase, creature_name).contains(
            expiry_message(s[i].effect_name@, creature_name),
        ),
        forall|j: int|
            0 <= j < effects_after_phase(s, phase).len()
                ==> (#[trigger] effects_after_phase(s, phase)[j]).id != s[i].id,
{
    lemma_tick_keeps_identity(phase);
    s.lemma_filter_contains(expires_pred(phase), i);
    let k = choose|k: int|
        0 <= k < expired_effects(s, phase).len() && expired_effects(s, phase)[k] == s[i];
    assert(expiry_messages(s, phase, creature_name)[k]
        == expiry_message(s[i].effect_name@, creature_name));
    assert forall|j: int|
        0 <= j < effects_after_phase(s, phase).len()
            implies (#[trigger] effects_after_phase(s, phase)[j]).id != s[i].id by {
        let f = s.filter(survives_pred(phase));
        assert(effects_after_phase(s, phase)[j] == phase_tick(f[j], phase));
        s.lemma_filter_pred(survives_pred(phase), j);
        lemma_filter_member_at(s, survives_pred(phase), j);
        let m = choose|m: int| 0 <= m < s.len() && f[j] == s[m];
        if s[m].id == s[i].id {
            assert(m == i);
        }
    }
}

/// A `Finite(1)`, `BeginningOfTurn` effect is reported expired on its
/// creature's very next beginning-of-turn evaluation: its stored countdown
/// is never decremented, its message is produced, and (ids being unique) it
/// is removed from the effect list.
pub proof fn lemma_finite_one_expires_at_begin(
    s: Seq<StatusEffect>,
    i: int,
    creature_name: Seq<char>,
)
    requires
        0 <= i < s.len(),
        s[i].turns_left == TurnsLeft::Finite(1usize),
        s[i].clear_type == ClearType::BeginningOfTurn,
        forall|p: int, q: int| 0 <= p < q < s.len() ==> s[p].id < s[q].id,
    ensures
        phase_status(s[i], ClearType::BeginningOfTurn) == DurationStatus::Expired,
        phase_tick(s[i], ClearType::BeginningOfTurn) == s[i],
        expiry_messages(s, ClearType::BeginningOfTurn, creature_name).contains(
            expiry_message(s[i].effect_name@, creature_name),
        ),
        forall|j: int|
            0 <= j < effects_after_phase(s, ClearType::BeginningOfTurn).len()
                ==> (#[trigger] effects_after_phase(s, ClearType::BeginningOfTurn)[j]).id
                    != s[i].id,
{
    lemma_expiring_effect_reported(s, i, ClearType::BeginningOfTurn, creature_name);
}

/// A `Finite(1)`, `EndOfTurn` effect is reported expired on its creature's
/// very next end-of-turn evaluation: the mirror of the boundary at
/// beginning of turn.
pub proof fn lemma_finite_one_expires_at_end(
    s: Seq<StatusEffect>,
    i: int,
    creature_name: Seq<char>,
)
    requires
        0 <= i < s.len(),
        s[i].turns_left == TurnsLeft::Finite(1usize),
        s[i].clear_type == ClearType::EndOfTurn,
        forall|p: int, q: int| 0 <= p < q < s.len() ==> s[p].id < s[q].id,
    ensures
        phase_status(s[i], ClearType::EndOfTurn) == DurationStatus::Expired,
        phase_tick(s[i], ClearType::EndOfTurn) == s[i],
        expiry_messages(s, ClearType::EndOfTurn, creature_name).contains(
            expiry_message(s[i].effect_name@, creature_name),
        ),
        forall|j: int|
            0 <= j < effects_after_phase(s, ClearType::EndOfTurn).len()
                ==> (#[trigger] effects_after_phase(s, ClearType::EndOfTurn)[j]).id != s[i].id,
{
    lemma_expiring_effect_reported(s, i, ClearType::EndOfTurn, creature_name);
}

/// Indefinite effects survive a phase evaluation untouched: the subsequence
/// of indefinite effects, in order, is the same before and after. Applied
/// once per call, this carries an indefinite effect unchanged through any
/// number of begin- and end-turn calls.
pub proof fn lemma_indefinite_effects_persist(s: Seq<StatusEffect>, phase: ClearType)
    ensures
        effects_after_phase(s, phase).filter(indefinite_pred()) == s.filter(indefinite_pred()),
    decreases s.len(),
{
    reveal(Seq::filter);
    if s.len() == 0 {
        assert(effects_after_phase(s, phase) =~= Seq::<StatusEffect>::empty());
    } else {
        let t = s.drop_last();
        let x = s.last();
        assert(s =~= t.push(x));
        lemma_indefinite_effects_persist(t, phase);
        t.lemma_filter_push(x, survives_pred(phase));
        t.lemma_filter_push(x, indefinite_pred());
        if phase_expires(x, phase) {
            assert(effects_after_phase(s, phase) == effects_after_phase(t, phase));
            assert(!indefinite_pred()(x));
        } else {
            t.filter(survives_pred(phase)).lemma_push_map_commute(tick_fn(phase), x);
            assert(effects_after_phase(s, phase)
                == effects_after_phase(t, phase).push(phase_tick(x, phase)));
            effects_after_phase(t, phase).lemma_filter_push(phase_tick(x, phase), indefinite_pred());
            if indefinite_pred()(x) {
                assert(phase_tick(x, phase) == x);
            } else {
                assert(!indefinite_pred()(phase_tick(x, phase)));
            }
        }
    }
}

/// A phase evaluation produces exactly one message per expired effect, in
/// the order the effects stand in the list, each message naming its effect
/// and the creature: two effects expiring in the same call yield exactly
/// two messages.
pub proof fn lemma_one_message_per_expired_effect(
    s: Seq<StatusEffect>,
    phase: ClearType,
    creature_name: Seq<char>,
)
    ensures
        expiry_messages(s, phase, creature_name).len() == expired_effects(s, phase).len(),
        forall|k: int|
            0 <= k < expired_effects(s, phase).len()
                ==> #[trigger] expiry_messages(s, phase, creature_name)[k] == expiry_message(
                    expired_effects(s, phase)[k].effect_name@,
                    creature_name,
                ),
{
}

/// The countdown shown for an effect: `∞` for an indefinite effect, the
/// remaining turns otherwise.
pub open spec fn turns_str(t: TurnsLeft) -> Seq<char> {
    match t {
        TurnsLeft::Indefinite => "∞"@,
        TurnsLeft::Finite(n) => dec_str(n as nat),
    }
}

/// One effect's rendering: its name and its countdown in brackets.
pub open spec fn effect_entry_str(e: StatusEffect) -> Seq<char> {
    e.effect_name@ + " ["@ + turns_str(e.turns_left) + "]"@
}

/// Comma-separated renderings of a list of effects.
pub open spec fn effects_list_str(s: Seq<StatusEffect>) -> Seq<char>
    decreases s.len(),
{
    if s.len() == 0 {
        Seq::empty()
    } else if s.len() == 1 {
        effect_entry_str(s[0])
    } else {
        effects_list_str(s.drop_last()) + ", "@ + effect_entry_str(s.last())
    }
}

/// A creature's rendering: its name, followed by its bracketed effect list
/// when at least one effect is active.
pub open spec fn creature_display_str(c: Creature) -> Seq<char> {
    if c.status_effects@.len() == 0 {
        c.name@
    } else {
        c.name@ + " ["@ + effects_list_str(c.status_effects@) + "]"@
    }
}

impl Creature {
    /// The bracketed, comma-separated list of active effects, or nothing
    /// when no effect is active.
    pub fn get_status_effects_display(&self) -> (r: Option<String>)
        ensures
            (r is None) <==> self.status_effects@.len() == 0,
            r matches Some(s) ==> s@ == " ["@ + effects_list_str(self.status_effects@) + "]"@,
    {
        if self.status_effects.is_empty() {
            return None;
        }
        let mut effects_str = String::from_str(" [");
        let n = self.status_effects.len();
        for i in 0..n
            invariant
                0 < n == self.status_effects@.len(),
                effects_str@ == " ["@ + (if i == 0 {
                    Seq::<char>::empty()
                } else {
                    effects_list_str(self.status_effects@.take(i as int)) + (if i < n {
                        ", "@
                    } else {
                        Seq::<char>::empty()
                    })
                }),
        {
            let effect = &self.status_effects[i];
            effects_str.append(effect.name());
            effects_str.append(" [");
            match *effect.turns_left() {
                TurnsLeft::Indefinite => {
                    effects_str.append("∞");
                }
                TurnsLeft::Finite(num) => {
                    let digits = usize_to_string(num);
                    effects_str.append(digits.as_str());
                }
            }
            effects_str.append("]");
            if i < n - 1 {
                effects_str.append(", ");
            }
            proof {
                let s = self.status_effects@;
                s.lemma_take_succ_push(i as int);
                assert(s.take(i as int + 1).drop_last() =~= s.take(i as int));
                assert(effects_str@ == " ["@ + (effects_list_str(s.take(i as int + 1)) + (if i + 1
                    < n {
                    ", "@
                } else {
                    Seq::<char>::empty()
                }))) by {
                    if i == 0 && n == 1 {
                        assert(effects_str@ =~= " ["@ + effect_entry_str(s[0]));
                        assert(effects_list_str(s.take(1)) == effect_entry_str(s.take(1)[0]));
                    } else if i == 0 {
                        assert(effects_str@ =~= " ["@ + effect_entry_str(s[0]) + ", "@);
                        assert(effects_list_str(s.take(1)) == effect_entry_str(s.take(1)[0]));
                    } else {
                        assert(effects_list_str(s.take(i as int + 1)) == effects_list_str(
                            s.take(i as int),
                        ) + ", "@ + effect_entry_str(s[i as int]));
                        if i + 1 < n {
                            assert(effects_str@ =~= " ["@ + (effects_list_str(s.take(i as int))
                                + ", "@ + effect_entry_str(s[i as int])) + ", "@);
                        } else {
                            assert(effects_str@ =~= " ["@ + (effects_list_str(s.take(i as int))
                                + ", "@ + effect_entry_str(s[i as int])));
                        }
                    }
                }
            }
        }
        proof {
            self.status_effects@.lemma_take_len();
        }
        effects_str.append("]");
        Some(effects_str)
    }

    /// The creature's full rendering: its name, then its active effects.
    pub fn to_display_string(&self) -> (r: String)
        ensures
            r@ == creature_display_str(*self),
    {
        let mut creature_str = String::new();
        creature_str.append(self.name());
        match self.get_status_effects_display() {
            Some(effects) => {
                creature_str.append(effects.as_str());
            }
            None => {}
        }
        proof {
            assert(creature_str@ =~= creature_display_str(*self));
        }
        creature_str
    }
}

/// Builds the notification for one expired effect.
fn make_expiry_message(effect_name: &str, creature_name: &str) -> (r: String)
    ensures
        r@ == expiry_message(effect_name@, creature_name@),
{
    let mut s = String::from_str(effect_name);
    s.append(" has expired for creature ");
    s.append(creature_name);
    s.append(".");
    proof {
        assert(s@ =~= expiry_message(effect_name@, creature_name@));
    }
    s
}

/// Linear membership test for an id in a list of ids.
fn contains_id(ids: &Vec<usize>, id: usize) -> (r: bool)
    ensures
        r == ids@.contains(id),
{
    let n = ids.len();
    for i in 0..n
        invariant
            n == ids@.len(),
            forall|j: int| 0 <= j < i ==> ids@[j] != id,
    {
        if ids[i] == id {
            return true;
        }
    }
    false
}

} // verus!
