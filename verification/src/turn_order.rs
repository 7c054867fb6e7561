//! The creature roster and the two-phase turn-advance protocol.
//!
//! The roster is kept sorted by descending initiative, ties keeping their
//! insertion order. A cursor points at the creature whose turn is active;
//! advancing a turn runs end-of-turn processing on the outgoing creature,
//! moves the cursor with wraparound, and runs begin-of-turn processing on
//! the incoming creature. Removing a creature deliberately does not
//! adjust the cursor, so the cursor can be left pointing past the end of
//! a shrunken roster; advancing the turn then reports an error naming the
//! bad index instead of acting.

use vstd::prelude::*;
use vstd::string::StringExecFns;

use crate::creature::Creature;
use crate::creature::CreatureUpdate;
use crate::creature::creature_display_str;
use crate::creature::expiry_messages;
use crate::creature::msgs_view;
use crate::status_effect::ClearType;
use crate::status_effect::StatusEffect;
use crate::status_effect::TurnsLeft;
use crate::text::dec_str;
use crate::text::int_str;
use crate::text::isize_to_string;
use crate::text::usize_to_string;

verus! {

/// The roster, sorted by descending initiative, and the cursor of the
/// active creature (0-based internally, displayed 1-based).
pub struct TurnOrder {
    pub creatures: Vec<Creature>,
    // This is 0 based but will be displayed as 1 based
    pub current_turn: usize,
}

/// Initiative never increases along the roster.
pub open spec fn sorted_desc(s: Seq<Creature>) -> bool {
    forall|i: int, j: int| 0 <= i < j < s.len() ==> s[i].initiative >= s[j].initiative
}

/// `s2` is `s1` with `c` inserted at position `p`.
pub open spec fn inserted_at(s2: Seq<Creature>, s1: Seq<Creature>, p: int, c: Creature) -> bool {
    &&& s2.len() == s1.len() + 1
    &&& 0 <= p <= s1.len()
    &&& forall|j: int| 0 <= j < p ==> s2[j] == s1[j]
    &&& s2[p] == c
    &&& forall|j: int| p < j < s2.len() ==> s2[j] == s1[j - 1]
}

/// The position where a creature of the given initiative is inserted: the
/// first index whose initiative is strictly lower, or the end. Placing the
/// newcomer there puts it after every creature of equal or higher
/// initiative, which is what keeps ties in insertion order.
pub open spec fn insertion_point(s: Seq<Creature>, initiative: isize) -> int
    decreases s.len(),
{
    if s.len() == 0 {
        0
    } else if s[0].initiative < initiative {
        0
    } else {
        1 + insertion_point(s.drop_first(), initiative)
    }
}

/// The insertion point is the first index of strictly lower initiative.
pub proof fn lemma_insertion_point_properties(s: Seq<Creature>, initiative: isize)
    ensures
        0 <= insertion_point(s, initiative) <= s.len(),
        forall|j: int| 0 <= j < insertion_point(s, initiative) ==> s[j].initiative >= initiative,
        insertion_point(s, initiative) < s.len()
            ==> s[insertion_point(s, initiative)].initiative < initiative,
    decreases s.len(),
{
    if s.len() > 0 && !(s[0].initiative < initiative) {
        let t = s.drop_first();
        lemma_insertion_point_properties(t, initiative);
        assert forall|j: int|
            0 <= j < insertion_point(s, initiative) implies s[j].initiative >= initiative by {
            if j > 0 {
                assert(t[j - 1] == s[j]);
            }
        }
        if insertion_point(s, initiative) < s.len() {
            assert(t[insertion_point(t, initiative)] == s[insertion_point(s, initiative)]);
        }
    }
}

/// Law of roster ordering: appending a creature and moving it back to the
/// insertion point for its initiative yields a roster sorted by descending
/// initiative, and the newcomer stands after every creature of equal or
/// higher initiative, so creatures of equal initiative keep their relative
/// insertion order.
pub proof fn lemma_roster_order_after_add(s: Seq<Creature>, c: Creature, s2: Seq<Creature>)
    requires
        sorted_desc(s),
        inserted_at(s2, s, insertion_point(s, c.initiative), c),
    ensures
        sorted_desc(s2),
        forall|j: int|
            0 <= j < insertion_point(s, c.initiative) ==> s2[j].initiative >= c.initiative,
        forall|j: int|
            insertion_point(s, c.initiative) < j < s2.len() ==> s2[j].initiative < c.initiative,
{
    let p = insertion_point(s, c.initiative);
    lemma_insertion_point_properties(s, c.initiative);
    assert forall|j: int| p < j < s2.len() implies s2[j].initiative < c.initiative by {
        assert(s2[j] == s[j - 1]);
        assert(s[p].initiative < c.initiative);
        if j - 1 > p {
            assert(s[p].initiative >= s[j - 1].initiative);
        }
    }
    assert forall|i: int, j: int| 0 <= i < j < s2.len() implies s2[i].initiative >= s2[j].initiative by {
        if i < p && j < p {
        } else if i < p && j == p {
        } else if i < p && j > p {
            assert(s2[i] == s[i] && s2[j] == s[j - 1]);
        } else if i == p {
        } else {
            assert(s2[i] == s[i - 1] && s2[j] == s[j - 1]);
        }
    }
}

/// Removing an element keeps the roster sorted.
proof fn lemma_sorted_remove(s: Seq<Creature>, i: int)
    requires
        sorted_desc(s),
        0 <= i < s.len(),
    ensures
        sorted_desc(s.remove(i)),
{
    let r = s.remove(i);
    assert forall|p: int, q: int| 0 <= p < q < r.len() implies r[p].initiative >= r[q].initiative by {
        let p0 = if p < i { p } else { p + 1 };
        let q0 = if q < i { q } else { q + 1 };
        assert(r[p] == s[p0] && r[q] == s[q0]);
    }
}

/// Re-sorting an already sorted roster puts the popped last creature back
/// where it was.
proof fn lemma_reorder_identity(s: Seq<Creature>, s2: Seq<Creature>)
    requires
        sorted_desc(s),
        s.len() > 0,
        inserted_at(
            s2,
            s.drop_last(),
            insertion_point(s.drop_last(), s.last().initiative),
            s.last(),
        ),
    ensures
        s2 == s,
{
    let t = s.drop_last();
    let c = s.last();
    let p = insertion_point(t, c.initiative);
    lemma_insertion_point_properties(t, c.initiative);
    if p < t.len() {
        assert(t[p] == s[p]);
        assert(s[p].initiative >= s[s.len() - 1].initiative);
        assert(false);
    }
    assert(s2 =~= s);
}

/// The cursor after one advance: one step forward, wrapping to the front
/// past the last creature.
pub open spec fn next_cursor(ct: int, len: int) -> int {
    if ct + 1 >= len {
        0
    } else {
        ct + 1
    }
}

/// Law of wraparound: after the creature last in roster order finishes its
/// turn the cursor moves to the first creature; it never moves past the
/// end of the roster.
pub proof fn lemma_cursor_wraps(ct: int, len: int)
    requires
        0 <= ct < len,
    ensures
        0 <= next_cursor(ct, len) < len,
        ct == len - 1 ==> next_cursor(ct, len) == 0,
        ct < len - 1 ==> next_cursor(ct, len) == ct + 1,
{
}

/// The rosters `s1` and `s2` agree except that the creature at `i` has
/// gone through one evaluation of `phase`.
pub open spec fn roster_phase_step(
    s1: Seq<Creature>,
    s2: Seq<Creature>,
    i: int,
    phase: ClearType,
) -> bool {
    &&& s2.len() == s1.len()
    &&& 0 <= i < s1.len()
    &&& forall|j: int| 0 <= j < s1.len() && j != i ==> s2[j] == s1[j]
    &&& s2[i].turn_phase_applied(s1[i], phase)
}

/// One roster line: bracketed 1-based position, the current-turn marker
/// when `current` holds, the initiative, and the creature's own rendering.
pub open spec fn creature_line_str(c: Creature, num: nat, current: bool) -> Seq<char> {
    "["@ + dec_str(num) + "] "@ + (if current {
        "[CURRENT TURN] "@
    } else {
        Seq::<char>::empty()
    }) + "I:"@ + int_str(c.initiative as int) + " "@ + creature_display_str(c) + "\n"@
}

/// The first `k` roster lines, cursor at `ct`.
pub open spec fn roster_prefix_str(s: Seq<Creature>, ct: int, k: int) -> Seq<char>
    decreases k,
{
    if k <= 0 {
        Seq::empty()
    } else {
        roster_prefix_str(s, ct, k - 1) + creature_line_str(s[k - 1], k as nat, k - 1 == ct)
    }
}

/// The full roster rendering, line by line.
pub open spec fn roster_display_str(t: TurnOrder) -> Seq<char> {
    roster_prefix_str(t.creatures@, t.current_turn as int, t.creatures@.len() as int)
}

/// The error text when no creature stands at the cursor.
pub open spec fn advance_error_message(index: nat) -> Seq<char> {
    "Error advancing turn: no creature found at index "@ + dec_str(index)
}

/// The first index whose initiative is strictly below `initiative`, or the
/// roster length.
fn find_insertion_index(creatures: &Vec<Creature>, initiative: isize) -> (p: usize)
    ensures
        p as int == insertion_point(creatures@, initiative),
{
    let n = creatures.len();
    let mut p: usize = 0;
    while p < n && creatures[p].initiative() >= initiative
        invariant
            p <= n,
            n == creatures@.len(),
            forall|j: int| 0 <= j < p ==> creatures@[j].initiative >= initiative,
        decreases n - p,
    {
        p += 1;
    }
    proof {
        lemma_insertion_point_properties(creatures@, initiative);
        let q = insertion_point(creatures@, initiative);
        if (p as int) < q {
            assert(creatures@[p as int].initiative >= initiative);
            assert(false);
        }
        if q < p as int {
            assert(creatures@[q].initiative >= initiative);
            assert(false);
        }
    }
    p
}

impl TurnOrder {
    /// Well-formedness: the roster is sorted by descending initiative and
    /// every creature is well formed. The cursor is deliberately not
    /// constrained: removing a creature never adjusts it, so it can point
    /// past the end of a shrunken roster, and `next_turn` then reports an
    /// error rather than acting.
    pub open spec fn wf(self) -> bool {
        &&& sorted_desc(self.creatures@)
        &&& forall|i: int| 0 <= i < self.creatures@.len() ==> (#[trigger] self.creatures@[i]).wf()
    }

    pub fn new() -> (t: TurnOrder)
        ensures
            t.wf(),
            t.creatures@ == Seq::<Creature>::empty(),
            t.current_turn == 0,
    {
        TurnOrder { creatures: Vec::new(), current_turn: 0 }
    }

    /// Insert a creature, keeping the roster sorted by descending
    /// initiative; a tie goes after the creatures already present.
    pub fn add_creature(&mut self, name: String, initiative: isize)
        requires
            old(self).wf(),
        ensures
            final(self).wf(),
            final(self).current_turn == old(self).current_turn,
            ({
                let p = insertion_point(old(self).creatures@, initiative);
                let c = final(self).creatures@[p];
                &&& inserted_at(final(self).creatures@, old(self).creatures@, p, c)
                &&& c.name == name
                &&& c.initiative == initiative
                &&& c.status_effects@ == Seq::<StatusEffect>::empty()
                &&& c.next_effect_id == 0
            }),
    {
        let ghost pre = self.creatures@;
        self.creatures.push(Creature::new(name, initiative));
        proof {
            assert(self.creatures@.drop_last() =~= pre);
        }
        self.reorder_creatures();
        proof {
            let p = insertion_point(pre, initiative);
            let c = self.creatures@[p];
            lemma_roster_order_after_add(pre, c, self.creatures@);
            assert forall|i: int|
                0 <= i < self.creatures@.len() implies (#[trigger] self.creatures@[i]).wf() by {
                if i < p {
                    assert(self.creatures@[i] == pre[i]);
                } else if i > p {
                    assert(self.creatures@[i] == pre[i - 1]);
                }
            }
        }
    }

    /// Remove the creature at a 0-based index into the current sorted
    /// roster. The cursor is not adjusted to compensate. Re-sorting after a
    /// removal is a no-op kept for symmetry with insertion.
    pub fn remove_creature(&mut self, creature_index: usize) -> (r: Result<(), &'static str>)
        requires
            old(self).wf(),
        ensures
            final(self).wf(),
            final(self).current_turn == old(self).current_turn,
            creature_index < old(self).creatures@.len() ==> r is Ok && final(self).creatures@
                == old(self).creatures@.remove(creature_index as int),
            creature_index >= old(self).creatures@.len() ==> r is Err && final(self).creatures@
                == old(self).creatures@,
            r matches Err(m) ==> m@ == "Creature index out of range."@,
    {
        match self.creature_num_valid(creature_index) {
            Ok(_) => {}
            Err(e) => {
                return Err(e);
            }
        }
        let ghost pre = self.creatures@;
        self.creatures.remove(creature_index);
        proof {
            lemma_sorted_remove(pre, creature_index as int);
            assert(self.creatures@.len() == 0 || sorted_desc(self.creatures@.drop_last()))
            by {
                if self.creatures@.len() > 0 {
                    let d = self.creatures@.drop_last();
                    assert forall|i: int, j: int|
                        0 <= i < j < d.len() implies d[i].initiative >= d[j].initiative by {
                        assert(d[i] == self.creatures@[i] && d[j] == self.creatures@[j]);
                    }
                }
            }
        }
        let ghost removed = self.creatures@;
        self.reorder_creatures();
        proof {
            if removed.len() > 0 {
                lemma_reorder_identity(removed, self.creatures@);
            } else {
                assert(self.creatures@ =~= removed);
            }
            assert forall|i: int|
                0 <= i < self.creatures@.len() implies (#[trigger] self.creatures@[i]).wf() by {
                let i0 = if i < creature_index as int { i } else { i + 1 };
                assert(self.creatures@[i] == pre[i0]);
            }
        }
        Ok(())
    }

    pub fn creatures(&self) -> (r: &Vec<Creature>)
        ensures
            r@ == self.creatures@,
    {
        &self.creatures
    }

    /// Pure validation of a 0-based roster index.
    pub fn creature_num_valid(&self, index: usize) -> (r: Result<(), &'static str>)
        ensures
            (r is Ok) <==> index < self.creatures@.len(),
            r matches Err(m) ==> m@ == "Creature index out of range."@,
    {
        if index >= self.creatures.len() {
            return Err("Creature index out of range.");
        }
        Ok(())
    }

    /// Attach an indefinite status effect to the creature at a 0-based
    /// index; an invalid index fails without touching any state.
    pub fn add_status_effect(&mut self, creature_num: usize, effect_name: String) -> (r: Result<
        (),
        &'static str,
    >)
        requires
            old(self).wf(),
            creature_num < old(self).creatures@.len()
                ==> old(self).creatures@[creature_num as int].next_effect_id < usize::MAX,
        ensures
            final(self).wf(),
            final(self).current_turn == old(self).current_turn,
            creature_num >= old(self).creatures@.len() ==> r is Err && final(self).creatures@
                == old(self).creatures@,
            r matches Err(m) ==> m@ == "Index out of bounds"@,
            creature_num < old(self).creatures@.len() ==> r is Ok && ({
                let pre = old(self).creatures@[creature_num as int];
                let post = final(self).creatures@[creature_num as int];
                &&& final(self).creatures@.len() == old(self).creatures@.len()
                &&& forall|j: int|
                    0 <= j < old(self).creatures@.len() && j != creature_num
                        ==> final(self).creatures@[j] == old(self).creatures@[j]
                &&& post.name == pre.name
                &&& post.initiative == pre.initiative
                &&& post.next_effect_id == pre.next_effect_id + 1
                &&& post.status_effects@ == pre.status_effects@.push(
                    (StatusEffect {
                        id: pre.next_effect_id,
                        effect_name: effect_name,
                        turns_left: TurnsLeft::Indefinite,
                        clear_type: ClearType::BeginningOfTurn,
                    }),
                )
            }),
    {
        if creature_num >= self.creatures.len() {
            return Err("Index out of bounds");
        }
        self.creatures[creature_num].add_status_effect(effect_name);
        proof {
            self.lemma_wf_after_effect_change(*old(self), creature_num as int);
        }
        Ok(())
    }

    /// Attach a finite status effect to the creature at a 0-based index;
    /// an invalid index fails without touching any state.
    pub fn add_status_effect_timed(
        &mut self,
        creature_num: usize,
        effect_name: String,
        duration: usize,
        clear_type: ClearType,
    ) -> (r: Result<(), &'static str>)
        requires
            old(self).wf(),
            creature_num < old(self).creatures@.len()
                ==> old(self).creatures@[creature_num as int].next_effect_id < usize::MAX,
        ensures
            final(self).wf(),
            final(self).current_turn == old(self).current_turn,
            creature_num >= old(self).creatures@.len() ==> r is Err && final(self).creatures@
                == old(self).creatures@,
            r matches Err(m) ==> m@ == "Index out of bounds"@,
            creature_num < old(self).creatures@.len() ==> r is Ok && ({
                let pre = old(self).creatures@[creature_num as int];
                let post = final(self).creatures@[creature_num as int];
                &&& final(self).creatures@.len() == old(self).creatures@.len()
                &&& forall|j: int|
                    0 <= j < old(self).creatures@.len() && j != creature_num
                        ==> final(self).creatures@[j] == old(self).creatures@[j]
                &&& post.name == pre.name
                &&& post.initiative == pre.initiative
                &&& post.next_effect_id == pre.next_effect_id + 1
                &&& post.status_effects@ == pre.status_effects@.push(
                    (StatusEffect {
                        id: pre.next_effect_id,
                        effect_name: effect_name,
                        turns_left: TurnsLeft::Finite(duration),
                        clear_type: clear_type,
                    }),
                )
            }),
    {
        if creature_num >= self.creatures.len() {
            return Err("Index out of bounds");
        }
        self.creatures[creature_num].add_status_effect_timed(effect_name, duration, clear_type);
        proof {
            self.lemma_wf_after_effect_change(*old(self), creature_num as int);
        }
        Ok(())
    }

    /// A change confined to one creature's effects and id counter keeps
    /// the roster sorted, and keeps it well formed when that creature is.
    proof fn lemma_wf_after_effect_change(self, pre: TurnOrder, i: int)
        requires
            pre.wf(),
            self.creatures@.len() == pre.creatures@.len(),
            0 <= i < pre.creatures@.len(),
            forall|j: int|
                0 <= j < pre.creatures@.len() && j != i
                    ==> self.creatures@[j] == pre.creatures@[j],
            self.creatures@[i].initiative == pre.creatures@[i].initiative,
            self.creatures@[i].wf(),
        ensures
            self.wf(),
    {
        assert forall|p: int, q: int|
            0 <= p < q < self.creatures@.len()
                implies self.creatures@[p].initiative >= self.creatures@[q].initiative by {
            assert(pre.creatures@[p].initiative >= pre.creatures@[q].initiative);
        }
    }

    /// Advance the turn: end-of-turn processing on the outgoing creature,
    /// one cursor step with wraparound, then begin-of-turn processing on
    /// the incoming creature. The combined expiry messages come back in
    /// that order. With no creature at the cursor (empty or shrunken
    /// roster) an error names the bad index and nothing changes.
    pub fn next_turn(&mut self) -> (r: Result<Vec<String>, String>)
        requires
            old(self).wf(),
        ensures
            final(self).wf(),
            old(self).current_turn >= old(self).creatures@.len() ==> ({
                &&& r is Err
                &&& final(self).creatures@ == old(self).creatures@
                &&& final(self).current_turn == old(self).current_turn
            }),
            r matches Err(m) ==> m@ == advance_error_message(old(self).current_turn as nat),
            old(self).current_turn < old(self).creatures@.len() ==> ({
                let pre = old(self).creatures@;
                let ct = old(self).current_turn as int;
                let nct = next_cursor(ct, pre.len() as int);
                &&& final(self).current_turn == nct
                &&& r matches Ok(msgs) && (exists|mid: Seq<Creature>|
                    {
                        &&& #[trigger] roster_phase_step(pre, mid, ct, ClearType::EndOfTurn)
                        &&& roster_phase_step(
                            mid,
                            final(self).creatures@,
                            nct,
                            ClearType::BeginningOfTurn,
                        )
                        &&& msgs_view(msgs@) == expiry_messages(
                            pre[ct].status_effects@,
                            ClearType::EndOfTurn,
                            pre[ct].name@,
                        ) + expiry_messages(
                            mid[nct].status_effects@,
                            ClearType::BeginningOfTurn,
                            mid[nct].name@,
                        )
                    })
            }),
    {
        let mut all_updates: Vec<String> = Vec::new();
        // Call end turn on current creature and begin turn on the next
        if self.current_turn >= self.creatures.len() {
            let index = self.current_turn;
            let mut m = String::from_str("Error advancing turn: no creature found at index ");
            let digits = usize_to_string(index);
            m.append(digits.as_str());
            return Err(m);
        }
        let ghost pre = self.creatures@;
        let ct = self.current_turn;
        match self.creatures[ct].end_turn() {
            CreatureUpdate::Updates(mut creature_updates) => {
                all_updates.append(&mut creature_updates);
            }
            CreatureUpdate::NoUpdate => {}
        }
        proof {
            assert(msgs_view(all_updates@) =~= expiry_messages(
                pre[ct as int].status_effects@,
                ClearType::EndOfTurn,
                pre[ct as int].name@,
            ));
            assert forall|p: int, q: int|
                0 <= p < q < self.creatures@.len()
                    implies self.creatures@[p].initiative >= self.creatures@[q].initiative by {
                assert(pre[p].initiative >= pre[q].initiative);
            }
            assert(roster_phase_step(pre, self.creatures@, ct as int, ClearType::EndOfTurn));
        }
        let ghost mid = self.creatures@;
        self.increase_turn_counter();
        if self.current_turn >= self.creatures.len() {
            // Unreachable: the cursor always lands on a valid index here.
            let index = self.current_turn;
            let mut m = String::from_str("Error advancing turn: no creature found at index ");
            let digits = usize_to_string(index);
            m.append(digits.as_str());
            return Err(m);
        }
        let nct = self.current_turn;
        let ghost before_begin = all_updates@;
        match self.creatures[nct].begin_turn() {
            CreatureUpdate::Updates(mut creature_updates) => {
                all_updates.append(&mut creature_updates);
            }
            CreatureUpdate::NoUpdate => {}
        }
        proof {
            assert(msgs_view(all_updates@) =~= msgs_view(before_begin) + expiry_messages(
                mid[nct as int].status_effects@,
                ClearType::BeginningOfTurn,
                mid[nct as int].name@,
            ));
            assert forall|p: int, q: int|
                0 <= p < q < self.creatures@.len()
                    implies self.creatures@[p].initiative >= self.creatures@[q].initiative by {
                assert(mid[p].initiative >= mid[q].initiative);
            }
            assert(roster_phase_step(mid, self.creatures@, nct as int, ClearType::BeginningOfTurn));
        }
        Ok(all_updates)
    }

    /// Render the whole roster: one line per creature in roster order,
    /// with its 1-based position, the current-turn marker exactly on the
    /// creature at the cursor, its initiative, and its active effects. All
    /// text is derived fresh from the live roster and cursor.
    pub fn to_display_string(&self) -> (r: String)
        ensures
            r@ == roster_display_str(*self),
    {
        let mut turn_order_str = String::new();
        let n = self.creatures.len();
        for i in 0..n
            invariant
                n == self.creatures@.len(),
                turn_order_str@ == roster_prefix_str(
                    self.creatures@,
                    self.current_turn as int,
                    i as int,
                ),
        {
            let creature = &self.creatures[i];
            turn_order_str.append("[");
            let num = usize_to_string(i + 1);
            turn_order_str.append(num.as_str());
            turn_order_str.append("] ");
            if i == self.current_turn {
                turn_order_str.append("[CURRENT TURN] ");
            }
            turn_order_str.append("I:");
            let init = isize_to_string(creature.initiative());
            turn_order_str.append(init.as_str());
            turn_order_str.append(" ");
            let line = creature.to_display_string();
            turn_order_str.append(line.as_str());
            turn_order_str.append("\n");
            proof {
                assert(turn_order_str@ =~= roster_prefix_str(
                    self.creatures@,
                    self.current_turn as int,
                    i as int + 1,
                ));
            }
        }
        turn_order_str
    }

    /// Restore descending order after an append: the last creature moves
    /// back to its insertion point, behind every equal or higher
    /// initiative. On an already sorted roster this is a no-op.
    fn reorder_creatures(&mut self)
        requires
            old(self).creatures@.len() == 0 || sorted_desc(old(self).creatures@.drop_last()),
        ensures
            final(self).current_turn == old(self).current_turn,
            old(self).creatures@.len() == 0 ==> final(self).creatures@ == old(self).creatures@,
            old(self).creatures@.len() > 0 ==> inserted_at(
                final(self).creatures@,
                old(self).creatures@.drop_last(),
                insertion_point(
                    old(self).creatures@.drop_last(),
                    old(self).creatures@.last().initiative,
                ),
                old(self).creatures@.last(),
            ),
            sorted_desc(final(self).creatures@),
    {
        if self.creatures.len() == 0 {
            return;
        }
        let x = self.creatures.pop().unwrap();
        let initiative = x.initiative();
        let p = find_insertion_index(&self.creatures, initiative);
        let ghost t = self.creatures@;
        proof {
            lemma_insertion_point_properties(t, initiative);
        }
        self.creatures.insert(p, x);
        proof {
            let s2 = self.creatures@;
            t.insert_ensures(p as int, x);
            assert forall|j: int| p < j < s2.len() implies s2[j] == t[j - 1] by {
                assert(t.insert(p as int, x)[(j - 1) + 1] == t[j - 1]);
            }
            assert(inserted_at(s2, t, p as int, x));
            lemma_roster_order_after_add(t, x, s2);
        }
    }

    /// One cursor step with wraparound; meaningful only while the cursor
    /// is on a live creature.
    fn increase_turn_counter(&mut self)
        requires
            old(self).current_turn < old(self).creatures@.len(),
        ensures
            final(self).creatures@ == old(self).creatures@,
            final(self).current_turn as int == next_cursor(
                old(self).current_turn as int,
                old(self).creatures@.len() as int,
            ),
    {
        let n = self.creatures.len();
        self.current_turn += 1;
        if self.current_turn >= n {
            self.current_turn = 0;
        }
    }
}

} // verus!
