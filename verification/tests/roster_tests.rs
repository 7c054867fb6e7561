use turn_order::creature::CreatureUpdate;
use turn_order::status_effect::ClearType;
use turn_order::turn_order::TurnOrder;

#[test]
fn new_roster_is_empty() {
    let order = TurnOrder::new();
    assert_eq!(order.creatures().len(), 0);
    assert_eq!(order.to_display_string(), String::new());
}

#[test]
fn roster_sorted_descending_with_stable_ties() {
    let mut order = TurnOrder::new();
    order.add_creature(String::from("A"), 5);
    order.add_creature(String::from("B"), 10);
    order.add_creature(String::from("C"), 5);
    order.add_creature(String::from("D"), 7);
    let names: Vec<&str> = order.creatures().iter().map(|c| c.name()).collect();
    assert_eq!(names, vec!["B", "D", "A", "C"]);
    let initiatives: Vec<isize> = order.creatures().iter().map(|c| c.initiative()).collect();
    assert_eq!(initiatives, vec![10, 7, 5, 5]);
}

#[test]
fn roster_stays_sorted_after_each_insertion() {
    let mut order = TurnOrder::new();
    let rolls: Vec<isize> = vec![3, -1, 7, 3, 0, 7, -5, 3];
    for (i, roll) in rolls.iter().enumerate() {
        order.add_creature(format!("c{i}"), *roll);
        let inits: Vec<isize> = order.creatures().iter().map(|c| c.initiative()).collect();
        for w in inits.windows(2) {
            assert!(w[0] >= w[1]);
        }
    }
    // among the three creatures rolling 3, insertion order is kept
    let tied: Vec<&str> = order
        .creatures()
        .iter()
        .filter(|c| c.initiative() == 3)
        .map(|c| c.name())
        .collect();
    assert_eq!(tied, vec!["c0", "c3", "c7"]);
}

#[test]
fn remove_creature_keeps_order() {
    let mut order = TurnOrder::new();
    order.add_creature(String::from("A"), 1);
    order.add_creature(String::from("B"), 2);
    order.add_creature(String::from("C"), 3);
    assert!(order.remove_creature(1).is_ok());
    let names: Vec<&str> = order.creatures().iter().map(|c| c.name()).collect();
    assert_eq!(names, vec!["C", "A"]);
}

#[test]
fn invalid_index_operations_fail_without_mutation() {
    let mut order = TurnOrder::new();
    order.add_creature(String::from("Alice"), 3);
    assert_eq!(order.remove_creature(1), Err("Creature index out of range."));
    assert_eq!(
        order.add_status_effect(1, String::from("Stunned")),
        Err("Index out of bounds")
    );
    assert_eq!(
        order.add_status_effect_timed(5, String::from("Slowed"), 2, ClearType::BeginningOfTurn),
        Err("Index out of bounds")
    );
    assert_eq!(order.creatures().len(), 1);
    assert_eq!(order.creatures()[0].name(), "Alice");
    assert!(order.creatures()[0].get_status_effects_display().is_none());
}

#[test]
fn creature_num_valid_matches_roster_length() {
    let mut order = TurnOrder::new();
    assert!(order.creature_num_valid(0).is_err());
    order.add_creature(String::from("Alice"), 3);
    assert!(order.creature_num_valid(0).is_ok());
    assert_eq!(order.creature_num_valid(1), Err("Creature index out of range."));
}

#[test]
fn advance_turn_on_empty_roster_fails() {
    let mut order = TurnOrder::new();
    let r = order.next_turn();
    assert_eq!(
        r,
        Err(String::from(
            "Error advancing turn: no creature found at index 0"
        ))
    );
}

#[test]
fn cursor_wraps_to_front_after_last_creature() {
    let mut order = TurnOrder::new();
    order.add_creature(String::from("First"), 9);
    order.add_creature(String::from("Second"), 4);
    assert!(order.next_turn().is_ok());
    let mid = order.to_display_string();
    assert!(mid.lines().nth(1).unwrap().contains("[CURRENT TURN]"));
    assert!(order.next_turn().is_ok());
    let back = order.to_display_string();
    assert!(back.lines().next().unwrap().contains("[CURRENT TURN]"));
    assert!(!back.lines().nth(1).unwrap().contains("[CURRENT TURN]"));
}

#[test]
fn single_creature_roster_wraps_onto_itself() {
    let mut order = TurnOrder::new();
    order.add_creature(String::from("Solo"), 1);
    order
        .add_status_effect_timed(0, String::from("Dazed"), 2, ClearType::BeginningOfTurn)
        .unwrap();
    // end-of-turn does nothing to it; begin-of-turn decrements 2 -> 1
    assert_eq!(order.next_turn(), Ok(vec![]));
    assert!(order
        .to_display_string()
        .contains("[1] [CURRENT TURN] I:1 Solo [Dazed [1]]"));
    // next round: begin-of-turn finds 1 turn left and expires it
    assert_eq!(
        order.next_turn(),
        Ok(vec![String::from(
            "Dazed has expired for creature Solo."
        )])
    );
    assert_eq!(order.to_display_string(), String::from("[1] [CURRENT TURN] I:1 Solo\n"));
}

#[test]
fn scenario_poisoned_expires_when_jeremy_ends_his_turn() {
    let mut order = TurnOrder::new();
    order.add_creature(String::from("Arthur"), 10);
    order.add_creature(String::from("Jeremy"), 5);
    let names: Vec<&str> = order.creatures().iter().map(|c| c.name()).collect();
    assert_eq!(names, vec!["Arthur", "Jeremy"]);
    order
        .add_status_effect_timed(1, String::from("Poisoned"), 1, ClearType::EndOfTurn)
        .unwrap();
    // Arthur ends, Jeremy begins: Poisoned only ticks on end of turn
    assert_eq!(order.next_turn(), Ok(vec![]));
    // Jeremy ends, Arthur begins: Poisoned expires now
    assert_eq!(
        order.next_turn(),
        Ok(vec![String::from(
            "Poisoned has expired for creature Jeremy."
        )])
    );
    assert!(order.creatures()[1].get_status_effects_display().is_none());
}

#[test]
fn stale_cursor_after_removal_reports_the_bad_index() {
    let mut order = TurnOrder::new();
    order.add_creature(String::from("A"), 10);
    order.add_creature(String::from("B"), 5);
    assert!(order.next_turn().is_ok());
    // cursor sits on index 1; removing the creature before it leaves the
    // cursor untouched, now past the end of the shrunken roster
    assert!(order.remove_creature(0).is_ok());
    assert!(order.remove_creature(0).is_ok());
    order.add_creature(String::from("C"), 1);
    assert_eq!(
        order.next_turn(),
        Err(String::from(
            "Error advancing turn: no creature found at index 1"
        ))
    );
}

#[test]
fn advance_turn_collects_messages_from_both_creatures() {
    let mut order = TurnOrder::new();
    order.add_creature(String::from("Out"), 10);
    order.add_creature(String::from("In"), 5);
    order
        .add_status_effect_timed(0, String::from("Rage"), 1, ClearType::EndOfTurn)
        .unwrap();
    order
        .add_status_effect_timed(1, String::from("Blessing"), 1, ClearType::BeginningOfTurn)
        .unwrap();
    // Out ends its turn (Rage expires), then In begins (Blessing expires):
    // outgoing creature's messages come first
    assert_eq!(
        order.next_turn(),
        Ok(vec![
            String::from("Rage has expired for creature Out."),
            String::from("Blessing has expired for creature In."),
        ])
    );
}

#[test]
fn display_lists_positions_marker_initiative_and_effects() {
    let mut order = TurnOrder::new();
    order.add_creature(String::from("Arthur"), 10);
    order.add_creature(String::from("Jeremy"), -12);
    order.add_status_effect(1, String::from("Cursed")).unwrap();
    order
        .add_status_effect_timed(1, String::from("Poisoned"), 3, ClearType::EndOfTurn)
        .unwrap();
    let expected = "[1] [CURRENT TURN] I:10 Arthur\n\
                    [2] I:-12 Jeremy [Cursed [\u{221e}], Poisoned [3]]\n";
    assert_eq!(order.to_display_string(), expected);
}

#[test]
fn turn_order_add_status_effect_reaches_the_indexed_creature() {
    let mut order = TurnOrder::new();
    order.add_creature(String::from("A"), 2);
    order.add_creature(String::from("B"), 1);
    order.add_status_effect(0, String::from("Flying")).unwrap();
    assert_eq!(
        order.creatures()[0].get_status_effects_display(),
        Some(String::from(" [Flying [\u{221e}]]"))
    );
    assert!(order.creatures()[1].get_status_effects_display().is_none());
    // an indefinite effect never produces an update
    match order.next_turn() {
        Ok(msgs) => assert!(msgs.is_empty()),
        Err(e) => panic!("unexpected error: {e}"),
    }
}

#[test]
fn update_enum_distinguishes_no_update_from_updates() {
    let mut order = TurnOrder::new();
    order.add_creature(String::from("Lone"), 0);
    order
        .add_status_effect_timed(0, String::from("Mark"), 1, ClearType::EndOfTurn)
        .unwrap();
    let mut creature = turn_order::creature::Creature::new(String::from("Other"), 0);
    assert!(matches!(creature.begin_turn(), CreatureUpdate::NoUpdate));
    // the roster-level advance still reports the expiry as a plain list
    assert_eq!(
        order.next_turn(),
        Ok(vec![String::from(
            "Mark has expired for creature Lone."
        )])
    );
}

#[test]
fn display_renders_multi_digit_numbers_exactly() {
    let mut order = TurnOrder::new();
    order.add_creature(String::from("Titan"), 12345);
    order
        .add_status_effect_timed(0, String::from("Aeon"), 100, ClearType::EndOfTurn)
        .unwrap();
    assert_eq!(
        order.to_display_string(),
        "[1] [CURRENT TURN] I:12345 Titan [Aeon [100]]\n"
    );
}

#[test]
fn display_renders_extreme_initiative() {
    let mut order = TurnOrder::new();
    order.add_creature(String::from("Void"), isize::MIN);
    let expected = format!("[1] [CURRENT TURN] I:{} Void\n", isize::MIN);
    assert_eq!(order.to_display_string(), expected);
}

#[test]
fn stale_cursor_marks_no_creature_in_display() {
    let mut order = TurnOrder::new();
    order.add_creature(String::from("A"), 2);
    order.add_creature(String::from("B"), 1);
    assert!(order.next_turn().is_ok());
    assert!(order.remove_creature(0).is_ok());
    // the cursor now points past the end: no line carries the marker
    assert_eq!(order.to_display_string(), "[1] I:1 B\n");
}
