use turn_order::creature::Creature;
use turn_order::creature::CreatureUpdate;
use turn_order::status_effect::ClearType;
use turn_order::status_effect::DurationStatus;
use turn_order::status_effect::StatusEffect;
use turn_order::status_effect::TurnsLeft;

fn updates_of(u: CreatureUpdate) -> Vec<String> {
    match u {
        CreatureUpdate::Updates(msgs) => msgs,
        CreatureUpdate::NoUpdate => Vec::new(),
    }
}

#[test]
fn builder_fills_every_field() {
    let e = StatusEffect::builder(7, String::from("Haste"), TurnsLeft::Finite(2))
        .clear_type(ClearType::EndOfTurn)
        .build();
    assert_eq!(e.id(), 7);
    assert_eq!(e.name(), "Haste");
    assert!(matches!(*e.clear_type(), ClearType::EndOfTurn));
    assert!(matches!(*e.turns_left(), TurnsLeft::Finite(2)));
}

#[test]
fn builder_defaults_to_beginning_of_turn() {
    let e = StatusEffect::builder(0, String::from("Slow"), TurnsLeft::Finite(1)).build();
    assert!(matches!(*e.clear_type(), ClearType::BeginningOfTurn));
    assert!(matches!(ClearType::default(), ClearType::BeginningOfTurn));
}

#[test]
fn finite_begin_effect_ticks_only_at_begin_of_turn() {
    let mut e = StatusEffect::builder(0, String::from("Shield"), TurnsLeft::Finite(3)).build();
    assert!(matches!(e.end_turn(), DurationStatus::NonExpired));
    assert!(matches!(*e.turns_left(), TurnsLeft::Finite(3)));
    assert!(matches!(e.begin_turn(), DurationStatus::NonExpired));
    assert!(matches!(*e.turns_left(), TurnsLeft::Finite(2)));
}

#[test]
fn finite_one_expires_without_reaching_zero() {
    let mut e = StatusEffect::builder(0, String::from("Shield"), TurnsLeft::Finite(1)).build();
    assert!(matches!(e.begin_turn(), DurationStatus::Expired));
    // the stored countdown is untouched: the owner removes the effect
    assert!(matches!(*e.turns_left(), TurnsLeft::Finite(1)));
}

#[test]
fn finite_zero_expires_on_next_matching_phase() {
    let mut e = StatusEffect::builder(0, String::from("Flash"), TurnsLeft::Finite(0))
        .clear_type(ClearType::EndOfTurn)
        .build();
    assert!(matches!(e.begin_turn(), DurationStatus::NonExpired));
    assert!(matches!(e.end_turn(), DurationStatus::Expired));
}

#[test]
fn indefinite_effect_never_expires() {
    let mut e = StatusEffect::builder(0, String::from("Curse"), TurnsLeft::Indefinite).build();
    for _ in 0..5 {
        assert!(matches!(e.begin_turn(), DurationStatus::NonExpired));
        assert!(matches!(e.end_turn(), DurationStatus::NonExpired));
        assert!(matches!(*e.turns_left(), TurnsLeft::Indefinite));
    }
}

#[test]
fn creature_accessors_report_name_and_initiative() {
    let c = Creature::new(String::from("Mira"), -3);
    assert_eq!(c.name(), "Mira");
    assert_eq!(c.initiative(), -3);
    assert!(c.get_status_effects_display().is_none());
    assert_eq!(c.to_display_string(), "Mira");
}

#[test]
fn finite_one_begin_effect_expires_on_first_begin_turn() {
    let mut c = Creature::new(String::from("Wizard"), 2);
    c.add_status_effect_timed(String::from("Shield"), 1, ClearType::BeginningOfTurn);
    assert_eq!(c.to_display_string(), "Wizard [Shield [1]]");
    let msgs = updates_of(c.begin_turn());
    assert_eq!(
        msgs,
        vec![String::from(
            "Shield has expired for creature Wizard."
        )]
    );
    assert!(c.get_status_effects_display().is_none());
}

#[test]
fn finite_one_end_effect_expires_on_first_end_turn() {
    let mut c = Creature::new(String::from("Rogue"), 2);
    c.add_status_effect_timed(String::from("Poison"), 1, ClearType::EndOfTurn);
    assert!(matches!(c.begin_turn(), CreatureUpdate::NoUpdate));
    assert_eq!(c.to_display_string(), "Rogue [Poison [1]]");
    let msgs = updates_of(c.end_turn());
    assert_eq!(
        msgs,
        vec![String::from(
            "Poison has expired for creature Rogue."
        )]
    );
    assert!(c.get_status_effects_display().is_none());
}

#[test]
fn indefinite_effect_survives_many_turn_cycles_unchanged() {
    let mut c = Creature::new(String::from("Lich"), 20);
    c.add_status_effect(String::from("Undead"));
    for _ in 0..7 {
        assert!(matches!(c.begin_turn(), CreatureUpdate::NoUpdate));
        assert!(matches!(c.end_turn(), CreatureUpdate::NoUpdate));
    }
    assert_eq!(c.to_display_string(), "Lich [Undead [\u{221e}]]");
}

#[test]
fn two_effects_expiring_together_give_two_messages_in_order() {
    let mut c = Creature::new(String::from("Knight"), 4);
    c.add_status_effect_timed(String::from("Burn"), 1, ClearType::BeginningOfTurn);
    c.add_status_effect(String::from("Oath"));
    c.add_status_effect_timed(String::from("Freeze"), 1, ClearType::BeginningOfTurn);
    let msgs = updates_of(c.begin_turn());
    assert_eq!(
        msgs,
        vec![
            String::from("Burn has expired for creature Knight."),
            String::from("Freeze has expired for creature Knight."),
        ]
    );
    // the indefinite effect stays behind
    assert_eq!(c.to_display_string(), "Knight [Oath [\u{221e}]]");
}

#[test]
fn surviving_effects_keep_order_and_tick_independently() {
    let mut c = Creature::new(String::from("Druid"), 6);
    c.add_status_effect_timed(String::from("Bark"), 3, ClearType::BeginningOfTurn);
    c.add_status_effect_timed(String::from("Thorns"), 2, ClearType::EndOfTurn);
    c.add_status_effect(String::from("Wild"));
    assert!(matches!(c.begin_turn(), CreatureUpdate::NoUpdate));
    assert_eq!(
        c.to_display_string(),
        "Druid [Bark [2], Thorns [2], Wild [\u{221e}]]"
    );
    assert!(matches!(c.end_turn(), CreatureUpdate::NoUpdate));
    assert_eq!(
        c.to_display_string(),
        "Druid [Bark [2], Thorns [1], Wild [\u{221e}]]"
    );
}

#[test]
fn effect_ids_stay_unique_after_removals() {
    let mut c = Creature::new(String::from("Bard"), 1);
    c.add_status_effect_timed(String::from("SongA"), 1, ClearType::BeginningOfTurn);
    c.add_status_effect_timed(String::from("SongB"), 1, ClearType::BeginningOfTurn);
    let msgs = updates_of(c.begin_turn());
    assert_eq!(msgs.len(), 2);
    // the counter is not reset: a fresh effect gets a fresh id
    c.add_status_effect_timed(String::from("SongC"), 1, ClearType::BeginningOfTurn);
    let msgs = updates_of(c.begin_turn());
    assert_eq!(
        msgs,
        vec![String::from(
            "SongC has expired for creature Bard."
        )]
    );
}

#[test]
fn huge_duration_ticks_without_trouble() {
    let mut e =
        StatusEffect::builder(0, String::from("Eon"), TurnsLeft::Finite(usize::MAX)).build();
    assert!(matches!(e.begin_turn(), DurationStatus::NonExpired));
    assert!(matches!(*e.turns_left(), TurnsLeft::Finite(n) if n == usize::MAX - 1));
}
