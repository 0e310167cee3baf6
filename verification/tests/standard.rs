use kapto_rules::standard::standard_rules;

#[test]
fn standard_rules_verify() {
    standard_rules().verify().expect("Ruleset is invalid!");
}

#[test]
fn standard_rules_shape() {
    let rules = standard_rules();
    assert_eq!(rules.seats, 2);
    assert_eq!(rules.name, "Standard");
    assert_eq!(rules.pieces.len(), 2);
    assert_eq!(rules.pieces[0].name, "Big");
    assert_eq!(rules.pieces[1].name, "Little");
    assert_eq!(rules.seat_colors.len(), 2);
    assert_eq!(rules.victory_conditions.len(), 2);
}

#[test]
fn verify_is_idempotent() {
    let rules = standard_rules();
    let first = rules.verify();
    let second = rules.verify();
    assert_eq!(first.is_ok(), second.is_ok());
    assert!(first.is_ok());
}
