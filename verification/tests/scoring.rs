use coral::tags::calculate_score;

fn score(names: &[&str]) -> f64 {
    calculate_score(names) as f64 / 10.0
}

#[test]
fn single_sniper_tag() {
    assert_eq!(score(&["sniper"]), 10.0);
}

#[test]
fn multiple_tags_sum_scores() {
    assert_eq!(score(&["sniper", "blatant_cheater"]), 15.0);
}

#[test]
fn zero_score_tags() {
    assert_eq!(score(&["replays_needed"]), 0.0);
    assert_eq!(score(&["caution"]), 0.0);
}

#[test]
fn unknown_tags_ignored() {
    assert_eq!(score(&["nonexistent", "sniper"]), 10.0);
}

#[test]
fn empty_tags() {
    assert_eq!(score(&[]), 0.0);
}

#[test]
fn confirmed_cheater_score() {
    assert_eq!(score(&["confirmed_cheater"]), 5.0);
}

#[test]
fn scores_add_over_concatenated_lists() {
    let a = ["sniper", "caution"];
    let b = ["closet_cheater", "nonexistent", "sniper"];
    let both = [a.as_slice(), b.as_slice()].concat();
    assert_eq!(calculate_score(&both), calculate_score(&a) + calculate_score(&b));
    assert_eq!(calculate_score(&both), 215);
}

#[test]
fn score_ignores_order_of_names() {
    assert_eq!(
        calculate_score(&["sniper", "blatant_cheater", "oops", "sniper"]),
        calculate_score(&["oops", "sniper", "sniper", "blatant_cheater"])
    );
    assert_eq!(calculate_score(&["sniper", "sniper"]), 200);
}
