use captains_log::ui::centered_shares;

#[test]
fn centered_shares_split_the_rest_evenly() {
    assert_eq!(centered_shares(60), (20, 60, 20));
    assert_eq!(centered_shares(20), (40, 20, 40));
}

#[test]
fn centered_shares_round_the_margins_down() {
    assert_eq!(centered_shares(75), (12, 75, 12));
    assert_eq!(centered_shares(99), (0, 99, 0));
}

#[test]
fn centered_shares_at_the_ends_of_the_range() {
    assert_eq!(centered_shares(0), (50, 0, 50));
    assert_eq!(centered_shares(100), (0, 100, 0));
}
