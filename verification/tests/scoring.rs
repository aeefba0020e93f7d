use belote::points::{sat_add, score_round, Points};
use belote::team::Team;

#[test]
fn scoring_boundaries() {
    // defense capot
    assert_eq!(score_round(0, false, 0), Ok((0, 252, 0)));
    // dedans
    assert_eq!(score_round(1, false, 0), Ok((0, 182, 0)));
    assert_eq!(score_round(80, false, 0), Ok((0, 182, 0)));
    // litige: nobody scores, the threshold joins the pool
    assert_eq!(score_round(81, false, 0), Ok((0, 0, 81)));
    // plain success
    assert_eq!(score_round(82, false, 0), Ok((82, 80, 0)));
    assert_eq!(score_round(110, false, 0), Ok((110, 52, 0)));
    // attack capot
    assert_eq!(score_round(162, false, 0), Ok((252, 0, 0)));
    // beyond the total is an invariant violation
    assert!(score_round(163, false, 0).is_err());
}

#[test]
fn scoring_litige_round_trip() {
    // a litige round carries 81 ...
    let (attack, defense, litige) = score_round(81, false, 0).unwrap();
    assert_eq!((attack, defense, litige), (0, 0, 81));
    // ... and a later success at 90 awards 90+81 against 72
    assert_eq!(score_round(90, false, litige), Ok((171, 72, 0)));
    // two litiges in a row keep growing the pool
    assert_eq!(score_round(81, false, litige), Ok((0, 0, 162)));
    // a capot resolves the pool too
    assert_eq!(score_round(0, false, 81), Ok((0, 333, 0)));
}

#[test]
fn scoring_with_belote_thresholds() {
    // the threshold moves to 92 and the total to 182
    assert_eq!(score_round(91, true, 0), Ok((0, 182, 0)));
    assert_eq!(score_round(92, true, 0), Ok((0, 0, 92)));
    assert_eq!(score_round(93, true, 0), Ok((93, 89, 0)));
    assert_eq!(score_round(182, true, 0), Ok((252, 0, 0)));
    assert!(score_round(183, true, 0).is_err());
}

#[test]
fn points_accumulate_and_saturate() {
    let mut points = Points::new();
    points.add(Team::NorthSouth, 110);
    points.add(Team::WestEast, 52);
    points.add(Team::NorthSouth, 20);
    assert_eq!(points.get(Team::NorthSouth), 130);
    assert_eq!(points.get(Team::WestEast), 52);
    assert_eq!(sat_add(u64::MAX - 1, 5), u64::MAX);
    assert_eq!(sat_add(7, 5), 12);
    points.add(Team::WestEast, u64::MAX);
    assert_eq!(points.get(Team::WestEast), u64::MAX);
}
