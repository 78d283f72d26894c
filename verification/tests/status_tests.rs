use acc::status::{fold_worst, Status};

#[test]
fn rank_values_are_fixed() {
    assert_eq!(Status::AC.rank_value(), 0);
    assert_eq!(Status::TLE.rank_value(), 1);
    assert_eq!(Status::RE.rank_value(), 2);
    assert_eq!(Status::WA.rank_value(), 3);
}

#[test]
fn ordering_is_ac_tle_re_wa() {
    assert!(Status::AC.rank_value() < Status::TLE.rank_value());
    assert!(Status::TLE.rank_value() < Status::RE.rank_value());
    assert!(Status::RE.rank_value() < Status::WA.rank_value());
}

#[test]
fn worst_picks_the_higher_rank() {
    assert_eq!(Status::AC.worst(Status::TLE), Status::TLE);
    assert_eq!(Status::WA.worst(Status::RE), Status::WA);
    assert_eq!(Status::RE.worst(Status::RE), Status::RE);
    assert_eq!(Status::TLE.worst(Status::AC), Status::TLE);
}

#[test]
fn verdict_of_ac_tle_wa_is_wa() {
    let statuses = vec![Status::AC, Status::TLE, Status::WA];
    assert_eq!(fold_worst(&statuses), Status::WA);
}

#[test]
fn verdict_of_ac_re_is_re() {
    let statuses = vec![Status::AC, Status::RE];
    assert_eq!(fold_worst(&statuses), Status::RE);
}

#[test]
fn verdict_of_re_wa_is_wa() {
    let statuses = vec![Status::RE, Status::WA];
    assert_eq!(fold_worst(&statuses), Status::WA);
}

#[test]
fn verdict_of_empty_run_is_ac() {
    let statuses: Vec<Status> = Vec::new();
    assert_eq!(fold_worst(&statuses), Status::AC);
}

#[test]
fn verdict_ignores_order() {
    let a = vec![Status::WA, Status::RE, Status::AC, Status::TLE];
    let b = vec![Status::TLE, Status::AC, Status::RE, Status::WA];
    assert_eq!(fold_worst(&a), Status::WA);
    assert_eq!(fold_worst(&b), Status::WA);
}

#[test]
fn status_names() {
    assert_eq!(Status::AC.to_string(), "AC");
    assert_eq!(Status::TLE.to_string(), "TLE");
    assert_eq!(Status::RE.to_string(), "RE");
    assert_eq!(Status::WA.to_string(), "WA");
}
