use youtube_audio_feed::util::{race_ordered_first_ok, Race};

#[test]
fn test_race_ordered_first_ok() {
    // the failed one is not returned, the first successful one is, and a
    // successful one at a later position is not
    let results: Vec<Result<i32, i32>> = vec![Err(1), Ok(2), Ok(3)];
    let res = race_ordered_first_ok(results);
    assert_eq!(res, Ok(2));
}

#[test]
fn race_of_failures_ends_in_the_last_one() {
    let results: Vec<Result<i32, i32>> = vec![Err(1), Err(2), Err(3)];
    assert_eq!(race_ordered_first_ok(results), Err(3));
}

#[test]
fn race_of_one() {
    assert_eq!(race_ordered_first_ok::<i32, i32>(vec![Ok(7)]), Ok(7));
    assert_eq!(race_ordered_first_ok::<i32, i32>(vec![Err(7)]), Err(7));
}

#[test]
fn race_state_keeps_the_last_failure() {
    let mut race: Race<&str> = Race::new();
    assert_eq!(race.settle::<u8>(Err("first")), None);
    assert_eq!(race.settle::<u8>(Err("second")), None);
    assert_eq!(race.settle(Ok(5u8)), Some(5));
    assert_eq!(race.give_up(), Some("second"));
}

#[test]
fn race_without_attempts_has_no_failure() {
    let race: Race<&str> = Race::new();
    assert_eq!(race.give_up(), None);
}
