use executor::{Notify, Park, Parking};

#[test]
fn parking_starts_empty() {
    let mut parking = Parking::new();
    assert!(parking.is_empty());
    assert_eq!(parking.park(), Park::Wait);
    assert!(!parking.is_empty());
}

#[test]
fn wake_up_is_left_behind_for_the_next_thread() {
    let mut parking = Parking::new();
    assert_eq!(parking.unpark_one(), Notify::Nobody);
    assert!(parking.is_empty());
    assert_eq!(parking.park(), Park::Skip);
    assert_eq!(parking.park(), Park::Wait);
}

#[test]
fn wake_ups_left_behind_do_not_add_up() {
    let mut parking = Parking::new();
    assert_eq!(parking.unpark_one(), Notify::Nobody);
    assert_eq!(parking.unpark_one(), Notify::Nobody);
    assert_eq!(parking.park(), Park::Skip);
    assert_eq!(parking.park(), Park::Wait);
}

#[test]
fn waiting_thread_is_signalled_until_it_reports_back() {
    let mut parking = Parking::new();
    assert_eq!(parking.park(), Park::Wait);
    assert_eq!(parking.unpark_one(), Notify::One);
    assert_eq!(parking.unpark_one(), Notify::One);
    parking.woken();
    assert!(parking.is_empty());
    // Neither signal was left behind.
    assert_eq!(parking.park(), Park::Wait);
}

#[test]
fn several_threads_wait() {
    let mut parking = Parking::new();
    assert_eq!(parking.park(), Park::Wait);
    assert_eq!(parking.park(), Park::Wait);
    parking.woken();
    assert!(!parking.is_empty());
    assert_eq!(parking.unpark_one(), Notify::One);
    parking.woken();
    assert!(parking.is_empty());
}

#[test]
fn waking_everyone_leaves_nothing_behind() {
    let mut parking = Parking::new();
    assert_eq!(parking.unpark_all(), Notify::Everyone);
    assert_eq!(parking.park(), Park::Wait);
    assert_eq!(parking.unpark_all(), Notify::Everyone);
    assert!(!parking.is_empty());
}
