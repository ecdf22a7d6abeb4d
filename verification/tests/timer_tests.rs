use interest_management::protocol::PlayerText;
use interest_management::timer::check_timer;
use interest_management::timer::TimerComponent;
use interest_management::timer::NANOS_PER_SECOND;

const SECOND: u64 = 1_000_000_000;

#[test]
fn a_second_has_a_billion_nanoseconds() {
    assert_eq!(NANOS_PER_SECOND, SECOND);
}

#[test]
fn a_new_timer_is_armed() {
    let timer = TimerComponent::from_seconds(5);
    assert_eq!(timer.duration_nanos(), 5 * SECOND);
    assert_eq!(timer.elapsed_nanos(), 0);
    assert!(!timer.finished());
}

#[test]
fn timer_finishes_after_its_duration() {
    let mut timer = TimerComponent::from_seconds(5);
    timer.tick(4 * SECOND);
    assert!(!timer.finished());
    assert_eq!(timer.elapsed_nanos(), 4 * SECOND);
    timer.tick(SECOND - 1);
    assert!(!timer.finished());
    assert_eq!(timer.elapsed_nanos(), 5 * SECOND - 1);
    timer.tick(1);
    assert!(timer.finished());
    assert_eq!(timer.elapsed_nanos(), 5 * SECOND);
}

#[test]
fn a_timer_holds_at_its_duration() {
    let mut timer = TimerComponent::from_seconds(1);
    timer.tick(u64::MAX);
    assert!(timer.finished());
    assert_eq!(timer.elapsed_nanos(), SECOND);
    timer.tick(SECOND);
    assert!(timer.finished());
    assert_eq!(timer.elapsed_nanos(), SECOND);
    assert_eq!(timer.duration_nanos(), SECOND);
}

#[test]
fn a_tick_of_nothing_changes_nothing() {
    let mut timer = TimerComponent::from_seconds(2);
    timer.tick(0);
    assert!(!timer.finished());
    assert_eq!(timer.elapsed_nanos(), 0);
}

#[test]
fn a_timer_of_no_length_finishes_on_its_first_tick() {
    let mut timer = TimerComponent::from_seconds(0);
    assert!(!timer.finished());
    timer.tick(0);
    assert!(timer.finished());
}

#[test]
fn the_longest_timer_fits() {
    let timer = TimerComponent::from_seconds(u32::MAX);
    assert_eq!(timer.duration_nanos(), u32::MAX as u64 * SECOND);
}

#[test]
fn a_timer_fires_once_and_is_gone() {
    let mut text = PlayerText("before".to_string());
    let mut slot = Some(TimerComponent::from_seconds(5));
    let mut fired = 0;
    for _ in 0..4 {
        if check_timer(&mut text, &mut slot, SECOND) {
            fired += 1;
        }
    }
    assert_eq!(fired, 0);
    assert_eq!(text.0, "before");
    assert!(slot.is_some());
    for _ in 0..20 {
        if check_timer(&mut text, &mut slot, SECOND) {
            fired += 1;
        }
    }
    assert_eq!(fired, 1);
    assert_eq!(text.0, "Server changed");
    assert!(slot.is_none());
}

#[test]
fn a_timer_that_has_not_fired_keeps_counting() {
    let mut text = PlayerText("before".to_string());
    let mut slot = Some(TimerComponent::from_seconds(5));
    assert!(!check_timer(&mut text, &mut slot, 2 * SECOND));
    assert_eq!(slot.as_ref().map(|t| t.elapsed_nanos()), Some(2 * SECOND));
    assert!(!check_timer(&mut text, &mut slot, 2 * SECOND));
    assert_eq!(slot.as_ref().map(|t| t.elapsed_nanos()), Some(4 * SECOND));
    assert!(check_timer(&mut text, &mut slot, 2 * SECOND));
    assert!(slot.is_none());
}

#[test]
fn an_entity_without_a_timer_is_left_alone() {
    let mut text = PlayerText("before".to_string());
    let mut slot: Option<TimerComponent> = None;
    assert!(!check_timer(&mut text, &mut slot, 10 * SECOND));
    assert_eq!(text.0, "before");
    assert!(slot.is_none());
}

#[test]
fn one_long_tick_fires_the_timer() {
    let mut text = PlayerText(String::new());
    let mut slot = Some(TimerComponent::from_seconds(5));
    assert!(check_timer(&mut text, &mut slot, 5 * SECOND));
    assert_eq!(text.0, "Server changed");
    assert!(!check_timer(&mut text, &mut slot, 5 * SECOND));
}
