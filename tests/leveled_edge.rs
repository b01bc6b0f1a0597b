use esp_leveled_edge::leveled_edge::{
    isr_service_status, next_trigger, ESP_ERR_INVALID_STATE, ESP_OK,
};
use esp_leveled_edge::{EdgeState, FilterDebounce, NoDebounce, Reaction, Trigger};

fn callbacks(reactions: &[Reaction]) -> Vec<bool> {
    reactions.iter().filter_map(|r| r.notify).collect()
}

#[test]
fn trigger_is_opposite_of_level() {
    assert_eq!(next_trigger(true), Trigger::LowLevel);
    assert_eq!(next_trigger(false), Trigger::HighLevel);
}

#[test]
fn new_arms_opposite_level() {
    let low = EdgeState::new(false, NoDebounce);
    assert!(!low.pin_state());
    assert_eq!(low.armed_trigger(), Trigger::HighLevel);
    let high = EdgeState::new(true, NoDebounce);
    assert!(high.pin_state());
    assert_eq!(high.armed_trigger(), Trigger::LowLevel);
}

#[test]
fn first_rising_edge_after_construction() {
    let mut s = EdgeState::new(false, FilterDebounce::from_micros(20_000, 0));
    let r = s.on_firing(50_000);
    assert_eq!(r, Reaction { notify: Some(true), rearm: Trigger::LowLevel });
    assert!(s.pin_state());
    assert_eq!(s.armed_trigger(), Trigger::LowLevel);
}

#[test]
fn rejected_firing_still_flips_and_rearms() {
    let mut s = EdgeState::new(true, FilterDebounce::from_micros(20_000, 0));
    let r = s.on_firing(10);
    assert_eq!(r, Reaction { notify: None, rearm: Trigger::HighLevel });
    assert!(!s.pin_state());
    assert!(s.debouncer().ignore_next());
}

#[test]
fn level_parity_after_many_firings() {
    let mut s = EdgeState::new(true, NoDebounce);
    for n in 1..=7u32 {
        let r = s.on_firing(n as i64);
        let expected = true ^ (n % 2 == 1);
        assert_eq!(s.pin_state(), expected);
        assert_eq!(r.notify, Some(expected));
        assert_eq!(r.rearm, next_trigger(expected));
    }
}

#[test]
fn glitch_pair_between_spaced_edges() {
    let mut s = EdgeState::new(false, FilterDebounce::from_micros(20_000, 0));
    let rs: Vec<Reaction> = [100_000, 100_300, 100_500, 125_000]
        .iter()
        .map(|t| s.on_firing(*t))
        .collect();
    assert_eq!(callbacks(&rs), vec![true, false]);
    assert!(!s.pin_state());
    assert_eq!(s.armed_trigger(), Trigger::HighLevel);
}

#[test]
fn glitch_pair_between_close_edges() {
    // edges 1 ms apart with a 20 ms window: the second edge falls inside the
    // window counted from the echo, so it is rejected as well
    let mut s = EdgeState::new(false, FilterDebounce::from_micros(20_000, 0));
    let rs: Vec<Reaction> = [100_000, 100_300, 100_500, 101_000]
        .iter()
        .map(|t| s.on_firing(*t))
        .collect();
    assert_eq!(callbacks(&rs), vec![true]);
    assert!(!s.pin_state());
    assert_eq!(rs[3].rearm, Trigger::HighLevel);
}

#[test]
fn zero_window_controller_notifies_every_firing() {
    let mut s = EdgeState::new(false, FilterDebounce::from_micros(0, 0));
    let rs: Vec<Reaction> = [0, 0, 1, 2].iter().map(|t| s.on_firing(*t)).collect();
    assert_eq!(callbacks(&rs), vec![true, false, true, false]);
}

#[test]
fn isr_service_already_installed_is_success() {
    assert_eq!(isr_service_status(ESP_OK), Ok(()));
    assert_eq!(isr_service_status(ESP_ERR_INVALID_STATE), Ok(()));
    assert_eq!(isr_service_status(0x102), Err(0x102));
    assert_eq!(isr_service_status(-1), Err(-1));
}
