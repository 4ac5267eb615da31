use mouce::common::{
    click_button, click_button_delayed, MouseActions, MouseButton, MouseEvent, ScrollDirection,
    Sleeper,
};
use mouce::Mouse;
use std::time::{Duration, Instant};

fn new_mouse() -> Mouse<Box<dyn Fn(MouseEvent)>> {
    Mouse::new()
}

/// Records every requested pause instead of blocking.
struct RecordingSleeper {
    requests: Vec<Duration>,
}

impl Sleeper for RecordingSleeper {
    fn sleep(&mut self, duration: Duration) {
        self.requests.push(duration);
    }
}

/// Blocks the calling thread by polling a monotonic clock.
struct SpinSleeper;

impl Sleeper for SpinSleeper {
    fn sleep(&mut self, duration: Duration) {
        let start = Instant::now();
        while start.elapsed() < duration {}
    }
}

#[test]
fn left_click() {
    let mut manager = new_mouse();
    assert_eq!(click_button(&mut manager, &MouseButton::Left), Ok(()));
}

#[test]
fn scroll_down() {
    let mut manager = new_mouse();
    for _ in 0..10 {
        assert_eq!(manager.scroll_wheel(&ScrollDirection::Down), Ok(()));
    }
}

#[test]
fn scroll_up() {
    let mut manager = new_mouse();
    for _ in 0..10 {
        assert_eq!(manager.scroll_wheel(&ScrollDirection::Up), Ok(()));
    }
}

#[test]
fn scroll_right() {
    let mut manager = new_mouse();
    for _ in 0..10 {
        assert_eq!(manager.scroll_wheel(&ScrollDirection::Right), Ok(()));
    }
}

#[test]
fn scroll_left() {
    let mut manager = new_mouse();
    for _ in 0..10 {
        assert_eq!(manager.scroll_wheel(&ScrollDirection::Left), Ok(()));
    }
}

#[test]
fn delayed_click_requests_both_pauses_in_order() {
    let mut manager = new_mouse();
    let mut sleeper = RecordingSleeper { requests: Vec::new() };
    let press_delay = Duration::from_millis(200);
    let release_delay = Duration::from_millis(100);
    assert_eq!(
        click_button_delayed(
            &mut manager,
            &mut sleeper,
            &MouseButton::Left,
            Some(press_delay),
            Some(release_delay),
        ),
        Ok(())
    );
    assert_eq!(sleeper.requests, vec![press_delay, release_delay]);
}

#[test]
fn delayed_click_without_delays_requests_no_pause() {
    let mut manager = new_mouse();
    let mut sleeper = RecordingSleeper { requests: Vec::new() };
    assert_eq!(
        click_button_delayed(&mut manager, &mut sleeper, &MouseButton::Right, None, None),
        Ok(())
    );
    assert!(sleeper.requests.is_empty());
}

#[test]
fn delayed_click_blocks_for_at_least_the_requested_time() {
    let mut manager = new_mouse();
    let mut sleeper = SpinSleeper;
    let press_delay = Duration::from_millis(30);
    let release_delay = Duration::from_millis(40);
    let start = Instant::now();
    assert_eq!(
        click_button_delayed(
            &mut manager,
            &mut sleeper,
            &MouseButton::Left,
            Some(press_delay),
            Some(release_delay),
        ),
        Ok(())
    );
    assert!(start.elapsed() >= press_delay + release_delay);
}
