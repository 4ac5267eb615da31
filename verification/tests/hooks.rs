use mouce::common::{click_button, MouseActions, MouseButton, MouseEvent, ScrollDirection};
use mouce::error::Error;
use mouce::Mouse;
use std::cell::RefCell;
use std::rc::Rc;

type Log = Rc<RefCell<Vec<MouseEvent>>>;

fn new_mouse() -> Mouse<Box<dyn Fn(MouseEvent)>> {
    Mouse::new()
}

fn recorder(log: &Log) -> Box<dyn Fn(MouseEvent)> {
    let log = Rc::clone(log);
    Box::new(move |e| log.borrow_mut().push(e))
}

#[test]
fn hook_and_unhook() {
    let mut manager = new_mouse();
    assert_eq!(manager.unhook(5), Err(Error::UnhookFailed));
    let hook_result = manager.hook(Box::new(|e| println!("{:?}", e)));
    match hook_result {
        Ok(id) => {
            assert_eq!(manager.unhook(id), Ok(()));

            manager.hook(Box::new(|e| println!("{:?}", e))).unwrap();
            manager.hook(Box::new(|e| println!("{:?}", e))).unwrap();
            manager.hook(Box::new(|e| println!("{:?}", e))).unwrap();
            let id = manager.hook(Box::new(|e| println!("{:?}", e))).unwrap();

            manager.unhook_all().unwrap();
            assert_eq!(manager.unhook(id), Err(Error::UnhookFailed));
        }
        Err(err) => assert_eq!(Error::PermissionDenied, err),
    }
}

#[test]
fn hooking_hands_out_distinct_smallest_ids() {
    let mut manager = new_mouse();
    let a = manager.hook(Box::new(|_e| {})).unwrap();
    let b = manager.hook(Box::new(|_e| {})).unwrap();
    let c = manager.hook(Box::new(|_e| {})).unwrap();
    assert_eq!((a, b, c), (0, 1, 2));
    // Removing the middle callback frees exactly its id for reuse.
    assert_eq!(manager.unhook(1), Ok(()));
    assert_eq!(manager.hook(Box::new(|_e| {})).unwrap(), 1);
}

#[test]
fn unhook_of_unknown_id_fails() {
    let mut manager = new_mouse();
    assert_eq!(manager.unhook(0), Err(Error::UnhookFailed));
    let id = manager.hook(Box::new(|_e| {})).unwrap();
    assert_eq!(manager.unhook(id), Ok(()));
    // The id is no longer registered, so a second removal fails.
    assert_eq!(manager.unhook(id), Err(Error::UnhookFailed));
}

#[test]
fn unhook_all_is_idempotent() {
    let mut manager = new_mouse();
    let id = manager.hook(Box::new(|_e| {})).unwrap();
    assert_eq!(manager.unhook_all(), Ok(()));
    assert_eq!(manager.unhook(id), Err(Error::UnhookFailed));
    assert_eq!(manager.unhook_all(), Ok(()));
    assert_eq!(manager.unhook(id), Err(Error::UnhookFailed));
    // The registry is empty after each call: the smallest id is free again.
    assert_eq!(manager.hook(Box::new(|_e| {})).unwrap(), 0);
}

#[test]
fn hooking_without_permission_is_denied() {
    let mut manager: Mouse<Box<dyn Fn(MouseEvent)>> = Mouse::with_options(1920, 1080, true, false);
    assert_eq!(
        manager.hook(Box::new(|_e| {})).map(|_| ()),
        Err(Error::PermissionDenied)
    );
}

#[test]
fn hooking_stops_at_the_id_limit() {
    let mut manager = new_mouse();
    for expected in 0..=255u32 {
        let id = manager.hook(Box::new(|_e| {})).unwrap();
        assert_eq!(id as u32, expected);
    }
    assert_eq!(
        manager.hook(Box::new(|_e| {})).map(|_| ()),
        Err(Error::CallbackLimitReached)
    );
}

#[test]
fn hooked_callback_observes_moves_in_order() {
    let mut manager = new_mouse();
    let log: Log = Rc::new(RefCell::new(Vec::new()));
    manager.hook(recorder(&log)).unwrap();
    assert_eq!(manager.move_to(10, 10), Ok(()));
    assert_eq!(manager.move_to(20, 20), Ok(()));
    assert_eq!(
        log.borrow().clone(),
        vec![
            MouseEvent::AbsoluteMove(10, 10),
            MouseEvent::AbsoluteMove(20, 20),
        ]
    );
}

#[test]
fn unhooked_callback_no_longer_receives_events() {
    let mut manager = new_mouse();
    let first: Log = Rc::new(RefCell::new(Vec::new()));
    let second: Log = Rc::new(RefCell::new(Vec::new()));
    let first_id = manager.hook(recorder(&first)).unwrap();
    manager.hook(recorder(&second)).unwrap();
    assert_eq!(manager.unhook(first_id), Ok(()));
    assert_eq!(manager.press_button(&MouseButton::Left), Ok(()));
    assert_eq!(first.borrow().len(), 0);
    assert_eq!(
        second.borrow().clone(),
        vec![MouseEvent::Press(MouseButton::Left)]
    );
}

#[test]
fn click_observes_press_then_release() {
    let mut manager = new_mouse();
    let log: Log = Rc::new(RefCell::new(Vec::new()));
    manager.hook(recorder(&log)).unwrap();
    assert_eq!(click_button(&mut manager, &MouseButton::Right), Ok(()));
    assert_eq!(
        log.borrow().clone(),
        vec![
            MouseEvent::Press(MouseButton::Right),
            MouseEvent::Release(MouseButton::Right),
        ]
    );
}

#[test]
fn scroll_ticks_are_observed_in_order() {
    let mut manager = new_mouse();
    let log: Log = Rc::new(RefCell::new(Vec::new()));
    manager.hook(recorder(&log)).unwrap();
    assert_eq!(manager.scroll_wheel(&ScrollDirection::Down), Ok(()));
    assert_eq!(manager.scroll_wheel(&ScrollDirection::Up), Ok(()));
    assert_eq!(manager.scroll_wheel(&ScrollDirection::Left), Ok(()));
    assert_eq!(manager.scroll_wheel(&ScrollDirection::Right), Ok(()));
    assert_eq!(
        log.borrow().clone(),
        vec![
            MouseEvent::Scroll(ScrollDirection::Down),
            MouseEvent::Scroll(ScrollDirection::Up),
            MouseEvent::Scroll(ScrollDirection::Left),
            MouseEvent::Scroll(ScrollDirection::Right),
        ]
    );
}

#[test]
fn late_callback_sees_only_later_events() {
    let mut manager = new_mouse();
    let early: Log = Rc::new(RefCell::new(Vec::new()));
    let late: Log = Rc::new(RefCell::new(Vec::new()));
    manager.hook(recorder(&early)).unwrap();
    assert_eq!(manager.move_to(10, 10), Ok(()));
    manager.hook(recorder(&late)).unwrap();
    assert_eq!(manager.move_to(20, 20), Ok(()));
    assert_eq!(
        early.borrow().clone(),
        vec![
            MouseEvent::AbsoluteMove(10, 10),
            MouseEvent::AbsoluteMove(20, 20),
        ]
    );
    assert_eq!(late.borrow().clone(), vec![MouseEvent::AbsoluteMove(20, 20)]);
}
