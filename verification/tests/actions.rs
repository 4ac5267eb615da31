use mouce::common::{move_relative, MouseActions, MouseButton, MouseEvent};
use mouce::error::Error;
use mouce::Mouse;

fn new_mouse() -> Mouse<Box<dyn Fn(MouseEvent)>> {
    Mouse::new()
}

#[test]
fn move_to_right_bottom() {
    let mut manager = new_mouse();
    assert_eq!(manager.move_to(1920, 1080), Ok(()));
}

#[test]
fn move_to_top_left() {
    let mut manager = new_mouse();
    assert_eq!(manager.move_to(0, 0), Ok(()));
}

#[test]
fn move_to_left_to_right() {
    let mut manager = new_mouse();
    let mut x = 0;
    while x < 1920 {
        assert_eq!(manager.move_to(x, 540), Ok(()));
        x += 1;
    }
}

#[test]
fn move_relative_left_to_right() {
    let mut manager = new_mouse();
    let mut x = 0;
    assert_eq!(manager.move_to(0, 540), Ok(()));
    while x < 1920 {
        assert_eq!(move_relative(&mut manager, 1, 0), Ok(()));
        x += 1;
    }
}

#[test]
fn move_to_top_to_bottom() {
    let mut manager = new_mouse();
    let mut y = 0;
    while y < 1080 {
        assert_eq!(manager.move_to(960, y), Ok(()));
        y += 1;
    }
}

#[test]
fn move_relative_top_to_bottom() {
    let mut manager = new_mouse();
    let mut y = 0;
    assert_eq!(manager.move_to(960, 0), Ok(()));
    while y < 1080 {
        assert_eq!(move_relative(&mut manager, 0, 1), Ok(()));
        y += 1;
    }
}

#[test]
fn get_position() {
    let mut manager = new_mouse();
    match manager.get_position() {
        Ok(_) => {
            let positions = vec![
                (0, 0),
                (100, 100),
                (250, 250),
                (325, 325),
                (400, 100),
                (100, 400),
            ];

            let mut x;
            let mut y;
            for position in positions.iter() {
                assert_eq!(manager.move_to(position.0, position.1), Ok(()));
                (x, y) = manager.get_position().unwrap();
                assert_eq!(x, position.0 as i32);
                assert_eq!(y, position.1 as i32);
            }
        }
        Err(error) => assert_eq!(error, Error::NotImplemented),
    }
}

#[test]
fn move_to_clamps_to_screen() {
    let mut manager = new_mouse();
    assert_eq!(manager.move_to(5000, 5000), Ok(()));
    assert_eq!(manager.get_position(), Ok((1919, 1079)));
}

#[test]
fn move_relative_lands_exactly_on_the_offset() {
    let mut manager = new_mouse();
    assert_eq!(manager.move_to(100, 100), Ok(()));
    assert_eq!(move_relative(&mut manager, 5, -3), Ok(()));
    assert_eq!(manager.get_position(), Ok((105, 97)));
}

#[test]
fn get_position_can_be_unsupported() {
    let manager: Mouse<Box<dyn Fn(MouseEvent)>> = Mouse::with_options(1920, 1080, false, true);
    assert_eq!(manager.get_position(), Err(Error::NotImplemented));
}

#[test]
fn move_relative_needs_position_queries() {
    let mut manager: Mouse<Box<dyn Fn(MouseEvent)>> = Mouse::with_options(1920, 1080, false, true);
    assert_eq!(move_relative(&mut manager, 1, 1), Err(Error::NotImplemented));
}

#[test]
fn press_and_release_report_success() {
    let mut manager = new_mouse();
    assert_eq!(manager.press_button(&MouseButton::Middle), Ok(()));
    assert_eq!(manager.release_button(&MouseButton::Middle), Ok(()));
}

#[test]
fn error_descriptions_are_stable() {
    assert_eq!(
        Error::UnhookFailed.describe(),
        "could not unhook the given callback id"
    );
    assert_eq!(
        Error::NotImplemented.describe(),
        "this functionality is not implemented yet"
    );
}
