use jojo_server::button::MouseButton;
use jojo_server::driver::keyboard::KeyboardAdapter;
use jojo_server::message::Key;
use jojo_server::mouse::{MouseButtonState, MouseRecorder};

struct NullKeyboard;

impl KeyboardAdapter for NullKeyboard {
    fn key_sequence(&mut self, _sequence: &str) {}

    fn key_click(&mut self, _key: Key) {}

    fn key_down(&mut self, _key: Key) {}

    fn key_up(&mut self, _key: Key) {}
}

#[test]
fn button_to_state_presses_and_releases() {
    let mut driver =
        jojo_server::driver::button::ButtonDriver::new(MouseRecorder::new(), NullKeyboard);
    driver.button_to_state(&MouseButton::Right, &MouseButtonState::Down);
    driver.button_to_state(&MouseButton::Right, &MouseButtonState::Up);
    driver.button_to_state(&MouseButton::ScrollUp, &MouseButtonState::Down);
    assert_eq!(
        *driver.mouse_driver().recorded_buttons(),
        vec![
            (MouseButton::Right, MouseButtonState::Down),
            (MouseButton::Right, MouseButtonState::Up),
            (MouseButton::ScrollUp, MouseButtonState::Down),
        ]
    );
    assert_eq!(driver.mouse_driver().recorded().len(), 0);
}

#[test]
fn left_button_driver_moves_down_and_up() {
    let mut driver = jojo_server::button::ButtonDriver::new(MouseRecorder::new(), NullKeyboard);
    driver.mouse_move_down(MouseButton::Left);
    driver.mouse_move_up(MouseButton::Left);
    assert_eq!(
        *driver.mouse_driver().recorded_buttons(),
        vec![
            (MouseButton::Left, MouseButtonState::Down),
            (MouseButton::Left, MouseButtonState::Up),
        ]
    );
}
