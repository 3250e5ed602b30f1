use jojo_server::button::{Button, CustomButton, MouseButton};

#[test]
fn test() {
    let key_button: Button = Button::CustomButton(CustomButton);
    let mouse_button: Button = Button::MouseButton(MouseButton::Left);

    let buttons: Vec<Button> = vec![key_button, mouse_button];

    for button in buttons {
        match button {
            Button::MouseButton(mouse_button) => match mouse_button {
                MouseButton::Left => {
                    println!("Left click")
                }
                MouseButton::Middle => {}
                MouseButton::Right => {}
                MouseButton::Back => {}
                MouseButton::Forward => {}
                MouseButton::ScrollUp => {}
                MouseButton::ScrollDown => {}
                MouseButton::ScrollLeft => {}
                MouseButton::ScrollRight => {}
            },
            Button::CustomButton(_keyboard_button) => {}
        }
    }
}

#[test]
fn button_read_reports_its_kind() {
    let read = jojo_server::button::ButtonRead::new(Button::MouseButton(MouseButton::Right));
    assert_eq!(*read.kind(), Button::MouseButton(MouseButton::Right));
}

#[test]
fn default_button_is_left_mouse() {
    assert_eq!(Button::default(), Button::MouseButton(MouseButton::Left));
}
