use lora::input::mouse_button_code;
use lora::input::MouseButtonKind;
use lora::input::PressedKeys;

#[test]
fn keys_press_and_release() {
    let mut keys = PressedKeys::new();
    let a = "a".to_string();
    let b = "b".to_string();
    assert!(!keys.is_pressed(&a));
    keys.press(a.clone());
    keys.press(a.clone());
    keys.press(b.clone());
    assert!(keys.is_pressed(&a));
    assert!(keys.is_pressed(&b));
    keys.release(&a);
    assert!(!keys.is_pressed(&a));
    assert!(keys.is_pressed(&b));
    keys.release(&"c".to_string());
    assert!(keys.is_pressed(&b));
    keys.release(&b);
    assert!(!keys.is_pressed(&b));
}

#[test]
fn mouse_buttons() {
    assert_eq!(mouse_button_code(MouseButtonKind::Left), 1);
    assert_eq!(mouse_button_code(MouseButtonKind::Right), 2);
    assert_eq!(mouse_button_code(MouseButtonKind::Middle), 3);
    assert_eq!(mouse_button_code(MouseButtonKind::Back), 4);
    assert_eq!(mouse_button_code(MouseButtonKind::Forward), 5);
    assert_eq!(mouse_button_code(MouseButtonKind::Other(0)), 6);
    assert_eq!(mouse_button_code(MouseButtonKind::Other(65529)), 65535);
}

#[test]
fn held_keys_follow_the_last_event_for_each_key() {
    let mut keys = PressedKeys::new();
    let w = "w".to_string();
    let s = "s".to_string();
    keys.press(w.clone());
    keys.press(s.clone());
    keys.release(&w);
    keys.press(w.clone());
    keys.release(&s);
    keys.press(s.clone());
    keys.press(s.clone());
    keys.release(&s);
    assert!(keys.is_pressed(&w));
    assert!(!keys.is_pressed(&s));
    assert!(!keys.is_pressed(&"a".to_string()));
}
