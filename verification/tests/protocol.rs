use lora::protocol::dispatch;
use lora::protocol::LoraToMainCall;
use lora::protocol::MainToLoraCallKind;
use lora::spawn::body_kind;
use lora::spawn::BodyKind;
use lora::spawn::shape_kind;
use lora::spawn::ShapeKind;

#[test]
fn every_call_gets_its_reply() {
    let calls = [
        (MainToLoraCallKind::Load, "load", LoraToMainCall::Load),
        (MainToLoraCallKind::Keypressed, "keypressed", LoraToMainCall::Keypressed),
        (MainToLoraCallKind::Keyreleased, "keyreleased", LoraToMainCall::Keyreleased),
        (MainToLoraCallKind::Mousepressed, "mousepressed", LoraToMainCall::Mousepressed),
        (MainToLoraCallKind::Mousereleased, "mousereleased", LoraToMainCall::Mousereleased),
        (MainToLoraCallKind::MouseMoved, "mousemoved", LoraToMainCall::MouseMoved),
        (MainToLoraCallKind::MouseScrolled, "mousescrolled", LoraToMainCall::MouseScrolled),
        (MainToLoraCallKind::Collision, "collision", LoraToMainCall::Collision),
        (MainToLoraCallKind::Update, "update", LoraToMainCall::Update),
        (MainToLoraCallKind::Render, "render", LoraToMainCall::Render),
    ];
    for (call, name, reply) in calls {
        let step = dispatch(call);
        assert_eq!(step.callback, name);
        assert_eq!(step.reply, reply);
        assert!(!step.finished);
    }
    let step = dispatch(MainToLoraCallKind::Exit);
    assert_eq!(step.callback, "exit");
    assert_eq!(step.reply, LoraToMainCall::Exit);
    assert!(step.finished);
}

#[test]
fn body_kinds() {
    assert_eq!(body_kind("static"), BodyKind::Fixed);
    assert_eq!(body_kind("diaxial"), BodyKind::DynamicNoRotation);
    assert_eq!(body_kind("dynamic"), BodyKind::Dynamic);
    assert_eq!(body_kind("Static"), BodyKind::Dynamic);
    assert_eq!(body_kind(""), BodyKind::Dynamic);
}

#[test]
fn shape_outlines() {
    assert_eq!(shape_kind("rectangle"), ShapeKind::Rectangle);
    assert_eq!(shape_kind("triangle"), ShapeKind::Triangle);
    assert_eq!(shape_kind("circle"), ShapeKind::Empty);
    assert_eq!(shape_kind("rectangle").indices(), vec![0, 1, 2, 3]);
    assert_eq!(shape_kind("triangle").indices(), vec![0, 1, 2]);
    assert_eq!(shape_kind("Rectangle").indices(), Vec::<u32>::new());
}

#[test]
fn primitive_slots() {
    let slots = lora::draw::fill_slots(&[7u32, 8, 9], 0);
    assert_eq!(slots.len(), 256);
    assert_eq!(&slots[..4], &[7, 8, 9, 0]);
    let many: Vec<u32> = (0..300).collect();
    let slots = lora::draw::fill_slots(&many, 0);
    assert_eq!(slots.len(), 256);
    assert_eq!(slots[255], 255);
}
