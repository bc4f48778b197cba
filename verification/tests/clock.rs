use lora::clock::StepClock;

fn steps_due(clock: &mut StepClock, now: i64) -> u32 {
    let mut steps = 0;
    while clock.is_due(now) {
        clock.advance();
        steps += 1;
    }
    steps
}

#[test]
fn clock_steps_until_past_now() {
    let mut clock = StepClock::new(1_000, 10);
    assert_eq!(steps_due(&mut clock, 1_000), 0);
    assert_eq!(steps_due(&mut clock, 1_001), 1);
    assert_eq!(clock.next_time(), 1_010);
    assert_eq!(steps_due(&mut clock, 1_010), 0);
    assert_eq!(steps_due(&mut clock, 1_055), 5);
    assert_eq!(clock.next_time(), 1_060);
    assert_eq!(steps_due(&mut clock, 900), 0);
}

#[test]
fn each_step_moves_by_the_length_then_in_force() {
    let mut clock = StepClock::new(0, 10_000_000);
    assert_eq!(clock.length(), 10_000_000);
    assert!(clock.is_due(9));
    clock.set_step_length(4);
    clock.advance();
    assert_eq!(clock.next_time(), 4);
    assert!(clock.is_due(9));
    clock.set_step_length(2);
    clock.advance();
    assert_eq!(clock.next_time(), 6);
    assert_eq!(steps_due(&mut clock, 9), 2);
    assert_eq!(clock.next_time(), 10);
    assert!(!clock.is_due(9));
}
