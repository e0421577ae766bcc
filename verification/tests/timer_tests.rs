use chip8::Timer;

#[test]
fn cycle() {
    let mut timer = Timer::new();
    timer.delay_timer += 1;
    timer.sound_timer += 1;
    timer.sound_timer += 1;
    timer.cycle();
    timer.cycle();
    timer.cycle();
}

#[test]
fn new_timer_starts_at_zero() {
    let timer = Timer::new();
    assert_eq!(timer.delay_timer, 0);
    assert_eq!(timer.sound_timer, 0);
}

#[test]
fn delay_counts_down_and_clamps_at_zero() {
    let mut timer = Timer::new();
    timer.delay_timer = 5;
    timer.sound_timer = 0;
    for _ in 0..5 {
        timer.cycle();
    }
    assert_eq!(timer.delay_timer, 0);
    // A sixth tick must leave it at 0: no underflow.
    timer.cycle();
    assert_eq!(timer.delay_timer, 0);
}

#[test]
fn sound_tick_beeps_exactly_once() {
    let mut timer = Timer::new();
    timer.sound_timer = 1;
    let beeped = timer.cycle();
    assert!(beeped);
    assert_eq!(timer.sound_timer, 0);
    // No further beep once the counter reached zero.
    let beeped_again = timer.cycle();
    assert!(!beeped_again);
    assert_eq!(timer.sound_timer, 0);
}

#[test]
fn timers_count_down_independently() {
    let mut timer = Timer::new();
    timer.delay_timer = 2;
    timer.sound_timer = 3;
    assert!(timer.cycle());
    assert_eq!(timer.delay_timer, 1);
    assert_eq!(timer.sound_timer, 2);
    assert!(timer.cycle());
    assert_eq!(timer.delay_timer, 0);
    assert_eq!(timer.sound_timer, 1);
    assert!(timer.cycle());
    assert_eq!(timer.delay_timer, 0);
    assert_eq!(timer.sound_timer, 0);
}
