use chip8::chip8::CHIP8;
use chip8::timer::{Timers, NANOS_PER_SECOND, TIMER_HZ};

fn with_delay(value: u8) -> CHIP8 {
    let mut chip = CHIP8::new(&[0x60, value, 0xF0, 0x15, 0xF0, 0x18, 0x12, 0x06]);
    assert_eq!(chip.tick_with(0, 0), Ok(()));
    assert_eq!(chip.tick_with(0, 0), Ok(()));
    assert_eq!(chip.tick_with(0, 0), Ok(()));
    assert_eq!(chip.delay_timer(), value);
    assert_eq!(chip.sound_timer(), value);
    chip
}

#[test]
fn one_period_is_a_sixtieth_of_a_second() {
    assert_eq!(TIMER_HZ, 60);
    assert_eq!(NANOS_PER_SECOND, 1_000_000_000);
    let mut t = Timers { delay: 60, sound: 1, residue: 0 };
    t.advance(16_666_666);
    assert_eq!(t, Timers { delay: 60, sound: 1, residue: 999_999_960 });
    t.advance(1);
    assert_eq!(t, Timers { delay: 59, sound: 0, residue: 20 });
}

#[test]
fn timers_stop_at_zero() {
    let mut t = Timers { delay: 3, sound: 200, residue: 0 };
    t.advance(100_000_000);
    assert_eq!(t, Timers { delay: 0, sound: 194, residue: 0 });
    t.advance(u64::MAX);
    assert_eq!(t.delay, 0);
    assert_eq!(t.sound, 0);
    assert_eq!(t.residue as u128, (60 * u64::MAX as u128) % 1_000_000_000);
}

#[test]
fn no_time_no_decay() {
    let mut t = Timers { delay: 9, sound: 9, residue: 999_999_999 };
    t.advance(0);
    assert_eq!(t, Timers { delay: 9, sound: 9, residue: 999_999_999 });
}

#[test]
fn a_second_in_one_tick() {
    let mut chip = with_delay(60);
    assert_eq!(chip.tick_with(1_000_000_000, 0), Ok(()));
    assert_eq!(chip.delay_timer(), 0);
    assert_eq!(chip.sound_timer(), 0);
}

#[test]
fn ticks_at_120_hz_decay_once_per_pair() {
    // 1/120 s, rounded up to a whole nanosecond.
    let mut chip = with_delay(60);
    for pair in 1..=60u8 {
        assert_eq!(chip.tick_with(8_333_334, 0), Ok(()));
        assert_eq!(chip.delay_timer(), 60 - (pair - 1));
        assert_eq!(chip.tick_with(8_333_334, 0), Ok(()));
        assert_eq!(chip.delay_timer(), 60 - pair);
    }
    assert_eq!(chip.delay_timer(), 0);
    assert_eq!(chip.tick_with(8_333_334, 0), Ok(()));
    assert_eq!(chip.delay_timer(), 0);
}

#[test]
fn ticks_at_240_hz_decay_once_per_four() {
    let mut chip = with_delay(60);
    for _ in 0..240 {
        assert_eq!(chip.tick_with(4_166_667, 0), Ok(()));
    }
    assert_eq!(chip.delay_timer(), 0);
    let mut chip = with_delay(60);
    for _ in 0..120 {
        assert_eq!(chip.tick_with(4_166_667, 0), Ok(()));
    }
    assert_eq!(chip.delay_timer(), 30);
}

#[test]
fn ticks_at_30_hz_decay_twice_each() {
    let mut chip = with_delay(60);
    for k in 1..=10u8 {
        assert_eq!(chip.tick_with(33_333_334, 0), Ok(()));
        assert_eq!(chip.delay_timer(), 60 - 2 * k);
    }
}

#[test]
fn decay_does_not_depend_on_how_time_is_cut() {
    let cuts: [&[u64]; 4] = [
        &[500_000_000],
        &[250_000_000, 250_000_000],
        &[1, 499_999_998, 1],
        &[16_666_666, 16_666_667, 466_666_667],
    ];
    for cut in cuts {
        let mut chip = with_delay(200);
        for &elapsed in cut {
            assert_eq!(chip.tick_with(elapsed, 0), Ok(()));
        }
        assert_eq!(chip.delay_timer(), 170);
        assert_eq!(chip.sound_timer(), 170);
    }
}

#[test]
fn a_residue_of_a_period_or_more_is_consumed() {
    let mut t = Timers { delay: 9, sound: 1, residue: 2_500_000_000 };
    t.advance(0);
    assert_eq!(t, Timers { delay: 7, sound: 0, residue: 500_000_000 });
}
