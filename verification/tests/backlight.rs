use allium::backlight::{brightness_for, duty_for};

#[test]
fn the_ends_are_where_they_should_be() {
    assert_eq!(duty_for(0), 1, "dimmest, but still lit");
    assert_eq!(duty_for(100), 100, "the top of the slider is unchanged");
    assert_eq!(duty_for(50), 10);
    // What the old linear slider's floor of 3 now corresponds to
    assert_eq!(duty_for(20), 3);
}

#[test]
fn brighter_is_never_dimmer() {
    let mut previous = 0;
    for brightness in 0..=100u8 {
        let duty = duty_for(brightness);
        assert!(
            duty >= previous,
            "{brightness} gave {duty} after {previous}"
        );
        previous = duty;
    }
}

#[test]
fn out_of_range_is_clamped_not_wrapped() {
    assert_eq!(duty_for(u8::MAX), duty_for(100));
    assert_eq!(brightness_for(0), 0, "below the dimmest duty");
    assert_eq!(brightness_for(10_000), 100, "above the brightest");
}

#[test]
fn a_duty_round_trips_to_its_own_slider_position() {
    for brightness in 0..=100u8 {
        let round_tripped = brightness_for(duty_for(brightness));
        let drift = i32::from(round_tripped) - i32::from(brightness);
        assert_eq!(
            duty_for(round_tripped),
            duty_for(brightness),
            "{brightness} -> {round_tripped} (drift {drift}) changed the duty"
        );
    }
}

#[test]
fn each_step_is_the_same_multiple() {
    for brightness in (50..=95u8).step_by(5) {
        let ratio = duty_for(brightness + 5) as f32 / duty_for(brightness) as f32;
        assert!(
            (ratio - 1.26).abs() < 0.08,
            "{brightness} -> {} was a factor of {ratio}",
            brightness + 5
        );
    }
}

#[test]
fn the_table_is_the_nearest_power() {
    for b in 0..=100u8 {
        let exact = 100f64.powf(f64::from(b) / 100.0).round() as u32;
        assert_eq!(duty_for(b), exact, "{b}");
    }
    for d in 1..=100u32 {
        let exact = (f64::from(d).ln() / 100f64.ln() * 100.0).round() as u8;
        assert_eq!(brightness_for(d), exact, "{d}");
    }
}

#[test]
fn blank_without_an_argument_blanks() {
    assert!(allium::backlight::should_blank(None));
    assert!(allium::backlight::should_blank(Some(true)));
    assert!(!allium::backlight::should_blank(Some(false)));
}
