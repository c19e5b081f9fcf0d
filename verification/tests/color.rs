use mandelart::{color_escape, colorize};

#[test]
fn bounded_point_is_black() {
    assert_eq!(color_escape(None), (0, 0, 0));
}

#[test]
fn immediate_escape_is_black() {
    assert_eq!(colorize(0), (0, 0, 0));
    assert_eq!(color_escape(Some(0)), (0, 0, 0));
}

#[test]
fn escape_count_is_halved() {
    assert_eq!(colorize(1), (0, 0, 0));
    assert_eq!(colorize(2), (1, 0, 0));
    assert_eq!(colorize(3), (1, 0, 0));
    assert_eq!(colorize(200), (100, 0, 0));
    assert_eq!(colorize(509), (254, 0, 0));
}

#[test]
fn red_saturates_at_255() {
    assert_eq!(colorize(510), (255, 0, 0));
    assert_eq!(colorize(511), (255, 0, 0));
}

#[test]
fn green_joins_at_half_count_256() {
    assert_eq!(colorize(511), (255, 0, 0));
    assert_eq!(colorize(512), (255, 255, 0));
    assert_eq!(colorize(1023), (255, 255, 0));
}

#[test]
fn blue_joins_at_half_count_512() {
    assert_eq!(colorize(1023), (255, 255, 0));
    assert_eq!(colorize(1024), (255, 255, 255));
    assert_eq!(colorize(3999), (255, 255, 255));
}

#[test]
fn largest_count_is_white() {
    assert_eq!(colorize(u32::MAX), (255, 255, 255));
}

#[test]
fn escaped_point_takes_the_ramp_colour() {
    for t in [0u32, 1, 2, 255, 510, 512, 1024, 3999] {
        assert_eq!(color_escape(Some(t)), colorize(t));
    }
    assert_eq!(color_escape(Some(700)), (255, 255, 0));
}

#[test]
fn ramp_never_darkens() {
    let mut last = colorize(0);
    for t in 1u32..4000 {
        let next = colorize(t);
        assert!(last.0 <= next.0 && last.1 <= next.1 && last.2 <= next.2);
        last = next;
    }
    assert_eq!(last, (255, 255, 255));
}
