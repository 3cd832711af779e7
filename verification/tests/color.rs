use glorious::Color;

#[test]
fn mul_alpha_keeps_the_color() {
    let c = Color(10, 20, 30, 255).mul_alpha(128);
    assert_eq!(c, Color(10, 20, 30, 128));
}

#[test]
fn mul_alpha_rounds_down() {
    assert_eq!(Color(1, 2, 3, 200).mul_alpha(100), Color(1, 2, 3, 78));
    assert_eq!(Color(1, 2, 3, 1).mul_alpha(254), Color(1, 2, 3, 0));
}

#[test]
fn mul_alpha_at_the_ends() {
    assert_eq!(Color(9, 9, 9, 255).mul_alpha(255), Color(9, 9, 9, 255));
    assert_eq!(Color(9, 9, 9, 255).mul_alpha(0), Color(9, 9, 9, 0));
    assert_eq!(Color(9, 9, 9, 0).mul_alpha(255), Color(9, 9, 9, 0));
}

#[test]
fn color_from_three_is_opaque() {
    assert_eq!(Color::from((1, 2, 3)), Color(1, 2, 3, 255));
}

#[test]
fn color_from_four_keeps_alpha() {
    assert_eq!(Color::from((1, 2, 3, 4)), Color(1, 2, 3, 4));
}
