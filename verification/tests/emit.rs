use pxlha::emit::ColorEmitter;
use pxlha::prominent_color::Color;

fn color(hue: u32, saturation: u32, lightness: u32) -> Color {
    Color { hue, saturation, lightness }
}

#[test]
fn emitter_starts_at_the_neutral_color() {
    let mut emitter = ColorEmitter::new();
    assert_eq!(emitter.last_value, color(0, 0, 0));
    assert_eq!(emitter.observe(color(0, 0, 0)), None);
}

#[test]
fn a_changed_color_is_passed_on() {
    let mut emitter = ColorEmitter::new();
    assert_eq!(emitter.observe(color(120, 80, 50)), Some(color(120, 80, 50)));
    assert_eq!(emitter.last_value, color(120, 80, 50));
    assert_eq!(emitter.observe(color(120, 80, 55)), Some(color(120, 80, 55)));
    assert_eq!(emitter.observe(color(0, 0, 0)), Some(color(0, 0, 0)));
}

#[test]
fn a_repeated_color_is_passed_on_once() {
    let mut emitter = ColorEmitter::new();
    let green = color(120, 80, 50);
    let mut passed_on = 0;
    for _ in 0..5 {
        if emitter.observe(green).is_some() {
            passed_on += 1;
        }
    }
    assert_eq!(passed_on, 1);
}

#[test]
fn emissions_never_repeat() {
    let observed = [
        color(0, 0, 0),
        color(10, 20, 30),
        color(10, 20, 30),
        color(10, 20, 35),
        color(10, 20, 30),
        color(10, 20, 30),
        color(0, 0, 0),
        color(0, 0, 0),
    ];
    let mut emitter = ColorEmitter::new();
    let mut emitted: Vec<Color> = Vec::new();
    for c in observed {
        if let Some(e) = emitter.observe(c) {
            emitted.push(e);
        }
    }
    assert_eq!(
        emitted,
        vec![color(10, 20, 30), color(10, 20, 35), color(10, 20, 30), color(0, 0, 0)]
    );
    for pair in emitted.windows(2) {
        assert_ne!(pair[0], pair[1]);
    }
}
