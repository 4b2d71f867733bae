use graphic::{Color, Device, Display, Sprite};
use std::cell::RefCell;

struct Recorder {
    drawn: RefCell<Vec<String>>,
}

impl Recorder {
    fn new() -> Recorder {
        Recorder { drawn: RefCell::new(Vec::new()) }
    }

    fn note(&self, what: String) {
        self.drawn.borrow_mut().push(what);
    }
}

impl Display for Recorder {
    fn draw_point(&self, location: (i32, i32), trace: Color) {
        self.note(format!("point {:?} {:?}", location, trace));
    }

    fn draw_line(&self, location: ((i32, i32), (i32, i32)), trace: Color) {
        self.note(format!("line {:?} {:?}", location, trace));
    }

    fn draw_triangle(&self, location: ((i32, i32), (i32, i32), (i32, i32)), trace: Color) {
        self.note(format!("triangle {:?} {:?}", location, trace));
    }

    fn draw_rectangle(&self, location: ((i32, i32), (i32, i32)), trace: Color) {
        self.note(format!("rectangle {:?} {:?}", location, trace));
    }

    fn draw_ellipse(&self) {
        self.note(format!("ellipse"));
    }

    fn draw_round_rectangle(&self) {
        self.note(format!("round rectangle"));
    }

    fn draw_polygon(&self) {
        self.note(format!("polygon"));
    }

    fn draw_sprite(&self, sprite: &Sprite) {
        for y in 0..sprite.height() {
            for x in 0..sprite.width() {
                self.draw_point((x as i32, y as i32), sprite[(x, y)]);
            }
        }
    }

    fn play_sound(&self) {
        self.note(format!("sound"));
    }
}

impl Device for Recorder {
    fn draw_sprite(&self, sprite: Sprite) {
        self.note(format!("sprite {}x{}", sprite.width(), sprite.height()));
    }
}

#[test]
fn display_draws_each_color_of_a_sprite() {
    let mut sprite = Sprite::new(2, 2);
    sprite.set(1, 0, Color::rgb(1, 2, 3));
    let display = Recorder::new();
    Display::draw_sprite(&display, &sprite);
    let transparent = Color::default();
    let drawn = display.drawn.borrow();
    assert_eq!(drawn.len(), 4);
    assert_eq!(drawn[0], format!("point {:?} {:?}", (0, 0), transparent));
    assert_eq!(drawn[1], format!("point {:?} {:?}", (1, 0), Color::rgb(1, 2, 3)));
    assert_eq!(drawn[2], format!("point {:?} {:?}", (0, 1), transparent));
    assert_eq!(drawn[3], format!("point {:?} {:?}", (1, 1), transparent));
}

#[test]
fn display_takes_every_shape() {
    let display = Recorder::new();
    let red = Color::rgb(255, 0, 0);
    display.draw_point((1, -2), red);
    display.draw_line(((0, 0), (3, 4)), red);
    display.draw_triangle(((0, 0), (3, 0), (0, 4)), red);
    display.draw_rectangle(((-1, -1), (1, 1)), red);
    display.draw_ellipse();
    display.draw_round_rectangle();
    display.draw_polygon();
    display.play_sound();
    let drawn = display.drawn.borrow();
    assert_eq!(drawn.len(), 8);
    assert_eq!(drawn[0], format!("point {:?} {:?}", (1, -2), red));
    assert_eq!(drawn[7], "sound");
}

#[test]
fn device_takes_a_sprite() {
    let device = Recorder::new();
    Device::draw_sprite(&device, Sprite::new(16, 9));
    assert_eq!(device.drawn.borrow().as_slice(), ["sprite 16x9".to_string()]);
}
