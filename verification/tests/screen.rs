use enigmascope::area::{centered, Rect};
use enigmascope::help::help_screen;
use enigmascope::paint::{Color, Line, Paragraph, Style, Widget};
use enigmascope::panels::{lampboard, rotor_drum, settings_line, signal_path, Drum, Shade};
use enigmascope::screen::ui;
use enigmascope::session::{App, Key, Screen};

const TERMINAL: Rect = Rect { x: 0, y: 0, width: 100, height: 40 };

fn still() -> [Drum; 3] {
    let shades = [Shade::Far, Shade::Far, Shade::Centre, Shade::Far, Shade::Far];
    [Drum { anchor: 0, shades, stepping: false }; 3]
}

fn text_of(w: &Widget) -> &Paragraph {
    match w {
        Widget::Text(p) => p,
        _ => panic!("no text"),
    }
}

fn flat(line: &Line) -> String {
    line.spans.iter().map(|s| s.text.as_str()).collect()
}

fn inked(c: Color) -> Style {
    Style { fg: Some(c), bg: None, bold: false }
}

#[test]
fn run_screen_has_eight_panels() {
    let app = App::new();
    let widgets = ui(&app, &still(), TERMINAL);
    assert_eq!(widgets.len(), 8);
    let areas: Vec<Rect> = widgets.iter().map(|w| text_of(w).area).collect();
    // Rows of 1, 9, 4, 5, the rest, and 1; the drums share the second.
    assert!(areas[0] == Rect { x: 0, y: 0, width: 100, height: 1 });
    for a in &areas[1..4] {
        assert_eq!((a.y, a.height), (1, 9));
    }
    assert_eq!(areas[1].x, 0);
    assert!(areas[2].x >= 33 && areas[3].x >= areas[2].x + 33);
    assert!(areas[4] == Rect { x: 0, y: 10, width: 100, height: 4 });
    assert!(areas[5] == Rect { x: 0, y: 14, width: 100, height: 5 });
    assert!(areas[6] == Rect { x: 0, y: 19, width: 100, height: 20 });
    assert!(areas[7] == Rect { x: 0, y: 39, width: 100, height: 1 });
    assert_eq!(
        flat(&text_of(&widgets[7]).lines[0]),
        "  A-Z encipher   Tab setup   ? help   Ctrl+S save   Ctrl+R reset   Esc quit"
    );
}

#[test]
fn footer_shows_a_message() {
    let mut app = App::new();
    app.flash("hello".to_string(), 0);
    let widgets = ui(&app, &still(), TERMINAL);
    let line = &text_of(&widgets[7]).lines[0];
    assert_eq!(flat(line), "  hello");
    assert!(line.spans[0].style == inked(Color::Lit));
}

#[test]
fn line_of_settings() {
    let mut app = App::new();
    app.press(0, 0);
    let w = settings_line(&app, TERMINAL);
    assert_eq!(
        flat(&text_of(&w).lines[0]),
        "  Rotors I-II-III    Reflector B    Ring AAA    Window AAB    Plugs 2"
    );
}

#[test]
fn drum_rows() {
    let shades = [Shade::Far, Shade::Near, Shade::Centre, Shade::Near, Shade::Far];
    let drum = Drum { anchor: -1, shades, stepping: true };
    let w = rotor_drum("IV", &drum, TERMINAL);
    let p = text_of(&w);
    let rows: Vec<String> = p.lines.iter().map(flat).collect();
    assert_eq!(rows, vec!["  B  ", "  A  ", "> Z <", "  Y  ", "  X  "]);
    assert!(p.lines.iter().all(|l| l.centred));
    assert!(p.lines[2].spans[0].style == Style { fg: Some(Color::Hot), bg: None, bold: true });
    assert!(p.lines[1].spans[0].style == inked(Color::Near));
    assert!(p.lines[0].spans[0].style == inked(Color::Dim));
    let border = p.border.as_ref().unwrap();
    assert_eq!(border.title, " IV ");
    assert!(border.centred && border.color == Color::Hot);
}

#[test]
fn signal_path_lights_up_to_the_hop() {
    let mut app = App::new();
    let w = signal_path(&app, TERMINAL);
    assert_eq!(flat(&text_of(&w).lines[0]).trim(), "");
    app.config.plugs.clear();
    app.apply();
    app.press(0, 0);
    app.tick(55_000_000);
    app.tick(110_000_000);
    let w = signal_path(&app, TERMINAL);
    let p = text_of(&w);
    assert_eq!(flat(&p.lines[0]), "   A   A   C   D   F   S   S   E   B   B   B  ");
    assert_eq!(
        flat(&p.lines[1]),
        "  [KB ]-[ S ]-[ R ]-[ M ]-[ L ]-[UKW]-[ L ]-[ M ]-[ R ]-[ S ]-[LMP]-"
    );
    // Box i is span 2 i + 1; two hops have been shown.
    let colors: Vec<Option<Color>> = (0..4).map(|i| p.lines[1].spans[2 * i + 1].style.fg).collect();
    assert!(colors == vec![Some(Color::Dim), Some(Color::Wire), Some(Color::Hot), Some(Color::Dim)]);
    assert!(p.lines[1].spans[4].style == inked(Color::Wire));
    assert!(p.lines[1].spans[8].style == inked(Color::Dim));
    assert!(p.lines[0].spans[5].style.bold);
}

#[test]
fn lamp_lights_once_the_signal_has_arrived() {
    let mut app = App::new();
    app.press(7, 0); // H lights I
    let dark = lampboard(&app, TERMINAL);
    assert!(text_of(&dark).lines.iter().all(|l| l.spans.iter().all(|s| !s.style.bold)));
    for i in 1..=10 {
        app.tick(i * 55_000_000);
    }
    let w = lampboard(&app, TERMINAL);
    let p = text_of(&w);
    assert_eq!(flat(&p.lines[0]), "   Q  W  E  R  T  Z  U  I  O ");
    assert_eq!(flat(&p.lines[1]), "     A  S  D  F  G  H  J  K ");
    assert_eq!(flat(&p.lines[2]), "       P  Y  X  C  V  B  N  M  L ");
    let lit: Vec<&str> = p
        .lines
        .iter()
        .flat_map(|l| l.spans.iter())
        .filter(|s| s.style.bold)
        .map(|s| s.text.as_str())
        .collect();
    assert_eq!(lit, vec![" I "]);
}

#[test]
fn setup_screen_lies_over_the_run_screen() {
    let mut app = App::new();
    app.handle_key(Key::Tab, false, 0);
    app.sel = 10;
    app.handle_key(Key::Char('x'), false, 0);
    let widgets = ui(&app, &still(), TERMINAL);
    assert_eq!(widgets.len(), 11);
    let middle = Rect { x: 18, y: 10, width: 64, height: 20 };
    assert!(matches!(&widgets[8], Widget::Clear(r) if *r == middle));
    assert!(matches!(&widgets[9], Widget::Border(r, b) if *r == middle && b.color == Color::Hot));
    let p = text_of(&widgets[10]);
    assert!(p.area == Rect { x: 19, y: 11, width: 62, height: 18 });
    assert_eq!(p.lines.len(), 16);
    assert_eq!(flat(&p.lines[0]), "  Reflector     B");
    assert_eq!(flat(&p.lines[1]), "");
    assert_eq!(flat(&p.lines[4]), "  Rotor right   III");
    assert_eq!(flat(&p.lines[14]), "> Plugboard     AM FT [X_]");
    app.config.plugs.clear();
    app.pending = None;
    let widgets = ui(&app, &still(), TERMINAL);
    assert_eq!(flat(&text_of(&widgets[10]).lines[14]), "> Plugboard     (none)");
}

#[test]
fn help_screen_fills_the_terminal() {
    let mut app = App::new();
    app.screen = Screen::Help;
    app.help_scroll = 3;
    let widgets = ui(&app, &still(), TERMINAL);
    assert_eq!(widgets.len(), 2);
    assert!(matches!(&widgets[0], Widget::Border(r, _) if *r == TERMINAL));
    let p = text_of(&widgets[1]);
    assert!(p.area == Rect { x: 1, y: 1, width: 98, height: 38 });
    assert!(p.wrap);
    assert_eq!(p.scroll, 3);
    assert_eq!(flat(&p.lines[0]), "What it is");
    assert!(p.lines[0].spans[0].style.bold);
    assert!(p.lines[1].spans[0].style == inked(Color::Ink));
    assert!(p.lines[4].spans.is_empty());
}

#[test]
fn no_room_inside_a_narrow_border() {
    let area = |x, y, width, height| {
        let widgets = help_screen(Rect { x, y, width, height }, 0);
        text_of(&widgets[1]).area
    };
    assert!(area(5, 6, 0, 1) == Rect { x: 5, y: 7, width: 0, height: 0 });
    assert!(area(u16::MAX, 3, 9, 2) == Rect { x: u16::MAX, y: 4, width: 7, height: 0 });
}

#[test]
fn centred_rectangles() {
    let r = centered(64, 20, Rect { x: 2, y: 3, width: 50, height: 31 });
    assert!(r == Rect { x: 2, y: 8, width: 50, height: 20 });
}

#[test]
fn colours() {
    assert_eq!(Color::Hot.rgb(), Some((255, 196, 60)));
    assert_eq!(Color::Dim.rgb(), Some((90, 92, 100)));
    assert_eq!(Color::White.rgb(), None);
}

#[test]
fn nothing_sticks_out_of_the_terminal() {
    let mut app = App::new();
    for screen in [Screen::Run, Screen::Setup, Screen::Help] {
        app.screen = screen;
        for (x, y, width, height) in [
            (0, 0, 100, 40),
            (0, 0, 80, 24),
            (3, 5, 41, 13),
            (7, 2, 2, 3),
            (1, 1, 1, 1),
            (4, 4, 0, 0),
            (0, 0, 65535, 65535),
            (60000, 60000, 5535, 5535),
        ] {
            for w in ui(&app, &still(), Rect { x, y, width, height }) {
                let a = match &w {
                    Widget::Clear(a) => *a,
                    Widget::Border(a, _) => *a,
                    Widget::Text(p) => p.area,
                };
                assert!(a.x >= x && a.y >= y);
                assert!(a.x as u32 + a.width as u32 <= x as u32 + width as u32);
                assert!(a.y as u32 + a.height as u32 <= y as u32 + height as u32);
            }
        }
    }
}
