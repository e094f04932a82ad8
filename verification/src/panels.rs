//! The panels of the run screen: settings, drums, signal path, lamps and tape.

use vstd::prelude::*;
use vstd::string::*;

use crate::area::Rect;
use crate::enigma::{wrap26, REFLECTORS};
use crate::paint::{
    bare_line, bare_text, bold, double, inked, line_of, line_views, pair_of, panel, plain, push_line,
    push_span, span_of, span_views, titled, Border, BorderView, Color, Line, LineView, Paragraph,
    ParagraphView, Span, SpanView, Style, Widget, WidgetView,
};
use crate::report::windows_text;
use crate::session::{App, AppView};
use crate::text::{
    centred, contact, contact_of, decimal, group, grouped, letter_of, push_centred, push_decimal,
    push_letter, push_repeated, repeated,
};

verus! {

/// The rows of lamps.
pub const LAMPS: [&'static str; 3] = ["QWERTZUIO", "ASDFGHJK", "PYXCVBNML"];

/// What the signal passes, from the keyboard to the lamps.
pub const SIGNAL_LABELS: [&'static str; 11] = [
    "KB",
    "S",
    "R",
    "M",
    "L",
    "UKW",
    "L",
    "M",
    "R",
    "S",
    "LMP",
];

/// A footer in a colour.
pub open spec fn footer_view(area: Rect, text: Seq<char>, color: Color) -> WidgetView {
    bare_text(area, seq![line_of("  "@ + text, inked(color))])
}

/// A footer in a colour.
pub fn footer_styled(area: Rect, text: &str, color: Color) -> (w: Widget)
    ensures
        w@ == footer_view(area, text@, color),
{
    let mut line = "  ".to_string();
    line.append(text);
    bare_line(area, line, Style::inked(color))
}

/// The ring settings of the machine.
pub open spec fn rings_text(app: AppView) -> Seq<char> {
    seq![
        letter_of(app.machine.left.ring),
        letter_of(app.machine.middle.ring),
        letter_of(app.machine.right.ring),
    ]
}

/// The line at the top: rotors, reflector, rings, windows, number of cables.
pub open spec fn status_text(app: AppView) -> Seq<char> {
    "  Rotors "@ + app.machine.left.spec.name@ + "-"@ + app.machine.middle.spec.name@ + "-"@
        + app.machine.right.spec.name@ + "    Reflector "@ + REFLECTORS[app.config.reflector as int].0@
        + "    Ring "@ + rings_text(app) + "    Window "@ + windows_text(app.machine)
        + "    Plugs "@ + decimal(app.config.plugs.len())
}

/// The line at the top.
pub open spec fn settings_view(app: AppView, area: Rect) -> WidgetView {
    bare_text(area, seq![line_of(status_text(app), inked(Color::Ink))])
}

/// The line at the top.
pub fn settings_line(app: &App, area: Rect) -> (w: Widget)
    requires
        app@.wf(),
    ensures
        w@ == settings_view(app@, area),
{
    let r = &app.machine.rotors;
    let mut rings = String::new();
    push_letter(&mut rings, r[0].ring);
    push_letter(&mut rings, r[1].ring);
    push_letter(&mut rings, r[2].ring);
    let mut windows = String::new();
    windows.push(r[0].window());
    windows.push(r[1].window());
    windows.push(r[2].window());
    proof {
        assert(rings@ =~= rings_text(app@));
        assert(windows@ =~= windows_text(app@.machine));
    }
    let mut text = "  Rotors ".to_string();
    text.append(r[0].spec.name);
    text.append("-");
    text.append(r[1].spec.name);
    text.append("-");
    text.append(r[2].spec.name);
    text.append("    Reflector ");
    text.append(REFLECTORS[app.config.reflector].0);
    text.append("    Ring ");
    text.append(rings.as_str());
    text.append("    Window ");
    text.append(windows.as_str());
    text.append("    Plugs ");
    push_decimal(&mut text, app.config.plugs.len() as u64);
    bare_line(area, text, Style::inked(Color::Ink))
}

/// How far a row of a drum is from the window.
#[derive(Clone, Copy, PartialEq, Eq, Structural)]
pub enum Shade {
    Centre,
    Near,
    Far,
}

/// A drum in motion.
#[derive(Clone, Copy)]
pub struct Drum {
    /// The click that is nearest to the window.
    pub anchor: i32,
    /// The rows from top to bottom.
    pub shades: [Shade; 5],
    /// The rotor has just stepped.
    pub stepping: bool,
}

impl Drum {
    /// Every row of the drum can be counted from the anchor.
    pub open spec fn is_in_range(self) -> bool {
        i32::MIN + 2 <= self.anchor <= i32::MAX - 2
    }

    /// The style of a row.
    pub open spec fn row_style(self, row: int) -> Style {
        match self.shades[row] {
            Shade::Centre => if self.stepping {
                bold(Color::Hot)
            } else {
                bold(Color::White)
            },
            Shade::Near => inked(Color::Near),
            Shade::Far => inked(Color::Dim),
        }
    }

    /// The letter of a row; the window is row 2, and letters rise upwards.
    pub open spec fn row_letter(self, row: int) -> char {
        letter_of(((self.anchor + 2 - row) % 26) as u8)
    }

    /// A row of the drum.
    pub open spec fn row_view(self, row: int) -> LineView {
        let text = if row == 2 {
            "> "@ + seq![self.row_letter(row)] + " <"@
        } else {
            "  "@ + seq![self.row_letter(row)] + "  "@
        };
        LineView { spans: seq![span_of(text, self.row_style(row))], centred: true }
    }

    /// A row of the drum.
    fn row(&self, row: usize) -> (line: Line)
        requires
            self.is_in_range(),
            row < 5,
        ensures
            line@ == self.row_view(row as int),
    {
        let style = match self.shades[row] {
            Shade::Centre => if self.stepping {
                Style::bold(Color::Hot)
            } else {
                Style::bold(Color::White)
            },
            Shade::Near => Style::inked(Color::Near),
            Shade::Far => Style::inked(Color::Dim),
        };
        let c: u8 = wrap26(self.anchor + (2 - row as i32));
        let mut text = if row == 2 {
            "> ".to_string()
        } else {
            "  ".to_string()
        };
        push_letter(&mut text, c);
        if row == 2 {
            text.append(" <");
        } else {
            text.append("  ");
        }
        let mut spans: Vec<Span> = Vec::new();
        push_span(&mut spans, text, style);
        let line = Line { spans, centred: true };
        proof {
            assert(line@.spans =~= self.row_view(row as int).spans);
        }
        line
    }
}

/// A drum under the name of its rotor.
pub open spec fn drum_view(name: Seq<char>, drum: Drum, area: Rect) -> WidgetView {
    panel(
        area,
        BorderView {
            color: if drum.stepping {
                Color::Hot
            } else {
                Color::Frame
            },
            title: " "@ + name + " "@,
            centred: true,
        },
        Seq::new(5, |row: int| drum.row_view(row)),
    )
}

/// A drum under the name of its rotor.
pub fn rotor_drum(name: &str, drum: &Drum, area: Rect) -> (w: Widget)
    requires
        drum.is_in_range(),
    ensures
        w@ == drum_view(name@, *drum, area),
{
    let mut lines: Vec<Line> = Vec::new();
    let mut row: usize = 0;
    while row < 5
        invariant
            row <= 5,
            drum.is_in_range(),
            line_views(lines@) == Seq::new(row as nat, |k: int| drum.row_view(k)),
        decreases 5 - row,
    {
        push_line(&mut lines, drum.row(row));
        row += 1;
        proof {
            assert(line_views(lines@) =~= Seq::new(row as nat, |k: int| drum.row_view(k)));
        }
    }
    let color = if drum.stepping {
        Color::Hot
    } else {
        Color::Frame
    };
    let mut title = " ".to_string();
    title.append(name);
    title.append(" ");
    let border = Border { color, title, centred: true };
    Widget::Text(Paragraph { area, border: Some(border), lines, wrap: false, scroll: 0 })
}

/// A place on the signal path that the signal has reached.
pub open spec fn is_lit(app: AppView, i: int) -> bool {
    app.anim matches Some(a) && 1 <= i <= a.hop
}

/// The place on the signal path where the signal is.
pub open spec fn is_active(app: AppView, i: int) -> bool {
    app.anim matches Some(a) && i == a.hop
}

/// The letter at a place on the signal path: the key, then what each hop makes
/// of it.
pub open spec fn path_letter(app: AppView, i: int) -> char {
    match app.anim {
        Some(a) => if i == 0 {
            letter_of(a.trace.hops[0].input)
        } else if 1 <= i <= a.trace.hops.len() {
            letter_of(a.trace.hops[i - 1].output)
        } else {
            ' '
        },
        None => ' ',
    }
}

/// The letter over a place on the signal path.
pub open spec fn letter_span(app: AppView, i: int) -> SpanView {
    span_of(
        " "@ + seq![path_letter(app, i)] + " "@,
        if is_active(app, i) {
            bold(Color::Hot)
        } else if is_lit(app, i) {
            inked(Color::White)
        } else {
            inked(Color::Dim)
        },
    )
}

/// The box of a place on the signal path.
pub open spec fn box_span(app: AppView, i: int) -> SpanView {
    span_of(
        "["@ + centred(SIGNAL_LABELS[i]@, 3) + "]"@,
        if is_active(app, i) {
            inked(Color::Hot)
        } else if is_lit(app, i) {
            inked(Color::Wire)
        } else {
            inked(Color::Dim)
        },
    )
}

/// The wire behind a place on the signal path.
pub open spec fn wire_span(app: AppView, i: int) -> SpanView {
    span_of(
        "-"@,
        if is_lit(app, i) {
            inked(Color::Wire)
        } else {
            inked(Color::Dim)
        },
    )
}

/// The letters over the first `n` places.
pub open spec fn letter_row(app: AppView, n: nat) -> Seq<SpanView>
    decreases n,
{
    if n == 0 {
        seq![span_of("  "@, plain())]
    } else {
        letter_row(app, (n - 1) as nat).push(letter_span(app, n - 1)).push(span_of(" "@, plain()))
    }
}

/// The boxes and wires of the first `n` places.
pub open spec fn box_row(app: AppView, n: nat) -> Seq<SpanView>
    decreases n,
{
    if n == 0 {
        seq![span_of("  "@, plain())]
    } else {
        box_row(app, (n - 1) as nat).push(box_span(app, n - 1)).push(wire_span(app, n - 1))
    }
}

/// The path of the signal.
pub open spec fn signal_view(app: AppView, area: Rect) -> WidgetView {
    panel(
        area,
        titled(
            Color::Frame,
            " signal path  (keyboard > plugboard > rotors > reflector > back > lamp) "@,
        ),
        seq![
            LineView { spans: letter_row(app, 11), centred: false },
            LineView { spans: box_row(app, 11), centred: false },
        ],
    )
}

/// The letter at a place on the signal path, with a space on either side.
fn path_letter_text(app: &App, i: usize) -> (text: String)
    requires
        app@.wf(),
    ensures
        text@ == letter_span(app@, i as int).text,
{
    let mut text = " ".to_string();
    match &app.anim {
        Some(a) => {
            proof {
                assert(app@.anim == Some(a@));
                assert(a@.trace.is_path());
            }
            let hops = &a.trace.hops;
            if i == 0 {
                assert(a@.trace.hops[0].input < 26);
                push_letter(&mut text, hops[0].input);
            } else if i <= hops.len() {
                assert(a@.trace.hops[i - 1].output < 26);
                push_letter(&mut text, hops[i - 1].output);
            } else {
                text.push(' ');
            }
        },
        None => {
            text.push(' ');
        },
    }
    proof {
        assert(text@ =~= " "@ + seq![path_letter(app@, i as int)]);
    }
    text.append(" ");
    text
}

/// The path of the signal.
pub fn signal_path(app: &App, area: Rect) -> (w: Widget)
    requires
        app@.wf(),
    ensures
        w@ == signal_view(app@, area),
{
    let (shown, active) = match &app.anim {
        Some(a) => (true, a.hop),
        None => (false, 0),
    };
    let mut top: Vec<Span> = Vec::new();
    let mut mid: Vec<Span> = Vec::new();
    push_span(&mut top, "  ".to_string(), Style::plain());
    push_span(&mut mid, "  ".to_string(), Style::plain());
    let mut i: usize = 0;
    proof {
        assert(span_views(top@) =~= letter_row(app@, 0));
        assert(span_views(mid@) =~= box_row(app@, 0));
    }
    while i < 11
        invariant
            i <= 11,
            app@.wf(),
            shown == app@.anim is Some,
            app@.anim matches Some(a) ==> active == a.hop,
            span_views(top@) == letter_row(app@, i as nat),
            span_views(mid@) == box_row(app@, i as nat),
        decreases 11 - i,
    {
        let lit = shown && i <= active && i >= 1;
        let very = shown && i == active;
        assert(lit == is_lit(app@, i as int));
        assert(very == is_active(app@, i as int));
        let letter_style = if very {
            Style::bold(Color::Hot)
        } else if lit {
            Style::inked(Color::White)
        } else {
            Style::inked(Color::Dim)
        };
        push_span(&mut top, path_letter_text(app, i), letter_style);
        push_span(&mut top, " ".to_string(), Style::plain());
        let box_color = if very {
            Color::Hot
        } else if lit {
            Color::Wire
        } else {
            Color::Dim
        };
        let wire_color = if lit {
            Color::Wire
        } else {
            Color::Dim
        };
        let mut label = "[".to_string();
        push_centred(&mut label, SIGNAL_LABELS[i], 3);
        label.append("]");
        push_span(&mut mid, label, Style::inked(box_color));
        push_span(&mut mid, "-".to_string(), Style::inked(wire_color));
        i += 1;
    }
    let mut lines: Vec<Line> = Vec::new();
    push_line(&mut lines, Line { spans: top, centred: false });
    push_line(&mut lines, Line { spans: mid, centred: false });
    let title =
        " signal path  (keyboard > plugboard > rotors > reflector > back > lamp) ".to_string();
    let border = Border { color: Color::Frame, title, centred: false };
    let w = Widget::Text(Paragraph { area, border: Some(border), lines, wrap: false, scroll: 0 });
    proof {
        assert(w@->Text_0.lines =~= signal_view(app@, area)->Text_0.lines);
    }
    w
}

/// A lamp.
pub open spec fn lamp_span(c: char, live: Option<u8>) -> SpanView {
    span_of(
        " "@ + seq![c] + " "@,
        if live is Some && contact_of(c) == live {
            Style { fg: Some(Color::Black), bg: Some(Color::Lit), bold: true }
        } else {
            inked(Color::Unlit)
        },
    )
}

/// A row of lamps, each row set in by two more cells.
pub open spec fn lamp_row(row: int, live: Option<u8>) -> LineView {
    LineView {
        spans: seq![span_of(repeated(' ', (2 * row + 2) as nat), plain())] + Seq::new(
            LAMPS[row]@.len(),
            |i: int| lamp_span(LAMPS[row]@[i], live),
        ),
        centred: false,
    }
}

/// The lamps, one of them lit once a signal has arrived.
pub open spec fn lampboard_view(app: AppView, area: Rect) -> WidgetView {
    panel(
        area,
        titled(Color::Frame, " lampboard "@),
        Seq::new(3, |row: int| lamp_row(row, app.live_lamp())),
    )
}

/// A row of lamps.
fn lamp_line(row: usize, live: Option<u8>) -> (line: Line)
    requires
        row < 3,
    ensures
        line@ == lamp_row(row as int, live),
{
    let mut spans: Vec<Span> = Vec::new();
    let mut indent = String::new();
    push_repeated(&mut indent, ' ', 2 * row + 2);
    proof {
        assert(indent@ =~= repeated(' ', (2 * row + 2) as nat));
    }
    push_span(&mut spans, indent, Style::plain());
    let lamps: &str = LAMPS[row];
    let n: usize = lamps.unicode_len();
    let mut i: usize = 0;
    let ghost head = seq![span_of(repeated(' ', (2 * row + 2) as nat), plain())];
    proof {
        assert(span_views(spans@) =~= head + Seq::new(0, |k: int| lamp_span(lamps@[k], live)));
    }
    while i < n
        invariant
            i <= n,
            n == lamps@.len(),
            span_views(spans@) == head + Seq::new(i as nat, |k: int| lamp_span(lamps@[k], live)),
        decreases n - i,
    {
        let c: char = lamps.get_char(i);
        let on = match (contact(c), live) {
            (Some(v), Some(l)) => v == l,
            _ => false,
        };
        let style = if on {
            Style { fg: Some(Color::Black), bg: Some(Color::Lit), bold: true }
        } else {
            Style::inked(Color::Unlit)
        };
        let mut text = " ".to_string();
        text.push(c);
        proof {
            assert(text@ =~= " "@ + seq![c]);
        }
        text.append(" ");
        push_span(&mut spans, text, style);
        i += 1;
        proof {
            assert(span_views(spans@) =~= head + Seq::new(
                i as nat,
                |k: int| lamp_span(lamps@[k], live),
            ));
        }
    }
    let line = Line { spans, centred: false };
    proof {
        assert(line@.spans =~= lamp_row(row as int, live).spans);
    }
    line
}

/// The lamps, one of them lit once a signal has arrived.
pub fn lampboard(app: &App, area: Rect) -> (w: Widget)
    ensures
        w@ == lampboard_view(app@, area),
{
    let live = app.live_lamp();
    let mut lines: Vec<Line> = Vec::new();
    push_line(&mut lines, lamp_line(0, live));
    push_line(&mut lines, lamp_line(1, live));
    push_line(&mut lines, lamp_line(2, live));
    let border = Border { color: Color::Frame, title: " lampboard ".to_string(), centred: false };
    let w = Widget::Text(Paragraph { area, border: Some(border), lines, wrap: false, scroll: 0 });
    proof {
        assert(w@->Text_0.lines =~= lampboard_view(app@, area)->Text_0.lines);
    }
    w
}

/// What has been typed, and what it was enciphered to.
pub open spec fn tape_view(app: AppView, area: Rect) -> WidgetView {
    WidgetView::Text(
        ParagraphView {
            area,
            border: Some(titled(Color::Frame, " tape "@)),
            lines: seq![
                pair_of(
                    span_of("  in   "@, inked(Color::Dim)),
                    span_of(grouped(app.plaintext), inked(Color::Ink)),
                ),
                pair_of(
                    span_of("  out  "@, inked(Color::Dim)),
                    span_of(grouped(app.ciphertext), bold(Color::Lit)),
                ),
            ],
            wrap: true,
            scroll: 0,
        },
    )
}

/// What has been typed, and what it was enciphered to.
pub fn text_log(app: &App, area: Rect) -> (w: Widget)
    requires
        app@.wf(),
    ensures
        w@ == tape_view(app@, area),
{
    let mut lines: Vec<Line> = Vec::new();
    push_line(
        &mut lines,
        double(
            "  in   ".to_string(),
            Style::inked(Color::Dim),
            group(app.plaintext.as_str()),
            Style::inked(Color::Ink),
        ),
    );
    push_line(
        &mut lines,
        double(
            "  out  ".to_string(),
            Style::inked(Color::Dim),
            group(app.ciphertext.as_str()),
            Style::bold(Color::Lit),
        ),
    );
    let border = Border { color: Color::Frame, title: " tape ".to_string(), centred: false };
    let w = Widget::Text(Paragraph { area, border: Some(border), lines, wrap: true, scroll: 0 });
    proof {
        assert(w@->Text_0.lines =~= tape_view(app@, area)->Text_0.lines);
    }
    w
}

} // verus!
