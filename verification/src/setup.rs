//! The setup screen, which lies over the run screen.

use vstd::prelude::*;
use vstd::string::*;

use crate::area::{centered, has_middle, inside, inside_border, middle_of, Rect};
use crate::config::ConfigView;
use crate::enigma::{standard_rotor, REFLECTORS, ROTORS};
use crate::paint::{
    bare_text, blank, bold, double, free_line, inked, line_of, line_views, pair_of, push_line,
    push_widget, single, span_of, titled, widget_views, Border, Color, Line, LineView, Paragraph, Style, Widget,
    WidgetView,
};
use crate::session::{App, AppView};
use crate::text::{left_aligned, letter, letter_of, push_left_aligned, push_letter};

verus! {

/// A setup field: a mark if it is selected, its name, and its value.
pub open spec fn field_view(app: AppView, field: int, label: Seq<char>, value: Seq<char>) -> LineView {
    if app.sel == field {
        pair_of(
            span_of("> "@ + left_aligned(label, 14), bold(Color::Hot)),
            span_of(value, inked(Color::White)),
        )
    } else {
        pair_of(
            span_of("  "@ + left_aligned(label, 14), inked(Color::Ink)),
            span_of(value, inked(Color::White)),
        )
    }
}

/// The cables, a space behind each.
pub open spec fn cables_listed(plugs: Seq<(u8, u8)>) -> Seq<char>
    decreases plugs.len(),
{
    if plugs.len() == 0 {
        Seq::empty()
    } else {
        cables_listed(plugs.drop_last()) + seq![
            letter_of(plugs.last().0),
            letter_of(plugs.last().1),
            ' ',
        ]
    }
}

/// The value of the plugboard field: the cables, then the letter that waits for
/// its partner.
pub open spec fn plug_field(plugs: Seq<(u8, u8)>, pending: Option<u8>) -> Seq<char> {
    if plugs.len() == 0 && pending is None {
        "(none)"@
    } else {
        match pending {
            Some(p) => cables_listed(plugs) + "["@ + seq![letter_of(p)] + "_]"@,
            None => cables_listed(plugs),
        }
    }
}

/// The name of the rotor in a slot.
pub open spec fn rotor_name(c: ConfigView, slot: int) -> Seq<char> {
    standard_rotor(c.rotors[slot] as int).name@
}

/// The lines of the setup screen.
pub open spec fn setup_lines(app: AppView) -> Seq<LineView> {
    let c = app.config;
    seq![
        field_view(app, 0, "Reflector"@, REFLECTORS[c.reflector as int].0@),
        free_line(),
        field_view(app, 1, "Rotor left"@, rotor_name(c, 0)),
        field_view(app, 2, "Rotor middle"@, rotor_name(c, 1)),
        field_view(app, 3, "Rotor right"@, rotor_name(c, 2)),
        free_line(),
        field_view(app, 4, "Ring left"@, seq![letter_of(c.rings[0])]),
        field_view(app, 5, "Ring middle"@, seq![letter_of(c.rings[1])]),
        field_view(app, 6, "Ring right"@, seq![letter_of(c.rings[2])]),
        free_line(),
        field_view(app, 7, "Start left"@, seq![letter_of(c.positions[0])]),
        field_view(app, 8, "Start middle"@, seq![letter_of(c.positions[1])]),
        field_view(app, 9, "Start right"@, seq![letter_of(c.positions[2])]),
        free_line(),
        field_view(app, 10, "Plugboard"@, plug_field(c.plugs, app.pending)),
        line_of(
            "                 type two letters to pair (again to remove); Bksp undo, Del clear"@,
            inked(Color::Dim),
        ),
    ]
}

/// The setup screen.
pub open spec fn setup_view(app: AppView, area: Rect) -> Seq<WidgetView> {
    let middle = middle_of(64, 20, area);
    seq![
        WidgetView::Clear(middle),
        WidgetView::Border(
            middle,
            titled(
                Color::Hot,
                " setup  (up/down move, left/right change, Enter apply, Esc cancel) "@,
            ),
        ),
        bare_text(inside(middle), setup_lines(app)),
    ]
}

/// A setup field.
fn field_line(sel: usize, field: usize, label: &str, value: String) -> (line: Line)
    ensures
        forall|app: AppView|
            app.sel == sel ==> line@ == #[trigger] field_view(app, field as int, label@, value@),
{
    let (mut text, style) = if sel == field {
        ("> ".to_string(), Style::bold(Color::Hot))
    } else {
        ("  ".to_string(), Style::inked(Color::Ink))
    };
    push_left_aligned(&mut text, label, 14);
    double(text, style, value, Style::inked(Color::White))
}

/// A letter by itself.
fn letter_text(v: u8) -> (text: String)
    requires
        v < 26,
    ensures
        text@ == seq![letter_of(v)],
{
    let mut text = String::new();
    text.push(letter(v));
    proof {
        assert(text@ =~= seq![letter_of(v)]);
    }
    text
}

/// The value of the plugboard field.
fn plug_text(app: &App) -> (text: String)
    requires
        app@.wf(),
    ensures
        text@ == plug_field(app@.config.plugs, app@.pending),
{
    let plugs = &app.config.plugs;
    let mut text = String::new();
    let mut i: usize = 0;
    proof {
        assert(text@ =~= cables_listed(plugs@.take(0)));
    }
    while i < plugs.len()
        invariant
            i <= plugs.len(),
            plugs@ == app@.config.plugs,
            app@.wf(),
            text@ == cables_listed(plugs@.take(i as int)),
        decreases plugs.len() - i,
    {
        let ghost before = text@;
        let (a, b) = plugs[i];
        text.push(letter(a));
        text.push(letter(b));
        text.push(' ');
        proof {
            let next = plugs@.take(i + 1);
            assert(next.drop_last() =~= plugs@.take(i as int));
            assert(next.last() == plugs@[i as int]);
            assert(text@ =~= before + seq![letter_of(a), letter_of(b), ' ']);
        }
        i += 1;
    }
    proof {
        assert(plugs@.take(i as int) =~= plugs@);
    }
    match app.pending {
        Some(p) => {
            text.append("[");
            push_letter(&mut text, p);
            text.append("_]");
            text
        },
        None => if plugs.len() == 0 {
            "(none)".to_string()
        } else {
            text
        },
    }
}

/// The lines of the setup screen.
fn setup_text(app: &App) -> (lines: Vec<Line>)
    requires
        app@.wf(),
    ensures
        line_views(lines@) == setup_lines(app@),
{
    let c = &app.config;
    let sel: usize = app.sel;
    let mut lines: Vec<Line> = Vec::new();
    push_line(&mut lines, field_line(sel, 0, "Reflector", REFLECTORS[c.reflector].0.to_string()));
    push_line(&mut lines, blank());
    push_line(&mut lines, field_line(sel, 1, "Rotor left", ROTORS[c.rotors[0]].0.to_string()));
    push_line(&mut lines, field_line(sel, 2, "Rotor middle", ROTORS[c.rotors[1]].0.to_string()));
    push_line(&mut lines, field_line(sel, 3, "Rotor right", ROTORS[c.rotors[2]].0.to_string()));
    push_line(&mut lines, blank());
    push_line(&mut lines, field_line(sel, 4, "Ring left", letter_text(c.rings[0])));
    push_line(&mut lines, field_line(sel, 5, "Ring middle", letter_text(c.rings[1])));
    push_line(&mut lines, field_line(sel, 6, "Ring right", letter_text(c.rings[2])));
    push_line(&mut lines, blank());
    push_line(&mut lines, field_line(sel, 7, "Start left", letter_text(c.positions[0])));
    push_line(&mut lines, field_line(sel, 8, "Start middle", letter_text(c.positions[1])));
    push_line(&mut lines, field_line(sel, 9, "Start right", letter_text(c.positions[2])));
    push_line(&mut lines, blank());
    push_line(&mut lines, field_line(sel, 10, "Plugboard", plug_text(app)));
    push_line(
        &mut lines,
        single(
            "                 type two letters to pair (again to remove); Bksp undo, Del clear".to_string(),
            Style::inked(Color::Dim),
        ),
    );
    proof {
        assert(line_views(lines@) =~= setup_lines(app@));
    }
    lines
}

/// The setup screen, in the middle of the terminal.
pub fn setup_overlay(app: &App, area: Rect) -> (widgets: Vec<Widget>)
    requires
        app@.wf(),
        has_middle(64, 20, area),
    ensures
        widget_views(widgets@) == setup_view(app@, area),
{
    let middle = centered(64, 20, area);
    let title = " setup  (up/down move, left/right change, Enter apply, Esc cancel) ".to_string();
    let mut widgets: Vec<Widget> = Vec::new();
    push_widget(&mut widgets, Widget::Clear(middle));
    push_widget(
        &mut widgets,
        Widget::Border(middle, Border { color: Color::Hot, title, centred: false }),
    );
    push_widget(
        &mut widgets,
        Widget::Text(
            Paragraph {
                area: inside_border(middle),
                border: None,
                lines: setup_text(app),
                wrap: false,
                scroll: 0,
            },
        ),
    );
    proof {
        assert(widget_views(widgets@) =~= setup_view(app@, area));
    }
    widgets
}

} // verus!
