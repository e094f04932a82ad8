//! The help screen.

use vstd::prelude::*;
use vstd::string::*;

use crate::area::{inside, inside_border, Rect};
use crate::paint::{
    blank, bold, free_line, inked, line_of, line_views, push_line, push_widget, single, titled,
    widget_views, Border, Color, Line, LineView, Paragraph, ParagraphView, Style, Widget, WidgetView,
};

verus! {

/// A heading of the help text.
pub const HEADING: u8 = 0;

/// A line of the help text.
pub const BODY: u8 = 1;

/// A line that is left free.
pub const BLANK: u8 = 2;

/// The help text: the kind of each line, and what it says.
pub const HELP: [(u8, &'static str); 43] = [
    (HEADING, "What it is"),
    (BODY, "A rotor cipher machine used by Germany in WWII. Each key press sends"),
    (BODY, "current through a plugboard, three spinning rotors, a reflector, back"),
    (BODY, "out through the rotors and plugboard, and lights one lamp."),
    (BLANK, ""),
    (HEADING, "The path of a single letter"),
    (BODY, "KB  -> you press a key."),
    (BODY, "S   -> plugboard swaps it (or not) for its paired letter."),
    (BODY, "R M L -> three rotors, each a scrambled wiring, right to left."),
    (BODY, "UKW -> reflector bounces it back into a different wire."),
    (BODY, "L M R -> back out through the rotors on new paths."),
    (BODY, "S   -> plugboard swaps once more, and a lamp lights."),
    (BLANK, ""),
    (HEADING, "Why it is reciprocal"),
    (BODY, "Because of the reflector, the wiring is symmetric: if A encodes to G"),
    (BODY, "at some setting, then G encodes to A at that same setting. Encrypt and"),
    (BODY, "decrypt are the same operation on identically set machines."),
    (BODY, "A side effect: no letter can ever encode to itself. That flaw helped"),
    (BODY, "Bletchley Park find cribs and break the cipher."),
    (BLANK, ""),
    (HEADING, "Stepping and the double step"),
    (BODY, "The right rotor advances every keypress. When it reaches its notch it"),
    (BODY, "kicks the middle rotor; when the middle reaches its notch it kicks the"),
    (BODY, "left AND advances itself again the next press. That double step is a"),
    (BODY, "real mechanical quirk, faithfully reproduced here."),
    (BLANK, ""),
    (HEADING, "What you can tune (press Tab)"),
    (BODY, "Reflector  - B or C, the fixed bounce-back wiring."),
    (BODY, "Rotor order- which of I-V sit left/middle/right; order changes everything."),
    (BODY, "Ring (Ringstellung) - rotates wiring relative to the letter ring."),
    (BODY, "Start (Grundstellung) - the letters showing at the start of a message."),
    (BODY, "Plugboard  - up to 10 letter swaps before and after the rotors."),
    (BLANK, ""),
    (BODY, "Together these are the daily key. Two machines set identically will"),
    (BODY, "decode each other; change any one setting and the output diverges."),
    (BLANK, ""),
    (HEADING, "Keys and saving your work"),
    (BODY, "Every A-Z key enciphers - no letter is a command, so nothing collides"),
    (BODY, "with your message. Commands are Tab (setup), ? (help), Ctrl+S (save a"),
    (BODY, "session log now), Ctrl+R (reset), Esc (quit)."),
    (BODY, "On save or quit, a timestamped enigmascope-*.txt file is written with the"),
    (BODY, "settings, your input, and the cipher output - and the transcript is also"),
    (BODY, "printed to the terminal when you quit, so you can select and copy it."),
];

/// A line of the help text as it is shown.
pub open spec fn help_line(kind: u8, text: Seq<char>) -> LineView {
    if kind == HEADING {
        line_of(text, bold(Color::Hot))
    } else if kind == BODY {
        line_of(text, inked(Color::Ink))
    } else {
        free_line()
    }
}

/// The help text as it is shown.
pub open spec fn help_lines() -> Seq<LineView> {
    Seq::new(43, |i: int| help_line(HELP[i].0, HELP[i].1@))
}

/// The help screen, with the given number of rows scrolled out.
pub open spec fn help_view(area: Rect, scroll: u16) -> Seq<WidgetView> {
    seq![
        WidgetView::Border(
            area,
            titled(Color::Wire, " how the Enigma works   (up/down scroll, Esc back) "@),
        ),
        WidgetView::Text(
            ParagraphView {
                area: inside(area),
                border: None,
                lines: help_lines(),
                wrap: true,
                scroll,
            },
        ),
    ]
}

/// The help screen, with the given number of rows scrolled out.
pub fn help_screen(area: Rect, scroll: u16) -> (widgets: Vec<Widget>)
    ensures
        widget_views(widgets@) == help_view(area, scroll),
{
    let mut lines: Vec<Line> = Vec::new();
    let mut i: usize = 0;
    while i < 43
        invariant
            i <= 43,
            line_views(lines@) == Seq::new(
                i as nat,
                |k: int| help_line(HELP[k].0, HELP[k].1@),
            ),
        decreases 43 - i,
    {
        let (kind, text) = HELP[i];
        let line = if kind == HEADING {
            single(text.to_string(), Style::bold(Color::Hot))
        } else if kind == BODY {
            single(text.to_string(), Style::inked(Color::Ink))
        } else {
            blank()
        };
        push_line(&mut lines, line);
        i += 1;
        proof {
            assert(line_views(lines@) =~= Seq::new(
                i as nat,
                |k: int| help_line(HELP[k].0, HELP[k].1@),
            ));
        }
    }
    let title = " how the Enigma works   (up/down scroll, Esc back) ".to_string();
    let mut widgets: Vec<Widget> = Vec::new();
    push_widget(
        &mut widgets,
        Widget::Border(area, Border { color: Color::Wire, title, centred: false }),
    );
    push_widget(
        &mut widgets,
        Widget::Text(
            Paragraph { area: inside_border(area), border: None, lines, wrap: true, scroll },
        ),
    );
    proof {
        assert(widget_views(widgets@) =~= help_view(area, scroll));
    }
    widgets
}

} // verus!
