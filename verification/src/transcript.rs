//! A transcript can be read: each of its lines says what its label says, and nothing
//! of the session is lost in it.

use vstd::prelude::*;
use vstd::string::*;

use crate::civil::Utc;
use crate::config::ConfigView;
use crate::enigma::{standard_rotor, REFLECTORS, ROTORS};
use crate::report::{
    cable_text, cables_joined, plugboard_text, report_text, settings_text, three_letters, title_text,
    windows_text,
};
use crate::session::AppView;
use crate::text::{
    grouped, grouping_keeps_the_text, groups_have_five_letters, is_upper, letter_of, zero_padded,
};

verus! {

/// A line of the text, from the character behind a line break to the next line break.
pub open spec fn has_line(text: Seq<char>, line: Seq<char>) -> bool {
    exists|p: int| #[trigger] line_at(text, line, p)
}

/// The line of the text that begins at `p`.
pub open spec fn line_at(text: Seq<char>, line: Seq<char>, p: int) -> bool {
    &&& 0 < p && p + line.len() < text.len()
    &&& text[p - 1] == '\n'
    &&& text.subrange(p, p + line.len()) == line
    &&& text[p + line.len()] == '\n'
}

/// What follows a line does not matter to it.
proof fn lemma_line_before(text: Seq<char>, line: Seq<char>, more: Seq<char>)
    requires
        has_line(text, line),
    ensures
        has_line(text + more, line),
{
    let p = choose|p: int| #[trigger] line_at(text, line, p);
    assert((text + more).subrange(p, p + line.len()) =~= text.subrange(p, p + line.len()));
    assert(line_at(text + more, line, p));
}

/// What comes before a line does not matter to it.
proof fn lemma_line_behind(before: Seq<char>, text: Seq<char>, line: Seq<char>)
    requires
        has_line(text, line),
    ensures
        has_line(before + text, line),
{
    let p = choose|p: int| #[trigger] line_at(text, line, p);
    let q = before.len() + p;
    assert((before + text).subrange(q, q + line.len()) =~= text.subrange(p, p + line.len()));
    assert((before + text)[q - 1] == text[p - 1]);
    assert((before + text)[q + line.len()] == text[p + line.len()]);
    assert(line_at(before + text, line, q));
}

/// A label behind a line break, a value, and a line break make a line.
proof fn lemma_labelled(
    before: Seq<char>,
    opening: Seq<char>,
    label: Seq<char>,
    value: Seq<char>,
    next: Seq<char>,
)
    requires
        opening.len() > label.len(),
        opening[opening.len() - label.len() - 1] == '\n',
        opening.skip(opening.len() - label.len()) == label,
        next.len() > 0,
        next[0] == '\n',
    ensures
        has_line(before + opening + value + next, label + value),
{
    let text = before + opening + value + next;
    let line = label + value;
    let p = before.len() + opening.len() - label.len();
    assert forall|i: int| 0 <= i < line.len() implies #[trigger] text.subrange(
        p,
        p + line.len(),
    )[i] == line[i] by {
        if i < label.len() {
            assert(label[i] == opening[opening.len() - label.len() + i]);
        }
    }
    assert(text.subrange(p, p + line.len()) =~= line);
    assert(text[p - 1] == opening[opening.len() - label.len() - 1]);
    assert(text[p + line.len()] == next[0]);
    assert(line_at(text, line, p));
}

/// The ends of the pieces of text that open a line.
proof fn lemma_openings()
    ensures
        opens("   (left middle right)\nRing setting: "@, "Ring setting: "@),
        opens("\nStart pos   : "@, "Start pos   : "@),
        opens("\nPlugboard   : "@, "Plugboard   : "@),
        opens("\nEnd pos     : "@, "End pos     : "@),
        opens("\n\nInput  (plaintext): "@, "Input  (plaintext): "@),
        opens("\nOutput (cipher)   : "@, "Output (cipher)   : "@),
        opens("\nRotors      : "@, "Rotors      : "@),
        "\n\nTo verify: set any Enigma emulator to the settings above and type the\ninput; the output should match exactly.\n"@[0]
            == '\n',
        "\n\nTo verify: set any Enigma emulator to the settings above and type the\ninput; the output should match exactly.\n"@.len()
            > 0,
        "   (left middle right)\nRing setting: "@.take(22) == "   (left middle right)"@,
        "   (left middle right)\nRing setting: "@[0] == ' ',
        " UTC\n============================================\n"@.last() == '\n',
        " UTC\n============================================\n"@.len() > 0,
        "\nStart pos   : "@[0] == '\n',
        "\nPlugboard   : "@[0] == '\n',
        "\nEnd pos     : "@[0] == '\n',
        "\n\nInput  (plaintext): "@[0] == '\n',
        "\nOutput (cipher)   : "@[0] == '\n',
        "\nRotors      : "@[0] == '\n',
        "   (left middle right)\nRing setting: "@.len() > 22,
        "   (left middle right)\nRing setting: "@[22] == '\n',
        " "@ == seq![' '],
{
    reveal_strlit("   (left middle right)\nRing setting: ");
    reveal_strlit("   (left middle right)");
    reveal_strlit("Ring setting: ");
    reveal_strlit("\nStart pos   : ");
    reveal_strlit("Start pos   : ");
    reveal_strlit("\nPlugboard   : ");
    reveal_strlit("Plugboard   : ");
    reveal_strlit("\nEnd pos     : ");
    reveal_strlit("End pos     : ");
    reveal_strlit("\n\nInput  (plaintext): ");
    reveal_strlit("Input  (plaintext): ");
    reveal_strlit("\nOutput (cipher)   : ");
    reveal_strlit("Output (cipher)   : ");
    reveal_strlit("\nRotors      : ");
    reveal_strlit("Rotors      : ");
    reveal_strlit(
        "\n\nTo verify: set any Enigma emulator to the settings above and type the\ninput; the output should match exactly.\n",
    );
    reveal_strlit(" UTC\n============================================\n");
    reveal_strlit(" ");
    assert("   (left middle right)\nRing setting: "@.skip(23) =~= "Ring setting: "@);
    assert("\nStart pos   : "@.skip(1) =~= "Start pos   : "@);
    assert("\nPlugboard   : "@.skip(1) =~= "Plugboard   : "@);
    assert("\nEnd pos     : "@.skip(1) =~= "End pos     : "@);
    assert("\n\nInput  (plaintext): "@.skip(2) =~= "Input  (plaintext): "@);
    assert("\nOutput (cipher)   : "@.skip(1) =~= "Output (cipher)   : "@);
    assert("\nRotors      : "@.skip(1) =~= "Rotors      : "@);
    assert("   (left middle right)\nRing setting: "@.take(22) =~= "   (left middle right)"@);
    assert(" "@ =~= seq![' ']);
}

/// The piece of text ends with a line break and the label.
spec fn opens(opening: Seq<char>, label: Seq<char>) -> bool {
    &&& opening.len() > label.len()
    &&& opening[opening.len() - label.len() - 1] == '\n'
    &&& opening.skip(opening.len() - label.len()) == label
    &&& opening.len() > 0
}

/// The ring settings stand in the line of the ring settings, the start positions in
/// that of the start positions, each from left to right.
pub proof fn rings_and_starts_stand_in_their_lines(s: AppView, t: Utc)
    ensures
        has_line(
            report_text(s, t),
            "Ring setting: "@ + seq![
                letter_of(s.used.rings[0]),
                ' ',
                letter_of(s.used.rings[1]),
                ' ',
                letter_of(s.used.rings[2]),
            ],
        ),
        has_line(
            report_text(s, t),
            "Start pos   : "@ + seq![
                letter_of(s.used.positions[0]),
                ' ',
                letter_of(s.used.positions[1]),
                ' ',
                letter_of(s.used.positions[2]),
            ],
        ),
{
    lemma_openings();
    let c = s.used;
    let rings = seq![letter_of(c.rings[0]), ' ', letter_of(c.rings[1]), ' ', letter_of(c.rings[2])];
    let starts = seq![
        letter_of(c.positions[0]),
        ' ',
        letter_of(c.positions[1]),
        ' ',
        letter_of(c.positions[2]),
    ];
    let head = "Reflector   : "@ + REFLECTORS[c.reflector as int].0@ + "\nRotors      : "@
        + standard_rotor(c.rotors[0] as int).name@ + " "@ + standard_rotor(c.rotors[1] as int).name@
        + " "@ + standard_rotor(c.rotors[2] as int).name@;
    let open_ring = "   (left middle right)\nRing setting: "@;
    let upto_ring = head + open_ring + rings + "\nStart pos   : "@;
    let upto_start = upto_ring + starts + "\nPlugboard   : "@;
    lemma_labelled(head, open_ring, "Ring setting: "@, rings, "\nStart pos   : "@);
    lemma_labelled(
        head + open_ring + rings,
        "\nStart pos   : "@,
        "Start pos   : "@,
        starts,
        "\nPlugboard   : "@,
    );
    assert(settings_text(c) == upto_start + plugboard_text(c.plugs));
    lemma_line_before(upto_ring, "Ring setting: "@ + rings, starts);
    lemma_line_before(upto_ring + starts, "Ring setting: "@ + rings, "\nPlugboard   : "@);
    lemma_line_before(upto_start, "Ring setting: "@ + rings, plugboard_text(c.plugs));
    lemma_line_before(upto_start, "Start pos   : "@ + starts, plugboard_text(c.plugs));
    lemma_settings_line(s, t, "Ring setting: "@ + rings);
    lemma_settings_line(s, t, "Start pos   : "@ + starts);
}

/// A line of the settings is a line of the transcript.
proof fn lemma_settings_line(s: AppView, t: Utc, line: Seq<char>)
    requires
        has_line(settings_text(s.used), line),
    ensures
        has_line(report_text(s, t), line),
{
    lemma_line_behind(title_text(t), settings_text(s.used), line);
    lemma_behind_settings(s, t, line);
}

/// A line of title and settings is a line of the transcript.
proof fn lemma_behind_settings(s: AppView, t: Utc, line: Seq<char>)
    requires
        has_line(title_text(t) + settings_text(s.used), line),
    ensures
        has_line(report_text(s, t), line),
{
    let a = title_text(t) + settings_text(s.used);
    let b = a + "\nEnd pos     : "@;
    let c = b + windows_text(s.machine);
    let d = c + "\n\nInput  (plaintext): "@;
    let e = d + grouped(s.plaintext);
    let f = e + "\nOutput (cipher)   : "@;
    let g = f + grouped(s.ciphertext);
    lemma_line_before(a, line, "\nEnd pos     : "@);
    lemma_line_before(b, line, windows_text(s.machine));
    lemma_line_before(c, line, "\n\nInput  (plaintext): "@);
    lemma_line_before(d, line, grouped(s.plaintext));
    lemma_line_before(e, line, "\nOutput (cipher)   : "@);
    lemma_line_before(f, line, grouped(s.ciphertext));
    lemma_line_before(
        g,
        line,
        "\n\nTo verify: set any Enigma emulator to the settings above and type the\ninput; the output should match exactly.\n"@,
    );
}

/// The rotors stand in their line by name, from left to right.
pub proof fn rotors_stand_in_their_line(s: AppView, t: Utc)
    ensures
        has_line(
            report_text(s, t),
            "Rotors      : "@ + (ROTORS[s.used.rotors[0] as int].0@ + seq![' ']
                + ROTORS[s.used.rotors[1] as int].0@ + seq![' '] + ROTORS[s.used.rotors[2] as int].0@
                + "   (left middle right)"@),
        ),
{
    lemma_openings();
    let c = s.used;
    let n0 = ROTORS[c.rotors[0] as int].0@;
    let n1 = ROTORS[c.rotors[1] as int].0@;
    let n2 = ROTORS[c.rotors[2] as int].0@;
    let names = n0 + seq![' '] + n1 + seq![' '] + n2 + "   (left middle right)"@;
    let head = "Reflector   : "@ + REFLECTORS[c.reflector as int].0@;
    let open = "\nRotors      : "@;
    let wide = "   (left middle right)\nRing setting: "@;
    let next = wide.skip(22);
    assert(next[0] == '\n');
    lemma_labelled(head, open, "Rotors      : "@, names, next);
    let upto = head + open + names + next;
    let whole = head + open + n0 + " "@ + n1 + " "@ + n2 + wide;
    assert(wide =~= wide.take(22) + next);
    lemma_regroup(head + open, n0, n1, n2, wide.take(22), next);
    assert(upto == whole);
    let line = "Rotors      : "@ + names;
    let a = whole + three_letters(c.rings);
    let b = a + "\nStart pos   : "@;
    let d = b + three_letters(c.positions);
    let e = d + "\nPlugboard   : "@;
    lemma_line_before(whole, line, three_letters(c.rings));
    lemma_line_before(a, line, "\nStart pos   : "@);
    lemma_line_before(b, line, three_letters(c.positions));
    lemma_line_before(d, line, "\nPlugboard   : "@);
    lemma_line_before(e, line, plugboard_text(c.plugs));
    assert(settings_text(c) == e + plugboard_text(c.plugs));
    lemma_settings_line(s, t, line);
}

/// Pieces put together in one order or another are the same text.
proof fn lemma_regroup(
    head: Seq<char>,
    a: Seq<char>,
    b: Seq<char>,
    c: Seq<char>,
    d: Seq<char>,
    e: Seq<char>,
)
    ensures
        head + (a + seq![' '] + b + seq![' '] + c + d) + e == head + a + seq![' '] + b + seq![' '] + c
            + (d + e),
{
    assert(head + (a + seq![' '] + b + seq![' '] + c + d) + e =~= head + a + seq![' '] + b + seq![
        ' ',
    ] + c + (d + e));
}

/// The reflector stands in its line by name, below the title.
pub proof fn the_reflector_stands_in_its_line(s: AppView, t: Utc)
    ensures
        has_line(
            report_text(s, t),
            "Reflector   : "@ + REFLECTORS[s.used.reflector as int].0@,
        ),
{
    lemma_openings();
    reveal_strlit("\nRotors      : ");
    let c = s.used;
    let line = "Reflector   : "@ + REFLECTORS[c.reflector as int].0@;
    let title = title_text(t);
    let next = "\nRotors      : "@;
    let text = title + (line + next);
    let p = title.len() as int;
    assert(title.last() == '\n');
    assert(text.subrange(p, p + line.len()) =~= line);
    assert(text[p + line.len()] == next[0]);
    assert(line_at(text, line, p));
    let names = standard_rotor(c.rotors[0] as int).name@;
    let a = line + next;
    let b = a + standard_rotor(c.rotors[0] as int).name@;
    let d = b + " "@;
    let e = d + standard_rotor(c.rotors[1] as int).name@;
    let f = e + " "@;
    let g = f + standard_rotor(c.rotors[2] as int).name@;
    let h = g + "   (left middle right)\nRing setting: "@;
    let i = h + three_letters(c.rings);
    let j = i + "\nStart pos   : "@;
    let k = j + three_letters(c.positions);
    let l = k + "\nPlugboard   : "@;
    assert(settings_text(c) == l + plugboard_text(c.plugs));
    lemma_longer(title, a, standard_rotor(c.rotors[0] as int).name@, line);
    lemma_longer(title, b, " "@, line);
    lemma_longer(title, d, standard_rotor(c.rotors[1] as int).name@, line);
    lemma_longer(title, e, " "@, line);
    lemma_longer(title, f, standard_rotor(c.rotors[2] as int).name@, line);
    lemma_longer(title, g, "   (left middle right)\nRing setting: "@, line);
    lemma_longer(title, h, three_letters(c.rings), line);
    lemma_longer(title, i, "\nStart pos   : "@, line);
    lemma_longer(title, j, three_letters(c.positions), line);
    lemma_longer(title, k, "\nPlugboard   : "@, line);
    lemma_longer(title, l, plugboard_text(c.plugs), line);
    lemma_behind_settings(s, t, line);
}

/// A line stays when the text goes on.
proof fn lemma_longer(title: Seq<char>, text: Seq<char>, more: Seq<char>, line: Seq<char>)
    requires
        has_line(title + text, line),
    ensures
        has_line(title + (text + more), line),
{
    lemma_line_before(title + text, line, more);
    assert(title + text + more =~= title + (text + more));
}

/// The cables stand in the line of the plugboard, the letters in the windows in that
/// of the end position, what was typed in that of the input, and what came out in
/// that of the output.
pub proof fn cables_windows_and_texts_stand_in_their_lines(s: AppView, t: Utc)
    ensures
        has_line(report_text(s, t), "Plugboard   : "@ + plugboard_text(s.used.plugs)),
        has_line(
            report_text(s, t),
            "End pos     : "@ + seq![
                letter_of(s.machine.left.position),
                letter_of(s.machine.middle.position),
                letter_of(s.machine.right.position),
            ],
        ),
        has_line(report_text(s, t), "Input  (plaintext): "@ + grouped(s.plaintext)),
        has_line(report_text(s, t), "Output (cipher)   : "@ + grouped(s.ciphertext)),
{
    lemma_openings();
    let c = s.used;
    let windows = seq![
        letter_of(s.machine.left.position),
        letter_of(s.machine.middle.position),
        letter_of(s.machine.right.position),
    ];
    let end = "\n\nTo verify: set any Enigma emulator to the settings above and type the\ninput; the output should match exactly.\n"@;
    let head = "Reflector   : "@ + REFLECTORS[c.reflector as int].0@ + "\nRotors      : "@
        + standard_rotor(c.rotors[0] as int).name@ + " "@ + standard_rotor(c.rotors[1] as int).name@
        + " "@ + standard_rotor(c.rotors[2] as int).name@
        + "   (left middle right)\nRing setting: "@ + three_letters(c.rings) + "\nStart pos   : "@
        + three_letters(c.positions);
    let plugs = "\nPlugboard   : "@;
    let a = title_text(t) + settings_text(c);
    let b = a + "\nEnd pos     : "@;
    let d = b + windows;
    let e = d + "\n\nInput  (plaintext): "@;
    let f = e + grouped(s.plaintext);
    let g = f + "\nOutput (cipher)   : "@;
    let h = g + grouped(s.ciphertext);
    assert(settings_text(c) == head + plugs + plugboard_text(c.plugs));
    assert(report_text(s, t) == h + end);
    // The plugboard.
    let line = "Plugboard   : "@ + plugboard_text(c.plugs);
    lemma_labelled(head, plugs, "Plugboard   : "@, plugboard_text(c.plugs), "\nEnd pos     : "@);
    lemma_line_behind(title_text(t), settings_text(c) + "\nEnd pos     : "@, line);
    assert(title_text(t) + (settings_text(c) + "\nEnd pos     : "@) =~= b);
    lemma_line_before(b, line, windows);
    lemma_line_before(d, line, "\n\nInput  (plaintext): "@);
    lemma_line_before(e, line, grouped(s.plaintext));
    lemma_line_before(f, line, "\nOutput (cipher)   : "@);
    lemma_line_before(g, line, grouped(s.ciphertext));
    lemma_line_before(h, line, end);
    // The windows.
    let line = "End pos     : "@ + windows;
    lemma_labelled(a, "\nEnd pos     : "@, "End pos     : "@, windows, "\n\nInput  (plaintext): "@);
    lemma_line_before(e, line, grouped(s.plaintext));
    lemma_line_before(f, line, "\nOutput (cipher)   : "@);
    lemma_line_before(g, line, grouped(s.ciphertext));
    lemma_line_before(h, line, end);
    // The input.
    let line = "Input  (plaintext): "@ + grouped(s.plaintext);
    lemma_labelled(
        d,
        "\n\nInput  (plaintext): "@,
        "Input  (plaintext): "@,
        grouped(s.plaintext),
        "\nOutput (cipher)   : "@,
    );
    lemma_line_before(g, line, grouped(s.ciphertext));
    lemma_line_before(h, line, end);
    // The output.
    lemma_labelled(
        f,
        "\nOutput (cipher)   : "@,
        "Output (cipher)   : "@,
        grouped(s.ciphertext),
        end,
    );
}

/// The first line tells the date and the time of day, the year first and the second
/// last, in two digits each and the year in four.
pub proof fn the_title_tells_the_date(s: AppView, t: Utc)
    ensures
        ({
            let title = "Enigmascope session \u{2014} "@ + zero_padded(t.0 as int, 4) + "-"@
                + zero_padded(t.1 as int, 2) + "-"@ + zero_padded(t.2 as int, 2) + " "@
                + zero_padded(t.3 as int, 2) + ":"@ + zero_padded(t.4 as int, 2) + ":"@
                + zero_padded(t.5 as int, 2) + " UTC\n"@;
            &&& title.len() <= report_text(s, t).len()
            &&& report_text(s, t).take(title.len() as int) == title
        }),
{
    reveal_strlit(" UTC\n============================================\n");
    reveal_strlit(" UTC\n");
    let date = "Enigmascope session \u{2014} "@ + zero_padded(t.0 as int, 4) + "-"@ + zero_padded(
        t.1 as int,
        2,
    ) + "-"@ + zero_padded(t.2 as int, 2) + " "@ + zero_padded(t.3 as int, 2) + ":"@ + zero_padded(
        t.4 as int,
        2,
    ) + ":"@ + zero_padded(t.5 as int, 2);
    let long = " UTC\n============================================\n"@;
    let title = date + " UTC\n"@;
    assert(title_text(t) == date + long);
    let rest = report_text(s, t).skip(title_text(t).len() as int);
    lemma_begins(s, t);
    assert(report_text(s, t).take(title.len() as int) =~= title);
}

/// A transcript begins with its title.
proof fn lemma_begins(s: AppView, t: Utc)
    ensures
        title_text(t).len() <= report_text(s, t).len(),
        forall|i: int|
            0 <= i < title_text(t).len() ==> #[trigger] report_text(s, t)[i] == title_text(t)[i],
{
    let a = title_text(t) + settings_text(s.used);
    let b = a + "\nEnd pos     : "@ + windows_text(s.machine);
    let c = b + "\n\nInput  (plaintext): "@ + grouped(s.plaintext);
    let d = c + "\nOutput (cipher)   : "@ + grouped(s.ciphertext);
    assert(forall|i: int| 0 <= i < title_text(t).len() ==> a[i] == title_text(t)[i]);
    assert(forall|i: int| 0 <= i < a.len() ==> b[i] == a[i]);
    assert(forall|i: int| 0 <= i < b.len() ==> c[i] == b[i]);
    assert(forall|i: int| 0 <= i < c.len() ==> d[i] == c[i]);
}

/// Pieces of text, one behind the other.
spec fn strung(pieces: Seq<Seq<char>>) -> Seq<char>
    decreases pieces.len(),
{
    if pieces.len() == 0 {
        Seq::empty()
    } else {
        strung(pieces.drop_last()) + pieces.last()
    }
}

/// One more piece goes behind the others.
proof fn lemma_strung_push(pieces: Seq<Seq<char>>, more: Seq<char>)
    ensures
        strung(pieces.push(more)) == strung(pieces) + more,
{
    assert(pieces.push(more).drop_last() =~= pieces);
}

/// The first piece comes first.
proof fn lemma_strung_first(pieces: Seq<Seq<char>>)
    requires
        pieces.len() > 0,
    ensures
        strung(pieces) == pieces[0] + strung(pieces.skip(1)),
    decreases pieces.len(),
{
    let front = pieces.drop_last();
    if pieces.len() == 1 {
        assert(front =~= Seq::empty());
        assert(pieces.skip(1) =~= Seq::empty());
        assert(strung(pieces) =~= pieces[0] + strung(pieces.skip(1)));
    } else {
        lemma_strung_first(front);
        assert(front.skip(1) =~= pieces.skip(1).drop_last());
        assert(pieces.skip(1).last() == pieces.last());
        assert(strung(pieces) =~= pieces[0] + strung(pieces.skip(1)));
    }
}

/// A piece that can be told from what follows: pieces of the same length, the last
/// pieces, or pieces up to a character that neither of them has.
spec fn is_told(a: Seq<Seq<char>>, b: Seq<Seq<char>>, i: int) -> bool {
    ||| a[i].len() == b[i].len()
    ||| i == a.len() - 1
    ||| {
        &&& a[i + 1].len() > 0 && b[i + 1].len() > 0
        &&& a[i + 1][0] == b[i + 1][0]
        &&& !a[i].contains(a[i + 1][0])
        &&& !b[i].contains(a[i + 1][0])
    }
}

/// Texts that are the same begin with the same piece, if it can be told from what
/// follows.
proof fn lemma_same_start(a: Seq<char>, x: Seq<char>, b: Seq<char>, y: Seq<char>)
    requires
        a + x == b + y,
        a.len() == b.len() || (x.len() > 0 && y.len() > 0 && x[0] == y[0] && !a.contains(x[0])
            && !b.contains(x[0])),
    ensures
        a == b,
        x == y,
{
    if a.len() < b.len() {
        assert((a + x)[a.len() as int] == x[0]);
        assert((b + y)[a.len() as int] == b[a.len() as int]);
    } else if b.len() < a.len() {
        assert((b + y)[b.len() as int] == y[0]);
        assert((a + x)[b.len() as int] == a[b.len() as int]);
    } else {
        assert forall|i: int| 0 <= i < a.len() implies a[i] == b[i] by {
            assert((a + x)[i] == a[i] && (b + y)[i] == b[i]);
        }
        assert(x.len() == y.len()) by {
            assert((a + x).len() == a.len() + x.len());
            assert((b + y).len() == b.len() + y.len());
        }
        assert forall|i: int| 0 <= i < x.len() implies x[i] == y[i] by {
            assert((a + x)[a.len() + i] == x[i] && (b + y)[b.len() + i] == y[i]);
        }
        assert(a =~= b);
        assert(x =~= y);
    }
}

/// Texts that are the same are made of the same pieces.
proof fn lemma_same_pieces(a: Seq<Seq<char>>, b: Seq<Seq<char>>)
    requires
        a.len() == b.len(),
        strung(a) == strung(b),
        forall|i: int| 0 <= i < a.len() ==> #[trigger] is_told(a, b, i),
    ensures
        a == b,
    decreases a.len(),
{
    if a.len() == 0 {
        assert(a =~= b);
        return;
    }
    lemma_strung_first(a);
    lemma_strung_first(b);
    let x = a.skip(1);
    let y = b.skip(1);
    assert(is_told(a, b, 0));
    if a.len() == 1 {
        assert(x =~= Seq::empty() && y =~= Seq::empty());
        assert(strung(x) =~= Seq::empty() && strung(y) =~= Seq::empty());
        assert(a[0] + strung(x) =~= a[0]);
        assert(b[0] + strung(y) =~= b[0]);
        assert(a =~= b);
    } else {
        lemma_strung_first(x);
        lemma_strung_first(y);
        assert(x[0] == a[1] && y[0] == b[1]);
        if a[0].len() != b[0].len() {
            assert(strung(x)[0] == a[1][0]);
            assert(strung(y)[0] == b[1][0]);
        }
        lemma_same_start(a[0], strung(x), b[0], strung(y));
        assert forall|i: int| 0 <= i < x.len() implies #[trigger] is_told(x, y, i) by {
            assert(is_told(a, b, i + 1));
            assert(x[i] == a[i + 1] && y[i] == b[i + 1]);
            if i + 1 < x.len() {
                assert(x[i + 1] == a[i + 2] && y[i + 1] == b[i + 2]);
            }
        }
        lemma_same_pieces(x, y);
        assert forall|i: int| 0 <= i < a.len() implies a[i] == b[i] by {
            if i > 0 {
                assert(x[i - 1] == a[i] && y[i - 1] == b[i]);
            }
        }
        assert(a =~= b);
    }
}

/// Two rows of pieces, one behind the other.
proof fn lemma_strung_add(a: Seq<Seq<char>>, b: Seq<Seq<char>>)
    ensures
        strung(a + b) == strung(a) + strung(b),
    decreases b.len(),
{
    if b.len() == 0 {
        assert(a + b =~= a);
        assert(strung(a) + strung(b) =~= strung(a));
    } else {
        lemma_strung_add(a, b.drop_last());
        assert((a + b).drop_last() =~= a + b.drop_last());
        assert((a + b).last() == b.last());
        assert(strung(a + b) =~= strung(a) + strung(b));
    }
}

/// The pieces of the settings.
spec fn settings_pieces(c: ConfigView) -> Seq<Seq<char>> {
    seq![
        "Reflector   : "@,
        REFLECTORS[c.reflector as int].0@,
        "\nRotors      : "@,
        standard_rotor(c.rotors[0] as int).name@,
        " "@,
        standard_rotor(c.rotors[1] as int).name@,
        " "@,
        standard_rotor(c.rotors[2] as int).name@,
        "   (left middle right)\nRing setting: "@,
        three_letters(c.rings),
        "\nStart pos   : "@,
        three_letters(c.positions),
        "\nPlugboard   : "@,
        plugboard_text(c.plugs),
    ]
}

proof fn lemma_settings_pieces(c: ConfigView)
    ensures
        strung(settings_pieces(c)) == settings_text(c),
{
    let none = Seq::<Seq<char>>::empty();
    assert(strung(none) =~= Seq::empty());
    assert(strung(none) + "Reflector   : "@ =~= "Reflector   : "@);
    let p0 = none.push("Reflector   : "@);
    lemma_strung_push(none, "Reflector   : "@);
    let p1 = p0.push(REFLECTORS[c.reflector as int].0@);
    lemma_strung_push(p0, REFLECTORS[c.reflector as int].0@);
    let p2 = p1.push("\nRotors      : "@);
    lemma_strung_push(p1, "\nRotors      : "@);
    let p3 = p2.push(standard_rotor(c.rotors[0] as int).name@);
    lemma_strung_push(p2, standard_rotor(c.rotors[0] as int).name@);
    let p4 = p3.push(" "@);
    lemma_strung_push(p3, " "@);
    let p5 = p4.push(standard_rotor(c.rotors[1] as int).name@);
    lemma_strung_push(p4, standard_rotor(c.rotors[1] as int).name@);
    let p6 = p5.push(" "@);
    lemma_strung_push(p5, " "@);
    let p7 = p6.push(standard_rotor(c.rotors[2] as int).name@);
    lemma_strung_push(p6, standard_rotor(c.rotors[2] as int).name@);
    let p8 = p7.push("   (left middle right)\nRing setting: "@);
    lemma_strung_push(p7, "   (left middle right)\nRing setting: "@);
    let p9 = p8.push(three_letters(c.rings));
    lemma_strung_push(p8, three_letters(c.rings));
    let p10 = p9.push("\nStart pos   : "@);
    lemma_strung_push(p9, "\nStart pos   : "@);
    let p11 = p10.push(three_letters(c.positions));
    lemma_strung_push(p10, three_letters(c.positions));
    let p12 = p11.push("\nPlugboard   : "@);
    lemma_strung_push(p11, "\nPlugboard   : "@);
    let p13 = p12.push(plugboard_text(c.plugs));
    lemma_strung_push(p12, plugboard_text(c.plugs));
    assert(settings_pieces(c) == p13);
}

/// The pieces of what follows the settings.
spec fn end_pieces(s: AppView) -> Seq<Seq<char>> {
    seq![
        "\nEnd pos     : "@,
        windows_text(s.machine),
        "\n\nInput  (plaintext): "@,
        grouped(s.plaintext),
        "\nOutput (cipher)   : "@,
        grouped(s.ciphertext),
        "\n\nTo verify: set any Enigma emulator to the settings above and type the\ninput; the output should match exactly.\n"@,
    ]
}

/// The pieces of a transcript.
spec fn pieces_of(s: AppView, t: Utc) -> Seq<Seq<char>> {
    seq![title_text(t)] + settings_pieces(s.used) + end_pieces(s)
}

proof fn lemma_pieces(s: AppView, t: Utc)
    ensures
        strung(pieces_of(s, t)) == report_text(s, t),
{
    let none = Seq::<Seq<char>>::empty();
    assert(strung(none) =~= Seq::empty());
    lemma_strung_push(none, title_text(t));
    assert(strung(none) + title_text(t) =~= title_text(t));
    assert(none.push(title_text(t)) =~= seq![title_text(t)]);
    lemma_settings_pieces(s.used);
    let start = seq![title_text(t)] + settings_pieces(s.used);
    lemma_strung_add(seq![title_text(t)], settings_pieces(s.used));
    let p0 = start.push("\nEnd pos     : "@);
    lemma_strung_push(start, "\nEnd pos     : "@);
    let p1 = p0.push(windows_text(s.machine));
    lemma_strung_push(p0, windows_text(s.machine));
    let p2 = p1.push("\n\nInput  (plaintext): "@);
    lemma_strung_push(p1, "\n\nInput  (plaintext): "@);
    let p3 = p2.push(grouped(s.plaintext));
    lemma_strung_push(p2, grouped(s.plaintext));
    let p4 = p3.push("\nOutput (cipher)   : "@);
    lemma_strung_push(p3, "\nOutput (cipher)   : "@);
    let p5 = p4.push(grouped(s.ciphertext));
    lemma_strung_push(p4, grouped(s.ciphertext));
    let p6 = p5.push("\n\nTo verify: set any Enigma emulator to the settings above and type the\ninput; the output should match exactly.\n"@);
    lemma_strung_push(p5, "\n\nTo verify: set any Enigma emulator to the settings above and type the\ninput; the output should match exactly.\n"@);
    assert(pieces_of(s, t) =~= p6);
}

/// The names of rotors and reflectors.
proof fn lemma_names(i: int, j: int)
    ensures
        0 <= i < 5 ==> !ROTORS[i].0@.contains(' '),
        0 <= i < 5 && 0 <= j < 5 && ROTORS[i].0@ == ROTORS[j].0@ ==> i == j,
        0 <= i < 2 ==> REFLECTORS[i].0@.len() == 1,
        0 <= i < 2 && 0 <= j < 2 && REFLECTORS[i].0@ == REFLECTORS[j].0@ ==> i == j,
{
    reveal_strlit("I");
    reveal_strlit("II");
    reveal_strlit("III");
    reveal_strlit("IV");
    reveal_strlit("V");
    reveal_strlit("B");
    reveal_strlit("C");
    assert("B"@[0] == 'B' && "C"@[0] == 'C');
    if 0 <= i < 5 && 0 <= j < 5 && ROTORS[i].0@ == ROTORS[j].0@ {
        assert(ROTORS[i].0@.len() == ROTORS[j].0@.len());
        assert(ROTORS[i].0@[0] == ROTORS[j].0@[0]);
        if ROTORS[i].0@.len() >= 2 {
            assert(ROTORS[i].0@[1] == ROTORS[j].0@[1]);
        }
    }
}

/// The letters of cables: two for each, and a space between them.
proof fn lemma_cables_joined(plugs: Seq<(u8, u8)>)
    requires
        forall|i: int| 0 <= i < plugs.len() ==> (#[trigger] plugs[i]).0 < 26 && plugs[i].1 < 26,
        plugs.len() > 0,
    ensures
        cables_joined(plugs).len() == 3 * plugs.len() - 1,
        forall|k: int|
            0 <= k < cables_joined(plugs).len() ==> 'A' <= #[trigger] cables_joined(plugs)[k] <= 'Z'
                || cables_joined(plugs)[k] == ' ',
        cables_joined(plugs)[0] == letter_of(plugs[0].0),
        forall|i: int|
            0 <= i < plugs.len() ==> cables_joined(plugs)[3 * i] == letter_of(
                (#[trigger] plugs[i]).0,
            ) && cables_joined(plugs)[3 * i + 1] == letter_of(plugs[i].1) && (i < plugs.len() - 1
                ==> cables_joined(plugs)[3 * i + 2] == ' '),
    decreases plugs.len(),
{
    reveal_strlit(" ");
    if plugs.len() > 1 {
        let front = plugs.drop_last();
        assert(forall|i: int| 0 <= i < front.len() ==> front[i] == plugs[i]);
        lemma_cables_joined(front);
        let last = plugs[plugs.len() - 1];
        assert(last == plugs.last());
        let text = cables_joined(plugs);
        assert(text == cables_joined(front) + " "@ + cable_text(last));
        let n = cables_joined(front).len() as int;
        assert(text[n] == ' ');
        assert(text[n + 1] == letter_of(last.0) && text[n + 2] == letter_of(last.1));
        assert forall|k: int| 0 <= k < text.len() implies 'A' <= #[trigger] text[k] <= 'Z'
            || text[k] == ' ' by {
            if k < n {
                assert(text[k] == cables_joined(front)[k]);
            }
        }
        assert forall|i: int| 0 <= i < plugs.len() implies text[3 * i] == letter_of(
            (#[trigger] plugs[i]).0,
        ) && text[3 * i + 1] == letter_of(plugs[i].1) && (i < plugs.len() - 1 ==> text[3 * i + 2]
            == ' ') by {
            if i < front.len() {
                assert(front[i] == plugs[i]);
                assert(text[3 * i] == cables_joined(front)[3 * i]);
                assert(text[3 * i + 1] == cables_joined(front)[3 * i + 1]);
                if i < front.len() - 1 {
                    assert(text[3 * i + 2] == cables_joined(front)[3 * i + 2]);
                }
            }
        }
    }
}

/// No line break in the plugboard line, and nothing lost in it.
proof fn lemma_plugboard_text(p: Seq<(u8, u8)>, q: Seq<(u8, u8)>)
    requires
        forall|i: int| 0 <= i < p.len() ==> (#[trigger] p[i]).0 < 26 && p[i].1 < 26,
        forall|i: int| 0 <= i < q.len() ==> (#[trigger] q[i]).0 < 26 && q[i].1 < 26,
    ensures
        !plugboard_text(p).contains('\n'),
        plugboard_text(p) == plugboard_text(q) ==> p == q,
{
    reveal_strlit("(none)");
    if p.len() > 0 {
        lemma_cables_joined(p);
    }
    if q.len() > 0 {
        lemma_cables_joined(q);
    }
    if plugboard_text(p) == plugboard_text(q) {
        if p.len() == 0 || q.len() == 0 {
            assert(plugboard_text(p)[0] == plugboard_text(q)[0]);
        } else {
            assert(plugboard_text(p).len() == plugboard_text(q).len());
            assert forall|i: int| 0 <= i < p.len() implies p[i] == q[i] by {
                assert(letter_of(p[i].0) == letter_of(q[i].0));
                assert(letter_of(p[i].1) == letter_of(q[i].1));
            }
        }
        assert(p =~= q);
    }
}

/// No line break in a grouped text, and nothing lost in it.
proof fn lemma_grouped(a: Seq<char>, b: Seq<char>)
    requires
        is_upper(a),
    ensures
        !grouped(a).contains('\n'),
        grouped(a) == grouped(b) ==> a == b,
{
    assert forall|k: int| 0 <= k < grouped(a).len() implies #[trigger] grouped(a)[k] != '\n' by {
        groups_have_five_letters(a, k);
    }
    if grouped(a) == grouped(b) {
        assert(a.len() == b.len()) by {
            let n = a.len() as int;
            let m = b.len() as int;
            assert(n == 0 || grouped(a).len() == n + (n - 1) / 5);
            assert(m == 0 || grouped(b).len() == m + (m - 1) / 5);
        }
        assert forall|i: int| 0 <= i < a.len() implies a[i] == b[i] by {
            grouping_keeps_the_text(a, i);
            grouping_keeps_the_text(b, i);
        }
        assert(a =~= b);
    }
}

/// Three letters tell three numbers.
proof fn lemma_three_letters(v: Seq<u8>, w: Seq<u8>)
    requires
        v.len() == 3 && w.len() == 3,
        forall|i: int| 0 <= i < 3 ==> #[trigger] v[i] < 26,
        forall|i: int| 0 <= i < 3 ==> #[trigger] w[i] < 26,
        three_letters(v) == three_letters(w),
    ensures
        v == w,
{
    assert(three_letters(v)[0] == three_letters(w)[0]);
    assert(three_letters(v)[2] == three_letters(w)[2]);
    assert(three_letters(v)[4] == three_letters(w)[4]);
    assert(v[0] == w[0] && v[1] == w[1] && v[2] == w[2]);
    assert(v =~= w);
}

/// Transcripts that are the same have the same pieces.
proof fn lemma_same_transcripts(s: AppView, o: AppView, t: Utc)
    requires
        s.wf(),
        o.wf(),
        report_text(s, t) == report_text(o, t),
    ensures
        REFLECTORS[s.used.reflector as int].0@ == REFLECTORS[o.used.reflector as int].0@,
        ROTORS[s.used.rotors[0] as int].0@ == ROTORS[o.used.rotors[0] as int].0@,
        ROTORS[s.used.rotors[1] as int].0@ == ROTORS[o.used.rotors[1] as int].0@,
        ROTORS[s.used.rotors[2] as int].0@ == ROTORS[o.used.rotors[2] as int].0@,
        three_letters(s.used.rings) == three_letters(o.used.rings),
        three_letters(s.used.positions) == three_letters(o.used.positions),
        plugboard_text(s.used.plugs) == plugboard_text(o.used.plugs),
        windows_text(s.machine) == windows_text(o.machine),
        grouped(s.plaintext) == grouped(o.plaintext),
        grouped(s.ciphertext) == grouped(o.ciphertext),
{
    lemma_pieces(s, t);
    lemma_pieces(o, t);
    lemma_told(s, o, t);
    lemma_same_pieces(pieces_of(s, t), pieces_of(o, t));
    lemma_settings_at(s, t);
    lemma_settings_at(o, t);
}

/// Settings that are written alike are the same.
proof fn lemma_same_settings(c: ConfigView, d: ConfigView)
    requires
        c.wf(),
        d.wf(),
        REFLECTORS[c.reflector as int].0@ == REFLECTORS[d.reflector as int].0@,
        ROTORS[c.rotors[0] as int].0@ == ROTORS[d.rotors[0] as int].0@,
        ROTORS[c.rotors[1] as int].0@ == ROTORS[d.rotors[1] as int].0@,
        ROTORS[c.rotors[2] as int].0@ == ROTORS[d.rotors[2] as int].0@,
        three_letters(c.rings) == three_letters(d.rings),
        three_letters(c.positions) == three_letters(d.positions),
        plugboard_text(c.plugs) == plugboard_text(d.plugs),
    ensures
        c == d,
{
    lemma_names(c.reflector as int, d.reflector as int);
    lemma_names(c.rotors[0] as int, d.rotors[0] as int);
    lemma_names(c.rotors[1] as int, d.rotors[1] as int);
    lemma_names(c.rotors[2] as int, d.rotors[2] as int);
    lemma_three_letters(c.rings, d.rings);
    lemma_three_letters(c.positions, d.positions);
    lemma_plugboard_text(c.plugs, d.plugs);
    assert(c.rotors =~= d.rotors);
}

/// Nothing is lost in a transcript: the settings in use, the letters in the windows,
/// the input and the output can all be told from it.
pub proof fn a_transcript_tells_everything(s: AppView, o: AppView, t: Utc)
    requires
        s.wf(),
        o.wf(),
        report_text(s, t) == report_text(o, t),
    ensures
        s.used == o.used,
        s.plaintext == o.plaintext,
        s.ciphertext == o.ciphertext,
        s.machine.left.position == o.machine.left.position,
        s.machine.middle.position == o.machine.middle.position,
        s.machine.right.position == o.machine.right.position,
{
    lemma_same_transcripts(s, o, t);
    lemma_same_settings(s.used, o.used);
    lemma_grouped(s.plaintext, o.plaintext);
    lemma_grouped(s.ciphertext, o.ciphertext);
    let (v, w) = (windows_text(s.machine), windows_text(o.machine));
    assert(v[0] == w[0] && v[1] == w[1] && v[2] == w[2]);
}

/// The plugboard line: the two letters of each cable in order, a space between cables,
/// or a word if there is none.
pub proof fn cables_are_written_in_order(plugs: Seq<(u8, u8)>, i: int)
    requires
        forall|k: int| 0 <= k < plugs.len() ==> (#[trigger] plugs[k]).0 < 26 && plugs[k].1 < 26,
    ensures
        plugs.len() == 0 ==> plugboard_text(plugs) == "(none)"@,
        plugs.len() > 0 ==> plugboard_text(plugs).len() == 3 * plugs.len() - 1,
        0 <= i < plugs.len() ==> {
            &&& plugboard_text(plugs)[3 * i] == letter_of(plugs[i].0)
            &&& plugboard_text(plugs)[3 * i + 1] == letter_of(plugs[i].1)
            &&& i < plugs.len() - 1 ==> plugboard_text(plugs)[3 * i + 2] == ' '
        },
{
    if plugs.len() > 0 {
        lemma_cables_joined(plugs);
    }
}

/// Where the pieces of a transcript stand.
proof fn lemma_settings_at(s: AppView, t: Utc)
    ensures
        ({
            let c = s.used;
            let a = pieces_of(s, t);
            &&& a.len() == 22
            &&& a[0] == title_text(t)
            &&& a[1] == "Reflector   : "@
            &&& a[2] == REFLECTORS[c.reflector as int].0@
            &&& a[3] == "\nRotors      : "@
            &&& a[4] == standard_rotor(c.rotors[0] as int).name@
            &&& a[5] == " "@
            &&& a[6] == standard_rotor(c.rotors[1] as int).name@
            &&& a[7] == " "@
            &&& a[8] == standard_rotor(c.rotors[2] as int).name@
            &&& a[9] == "   (left middle right)\nRing setting: "@
            &&& a[10] == three_letters(c.rings)
            &&& a[11] == "\nStart pos   : "@
            &&& a[12] == three_letters(c.positions)
            &&& a[13] == "\nPlugboard   : "@
            &&& a[14] == plugboard_text(c.plugs)
            &&& a[15] == "\nEnd pos     : "@
            &&& a[16] == windows_text(s.machine)
            &&& a[17] == "\n\nInput  (plaintext): "@
            &&& a[18] == grouped(s.plaintext)
            &&& a[19] == "\nOutput (cipher)   : "@
            &&& a[20] == grouped(s.ciphertext)
            &&& a[21] == "\n\nTo verify: set any Enigma emulator to the settings above and type the\ninput; the output should match exactly.\n"@
        }),
{
    let c = s.used;
    let a = pieces_of(s, t);
    let p = settings_pieces(c);
    let e = end_pieces(s);
    assert(p.len() == 14 && e.len() == 7);
    assert(forall|i: int| 0 <= i < 14 ==> a[i + 1] == p[i]);
    assert(forall|i: int| 0 <= i < 7 ==> a[i + 15] == e[i]);
    assert(a[1] == p[0]);
    assert(a[2] == p[1]);
    assert(a[3] == p[2]);
    assert(a[4] == p[3]);
    assert(a[5] == p[4]);
    assert(a[6] == p[5]);
    assert(a[7] == p[6]);
    assert(a[8] == p[7]);
    assert(a[9] == p[8]);
    assert(a[10] == p[9]);
    assert(a[11] == p[10]);
    assert(a[12] == p[11]);
    assert(a[13] == p[12]);
    assert(a[14] == p[13]);
    assert(a[15] == e[0]);
    assert(a[16] == e[1]);
    assert(a[17] == e[2]);
    assert(a[18] == e[3]);
    assert(a[19] == e[4]);
    assert(a[20] == e[5]);
    assert(a[21] == e[6]);
}

/// Every piece of a transcript can be told from what follows.
proof fn lemma_told(s: AppView, o: AppView, t: Utc)
    requires
        s.wf(),
        o.wf(),
    ensures
        pieces_of(s, t).len() == pieces_of(o, t).len(),
        forall|i: int|
            0 <= i < pieces_of(s, t).len() ==> #[trigger] is_told(pieces_of(s, t), pieces_of(o, t), i),
{
    lemma_openings();
    lemma_settings_at(s, t);
    lemma_settings_at(o, t);
    let (a, b) = (pieces_of(s, t), pieces_of(o, t));
    let (c, d) = (s.used, o.used);
    lemma_names(c.reflector as int, d.reflector as int);
    lemma_names(d.reflector as int, c.reflector as int);
    lemma_names(c.rotors[0] as int, 0);
    lemma_names(c.rotors[1] as int, 0);
    lemma_names(c.rotors[2] as int, 0);
    lemma_names(d.rotors[0] as int, 0);
    lemma_names(d.rotors[1] as int, 0);
    lemma_names(d.rotors[2] as int, 0);
    lemma_plugboard_text(c.plugs, d.plugs);
    lemma_plugboard_text(d.plugs, c.plugs);
    lemma_grouped(s.plaintext, o.plaintext);
    lemma_grouped(o.plaintext, s.plaintext);
    lemma_grouped(s.ciphertext, o.ciphertext);
    lemma_grouped(o.ciphertext, s.ciphertext);
    assert(is_told(a, b, 0));
    assert(is_told(a, b, 1));
    assert(is_told(a, b, 2));
    assert(is_told(a, b, 3));
    assert(is_told(a, b, 4));
    assert(is_told(a, b, 5));
    assert(is_told(a, b, 6));
    assert(is_told(a, b, 7));
    assert(is_told(a, b, 8));
    assert(is_told(a, b, 9));
    assert(is_told(a, b, 10));
    assert(is_told(a, b, 11));
    assert(is_told(a, b, 12));
    assert(is_told(a, b, 13));
    assert(is_told(a, b, 14));
    assert(is_told(a, b, 15));
    assert(is_told(a, b, 16));
    assert(is_told(a, b, 17));
    assert(is_told(a, b, 18));
    assert(is_told(a, b, 19));
    assert(is_told(a, b, 20));
    assert(is_told(a, b, 21));
}

} // verus!
