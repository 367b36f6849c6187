//! In-engine save/load and pause-menu UI: the drawing commands the save
//! system emits, and the text the renderer shows for them.
use vstd::prelude::*;

use crate::app::{menu_body, menu_digit, zeros_before_last};
use crate::strings::{decimal, digit_char, push_decimal, seq_contains};

verus! {

/// A drawing command of the save/load or pause-menu UI.
#[derive(Debug, Clone, PartialEq, Eq)]
pub enum UiCommand {
    /// Translucent backdrop.
    Overlay,
    /// A line of text; `selected` marks the highlighted entry.
    Text { content: String, selected: bool },
    /// A save thumbnail.
    Thumbnail,
    /// A confirmation box.
    ConfirmDialog { message: String },
}

/// `"> "` before the selected entry, two spaces before the others.
pub open spec fn entry_marker(selected: bool) -> Seq<char> {
    if selected {
        "> "@
    } else {
        "  "@
    }
}

/// Text shown for one save/load UI command: text lines with their marker, a
/// placeholder for thumbnails, a framed message for confirmations, nothing
/// for the backdrop.
pub open spec fn save_ui_line(cmd: UiCommand) -> Seq<char> {
    match cmd {
        UiCommand::Overlay => Seq::empty(),
        UiCommand::Text { content, selected } => entry_marker(selected) + content@ + "\n"@,
        UiCommand::Thumbnail => "  [缩略图]\n"@,
        UiCommand::ConfirmDialog { message } => "  ╔══════════════════╗\n"@ + "  ║ "@ + message@ + "\n"@
            + "  ╚══════════════════╝\n"@,
    }
}

/// Text shown for one pause-menu command: only text lines count.
pub open spec fn pause_menu_line(cmd: UiCommand) -> Seq<char> {
    match cmd {
        UiCommand::Text { content, selected } => entry_marker(selected) + content@ + "\n"@,
        _ => Seq::empty(),
    }
}

/// The save/load UI text: one line per command, in order.
pub open spec fn save_ui_text(cmds: Seq<UiCommand>) -> Seq<char>
    decreases cmds.len(),
{
    if cmds.len() == 0 {
        Seq::empty()
    } else {
        save_ui_text(cmds.drop_last()) + save_ui_line(cmds.last())
    }
}

/// The pause-menu text: one line per text command, in order.
pub open spec fn pause_menu_text(cmds: Seq<UiCommand>) -> Seq<char>
    decreases cmds.len(),
{
    if cmds.len() == 0 {
        Seq::empty()
    } else {
        pause_menu_text(cmds.drop_last()) + pause_menu_line(cmds.last())
    }
}

fn push_entry(out: &mut String, content: &str, selected: bool)
    ensures
        final(out)@ == old(out)@ + entry_marker(selected) + content@ + "\n"@,
{
    proof {
        reveal_strlit("> ");
        reveal_strlit("  ");
        reveal_strlit("\n");
    }
    if selected {
        out.append("> ");
    } else {
        out.append("  ");
    }
    out.append(content);
    out.append("\n");
}

/// Renders the save/load UI commands as display text.
pub fn format_save_ui(commands: &[UiCommand]) -> (text: String)
    ensures
        text@ == save_ui_text(commands@),
{
    let mut text = String::new();
    let mut i: usize = 0;
    while i < commands.len()
        invariant
            i <= commands@.len(),
            text@ == save_ui_text(commands@.subrange(0, i as int)),
        decreases commands@.len() - i,
    {
        let ghost before = text@;
        match &commands[i] {
            UiCommand::Overlay => {},
            UiCommand::Text { content, selected } => {
                push_entry(&mut text, content.as_str(), *selected);
            },
            UiCommand::Thumbnail => {
                text.append("  [缩略图]\n");
            },
            UiCommand::ConfirmDialog { message } => {
                text.append("  ╔══════════════════╗\n");
                text.append("  ║ ");
                text.append(message.as_str());
                text.append("\n");
                text.append("  ╚══════════════════╝\n");
            },
        }
        proof {
            let p = commands@.subrange(0, i + 1);
            assert(p.drop_last() =~= commands@.subrange(0, i as int));
            assert(p.last() == commands@[i as int]);
            assert(text@ =~= before + save_ui_line(commands@[i as int]));
        }
        i = i + 1;
    }
    proof {
        assert(commands@.subrange(0, commands@.len() as int) =~= commands@);
    }
    text
}

/// Renders the pause-menu commands as display text.
pub fn format_pause_menu(commands: &[UiCommand]) -> (text: String)
    ensures
        text@ == pause_menu_text(commands@),
{
    let mut text = String::new();
    let mut i: usize = 0;
    while i < commands.len()
        invariant
            i <= commands@.len(),
            text@ == pause_menu_text(commands@.subrange(0, i as int)),
        decreases commands@.len() - i,
    {
        let ghost before = text@;
        if let UiCommand::Text { content, selected } = &commands[i] {
            push_entry(&mut text, content.as_str(), *selected);
        }
        proof {
            let p = commands@.subrange(0, i + 1);
            assert(p.drop_last() =~= commands@.subrange(0, i as int));
            assert(p.last() == commands@[i as int]);
            assert(text@ =~= before + pause_menu_line(commands@[i as int]));
        }
        i = i + 1;
    }
    proof {
        assert(commands@.subrange(0, commands@.len() as int) =~= commands@);
    }
    text
}

/// A choice line of a menu: a newline, two spaces, its 1-based number, `. `, its text.
pub open spec fn menu_choice_line(index: nat, choice: Seq<char>) -> Seq<char> {
    "\n  "@ + decimal(index + 1) + ". "@ + choice
}

/// The menu text: the prompt, then one numbered line per choice.
pub open spec fn menu_text(prompt: Seq<char>, choices: Seq<Seq<char>>) -> Seq<char>
    decreases choices.len(),
{
    if choices.len() == 0 {
        prompt
    } else {
        menu_text(prompt, choices.drop_last()) + menu_choice_line(
            (choices.len() - 1) as nat,
            choices.last(),
        )
    }
}

/// The text shown for a choice menu: the prompt followed by `  1. …`, `  2. …`
/// lines, one per choice.
pub fn format_menu(prompt: &str, choices: &[String]) -> (text: String)
    requires
        choices@.len() < u64::MAX,
    ensures
        text@ == menu_text(prompt@, choices@.map_values(|s: String| s@)),
{
    let ghost views = choices@.map_values(|s: String| s@);
    let mut text = String::from_str(prompt);
    let mut i: usize = 0;
    while i < choices.len()
        invariant
            i <= choices@.len(),
            choices@.len() < u64::MAX,
            views == choices@.map_values(|s: String| s@),
            text@ == menu_text(prompt@, views.subrange(0, i as int)),
        decreases choices@.len() - i,
    {
        let ghost before = text@;
        text.append("\n  ");
        push_decimal(&mut text, (i as u64) + 1);
        text.append(". ");
        text.append(choices[i].as_str());
        proof {
            reveal_strlit("\n  ");
            reveal_strlit(". ");
            let p = views.subrange(0, i + 1);
            assert(p.drop_last() =~= views.subrange(0, i as int));
            assert(p.last() == choices@[i as int]@);
            assert(text@ =~= before + menu_choice_line(i as nat, choices@[i as int]@));
        }
        i = i + 1;
    }
    proof {
        assert(views.subrange(0, choices@.len() as int) =~= views);
    }
    text
}

proof fn lemma_contains_in_middle(a: Seq<char>, m: Seq<char>, b: Seq<char>)
    ensures
        seq_contains(a + m + b, m),
{
    let h = a + m + b;
    assert(h.subrange(a.len() as int, (a.len() + m.len()) as int) =~= m);
}

proof fn lemma_contains_extend(h: Seq<char>, m: Seq<char>, tail: Seq<char>)
    requires
        seq_contains(h, m),
    ensures
        seq_contains(h + tail, m),
{
    let i = choose|i: int| 0 <= i && i + m.len() <= h.len() && #[trigger] h.subrange(i, i + m.len()) == m;
    assert((h + tail).subrange(i, i + m.len()) =~= h.subrange(i, i + m.len()));
}

/// Nothing a save/load UI command list asks to show is lost: the text holds
/// the content of every text entry and the message of every confirmation box.
pub proof fn law_save_ui_shows_every_message(cmds: Seq<UiCommand>, i: int)
    requires
        0 <= i < cmds.len(),
    ensures
        cmds[i] matches UiCommand::ConfirmDialog { message } ==> seq_contains(save_ui_text(cmds), message@),
        cmds[i] matches UiCommand::Text { content, .. } ==> seq_contains(save_ui_text(cmds), content@),
    decreases cmds.len(),
{
    let last = cmds.len() - 1;
    if i == last {
        let pre = save_ui_text(cmds.drop_last());
        match cmds[i] {
            UiCommand::ConfirmDialog { message } => {
                let a = pre + "  ╔══════════════════╗\n"@ + "  ║ "@;
                let b = "\n"@ + "  ╚══════════════════╝\n"@;
                assert(save_ui_text(cmds) =~= a + message@ + b);
                lemma_contains_in_middle(a, message@, b);
            },
            UiCommand::Text { content, selected } => {
                let a = pre + entry_marker(selected);
                assert(save_ui_text(cmds) =~= a + content@ + "\n"@);
                lemma_contains_in_middle(a, content@, "\n"@);
            },
            _ => {},
        }
    } else {
        let rest = cmds.drop_last();
        law_save_ui_shows_every_message(rest, i);
        assert(rest[i] == cmds[i]);
        match cmds[i] {
            UiCommand::ConfirmDialog { message } => {
                lemma_contains_extend(save_ui_text(rest), message@, save_ui_line(cmds.last()));
            },
            UiCommand::Text { content, .. } => {
                lemma_contains_extend(save_ui_text(rest), content@, save_ui_line(cmds.last()));
            },
            _ => {},
        }
    }
}

proof fn lemma_menu_prefix(prompt: Seq<char>, choices: Seq<Seq<char>>, j: int)
    requires
        0 <= j <= choices.len(),
    ensures
        menu_text(prompt, choices.subrange(0, j)).is_prefix_of(menu_text(prompt, choices)),
    decreases choices.len(),
{
    if j == choices.len() {
        assert(choices.subrange(0, j) =~= choices);
    } else {
        let rest = choices.drop_last();
        lemma_menu_prefix(prompt, rest, j);
        assert(rest.subrange(0, j) =~= choices.subrange(0, j));
        let p = menu_text(prompt, choices.subrange(0, j));
        let whole = menu_text(prompt, choices);
        let mid = menu_text(prompt, rest);
        assert(whole == mid + menu_choice_line((choices.len() - 1) as nat, choices.last()));
        assert(whole.subrange(0, p.len() as int) =~= mid.subrange(0, p.len() as int));
    }
}

/// The number shown before a menu choice is the digit key that selects it:
/// for each of the first nine choices, the menu text continues, after the
/// lines of the choices before it, with a newline, two spaces, a single digit
/// `d`, `. ` and the choice, where pressing the key `d` selects exactly that
/// choice.
pub proof fn law_menu_numbers_are_selecting_keys(prompt: Seq<char>, choices: Seq<Seq<char>>, i: int)
    requires
        0 <= i < choices.len(),
        i < 9,
    ensures
        exists|d: char|
            #![trigger menu_digit(seq![d])]
            menu_text(prompt, choices.subrange(0, i + 1)) == menu_text(prompt, choices.subrange(0, i))
                + "\n  "@ + seq![d] + ". "@ + choices[i] && menu_digit(seq![d]) == Some(i as usize),
        menu_text(prompt, choices.subrange(0, i + 1)).is_prefix_of(menu_text(prompt, choices)),
{
    let sub = choices.subrange(0, i + 1);
    assert(sub.drop_last() =~= choices.subrange(0, i));
    assert(sub.last() == choices[i]);
    let n = (i + 1) as nat;
    let d = digit_char(n);
    assert(decimal(n) == seq![d]);
    assert(menu_text(prompt, sub) == menu_text(prompt, choices.subrange(0, i)) + "\n  "@ + seq![d] + ". "@ + choices[i]);
    let t = seq![d];
    assert(menu_body(t) == t);
    assert(zeros_before_last(t));
    assert(menu_digit(t) == Some(i as usize));
    lemma_menu_prefix(prompt, choices, i + 1);
}

} // verus!
