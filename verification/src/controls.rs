//! The help text that lists the controls.

use vstd::prelude::*;
use vstd::string::StringExecFns;
use crate::input::KeyBindings;

verus! {

/// One line of the help text: the action, a colon, the key, a line break.
pub open spec fn control_line(action: Seq<char>, key: Seq<char>) -> Seq<char> {
    action + ": "@ + key + "\n"@
}

/// The help text for the given bindings: a heading, one line for each action
/// with the name of its key, in a fixed order, and a last line for the zoom,
/// which is always on the scroll wheel.
pub open spec fn controls_of(b: KeyBindings) -> Seq<char> {
    "Camera controls\n"@ + control_line("forward"@, b.forward.label@) + control_line(
        "back"@,
        b.back.label@,
    ) + control_line("left"@, b.left.label@) + control_line("right"@, b.right.label@)
        + control_line("up"@, b.up.label@) + control_line("down"@, b.down.label@) + control_line(
        "run"@,
        b.run.label@,
    ) + control_line("toggle cursor"@, b.toggle_cursor.label@) + control_line(
        "toggle mode"@,
        b.toggle_mode.label@,
    ) + control_line("zoom"@, "scroll wheel"@)
}

/// `part` occurs in `whole` as a run of consecutive characters.
#[verifier::opaque]
pub open spec fn occurs_in(part: Seq<char>, whole: Seq<char>) -> bool {
    exists|i: int|
        0 <= i && i + part.len() <= whole.len() && #[trigger] whole.subrange(
            i,
            i + part.len(),
        ) == part
}

/// Appends one line of the help text.
fn push_line(text: &mut String, action: &str, key: &str)
    ensures
        final(text)@ == old(text)@ + control_line(action@, key@),
{
    text.append(action);
    text.append(": ");
    text.append(key);
    text.append("\n");
    assert(text@ =~= old(text)@ + control_line(action@, key@));
}

/// The help text for the given bindings.
pub fn controls_text(bindings: &KeyBindings) -> (text: String)
    ensures
        text@ == controls_of(*bindings),
{
    let mut text = String::from_str("Camera controls\n");
    push_line(&mut text, "forward", bindings.forward.label.as_str());
    push_line(&mut text, "back", bindings.back.label.as_str());
    push_line(&mut text, "left", bindings.left.label.as_str());
    push_line(&mut text, "right", bindings.right.label.as_str());
    push_line(&mut text, "up", bindings.up.label.as_str());
    push_line(&mut text, "down", bindings.down.label.as_str());
    push_line(&mut text, "run", bindings.run.label.as_str());
    push_line(&mut text, "toggle cursor", bindings.toggle_cursor.label.as_str());
    push_line(&mut text, "toggle mode", bindings.toggle_mode.label.as_str());
    push_line(&mut text, "zoom", "scroll wheel");
    text
}

/// A run of characters occurs in whatever ends with it.
pub proof fn lemma_occurs_at_end(head: Seq<char>, part: Seq<char>)
    ensures
        occurs_in(part, head + part),
{
    reveal(occurs_in);
    let whole = head + part;
    let i = head.len() as int;
    assert(whole.subrange(i, i + part.len()) =~= part);
}

/// A run of characters that occurs in a text occurs in every text that begins
/// with that text.
pub proof fn lemma_occurs_in_longer(part: Seq<char>, whole: Seq<char>, more: Seq<char>)
    requires
        occurs_in(part, whole),
    ensures
        occurs_in(part, whole + more),
{
    reveal(occurs_in);
    let i = choose|i: int|
        0 <= i && i + part.len() <= whole.len() && #[trigger] whole.subrange(i, i + part.len())
            == part;
    assert((whole + more).subrange(i, i + part.len()) =~= whole.subrange(i, i + part.len()));
}

/// A line that was appended to a text occurs in the text after any three more
/// lines.
proof fn lemma_occurs_after_three(
    head: Seq<char>,
    line: Seq<char>,
    a: Seq<char>,
    b: Seq<char>,
    c: Seq<char>,
)
    requires
        occurs_in(line, head),
    ensures
        occurs_in(line, head + a),
        occurs_in(line, head + a + b),
        occurs_in(line, head + a + b + c),
{
    lemma_occurs_in_longer(line, head, a);
    lemma_occurs_in_longer(line, head + a, b);
    lemma_occurs_in_longer(line, head + a + b, c);
}

/// The help text names every bound action: for each action it holds the line
/// made of the action's name and the name of the key bound to it.
pub proof fn lemma_controls_list_every_action(b: KeyBindings)
    ensures
        occurs_in(control_line("forward"@, b.forward.label@), controls_of(b)),
        occurs_in(control_line("back"@, b.back.label@), controls_of(b)),
        occurs_in(control_line("left"@, b.left.label@), controls_of(b)),
        occurs_in(control_line("right"@, b.right.label@), controls_of(b)),
        occurs_in(control_line("up"@, b.up.label@), controls_of(b)),
        occurs_in(control_line("down"@, b.down.label@), controls_of(b)),
        occurs_in(control_line("run"@, b.run.label@), controls_of(b)),
        occurs_in(control_line("toggle cursor"@, b.toggle_cursor.label@), controls_of(b)),
        occurs_in(control_line("toggle mode"@, b.toggle_mode.label@), controls_of(b)),
        occurs_in(control_line("zoom"@, "scroll wheel"@), controls_of(b)),
{
    let l0 = control_line("forward"@, b.forward.label@);
    let l1 = control_line("back"@, b.back.label@);
    let l2 = control_line("left"@, b.left.label@);
    let l3 = control_line("right"@, b.right.label@);
    let l4 = control_line("up"@, b.up.label@);
    let l5 = control_line("down"@, b.down.label@);
    let l6 = control_line("run"@, b.run.label@);
    let l7 = control_line("toggle cursor"@, b.toggle_cursor.label@);
    let l8 = control_line("toggle mode"@, b.toggle_mode.label@);
    let l9 = control_line("zoom"@, "scroll wheel"@);
    let t0 = "Camera controls\n"@;
    let t1 = t0 + l0;
    let t2 = t1 + l1;
    let t3 = t2 + l2;
    let t4 = t3 + l3;
    let t5 = t4 + l4;
    let t6 = t5 + l5;
    let t7 = t6 + l6;
    let t8 = t7 + l7;
    let t9 = t8 + l8;
    let t10 = t9 + l9;
    assert(controls_of(b) == t10);
    lemma_occurs_at_end(t0, l0);
    lemma_occurs_after_three(t1, l0, l1, l2, l3);
    lemma_occurs_after_three(t4, l0, l4, l5, l6);
    lemma_occurs_after_three(t7, l0, l7, l8, l9);
    lemma_occurs_at_end(t1, l1);
    lemma_occurs_after_three(t2, l1, l2, l3, l4);
    lemma_occurs_after_three(t5, l1, l5, l6, l7);
    lemma_occurs_in_longer(l1, t8, l8);
    lemma_occurs_in_longer(l1, t9, l9);
    lemma_occurs_at_end(t2, l2);
    lemma_occurs_after_three(t3, l2, l3, l4, l5);
    lemma_occurs_after_three(t6, l2, l6, l7, l8);
    lemma_occurs_in_longer(l2, t9, l9);
    lemma_occurs_at_end(t3, l3);
    lemma_occurs_after_three(t4, l3, l4, l5, l6);
    lemma_occurs_after_three(t7, l3, l7, l8, l9);
    lemma_occurs_at_end(t4, l4);
    lemma_occurs_after_three(t5, l4, l5, l6, l7);
    lemma_occurs_in_longer(l4, t8, l8);
    lemma_occurs_in_longer(l4, t9, l9);
    lemma_occurs_at_end(t5, l5);
    lemma_occurs_after_three(t6, l5, l6, l7, l8);
    lemma_occurs_in_longer(l5, t9, l9);
    lemma_occurs_at_end(t6, l6);
    lemma_occurs_after_three(t7, l6, l7, l8, l9);
    lemma_occurs_at_end(t7, l7);
    lemma_occurs_in_longer(l7, t8, l8);
    lemma_occurs_in_longer(l7, t9, l9);
    lemma_occurs_at_end(t8, l8);
    lemma_occurs_in_longer(l8, t9, l9);
    lemma_occurs_at_end(t9, l9);
}

} // verus!
