//! Assignment lines. A story writes `name = value` on a line of its own to
//! have one of its variables set; the text of the value is read by the type
//! that the variable has.

use crate::error::NarrativeError;
use crate::ink::ink_story::InkStory;
use crate::ink::variable::assignment;
use crate::ink::variable::same_types;
use crate::ink::variable::Value;
use crate::ink::variable::ValueView;
use crate::text::chars_of;
use crate::text::find_char;
use crate::text::first_index;
use crate::text::parse_i32;
use crate::text::parse_int;
use crate::text::range_is;
use crate::text::strip_quotes;
use crate::text::strip_quotes_bounds;
use crate::text::substring;
use crate::text::trim;
use crate::text::trim_bounds;
use vstd::prelude::*;

verus! {

/// The one text that stands for a true truth value.
pub open spec fn true_word() -> Seq<char> {
    "true"@
}

/// The name and the value text of an assignment line: what stands before
/// and after its first `=`, each without the white space around it.
pub open spec fn split_directive(line: Seq<char>) -> Option<(Seq<char>, Seq<char>)> {
    let at = first_index(line, '=');
    if at < line.len() {
        Some((trim(line.subrange(0, at)), trim(line.subrange(at + 1, line.len() as int))))
    } else {
        None
    }
}

/// The value that `text` stands for in a variable that holds `current`.
/// Text that does not read as the variable's type gives `false` or zero.
pub open spec fn coerced(current: ValueView, text: Seq<char>) -> Option<ValueView> {
    match current {
        ValueView::Bool(_) => Some(ValueView::Bool(text == true_word())),
        ValueView::Int(_) => Some(
            ValueView::Int(
                match parse_int(text) {
                    Some(n) => n,
                    None => 0i32,
                },
            ),
        ),
        ValueView::String(_) => Some(ValueView::String(strip_quotes(text))),
        _ => None,
    }
}

/// What became of an assignment line.
#[derive(Debug, Clone, PartialEq, Eq)]
pub enum Directive {
    /// The line has no `=`.
    Malformed,
    /// The story has no variable of that name.
    Unknown(String),
    /// The variable was given the value.
    Assigned(String, Value),
    /// The variable holds a decimal number: the text is still to be read as
    /// one and assigned, by whoever can.
    Decimal(String, String),
    /// The variable is of a type that takes no assignment.
    Unsupported(String),
}

pub enum DirectiveView {
    Malformed,
    Unknown(Seq<char>),
    Assigned(Seq<char>, ValueView),
    Decimal(Seq<char>, Seq<char>),
    Unsupported(Seq<char>),
}

impl View for Directive {
    type V = DirectiveView;

    open spec fn view(&self) -> DirectiveView {
        match self {
            Directive::Malformed => DirectiveView::Malformed,
            Directive::Unknown(name) => DirectiveView::Unknown(name@),
            Directive::Assigned(name, value) => DirectiveView::Assigned(name@, value@),
            Directive::Decimal(name, text) => DirectiveView::Decimal(name@, text@),
            Directive::Unsupported(name) => DirectiveView::Unsupported(name@),
        }
    }
}

/// What an assignment line comes to in a story with these variables.
pub open spec fn read_directive(
    variables: Map<Seq<char>, ValueView>,
    line: Seq<char>,
) -> DirectiveView {
    match split_directive(line) {
        None => DirectiveView::Malformed,
        Some((name, text)) => if !variables.contains_key(name) {
            DirectiveView::Unknown(name)
        } else {
            match coerced(variables[name], text) {
                Some(value) => DirectiveView::Assigned(name, value),
                None => if variables[name] is Float {
                    DirectiveView::Decimal(name, text)
                } else {
                    DirectiveView::Unsupported(name)
                },
            }
        },
    }
}

/// The variables once the line has been dealt with.
pub open spec fn store_after(variables: Map<Seq<char>, ValueView>, outcome: DirectiveView) -> Map<
    Seq<char>,
    ValueView,
> {
    match outcome {
        DirectiveView::Assigned(name, value) => variables.insert(name, value),
        _ => variables,
    }
}

/// Text that does not read as an integer gives an integer variable the
/// value zero.
pub proof fn lemma_unreadable_integer_is_zero(
    variables: Map<Seq<char>, ValueView>,
    line: Seq<char>,
    name: Seq<char>,
    text: Seq<char>,
)
    requires
        split_directive(line) == Some((name, text)),
        variables.contains_key(name),
        variables[name] is Int,
        parse_int(text) is None,
    ensures
        read_directive(variables, line) == DirectiveView::Assigned(name, ValueView::Int(0)),
        store_after(variables, read_directive(variables, line))[name] == ValueView::Int(0),
{
}

/// Text other than `true` gives a truth variable the value false.
pub proof fn lemma_unreadable_truth_is_false(
    variables: Map<Seq<char>, ValueView>,
    line: Seq<char>,
    name: Seq<char>,
    text: Seq<char>,
)
    requires
        split_directive(line) == Some((name, text)),
        variables.contains_key(name),
        variables[name] is Bool,
        text != true_word(),
    ensures
        read_directive(variables, line) == DirectiveView::Assigned(name, ValueView::Bool(false)),
        store_after(variables, read_directive(variables, line))[name] == ValueView::Bool(false),
{
}

/// What an assignment line does to the variables is what assigning its
/// value does: the setter's check of the type cannot fail on it.
pub proof fn lemma_directive_is_assignment(variables: Map<Seq<char>, ValueView>, line: Seq<char>)
    ensures
        read_directive(variables, line) matches DirectiveView::Assigned(name, value) ==> assignment(
            variables,
            name,
            value,
        ) == Ok::<Map<Seq<char>, ValueView>, NarrativeError>(
            store_after(variables, read_directive(variables, line)),
        ),
{
}

/// No assignment line brings a variable, takes one away or changes the type
/// of one.
pub proof fn lemma_directive_keeps_types(variables: Map<Seq<char>, ValueView>, line: Seq<char>)
    ensures
        same_types(variables, store_after(variables, read_directive(variables, line))),
{
    let after = store_after(variables, read_directive(variables, line));
    assert(after.dom() =~= variables.dom());
}

/// Reads `line`, an assignment line without the `~` that marks it, and
/// assigns the value where the story has the variable and the library holds
/// its type. No line is an error: one that cannot be carried out leaves the
/// story as it is.
pub fn apply_directive(story: &mut InkStory, line: &str) -> (r: Directive)
    ensures
        final(story).phase() == old(story).phase(),
        final(story).offered() == old(story).offered(),
        final(story).on_offer() == old(story).on_offer(),
        final(story).selected() == old(story).selected(),
        final(story).location() == old(story).location(),
        r@ == read_directive(old(story).variables(), line@),
        final(story).variables() == store_after(old(story).variables(), r@),
{
    let chars = chars_of(line);
    let at = find_char(&chars, '=');
    if at >= chars.len() {
        return Directive::Malformed;
    }
    let (name_from, name_to) = trim_bounds(&chars, 0, at);
    let (from, to) = trim_bounds(&chars, at + 1, chars.len());
    let name = substring(line, name_from, name_to);
    let current = match story.get_variable(name.as_str()) {
        Ok(current) => current,
        Err(_) => {
            return Directive::Unknown(name);
        },
    };
    let value = match current {
        Value::Bool(_) => Value::Bool(range_is(&chars, from, to, "true")),
        Value::Int(_) => Value::Int(
            match parse_i32(&chars, from, to) {
                Some(n) => n,
                None => 0,
            },
        ),
        Value::String(_) => {
            let (open, close) = strip_quotes_bounds(&chars, from, to);
            Value::String(substring(line, open, close))
        },
        Value::Float(_) => {
            return Directive::Decimal(name, substring(line, from, to));
        },
        Value::Address => {
            return Directive::Unsupported(name);
        },
        Value::Divert => {
            return Directive::Unsupported(name);
        },
    };
    match story.set_variable(name.as_str(), value.duplicate()) {
        Ok(()) => Directive::Assigned(name, value),
        // The value is of the variable's own type, so the setter takes it.
        Err(_) => Directive::Unsupported(name),
    }
}

} // verus!
