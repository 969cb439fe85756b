//! One running story: what it hands out at each step, and the session that
//! owns it.
//!
//! Reading a script and taking a step of a story are left to the caller:
//! the interpreter may fail to return from either. The caller makes the
//! two calls and hands their outcomes to the session, which does the rest.

use crate::error::NarrativeError;
use crate::ink::variable::assignment;
use crate::ink::variable::lookup;
use crate::ink::variable::outside_assignment;
use crate::ink::variable::Value;
use crate::ink::variable::ValueView;
use crate::mailbox::Mailbox;
use vstd::prelude::*;

verus! {

#[verifier::external_type_specification]
#[verifier::external_body]
pub struct ExStory(inkling::Story);

#[verifier::external_type_specification]
#[verifier::external_body]
pub struct ExInklingError(inkling::InklingError);

#[verifier::external_type_specification]
#[verifier::external_body]
pub struct ExReadError(inkling::error::ReadError);

#[verifier::external_type_specification]
#[verifier::external_body]
pub struct ExOutsideVariable(inkling::Variable);

/// A line of story text with its tags.
#[derive(Debug, Clone, PartialEq, Eq)]
pub struct Line {
    pub text: String,
    pub tags: Vec<String>,
}

/// One of the choices that the story offers, with its tags.
#[derive(Debug, Clone, PartialEq, Eq)]
pub struct Choice {
    pub text: String,
    pub tags: Vec<String>,
}

/// How a step of the story ended.
#[derive(Debug, Clone, PartialEq, Eq)]
pub enum Prompt {
    /// The story has come to its end.
    Done,
    /// The story waits for one of these choices, which are addressed by
    /// their place in the list.
    Choice(Vec<Choice>),
}

/// What one step of the story handed out: the lines since the last step, in
/// the order of the script, and how the step ended.
#[derive(Debug, Clone, PartialEq, Eq)]
pub struct StoryEvent {
    pub lines: Vec<Line>,
    pub prompt: Prompt,
}

/// A text with tags, as contracts see a `Line` or a `Choice`.
pub struct Tagged {
    pub text: Seq<char>,
    pub tags: Seq<Seq<char>>,
}

pub enum PromptView {
    Done,
    Choice(Seq<Tagged>),
}

pub struct StoryEventView {
    pub lines: Seq<Tagged>,
    pub prompt: PromptView,
}

impl View for Line {
    type V = Tagged;

    open spec fn view(&self) -> Tagged {
        Tagged { text: self.text@, tags: self.tags@.map_values(|t: String| t@) }
    }
}

impl View for Choice {
    type V = Tagged;

    open spec fn view(&self) -> Tagged {
        Tagged { text: self.text@, tags: self.tags@.map_values(|t: String| t@) }
    }
}

impl View for Prompt {
    type V = PromptView;

    open spec fn view(&self) -> PromptView {
        match self {
            Prompt::Done => PromptView::Done,
            Prompt::Choice(choices) => PromptView::Choice(choices@.map_values(|c: Choice| c@)),
        }
    }
}

impl View for StoryEvent {
    type V = StoryEventView;

    open spec fn view(&self) -> StoryEventView {
        StoryEventView { lines: self.lines@.map_values(|l: Line| l@), prompt: self.prompt@ }
    }
}

/// Where a session stands.
#[derive(Debug, Clone, Copy, PartialEq, Eq, Hash, Structural)]
pub enum Phase {
    /// The cursor was set, by loading or by a jump, and nothing has been
    /// handed out from there yet.
    Loaded,
    /// The last step ended in a list of choices, and none was taken yet.
    AwaitingChoice,
    /// A choice was taken; the next step follows it.
    Resuming,
    /// The last step ended the story.
    Terminated,
    /// The interpreter failed. The session goes no further.
    Failed,
}

impl PromptView {
    /// The phase in which a step that ends in this prompt leaves the session.
    pub open spec fn next_phase(self) -> Phase {
        match self {
            PromptView::Done => Phase::Terminated,
            PromptView::Choice(_) => Phase::AwaitingChoice,
        }
    }

    /// How many choices the prompt offers.
    pub open spec fn offered(self) -> nat {
        match self {
            PromptView::Done => 0,
            PromptView::Choice(choices) => choices.len(),
        }
    }
}

impl Prompt {
    /// The phase in which a step that ends in this prompt leaves the session.
    pub fn next_phase(&self) -> (r: Phase)
        ensures
            r == self@.next_phase(),
    {
        match self {
            Prompt::Done => Phase::Terminated,
            Prompt::Choice(_) => Phase::AwaitingChoice,
        }
    }

    /// How many choices the prompt offers.
    pub fn offered(&self) -> (r: usize)
        ensures
            r == self@.offered(),
    {
        match self {
            Prompt::Done => 0,
            Prompt::Choice(choices) => choices.len(),
        }
    }
}

/// Whether the story was started.
pub uninterp spec fn story_started(story: inkling::Story) -> bool;

/// How many choices the story keeps on offer: those of the last step that
/// ended in choices, until one is taken or the cursor is moved.
pub uninterp spec fn story_offered(story: inkling::Story) -> nat;

/// The choice that was taken and waits for the next step to follow it, by
/// the number that the interpreter keeps for it.
pub uninterp spec fn story_selected(story: inkling::Story) -> Option<nat>;

/// The knot and the stitch at which the cursor of the story stands.
pub uninterp spec fn story_location(story: inkling::Story) -> (Seq<char>, Seq<char>);

/// The variables of the story, by name.
pub uninterp spec fn story_variables(story: inkling::Story) -> Map<Seq<char>, ValueView>;

/// A value of the interpreter as this library sees it: each variant as the
/// variant of the same name, a truth value, an integer and a text with what
/// they hold, a decimal number with its bit pattern, an address and a
/// divert target without what they point to.
pub uninterp spec fn outside_value(value: inkling::Variable) -> ValueView;

/// Whether the story has a knot `knot` and in it the stitch `stitch`, or,
/// with no stitch named, the knot's first one.
pub uninterp spec fn story_has_location(
    story: inkling::Story,
    knot: Seq<char>,
    stitch: Option<Seq<char>>,
) -> bool;

pub open spec fn stitch_view(stitch: Option<&str>) -> Option<Seq<char>> {
    match stitch {
        Some(name) => Some(name@),
        None => None,
    }
}

/// `Story::start`. It fails exactly on a story that was started before, and
/// then changes nothing; else it marks the story as started and touches
/// nothing else of what is named here.
#[verifier::external_body]
fn start_story(story: &mut inkling::Story) -> (r: Result<(), inkling::InklingError>)
    ensures
        r is Ok <==> !story_started(*old(story)),
        r is Err ==> *final(story) == *old(story),
        r is Ok ==> story_started(*final(story)),
        story_offered(*final(story)) == story_offered(*old(story)),
        story_selected(*final(story)) == story_selected(*old(story)),
        story_location(*final(story)) == story_location(*old(story)),
        story_variables(*final(story)) == story_variables(*old(story)),
{
    story.start()
}

/// `Story::make_choice`. It succeeds exactly where `selection` is the place
/// of a choice on offer; that choice is then the one taken, and nothing is
/// on offer any more. The cursor and the variables stay. Where it fails it
/// changes nothing.
#[verifier::external_body]
fn choose_outside(story: &mut inkling::Story, selection: usize) -> (r: Result<
    (),
    inkling::InklingError,
>)
    ensures
        r is Ok <==> selection < story_offered(*old(story)),
        r is Err ==> *final(story) == *old(story),
        r is Ok ==> story_offered(*final(story)) == 0 && story_selected(*final(story)) is Some,
        story_started(*final(story)) == story_started(*old(story)),
        story_location(*final(story)) == story_location(*old(story)),
        story_variables(*final(story)) == story_variables(*old(story)),
{
    story.make_choice(selection)
}

/// `Story::move_to`. It succeeds exactly where the story has the location;
/// the cursor then stands at that knot, and at that stitch where one was
/// named, and nothing is on offer any more. A choice that was taken stays
/// taken, and the variables stay. Where it fails it changes nothing.
#[verifier::external_body]
fn move_outside(story: &mut inkling::Story, knot: &str, stitch: Option<&str>) -> (r: Result<
    (),
    inkling::InklingError,
>)
    ensures
        r is Ok <==> story_has_location(*old(story), knot@, stitch_view(stitch)),
        r is Err ==> *final(story) == *old(story),
        r is Ok ==> story_offered(*final(story)) == 0 && story_location(*final(story)).0 == knot@
            && (stitch matches Some(name) ==> story_location(*final(story)).1 == name@),
        story_started(*final(story)) == story_started(*old(story)),
        story_selected(*final(story)) == story_selected(*old(story)),
        story_variables(*final(story)) == story_variables(*old(story)),
{
    story.move_to(knot, stitch)
}

/// `Story::get_variable`. It succeeds exactly where the story has a
/// variable of that name, and hands out its value.
#[verifier::external_body]
fn variable_outside(story: &inkling::Story, name: &str) -> (r: Result<
    inkling::Variable,
    inkling::InklingError,
>)
    ensures
        r is Ok <==> story_variables(*story).contains_key(name@),
        r matches Ok(value) ==> outside_value(value) == story_variables(*story)[name@],
{
    story.get_variable(name)
}

/// A value of the interpreter brought into this library's type, variant by
/// variant. A decimal number comes as its bit pattern; an address and a
/// divert target leave behind what they point to.
#[verifier::external_body]
fn from_outside(value: &inkling::Variable) -> (r: Value)
    ensures
        r@ == outside_value(*value),
{
    match value {
        inkling::Variable::Bool(b) => Value::Bool(*b),
        inkling::Variable::Float(f) => Value::Float(f.to_bits()),
        inkling::Variable::Int(i) => Value::Int(*i),
        inkling::Variable::String(s) => Value::String(s.clone()),
        inkling::Variable::Address(_) => Value::Address,
        inkling::Variable::Divert(_) => Value::Divert,
    }
}

/// What this library writes to a variable.
enum Assigned<'a> {
    Bool(bool),
    Int(i32),
    Text(&'a str),
}

impl<'a> Assigned<'a> {
    spec fn model(self) -> ValueView {
        match self {
            Assigned::Bool(b) => ValueView::Bool(b),
            Assigned::Int(i) => ValueView::Int(i),
            Assigned::Text(s) => ValueView::String(s@),
        }
    }
}

/// `inkling::Variable::from` on a truth value, an integer or a text: the
/// value of the interpreter that stands for it.
#[verifier::external_body]
fn to_outside(value: Assigned) -> (r: inkling::Variable)
    ensures
        outside_value(r) == value.model(),
{
    match value {
        Assigned::Bool(b) => inkling::Variable::from(b),
        Assigned::Int(i) => inkling::Variable::from(i),
        Assigned::Text(s) => inkling::Variable::from(s),
    }
}

/// `Story::set_variable`. It succeeds exactly where the story has a
/// variable of that name and of the variant of `value`, which then holds
/// `value`; where it fails it changes nothing. Nothing but the variables
/// is touched.
#[verifier::external_body]
fn assign_outside(story: &mut inkling::Story, name: &str, value: inkling::Variable) -> (r: Result<
    (),
    inkling::InklingError,
>)
    ensures
        r is Ok <==> story_variables(*old(story)).contains_key(name@) && story_variables(
            *old(story),
        )[name@].same_type(outside_value(value)),
        r is Err ==> *final(story) == *old(story),
        r is Ok ==> story_variables(*final(story)) == story_variables(*old(story)).insert(
            name@,
            outside_value(value),
        ),
        story_started(*final(story)) == story_started(*old(story)),
        story_offered(*final(story)) == story_offered(*old(story)),
        story_selected(*final(story)) == story_selected(*old(story)),
        story_location(*final(story)) == story_location(*old(story)),
{
    story.set_variable(name, value)
}

/// A story in progress.
pub struct InkStory {
    story: inkling::Story,
    phase: Phase,
    offered: usize,
}

impl InkStory {
    /// The story as the interpreter holds it.
    pub closed spec fn story(&self) -> inkling::Story {
        self.story
    }

    pub closed spec fn phase(&self) -> Phase {
        self.phase
    }

    /// How many choices the last step offered, while none of them was taken
    /// and the cursor was not moved.
    pub closed spec fn offered(&self) -> nat {
        self.offered as nat
    }

    /// How many choices the interpreter keeps on offer.
    pub open spec fn on_offer(&self) -> nat {
        story_offered(self.story())
    }

    /// The choice that was taken and waits to be followed.
    pub open spec fn selected(&self) -> Option<nat> {
        story_selected(self.story())
    }

    /// The knot and the stitch at which the cursor stands.
    pub open spec fn location(&self) -> (Seq<char>, Seq<char>) {
        story_location(self.story())
    }

    /// The variables of the story, by name.
    pub open spec fn variables(&self) -> Map<Seq<char>, ValueView> {
        story_variables(self.story())
    }

    pub open spec fn has_location(&self, knot: Seq<char>, stitch: Option<Seq<char>>) -> bool {
        story_has_location(self.story(), knot, stitch)
    }

    /// Makes a session of a script that was read, and starts the story at
    /// its beginning. There is none where the script was not accepted, nor
    /// where the story was started before.
    pub fn new(read: Result<inkling::Story, inkling::error::ReadError>) -> (r: Option<InkStory>)
        ensures
            r is Some <==> (read matches Ok(story) && !story_started(story)),
            r matches Some(session) ==> {
                &&& session.phase() is Loaded
                &&& session.offered() == 0
                &&& story_started(session.story())
                &&& session.variables() == story_variables(read->Ok_0)
                &&& session.location() == story_location(read->Ok_0)
                &&& session.selected() == story_selected(read->Ok_0)
                &&& session.on_offer() == story_offered(read->Ok_0)
            },
    {
        match read {
            Ok(story) => {
                let mut story = story;
                match start_story(&mut story) {
                    Ok(()) => Some(InkStory { story, phase: Phase::Loaded, offered: 0 }),
                    Err(_) => None,
                }
            },
            Err(_) => None,
        }
    }

    pub fn current_phase(&self) -> (r: Phase)
        ensures
            r == self.phase(),
    {
        self.phase
    }

    pub fn choices_offered(&self) -> (r: usize)
        ensures
            r == self.offered(),
    {
        self.offered
    }

    /// Whether the session takes another step: a session that has failed
    /// takes none.
    pub fn can_step(&self) -> (r: bool)
        ensures
            r == !(self.phase() is Failed),
    {
        match self.phase {
            Phase::Failed => false,
            _ => true,
        }
    }

    /// The story, for the interpreter to take a step on. Its outcome goes
    /// to `resume_story`.
    pub fn story_mut(&mut self) -> (r: &mut inkling::Story)
        ensures
            *r == old(self).story(),
            final(self).story() == *final(r),
            final(self).phase() == old(self).phase(),
            final(self).offered() == old(self).offered(),
    {
        &mut self.story
    }

    /// Takes in the outcome of the step that the interpreter took on the
    /// story. A session that has failed refuses, whatever the outcome. An
    /// error of the interpreter is handed on as `Runtime` and finishes the
    /// session. What was handed out is handed on as it is.
    pub fn resume_story(
        &mut self,
        outcome: Result<StoryEvent, inkling::InklingError>,
    ) -> (r: Result<StoryEvent, NarrativeError>)
        ensures
            final(self).story() == old(self).story(),
            r matches Err(e) ==> e is Runtime,
            old(self).phase() is Failed ==> r is Err && *final(self) == *old(self),
            !(old(self).phase() is Failed) ==> match outcome {
                Ok(event) => {
                    &&& r is Ok
                    &&& r->Ok_0 == event
                    &&& final(self).phase() == event@.prompt.next_phase()
                    &&& final(self).offered() == event@.prompt.offered()
                },
                Err(_) => r is Err && final(self).phase() is Failed && final(self).offered() == 0,
            },
    {
        if let Phase::Failed = self.phase {
            return Err(NarrativeError::Runtime);
        }
        match outcome {
            Ok(event) => {
                self.phase = event.prompt.next_phase();
                self.offered = event.prompt.offered();
                Ok(event)
            },
            Err(_) => {
                self.phase = Phase::Failed;
                self.offered = 0;
                Err(NarrativeError::Runtime)
            },
        }
    }

    /// Takes in the outcome of a step and, where the step succeeded, sends
    /// what the story handed out to `mailbox`.
    pub fn resume_story_with_event(
        &mut self,
        outcome: Result<StoryEvent, inkling::InklingError>,
        mailbox: &mut Mailbox<StoryEvent>,
    ) -> (r: Result<(), NarrativeError>)
        ensures
            final(self).story() == old(self).story(),
            r matches Err(e) ==> e is Runtime && *final(mailbox) == *old(mailbox),
            old(self).phase() is Failed ==> r is Err && *final(self) == *old(self),
            !(old(self).phase() is Failed) ==> match outcome {
                Ok(event) => {
                    &&& r is Ok
                    &&& final(mailbox).slot == Some(event)
                    &&& final(self).phase() == event@.prompt.next_phase()
                    &&& final(self).offered() == event@.prompt.offered()
                },
                Err(_) => r is Err && final(self).phase() is Failed && final(self).offered() == 0,
            },
    {
        match self.resume_story(outcome) {
            Ok(event) => {
                mailbox.send(event);
                Ok(())
            },
            Err(e) => Err(e),
        }
    }

    /// Takes the choice at `choice` in the list that the last step offered.
    /// Outside of that list, and where no list is on offer, nothing changes.
    /// The cursor stays where it is: the next step follows the choice.
    pub fn make_choice(&mut self, choice: usize) -> (r: Result<(), NarrativeError>)
        ensures
            r is Ok <==> old(self).phase() is AwaitingChoice && choice < old(self).offered()
                && choice < old(self).on_offer(),
            r matches Err(e) ==> e is InvalidChoice && *final(self) == *old(self),
            r is Ok ==> {
                &&& final(self).phase() is Resuming
                &&& final(self).offered() == 0
                &&& final(self).on_offer() == 0
                &&& final(self).selected() is Some
                &&& final(self).location() == old(self).location()
                &&& final(self).variables() == old(self).variables()
            },
    {
        match self.phase {
            Phase::AwaitingChoice => {
                if choice >= self.offered {
                    return Err(NarrativeError::InvalidChoice);
                }
                match choose_outside(&mut self.story, choice) {
                    Ok(()) => {
                        self.phase = Phase::Resuming;
                        self.offered = 0;
                        Ok(())
                    },
                    Err(_) => Err(NarrativeError::InvalidChoice),
                }
            },
            _ => Err(NarrativeError::InvalidChoice),
        }
    }

    /// Sets the cursor to a knot, or to a stitch of it, past the flow of the
    /// story. Nothing is handed out: the next step starts from there.
    pub fn move_to(&mut self, knot: &str, stitch: Option<&str>) -> (r: Result<(), NarrativeError>)
        ensures
            r is Ok <==> !(old(self).phase() is Failed) && old(self).has_location(
                knot@,
                stitch_view(stitch),
            ),
            r matches Err(e) ==> *final(self) == *old(self) && e == (if old(
                self
            ).phase() is Failed {
                NarrativeError::Runtime
            } else {
                NarrativeError::UnknownLocation
            }),
            r is Ok ==> {
                &&& final(self).phase() is Loaded
                &&& final(self).offered() == 0
                &&& final(self).on_offer() == 0
                &&& final(self).location().0 == knot@
                &&& stitch matches Some(name) ==> final(self).location().1 == name@
                &&& final(self).selected() == old(self).selected()
                &&& final(self).variables() == old(self).variables()
            },
    {
        if let Phase::Failed = self.phase {
            return Err(NarrativeError::Runtime);
        }
        match move_outside(&mut self.story, knot, stitch) {
            Ok(()) => {
                self.phase = Phase::Loaded;
                self.offered = 0;
                Ok(())
            },
            Err(_) => Err(NarrativeError::UnknownLocation),
        }
    }

    /// The value of the variable `name`.
    pub fn get_variable(&self, name: &str) -> (r: Result<Value, NarrativeError>)
        ensures
            match lookup(self.variables(), name@) {
                Ok(value) => r is Ok && r->Ok_0@ == value,
                Err(e) => r is Err && r->Err_0 == e,
            },
    {
        match variable_outside(&self.story, name) {
            Ok(value) => Ok(from_outside(&value)),
            Err(_) => Err(NarrativeError::UnknownVariable),
        }
    }

    /// The value of the variable `name` in the interpreter's own type: the
    /// way to a decimal number as a number.
    pub fn get_outside_variable(&self, name: &str) -> (r: Result<
        inkling::Variable,
        NarrativeError,
    >)
        ensures
            match lookup(self.variables(), name@) {
                Ok(value) => r is Ok && outside_value(r->Ok_0) == value,
                Err(e) => r is Err && r->Err_0 == e,
            },
    {
        match variable_outside(&self.story, name) {
            Ok(value) => Ok(value),
            Err(_) => Err(NarrativeError::UnknownVariable),
        }
    }

    /// Gives the variable `name` a new value of the type that it has.
    pub fn set_variable(&mut self, name: &str, value: Value) -> (r: Result<(), NarrativeError>)
        ensures
            final(self).phase() == old(self).phase(),
            final(self).offered() == old(self).offered(),
            final(self).on_offer() == old(self).on_offer(),
            final(self).selected() == old(self).selected(),
            final(self).location() == old(self).location(),
            match assignment(old(self).variables(), name@, value@) {
                Ok(after) => r is Ok && final(self).variables() == after,
                Err(e) => r is Err && r->Err_0 == e && *final(self) == *old(self),
            },
    {
        let current = match variable_outside(&self.story, name) {
            Ok(current) => from_outside(&current),
            Err(_) => {
                return Err(NarrativeError::UnknownVariable);
            },
        };
        if !current.same_type(&value) {
            return Err(NarrativeError::TypeMismatch);
        }
        let assigned = match &value {
            Value::Bool(b) => Assigned::Bool(*b),
            Value::Int(i) => Assigned::Int(*i),
            Value::String(s) => Assigned::Text(s.as_str()),
            _ => {
                return Err(NarrativeError::Unsupported);
            },
        };
        match assign_outside(&mut self.story, name, to_outside(assigned)) {
            Ok(()) => Ok(()),
            Err(_) => Err(NarrativeError::TypeMismatch),
        }
    }

    /// Gives the variable `name` a new value of the interpreter's own type:
    /// the way to assign a decimal number. The variable takes only a value
    /// of the type that it has.
    pub fn set_outside_variable(&mut self, name: &str, value: inkling::Variable) -> (r: Result<
        (),
        NarrativeError,
    >)
        ensures
            final(self).phase() == old(self).phase(),
            final(self).offered() == old(self).offered(),
            final(self).on_offer() == old(self).on_offer(),
            final(self).selected() == old(self).selected(),
            final(self).location() == old(self).location(),
            match outside_assignment(old(self).variables(), name@, outside_value(value)) {
                Ok(after) => r is Ok && final(self).variables() == after,
                Err(e) => r is Err && r->Err_0 == e && *final(self) == *old(self),
            },
    {
        if variable_outside(&self.story, name).is_err() {
            return Err(NarrativeError::UnknownVariable);
        }
        match assign_outside(&mut self.story, name, value) {
            Ok(()) => Ok(()),
            Err(_) => Err(NarrativeError::TypeMismatch),
        }
    }
}

} // verus!
