//! From what the story hands out to what is shown. Assignment lines go to
//! the variables of the story, the tags of lines and choices are read for
//! what they ask of the game, and what is left is the text and the choices
//! to display.

use crate::error::NarrativeError;
use crate::ink::ink_story::story_location;
use crate::ink::ink_story::story_started;
use crate::ink::ink_story::story_variables;
use crate::ink::ink_story::Choice;
use crate::ink::ink_story::InkStory;
use crate::ink::ink_story::Line;
use crate::ink::ink_story::Prompt;
use crate::ink::ink_story::PromptView;
use crate::ink::ink_story::StoryEvent;
use crate::ink::ink_story::StoryEventView;
use crate::ink::ink_story::Tagged;
use crate::ink::variable::same_types;
use crate::ink::variable::ValueView;
use crate::mailbox::Mailbox;
use crate::states::GameMode;
use crate::states::States;
use crate::tags::placeholder;
use crate::tags::play_tag;
use crate::tags::Signals;
use crate::tags::SignalsView;
use crate::text::chars_of;
use crate::text::range_is;
use crate::text::substring;
use crate::text::trim;
use crate::text::trim_bounds;
use crate::variable_bridge::apply_directive;
use crate::variable_bridge::lemma_directive_keeps_types;
use crate::variable_bridge::read_directive;
use crate::variable_bridge::store_after;
use crate::variable_bridge::Directive;
use crate::variable_bridge::DirectiveView;
use vstd::prelude::*;

verus! {

/// A request to set the story to a knot and to enter the conversation, or,
/// with no knot, to leave the story alone and let the player explore.
#[derive(Debug, Clone, PartialEq, Eq)]
pub struct SetCurrentKnotEvent(pub Option<String>);

/// What is to be done about the choices.
#[derive(Debug, Clone, PartialEq, Eq)]
pub enum PromptAction {
    /// The conversation is being left: no choice is shown.
    Hidden,
    /// The story is over: go to the main menu.
    MainMenu,
    /// Show these choices. The place of a choice in the list is the number
    /// under which it is taken.
    Choices(Vec<String>),
}

pub enum PromptActionView {
    Hidden,
    MainMenu,
    Choices(Seq<Seq<char>>),
}

impl View for PromptAction {
    type V = PromptActionView;

    open spec fn view(&self) -> PromptActionView {
        match self {
            PromptAction::Hidden => PromptActionView::Hidden,
            PromptAction::MainMenu => PromptActionView::MainMenu,
            PromptAction::Choices(texts) => PromptActionView::Choices(
                texts@.map_values(|t: String| t@),
            ),
        }
    }
}

/// What one step of the story comes to.
#[derive(Debug, Clone, PartialEq, Eq)]
pub struct Presentation {
    pub signals: Signals,
    /// The lines to show, in the order of the script.
    pub lines: Vec<String>,
    /// What became of each assignment line, in the order of the script.
    pub directives: Vec<Directive>,
    pub prompt: PromptAction,
}

pub struct PresentationView {
    pub signals: SignalsView,
    pub lines: Seq<Seq<char>>,
    pub directives: Seq<DirectiveView>,
    pub prompt: PromptActionView,
}

impl View for Presentation {
    type V = PresentationView;

    open spec fn view(&self) -> PresentationView {
        PresentationView {
            signals: self.signals@,
            lines: self.lines@.map_values(|t: String| t@),
            directives: self.directives@.map_values(|d: Directive| d@),
            prompt: self.prompt@,
        }
    }
}

impl PresentationView {
    /// The mode that the game is to enter, if it is to change.
    pub open spec fn mode(self) -> Option<GameMode> {
        if self.signals.play {
            Some(GameMode::Exploration)
        } else {
            None
        }
    }

    /// The state that the application is to enter, if it is to change.
    pub open spec fn state(self) -> Option<States> {
        if self.prompt is MainMenu {
            Some(States::Menu)
        } else {
            None
        }
    }
}

impl Presentation {
    pub fn game_mode(&self) -> (r: Option<GameMode>)
        ensures
            r == self@.mode(),
    {
        if self.signals.play {
            Some(GameMode::Exploration)
        } else {
            None
        }
    }

    pub fn next_state(&self) -> (r: Option<States>)
        ensures
            r == self@.state(),
    {
        match self.prompt {
            PromptAction::MainMenu => Some(States::Menu),
            _ => None,
        }
    }
}

/// Whether a line is an assignment line.
pub open spec fn is_directive(text: Seq<char>) -> bool {
    text.len() > 0 && text[0] == '~'
}

/// How far the lines of a step have been read.
pub struct Reading {
    pub signals: SignalsView,
    pub shown: Seq<Seq<char>>,
    pub directives: Seq<DirectiveView>,
    pub variables: Map<Seq<char>, ValueView>,
}

impl Reading {
    pub open spec fn start(variables: Map<Seq<char>, ValueView>) -> Reading {
        Reading {
            signals: SignalsView::quiet(),
            shown: Seq::empty(),
            directives: Seq::empty(),
            variables,
        }
    }

    /// One more line. Its tags are read first. An assignment line is then
    /// carried out and never shown, whether or not the conversation is
    /// being left. Any other line is shown, unless the conversation is
    /// being left or the line is the placeholder.
    pub open spec fn after_line(self, line: Tagged) -> Reading {
        let signals = self.signals.after_tags(line.tags);
        if is_directive(line.text) {
            let outcome = read_directive(self.variables, line.text.drop_first());
            Reading {
                signals,
                directives: self.directives.push(outcome),
                variables: store_after(self.variables, outcome),
                ..self
            }
        } else if !signals.play && trim(line.text) != placeholder() {
            Reading { signals, shown: self.shown.push(line.text), ..self }
        } else {
            Reading { signals, ..self }
        }
    }

    pub open spec fn after_lines(self, lines: Seq<Tagged>) -> Reading
        decreases lines.len(),
    {
        if lines.len() == 0 {
            self
        } else {
            self.after_lines(lines.drop_last()).after_line(lines.last())
        }
    }
}

pub open spec fn choice_texts(choices: Seq<Tagged>) -> Seq<Seq<char>> {
    choices.map_values(|c: Tagged| c.text)
}

/// What the lines of a step leave behind in a story with these variables.
pub open spec fn reading_of(
    variables: Map<Seq<char>, ValueView>,
    event: StoryEventView,
) -> Reading {
    Reading::start(variables).after_lines(event.lines)
}

/// What a step comes to in a story with these variables. The choices are
/// read only if no line asked to leave the conversation; once a line or a
/// choice has asked for it, no choice is shown. A story that is over, with
/// the conversation not being left, leads to the main menu.
pub open spec fn presentation_of(
    variables: Map<Seq<char>, ValueView>,
    event: StoryEventView,
) -> PresentationView {
    let reading = reading_of(variables, event);
    let signals = match event.prompt {
        PromptView::Choice(choices) if !reading.signals.play => reading.signals.after_choices(
            choices,
        ),
        _ => reading.signals,
    };
    PresentationView {
        signals,
        lines: reading.shown,
        directives: reading.directives,
        prompt: if signals.play {
            PromptActionView::Hidden
        } else {
            match event.prompt {
                PromptView::Done => PromptActionView::MainMenu,
                PromptView::Choice(choices) => PromptActionView::Choices(choice_texts(choices)),
            }
        },
    }
}

/// Whether one of the lines carries the tag `play`.
pub open spec fn asks_to_play(lines: Seq<Tagged>) -> bool {
    exists|i: int| 0 <= i < lines.len() && (#[trigger] lines[i]).tags.contains(play_tag())
}

impl Reading {
    /// The lines ask to leave the conversation exactly where it was asked
    /// for before them or one of them carries the tag `play`.
    pub proof fn lemma_play_after_lines(self, lines: Seq<Tagged>)
        ensures
            self.after_lines(lines).signals.play == (self.signals.play || asks_to_play(lines)),
        decreases lines.len(),
    {
        if lines.len() > 0 {
            let front = lines.drop_last();
            let last = lines.last();
            self.lemma_play_after_lines(front);
            self.after_lines(front).signals.lemma_play_after_tags(last.tags);
            assert(asks_to_play(lines) == (asks_to_play(front) || last.tags.contains(play_tag())))
                by {
                if asks_to_play(lines) {
                    let i = choose|i: int|
                        0 <= i < lines.len() && (#[trigger] lines[i]).tags.contains(play_tag());
                    if i < lines.len() - 1 {
                        assert(front[i].tags.contains(play_tag()));
                    }
                }
                if asks_to_play(front) {
                    let i = choose|i: int|
                        0 <= i < front.len() && (#[trigger] front[i]).tags.contains(play_tag());
                    assert(lines[i].tags.contains(play_tag()));
                }
                if last.tags.contains(play_tag()) {
                    assert(lines[lines.len() - 1].tags.contains(play_tag()));
                }
            }
        }
    }

    /// No assignment line and no placeholder is among the lines to show:
    /// where none was among them before, none is after more lines were
    /// read.
    pub proof fn lemma_shown_lines_are_plain(self, lines: Seq<Tagged>)
        requires
            forall|k: int|
                0 <= k < self.shown.len() ==> !is_directive(#[trigger] self.shown[k]) && trim(
                    self.shown[k],
                ) != placeholder(),
        ensures
            forall|k: int|
                0 <= k < self.after_lines(lines).shown.len() ==> !is_directive(
                    #[trigger] self.after_lines(lines).shown[k],
                ) && trim(self.after_lines(lines).shown[k]) != placeholder(),
        decreases lines.len(),
    {
        if lines.len() > 0 {
            let before = self.after_lines(lines.drop_last());
            let after = before.after_line(lines.last());
            self.lemma_shown_lines_are_plain(lines.drop_last());
            assert forall|k: int| 0 <= k < after.shown.len() implies !is_directive(
                #[trigger] after.shown[k],
            ) && trim(after.shown[k]) != placeholder() by {
                if k < before.shown.len() {
                    assert(after.shown[k] == before.shown[k]);
                }
            }
        }
    }

    /// Reading lines brings no variable, takes none away and changes the
    /// type of none.
    pub proof fn lemma_lines_keep_types(self, lines: Seq<Tagged>)
        ensures
            same_types(self.variables, self.after_lines(lines).variables),
        decreases lines.len(),
    {
        if lines.len() > 0 {
            let before = self.after_lines(lines.drop_last());
            self.lemma_lines_keep_types(lines.drop_last());
            lemma_directive_keeps_types(before.variables, lines.last().text.drop_first());
        }
    }
}

/// A step asks to leave the conversation exactly where one of its lines
/// carries the tag `play` or, with no such line, the choices that were read
/// ask for it; and then no choice is shown.
pub proof fn lemma_play_hides_choices(variables: Map<Seq<char>, ValueView>, event: StoryEventView)
    ensures
        reading_of(variables, event).signals.play == asks_to_play(event.lines),
        asks_to_play(event.lines) ==> presentation_of(variables, event).signals == reading_of(
            variables,
            event,
        ).signals,
        presentation_of(variables, event).signals.play <==> presentation_of(
            variables,
            event,
        ).prompt is Hidden,
{
    Reading::start(variables).lemma_play_after_lines(event.lines);
}

/// An assignment line is never shown, and neither is the placeholder.
pub proof fn lemma_directives_are_not_shown(
    variables: Map<Seq<char>, ValueView>,
    event: StoryEventView,
)
    ensures
        forall|k: int|
            0 <= k < presentation_of(variables, event).lines.len() ==> !is_directive(
                #[trigger] presentation_of(variables, event).lines[k],
            ) && trim(presentation_of(variables, event).lines[k]) != placeholder(),
{
    Reading::start(variables).lemma_shown_lines_are_plain(event.lines);
}

/// A step in which two lines carry the tag `play` asks for the one change
/// of mode that a single such line asks for, and shows no choice.
pub proof fn lemma_play_twice_asks_once(
    variables: Map<Seq<char>, ValueView>,
    event: StoryEventView,
    first: int,
    second: int,
)
    requires
        0 <= first < second < event.lines.len(),
        event.lines[first].tags.contains(play_tag()),
        event.lines[second].tags.contains(play_tag()),
    ensures
        presentation_of(variables, event).mode() == Some(GameMode::Exploration),
        presentation_of(variables, event).prompt is Hidden,
        presentation_of(variables, event).signals.play == presentation_of(
            variables,
            StoryEventView { lines: event.lines.take(second), prompt: event.prompt },
        ).signals.play,
{
    let shorter = StoryEventView { lines: event.lines.take(second), prompt: event.prompt };
    lemma_play_hides_choices(variables, event);
    lemma_play_hides_choices(variables, shorter);
    assert(shorter.lines[first].tags.contains(play_tag()));
}

/// Reads one line of a step.
fn read_line(
    story: &mut InkStory,
    line: &Line,
    signals: &mut Signals,
    shown: &mut Vec<String>,
    directives: &mut Vec<Directive>,
)
    ensures
        final(story).phase() == old(story).phase(),
        final(story).offered() == old(story).offered(),
        final(story).on_offer() == old(story).on_offer(),
        final(story).selected() == old(story).selected(),
        final(story).location() == old(story).location(),
        (Reading {
            signals: final(signals)@,
            shown: final(shown)@.map_values(|t: String| t@),
            directives: final(directives)@.map_values(|d: Directive| d@),
            variables: final(story).variables(),
        }) == (Reading {
            signals: old(signals)@,
            shown: old(shown)@.map_values(|t: String| t@),
            directives: old(directives)@.map_values(|d: Directive| d@),
            variables: old(story).variables(),
        }).after_line(line@),
{
    signals.read_tags(&line.tags);
    let chars = chars_of(line.text.as_str());
    if chars.len() > 0 && chars[0] == '~' {
        let rest = substring(line.text.as_str(), 1, chars.len());
        let outcome = apply_directive(story, rest.as_str());
        let ghost before = directives@;
        directives.push(outcome);
        assert(directives@.map_values(|d: Directive| d@) =~= before.map_values(
            |d: Directive| d@,
        ).push(outcome@));
    } else if !signals.play {
        let (from, to) = trim_bounds(&chars, 0, chars.len());
        assert(chars@.subrange(0, chars@.len() as int) =~= chars@);
        if !range_is(&chars, from, to, "&nbsp;") {
            let ghost before = shown@;
            shown.push(line.text.clone());
            assert(shown@.map_values(|t: String| t@) =~= before.map_values(|t: String| t@).push(
                line.text@,
            ));
        }
    }
}

/// Reads the tags of the choices, up to and with the first that asks to
/// leave the conversation.
fn read_choices(signals: &mut Signals, choices: &Vec<Choice>)
    ensures
        final(signals)@ == old(signals)@.after_choices(choices@.map_values(|c: Choice| c@)),
{
    let ghost all = choices@.map_values(|c: Choice| c@);
    let ghost start = signals@;
    let mut i: usize = 0;
    while i < choices.len()
        invariant
            i <= choices.len(),
            all == choices@.map_values(|c: Choice| c@),
            signals@ == start.after_choices(all.take(i as int)),
        decreases choices.len() - i,
    {
        proof {
            assert(all.take(i + 1).drop_last() =~= all.take(i as int));
        }
        if !signals.play {
            signals.read_tags(&choices[i].tags);
        }
        i += 1;
    }
    assert(all.take(choices.len() as int) =~= all);
}

fn texts_of(choices: &Vec<Choice>) -> (r: Vec<String>)
    ensures
        r@.map_values(|t: String| t@) == choice_texts(choices@.map_values(|c: Choice| c@)),
{
    let mut texts: Vec<String> = Vec::new();
    let mut i: usize = 0;
    while i < choices.len()
        invariant
            i <= choices.len(),
            texts.len() == i,
            forall|k: int| 0 <= k < i ==> (#[trigger] texts@[k])@ == choices@[k].text@,
        decreases choices.len() - i,
    {
        texts.push(choices[i].text.clone());
        i += 1;
    }
    texts
}

/// Reads what one step of the story handed out: carries out its assignment
/// lines on the story and says what is to be shown and asked of the game.
pub fn interpret(story: &mut InkStory, event: &StoryEvent) -> (r: Presentation)
    ensures
        final(story).phase() == old(story).phase(),
        final(story).offered() == old(story).offered(),
        final(story).on_offer() == old(story).on_offer(),
        final(story).selected() == old(story).selected(),
        final(story).location() == old(story).location(),
        r@ == presentation_of(old(story).variables(), event@),
        final(story).variables() == reading_of(old(story).variables(), event@).variables,
        same_types(old(story).variables(), final(story).variables()),
{
    let ghost variables = story.variables();
    let ghost all = event@.lines;
    let mut signals = Signals::new();
    let mut shown: Vec<String> = Vec::new();
    let mut directives: Vec<Directive> = Vec::new();
    assert(shown@.map_values(|t: String| t@) =~= Seq::empty());
    assert(directives@.map_values(|d: Directive| d@) =~= Seq::empty());
    let mut i: usize = 0;
    while i < event.lines.len()
        invariant
            i <= event.lines.len(),
            all == event.lines@.map_values(|l: Line| l@),
            story.phase() == old(story).phase(),
            story.offered() == old(story).offered(),
            story.on_offer() == old(story).on_offer(),
            story.selected() == old(story).selected(),
            story.location() == old(story).location(),
            (Reading {
                signals: signals@,
                shown: shown@.map_values(|t: String| t@),
                directives: directives@.map_values(|d: Directive| d@),
                variables: story.variables(),
            }) == Reading::start(variables).after_lines(all.take(i as int)),
        decreases event.lines.len() - i,
    {
        proof {
            assert(all.take(i + 1).drop_last() =~= all.take(i as int));
        }
        read_line(story, &event.lines[i], &mut signals, &mut shown, &mut directives);
        i += 1;
    }
    proof {
        assert(all.take(event.lines.len() as int) =~= all);
        Reading::start(variables).lemma_lines_keep_types(all);
    }
    let prompt = if signals.play {
        PromptAction::Hidden
    } else {
        match &event.prompt {
            Prompt::Done => PromptAction::MainMenu,
            Prompt::Choice(choices) => {
                read_choices(&mut signals, choices);
                if signals.play {
                    PromptAction::Hidden
                } else {
                    PromptAction::Choices(texts_of(choices))
                }
            },
        }
    };
    Presentation { signals, lines: shown, directives, prompt }
}

/// What a request to the narrative came to, beside what it did to the
/// story.
#[derive(Debug, Clone, Copy, PartialEq, Eq)]
pub struct Turn {
    /// The mode that the game is to enter, if it is to change.
    pub mode: Option<GameMode>,
    /// The error to report, if there was one.
    pub error: Option<NarrativeError>,
}

impl Turn {
    /// Nothing to do and nothing to report.
    pub open spec fn idle() -> Turn {
        Turn { mode: None, error: None }
    }

    /// The conversation is on.
    pub open spec fn conversation() -> Turn {
        Turn { mode: Some(GameMode::Conversation), error: None }
    }

    /// The player explores, and the story is left alone.
    pub open spec fn exploration() -> Turn {
        Turn { mode: Some(GameMode::Exploration), error: None }
    }

    /// The request was refused and nothing has changed.
    pub open spec fn refused(error: NarrativeError) -> Turn {
        Turn { mode: None, error: Some(error) }
    }

    /// The narrative is given up: the player explores.
    pub open spec fn aborted(error: NarrativeError) -> Turn {
        Turn { mode: Some(GameMode::Exploration), error: Some(error) }
    }
}

/// What is to happen next about a request.
#[derive(Debug, Clone, Copy, PartialEq, Eq)]
pub enum Handling {
    /// The request is dealt with, and this is what it came to.
    Done(Turn),
    /// The story is ready for a step. The interpreter takes it, and the
    /// outcome goes to `finish_step`, which answers with this turn where
    /// the step succeeded.
    Step(Turn),
}

/// Takes in the outcome of the step that a request asked for. Where the step
/// succeeded, what it handed out is sent to `events` and the turn is the
/// one that was entered on. Where it failed, the session has failed with
/// it and the narrative is given up. Without a session nothing is done.
pub fn finish_step(
    story: &mut Option<InkStory>,
    events: &mut Mailbox<StoryEvent>,
    entered: Turn,
    outcome: Result<StoryEvent, inkling::InklingError>,
) -> (r: Turn)
    ensures
        *final(story) is Some <==> *old(story) is Some,
        *old(story) is None ==> r == Turn::idle() && *final(events) == *old(events),
        *old(story) matches Some(before) ==> {
            let after = (*final(story))->0;
            &&& after.story() == before.story()
            &&& if before.phase() is Failed {
                &&& r == Turn::aborted(NarrativeError::Runtime)
                &&& after == before
                &&& *final(events) == *old(events)
            } else {
                match outcome {
                    Ok(event) => {
                        &&& r == entered
                        &&& final(events).slot == Some(event)
                        &&& after.phase() == event@.prompt.next_phase()
                        &&& after.offered() == event@.prompt.offered()
                    },
                    Err(_) => {
                        &&& r == Turn::aborted(NarrativeError::Runtime)
                        &&& after.phase() is Failed
                        &&& *final(events) == *old(events)
                    },
                }
            }
        },
{
    match story {
        Some(session) => match session.resume_story_with_event(outcome, events) {
            Ok(()) => entered,
            Err(_) => Turn {
                mode: Some(GameMode::Exploration),
                error: Some(NarrativeError::Runtime),
            },
        },
        None => Turn { mode: None, error: None },
    }
}

/// Serves the last request of the tick for a place in the story; earlier
/// ones are dropped. Without a session nothing is done. A request without a
/// knot hands control to the player. A request with a knot sets the cursor
/// there and asks for a step, after which the conversation is entered;
/// where the story has no such knot, or the session has failed, nothing
/// changes.
pub fn set_current_knot(
    requests: &mut Mailbox<SetCurrentKnotEvent>,
    story: &mut Option<InkStory>,
) -> (r: Handling)
    ensures
        final(requests).slot is None,
        *final(story) is Some <==> *old(story) is Some,
        old(requests).slot is None || *old(story) is None ==> {
            &&& r == Handling::Done(Turn::idle())
            &&& *final(story) == *old(story)
        },
        *old(story) is Some && (old(requests).slot matches Some(SetCurrentKnotEvent(None))) ==> {
            &&& r == Handling::Done(Turn::exploration())
            &&& *final(story) == *old(story)
        },
        *old(story) matches Some(before) ==> (old(requests).slot matches Some(
            SetCurrentKnotEvent(Some(knot)),
        ) ==> {
            let after = (*final(story))->0;
            if before.phase() is Failed {
                r == Handling::Done(Turn::refused(NarrativeError::Runtime)) && after == before
            } else if !before.has_location(knot@, None) {
                r == Handling::Done(Turn::refused(NarrativeError::UnknownLocation)) && after
                    == before
            } else {
                &&& r == Handling::Step(Turn::conversation())
                &&& after.phase() is Loaded
                &&& after.location().0 == knot@
                &&& after.selected() == before.selected()
                &&& after.variables() == before.variables()
            }
        }),
{
    let request = requests.drain();
    match (story, request) {
        (Some(session), Some(SetCurrentKnotEvent(Some(knot)))) => {
            match session.move_to(knot.as_str(), None) {
                Ok(()) => Handling::Step(Turn { mode: Some(GameMode::Conversation), error: None }),
                Err(e) => Handling::Done(Turn { mode: None, error: Some(e) }),
            }
        },
        (Some(_), Some(SetCurrentKnotEvent(None))) => Handling::Done(
            Turn { mode: Some(GameMode::Exploration), error: None },
        ),
        _ => Handling::Done(Turn { mode: None, error: None }),
    }
}

/// Whether a script was read that makes a session.
pub open spec fn script_loads(
    read: Option<Result<inkling::Story, inkling::error::ReadError>>,
) -> bool {
    read matches Some(Ok(script)) && !story_started(script)
}

/// Makes the session when the game is entered, of the script as it was
/// read, and asks for the first step. With a session at hand nothing is
/// done. Without a script, or with one that was not accepted, there is no
/// conversation to be had and the player explores.
pub fn start_narrative(
    story: &mut Option<InkStory>,
    read: Option<Result<inkling::Story, inkling::error::ReadError>>,
) -> (r: Handling)
    ensures
        *old(story) is Some ==> r == Handling::Done(Turn::idle()) && *final(story) == *old(story),
        *old(story) is None && !script_loads(read) ==> {
            &&& r == Handling::Done(Turn::aborted(NarrativeError::Load))
            &&& *final(story) is None
        },
        *old(story) is None && script_loads(read) ==> {
            &&& r == Handling::Step(Turn::idle())
            &&& *final(story) is Some
            &&& (*final(story))->0.phase() is Loaded
            &&& (*final(story))->0.variables() == story_variables(read->0->Ok_0)
            &&& (*final(story))->0.location() == story_location(read->0->Ok_0)
        },
{
    if story.is_some() {
        return Handling::Done(Turn { mode: None, error: None });
    }
    let loaded = match read {
        Some(read) => InkStory::new(read),
        None => None,
    };
    match loaded {
        Some(session) => {
            *story = Some(session);
            Handling::Step(Turn { mode: None, error: None })
        },
        None => Handling::Done(
            Turn { mode: Some(GameMode::Exploration), error: Some(NarrativeError::Load) },
        ),
    }
}

/// Takes the choice that was clicked and asks for the step that follows
/// it. Without a session nothing is done; a choice that is not on offer
/// changes nothing.
pub fn choice_clicked(story: &mut Option<InkStory>, choice: usize) -> (r: Handling)
    ensures
        *final(story) is Some <==> *old(story) is Some,
        *old(story) is None ==> r == Handling::Done(Turn::idle()),
        *old(story) matches Some(before) ==> {
            let after = (*final(story))->0;
            if before.phase() is AwaitingChoice && choice < before.offered() && choice
                < before.on_offer() {
                &&& r == Handling::Step(Turn::idle())
                &&& after.phase() is Resuming
                &&& after.selected() is Some
                &&& after.location() == before.location()
                &&& after.variables() == before.variables()
            } else {
                r == Handling::Done(Turn::refused(NarrativeError::InvalidChoice)) && after == before
            }
        },
{
    match story {
        Some(session) => {
            match session.make_choice(choice) {
                Ok(()) => Handling::Step(Turn { mode: None, error: None }),
                Err(e) => Handling::Done(Turn { mode: None, error: Some(e) }),
            }
        },
        None => Handling::Done(Turn { mode: None, error: None }),
    }
}

/// Reads the last step that was sent to `events`, if there is one: carries
/// out its assignment lines on the story and says what is to be shown and
/// asked of the game.
pub fn display_current_narrative(events: &mut Mailbox<StoryEvent>, story: &mut InkStory) -> (r:
    Option<Presentation>)
    ensures
        final(story).phase() == old(story).phase(),
        final(story).offered() == old(story).offered(),
        final(story).on_offer() == old(story).on_offer(),
        final(story).selected() == old(story).selected(),
        final(story).location() == old(story).location(),
        final(events).slot is None,
        same_types(old(story).variables(), final(story).variables()),
        old(events).slot is None ==> r is None && *final(story) == *old(story),
        old(events).slot matches Some(event) ==> {
            &&& r is Some
            &&& r->0@ == presentation_of(old(story).variables(), event@)
            &&& final(story).variables() == reading_of(old(story).variables(), event@).variables
        },
{
    match events.drain() {
        Some(event) => Some(interpret(story, &event)),
        None => None,
    }
}

} // verus!
