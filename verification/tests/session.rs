use ink_narrative::error::NarrativeError;
use ink_narrative::ink::ink_story::{Choice, InkStory, Line, Phase, Prompt, StoryEvent};
use ink_narrative::ink::variable::Value;
use ink_narrative::mailbox::Mailbox;

const INTRO: &str = "\
VAR started = false
VAR score = 3
VAR name = \"Ann\"
VAR ratio = 1.5
Before the knots.

== Intro ==
Hello
*   Continue
    -> END

== Hall ==
= door
The door is shut. # locked
*   Knock
    Nobody answers.
    -> END
+   Leave # coward
    -> Intro
";

/// A script that the interpreter accepts and then cannot follow: its only
/// choice is never on offer.
const DEAD_END: &str = "VAR open = false\nStart\n*   {open} Go in\n";

fn load(text: &str) -> Option<InkStory> {
    InkStory::new(inkling::read_story_from_string(text))
}

fn take_step(s: &mut InkStory) -> Result<StoryEvent, inkling::InklingError> {
    let mut buffer = Vec::new();
    let prompt = match s.story_mut().resume(&mut buffer)? {
        inkling::Prompt::Done => Prompt::Done,
        inkling::Prompt::Choice(choices) => Prompt::Choice(
            choices.into_iter().map(|c| Choice { text: c.text, tags: c.tags }).collect(),
        ),
    };
    let lines = buffer.into_iter().map(|l| Line { text: l.text, tags: l.tags }).collect();
    Ok(StoryEvent { lines, prompt })
}

fn step(s: &mut InkStory) -> Result<StoryEvent, NarrativeError> {
    let outcome = if s.can_step() {
        take_step(s)
    } else {
        Err(inkling::InklingError::ResumeBeforeStart)
    };
    s.resume_story(outcome)
}

fn story(text: &str) -> InkStory {
    load(text).expect("the script is valid")
}

fn line(text: &str, tags: &[&str]) -> Line {
    Line { text: text.to_string(), tags: tags.iter().map(|t| t.to_string()).collect() }
}

fn choice(text: &str, tags: &[&str]) -> Choice {
    Choice { text: text.to_string(), tags: tags.iter().map(|t| t.to_string()).collect() }
}

#[test]
fn a_valid_script_loads_and_nothing_is_handed_out_yet() {
    let s = story(INTRO);
    assert_eq!(s.current_phase(), Phase::Loaded);
    assert_eq!(s.choices_offered(), 0);
}

#[test]
fn a_malformed_script_does_not_load() {
    assert!(load("").is_none());
    assert!(load("Hello\n-> nowhere\n").is_none());
    assert!(load("VAR x = 1\nVAR x = 2\n").is_none());
}

#[test]
fn the_first_step_of_a_loaded_story_succeeds() {
    let mut s = story(INTRO);
    let event = step(&mut s);
    assert_eq!(
        event,
        Ok(StoryEvent { lines: vec![line("Before the knots.\n", &[])], prompt: Prompt::Done })
    );
    assert_eq!(s.current_phase(), Phase::Terminated);
}

#[test]
fn the_first_step_fails_where_the_interpreter_cannot_follow_the_script() {
    let mut s = story(DEAD_END);
    assert_eq!(s.current_phase(), Phase::Loaded);
    assert_eq!(step(&mut s), Err(NarrativeError::Runtime));
    assert_eq!(s.current_phase(), Phase::Failed);
}

#[test]
fn a_failed_session_goes_no_further() {
    let mut s = story(DEAD_END);
    assert_eq!(step(&mut s), Err(NarrativeError::Runtime));
    assert_eq!(step(&mut s), Err(NarrativeError::Runtime));
    assert_eq!(s.move_to("Intro", None), Err(NarrativeError::Runtime));
    assert_eq!(s.make_choice(0), Err(NarrativeError::InvalidChoice));
    assert_eq!(s.current_phase(), Phase::Failed);
    let mut mailbox: Mailbox<StoryEvent> = Mailbox::new();
    assert!(!s.can_step());
    assert_eq!(
        s.resume_story_with_event(Err(inkling::InklingError::OutOfContent), &mut mailbox),
        Err(NarrativeError::Runtime)
    );
    let told = StoryEvent { lines: vec![], prompt: Prompt::Done };
    assert_eq!(s.resume_story_with_event(Ok(told), &mut mailbox), Err(NarrativeError::Runtime));
    assert!(mailbox.is_empty());
    assert_eq!(s.get_variable("open"), Ok(Value::Bool(false)));
}

#[test]
fn intro_scenario_from_jump_to_the_end() {
    let mut s = story(INTRO);
    assert_eq!(s.move_to("Intro", None), Ok(()));
    assert_eq!(s.current_phase(), Phase::Loaded);
    let event = step(&mut s).unwrap();
    assert_eq!(event.lines, vec![line("Hello\n", &[])]);
    assert_eq!(event.prompt, Prompt::Choice(vec![choice("Continue", &[])]));
    assert_eq!(s.current_phase(), Phase::AwaitingChoice);
    assert_eq!(s.choices_offered(), 1);
    assert_eq!(s.make_choice(0), Ok(()));
    assert_eq!(s.current_phase(), Phase::Resuming);
    assert_eq!(s.choices_offered(), 0);
    let event = step(&mut s).unwrap();
    assert_eq!(event.prompt, Prompt::Done);
    assert_eq!(event.lines, vec![line("Continue\n", &[])]);
    assert_eq!(s.current_phase(), Phase::Terminated);
}

#[test]
fn lines_and_choices_come_with_their_tags_in_order() {
    let mut s = story(INTRO);
    assert_eq!(s.move_to("Hall", Some("door")), Ok(()));
    let event = step(&mut s).unwrap();
    assert_eq!(event.lines, vec![line("The door is shut.\n", &["locked"])]);
    assert_eq!(
        event.prompt,
        Prompt::Choice(vec![choice("Knock", &[]), choice("Leave", &["coward"])])
    );
    assert_eq!(s.choices_offered(), 2);
}

#[test]
fn a_choice_outside_the_list_changes_nothing() {
    let mut s = story(INTRO);
    s.move_to("Hall", None).unwrap();
    step(&mut s).unwrap();
    assert_eq!(s.make_choice(2), Err(NarrativeError::InvalidChoice));
    assert_eq!(s.make_choice(usize::MAX), Err(NarrativeError::InvalidChoice));
    assert_eq!(s.current_phase(), Phase::AwaitingChoice);
    assert_eq!(s.choices_offered(), 2);
    // the cursor has not moved: the choice that follows is taken from the same list
    assert_eq!(s.make_choice(1), Ok(()));
    let event = step(&mut s).unwrap();
    assert_eq!(event.lines, vec![line("Leave\n", &["coward"]), line("Hello\n", &[])]);
    assert_eq!(event.prompt, Prompt::Choice(vec![choice("Continue", &[])]));
}

#[test]
fn a_choice_is_refused_where_none_is_on_offer() {
    let mut s = story(INTRO);
    assert_eq!(s.make_choice(0), Err(NarrativeError::InvalidChoice));
    assert_eq!(s.current_phase(), Phase::Loaded);
    s.move_to("Intro", None).unwrap();
    step(&mut s).unwrap();
    s.make_choice(0).unwrap();
    assert_eq!(s.make_choice(0), Err(NarrativeError::InvalidChoice));
    assert_eq!(s.current_phase(), Phase::Resuming);
    step(&mut s).unwrap();
    assert_eq!(s.make_choice(0), Err(NarrativeError::InvalidChoice));
    assert_eq!(s.current_phase(), Phase::Terminated);
}

#[test]
fn a_jump_takes_the_choices_off_the_table() {
    let mut s = story(INTRO);
    s.move_to("Hall", None).unwrap();
    step(&mut s).unwrap();
    assert_eq!(s.current_phase(), Phase::AwaitingChoice);
    assert_eq!(s.move_to("Intro", None), Ok(()));
    assert_eq!(s.current_phase(), Phase::Loaded);
    assert_eq!(s.choices_offered(), 0);
    assert_eq!(s.make_choice(0), Err(NarrativeError::InvalidChoice));
}

#[test]
fn a_jump_to_an_unknown_place_changes_nothing() {
    let mut s = story(INTRO);
    s.move_to("Hall", None).unwrap();
    step(&mut s).unwrap();
    assert_eq!(s.move_to("Cellar", None), Err(NarrativeError::UnknownLocation));
    assert_eq!(s.move_to("Hall", Some("window")), Err(NarrativeError::UnknownLocation));
    assert_eq!(s.move_to("door", None), Err(NarrativeError::UnknownLocation));
    assert_eq!(s.current_phase(), Phase::AwaitingChoice);
    assert_eq!(s.choices_offered(), 2);
    assert_eq!(s.make_choice(0), Ok(()));
}

#[test]
fn a_jump_leaves_a_finished_story_ready_again() {
    let mut s = story(INTRO);
    step(&mut s).unwrap();
    assert_eq!(s.current_phase(), Phase::Terminated);
    s.move_to("Intro", None).unwrap();
    assert_eq!(s.current_phase(), Phase::Loaded);
    let event = step(&mut s).unwrap();
    assert_eq!(event.lines, vec![line("Hello\n", &[])]);
}

#[test]
fn variables_are_read_with_their_declared_values() {
    let s = story(INTRO);
    assert_eq!(s.get_variable("started"), Ok(Value::Bool(false)));
    assert_eq!(s.get_variable("score"), Ok(Value::Int(3)));
    assert_eq!(s.get_variable("name"), Ok(Value::String("Ann".to_string())));
    assert_eq!(s.get_variable("ratio"), Ok(Value::Float(1.5f32.to_bits())));
    assert_eq!(s.get_variable("missing"), Err(NarrativeError::UnknownVariable));
    assert_eq!(s.get_variable(""), Err(NarrativeError::UnknownVariable));
}

#[test]
fn a_value_that_was_set_is_the_value_that_is_read() {
    let mut s = story(INTRO);
    assert_eq!(s.set_variable("started", Value::Bool(true)), Ok(()));
    assert_eq!(s.get_variable("started"), Ok(Value::Bool(true)));
    assert_eq!(s.set_variable("score", Value::Int(-12)), Ok(()));
    assert_eq!(s.get_variable("score"), Ok(Value::Int(-12)));
    assert_eq!(s.set_variable("score", Value::Int(i32::MIN)), Ok(()));
    assert_eq!(s.get_variable("score"), Ok(Value::Int(i32::MIN)));
    assert_eq!(s.set_variable("name", Value::String("Bo \"the\" 💜".to_string())), Ok(()));
    assert_eq!(s.get_variable("name"), Ok(Value::String("Bo \"the\" 💜".to_string())));
    assert_eq!(s.set_variable("name", Value::String(String::new())), Ok(()));
    assert_eq!(s.get_variable("name"), Ok(Value::String(String::new())));
    // the others are as they were
    assert_eq!(s.get_variable("started"), Ok(Value::Bool(true)));
    assert_eq!(s.get_variable("ratio"), Ok(Value::Float(1.5f32.to_bits())));
}

#[test]
fn a_value_of_another_type_is_refused_and_nothing_changes() {
    let mut s = story(INTRO);
    assert_eq!(s.set_variable("score", Value::Bool(true)), Err(NarrativeError::TypeMismatch));
    assert_eq!(
        s.set_variable("score", Value::String("7".to_string())),
        Err(NarrativeError::TypeMismatch)
    );
    assert_eq!(s.set_variable("score", Value::Float(0)), Err(NarrativeError::TypeMismatch));
    assert_eq!(s.get_variable("score"), Ok(Value::Int(3)));
    assert_eq!(s.set_variable("name", Value::Int(7)), Err(NarrativeError::TypeMismatch));
    assert_eq!(s.get_variable("name"), Ok(Value::String("Ann".to_string())));
    assert_eq!(s.set_variable("started", Value::Int(1)), Err(NarrativeError::TypeMismatch));
    assert_eq!(s.get_variable("started"), Ok(Value::Bool(false)));
    assert_eq!(s.set_variable("ratio", Value::Int(1)), Err(NarrativeError::TypeMismatch));
}

#[test]
fn an_unknown_variable_cannot_be_set() {
    let mut s = story(INTRO);
    assert_eq!(s.set_variable("missing", Value::Int(1)), Err(NarrativeError::UnknownVariable));
    assert_eq!(s.set_variable("missing", Value::Float(0)), Err(NarrativeError::UnknownVariable));
    assert_eq!(
        s.set_outside_variable("missing", inkling::Variable::Int(1)),
        Err(NarrativeError::UnknownVariable)
    );
}

#[test]
fn a_decimal_has_no_value_here_to_assign() {
    let mut s = story(INTRO);
    assert_eq!(s.set_variable("ratio", Value::Float(2.5f32.to_bits())), Err(NarrativeError::Unsupported));
    assert_eq!(s.get_variable("ratio"), Ok(Value::Float(1.5f32.to_bits())));
}

#[test]
fn a_decimal_is_assigned_as_a_value_from_outside() {
    let mut s = story("VAR ratio = 1.5\nVAR score = 3\nThe ratio is {ratio}.\n");
    assert_eq!(s.set_outside_variable("ratio", inkling::Variable::Float(2.25)), Ok(()));
    assert_eq!(s.get_variable("ratio"), Ok(Value::Float(2.25f32.to_bits())));
    assert_eq!(s.get_variable("score"), Ok(Value::Int(3)));
    let event = step(&mut s).unwrap();
    assert_eq!(event.lines, vec![line("The ratio is 2.25.\n", &[])]);
}

#[test]
fn a_value_from_outside_keeps_the_type_of_the_variable() {
    let mut s = story(INTRO);
    assert_eq!(
        s.set_outside_variable("score", inkling::Variable::Float(2.5)),
        Err(NarrativeError::TypeMismatch)
    );
    assert_eq!(s.get_variable("score"), Ok(Value::Int(3)));
    assert_eq!(
        s.set_outside_variable("ratio", inkling::Variable::Bool(true)),
        Err(NarrativeError::TypeMismatch)
    );
    assert_eq!(s.get_variable("ratio"), Ok(Value::Float(1.5f32.to_bits())));
    assert_eq!(s.set_outside_variable("score", inkling::Variable::Int(9)), Ok(()));
    assert_eq!(s.get_variable("score"), Ok(Value::Int(9)));
}

#[test]
fn setting_a_variable_leaves_the_phase_alone() {
    let mut s = story(INTRO);
    s.move_to("Hall", None).unwrap();
    step(&mut s).unwrap();
    s.set_variable("score", Value::Int(5)).unwrap();
    assert_eq!(s.current_phase(), Phase::AwaitingChoice);
    assert_eq!(s.choices_offered(), 2);
    assert_eq!(s.make_choice(1), Ok(()));
}

#[test]
fn the_story_reads_the_variables_that_were_set() {
    let mut s = story("VAR name = \"Ann\"\nVAR score = 1\nHello {name}, you have {score}.\n");
    s.set_variable("name", Value::String("Bo".to_string())).unwrap();
    s.set_variable("score", Value::Int(40)).unwrap();
    let event = step(&mut s).unwrap();
    assert_eq!(event.lines, vec![line("Hello Bo, you have 40.\n", &[])]);
}

#[test]
fn a_step_with_a_mailbox_sends_what_was_handed_out() {
    let mut s = story(INTRO);
    let mut mailbox: Mailbox<StoryEvent> = Mailbox::new();
    s.move_to("Intro", None).unwrap();
    let outcome = take_step(&mut s);
    assert_eq!(s.resume_story_with_event(outcome, &mut mailbox), Ok(()));
    assert_eq!(
        mailbox.drain(),
        Some(StoryEvent {
            lines: vec![line("Hello\n", &[])],
            prompt: Prompt::Choice(vec![choice("Continue", &[])]),
        })
    );
    assert_eq!(s.current_phase(), Phase::AwaitingChoice);
}

#[test]
fn a_step_without_a_choice_hands_the_choices_out_again() {
    let mut s = story(INTRO);
    s.move_to("Hall", None).unwrap();
    step(&mut s).unwrap();
    let again = step(&mut s).unwrap();
    assert_eq!(again.prompt, Prompt::Choice(vec![choice("Knock", &[]), choice("Leave", &["coward"])]));
    assert_eq!(s.current_phase(), Phase::AwaitingChoice);
    assert_eq!(s.choices_offered(), 2);
}

#[test]
fn errors_that_end_the_session_are_told_from_the_others() {
    assert!(NarrativeError::Load.is_fatal());
    assert!(NarrativeError::Runtime.is_fatal());
    assert!(!NarrativeError::InvalidChoice.is_fatal());
    assert!(!NarrativeError::UnknownLocation.is_fatal());
    assert!(!NarrativeError::UnknownVariable.is_fatal());
    assert!(!NarrativeError::TypeMismatch.is_fatal());
    assert!(!NarrativeError::Unsupported.is_fatal());
}

#[test]
fn a_prompt_tells_the_phase_that_follows_it() {
    assert_eq!(Prompt::Done.next_phase(), Phase::Terminated);
    assert_eq!(Prompt::Done.offered(), 0);
    let prompt = Prompt::Choice(vec![choice("A", &[]), choice("B", &["play"])]);
    assert_eq!(prompt.next_phase(), Phase::AwaitingChoice);
    assert_eq!(prompt.offered(), 2);
}

#[test]
fn two_sessions_on_one_script_take_the_same_steps() {
    let mut one = story(INTRO);
    let mut two = story(INTRO);
    one.move_to("Hall", None).unwrap();
    two.move_to("Hall", None).unwrap();
    assert_eq!(step(&mut one), step(&mut two));
    one.make_choice(1).unwrap();
    two.make_choice(1).unwrap();
    assert_eq!(step(&mut one), step(&mut two));
}

#[test]
fn a_story_that_was_started_before_makes_no_session() {
    let mut read = inkling::read_story_from_string(INTRO).unwrap();
    read.start().unwrap();
    assert!(InkStory::new(Ok(read)).is_none());
}

#[test]
fn a_jump_sets_the_cursor_where_it_says() {
    let mut s = story(INTRO);
    s.move_to("Hall", Some("door")).unwrap();
    assert_eq!(
        s.story_mut().get_current_location().unwrap(),
        ("Hall".to_string(), Some("door".to_string()))
    );
    s.move_to("Intro", None).unwrap();
    assert_eq!(s.story_mut().get_current_location().unwrap().0, "Intro");
    assert_eq!(s.move_to("Cellar", None), Err(NarrativeError::UnknownLocation));
    assert_eq!(s.story_mut().get_current_location().unwrap().0, "Intro");
}

#[test]
fn a_decimal_is_read_as_the_number_that_was_assigned() {
    let mut s = story(INTRO);
    assert_eq!(s.get_outside_variable("ratio"), Ok(inkling::Variable::Float(1.5)));
    assert_eq!(s.set_outside_variable("ratio", inkling::Variable::Float(-0.125)), Ok(()));
    assert_eq!(s.get_outside_variable("ratio"), Ok(inkling::Variable::Float(-0.125)));
    assert_eq!(s.get_variable("ratio"), Ok(Value::Float((-0.125f32).to_bits())));
    assert_eq!(s.get_outside_variable("score"), Ok(inkling::Variable::Int(3)));
    assert_eq!(s.get_outside_variable("missing"), Err(NarrativeError::UnknownVariable));
}

#[test]
fn an_address_does_not_pass_for_a_divert_target() {
    let mut s = story("VAR a = 1\nVAR pointer = a\nVAR target = -> Intro\nStart\n== Intro ==\nHello\n");
    assert_eq!(s.get_variable("pointer"), Ok(Value::Address));
    assert_eq!(s.get_variable("target"), Ok(Value::Divert));
    let address = s.get_outside_variable("pointer").unwrap();
    let divert = s.get_outside_variable("target").unwrap();
    assert_eq!(
        s.set_outside_variable("target", address.clone()),
        Err(NarrativeError::TypeMismatch)
    );
    assert_eq!(
        s.set_outside_variable("pointer", divert.clone()),
        Err(NarrativeError::TypeMismatch)
    );
    assert_eq!(s.set_outside_variable("pointer", address), Ok(()));
    assert_eq!(s.set_outside_variable("target", divert), Ok(()));
    assert_eq!(s.set_variable("pointer", Value::Address), Err(NarrativeError::Unsupported));
    assert_eq!(s.set_variable("target", Value::Address), Err(NarrativeError::TypeMismatch));
}

#[test]
fn a_choice_that_was_taken_is_followed_by_the_next_step() {
    let mut s = story(INTRO);
    s.move_to("Hall", None).unwrap();
    step(&mut s).unwrap();
    s.make_choice(0).unwrap();
    let event = step(&mut s).unwrap();
    assert_eq!(event.lines, vec![line("Knock\n", &[]), line("Nobody answers.\n", &[])]);
}
