//! The tags of a story. A tag is a free text on a line or a choice; a few
//! of them are requests to the game.

use crate::ink::ink_story::Tagged;
use crate::level::events_view;
use crate::level::ActivationEvent;
use crate::text::chars_of;
use crate::text::range_is;
use crate::text::starts_with;
use crate::text::substring;
use vstd::prelude::*;

verus! {

/// The tag that turns the ambient sound up.
pub open spec fn start_audio_tag() -> Seq<char> {
    "start_audio"@
}

/// The tag that ends the conversation.
pub open spec fn play_tag() -> Seq<char> {
    "play"@
}

/// What stands before the name in a tag that switches an element on.
pub open spec fn activate_prefix() -> Seq<char> {
    "activate:"@
}

/// What stands before the name in a tag that switches an element off.
pub open spec fn deactivate_prefix() -> Seq<char> {
    "deactivate:"@
}

/// The text of a line that is there for its tags alone.
pub open spec fn placeholder() -> Seq<char> {
    "&nbsp;"@
}

/// What a tag asks for.
#[derive(Debug, Clone, PartialEq, Eq)]
pub enum TagEffect {
    StartAudio,
    Play,
    Activation(ActivationEvent),
    Ignored,
}

pub enum TagEffectView {
    StartAudio,
    Play,
    Activation((bool, Seq<char>)),
    Ignored,
}

impl View for TagEffect {
    type V = TagEffectView;

    open spec fn view(&self) -> TagEffectView {
        match self {
            TagEffect::StartAudio => TagEffectView::StartAudio,
            TagEffect::Play => TagEffectView::Play,
            TagEffect::Activation(event) => TagEffectView::Activation(event@),
            TagEffect::Ignored => TagEffectView::Ignored,
        }
    }
}

/// The vocabulary. The two plain tags are matched whole; the other two by
/// their beginning, and what follows the colon names the element.
pub open spec fn tag_effect(tag: Seq<char>) -> TagEffectView {
    if tag == start_audio_tag() {
        TagEffectView::StartAudio
    } else if tag == play_tag() {
        TagEffectView::Play
    } else if activate_prefix().is_prefix_of(tag) {
        TagEffectView::Activation((true, tag.skip(activate_prefix().len() as int)))
    } else if deactivate_prefix().is_prefix_of(tag) {
        TagEffectView::Activation((false, tag.skip(deactivate_prefix().len() as int)))
    } else {
        TagEffectView::Ignored
    }
}

/// Reads a tag against the vocabulary.
pub fn classify_tag(tag: &str) -> (r: TagEffect)
    ensures
        r@ == tag_effect(tag@),
{
    let chars = chars_of(tag);
    assert(chars@.subrange(0, chars@.len() as int) =~= chars@);
    if range_is(&chars, 0, chars.len(), "start_audio") {
        TagEffect::StartAudio
    } else if range_is(&chars, 0, chars.len(), "play") {
        TagEffect::Play
    } else if starts_with(&chars, "activate:") {
        let from = "activate:".unicode_len();
        TagEffect::Activation(ActivationEvent(true, substring(tag, from, chars.len())))
    } else if starts_with(&chars, "deactivate:") {
        let from = "deactivate:".unicode_len();
        TagEffect::Activation(ActivationEvent(false, substring(tag, from, chars.len())))
    } else {
        TagEffect::Ignored
    }
}

/// What the tags read so far ask of the game.
#[derive(Debug, Clone, PartialEq, Eq)]
pub struct Signals {
    /// Turn the ambient sound up to full volume.
    pub start_audio: bool,
    /// Leave the conversation. The request is one flag: a second `play`
    /// tag asks for nothing more.
    pub play: bool,
    /// The elements to switch on and off, in the order of their tags.
    pub activations: Vec<ActivationEvent>,
}

pub struct SignalsView {
    pub start_audio: bool,
    pub play: bool,
    pub activations: Seq<(bool, Seq<char>)>,
}

impl View for Signals {
    type V = SignalsView;

    open spec fn view(&self) -> SignalsView {
        SignalsView {
            start_audio: self.start_audio,
            play: self.play,
            activations: events_view(self.activations@),
        }
    }
}

impl SignalsView {
    pub open spec fn quiet() -> SignalsView {
        SignalsView { start_audio: false, play: false, activations: Seq::empty() }
    }

    pub open spec fn after_tag(self, tag: Seq<char>) -> SignalsView {
        match tag_effect(tag) {
            TagEffectView::StartAudio => SignalsView { start_audio: true, ..self },
            TagEffectView::Play => SignalsView { play: true, ..self },
            TagEffectView::Activation(event) => SignalsView {
                activations: self.activations.push(event),
                ..self
            },
            TagEffectView::Ignored => self,
        }
    }

    pub open spec fn after_tags(self, tags: Seq<Seq<char>>) -> SignalsView
        decreases tags.len(),
    {
        if tags.len() == 0 {
            self
        } else {
            self.after_tags(tags.drop_last()).after_tag(tags.last())
        }
    }

    /// The signals after the choices were read in their order, up to and
    /// with the first that asks to leave the conversation.
    pub open spec fn after_choices(self, choices: Seq<Tagged>) -> SignalsView
        decreases choices.len(),
    {
        if choices.len() == 0 {
            self
        } else {
            let before = self.after_choices(choices.drop_last());
            if before.play {
                before
            } else {
                before.after_tags(choices.last().tags)
            }
        }
    }
}

impl Signals {
    pub fn new() -> (r: Signals)
        ensures
            r@ == SignalsView::quiet(),
    {
        let r = Signals { start_audio: false, play: false, activations: Vec::new() };
        assert(r@.activations =~= Seq::empty());
        r
    }

    /// Reads the tags of one line or choice.
    pub fn read_tags(&mut self, tags: &Vec<String>)
        ensures
            final(self)@ == old(self)@.after_tags(tags@.map_values(|t: String| t@)),
    {
        let ghost all = tags@.map_values(|t: String| t@);
        let ghost start = self@;
        let mut i: usize = 0;
        while i < tags.len()
            invariant
                i <= tags.len(),
                all == tags@.map_values(|t: String| t@),
                self@ == start.after_tags(all.take(i as int)),
            decreases tags.len() - i,
        {
            proof {
                assert(all.take(i + 1).drop_last() =~= all.take(i as int));
            }
            match classify_tag(tags[i].as_str()) {
                TagEffect::StartAudio => {
                    self.start_audio = true;
                },
                TagEffect::Play => {
                    self.play = true;
                },
                TagEffect::Activation(event) => {
                    let ghost before = self.activations@;
                    self.activations.push(event);
                    assert(events_view(self.activations@) =~= events_view(before).push(event@));
                },
                TagEffect::Ignored => {},
            }
            i += 1;
        }
        assert(all.take(tags.len() as int) =~= all);
    }
}

/// The two plain tags are two different words, and each is read as itself.
pub proof fn lemma_plain_tags()
    ensures
        tag_effect(start_audio_tag()) is StartAudio,
        tag_effect(play_tag()) is Play,
        forall|tag: Seq<char>| tag_effect(tag) is Play <==> tag == play_tag(),
{
    reveal_strlit("start_audio");
    reveal_strlit("play");
    assert(start_audio_tag().len() != play_tag().len());
}

impl SignalsView {
    /// The tag `play` sets the request to leave the conversation, and a
    /// second one asks for nothing that the first did not ask for.
    pub proof fn lemma_play_is_idempotent(self)
        ensures
            self.after_tag(play_tag()).play,
            self.after_tag(play_tag()).after_tag(play_tag()) == self.after_tag(play_tag()),
    {
        lemma_plain_tags();
    }

    /// Tags ask to leave the conversation exactly where it was asked for
    /// before them or `play` is among them.
    pub proof fn lemma_play_after_tags(self, tags: Seq<Seq<char>>)
        ensures
            self.after_tags(tags).play == (self.play || tags.contains(play_tag())),
        decreases tags.len(),
    {
        lemma_plain_tags();
        if tags.len() > 0 {
            let front = tags.drop_last();
            self.lemma_play_after_tags(front);
            assert(tags.contains(play_tag()) == (front.contains(play_tag()) || tags.last()
                == play_tag())) by {
                if tags.contains(play_tag()) {
                    let i = choose|i: int| 0 <= i < tags.len() && tags[i] == play_tag();
                    if i < tags.len() - 1 {
                        assert(front[i] == play_tag());
                    }
                }
                if front.contains(play_tag()) {
                    let i = choose|i: int| 0 <= i < front.len() && front[i] == play_tag();
                    assert(tags[i] == play_tag());
                }
                if tags.last() == play_tag() {
                    assert(tags[tags.len() - 1] == play_tag());
                }
            }
        }
    }
}

} // verus!
