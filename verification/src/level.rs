//! The elements of a level that a story switches on and off by name.

use crate::mailbox::Mailbox;
use crate::states::GameMode;
use crate::states::States;
use crate::text::text_equal;
use vstd::prelude::*;

verus! {

/// A request to show another level.
#[derive(Debug, Clone, PartialEq, Eq)]
pub struct SetLevelEvent(pub String);

/// A request to switch the element of the given name on (`true`) or off.
#[derive(Debug, Clone, PartialEq, Eq)]
pub struct ActivationEvent(pub bool, pub String);

impl View for ActivationEvent {
    type V = (bool, Seq<char>);

    open spec fn view(&self) -> (bool, Seq<char>) {
        (self.0, self.1@)
    }
}

/// Whether an element takes part in the game. An element that is switched
/// off stays in play until the end of the tick.
#[derive(Debug, Clone, Copy, PartialEq, Eq, Hash, Structural)]
pub enum Activation {
    Inactive,
    Active,
    PendingDeactivate,
}

impl Activation {
    /// Whether the element is in play.
    pub open spec fn in_play(self) -> bool {
        self is Active || self is PendingDeactivate
    }

    /// The state after the requests of one tick, of which `flag` is the one
    /// that counts for this element, if there is any.
    pub open spec fn requested(self, flag: Option<bool>) -> Activation {
        match flag {
            None => self,
            Some(true) => Activation::Active,
            Some(false) => if self.in_play() {
                Activation::PendingDeactivate
            } else {
                Activation::Inactive
            },
        }
    }

    /// The state at the end of the tick.
    pub open spec fn settled(self) -> Activation {
        if self is PendingDeactivate {
            Activation::Inactive
        } else {
            self
        }
    }

    pub fn is_active(self) -> (r: bool)
        ensures
            r == self.in_play(),
    {
        match self {
            Activation::Inactive => false,
            _ => true,
        }
    }

    pub fn request(self, flag: Option<bool>) -> (r: Activation)
        ensures
            r == self.requested(flag),
    {
        match flag {
            None => self,
            Some(true) => Activation::Active,
            Some(false) => if self.is_active() {
                Activation::PendingDeactivate
            } else {
                Activation::Inactive
            },
        }
    }

    pub fn settle(self) -> (r: Activation)
        ensures
            r == self.settled(),
    {
        match self {
            Activation::PendingDeactivate => Activation::Inactive,
            other => other,
        }
    }
}

/// An element of the level that goes by a name.
#[derive(Debug, Clone, PartialEq, Eq)]
pub struct NamedElement {
    pub name: String,
    pub state: Activation,
}

/// What the last of `events` that names `target` asks for, if any does.
pub open spec fn last_flag(events: Seq<(bool, Seq<char>)>, target: Seq<char>) -> Option<bool>
    decreases events.len(),
{
    if events.len() == 0 {
        None
    } else if events.last().1 == target {
        Some(events.last().0)
    } else {
        last_flag(events.drop_last(), target)
    }
}

pub open spec fn events_view(events: Seq<ActivationEvent>) -> Seq<(bool, Seq<char>)> {
    events.map_values(|e: ActivationEvent| e@)
}

/// Whether no element before the one at `i` has its name. Of the elements
/// that share a name, requests reach the first.
pub open spec fn first_of_name(elements: Seq<NamedElement>, i: int) -> bool {
    forall|j: int| 0 <= j < i ==> (#[trigger] elements[j]).name@ != elements[i].name@
}

/// The request of this tick that counts for the element at `i`.
pub open spec fn flag_for(
    elements: Seq<NamedElement>,
    events: Seq<(bool, Seq<char>)>,
    i: int,
) -> Option<bool> {
    if first_of_name(elements, i) {
        last_flag(events, elements[i].name@)
    } else {
        None
    }
}

/// Of two requests in a row for one element, the later one counts.
pub proof fn lemma_same_target_last_wins(
    events: Seq<(bool, Seq<char>)>,
    first: bool,
    second: bool,
    target: Seq<char>,
)
    ensures
        last_flag(events.push((first, target)).push((second, target)), target) == Some(second),
{
}

/// A request for one element leaves the request for another as it stands.
pub proof fn lemma_other_target_kept(
    events: Seq<(bool, Seq<char>)>,
    flag: bool,
    target: Seq<char>,
    other: Seq<char>,
)
    requires
        other != target,
    ensures
        last_flag(events.push((flag, target)), other) == last_flag(events, other),
{
    assert(events.push((flag, target)).drop_last() =~= events);
}

/// Looks for the last of `events` that names `target`.
pub fn find_last_flag(events: &Vec<ActivationEvent>, target: &str) -> (r: Option<bool>)
    ensures
        r == last_flag(events_view(events@), target@),
{
    let mut i: usize = events.len();
    assert(events_view(events@).take(i as int) =~= events_view(events@));
    while i > 0
        invariant
            i <= events.len(),
            last_flag(events_view(events@), target@) == last_flag(
                events_view(events@).take(i as int),
                target@,
            ),
        decreases i,
    {
        let ghost seen = events_view(events@).take(i as int);
        assert(seen.drop_last() =~= events_view(events@).take(i - 1));
        if text_equal(events[i - 1].1.as_str(), target) {
            return Some(events[i - 1].0);
        }
        i -= 1;
    }
    None
}

fn is_first_of_name(elements: &Vec<NamedElement>, i: usize) -> (r: bool)
    requires
        i < elements.len(),
    ensures
        r == first_of_name(elements@, i as int),
{
    let mut j: usize = 0;
    while j < i
        invariant
            j <= i < elements.len(),
            forall|k: int|
                0 <= k < j ==> (#[trigger] elements@[k]).name@ != elements@[i as int].name@,
        decreases i - j,
    {
        if text_equal(elements[j].name.as_str(), elements[i].name.as_str()) {
            return false;
        }
        j += 1;
    }
    true
}

/// Carries out the requests of one tick. Each element keeps its name; its
/// state follows the last request that names it, and of the elements that
/// share a name only the first is reached.
pub fn set_activation(elements: &mut Vec<NamedElement>, events: &Vec<ActivationEvent>)
    ensures
        final(elements).len() == old(elements).len(),
        forall|i: int|
            0 <= i < old(elements).len() ==> (#[trigger] final(elements)[i]).name@ == old(
                elements,
            )[i].name@ && final(elements)[i].state == old(elements)[i].state.requested(
                flag_for(old(elements)@, events_view(events@), i),
            ),
{
    let ghost before = elements@;
    let mut i: usize = 0;
    while i < elements.len()
        invariant
            i <= elements.len(),
            elements.len() == before.len(),
            forall|k: int|
                0 <= k < before.len() ==> (#[trigger] elements@[k]).name@ == before[k].name@,
            forall|k: int|
                i <= k < before.len() ==> (#[trigger] elements@[k]).state == before[k].state,
            forall|k: int|
                0 <= k < i ==> (#[trigger] elements@[k]).state == before[k].state.requested(
                    flag_for(before, events_view(events@), k),
                ),
        decreases elements.len() - i,
    {
        let first = is_first_of_name(elements, i);
        proof {
            if first {
                assert forall|j: int| 0 <= j < i implies (#[trigger] before[j]).name@
                    != before[i as int].name@ by {
                    assert(elements@[j].name@ != elements@[i as int].name@);
                }
            } else {
                let j = choose|j: int|
                    0 <= j < i && (#[trigger] elements@[j]).name@ == elements@[i as int].name@;
                assert(before[j].name@ == before[i as int].name@);
            }
        }
        if first {
            let flag = find_last_flag(events, elements[i].name.as_str());
            let next = elements[i].state.request(flag);
            elements[i].state = next;
        }
        i += 1;
    }
}

/// Ends the tick: what was switched off leaves play.
pub fn deactivate_elements(elements: &mut Vec<NamedElement>)
    ensures
        final(elements).len() == old(elements).len(),
        forall|i: int|
            0 <= i < old(elements).len() ==> (#[trigger] final(elements)[i]).name@ == old(
                elements,
            )[i].name@ && final(elements)[i].state == old(elements)[i].state.settled(),
{
    let ghost before = elements@;
    let mut i: usize = 0;
    while i < elements.len()
        invariant
            i <= elements.len(),
            elements.len() == before.len(),
            forall|k: int|
                0 <= k < before.len() ==> (#[trigger] elements@[k]).name@ == before[k].name@,
            forall|k: int|
                i <= k < before.len() ==> (#[trigger] elements@[k]).state == before[k].state,
            forall|k: int|
                0 <= k < i ==> (#[trigger] elements@[k]).state == before[k].state.settled(),
        decreases elements.len() - i,
    {
        let next = elements[i].state.settle();
        elements[i].state = next;
        i += 1;
    }
}

/// What is to happen when another level is asked for.
#[derive(Debug, Clone, PartialEq, Eq)]
pub struct LevelChange {
    pub level: String,
    pub state: States,
    pub mode: GameMode,
}

/// Serves the last request of the tick for another level; earlier ones are
/// dropped. The level is loaded, and until it is there nobody has control.
pub fn set_level(requests: &mut Mailbox<SetLevelEvent>) -> (r: Option<LevelChange>)
    ensures
        final(requests).slot is None,
        old(requests).slot is None ==> r is None,
        old(requests).slot matches Some(request) ==> r is Some && r->0.level@ == request.0@
            && r->0.state == States::LoadingLevel && r->0.mode == GameMode::Neither,
{
    match requests.drain() {
        Some(SetLevelEvent(level)) => Some(
            LevelChange { level, state: States::LoadingLevel, mode: GameMode::Neither },
        ),
        None => None,
    }
}

/// Where a portal leads: to another level, or to a knot of the story.
#[derive(Debug, Clone, PartialEq, Eq)]
pub enum Portal {
    Level(String),
    Knot(String),
}

pub enum PortalView {
    Level(Seq<char>),
    Knot(Seq<char>),
}

impl View for Portal {
    type V = PortalView;

    open spec fn view(&self) -> PortalView {
        match self {
            Portal::Level(level) => PortalView::Level(level@),
            Portal::Knot(knot) => PortalView::Knot(knot@),
        }
    }
}

/// One of the two bodies that touch.
#[derive(Debug, Clone, PartialEq, Eq)]
pub struct Body {
    /// Whether the body is the player's.
    pub player: bool,
    /// Whether the body is in the layer of the portals.
    pub in_portal_layer: bool,
    /// The portal that the body is, if it is one and is in play.
    pub portal: Option<Portal>,
}

/// Two bodies that touch, as the physics reports them.
#[derive(Debug, Clone, PartialEq, Eq)]
pub struct Contact {
    /// Whether the contact has just begun.
    pub started: bool,
    pub first: Body,
    pub second: Body,
}

impl Contact {
    /// The portal that the player enters by this contact: the contact has
    /// just begun, and one body is the player's and the other a portal in
    /// play. Where that holds both ways, the portal is the second body.
    pub open spec fn entered(self) -> Option<Portal> {
        if !self.started {
            None
        } else if self.first.player && self.second.in_portal_layer && self.second.portal is Some {
            self.second.portal
        } else if self.second.player && self.first.in_portal_layer {
            self.first.portal
        } else {
            None
        }
    }
}

/// The portal that the first of the contacts leads into that leads into one.
pub open spec fn first_entered(contacts: Seq<Contact>) -> Option<Portal>
    decreases contacts.len(),
{
    if contacts.len() == 0 {
        None
    } else if contacts[0].entered() is Some {
        contacts[0].entered()
    } else {
        first_entered(contacts.drop_first())
    }
}

impl Portal {
    /// A copy of the portal.
    pub fn duplicate(&self) -> (r: Portal)
        ensures
            r@ == self@,
    {
        match self {
            Portal::Level(level) => Portal::Level(level.clone()),
            Portal::Knot(knot) => Portal::Knot(knot.clone()),
        }
    }
}

/// Looks through the contacts of a tick for the first by which the player
/// enters a portal, and hands out that portal. Contacts after it are not
/// looked at.
pub fn trigger_portal(contacts: &Vec<Contact>) -> (r: Option<Portal>)
    ensures
        match first_entered(contacts@) {
            Some(portal) => r is Some && r->0@ == portal@,
            None => r is None,
        },
{
    let mut i: usize = 0;
    assert(contacts@.subrange(0, contacts@.len() as int) =~= contacts@);
    while i < contacts.len()
        invariant
            i <= contacts.len(),
            first_entered(contacts@) == first_entered(
                contacts@.subrange(i as int, contacts@.len() as int),
            ),
        decreases contacts.len() - i,
    {
        let ghost rest = contacts@.subrange(i as int, contacts@.len() as int);
        assert(rest.drop_first() =~= contacts@.subrange(i + 1, contacts@.len() as int));
        let contact = &contacts[i];
        if contact.started {
            if contact.first.player && contact.second.in_portal_layer {
                if let Some(portal) = &contact.second.portal {
                    return Some(portal.duplicate());
                }
            }
            if contact.second.player && contact.first.in_portal_layer {
                if let Some(portal) = &contact.first.portal {
                    return Some(portal.duplicate());
                }
            }
        }
        i += 1;
    }
    None
}

} // verus!
