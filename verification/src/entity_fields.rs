//! What the entities of a level say about themselves. A level names an
//! entity and gives it fields; portals, the player and the spirits are made
//! from them.

use crate::interactive_narrative::SetCurrentKnotEvent;
use crate::level::Portal;
use crate::level::PortalView;
use crate::text::text_equal;
use vstd::prelude::*;

verus! {

/// The value of a field, as far as it is a truth value or a text.
#[derive(Debug, Clone, PartialEq, Eq)]
pub enum FieldValue {
    Bool(bool),
    String(Option<String>),
    Other,
}

/// A field of an entity.
#[derive(Debug, Clone, PartialEq, Eq)]
pub struct FieldInstance {
    pub identifier: String,
    pub value: FieldValue,
}

pub enum FieldValueView {
    Bool(bool),
    String(Option<Seq<char>>),
    Other,
}

pub struct FieldView {
    pub identifier: Seq<char>,
    pub value: FieldValueView,
}

impl View for FieldValue {
    type V = FieldValueView;

    open spec fn view(&self) -> FieldValueView {
        match self {
            FieldValue::Bool(flag) => FieldValueView::Bool(*flag),
            FieldValue::String(Some(text)) => FieldValueView::String(Some(text@)),
            FieldValue::String(None) => FieldValueView::String(None),
            FieldValue::Other => FieldValueView::Other,
        }
    }
}

impl View for FieldInstance {
    type V = FieldView;

    open spec fn view(&self) -> FieldView {
        FieldView { identifier: self.identifier@, value: self.value@ }
    }
}

pub open spec fn fields_view(fields: Seq<FieldInstance>) -> Seq<FieldView> {
    fields.map_values(|f: FieldInstance| f@)
}

/// The text of the last field of that name that holds a text.
pub open spec fn last_text(fields: Seq<FieldView>, identifier: Seq<char>) -> Option<Seq<char>>
    decreases fields.len(),
{
    if fields.len() == 0 {
        None
    } else if fields.last().identifier == identifier && fields.last().value
        is String && fields.last().value->String_0 is Some {
        fields.last().value->String_0
    } else {
        last_text(fields.drop_last(), identifier)
    }
}

/// The truth value of the last field of that name that holds one.
pub open spec fn last_bool(fields: Seq<FieldView>, identifier: Seq<char>) -> Option<bool>
    decreases fields.len(),
{
    if fields.len() == 0 {
        None
    } else if fields.last().identifier == identifier && fields.last().value is Bool {
        Some(fields.last().value->Bool_0)
    } else {
        last_bool(fields.drop_last(), identifier)
    }
}

pub open spec fn text_view(text: Option<String>) -> Option<Seq<char>> {
    match text {
        Some(text) => Some(text@),
        None => None,
    }
}

pub fn find_text(fields: &Vec<FieldInstance>, identifier: &str) -> (r: Option<String>)
    ensures
        text_view(r) == last_text(fields_view(fields@), identifier@),
{
    let mut i: usize = fields.len();
    assert(fields_view(fields@).take(i as int) =~= fields_view(fields@));
    while i > 0
        invariant
            i <= fields.len(),
            last_text(fields_view(fields@), identifier@) == last_text(
                fields_view(fields@).take(i as int),
                identifier@,
            ),
        decreases i,
    {
        let ghost seen = fields_view(fields@).take(i as int);
        assert(seen.drop_last() =~= fields_view(fields@).take(i - 1));
        let field = &fields[i - 1];
        if let FieldValue::String(Some(text)) = &field.value {
            if text_equal(field.identifier.as_str(), identifier) {
                return Some(text.clone());
            }
        }
        i -= 1;
    }
    None
}

pub fn find_bool(fields: &Vec<FieldInstance>, identifier: &str) -> (r: Option<bool>)
    ensures
        r == last_bool(fields_view(fields@), identifier@),
{
    let mut i: usize = fields.len();
    assert(fields_view(fields@).take(i as int) =~= fields_view(fields@));
    while i > 0
        invariant
            i <= fields.len(),
            last_bool(fields_view(fields@), identifier@) == last_bool(
                fields_view(fields@).take(i as int),
                identifier@,
            ),
        decreases i,
    {
        let ghost seen = fields_view(fields@).take(i as int);
        assert(seen.drop_last() =~= fields_view(fields@).take(i - 1));
        let field = &fields[i - 1];
        if let FieldValue::Bool(flag) = &field.value {
            if text_equal(field.identifier.as_str(), identifier) {
                return Some(*flag);
            }
        }
        i -= 1;
    }
    None
}

/// What is to be built for a portal of the level.
#[derive(Debug, Clone, PartialEq, Eq)]
pub struct PortalPlan {
    /// Whether anything is built: a portal that leads nowhere and stops
    /// nobody is left out.
    pub built: bool,
    /// Whether bodies stop at the portal; the others pass and are noticed.
    pub solid: bool,
    /// Whether the portal is in play from the start.
    pub active: bool,
    /// The name under which the story switches the portal on and off.
    pub id: Option<String>,
    /// Where the portal leads. A level comes before a knot.
    pub target: Option<Portal>,
}

pub struct PortalPlanView {
    pub built: bool,
    pub solid: bool,
    pub active: bool,
    pub id: Option<Seq<char>>,
    pub target: Option<PortalView>,
}

impl View for PortalPlan {
    type V = PortalPlanView;

    open spec fn view(&self) -> PortalPlanView {
        PortalPlanView {
            built: self.built,
            solid: self.solid,
            active: self.active,
            id: text_view(self.id),
            target: match self.target {
                Some(portal) => Some(portal@),
                None => None,
            },
        }
    }
}

pub open spec fn flag_or(flag: Option<bool>, default: bool) -> bool {
    match flag {
        Some(flag) => flag,
        None => default,
    }
}

/// The plan that the fields of a portal make. A portal is solid unless a
/// field says otherwise, and out of play unless a field says otherwise.
pub open spec fn portal_plan(fields: Seq<FieldView>) -> PortalPlanView {
    let level = last_text(fields, "TargetLevel"@);
    let knot = last_text(fields, "TargetKnot"@);
    let solid = flag_or(last_bool(fields, "Solid"@), true);
    PortalPlanView {
        built: level is Some || knot is Some || solid,
        solid,
        active: flag_or(last_bool(fields, "StartEnabled"@), false),
        id: last_text(fields, "EntityId"@),
        target: match level {
            Some(level) => Some(PortalView::Level(level)),
            None => match knot {
                Some(knot) => Some(PortalView::Knot(knot)),
                None => None,
            },
        },
    }
}

/// Reads the fields of a portal of the level.
pub fn plan_portal(fields: &Vec<FieldInstance>) -> (r: PortalPlan)
    ensures
        r@ == portal_plan(fields_view(fields@)),
{
    let level = find_text(fields, "TargetLevel");
    let knot = find_text(fields, "TargetKnot");
    let solid = match find_bool(fields, "Solid") {
        Some(flag) => flag,
        None => true,
    };
    let active = match find_bool(fields, "StartEnabled") {
        Some(flag) => flag,
        None => false,
    };
    let built = level.is_some() || knot.is_some() || solid;
    let target = match level {
        Some(level) => Some(Portal::Level(level)),
        None => match knot {
            Some(knot) => Some(Portal::Knot(knot)),
            None => None,
        },
    };
    PortalPlan { built, solid, active, id: find_text(fields, "EntityId"), target }
}

/// The request that the player makes on entering a level: for the knot
/// that the last of the player's fields for it names, and to be left to
/// explore where none names one.
pub fn level_start_request(fields: &Vec<FieldInstance>) -> (r: SetCurrentKnotEvent)
    ensures
        text_view(r.0) == last_text(fields_view(fields@), "LevelStartKnot"@),
{
    SetCurrentKnotEvent(find_text(fields, "LevelStartKnot"))
}

/// What a spirit of the level has to do with the story.
#[derive(Debug, Clone, PartialEq, Eq)]
pub struct SpiritPlan {
    /// The knot of the conversation with the spirit.
    pub knot: Option<String>,
    /// The file of the sound that the spirit makes.
    pub audio: Option<String>,
    /// The name under which the story switches the spirit on and off.
    pub id: Option<String>,
    /// Whether the spirit is in play from the start.
    pub active: bool,
}

/// Reads the fields of a spirit of the level.
pub fn plan_spirit(fields: &Vec<FieldInstance>) -> (r: SpiritPlan)
    ensures
        text_view(r.knot) == last_text(fields_view(fields@), "TriggerKnot"@),
        text_view(r.audio) == last_text(fields_view(fields@), "Audio"@),
        text_view(r.id) == last_text(fields_view(fields@), "EntityId"@),
        r.active == flag_or(last_bool(fields_view(fields@), "StartEnabled"@), false),
{
    let active = match find_bool(fields, "StartEnabled") {
        Some(flag) => flag,
        None => false,
    };
    SpiritPlan {
        knot: find_text(fields, "TriggerKnot"),
        audio: find_text(fields, "Audio"),
        id: find_text(fields, "EntityId"),
        active,
    }
}

} // verus!
