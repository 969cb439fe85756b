use ink_narrative::level::{
    deactivate_elements, find_last_flag, set_activation, set_level, trigger_portal, Activation,
    ActivationEvent, Body, Contact, LevelChange, NamedElement, Portal, SetLevelEvent,
};
use ink_narrative::mailbox::Mailbox;
use ink_narrative::states::{GameMode, States};

fn element(name: &str, state: Activation) -> NamedElement {
    NamedElement { name: name.to_string(), state }
}

fn on(name: &str) -> ActivationEvent {
    ActivationEvent(true, name.to_string())
}

fn off(name: &str) -> ActivationEvent {
    ActivationEvent(false, name.to_string())
}

#[test]
fn the_three_states() {
    assert!(!Activation::Inactive.is_active());
    assert!(Activation::Active.is_active());
    assert!(Activation::PendingDeactivate.is_active());
    for state in [Activation::Inactive, Activation::Active, Activation::PendingDeactivate].iter() {
        assert_eq!(state.request(None), *state);
        assert_eq!(state.request(Some(true)), Activation::Active);
    }
    assert_eq!(Activation::Inactive.request(Some(false)), Activation::Inactive);
    assert_eq!(Activation::Active.request(Some(false)), Activation::PendingDeactivate);
    assert_eq!(Activation::PendingDeactivate.request(Some(false)), Activation::PendingDeactivate);
    assert_eq!(Activation::Inactive.settle(), Activation::Inactive);
    assert_eq!(Activation::Active.settle(), Activation::Active);
    assert_eq!(Activation::PendingDeactivate.settle(), Activation::Inactive);
}

#[test]
fn the_last_request_for_a_name_counts() {
    let events = vec![on("target_A"), off("b"), off("target_A"), on("c"), on("target_A")];
    assert_eq!(find_last_flag(&events, "target_A"), Some(true));
    assert_eq!(find_last_flag(&events, "b"), Some(false));
    assert_eq!(find_last_flag(&events, "c"), Some(true));
    assert_eq!(find_last_flag(&events, "d"), None);
    assert_eq!(find_last_flag(&vec![], "target_A"), None);
    assert_eq!(find_last_flag(&vec![on("target_A"), off("target_A")], "target_A"), Some(false));
}

#[test]
fn two_requests_for_one_element_leave_only_the_final_state() {
    let mut elements = vec![element("target_A", Activation::Inactive)];
    set_activation(&mut elements, &vec![off("target_A"), on("target_A")]);
    assert_eq!(elements, vec![element("target_A", Activation::Active)]);

    let mut elements = vec![element("target_A", Activation::Inactive)];
    set_activation(&mut elements, &vec![on("target_A"), off("target_A")]);
    assert_eq!(elements, vec![element("target_A", Activation::Inactive)]);

    let mut elements = vec![element("target_A", Activation::Active)];
    set_activation(&mut elements, &vec![off("target_A"), on("target_A")]);
    assert_eq!(elements, vec![element("target_A", Activation::Active)]);

    let mut elements = vec![element("target_A", Activation::Active)];
    set_activation(&mut elements, &vec![on("target_A"), off("target_A")]);
    assert_eq!(elements, vec![element("target_A", Activation::PendingDeactivate)]);
}

#[test]
fn requests_for_different_elements_are_all_delivered() {
    let mut elements = vec![
        element("door", Activation::Inactive),
        element("lamp", Activation::Active),
        element("bell", Activation::Inactive),
    ];
    set_activation(&mut elements, &vec![on("door"), off("lamp")]);
    assert_eq!(
        elements,
        vec![
            element("door", Activation::Active),
            element("lamp", Activation::PendingDeactivate),
            element("bell", Activation::Inactive),
        ]
    );
}

#[test]
fn a_request_reaches_the_first_element_of_its_name_only() {
    let mut elements = vec![
        element("lamp", Activation::Inactive),
        element("door", Activation::Inactive),
        element("lamp", Activation::Inactive),
    ];
    set_activation(&mut elements, &vec![on("lamp")]);
    assert_eq!(
        elements,
        vec![
            element("lamp", Activation::Active),
            element("door", Activation::Inactive),
            element("lamp", Activation::Inactive),
        ]
    );
}

#[test]
fn requests_for_no_element_change_nothing() {
    let mut elements = vec![element("door", Activation::Active)];
    set_activation(&mut elements, &vec![off("Door"), off("doo"), off("")]);
    assert_eq!(elements, vec![element("door", Activation::Active)]);
    set_activation(&mut elements, &vec![]);
    assert_eq!(elements, vec![element("door", Activation::Active)]);
    let mut none: Vec<NamedElement> = vec![];
    set_activation(&mut none, &vec![on("door")]);
    assert_eq!(none, vec![]);
}

#[test]
fn what_was_switched_off_leaves_play_at_the_end_of_the_tick() {
    let mut elements = vec![
        element("door", Activation::Active),
        element("lamp", Activation::Active),
        element("bell", Activation::Inactive),
    ];
    set_activation(&mut elements, &vec![off("lamp")]);
    assert!(elements[1].state.is_active());
    deactivate_elements(&mut elements);
    assert_eq!(
        elements,
        vec![
            element("door", Activation::Active),
            element("lamp", Activation::Inactive),
            element("bell", Activation::Inactive),
        ]
    );
    deactivate_elements(&mut elements);
    assert_eq!(elements[0], element("door", Activation::Active));
}

fn player() -> Body {
    Body { player: true, in_portal_layer: false, portal: None }
}

fn wall() -> Body {
    Body { player: false, in_portal_layer: false, portal: None }
}

fn portal_to_level(level: &str) -> Body {
    Body { player: false, in_portal_layer: true, portal: Some(Portal::Level(level.to_string())) }
}

fn portal_to_knot(knot: &str) -> Body {
    Body { player: false, in_portal_layer: true, portal: Some(Portal::Knot(knot.to_string())) }
}

fn portal_out_of_play() -> Body {
    Body { player: false, in_portal_layer: true, portal: None }
}

fn touch(first: Body, second: Body) -> Contact {
    Contact { started: true, first, second }
}

#[test]
fn the_player_enters_the_portal_that_is_touched() {
    assert_eq!(
        trigger_portal(&vec![touch(player(), portal_to_knot("Intro"))]),
        Some(Portal::Knot("Intro".to_string()))
    );
    assert_eq!(
        trigger_portal(&vec![touch(portal_to_level("Level_2"), player())]),
        Some(Portal::Level("Level_2".to_string()))
    );
}

#[test]
fn only_the_first_portal_of_a_tick_is_entered() {
    let contacts = vec![
        touch(player(), wall()),
        touch(wall(), portal_to_knot("Nobody")),
        touch(player(), portal_out_of_play()),
        touch(portal_to_level("Level_2"), player()),
        touch(player(), portal_to_knot("Intro")),
    ];
    assert_eq!(trigger_portal(&contacts), Some(Portal::Level("Level_2".to_string())));
}

#[test]
fn a_contact_that_ends_enters_nothing() {
    let mut contact = touch(player(), portal_to_knot("Intro"));
    contact.started = false;
    assert_eq!(trigger_portal(&vec![contact]), None);
    assert_eq!(trigger_portal(&vec![]), None);
}

#[test]
fn a_portal_outside_its_layer_or_out_of_play_is_not_entered() {
    let mut stray = portal_to_knot("Intro");
    stray.in_portal_layer = false;
    assert_eq!(trigger_portal(&vec![touch(player(), stray.clone())]), None);
    assert_eq!(trigger_portal(&vec![touch(stray, player())]), None);
    assert_eq!(trigger_portal(&vec![touch(player(), portal_out_of_play())]), None);
    assert_eq!(trigger_portal(&vec![touch(portal_out_of_play(), player())]), None);
    assert_eq!(trigger_portal(&vec![touch(wall(), portal_to_knot("Intro"))]), None);
}

#[test]
fn where_both_bodies_are_player_and_portal_the_second_is_the_portal() {
    let both = |knot: &str| Body {
        player: true,
        in_portal_layer: true,
        portal: Some(Portal::Knot(knot.to_string())),
    };
    assert_eq!(
        trigger_portal(&vec![touch(both("first"), both("second"))]),
        Some(Portal::Knot("second".to_string()))
    );
    let mut second = both("second");
    second.portal = None;
    assert_eq!(
        trigger_portal(&vec![touch(both("first"), second)]),
        Some(Portal::Knot("first".to_string()))
    );
}

#[test]
fn the_last_request_for_a_level_is_served() {
    let mut requests = Mailbox::new();
    assert_eq!(set_level(&mut requests), None);
    requests.send(SetLevelEvent("Level_1".to_string()));
    requests.send(SetLevelEvent("Level_2".to_string()));
    assert_eq!(
        set_level(&mut requests),
        Some(LevelChange {
            level: "Level_2".to_string(),
            state: States::LoadingLevel,
            mode: GameMode::Neither,
        })
    );
    assert!(requests.is_empty());
    assert_eq!(set_level(&mut requests), None);
}

#[test]
fn a_copy_of_a_portal_is_the_portal() {
    assert_eq!(Portal::Knot("a".to_string()).duplicate(), Portal::Knot("a".to_string()));
    assert_eq!(Portal::Level("b".to_string()).duplicate(), Portal::Level("b".to_string()));
}
