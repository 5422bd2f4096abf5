use bevy::ecs::entity::Entity;
use picking_events::events::{
    event_debug_system, mesh_events_system, HoverEvent, PickingEvent, RayCastPluginState,
    SelectionEvent, TrackedChange,
};

fn change(id: u32, value: bool, added: bool) -> TrackedChange {
    TrackedChange { entity: Entity::from_raw(id), value, added }
}

fn run(enabled: bool, hover: Vec<TrackedChange>, selection: Vec<TrackedChange>) -> Vec<PickingEvent> {
    let state = RayCastPluginState { enabled };
    let mut events = Vec::new();
    mesh_events_system(&state, &mut events, &hover, &selection);
    events
}

fn entered(id: u32) -> PickingEvent {
    PickingEvent::Hover(HoverEvent::JustEntered(Entity::from_raw(id)))
}

fn left(id: u32) -> PickingEvent {
    PickingEvent::Hover(HoverEvent::JustLeft(Entity::from_raw(id)))
}

fn selected(id: u32) -> PickingEvent {
    PickingEvent::Selection(SelectionEvent::JustSelected(Entity::from_raw(id)))
}

fn deselected(id: u32) -> PickingEvent {
    PickingEvent::Selection(SelectionEvent::JustDeselected(Entity::from_raw(id)))
}

#[test]
fn fresh_hover_attach_gives_no_event() {
    let events = run(true, vec![change(1, true, true)], vec![]);
    assert!(events.is_empty());
}

#[test]
fn hover_rewritten_to_true_enters() {
    let events = run(true, vec![change(2, true, false)], vec![]);
    assert_eq!(events, vec![entered(2)]);
}

#[test]
fn selection_rewritten_to_false_deselects() {
    let events = run(true, vec![], vec![change(3, false, false)]);
    assert_eq!(events, vec![deselected(3)]);
}

#[test]
fn disabled_gives_no_events_and_no_log() {
    let state = RayCastPluginState { enabled: false };
    let mut events = Vec::new();
    mesh_events_system(&state, &mut events, &vec![change(4, true, false)], &vec![]);
    assert!(events.is_empty());
    let logged = event_debug_system(&state, &vec![entered(4)]);
    assert!(logged.is_empty());
}

#[test]
fn hover_and_selection_in_one_tick() {
    let events = run(true, vec![change(5, true, false)], vec![change(6, false, false)]);
    assert_eq!(events.len(), 2);
    assert!(events.contains(&entered(5)));
    assert!(events.contains(&deselected(6)));
}

#[test]
fn hover_rewritten_to_false_leaves() {
    let events = run(true, vec![change(7, false, false)], vec![]);
    assert_eq!(events, vec![left(7)]);
}

#[test]
fn selection_rewritten_to_true_selects() {
    let events = run(true, vec![], vec![change(8, true, false)]);
    assert_eq!(events, vec![selected(8)]);
}

#[test]
fn fresh_selection_attach_gives_no_event() {
    let events = run(true, vec![], vec![change(9, true, true), change(10, false, true)]);
    assert!(events.is_empty());
}

#[test]
fn no_changes_give_no_events() {
    assert!(run(true, vec![], vec![]).is_empty());
}

#[test]
fn one_event_per_changed_entity_in_query_order() {
    let events = run(
        true,
        vec![change(11, true, false), change(12, true, true), change(13, false, false)],
        vec![change(14, true, false), change(15, false, false)],
    );
    assert_eq!(events, vec![entered(11), left(13), selected(14), deselected(15)]);
}

#[test]
fn events_are_appended_to_the_queue() {
    let state = RayCastPluginState { enabled: true };
    let mut events = vec![left(20)];
    mesh_events_system(&state, &mut events, &vec![change(21, true, false)], &vec![]);
    assert_eq!(events, vec![left(20), entered(21)]);
}

#[test]
fn disabled_leaves_the_queue_as_it_was() {
    let state = RayCastPluginState { enabled: false };
    let mut events = vec![selected(30)];
    mesh_events_system(&state, &mut events, &vec![change(31, false, false)], &vec![change(32, true, false)]);
    assert_eq!(events, vec![selected(30)]);
}

#[test]
fn enabled_debug_log_lists_every_event_in_order() {
    let state = RayCastPluginState { enabled: true };
    let queue = vec![entered(40), deselected(41), left(40)];
    assert_eq!(event_debug_system(&state, &queue), queue);
}

#[test]
fn debug_log_of_no_events_is_empty() {
    let state = RayCastPluginState { enabled: true };
    assert!(event_debug_system(&state, &vec![]).is_empty());
}

#[test]
fn events_keep_the_entity_generation() {
    let e = Entity::from_bits((3u64 << 32) | 50);
    let state = RayCastPluginState { enabled: true };
    let mut events = Vec::new();
    let change = TrackedChange { entity: e, value: true, added: false };
    mesh_events_system(&state, &mut events, &vec![change], &vec![]);
    assert_eq!(events, vec![PickingEvent::Hover(HoverEvent::JustEntered(e))]);
    assert_ne!(events, vec![entered(50)]);
}
