use crate::events::{
    debug_log, event_entity, events_from, hover_event_of, hover_events, mesh_events,
    selection_event_of, selection_events, HoverEvent, PickingEvent, SelectionEvent, TrackedChange,
};
use bevy::ecs::entity::Entity;
use vstd::prelude::*;

verus! {

broadcast use {vstd::seq_lib::group_to_multiset_ensures, vstd::multiset::group_multiset_axioms};

/// No entity is reported twice by one change query.
pub open spec fn distinct_entities(changes: Seq<TrackedChange>) -> bool {
    forall|i: int, j: int|
        0 <= i < changes.len() && 0 <= j < changes.len() && i != j ==> changes[i].entity
            != changes[j].entity
}

/// How often `ev` occurs among `events`.
pub open spec fn times(events: Seq<PickingEvent>, ev: PickingEvent) -> nat {
    events.to_multiset().count(ev)
}

/// The hover and selection events about one entity.
pub open spec fn entered(e: Entity) -> PickingEvent {
    PickingEvent::Hover(HoverEvent::JustEntered(e))
}

pub open spec fn left(e: Entity) -> PickingEvent {
    PickingEvent::Hover(HoverEvent::JustLeft(e))
}

pub open spec fn selected(e: Entity) -> PickingEvent {
    PickingEvent::Selection(SelectionEvent::JustSelected(e))
}

pub open spec fn deselected(e: Entity) -> PickingEvent {
    PickingEvent::Selection(SelectionEvent::JustDeselected(e))
}

/// A change rule that yields `ev` for none of `changes` puts no `ev` among its events.
proof fn lemma_events_from_never(
    changes: Seq<TrackedChange>,
    event_of: spec_fn(TrackedChange) -> Option<PickingEvent>,
    ev: PickingEvent,
)
    requires
        forall|k: int| 0 <= k < changes.len() ==> event_of(#[trigger] changes[k]) != Some(ev),
    ensures
        times(events_from(changes, event_of), ev) == 0,
    decreases changes.len(),
{
    if changes.len() > 0 {
        lemma_events_from_never(changes.drop_last(), event_of, ev);
    }
}

/// Where each entity changes at most once and a rule's events name the entity
/// of their change, an event about the entity of change `i` occurs once if that
/// change yields it, and not at all otherwise.
proof fn lemma_events_from_times(
    changes: Seq<TrackedChange>,
    event_of: spec_fn(TrackedChange) -> Option<PickingEvent>,
    i: int,
    ev: PickingEvent,
)
    requires
        distinct_entities(changes),
        0 <= i < changes.len(),
        event_entity(ev) == changes[i].entity,
        forall|c: TrackedChange|
            (#[trigger] event_of(c)) is Some ==> event_entity(event_of(c)->0) == c.entity,
    ensures
        times(events_from(changes, event_of), ev) == if event_of(changes[i]) == Some(ev) {
            1nat
        } else {
            0nat
        },
    decreases changes.len(),
{
    let earlier = changes.drop_last();
    if i == changes.len() - 1 {
        assert forall|k: int| 0 <= k < earlier.len() implies event_of(#[trigger] earlier[k]) != Some(
            ev,
        ) by {
            assert(earlier[k] == changes[k]);
        }
        lemma_events_from_never(earlier, event_of, ev);
    } else {
        lemma_events_from_times(earlier, event_of, i, ev);
        let last = changes.last();
        assert(last.entity != changes[i].entity);
    }
}

proof fn lemma_mesh_times(
    hover_changes: Seq<TrackedChange>,
    selection_changes: Seq<TrackedChange>,
    ev: PickingEvent,
)
    ensures
        times(mesh_events(true, hover_changes, selection_changes), ev) == times(
            hover_events(hover_changes),
            ev,
        ) + times(selection_events(selection_changes), ev),
{
    vstd::seq_lib::lemma_multiset_commutative(
        hover_events(hover_changes),
        selection_events(selection_changes),
    );
}

/// In an enabled tick, a hover event about the entity of hover change `i`
/// occurs once if that change yields it, and not at all otherwise.
proof fn lemma_hover_change_times(
    hover_changes: Seq<TrackedChange>,
    selection_changes: Seq<TrackedChange>,
    i: int,
    ev: PickingEvent,
)
    requires
        distinct_entities(hover_changes),
        0 <= i < hover_changes.len(),
        ev is Hover,
        event_entity(ev) == hover_changes[i].entity,
    ensures
        times(mesh_events(true, hover_changes, selection_changes), ev) == if hover_event_of(
            hover_changes[i],
        ) == Some(ev) {
            1nat
        } else {
            0nat
        },
{
    lemma_mesh_times(hover_changes, selection_changes, ev);
    lemma_events_from_times(hover_changes, |c: TrackedChange| hover_event_of(c), i, ev);
    lemma_events_from_never(selection_changes, |c: TrackedChange| selection_event_of(c), ev);
}

/// In an enabled tick, a selection event about the entity of selection change
/// `i` occurs once if that change yields it, and not at all otherwise.
proof fn lemma_selection_change_times(
    hover_changes: Seq<TrackedChange>,
    selection_changes: Seq<TrackedChange>,
    i: int,
    ev: PickingEvent,
)
    requires
        distinct_entities(selection_changes),
        0 <= i < selection_changes.len(),
        ev is Selection,
        event_entity(ev) == selection_changes[i].entity,
    ensures
        times(mesh_events(true, hover_changes, selection_changes), ev) == if selection_event_of(
            selection_changes[i],
        ) == Some(ev) {
            1nat
        } else {
            0nat
        },
{
    lemma_mesh_times(hover_changes, selection_changes, ev);
    lemma_events_from_times(selection_changes, |c: TrackedChange| selection_event_of(c), i, ev);
    lemma_events_from_never(hover_changes, |c: TrackedChange| hover_event_of(c), ev);
}

/// A hover component attached to an entity this tick gives that entity no
/// hover event this tick.
pub proof fn law_hover_attach_is_silent(
    enabled: bool,
    hover_changes: Seq<TrackedChange>,
    selection_changes: Seq<TrackedChange>,
    i: int,
)
    requires
        distinct_entities(hover_changes),
        0 <= i < hover_changes.len(),
        hover_changes[i].added,
    ensures
        times(
            mesh_events(enabled, hover_changes, selection_changes),
            entered(hover_changes[i].entity),
        ) == 0,
        times(
            mesh_events(enabled, hover_changes, selection_changes),
            left(hover_changes[i].entity),
        ) == 0,
{
    let e = hover_changes[i].entity;
    if enabled {
        lemma_hover_change_times(hover_changes, selection_changes, i, entered(e));
        lemma_hover_change_times(hover_changes, selection_changes, i, left(e));
    }
}

/// An entity whose existing hover component changed and now reads hovered
/// (so it read not hovered before) gets exactly one entered event and no left
/// event.
pub proof fn law_hover_enter(
    hover_changes: Seq<TrackedChange>,
    selection_changes: Seq<TrackedChange>,
    i: int,
)
    requires
        distinct_entities(hover_changes),
        0 <= i < hover_changes.len(),
        !hover_changes[i].added,
        hover_changes[i].value,
    ensures
        times(
            mesh_events(true, hover_changes, selection_changes),
            entered(hover_changes[i].entity),
        ) == 1,
        times(
            mesh_events(true, hover_changes, selection_changes),
            left(hover_changes[i].entity),
        ) == 0,
{
    let e = hover_changes[i].entity;
    lemma_hover_change_times(hover_changes, selection_changes, i, entered(e));
    lemma_hover_change_times(hover_changes, selection_changes, i, left(e));
}

/// An entity whose existing hover component changed and now reads not hovered
/// (so it read hovered before) gets exactly one left event and no entered
/// event.
pub proof fn law_hover_leave(
    hover_changes: Seq<TrackedChange>,
    selection_changes: Seq<TrackedChange>,
    i: int,
)
    requires
        distinct_entities(hover_changes),
        0 <= i < hover_changes.len(),
        !hover_changes[i].added,
        !hover_changes[i].value,
    ensures
        times(
            mesh_events(true, hover_changes, selection_changes),
            left(hover_changes[i].entity),
        ) == 1,
        times(
            mesh_events(true, hover_changes, selection_changes),
            entered(hover_changes[i].entity),
        ) == 0,
{
    let e = hover_changes[i].entity;
    lemma_hover_change_times(hover_changes, selection_changes, i, entered(e));
    lemma_hover_change_times(hover_changes, selection_changes, i, left(e));
}

/// A selection component attached to an entity this tick gives that entity no
/// selection event this tick.
pub proof fn law_selection_attach_is_silent(
    enabled: bool,
    hover_changes: Seq<TrackedChange>,
    selection_changes: Seq<TrackedChange>,
    i: int,
)
    requires
        distinct_entities(selection_changes),
        0 <= i < selection_changes.len(),
        selection_changes[i].added,
    ensures
        times(
            mesh_events(enabled, hover_changes, selection_changes),
            selected(selection_changes[i].entity),
        ) == 0,
        times(
            mesh_events(enabled, hover_changes, selection_changes),
            deselected(selection_changes[i].entity),
        ) == 0,
{
    let e = selection_changes[i].entity;
    if enabled {
        lemma_selection_change_times(hover_changes, selection_changes, i, selected(e));
        lemma_selection_change_times(hover_changes, selection_changes, i, deselected(e));
    }
}

/// An entity whose existing selection component changed and now reads
/// selected gets exactly one selected event and no deselected event.
pub proof fn law_select(
    hover_changes: Seq<TrackedChange>,
    selection_changes: Seq<TrackedChange>,
    i: int,
)
    requires
        distinct_entities(selection_changes),
        0 <= i < selection_changes.len(),
        !selection_changes[i].added,
        selection_changes[i].value,
    ensures
        times(
            mesh_events(true, hover_changes, selection_changes),
            selected(selection_changes[i].entity),
        ) == 1,
        times(
            mesh_events(true, hover_changes, selection_changes),
            deselected(selection_changes[i].entity),
        ) == 0,
{
    let e = selection_changes[i].entity;
    lemma_selection_change_times(hover_changes, selection_changes, i, selected(e));
    lemma_selection_change_times(hover_changes, selection_changes, i, deselected(e));
}

/// An entity whose existing selection component changed and now reads not
/// selected gets exactly one deselected event and no selected event.
pub proof fn law_deselect(
    hover_changes: Seq<TrackedChange>,
    selection_changes: Seq<TrackedChange>,
    i: int,
)
    requires
        distinct_entities(selection_changes),
        0 <= i < selection_changes.len(),
        !selection_changes[i].added,
        !selection_changes[i].value,
    ensures
        times(
            mesh_events(true, hover_changes, selection_changes),
            deselected(selection_changes[i].entity),
        ) == 1,
        times(
            mesh_events(true, hover_changes, selection_changes),
            selected(selection_changes[i].entity),
        ) == 0,
{
    let e = selection_changes[i].entity;
    lemma_selection_change_times(hover_changes, selection_changes, i, selected(e));
    lemma_selection_change_times(hover_changes, selection_changes, i, deselected(e));
}

/// While picking is disabled no event is emitted, whatever changed, and the
/// debug listener writes nothing to the log.
pub proof fn law_disabled_is_silent(
    hover_changes: Seq<TrackedChange>,
    selection_changes: Seq<TrackedChange>,
    events: Seq<PickingEvent>,
)
    ensures
        mesh_events(false, hover_changes, selection_changes).len() == 0,
        debug_log(false, events).len() == 0,
{
}

} // verus!
