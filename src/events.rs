use bevy::ecs::entity::Entity;
use vstd::prelude::*;

verus! {

/// The host engine's entity handle. Events only carry it; nothing here looks inside.
#[verifier::external_type_specification]
#[verifier::external_body]
pub struct ExEntity(Entity);

/// An event that triggers when the selection state of a pickable entity changes.
#[derive(Debug, Clone, Copy, PartialEq, Eq)]
pub enum SelectionEvent {
    JustSelected(Entity),
    JustDeselected(Entity),
}

/// An event that triggers when the hover state of a pickable entity changes.
#[derive(Debug, Clone, Copy, PartialEq, Eq)]
pub enum HoverEvent {
    JustEntered(Entity),
    JustLeft(Entity),
}

/// An event that wraps selection and hover events.
#[derive(Debug, Clone, Copy, PartialEq, Eq)]
pub enum PickingEvent {
    Selection(SelectionEvent),
    Hover(HoverEvent),
}

/// What the host's change tracking reports for one changed component on one
/// pickable entity this tick.
#[derive(Debug, Clone, Copy)]
pub struct TrackedChange {
    /// The entity that carries the component.
    pub entity: Entity,
    /// The component's current value (hovered, or selected).
    pub value: bool,
    /// Whether the component was attached this tick rather than modified.
    pub added: bool,
}

/// The switch that turns the whole picking machinery on and off.
#[derive(Debug, Clone, Copy)]
pub struct RayCastPluginState {
    pub enabled: bool,
}

/// The entity that an event is about.
pub open spec fn event_entity(ev: PickingEvent) -> Entity {
    match ev {
        PickingEvent::Hover(HoverEvent::JustEntered(e)) => e,
        PickingEvent::Hover(HoverEvent::JustLeft(e)) => e,
        PickingEvent::Selection(SelectionEvent::JustSelected(e)) => e,
        PickingEvent::Selection(SelectionEvent::JustDeselected(e)) => e,
    }
}

/// The event that a hover change yields: none for a component attached this
/// tick, else entered or left after its current value.
pub open spec fn hover_event_of(c: TrackedChange) -> Option<PickingEvent> {
    if c.added {
        None
    } else if c.value {
        Some(PickingEvent::Hover(HoverEvent::JustEntered(c.entity)))
    } else {
        Some(PickingEvent::Hover(HoverEvent::JustLeft(c.entity)))
    }
}

/// The event that a selection change yields: none for a component attached
/// this tick, else selected or deselected after its current value.
pub open spec fn selection_event_of(c: TrackedChange) -> Option<PickingEvent> {
    if c.added {
        None
    } else if c.value {
        Some(PickingEvent::Selection(SelectionEvent::JustSelected(c.entity)))
    } else {
        Some(PickingEvent::Selection(SelectionEvent::JustDeselected(c.entity)))
    }
}

/// The events that a sequence of changes yields, in the order of the changes.
pub open spec fn events_from(
    changes: Seq<TrackedChange>,
    event_of: spec_fn(TrackedChange) -> Option<PickingEvent>,
) -> Seq<PickingEvent>
    decreases changes.len(),
{
    if changes.len() == 0 {
        Seq::empty()
    } else {
        let earlier = events_from(changes.drop_last(), event_of);
        match event_of(changes.last()) {
            Some(ev) => earlier.push(ev),
            None => earlier,
        }
    }
}

/// The hover events that a tick's hover changes yield.
pub open spec fn hover_events(changes: Seq<TrackedChange>) -> Seq<PickingEvent> {
    events_from(changes, |c: TrackedChange| hover_event_of(c))
}

/// The selection events that a tick's selection changes yield.
pub open spec fn selection_events(changes: Seq<TrackedChange>) -> Seq<PickingEvent> {
    events_from(changes, |c: TrackedChange| selection_event_of(c))
}

/// All events of one tick: hover events, then selection events; none while
/// picking is disabled.
pub open spec fn mesh_events(
    enabled: bool,
    hover_changes: Seq<TrackedChange>,
    selection_changes: Seq<TrackedChange>,
) -> Seq<PickingEvent> {
    if enabled {
        hover_events(hover_changes) + selection_events(selection_changes)
    } else {
        Seq::empty()
    }
}

/// The events that the debug listener writes to the log: all of them while
/// picking is enabled, none otherwise.
pub open spec fn debug_log(enabled: bool, events: Seq<PickingEvent>) -> Seq<PickingEvent> {
    if enabled {
        events
    } else {
        Seq::empty()
    }
}

fn hover_event(c: &TrackedChange) -> (r: Option<PickingEvent>)
    ensures
        r == hover_event_of(*c),
{
    if c.added {
        // Attaching the component is no transition.
        None
    } else if c.value {
        Some(PickingEvent::Hover(HoverEvent::JustEntered(c.entity)))
    } else {
        Some(PickingEvent::Hover(HoverEvent::JustLeft(c.entity)))
    }
}

fn selection_event(c: &TrackedChange) -> (r: Option<PickingEvent>)
    ensures
        r == selection_event_of(*c),
{
    if c.added {
        // Attaching the component is no transition.
        None
    } else if c.value {
        Some(PickingEvent::Selection(SelectionEvent::JustSelected(c.entity)))
    } else {
        Some(PickingEvent::Selection(SelectionEvent::JustDeselected(c.entity)))
    }
}

/// Looks for changes in selection or hover state, and appends the matching
/// events to `picking_events`. `hover_query` and `selection_query` hold what
/// the host's change tracking reports for this tick on pickable entities.
/// Only the current value is read: should the host report a write of the
/// value a component already had, that write still yields an event.
pub fn mesh_events_system(
    state: &RayCastPluginState,
    picking_events: &mut Vec<PickingEvent>,
    hover_query: &Vec<TrackedChange>,
    selection_query: &Vec<TrackedChange>,
)
    ensures
        final(picking_events)@ == old(picking_events)@ + mesh_events(
            state.enabled,
            hover_query@,
            selection_query@,
        ),
{
    let ghost start = picking_events@;
    if !state.enabled {
        assert(picking_events@ =~= start + Seq::<PickingEvent>::empty());
        return;
    }
    let mut i: usize = 0;
    while i < hover_query.len()
        invariant
            i <= hover_query@.len(),
            picking_events@ == start + hover_events(hover_query@.take(i as int)),
        decreases hover_query@.len() - i,
    {
        assert(hover_query@.take(i + 1).drop_last() =~= hover_query@.take(i as int));
        match hover_event(&hover_query[i]) {
            Some(ev) => {
                picking_events.push(ev);
            },
            None => {},
        }
        i = i + 1;
        assert(picking_events@ =~= start + hover_events(hover_query@.take(i as int)));
    }
    assert(hover_query@.take(i as int) =~= hover_query@);
    let ghost mid = picking_events@;
    let mut j: usize = 0;
    while j < selection_query.len()
        invariant
            j <= selection_query@.len(),
            mid == start + hover_events(hover_query@),
            picking_events@ == mid + selection_events(selection_query@.take(j as int)),
        decreases selection_query@.len() - j,
    {
        assert(selection_query@.take(j + 1).drop_last() =~= selection_query@.take(j as int));
        match selection_event(&selection_query[j]) {
            Some(ev) => {
                picking_events.push(ev);
            },
            None => {},
        }
        j = j + 1;
        assert(picking_events@ =~= mid + selection_events(selection_query@.take(j as int)));
    }
    assert(selection_query@.take(j as int) =~= selection_query@);
    assert(picking_events@ =~= start + (hover_events(hover_query@) + selection_events(
        selection_query@,
    )));
}

/// Listens for picking events and returns those to be written to the debug
/// log, in the order they were sent.
pub fn event_debug_system(state: &RayCastPluginState, events: &Vec<PickingEvent>) -> (logged: Vec<
    PickingEvent,
>)
    ensures
        logged@ == debug_log(state.enabled, events@),
{
    let mut logged: Vec<PickingEvent> = Vec::new();
    if !state.enabled {
        return logged;
    }
    let mut i: usize = 0;
    while i < events.len()
        invariant
            i <= events@.len(),
            logged@ == events@.take(i as int),
        decreases events@.len() - i,
    {
        logged.push(events[i]);
        i = i + 1;
        assert(logged@ =~= events@.take(i as int));
    }
    assert(events@.take(i as int) =~= events@);
    logged
}

} // verus!
