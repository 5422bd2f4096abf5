//! Turns the per-tick hover and selection changes of pickable entities into
//! enter/leave and select/deselect events.
pub mod events;
pub mod laws;
