//! An endless canvas of notes and recurring to-do items: the canvas model,
//! its link gesture, the reminder scan and the recurrence rules.
pub mod time;
pub mod recurrence;
pub mod canvas;
pub mod laws;
pub mod title;
