//! Pointer hover and click handling for a scene of positioned, shaped objects.
//!
//! Once per frame the caller casts the pointer ray against every hoverable
//! object and hands the outcome to [`eventhandling::hovering::HoverInteractionSystem::run`],
//! which picks the nearest hit, keeps the single hovered slot up to date and
//! reports each change of it exactly once.

pub mod eventhandling;
pub mod util;
