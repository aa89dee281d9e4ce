//! Data model of keyframe animations in a glTF document, and the validator
//! that checks every sampler reference of an animation's channels.
pub mod animation;
pub mod index;
pub mod path;
pub mod root;
pub mod validation;
