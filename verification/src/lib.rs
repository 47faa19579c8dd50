//! A handwriting engine: text goes in, ink on paper comes out.
//!
//! Numbers are held by their bit patterns ([`number`]) and rounded by an arithmetic
//! unit of the caller ([`unit`]); what rounding has to keep for some of the laws is in
//! [`rounding`], and how close it has to come to exact results in [`exact`]. The pen is in
//! [`physics`], fed by [`android`]; its strokes become meshes in [`ink`]. [`paper`] makes
//! the sheet. What these three mean in exact arithmetic is in [`pen_laws`], [`ink_laws`]
//! and [`paper_laws`]. Text is cut in [`segment`], joined by the rules of its script
//! ([`policy`], [`latin`], [`myanmar`], [`arabic`]), shaped in [`shape`] and followed in
//! [`trail`]. [`session`] and [`scripted`] put it together, [`ffi`] answers foreign
//! callers. [`render`] and [`engine`] plan the work of the graphics device in the terms of
//! [`gpu`].

pub mod android;
pub mod arabic;
pub mod constants;
pub mod engine;
pub mod exact;
pub mod ffi;
pub mod gpu;
pub mod ink;
pub mod ink_laws;
pub mod latin;
pub mod myanmar;
pub mod number;
pub mod outline;
pub mod paper;
pub mod paper_laws;
pub mod pen_laws;
pub mod physics;
pub mod policy;
pub mod render;
pub mod rounding;
pub mod scripted;
pub mod segment;
pub mod session;
pub mod shape;
pub mod trail;
pub mod unit;
pub mod words;
pub mod xtask;
