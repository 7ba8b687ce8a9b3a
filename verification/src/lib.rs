//! Core of a declarative client-side UI framework built on a
//! model-view-update architecture.
//!
//! Application state is rendered into a virtual tree of [`html::Html`]
//! nodes.  An external diff produces a [`patch::Patch`] tree, which the
//! reconciliation engine in [`patch`] applies to a live document, modelled
//! here by [`document::LiveNode`].  Lifecycle and interaction events are
//! reported through [`document::Context`] as an ordered sequence of
//! messages; delivering them over a real channel is the embedding's job.
//!
//! The template compiler in [`markup`] and [`command`] turns pre-parsed
//! tag-based markup and annotated asynchronous functions into the
//! constructor calls and wrappers that a build step emits as source text.

pub mod command;
pub mod document;
pub mod html;
pub mod laws;
pub mod markup;
pub mod patch;
pub mod render;
