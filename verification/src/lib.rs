//! Resolution-and-conversion pipeline for live-comment subtitles: classifies
//! a media URL into a canonical video identifier, converts between the
//! legacy numeric and canonical alphanumeric identifier forms, reconciles
//! stale subtitle tracks, names the scoped subtitle artifact, and plans the
//! converter invocation and install steps of one run.

pub mod artifact;
pub mod classify;
pub mod codec;
pub mod convert;
pub mod pipeline;
pub mod reconcile;
pub mod urlmodel;
