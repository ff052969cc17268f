//! Verified core of an optical-network topology viewer.
//!
//! A network is a list of nodes, a list of links and a log of events that
//! allocate, reallocate and release services. For a point in time the core
//! replays the log into the snapshot of the services that exist
//! ([`scene::defrag_event`]), resolves the selection of a service into the
//! services to highlight and the time to look at ([`highlight`]), and plans
//! which lines to draw for the snapshot ([`layout`]): the cone of each link
//! and, inside it, one lane for each wavelength channel ([`lanes`]).
//!
//! Times and coordinates are single-precision numbers that the core compares
//! but never computes with ([`single`]); turning a plan into coordinates and
//! colours is left to the renderer.
pub mod highlight;
pub mod lanes;
pub mod layout;
pub mod order;
pub mod scene;
pub mod single;
pub mod text;
