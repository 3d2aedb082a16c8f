pub mod bounded;
pub mod query;
pub mod schedule;
pub mod world;

pub use query::{No, Query, QueryFilter};
pub use schedule::{Action, Delta, Stage};
pub use world::{AnyComponent, App, Component, Entity, Moment};
