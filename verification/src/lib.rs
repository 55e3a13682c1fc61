//! Backend of a quick-launcher: items arrive from provider processes as
//! tab-delimited lines, are ranked against a live query, and are acted on
//! through a stack of navigation frames.

pub mod actions;
pub mod config;
pub mod counter;
pub mod fuzzy;
pub mod item;
pub mod search;
pub mod spell;
pub mod state;
pub mod strutil;
pub mod template;

pub use actions::ActionPlan;
pub use config::{SearchConfig, SearchMode, SearchScheme};
pub use counter::{Counter, CounterChanged};
pub use item::Item;
pub use spell::{Action, Spell};
pub use state::{AppInner, AppState, AppStatus, EscapeResult, Frame, StateSnapshot};
pub use template::TemplateError;
