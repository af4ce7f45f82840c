//! Verified core of the clue panel and window logic of a logic-puzzle game:
//! clue description templates (building and parsing), what each clue cell
//! shows, the clue panel's display state, and the window's button decisions.

pub mod model;
pub mod template;
pub mod description;
pub mod clue_ui;
pub mod window;
