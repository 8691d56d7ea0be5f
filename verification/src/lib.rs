//! A minimal 2D grid game core: a player token moving on a bounded grid
//! among static obstacles, transient timed popups, and a screen state
//! machine dispatching draw/update/input to the active screen.

pub mod assets;
pub mod game;
pub mod popup;
pub mod screen;
