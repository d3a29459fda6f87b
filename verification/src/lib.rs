//! The library behind `who-me`, a keyboard-first terminal dashboard of identities,
//! a daily calendar with mood ratings, statistics, and judgements.
pub mod date;
pub mod text;
pub mod text_format;
pub mod lists;
pub mod model;
pub mod sync;
pub mod input;
pub mod app;
pub mod navigation;
pub mod editing;
pub mod keys;
pub mod cli;
pub mod storage;
pub mod layout;
pub mod view;
pub mod theme;
pub mod session;
pub mod cards;
pub mod worker;
