//! A catalog of engineering parts organised as a multi-level bill of
//! materials: each item may be made of other items in given quantities, and
//! passes from design through release to obsolescence under rules that say
//! when a step is legal and how obsolescence spreads to the assemblies that
//! use a part.
//!
//! The catalog itself is in [`item`], [`tables`], [`database`] and [`store`]:
//! the tables as plain values with their schema constraints, the persistence
//! store that keeps them, and the domain store that decides what is legal.
//! [`rules`], [`explosion`], [`search`] and [`cycles`] state what the
//! operations compute, and [`laws`] proves what holds of them whatever the
//! catalog stores.
//!
//! Around the catalog stand the front ends, as far as they compute: the
//! command languages in [`repl`], [`cli`] and [`cmdline`], the lines of the
//! shell in [`shell`], the terminal front end in [`tui`], and what travels to
//! and from the service in [`api`] and [`ui`].

pub mod api;
pub mod children;
pub mod cli;
pub mod cmdline;
pub mod cycles;
pub mod database;
pub mod error;
pub mod explosion;
pub mod grammar;
pub mod item;
pub mod laws;
mod marks;
pub mod repl;
pub mod report;
pub mod rules;
pub mod search;
pub mod shell;
pub mod store;
pub mod tables;
pub mod text;
pub mod tui;
pub mod ui;
mod walk;

pub use children::{Child, ChildIter, ChildRef, Children};
pub use database::{ChildLink, Database, Item, ItemMaturity, ItemView, Strategy, Tables};
pub use error::{Error, StorageFault};
pub use report::{Report, ReportIter};
pub use store::{simple_8digits_pn_provider, Store};
