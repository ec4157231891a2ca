//! Presentation and control logic of a terminal dashboard for container
//! images: snapshot building, list rows, framed dialogs and key handling.
pub mod border;
pub mod dashboard;
pub mod dialog;
pub mod listview;
pub mod paint;
pub mod size;
pub mod snapshot;
pub mod text;
