//! Verified core of the QStudio quant workbench: the QQL query languages
//! (lexers and parsers), calculation ordering, the trade scan and the
//! alignment of timestamped series, message envelopes, and the small data
//! structures of the desktop client and the server.

pub mod text;
pub mod keyed;
pub mod numbers;
pub mod busbar;
pub mod tcp;
pub mod events;
pub mod ui;
pub mod theme;
pub mod trading;
pub mod alignment;
pub mod windows;
pub mod files;
pub mod dispatch;
pub mod folder_tree;
pub mod engine;
pub mod scan;
pub mod model_query;
pub mod frame_query;
