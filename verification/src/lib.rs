//! Breadcrumb navigation for a code editor.

pub mod bar_laws;
pub mod copy_laws;
pub mod delegate;
pub mod directory;
pub mod entries;
pub mod filename_laws;
pub mod layout;
pub mod layout_laws;
pub mod listing;
pub mod listing_laws;
pub mod measure;
pub mod menu_laws;
pub mod name_laws;
pub mod outline;
pub mod paint;
pub mod paint_laws;
pub mod path;
pub mod path_style;
pub mod picker;
pub mod rel_path;
pub mod render;
pub mod row;
pub mod segments;
pub mod session;
pub mod session_laws;
pub mod settings;
pub mod sort;
pub mod state;
pub mod status;
pub mod strings;
pub mod symbol;
pub mod target;
pub mod text;
pub mod toolbar;
pub mod trail;
pub mod trail_laws;
pub mod view_laws;
pub mod width_laws;
