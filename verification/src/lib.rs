//! The verified core of a GPU-accelerated terminal emulator.

pub mod atlas;
pub mod bench;
pub mod bench_laws;
pub mod charmap;
pub mod clipboard;
pub mod conf;
pub mod config;
pub mod copy_laws;
pub mod damage;
pub mod font;
pub mod font_files;
pub mod font_laws;
pub mod frame;
pub mod frame_laws;
pub mod grid;
pub mod grid_laws;
pub mod input_laws;
pub mod key_laws;
pub mod keys;
pub mod library_laws;
pub mod motion;
pub mod motion_laws;
pub mod mouse;
pub mod offers;
pub mod overlay;
pub mod pacing;
pub mod pacing_laws;
pub mod picker;
pub mod picker_laws;
pub mod pointer;
pub mod prepare;
pub mod reader;
pub mod request_laws;
pub mod screen_laws;
pub mod search;
pub mod search_laws;
pub mod selection;
pub mod session;
pub mod settings_laws;
pub mod sgr;
pub mod start_laws;
pub mod startup;
pub mod term;
pub mod term_laws;
pub mod text;
pub mod text_laws;
pub mod theme;
pub mod theme_lib;
pub mod vi;
pub mod vi_bind;
pub mod vi_keys;
pub mod vi_laws;
pub mod vi_search;
pub mod view_laws;
pub mod vt;
pub mod window_laws;
pub mod yank;
