//! Verified core of a desktop live-wallpaper manager.
pub mod text;
pub mod paths;
pub mod media;
pub mod db;
pub mod history;
pub mod mp4;
pub mod weburl;
pub mod html;
pub mod motionbgs;
pub mod downloads;
pub mod cache;
pub mod wallhaven;
pub mod settings;
pub mod auto_pause;
pub mod display;
pub mod runtime;
pub mod lifecycle;
pub mod library;
pub mod storage;
pub mod importing;
pub mod import_scan;
pub mod organization;
pub mod tray;
pub mod diagnostic;
pub mod shell;
pub mod desktop_wallpaper;
pub mod video;
