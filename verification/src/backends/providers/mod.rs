//! One provider per package manager or ecosystem: the parsing of each
//! tool's output and the construction of its requests.
pub mod apk;
pub mod apt;
pub mod brew;
pub mod cargo;
pub mod pacman;
pub mod scoop;
pub mod http;
pub mod npm;
pub mod aur;
pub mod pip;
