//! Verified core of `tarah`, a small helper around pacman and the AUR.
//!
//! The library holds what the program decides: how command-line
//! operations are read, how package lookups are classified, how the
//! `pacman -Qem` listing is read, where the build cache lives and how an
//! AUR build proceeds from one step to the next.  Running commands,
//! talking to the network and printing stay with the caller.

pub mod text;
pub mod ops;
pub mod json;
pub mod aur;
pub mod paths;
pub mod install;
pub mod sync;
pub mod update;
