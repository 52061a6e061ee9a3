//! Client-side logic: key buttons, screen metrics, sprites and the list of
//! temporary entities.

pub mod input;
pub mod collections;
pub mod screen;
pub mod sprite;
pub mod efx;
