//! A 2D raycasting renderer kernel.
//!
//! For each of a sweep of camera-relative rays the library finds the nearest
//! axis-aligned unit-cell obstacle along the ray, converts the hit distance
//! into an on-screen column height with perspective correction, shades the
//! column by depth, and composes the result into an in-memory RGB pixel
//! buffer. Coordinates are held in 16.24 fixed point and intersection
//! distances as exact rationals, so every stage of the pipeline carries an
//! exact contract. The host is left with only trigonometry, windowing and
//! image encoding.

pub mod rat;
pub mod geom;
pub mod scene;
pub mod project;
pub mod shade;
pub mod image;
pub mod render;
pub mod camera;
