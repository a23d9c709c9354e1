//! Escape-time fractal rendering engine.
//!
//! The engine maps pixels of an image into the complex plane, runs an
//! escape-time iteration kernel (Mandelbrot, Julia, or Burning Ship) on each
//! point, colors each pixel by its escape time, and can lay out a zoom
//! animation as a sequence of per-frame configurations.
//!
//! All arithmetic is fixed-point (see [`fixed`]), so every numeric step of the
//! engine has an exact, machine-checked description.

pub mod color;

pub mod fixed;

pub mod frac;

pub mod zoom;
