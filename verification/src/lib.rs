//! A generator of deterministic, tile-based square worlds.
//!
//! A world is a square grid of tiles, each with a terrain, a content and an
//! elevation, together with the cell where a robot starts. It is either a
//! landscape, classified from a field of heights and then given rivers, lava
//! lakes and streets, or a maze, carved into a grid of walls. Contents are
//! placed on either, cell by cell or in batches.
//!
//! A generator is configured through
//! [`OxAgWorldGeneratorBuilder`](world_generator::world_generator_builder::OxAgWorldGeneratorBuilder).
//! The making of a world is a [`Generation`](world_generator::Generation):
//! it goes on step by step, and each step either ends it or asks for a field
//! of heights, which the caller makes from noise and hands to the next step.
//! Every draw comes from one stream of pseudorandom numbers, fixed by the
//! seed of the generator.
//!
//! Levels, fractions, scores and multipliers are fixed-point numbers:
//! integers that count millionths, so that `1_000_000` stands for one whole.

pub mod utils;
pub mod world;
pub mod world_generator;
