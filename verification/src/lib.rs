//! Temporal upscaling with FSR 3 on wgpu: every decision the upscaler makes,
//! with its contract.
//!
//! The library plans and never touches a GPU. A [`context::FsrContext`] holds
//! the options for every view, a [`view::FsrView`] what one camera keeps from
//! frame to frame. [`context::FsrContext::dispatch`] checks a frame's
//! parameters, moves the view on, and returns the commands that the frame runs.
//!
//! - [`format_profile`], [`resources`] and [`pass`] fix the textures and what
//!   each pass binds.
//! - [`validation`], [`constants`], [`spd`], [`rcas`], [`clear_buffer`],
//!   [`jitter`] and [`memory`] hold the rules and the numbers.
//! - [`frame_laws`] states what holds of every frame.
//! - [`shader_build`] builds the shaders that the passes run.
//!
//! Numbers in single precision appear as their bits: see [`float`].

pub mod float;
pub mod text;

pub mod flags;
pub mod texture;
pub mod format_profile;
pub mod frame;
pub mod info;
pub mod resources;
pub mod pass;

pub mod jitter;
pub mod halton;
pub mod lanczos2;
pub mod spd;
pub mod rcas;
pub mod constants;
pub mod validation;
pub mod clear_buffer;
pub mod memory;

pub mod view;
pub mod context;
pub mod dispatch;
pub mod frame_laws;

pub mod shader_build;
