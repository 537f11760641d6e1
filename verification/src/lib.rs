// SPDX-License-Identifier: GPL-2.0-or-later
//! The decisions and data structures of the FrameSW companion plugin.

pub mod audio_mix;
pub mod audio_tap;
pub mod config;
pub mod feed;
pub mod feed_request;
pub mod group;
pub mod input_probe;
pub mod metering;
pub mod monitoring;
pub mod named;
pub mod ndi;
pub mod obs_data;
pub mod plan;
pub mod platform;
pub mod probe_table;
pub mod profile;
pub mod response;
pub mod role_tap;
pub mod scenes;
pub mod shm_ring;
pub mod showing;
pub mod stream_probe;
pub mod text;
pub mod vendor;
pub mod video_frames;
pub mod video_tap;
pub mod warm;
