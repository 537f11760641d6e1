// SPDX-License-Identifier: GPL-2.0-or-later
//! What tells one video feed from another: which picture it carries, how
//! its frames are made and how they leave the plugin.

use vstd::prelude::*;

verus! {

/// The picture a feed carries.
#[derive(Clone, Copy, PartialEq, Eq, Structural, Debug)]
pub enum Which {
    Preview,
    Program,
}

/// How frames leave the plugin.
#[derive(Clone, Copy, PartialEq, Eq, Structural, Debug)]
pub enum Transport {
    /// A memory-mapped ring.
    Shm,
    /// An NDI sender.
    Ndi,
}

/// Where frames come from.
#[derive(Clone, Copy, PartialEq, Eq, Structural, Debug)]
pub enum Path {
    /// A view and a mix of the feed's own: rendered and scaled on the GPU.
    View,
    /// A raw callback on the main mix: scaled on the CPU.
    Raw,
}

pub open spec fn transport_label(transport: Transport) -> Seq<char> {
    match transport {
        Transport::Shm => "shm"@,
        Transport::Ndi => "ndi"@,
    }
}

pub open spec fn path_label(path: Path) -> Seq<char> {
    match path {
        Path::View => "view"@,
        Path::Raw => "raw"@,
    }
}

pub open spec fn key_of(which: Which) -> Seq<char> {
    match which {
        Which::Preview => "preview"@,
        Which::Program => "program"@,
    }
}

pub open spec fn sender_name(which: Which) -> Seq<char> {
    match which {
        Which::Preview => "FrameSW Preview"@,
        Which::Program => "FrameSW Program"@,
    }
}

impl Transport {
    pub fn label(self) -> (label: &'static str)
        ensures
            label@ == transport_label(self),
            ({
                let transport = self;
                label@ == (match transport {
                    Transport::Shm => "shm"@,
                    Transport::Ndi => "ndi"@,
                })
            }),
    {
        match self {
            Transport::Shm => "shm",
            Transport::Ndi => "ndi",
        }
    }
}

impl Path {
    pub fn label(self) -> (label: &'static str)
        ensures
            label@ == path_label(self),
            ({
                let path = self;
                label@ == (match path {
                    Path::View => "view"@,
                    Path::Raw => "raw"@,
                })
            }),
    {
        match self {
            Path::View => "view",
            Path::Raw => "raw",
        }
    }
}

/// The feed's part of its ring's file name, and of its keys in a status.
pub fn feed_key(which: Which) -> (key: &'static str)
    ensures
        key@ == key_of(which),
        key@ == (match which {
            Which::Preview => "preview"@,
            Which::Program => "program"@,
        }),
{
    match which {
        Which::Preview => "preview",
        Which::Program => "program",
    }
}

/// The name under which a feed is offered over NDI.
pub fn ndi_name(which: Which) -> (name: &'static str)
    ensures
        name@ == sender_name(which),
        name@ == (match which {
            Which::Preview => "FrameSW Preview"@,
            Which::Program => "FrameSW Program"@,
        }),
{
    match which {
        Which::Preview => "FrameSW Preview",
        Which::Program => "FrameSW Program",
    }
}

/// The name of the output that makes a feed's mix deliver frames.
pub fn output_name(which: Which) -> (name: &'static str)
    ensures
        name@ == sender_name(which) + " feed"@,
{
    proof {
        reveal_strlit(" feed");
        reveal_strlit("FrameSW Preview");
        reveal_strlit("FrameSW Preview feed");
        reveal_strlit("FrameSW Program");
        reveal_strlit("FrameSW Program feed");
        assert("FrameSW Preview feed"@ =~= "FrameSW Preview"@ + " feed"@);
        assert("FrameSW Program feed"@ =~= "FrameSW Program"@ + " feed"@);
    }
    match which {
        Which::Preview => "FrameSW Preview feed",
        Which::Program => "FrameSW Program feed",
    }
}

/// A time in units of 100 ns since the Unix epoch, from nanoseconds since
/// then; 0 for a clock that stands before it.
pub fn now_100ns(nanos: Option<u128>) -> (time: i64)
    ensures
        time == (match nanos {
            Some(n) => (n / 100) as i64,
            None => 0i64,
        }),
{
    match nanos {
        Some(n) => (n / 100) as i64,
        None => 0,
    }
}

} // verus!
