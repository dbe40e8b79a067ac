//! Audio domain: the sink state the volume widget mirrors, the icon bands
//! it selects, and the mute write-back command it issues.

use vstd::prelude::*;
use crate::text::{dec_rep, u64_to_string};
use crate::valid_percent;

verus! {

/// The volume icon bands the widget can display: mute overrides the level;
/// otherwise the level bands at 30 and 70 percent.
#[derive(Clone, Copy, Debug, PartialEq, Eq, Structural)]
pub enum VolumeIcon {
    Mute,
    Low,
    Medium,
    High,
}

/// Which icon the sink state selects.
pub open spec fn spec_volume_icon(muted: bool, volume: u8) -> VolumeIcon {
    if muted {
        VolumeIcon::Mute
    } else if volume < 30 {
        VolumeIcon::Low
    } else if volume < 70 {
        VolumeIcon::Medium
    } else {
        VolumeIcon::High
    }
}

/// The asset path of each volume icon band.
pub open spec fn spec_volume_asset(icon: VolumeIcon) -> Seq<char> {
    match icon {
        VolumeIcon::Mute => "icons/volume-mute.svg"@,
        VolumeIcon::Low => "icons/volume-low.svg"@,
        VolumeIcon::Medium => "icons/volume-medium.svg"@,
        VolumeIcon::High => "icons/volume-high.svg"@,
    }
}

impl VolumeIcon {
    /// The asset path the renderer loads for this band.
    pub fn asset(self) -> (r: &'static str)
        ensures
            r@ == spec_volume_asset(self),
    {
        match self {
            VolumeIcon::Mute => "icons/volume-mute.svg",
            VolumeIcon::Low => "icons/volume-low.svg",
            VolumeIcon::Medium => "icons/volume-medium.svg",
            VolumeIcon::High => "icons/volume-high.svg",
        }
    }
}

/// A mute write-back: the command the widget hands to the audio client,
/// fire and forget.
#[derive(Clone, Debug, PartialEq, Eq)]
pub struct MuteCommand {
    pub sink: String,
    pub muted: bool,
}

/// Volume widget state: the last sink state received from the audio
/// service, volume in whole percent.
#[derive(Debug)]
pub struct Volume {
    pub volume: u8,
    pub muted: bool,
    pub sink_name: String,
}

impl Volume {
    /// The state shown before the first sink update arrives: the slider's
    /// default level on the default sink.
    pub fn new() -> (r: Self)
        ensures
            r.volume == 50,
            !r.muted,
            r.sink_name@ == "default"@,
    {
        Volume { volume: 50, muted: false, sink_name: String::from_str("default") }
    }

    /// Which icon the widget currently shows.
    pub fn icon(&self) -> (r: VolumeIcon)
        ensures
            r == spec_volume_icon(self.muted, self.volume),
    {
        if self.muted {
            VolumeIcon::Mute
        } else if self.volume < 30 {
            VolumeIcon::Low
        } else if self.volume < 70 {
            VolumeIcon::Medium
        } else {
            VolumeIcon::High
        }
    }

    /// The numeric level label next to the slider.
    pub fn label(&self) -> (r: String)
        ensures
            r@ == dec_rep(self.volume as nat),
    {
        u64_to_string(self.volume as u64)
    }

    /// The audio service reported the current sink: level, mute flag and
    /// the sink's numeric index, which becomes the sink name for later
    /// write-backs.
    pub fn apply_sink_update(&mut self, volume: u8, muted: bool, sink_index: u64)
        requires
            valid_percent(volume),
        ensures
            final(self).volume == volume,
            final(self).muted == muted,
            final(self).sink_name@ == dec_rep(sink_index as nat),
    {
        self.volume = volume;
        self.muted = muted;
        self.sink_name = u64_to_string(sink_index);
    }

    /// The user clicked the icon: the mute flag flips and the matching
    /// command for the current sink is handed back to be sent.
    pub fn toggle_mute(&mut self) -> (cmd: MuteCommand)
        ensures
            final(self).muted == !old(self).muted,
            final(self).volume == old(self).volume,
            final(self).sink_name == old(self).sink_name,
            cmd.muted == !old(self).muted,
            cmd.sink@ == old(self).sink_name@,
    {
        self.muted = !self.muted;
        MuteCommand { sink: self.sink_name.clone(), muted: self.muted }
    }
}

} // verus!
