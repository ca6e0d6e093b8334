//! Input channel and amplification of the converter.

use vstd::prelude::*;

verus! {

/// The input channel and gain that the converter uses for a conversion.
///
/// The converter has no register to write: it takes the setting for the next
/// conversion from the number of clock pulses that follow the 24 data bits of
/// the current one.
#[derive(Clone, Copy, Debug, PartialEq, Eq, Structural)]
pub enum GainChannel {
    /// Channel A, gain 128.
    ChannelA128,
    /// Channel B, gain 32.
    ChannelB32,
    /// Channel A, gain 64.
    ChannelA64,
}

impl GainChannel {
    /// The table of the converter: how many clock pulses after the data bits
    /// select this setting.
    pub open spec fn pulses(self) -> nat {
        match self {
            GainChannel::ChannelA128 => 1,
            GainChannel::ChannelB32 => 2,
            GainChannel::ChannelA64 => 3,
        }
    }

    /// Number of clock pulses to issue after the data bits so that the next
    /// conversion uses this setting.
    pub fn extra_pulses(self) -> (count: u8)
        ensures
            count == self.pulses(),
            1 <= count <= 3,
    {
        match self {
            GainChannel::ChannelA128 => 1,
            GainChannel::ChannelB32 => 2,
            GainChannel::ChannelA64 => 3,
        }
    }

    /// The setting that `count` pulses after the data bits select, if any.
    pub fn from_extra_pulses(count: u8) -> (setting: Option<GainChannel>)
        ensures
            match setting {
                Some(g) => g.pulses() == count,
                None => count == 0 || count > 3,
            },
    {
        if count == 1 {
            Some(GainChannel::ChannelA128)
        } else if count == 2 {
            Some(GainChannel::ChannelB32)
        } else if count == 3 {
            Some(GainChannel::ChannelA64)
        } else {
            None
        }
    }
}

impl Default for GainChannel {
    /// The setting the converter itself starts with: channel A, gain 128.
    fn default() -> (setting: GainChannel)
        ensures
            setting == GainChannel::ChannelA128,
    {
        GainChannel::ChannelA128
    }
}

/// Different settings are selected by different pulse counts.
pub proof fn lemma_pulses_distinguish(a: GainChannel, b: GainChannel)
    ensures
        a.pulses() == b.pulses() <==> a == b,
{
}

} // verus!
