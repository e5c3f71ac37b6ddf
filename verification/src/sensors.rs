//! The latest calibrated reading of each analogue channel.
//!
//! Readings arrive whenever a conversion run completes.  The corrections
//! read what was stored last and never wait for a fresh sample.

use vstd::prelude::*;

verus! {

/// Number of channels in one conversion run.
pub const CHANNELS: usize = 6;

/// The analogue channels, named by what they measure.
#[derive(Clone, Copy, Debug, PartialEq, Eq, Structural)]
pub enum SensorTypes {
    TPS,
    CoolantTemp,
    AirTemp,
    MAP,
    ExternalLambda,
    BatteryVoltage,
}

/// The reading stored last for each channel, in millivolts.
#[derive(Clone, Copy, Debug, PartialEq, Eq, Structural)]
pub struct SensorValues {
    pub tps: u16,
    pub clt: u16,
    pub iat: u16,
    pub map: u16,
    pub o2: u16,
    pub vbatt: u16,
}

/// The channel converted at a position of the run: throttle, coolant,
/// intake air, manifold pressure, lambda, battery.
pub open spec fn channel_at(index: int) -> Option<SensorTypes> {
    if index == 0 {
        Some(SensorTypes::TPS)
    } else if index == 1 {
        Some(SensorTypes::CoolantTemp)
    } else if index == 2 {
        Some(SensorTypes::AirTemp)
    } else if index == 3 {
        Some(SensorTypes::MAP)
    } else if index == 4 {
        Some(SensorTypes::ExternalLambda)
    } else if index == 5 {
        Some(SensorTypes::BatteryVoltage)
    } else {
        None
    }
}

/// The channel converted at a position of the run, or `None` for a position
/// outside the run.
pub fn sequence_channel(index: usize) -> (channel: Option<SensorTypes>)
    ensures
        channel == channel_at(index as int),
{
    if index == 0 {
        Some(SensorTypes::TPS)
    } else if index == 1 {
        Some(SensorTypes::CoolantTemp)
    } else if index == 2 {
        Some(SensorTypes::AirTemp)
    } else if index == 3 {
        Some(SensorTypes::MAP)
    } else if index == 4 {
        Some(SensorTypes::ExternalLambda)
    } else if index == 5 {
        Some(SensorTypes::BatteryVoltage)
    } else {
        None
    }
}

impl SensorValues {
    /// The reading stored for a channel.
    pub open spec fn value(&self, channel: SensorTypes) -> u16 {
        match channel {
            SensorTypes::TPS => self.tps,
            SensorTypes::CoolantTemp => self.clt,
            SensorTypes::AirTemp => self.iat,
            SensorTypes::MAP => self.map,
            SensorTypes::ExternalLambda => self.o2,
            SensorTypes::BatteryVoltage => self.vbatt,
        }
    }

    /// Every channel reads zero until its first sample arrives.
    pub fn new() -> (values: SensorValues)
        ensures
            forall|c: SensorTypes| values.value(c) == 0,
    {
        SensorValues { tps: 0, clt: 0, iat: 0, map: 0, o2: 0, vbatt: 0 }
    }

    /// The reading stored last for a channel.
    pub fn get(&self, channel: SensorTypes) -> (millivolts: u16)
        ensures
            millivolts == self.value(channel),
    {
        match channel {
            SensorTypes::TPS => self.tps,
            SensorTypes::CoolantTemp => self.clt,
            SensorTypes::AirTemp => self.iat,
            SensorTypes::MAP => self.map,
            SensorTypes::ExternalLambda => self.o2,
            SensorTypes::BatteryVoltage => self.vbatt,
        }
    }

    /// Stores a new reading for one channel and leaves the others alone.
    pub fn update(&mut self, millivolts: u16, channel: SensorTypes)
        ensures
            final(self).value(channel) == millivolts,
            forall|c: SensorTypes| c != channel ==> final(self).value(c) == old(self).value(c),
    {
        match channel {
            SensorTypes::TPS => {
                self.tps = millivolts;
            },
            SensorTypes::CoolantTemp => {
                self.clt = millivolts;
            },
            SensorTypes::AirTemp => {
                self.iat = millivolts;
            },
            SensorTypes::MAP => {
                self.map = millivolts;
            },
            SensorTypes::ExternalLambda => {
                self.o2 = millivolts;
            },
            SensorTypes::BatteryVoltage => {
                self.vbatt = millivolts;
            },
        }
    }

    /// Stores the readings of one complete conversion run, each under the
    /// channel of its position.
    pub fn update_all(&mut self, millivolts: &[u16; 6])
        ensures
            forall|i: int|
                0 <= i < CHANNELS ==> final(self).value(
                    #[trigger] channel_at(i).unwrap(),
                ) == millivolts@[i],
    {
        let mut i: usize = 0;
        while i < CHANNELS
            invariant
                i <= CHANNELS,
                forall|k: int|
                    0 <= k < i ==> self.value(#[trigger] channel_at(k).unwrap()) == millivolts@[k],
            decreases CHANNELS - i,
        {
            match sequence_channel(i) {
                Some(channel) => {
                    self.update(millivolts[i], channel);
                },
                None => {},
            }
            i += 1;
        }
    }
}

} // verus!
