use vstd::prelude::*;

use crate::normalize::SampleEncoding;

verus! {

/// The sample formats a capture device may advertise.
#[derive(Clone, Copy, Debug, PartialEq, Eq, Structural)]
pub enum NativeFormat {
    I8,
    I16,
    I32,
    I64,
    U8,
    U16,
    U32,
    U64,
    F32,
    F64,
}

/// Startup failures of audio capture; each is fatal to the process.
#[derive(Clone, Copy, Debug, PartialEq, Eq, Structural)]
pub enum CaptureError {
    /// There is no input device.
    DeviceUnavailable,
    /// No advertised configuration satisfies the capture policy.
    NoMatchingConfig,
    /// The negotiated sample format is none that the normalizer reads.
    UnsupportedEncoding,
}

/// A concrete configuration a device proposes, such as its default one.
#[derive(Clone, Copy, Debug, PartialEq, Eq, Structural)]
pub struct DeviceConfig {
    pub sample_rate: u32,
    pub channel_count: u16,
    pub format: NativeFormat,
}

/// A range of sample rates a device supports for one channel count and format.
#[derive(Clone, Copy, Debug, PartialEq, Eq, Structural)]
pub struct ConfigRange {
    pub channel_count: u16,
    pub min_rate: u32,
    pub max_rate: u32,
    pub format: NativeFormat,
}

/// The configuration a capture session runs with.
#[derive(Clone, Copy, Debug, PartialEq, Eq, Structural)]
pub struct StreamConfig {
    pub sample_rate: u32,
    pub channel_count: u16,
    pub encoding: SampleEncoding,
}

/// The encoding the normalizer reads for a native format, if any.
pub open spec fn encoding_for(f: NativeFormat) -> Option<SampleEncoding> {
    match f {
        NativeFormat::I16 => Some(SampleEncoding::Signed16),
        NativeFormat::U16 => Some(SampleEncoding::Unsigned16),
        NativeFormat::F32 => Some(SampleEncoding::Float32),
        _ => None,
    }
}

/// A range that can run at `rate` with a readable encoding.
pub open spec fn fits(c: ConfigRange, rate: u32) -> bool {
    &&& c.channel_count >= 1
    &&& rate >= 1
    &&& c.min_rate <= rate <= c.max_rate
    &&& encoding_for(c.format) is Some
}

pub open spec fn config_from_range(c: ConfigRange, rate: u32) -> StreamConfig {
    StreamConfig {
        sample_rate: rate,
        channel_count: c.channel_count,
        encoding: encoding_for(c.format)->0,
    }
}

/// Which encoding the normalizer reads for `format`.
pub fn encoding_of(format: NativeFormat) -> (r: Result<SampleEncoding, CaptureError>)
    ensures
        match encoding_for(format) {
            Some(e) => r == Ok::<SampleEncoding, CaptureError>(e),
            None => r == Err::<SampleEncoding, CaptureError>(CaptureError::UnsupportedEncoding),
        },
{
    match format {
        NativeFormat::I16 => Ok(SampleEncoding::Signed16),
        NativeFormat::U16 => Ok(SampleEncoding::Unsigned16),
        NativeFormat::F32 => Ok(SampleEncoding::Float32),
        _ => Err(CaptureError::UnsupportedEncoding),
    }
}

/// Negotiates the capture configuration. `default` is the device's default
/// configuration, absent when there is no input device; `supported` lists
/// the device's advertised ranges in its own order. Without a forced rate the
/// device's default is taken as it is; with one, the first advertised range
/// that runs at that rate with a readable encoding.
pub fn negotiate(
    default: Option<DeviceConfig>,
    supported: &Vec<ConfigRange>,
    forced_rate: Option<u32>,
) -> (r: Result<StreamConfig, CaptureError>)
    ensures
        match default {
            None => r == Err::<StreamConfig, CaptureError>(CaptureError::DeviceUnavailable),
            Some(d) => match forced_rate {
                None => if d.sample_rate == 0 || d.channel_count == 0 {
                    r == Err::<StreamConfig, CaptureError>(CaptureError::NoMatchingConfig)
                } else {
                    match encoding_for(d.format) {
                        Some(e) => r == Ok::<StreamConfig, CaptureError>(
                            StreamConfig {
                                sample_rate: d.sample_rate,
                                channel_count: d.channel_count,
                                encoding: e,
                            },
                        ),
                        None => r == Err::<StreamConfig, CaptureError>(
                            CaptureError::UnsupportedEncoding,
                        ),
                    }
                },
                Some(rate) => {
                    &&& (r is Err <==> forall|i: int|
                        0 <= i < supported@.len() ==> !fits(#[trigger] supported@[i], rate))
                    &&& (r is Err ==> r == Err::<StreamConfig, CaptureError>(
                        CaptureError::NoMatchingConfig,
                    ))
                    &&& (r matches Ok(c) ==> exists|i: int|
                        0 <= i < supported@.len() && fits(#[trigger] supported@[i], rate) && c
                            == config_from_range(supported@[i], rate) && forall|k: int|
                            0 <= k < i ==> !fits(#[trigger] supported@[k], rate))
                },
            },
        },
{
    let d = match default {
        None => return Err(CaptureError::DeviceUnavailable),
        Some(d) => d,
    };
    match forced_rate {
        None => {
            if d.sample_rate == 0 || d.channel_count == 0 {
                return Err(CaptureError::NoMatchingConfig);
            }
            let encoding = encoding_of(d.format)?;
            Ok(StreamConfig { sample_rate: d.sample_rate, channel_count: d.channel_count, encoding })
        },
        Some(rate) => {
            let mut i: usize = 0;
            while i < supported.len()
                invariant
                    default == Some(d),
                    forced_rate == Some(rate),
                    i <= supported@.len(),
                    forall|k: int| 0 <= k < i ==> !fits(#[trigger] supported@[k], rate),
                decreases supported@.len() - i,
            {
                let c = supported[i];
                if c.channel_count >= 1 && rate >= 1 && c.min_rate <= rate && rate <= c.max_rate {
                    match encoding_of(c.format) {
                        Ok(encoding) => {
                            assert(fits(supported@[i as int], rate));
                            return Ok(
                                StreamConfig { sample_rate: rate, channel_count: c.channel_count, encoding },
                            );
                        },
                        Err(_) => {},
                    }
                }
                i = i + 1;
            }
            Err(CaptureError::NoMatchingConfig)
        },
    }
}

} // verus!
