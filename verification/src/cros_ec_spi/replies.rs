//! What the reply to each command comes to. A command that failed passes its
//! error on.

use vstd::prelude::*;

use super::protocol::{
    parse_features, parse_motion_fifo_data, parse_motion_fifo_info,
    parse_motion_fifo_interrupt_enabled, parse_motion_i32_response, parse_motion_sensor_data,
    parse_motion_sensor_info_v1, parse_motion_sensor_info_v3, parse_motion_sensor_summary,
    CrosEcError, CrosEcFeatures, CrosEcMotionFifoData, CrosEcMotionFifoInfo,
    CrosEcMotionSensorData, CrosEcMotionSensorInfo, CrosEcMotionSensorSummary,
    EC_FEATURE_MOTION_SENSE, EC_FEATURE_MOTION_SENSE_FIFO,
    EC_FEATURE_MOTION_SENSE_TIGHT_TIMESTAMPS, EC_RESULT_INVALID_VERSION,
};
use super::{parse_display_backlight_percent, parse_empty_reply, wants_legacy_info, CrosEcSpi};

verus! {

impl CrosEcSpi {
    /// The features in a reply.
    pub fn features(reply: Result<&[u8], CrosEcError>) -> (r: Result<CrosEcFeatures, CrosEcError>)
        ensures
            match reply {
                Ok(response) => call_ensures(parse_features, (response,), r),
                Err(e) => r == Err::<CrosEcFeatures, CrosEcError>(e),
            },
    {
        match reply {
            Ok(response) => parse_features(response),
            Err(e) => Err(e),
        }
    }

    /// Whether motion sensors are among the features of a reply.
    pub fn supports_motion_sense(reply: Result<&[u8], CrosEcError>) -> (r: Result<bool, CrosEcError>)
        ensures
            match reply {
                Ok(response) => match r {
                    Ok(supported) => exists|features: CrosEcFeatures|
                        #[trigger] call_ensures(
                            parse_features,
                            (response,),
                            Ok::<CrosEcFeatures, CrosEcError>(features),
                        ) && supported == features.advertises(EC_FEATURE_MOTION_SENSE),
                    Err(e) => call_ensures(
                        parse_features,
                        (response,),
                        Err::<CrosEcFeatures, CrosEcError>(e),
                    ),
                },
                Err(e) => r == Err::<bool, CrosEcError>(e),
            },
    {
        match Self::features(reply) {
            Ok(features) => Ok(features.supports_motion_sense()),
            Err(e) => Err(e),
        }
    }

    /// Whether the motion FIFO is among the features of a reply.
    pub fn supports_motion_sense_fifo(reply: Result<&[u8], CrosEcError>) -> (r: Result<bool, CrosEcError>)
        ensures
            match reply {
                Ok(response) => match r {
                    Ok(supported) => exists|features: CrosEcFeatures|
                        #[trigger] call_ensures(
                            parse_features,
                            (response,),
                            Ok::<CrosEcFeatures, CrosEcError>(features),
                        ) && supported == features.advertises(EC_FEATURE_MOTION_SENSE_FIFO),
                    Err(e) => call_ensures(
                        parse_features,
                        (response,),
                        Err::<CrosEcFeatures, CrosEcError>(e),
                    ),
                },
                Err(e) => r == Err::<bool, CrosEcError>(e),
            },
    {
        match Self::features(reply) {
            Ok(features) => Ok(features.supports_motion_sense_fifo()),
            Err(e) => Err(e),
        }
    }

    /// Whether tight timestamps are among the features of a reply.
    pub fn supports_motion_sense_tight_timestamps(reply: Result<&[u8], CrosEcError>) -> (r: Result<bool, CrosEcError>)
        ensures
            match reply {
                Ok(response) => match r {
                    Ok(supported) => exists|features: CrosEcFeatures|
                        #[trigger] call_ensures(
                            parse_features,
                            (response,),
                            Ok::<CrosEcFeatures, CrosEcError>(features),
                        ) && supported == features.advertises(EC_FEATURE_MOTION_SENSE_TIGHT_TIMESTAMPS),
                    Err(e) => call_ensures(
                        parse_features,
                        (response,),
                        Err::<CrosEcFeatures, CrosEcError>(e),
                    ),
                },
                Err(e) => r == Err::<bool, CrosEcError>(e),
            },
    {
        match Self::features(reply) {
            Ok(features) => Ok(features.supports_motion_sense_tight_timestamps()),
            Err(e) => Err(e),
        }
    }

    /// The brightness in a reply.
    pub fn get_display_backlight_percent(reply: Result<&[u8], CrosEcError>) -> (r: Result<u8, CrosEcError>)
        ensures
            match reply {
                Ok(response) => call_ensures(parse_display_backlight_percent, (response,), r),
                Err(e) => r == Err::<u8, CrosEcError>(e),
            },
    {
        match reply {
            Ok(response) => parse_display_backlight_percent(response),
            Err(e) => Err(e),
        }
    }

    /// Whether a brightness was accepted.
    pub fn set_display_backlight_percent(reply: Result<&[u8], CrosEcError>) -> (r: Result<(), CrosEcError>)
        ensures
            match reply {
                Ok(response) => call_ensures(parse_empty_reply, (response,), r),
                Err(e) => r == Err::<(), CrosEcError>(e),
            },
    {
        match reply {
            Ok(response) => parse_empty_reply(response),
            Err(e) => Err(e),
        }
    }

    /// The state and the number of the motion sensors in a reply.
    pub fn motion_sensor_summary(reply: Result<&[u8], CrosEcError>) -> (r: Result<CrosEcMotionSensorSummary, CrosEcError>)
        ensures
            match reply {
                Ok(response) => call_ensures(parse_motion_sensor_summary, (response,), r),
                Err(e) => r == Err::<CrosEcMotionSensorSummary, CrosEcError>(e),
            },
    {
        match reply {
            Ok(response) => parse_motion_sensor_summary(response),
            Err(e) => Err(e),
        }
    }

    /// The description of a sensor. Firmware that does not know the extended
    /// version is asked for the legacy one; its reply counts then.
    pub fn motion_sensor_info(
        extended: Result<&[u8], CrosEcError>,
        legacy: Result<&[u8], CrosEcError>,
    ) -> (r: Result<CrosEcMotionSensorInfo, CrosEcError>)
        ensures
            match extended {
                Ok(response) => call_ensures(parse_motion_sensor_info_v3, (response,), r),
                Err(e) => if wants_legacy_info(e) {
                    match legacy {
                        Ok(response) => call_ensures(
                            parse_motion_sensor_info_v1,
                            (response,),
                            r,
                        ),
                        Err(e) => r == Err::<CrosEcMotionSensorInfo, CrosEcError>(e),
                    }
                } else {
                    r == Err::<CrosEcMotionSensorInfo, CrosEcError>(e)
                },
            },
    {
        match extended {
            Ok(response) => parse_motion_sensor_info_v3(response),
            Err(e) => {
                if e == CrosEcError::EcResult(EC_RESULT_INVALID_VERSION) {
                    match legacy {
                        Ok(response) => parse_motion_sensor_info_v1(response),
                        Err(e) => Err(e),
                    }
                } else {
                    Err(e)
                }
            },
        }
    }

    /// The output data rate in a reply, in millihertz.
    pub fn motion_sensor_odr_millihz(reply: Result<&[u8], CrosEcError>) -> (r: Result<i32, CrosEcError>)
        ensures
            match reply {
                Ok(response) => call_ensures(parse_motion_i32_response, (response,), r),
                Err(e) => r == Err::<i32, CrosEcError>(e),
            },
    {
        match reply {
            Ok(response) => parse_motion_i32_response(response),
            Err(e) => Err(e),
        }
    }

    /// The range in a reply.
    pub fn motion_sensor_range(reply: Result<&[u8], CrosEcError>) -> (r: Result<i32, CrosEcError>)
        ensures
            match reply {
                Ok(response) => call_ensures(parse_motion_i32_response, (response,), r),
                Err(e) => r == Err::<i32, CrosEcError>(e),
            },
    {
        match reply {
            Ok(response) => parse_motion_i32_response(response),
            Err(e) => Err(e),
        }
    }

    /// The sample in a reply.
    pub fn motion_sensor_data(reply: Result<&[u8], CrosEcError>) -> (r: Result<CrosEcMotionSensorData, CrosEcError>)
        ensures
            match reply {
                Ok(response) => call_ensures(parse_motion_sensor_data, (response,), r),
                Err(e) => r == Err::<CrosEcMotionSensorData, CrosEcError>(e),
            },
    {
        match reply {
            Ok(response) => parse_motion_sensor_data(response),
            Err(e) => Err(e),
        }
    }

    /// Whether the EC sends FIFO notifications.
    pub fn motion_fifo_interrupt_enabled(reply: Result<&[u8], CrosEcError>) -> (r: Result<bool, CrosEcError>)
        ensures
            match reply {
                Ok(response) => call_ensures(parse_motion_fifo_interrupt_enabled, (response,), r),
                Err(e) => r == Err::<bool, CrosEcError>(e),
            },
    {
        match reply {
            Ok(response) => parse_motion_fifo_interrupt_enabled(response),
            Err(e) => Err(e),
        }
    }

    /// Whether the EC sends FIFO notifications after it was told to or not to.
    pub fn set_motion_fifo_interrupt_enabled(reply: Result<&[u8], CrosEcError>) -> (r: Result<bool, CrosEcError>)
        ensures
            match reply {
                Ok(response) => call_ensures(parse_motion_fifo_interrupt_enabled, (response,), r),
                Err(e) => r == Err::<bool, CrosEcError>(e),
            },
    {
        match reply {
            Ok(response) => parse_motion_fifo_interrupt_enabled(response),
            Err(e) => Err(e),
        }
    }

    /// The FIFO status in a reply, for a known number of sensors.
    pub fn motion_fifo_info_for_sensor_count(reply: Result<&[u8], CrosEcError>, sensor_count: u8) -> (r: Result<CrosEcMotionFifoInfo, CrosEcError>)
        ensures
            match reply {
                Ok(response) => call_ensures(parse_motion_fifo_info, (response, sensor_count), r),
                Err(e) => r == Err::<CrosEcMotionFifoInfo, CrosEcError>(e),
            },
    {
        match reply {
            Ok(response) => parse_motion_fifo_info(response, sensor_count),
            Err(e) => Err(e),
        }
    }

    /// The FIFO status; the number of sensors comes from a summary that was
    /// asked for before.
    pub fn motion_fifo_info(
        summary: Result<&[u8], CrosEcError>,
        reply: Result<&[u8], CrosEcError>,
    ) -> (r: Result<CrosEcMotionFifoInfo, CrosEcError>)
        ensures
            match summary {
                Ok(response) => if response@.len() != 2 {
                    r == Err::<CrosEcMotionFifoInfo, CrosEcError>(CrosEcError::InvalidResponse)
                } else {
                    match reply {
                        Ok(status) => call_ensures(
                            parse_motion_fifo_info,
                            (status, response@[1]),
                            r,
                        ),
                        Err(e) => r == Err::<CrosEcMotionFifoInfo, CrosEcError>(e),
                    }
                },
                Err(e) => r == Err::<CrosEcMotionFifoInfo, CrosEcError>(e),
            },
    {
        match Self::motion_sensor_summary(summary) {
            Ok(known) => Self::motion_fifo_info_for_sensor_count(reply, known.sensor_count),
            Err(e) => Err(e),
        }
    }

    /// The samples in a reply to a read of at most so many.
    pub fn motion_fifo_read(reply: Result<&[u8], CrosEcError>, max_vectors: u32) -> (r: Result<CrosEcMotionFifoData, CrosEcError>)
        ensures
            match reply {
                Ok(response) => call_ensures(parse_motion_fifo_data, (response, max_vectors), r),
                Err(e) => r == Err::<CrosEcMotionFifoData, CrosEcError>(e),
            },
    {
        match reply {
            Ok(response) => parse_motion_fifo_data(response, max_vectors),
            Err(e) => Err(e),
        }
    }
}

} // verus!
