//! Data-change filtering: a pure predicate that decides whether a new sample
//! is reportable relative to the prior one, plus the binary codec of the
//! filter parameters as they arrive in a create request's filter payload.

use vstd::prelude::*;
use crate::encoding::{
    i64_le_bytes, parse_i64, parse_u32, parse_u64, read_i64, read_u32, u32_le_bytes, write_i64,
    write_u32,
};
use crate::types::{DataValue, StatusCode, Variant};

verus! {

/// When a change of status, value or timestamp counts as reportable.
#[derive(Clone, Copy, PartialEq, Eq, Structural, Debug)]
pub enum DataChangeTrigger {
    Status,
    StatusValue,
    StatusValueTimestamp,
}

/// Which deadband is applied to numeric value changes.
#[derive(Clone, Copy, PartialEq, Eq, Structural, Debug)]
pub enum DeadbandType {
    NoDeadband,
    Absolute,
    Percent,
}

/// Parameters of the data-change filter. The deadband value is a fixed-point
/// integer in the same unit as `Variant::Numeric` payloads.
#[derive(Clone, Copy, PartialEq, Eq, Structural, Debug)]
pub struct DataChangeFilter {
    pub trigger: DataChangeTrigger,
    pub deadband_type: DeadbandType,
    pub deadband_value: i64,
}

pub open spec fn abs_diff(a: int, b: int) -> int {
    if a >= b {
        a - b
    } else {
        b - a
    }
}

/// Whether the value payload changed enough to report. Without a deadband any
/// inequality counts. With one, numeric payloads must move by more than the
/// deadband value; non-numeric payloads ignore the deadband. The engine
/// supplies no engineering-unit range, so a percent deadband degrades to an
/// absolute one.
pub open spec fn value_change_reportable(prior: Variant, current: Variant, f: DataChangeFilter) -> bool {
    match f.deadband_type {
        DeadbandType::NoDeadband => current != prior,
        DeadbandType::Absolute | DeadbandType::Percent => match (prior, current) {
            (Variant::Numeric(a), Variant::Numeric(b)) => abs_diff(a as int, b as int)
                > f.deadband_value,
            _ => current != prior,
        },
    }
}

/// The filter predicate: reportable when the status code changed; under
/// `StatusValue` also when the value moved outside the deadband; under
/// `StatusValueTimestamp` additionally when the source timestamp changed.
pub open spec fn reportable_spec(prior: DataValue, current: DataValue, f: DataChangeFilter) -> bool {
    match f.trigger {
        DataChangeTrigger::Status => current.status != prior.status,
        DataChangeTrigger::StatusValue => current.status != prior.status
            || value_change_reportable(prior.value, current.value, f),
        DataChangeTrigger::StatusValueTimestamp => current.status != prior.status
            || value_change_reportable(prior.value, current.value, f)
            || current.source_timestamp != prior.source_timestamp,
    }
}

fn value_change_reportable_exec(prior: &Variant, current: &Variant, f: &DataChangeFilter) -> (r:
    bool)
    ensures
        r == value_change_reportable(*prior, *current, *f),
{
    match f.deadband_type {
        DeadbandType::NoDeadband => *current != *prior,
        DeadbandType::Absolute | DeadbandType::Percent => match (prior, current) {
            (Variant::Numeric(a), Variant::Numeric(b)) => {
                let d: i128 = *a as i128 - *b as i128;
                let ad: i128 = if d < 0 {
                    -d
                } else {
                    d
                };
                ad > f.deadband_value as i128
            },
            _ => *current != *prior,
        },
    }
}

/// Decides whether `current` is reportable relative to `prior` under the
/// filter `f`. Pure: the result is a function of the three arguments alone.
pub fn reportable(prior: &DataValue, current: &DataValue, f: &DataChangeFilter) -> (r: bool)
    ensures
        r == reportable_spec(*prior, *current, *f),
{
    let status_changed = current.status != prior.status;
    match f.trigger {
        DataChangeTrigger::Status => status_changed,
        DataChangeTrigger::StatusValue => status_changed || value_change_reportable_exec(
            &prior.value,
            &current.value,
            f,
        ),
        DataChangeTrigger::StatusValueTimestamp => status_changed || value_change_reportable_exec(
            &prior.value,
            &current.value,
            f,
        ) || current.source_timestamp != prior.source_timestamp,
    }
}

// ---------------------------------------------------------------------------
// Binary codec of the filter parameters
// ---------------------------------------------------------------------------

pub open spec fn trigger_wire(t: DataChangeTrigger) -> u32 {
    match t {
        DataChangeTrigger::Status => 0u32,
        DataChangeTrigger::StatusValue => 1u32,
        DataChangeTrigger::StatusValueTimestamp => 2u32,
    }
}

pub open spec fn deadband_wire(d: DeadbandType) -> u32 {
    match d {
        DeadbandType::NoDeadband => 0u32,
        DeadbandType::Absolute => 1u32,
        DeadbandType::Percent => 2u32,
    }
}

pub open spec fn data_change_filter_bytes(f: DataChangeFilter) -> Seq<u8> {
    u32_le_bytes(trigger_wire(f.trigger)) + u32_le_bytes(deadband_wire(f.deadband_type))
        + i64_le_bytes(f.deadband_value)
}

/// The filter payload parses only when it is exactly the three fields and the
/// two enumeration values are in range.
pub open spec fn parse_data_change_filter(s: Seq<u8>) -> Option<DataChangeFilter> {
    match parse_u32(s, 0) {
        Option::None => Option::None,
        Option::Some((t, p1)) => match parse_u32(s, p1) {
            Option::None => Option::None,
            Option::Some((d, p2)) => match parse_i64(s, p2) {
                Option::None => Option::None,
                Option::Some((v, p3)) => if p3 == s.len() && t <= 2 && d <= 2 {
                    Option::Some(
                        DataChangeFilter {
                            trigger: if t == 0 {
                                DataChangeTrigger::Status
                            } else if t == 1 {
                                DataChangeTrigger::StatusValue
                            } else {
                                DataChangeTrigger::StatusValueTimestamp
                            },
                            deadband_type: if d == 0 {
                                DeadbandType::NoDeadband
                            } else if d == 1 {
                                DeadbandType::Absolute
                            } else {
                                DeadbandType::Percent
                            },
                            deadband_value: v,
                        },
                    )
                } else {
                    Option::None
                },
            },
        },
    }
}

impl DataChangeFilter {
    /// Appends the binary encoding of the filter parameters.
    pub fn encode(&self, stream: &mut Vec<u8>) -> (size: usize)
        ensures
            final(stream)@ == old(stream)@ + data_change_filter_bytes(*self),
            size == data_change_filter_bytes(*self).len(),
    {
        let t: u32 = match self.trigger {
            DataChangeTrigger::Status => 0,
            DataChangeTrigger::StatusValue => 1,
            DataChangeTrigger::StatusValueTimestamp => 2,
        };
        let d: u32 = match self.deadband_type {
            DeadbandType::NoDeadband => 0,
            DeadbandType::Absolute => 1,
            DeadbandType::Percent => 2,
        };
        write_u32(stream, t);
        write_u32(stream, d);
        write_i64(stream, self.deadband_value);
        proof {
            assert(stream@ =~= old(stream)@ + data_change_filter_bytes(*self));
        }
        16
    }

    /// Decodes a filter payload; any malformed payload is a decode failure.
    pub fn decode(data: &Vec<u8>) -> (r: Result<DataChangeFilter, StatusCode>)
        ensures
            match parse_data_change_filter(data@) {
                Option::Some(f) => r == Ok::<DataChangeFilter, StatusCode>(f),
                Option::None => r == Err::<DataChangeFilter, StatusCode>(
                    StatusCode::BadMonitoredItemFilterInvalid,
                ),
            },
    {
        let mut pos: usize = 0;
        let t = match read_u32(data, &mut pos) {
            Option::Some(t) => t,
            Option::None => {
                return Err(StatusCode::BadMonitoredItemFilterInvalid);
            },
        };
        let d = match read_u32(data, &mut pos) {
            Option::Some(d) => d,
            Option::None => {
                return Err(StatusCode::BadMonitoredItemFilterInvalid);
            },
        };
        let v = match read_i64(data, &mut pos) {
            Option::Some(v) => v,
            Option::None => {
                return Err(StatusCode::BadMonitoredItemFilterInvalid);
            },
        };
        if !(pos == data.len() && t <= 2 && d <= 2) {
            return Err(StatusCode::BadMonitoredItemFilterInvalid);
        }
        let trigger = if t == 0 {
            DataChangeTrigger::Status
        } else if t == 1 {
            DataChangeTrigger::StatusValue
        } else {
            DataChangeTrigger::StatusValueTimestamp
        };
        let deadband_type = if d == 0 {
            DeadbandType::NoDeadband
        } else if d == 1 {
            DeadbandType::Absolute
        } else {
            DeadbandType::Percent
        };
        Ok(DataChangeFilter { trigger, deadband_type, deadband_value: v })
    }
}

/// Round trip: a well-formed filter payload produced by `encode` parses back
/// to the same parameters.
pub proof fn lemma_data_change_filter_round_trip(f: DataChangeFilter)
    ensures
        parse_data_change_filter(data_change_filter_bytes(f)) == Option::Some(f),
{
    let s = data_change_filter_bytes(f);
    let t = trigger_wire(f.trigger);
    let d = deadband_wire(f.deadband_type);
    assert(s.len() == 16);
    assert(s.subrange(0, 4) =~= u32_le_bytes(t));
    assert(s.subrange(4, 8) =~= u32_le_bytes(d));
    assert(s.subrange(8, 16) =~= i64_le_bytes(f.deadband_value));
    crate::encoding::lemma_u32_le_round_trip(t);
    crate::encoding::lemma_u32_le_round_trip(d);
    let v = f.deadband_value;
    crate::encoding::lemma_u64_le_round_trip(v as u64);
    assert(((v as u64) as i64) == v) by (bit_vector);
    assert(parse_u32(s, 0) == Option::Some((t, 4int)));
    assert(parse_u32(s, 4) == Option::Some((d, 8int)));
    assert(parse_u64(s, 8) == Option::Some((f.deadband_value as u64, 16int)));
}

} // verus!
