//! Configuration version payload: a major and a minor version, encoded as
//! two little-endian 32-bit words.

use vstd::prelude::*;
use crate::encoding::{
    lemma_u32_le_round_trip, parse_u32, read_u32, u32_le_bytes, write_u32,
};
use crate::types::{ObjectId, StatusCode};

verus! {

#[derive(Clone, Copy, PartialEq, Eq, Structural, Debug)]
pub struct ConfigurationVersionDataType {
    pub major_version: u32,
    pub minor_version: u32,
}

pub open spec fn configuration_version_bytes(v: ConfigurationVersionDataType) -> Seq<u8> {
    u32_le_bytes(v.major_version) + u32_le_bytes(v.minor_version)
}

pub open spec fn parse_configuration_version(s: Seq<u8>, p: int) -> Option<(
    ConfigurationVersionDataType,
    int,
)> {
    match parse_u32(s, p) {
        Option::None => Option::None,
        Option::Some((major_version, p1)) => match parse_u32(s, p1) {
            Option::None => Option::None,
            Option::Some((minor_version, p2)) => Option::Some(
                (ConfigurationVersionDataType { major_version, minor_version }, p2),
            ),
        },
    }
}

impl ConfigurationVersionDataType {
    pub fn object_id(&self) -> (r: ObjectId)
        ensures
            r == ObjectId::ConfigurationVersionDataTypeEncodingDefaultBinary,
    {
        ObjectId::ConfigurationVersionDataTypeEncodingDefaultBinary
    }

    pub fn byte_len(&self) -> (size: usize)
        ensures
            size == configuration_version_bytes(*self).len(),
    {
        8
    }

    pub fn encode(&self, stream: &mut Vec<u8>) -> (size: usize)
        ensures
            final(stream)@ == old(stream)@ + configuration_version_bytes(*self),
            size == configuration_version_bytes(*self).len(),
    {
        write_u32(stream, self.major_version);
        write_u32(stream, self.minor_version);
        proof {
            assert(stream@ =~= old(stream)@ + configuration_version_bytes(*self));
        }
        8
    }

    pub fn decode(data: &Vec<u8>, pos: &mut usize) -> (r: Result<
        ConfigurationVersionDataType,
        StatusCode,
    >)
        ensures
            match parse_configuration_version(data@, *old(pos) as int) {
                Option::Some((v, np)) => r == Ok::<ConfigurationVersionDataType, StatusCode>(v)
                    && *final(pos) as int == np,
                Option::None => r is Err,
            },
            r is Err ==> r == Err::<ConfigurationVersionDataType, StatusCode>(
                StatusCode::BadDecodingError,
            ),
    {
        let major_version = match read_u32(data, pos) {
            Option::Some(v) => v,
            Option::None => {
                return Err(StatusCode::BadDecodingError);
            },
        };
        let minor_version = match read_u32(data, pos) {
            Option::Some(v) => v,
            Option::None => {
                return Err(StatusCode::BadDecodingError);
            },
        };
        Ok(ConfigurationVersionDataType { major_version, minor_version })
    }
}

/// Round trip: the encoding of a configuration version parses back to the
/// same value, consuming exactly its bytes.
pub proof fn lemma_configuration_version_round_trip(v: ConfigurationVersionDataType, rest: Seq<u8>)
    ensures
        parse_configuration_version(configuration_version_bytes(v) + rest, 0) == Option::Some(
            (v, configuration_version_bytes(v).len() as int),
        ),
{
    let s = configuration_version_bytes(v) + rest;
    assert(s.subrange(0, 4) =~= u32_le_bytes(v.major_version));
    assert(s.subrange(4, 8) =~= u32_le_bytes(v.minor_version));
    lemma_u32_le_round_trip(v.major_version);
    lemma_u32_le_round_trip(v.minor_version);
    assert(parse_u32(s, 0) == Option::Some((v.major_version, 4int)));
    assert(parse_u32(s, 4) == Option::Some((v.minor_version, 8int)));
}

} // verus!
