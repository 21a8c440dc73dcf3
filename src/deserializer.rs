use vstd::prelude::*;

use crate::compression::Compression;
use crate::compression::CompressionError;
use crate::compression::CompressionType;
use crate::bytes::copy_range;
use crate::schema::entries_fit;
use crate::schema::lemma_parse_schema;
use crate::schema::parse_schema;
use crate::schema::schema_bytes;
use crate::schema::Schema;
use crate::schema::TypeShape;
use crate::security::Security;
use crate::security::SecurityError;
use crate::security::SecurityOptions;
use crate::serializer::active_key;
use crate::serializer::body_of;
use crate::serializer::is_envelope;
use crate::serializer::keys_ready;

verus! {

#[derive(Clone, Copy, Debug, PartialEq, Eq, Structural)]
pub enum FlexBinError {
    DeserializationError,
    CompressionError(CompressionError),
    SecurityError(SecurityError),
}

/// Splits a decompressed body into the schema at its front and the value bytes after it.
pub open spec fn split_body(b: Seq<u8>) -> Option<(Seq<(Seq<char>, TypeShape)>, Seq<u8>)> {
    match parse_schema(b) {
        Some((fs, n)) => Some((fs, b.skip(n as int))),
        None => None,
    }
}

/// What `deserialize` makes of `data` under the given strategy and options.
pub open spec fn opened_envelope(comp: Compression, opts: SecurityOptions, data: Seq<u8>) -> Result<
    (Seq<(Seq<char>, TypeShape)>, Seq<u8>),
    FlexBinError,
> {
    let plain = if opts.enable_encryption {
        match opts.encryption_key {
            Some(k) => Security::opened(k@, data),
            None => None,
        }
    } else {
        Some(data)
    };
    match plain {
        None => Err(FlexBinError::SecurityError(SecurityError::DecryptionFailed)),
        Some(p) => match comp.unpacked(p) {
            None => Err(FlexBinError::CompressionError(CompressionError::DecompressionFailed)),
            Some(b) => match split_body(b) {
                None => Err(FlexBinError::DeserializationError),
                Some(res) => Ok(res),
            },
        },
    }
}

/// The schema block is read back from the front of a body whatever value bytes follow it,
/// and those bytes are what remains: the body needs no framing.
pub proof fn lemma_body_round_trip(fs: Seq<(Seq<char>, TypeShape)>, value: Seq<u8>)
    requires
        entries_fit(fs),
    ensures
        split_body(body_of(fs, value)) == Some((fs, value)),
        body_of(fs, value).len() == schema_bytes(fs).len() + value.len(),
{
    lemma_parse_schema(fs, value);
    assert(body_of(fs, value).skip(schema_bytes(fs).len() as int) =~= value);
}

/// Reads envelopes under one compression strategy and set of security options.
pub struct FlexBinDeserializer {
    compression: Compression,
    security: SecurityOptions,
}

impl FlexBinDeserializer {
    pub closed spec fn compression_spec(&self) -> Compression {
        self.compression
    }

    pub closed spec fn options(&self) -> SecurityOptions {
        self.security
    }

    pub fn new(compression_type: CompressionType, security_options: SecurityOptions) -> (r: Self)
        ensures
            r.compression_spec() == Compression::of_kind(compression_type),
            r.options() == security_options,
    {
        FlexBinDeserializer {
            compression: Compression::new(compression_type),
            security: security_options,
        }
    }

    /// Opens an envelope: decrypts where the options ask for it, decompresses, then reads
    /// the schema and hands back the value bytes that follow it.
    pub fn deserialize(&self, data: &[u8]) -> (r: Result<(Schema, Vec<u8>), FlexBinError>)
        ensures
            match opened_envelope(self.compression_spec(), self.options(), data@) {
                Ok((fs, v)) => r matches Ok((s, w)) && s@ == fs && w@ == v,
                Err(e) => r matches Err(e2) && e2 == e,
            },
            !keys_ready(self.options()) ==> (r matches Err(e) && e == FlexBinError::SecurityError(
                SecurityError::DecryptionFailed,
            )),
            forall|fs: Seq<(Seq<char>, TypeShape)>, v: Seq<u8>|
                keys_ready(self.options()) && #[trigger] is_envelope(
                    self.compression_spec(),
                    active_key(self.options()),
                    fs,
                    v,
                    data@,
                ) ==> (r matches Ok((s, w)) && s@ == fs && w@ == v),
    {
        let decrypted = if self.security.enable_encryption {
            match &self.security.encryption_key {
                Some(key) => match Security::decrypt(data, key) {
                    Ok(p) => p,
                    Err(e) => return Err(FlexBinError::SecurityError(e)),
                },
                None => return Err(FlexBinError::SecurityError(SecurityError::DecryptionFailed)),
            }
        } else {
            copy_range(data, 0, data.len())
        };
        proof {
            assert(data@.subrange(0, data@.len() as int) =~= data@);
        }
        let body = match self.compression.decompress(decrypted.as_slice()) {
            Ok(b) => b,
            Err(e) => return Err(FlexBinError::CompressionError(e)),
        };
        let r = match Schema::decode(body.as_slice(), 0) {
            Some((schema, pos)) => Ok((schema, copy_range(body.as_slice(), pos, body.len()))),
            None => Err(FlexBinError::DeserializationError),
        };
        proof {
            assert(body@.skip(0) =~= body@);
            assert forall|fs: Seq<(Seq<char>, TypeShape)>, v: Seq<u8>|
                keys_ready(self.options()) && #[trigger] is_envelope(
                    self.compression_spec(),
                    active_key(self.options()),
                    fs,
                    v,
                    data@,
                ) implies (r matches Ok((s, w)) && s@ == fs && w@ == v) by {
                let packed = self.compression.packed(body_of(fs, v));
                if self.security.enable_encryption {
                    let k = self.security.encryption_key->Some_0;
                    assert(data@ == Security::sealed(k@, data@.take(12), packed));
                }
                assert(decrypted@ == packed);
                assert(body@ == body_of(fs, v));
                lemma_body_round_trip(fs, v);
            }
        }
        r
    }
}

} // verus!
