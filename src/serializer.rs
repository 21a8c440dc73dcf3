use vstd::prelude::*;

use crate::compression::Compression;
use crate::compression::CompressionError;
use crate::compression::CompressionType;
use crate::schema::entries_fit;
use crate::bytes::push_all;
use crate::schema::schema_bytes;
use crate::schema::Schema;
use crate::schema::TypeShape;
use crate::security::Security;
use crate::security::SecurityError;
use crate::security::SecurityOptions;
use crate::security::GCM_MAX_PLAIN;
use crate::security::NONCE_LEN;
use crate::security::TAG_LEN;

verus! {

#[derive(Clone, Copy, Debug, PartialEq, Eq, Structural)]
pub enum FlexBinError {
    SerializationError,
    CompressionError(CompressionError),
    SecurityError(SecurityError),
}

/// The key that encryption uses under `opts`: none where encryption is off.
pub open spec fn active_key(opts: SecurityOptions) -> Option<Seq<u8>> {
    if opts.enable_encryption {
        match opts.encryption_key {
            Some(k) => Some(k@),
            None => None,
        }
    } else {
        None
    }
}

/// Whether `opts` has a key for every transform it enables that the pipeline runs.
pub open spec fn keys_ready(opts: SecurityOptions) -> bool {
    opts.enable_encryption ==> opts.encryption_key is Some
}

/// The schema's bytes followed at once by the value's bytes.
pub open spec fn body_of(fs: Seq<(Seq<char>, TypeShape)>, value: Seq<u8>) -> Seq<u8> {
    schema_bytes(fs) + value
}

/// Whether `out` is an envelope of schema `fs` and value bytes `value`: the body compressed,
/// then, under a key, encrypted with the nonce that leads `out`.
pub open spec fn is_envelope(
    comp: Compression,
    key: Option<Seq<u8>>,
    fs: Seq<(Seq<char>, TypeShape)>,
    value: Seq<u8>,
    out: Seq<u8>,
) -> bool {
    let packed = comp.packed(body_of(fs, value));
    &&& entries_fit(fs)
    &&& match key {
        None => out == packed,
        Some(k) => {
            &&& out.len() == NONCE_LEN + packed.len() + TAG_LEN
            &&& packed.len() <= GCM_MAX_PLAIN
            &&& out == Security::sealed(k, out.take(NONCE_LEN as int), packed)
        },
    }
}

/// Writes values under one fixed schema, compression and set of security options.
pub struct FlexBinSerializer {
    schema: Schema,
    header: Vec<u8>,
    compression: Compression,
    security: SecurityOptions,
}

impl FlexBinSerializer {
    pub closed spec fn schema_shape(&self) -> Seq<(Seq<char>, TypeShape)> {
        self.schema@
    }

    pub closed spec fn compression_spec(&self) -> Compression {
        self.compression
    }

    pub closed spec fn options(&self) -> SecurityOptions {
        self.security
    }

    pub closed spec fn wf(&self) -> bool {
        &&& self.header@ == schema_bytes(self.schema@)
        &&& entries_fit(self.schema@)
    }

    pub fn new(
        schema: Schema,
        compression_type: CompressionType,
        security_options: SecurityOptions,
    ) -> (r: Self)
        ensures
            r.wf(),
            r.schema_shape() == schema@,
            r.compression_spec() == Compression::of_kind(compression_type),
            r.options() == security_options,
    {
        let header = schema.to_bytes();
        FlexBinSerializer {
            schema,
            header,
            compression: Compression::new(compression_type),
            security: security_options,
        }
    }

    /// Wraps `data`, the encoded value, in an envelope: schema bytes then `data`, compressed,
    /// then encrypted where the options ask for it. Without encryption it always succeeds;
    /// with it, it fails only on a missing key, a body too long for AES-GCM, or a random
    /// source that gives no nonce.
    pub fn serialize(&self, data: &[u8]) -> (r: Result<Vec<u8>, FlexBinError>)
        requires
            self.wf(),
        ensures
            r matches Ok(out) ==> is_envelope(
                self.compression_spec(),
                active_key(self.options()),
                self.schema_shape(),
                data@,
                out@,
            ),
            !keys_ready(self.options()) ==> r == Err::<Vec<u8>, FlexBinError>(
                FlexBinError::SecurityError(SecurityError::EncryptionKeyMissing),
            ),
            r matches Err(e) ==> {
                ||| e == FlexBinError::SecurityError(SecurityError::EncryptionKeyMissing)
                    && !keys_ready(self.options())
                ||| e == FlexBinError::SecurityError(SecurityError::EncryptionFailed)
                    && keys_ready(self.options()) && self.options().enable_encryption
            },
            self.options().enable_encryption && self.compression_spec().packed(
                body_of(self.schema_shape(), data@),
            ).len() > GCM_MAX_PLAIN ==> r is Err,
            !self.options().enable_encryption ==> r is Ok,
    {
        if self.security.enable_encryption && self.security.encryption_key.is_none() {
            return Err(FlexBinError::SecurityError(SecurityError::EncryptionKeyMissing));
        }
        let mut body: Vec<u8> = Vec::new();
        push_all(&mut body, self.header.as_slice());
        push_all(&mut body, data);
        let compressed = match self.compression.compress(body.as_slice()) {
            Ok(c) => c,
            Err(e) => return Err(FlexBinError::CompressionError(e)),
        };
        match &self.security.encryption_key {
            Some(key) => {
                if self.security.enable_encryption {
                    match Security::encrypt(compressed.as_slice(), key) {
                        Ok(out) => Ok(out),
                        Err(e) => Err(FlexBinError::SecurityError(e)),
                    }
                } else {
                    Ok(compressed)
                }
            },
            None => Ok(compressed),
        }
    }
}

} // verus!
