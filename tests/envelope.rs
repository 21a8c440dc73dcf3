use flexbin::compression::CompressionType;
use flexbin::deserializer::FlexBinDeserializer;
use flexbin::deserializer::FlexBinError as DecodeError;
use flexbin::schema::FieldType;
use flexbin::schema::Schema;
use flexbin::security::SecurityError;
use flexbin::security::SecurityOptions;
use flexbin::serializer::FlexBinError as EncodeError;
use flexbin::serializer::FlexBinSerializer;

fn person_schema() -> Schema {
    Schema::new(vec![
        ("name".to_string(), FieldType::String),
        ("age".to_string(), FieldType::Integer),
    ])
}

fn ada_bytes() -> Vec<u8> {
    bincode::serialize(&("Ada".to_string(), 30i64)).unwrap()
}

fn plain_options() -> SecurityOptions {
    SecurityOptions {
        enable_encryption: false,
        enable_signing: false,
        encryption_key: None,
        signing_key: None,
    }
}

fn encrypting_options(key: [u8; 32]) -> SecurityOptions {
    SecurityOptions {
        enable_encryption: true,
        enable_signing: false,
        encryption_key: Some(key),
        signing_key: None,
    }
}

#[test]
fn plain_round_trip_has_no_framing() {
    let schema = person_schema();
    let schema_len = schema.to_bytes().len();
    let value = ada_bytes();
    let ser = FlexBinSerializer::new(schema, CompressionType::Uncompressed, plain_options());
    let out = ser.serialize(&value).unwrap();
    assert_eq!(out.len(), schema_len + value.len());
    let de = FlexBinDeserializer::new(CompressionType::Uncompressed, plain_options());
    let (schema_back, value_back) = de.deserialize(&out).unwrap();
    assert_eq!(format!("{:?}", schema_back), format!("{:?}", person_schema()));
    assert_eq!(value_back, value);
    let decoded: (String, i64) = bincode::deserialize(&value_back).unwrap();
    assert_eq!(decoded, ("Ada".to_string(), 30));
}

#[test]
fn zlib_round_trip_shrinks_redundant_payload() {
    let value = bincode::serialize(&("Ada".repeat(500), 30i64)).unwrap();
    let schema_len = person_schema().to_bytes().len();
    let ser = FlexBinSerializer::new(person_schema(), CompressionType::Zlib, plain_options());
    let out = ser.serialize(&value).unwrap();
    assert!(out.len() <= schema_len + value.len());
    assert_eq!(&out[..2], &[0x78u8, 0x9c][..]);
    let de = FlexBinDeserializer::new(CompressionType::Zlib, plain_options());
    let (schema_back, value_back) = de.deserialize(&out).unwrap();
    assert_eq!(format!("{:?}", schema_back), format!("{:?}", person_schema()));
    assert_eq!(value_back, value);
}

#[test]
fn encrypted_round_trip_adds_nonce_and_tag() {
    let key = [7u8; 32];
    let value = ada_bytes();
    let schema_len = person_schema().to_bytes().len();
    let ser = FlexBinSerializer::new(person_schema(), CompressionType::Uncompressed, encrypting_options(key));
    let out = ser.serialize(&value).unwrap();
    assert_eq!(out.len(), schema_len + value.len() + 12 + 16);
    let de = FlexBinDeserializer::new(CompressionType::Uncompressed, encrypting_options(key));
    let (schema_back, value_back) = de.deserialize(&out).unwrap();
    assert_eq!(format!("{:?}", schema_back), format!("{:?}", person_schema()));
    assert_eq!(value_back, value);
    let other = FlexBinDeserializer::new(CompressionType::Uncompressed, encrypting_options([8u8; 32]));
    assert_eq!(
        other.deserialize(&out).unwrap_err(),
        DecodeError::SecurityError(SecurityError::DecryptionFailed)
    );
}

#[test]
fn encrypted_zlib_round_trip() {
    let key = [42u8; 32];
    let value = ada_bytes();
    let ser = FlexBinSerializer::new(person_schema(), CompressionType::Zlib, encrypting_options(key));
    let out = ser.serialize(&value).unwrap();
    let de = FlexBinDeserializer::new(CompressionType::Zlib, encrypting_options(key));
    let (_, value_back) = de.deserialize(&out).unwrap();
    assert_eq!(value_back, value);
}

#[test]
fn encryption_uses_fresh_nonces() {
    let ser = FlexBinSerializer::new(person_schema(), CompressionType::Uncompressed, encrypting_options([1u8; 32]));
    let a = ser.serialize(&ada_bytes()).unwrap();
    let b = ser.serialize(&ada_bytes()).unwrap();
    assert_ne!(a, b);
}

#[test]
fn missing_encryption_key_is_rejected() {
    let opts = SecurityOptions {
        enable_encryption: true,
        enable_signing: false,
        encryption_key: None,
        signing_key: None,
    };
    let ser = FlexBinSerializer::new(person_schema(), CompressionType::Uncompressed, opts.clone());
    assert_eq!(
        ser.serialize(&ada_bytes()).unwrap_err(),
        EncodeError::SecurityError(SecurityError::EncryptionKeyMissing)
    );
    let de = FlexBinDeserializer::new(CompressionType::Uncompressed, opts);
    assert_eq!(
        de.deserialize(&[0u8; 40]).unwrap_err(),
        DecodeError::SecurityError(SecurityError::DecryptionFailed)
    );
}

#[test]
fn tampered_envelope_fails_to_decrypt() {
    let key = [3u8; 32];
    let ser = FlexBinSerializer::new(person_schema(), CompressionType::Uncompressed, encrypting_options(key));
    let out = ser.serialize(&ada_bytes()).unwrap();
    let de = FlexBinDeserializer::new(CompressionType::Uncompressed, encrypting_options(key));
    for i in 0..out.len() {
        let mut bad = out.clone();
        bad[i] ^= 0x01;
        assert_eq!(
            de.deserialize(&bad).unwrap_err(),
            DecodeError::SecurityError(SecurityError::DecryptionFailed)
        );
    }
}

#[test]
fn corrupt_zlib_stream_is_a_decompression_error() {
    let de = FlexBinDeserializer::new(CompressionType::Zlib, plain_options());
    assert_eq!(
        de.deserialize(&[1u8, 2, 3, 4, 5]).unwrap_err(),
        DecodeError::CompressionError(flexbin::compression::CompressionError::DecompressionFailed)
    );
}

#[test]
fn garbled_schema_is_a_deserialization_error() {
    let de = FlexBinDeserializer::new(CompressionType::Uncompressed, plain_options());
    assert_eq!(de.deserialize(&[1u8, 0, 0]).unwrap_err(), DecodeError::DeserializationError);
    let mut bytes = vec![1u8, 0, 0, 0, 0, 0, 0, 0, 1, 0, 0, 0, 0, 0, 0, 0, b'x', 9, 0, 0, 0];
    assert_eq!(de.deserialize(&bytes).unwrap_err(), DecodeError::DeserializationError);
    bytes[17] = 3;
    let (schema, rest) = de.deserialize(&bytes).unwrap();
    assert_eq!(format!("{:?}", schema), format!("{:?}", Schema::new(vec![("x".to_string(), FieldType::Boolean)])));
    assert!(rest.is_empty());
}

#[test]
fn nested_schema_round_trip() {
    let inner = Schema::new(vec![("tags".to_string(), FieldType::Array(Box::new(FieldType::String)))]);
    let make = |inner: Schema| {
        Schema::new(vec![
            ("id".to_string(), FieldType::Integer),
            ("score".to_string(), FieldType::Float),
            ("meta".to_string(), FieldType::Object(inner)),
            ("grid".to_string(), FieldType::Array(Box::new(FieldType::Array(Box::new(FieldType::Boolean))))),
            ("名前".to_string(), FieldType::String),
        ])
    };
    let inner_copy = Schema::new(vec![("tags".to_string(), FieldType::Array(Box::new(FieldType::String)))]);
    let ser = FlexBinSerializer::new(make(inner), CompressionType::Zlib, plain_options());
    let out = ser.serialize(&[9u8, 8, 7]).unwrap();
    let de = FlexBinDeserializer::new(CompressionType::Zlib, plain_options());
    let (schema, rest) = de.deserialize(&out).unwrap();
    assert_eq!(format!("{:?}", schema), format!("{:?}", make(inner_copy)));
    assert_eq!(rest, vec![9u8, 8, 7]);
}

#[test]
fn empty_value_and_empty_schema() {
    let ser = FlexBinSerializer::new(Schema::new(vec![]), CompressionType::Uncompressed, plain_options());
    let out = ser.serialize(&[]).unwrap();
    assert_eq!(out, vec![0u8; 8]);
    let de = FlexBinDeserializer::new(CompressionType::Uncompressed, plain_options());
    let (schema, rest) = de.deserialize(&out).unwrap();
    assert!(schema.fields.is_empty());
    assert!(rest.is_empty());
}

#[test]
fn serialization_without_encryption_is_deterministic() {
    let value = bincode::serialize(&("A".repeat(1000), 30u32)).unwrap();
    let ser = FlexBinSerializer::new(person_schema(), CompressionType::Zlib, plain_options());
    let a = ser.serialize(&value).unwrap();
    let b = ser.serialize(&value).unwrap();
    assert_eq!(a, b);
    assert!(a.len() <= 1051);
    let mut body = person_schema().to_bytes();
    body.extend_from_slice(&value);
    let packed = flexbin::compression::Compression::new(CompressionType::Zlib).compress(&body).unwrap();
    assert_eq!(a, packed);
}

#[test]
fn encryption_wraps_the_compressed_body() {
    let key = [11u8; 32];
    let value = ada_bytes();
    let ser = FlexBinSerializer::new(person_schema(), CompressionType::Zlib, encrypting_options(key));
    let env = ser.serialize(&value).unwrap();
    let mut body = person_schema().to_bytes();
    body.extend_from_slice(&value);
    let packed = flexbin::compression::Compression::new(CompressionType::Zlib).compress(&body).unwrap();
    assert_eq!(env.len(), packed.len() + 12 + 16);
    assert_eq!(flexbin::security::Security::decrypt(&env, &key).unwrap(), packed);
}
