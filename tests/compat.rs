use flexbin::schema::FieldType;
use flexbin::schema::Schema;
use serde::ser::SerializeStruct;
use serde::Serialize;
use serde::Serializer;

struct TypeRef<'a>(&'a FieldType);

struct SchemaRef<'a>(&'a Schema);

impl Serialize for TypeRef<'_> {
    fn serialize<S: Serializer>(&self, s: S) -> Result<S::Ok, S::Error> {
        match self.0 {
            FieldType::Integer => s.serialize_unit_variant("FieldType", 0, "Integer"),
            FieldType::Float => s.serialize_unit_variant("FieldType", 1, "Float"),
            FieldType::String => s.serialize_unit_variant("FieldType", 2, "String"),
            FieldType::Boolean => s.serialize_unit_variant("FieldType", 3, "Boolean"),
            FieldType::Object(o) => s.serialize_newtype_variant("FieldType", 4, "Object", &SchemaRef(o)),
            FieldType::Array(e) => s.serialize_newtype_variant("FieldType", 5, "Array", &TypeRef(e)),
        }
    }
}

impl Serialize for SchemaRef<'_> {
    fn serialize<S: Serializer>(&self, s: S) -> Result<S::Ok, S::Error> {
        let fields: Vec<(&String, TypeRef)> = self.0.fields.iter().map(|(n, t)| (n, TypeRef(t))).collect();
        let mut st = s.serialize_struct("Schema", 1)?;
        st.serialize_field("fields", &fields)?;
        st.end()
    }
}

#[test]
fn schema_bytes_match_bincode() {
    let schema = Schema::new(vec![
        ("id".to_string(), FieldType::Integer),
        ("ratio".to_string(), FieldType::Float),
        ("ok".to_string(), FieldType::Boolean),
        (
            "child".to_string(),
            FieldType::Object(Schema::new(vec![("label".to_string(), FieldType::String)])),
        ),
        ("list".to_string(), FieldType::Array(Box::new(FieldType::Array(Box::new(FieldType::Integer))))),
        ("ünï".to_string(), FieldType::String),
    ]);
    assert_eq!(schema.to_bytes(), bincode::serialize(&SchemaRef(&schema)).unwrap());
}
