use vstd::prelude::*;
use vstd::string::*;
use vstd::utf8::*;

use crate::bytes::copy_range;
use crate::bytes::le_u64_bytes;
use crate::bytes::le_u64_value;
use crate::bytes::lemma_le_u64_round_trip;
use crate::bytes::push_all;
use crate::bytes::push_le_u64;
use crate::bytes::read_le_u64;

verus! {

/// The type of one field of a schema.
#[derive(Debug)]
pub enum FieldType {
    Integer,
    Float,
    String,
    Boolean,
    Object(Schema),
    Array(Box<FieldType>),
}

/// An ordered list of named, typed fields.
#[derive(Debug)]
pub struct Schema {
    pub fields: Vec<(String, FieldType)>,
}

/// The mathematical value of a `FieldType`: names as character sequences.
pub enum TypeShape {
    Integer,
    Float,
    Text,
    Boolean,
    Object(Seq<(Seq<char>, TypeShape)>),
    Array(Box<TypeShape>),
}

pub open spec fn shape_of(t: FieldType) -> TypeShape
    decreases t, 0nat,
{
    match t {
        FieldType::Integer => TypeShape::Integer,
        FieldType::Float => TypeShape::Float,
        FieldType::String => TypeShape::Text,
        FieldType::Boolean => TypeShape::Boolean,
        FieldType::Object(s) => TypeShape::Object(fields_shape(s.fields@)),
        FieldType::Array(e) => TypeShape::Array(Box::new(shape_of(*e))),
    }
}

pub open spec fn fields_shape(fs: Seq<(String, FieldType)>) -> Seq<(Seq<char>, TypeShape)>
    decreases fs, fs.len(),
{
    if fs.len() == 0 {
        seq![]
    } else {
        seq![(fs[0].0@, shape_of(fs[0].1))] + fields_shape(fs.drop_first())
    }
}

/// A list of fields and its shape have the same length.
pub proof fn lemma_fields_shape_len(fs: Seq<(String, FieldType)>)
    ensures
        fields_shape(fs).len() == fs.len(),
    decreases fs.len(),
{
    if fs.len() > 0 {
        lemma_fields_shape_len(fs.drop_first());
    }
}

impl Schema {
    pub open spec fn view(self) -> Seq<(Seq<char>, TypeShape)> {
        fields_shape(self.fields@)
    }
}


/// A variant tag: a four-byte little-endian number below 256.
pub open spec fn tag_bytes(k: u8) -> Seq<u8> {
    seq![k, 0u8, 0u8, 0u8]
}

/// The bytes of one field type: its tag, then what the variant carries.
pub open spec fn shape_bytes(t: TypeShape) -> Seq<u8>
    decreases t, 0nat,
{
    match t {
        TypeShape::Integer => tag_bytes(0),
        TypeShape::Float => tag_bytes(1),
        TypeShape::Text => tag_bytes(2),
        TypeShape::Boolean => tag_bytes(3),
        TypeShape::Object(fs) => tag_bytes(4) + le_u64_bytes(fs.len() as u64) + entries_bytes(fs),
        TypeShape::Array(e) => tag_bytes(5) + shape_bytes(*e),
    }
}

/// The bytes of a list of fields, each as its name's length, its name in UTF-8 and its type.
pub open spec fn entries_bytes(fs: Seq<(Seq<char>, TypeShape)>) -> Seq<u8>
    decreases fs, fs.len(),
{
    if fs.len() == 0 {
        seq![]
    } else {
        le_u64_bytes(encode_utf8(fs[0].0).len() as u64) + encode_utf8(fs[0].0) + shape_bytes(
            fs[0].1,
        ) + entries_bytes(fs.drop_first())
    }
}

/// The bytes of a schema: the number of its fields, then the fields.
pub open spec fn schema_bytes(fs: Seq<(Seq<char>, TypeShape)>) -> Seq<u8> {
    le_u64_bytes(fs.len() as u64) + entries_bytes(fs)
}

/// Every count and name length in a shape fits the eight-byte length field.
pub open spec fn shape_fits(t: TypeShape) -> bool
    decreases t, 0nat,
{
    match t {
        TypeShape::Object(fs) => entries_fit(fs),
        TypeShape::Array(e) => shape_fits(*e),
        _ => true,
    }
}

pub open spec fn entries_fit(fs: Seq<(Seq<char>, TypeShape)>) -> bool
    decreases fs, fs.len(),
{
    fs.len() <= u64::MAX && (fs.len() > 0 ==> encode_utf8(fs[0].0).len() <= u64::MAX
        && shape_fits(fs[0].1) && entries_fit(fs.drop_first()))
}

/// Reads one field type from the front of `b`: the shape and the number of bytes it took.
pub open spec fn parse_shape(b: Seq<u8>) -> Option<(TypeShape, nat)>
    decreases b.len(), 0nat,
{
    if b.len() < 4 || b[1] != 0 || b[2] != 0 || b[3] != 0 {
        None
    } else if b[0] == 0 {
        Some((TypeShape::Integer, 4))
    } else if b[0] == 1 {
        Some((TypeShape::Float, 4))
    } else if b[0] == 2 {
        Some((TypeShape::Text, 4))
    } else if b[0] == 3 {
        Some((TypeShape::Boolean, 4))
    } else if b[0] == 4 {
        match parse_schema(b.skip(4)) {
            Some((fs, n)) => Some((TypeShape::Object(fs), 4 + n)),
            None => None,
        }
    } else if b[0] == 5 {
        match parse_shape(b.skip(4)) {
            Some((e, n)) => Some((TypeShape::Array(Box::new(e)), 4 + n)),
            None => None,
        }
    } else {
        None
    }
}

/// Reads a schema from the front of `b`: its fields and the number of bytes they took.
pub open spec fn parse_schema(b: Seq<u8>) -> Option<(Seq<(Seq<char>, TypeShape)>, nat)>
    decreases b.len(), 0nat,
{
    if b.len() < 8 {
        None
    } else {
        match parse_entries(b.skip(8), le_u64_value(b) as nat) {
            Some((fs, n)) => Some((fs, 8 + n)),
            None => None,
        }
    }
}

/// Reads `k` fields from the front of `b`.
pub open spec fn parse_entries(b: Seq<u8>, k: nat) -> Option<(Seq<(Seq<char>, TypeShape)>, nat)>
    decreases b.len(), k,
{
    if k == 0 {
        Some((seq![], 0))
    } else if b.len() < 8 {
        None
    } else {
        let n = le_u64_value(b) as nat;
        if b.len() < 8 + n || !valid_utf8(b.subrange(8, 8 + n as int)) {
            None
        } else {
            match parse_shape(b.skip(8 + n as int)) {
                Some((t, m)) => if b.len() < 8 + n + m {
                    None
                } else {
                    match parse_entries(b.skip(8 + n + m as int), (k - 1) as nat) {
                        Some((rest, r)) => Some(
                            (
                                seq![(decode_utf8(b.subrange(8, 8 + n as int)), t)] + rest,
                                8 + n + m + r,
                            ),
                        ),
                        None => None,
                    }
                },
                None => None,
            }
        }
    }
}

/// A field type's bytes read back as that field type, whatever bytes follow them.
pub proof fn lemma_parse_shape(t: TypeShape, rest: Seq<u8>)
    requires
        shape_fits(t),
    ensures
        parse_shape(shape_bytes(t) + rest) == Some((t, shape_bytes(t).len())),
    decreases t, 0nat,
{
    let b = shape_bytes(t) + rest;
    match t {
        TypeShape::Object(fs) => {
            assert(b.skip(4) =~= schema_bytes(fs) + rest);
            lemma_parse_schema(fs, rest);
        },
        TypeShape::Array(e) => {
            assert(b.skip(4) =~= shape_bytes(*e) + rest);
            lemma_parse_shape(*e, rest);
        },
        _ => {},
    }
}

/// A schema's bytes read back as that schema, whatever bytes follow them: the encoding
/// delimits itself.
pub proof fn lemma_parse_schema(fs: Seq<(Seq<char>, TypeShape)>, rest: Seq<u8>)
    requires
        entries_fit(fs),
    ensures
        parse_schema(schema_bytes(fs) + rest) == Some((fs, schema_bytes(fs).len())),
    decreases fs, 1nat,
{
    let b = schema_bytes(fs) + rest;
    lemma_le_u64_round_trip(fs.len() as u64);
    assert(le_u64_value(b) == le_u64_value(le_u64_bytes(fs.len() as u64)));
    assert(b.skip(8) =~= entries_bytes(fs) + rest);
    lemma_parse_entries(fs, rest);
}

/// The bytes of a list of fields read back as that list, whatever bytes follow them.
pub proof fn lemma_parse_entries(fs: Seq<(Seq<char>, TypeShape)>, rest: Seq<u8>)
    requires
        entries_fit(fs),
    ensures
        parse_entries(entries_bytes(fs) + rest, fs.len()) == Some((fs, entries_bytes(fs).len())),
    decreases fs, 0nat,
{
    if fs.len() > 0 {
        broadcast use encode_utf8_valid_utf8, encode_utf8_decode_utf8;

        let name = encode_utf8(fs[0].0);
        let n = name.len();
        let head = le_u64_bytes(n as u64);
        let b = entries_bytes(fs) + rest;
        lemma_le_u64_round_trip(n as u64);
        assert(le_u64_value(b) == le_u64_value(head));
        assert(b.subrange(8, 8 + n as int) =~= name);
        let tb = shape_bytes(fs[0].1);
        let tail = entries_bytes(fs.drop_first());
        assert(b.skip(8 + n as int) =~= tb + (tail + rest));
        lemma_parse_shape(fs[0].1, tail + rest);
        assert(b.skip(8 + n + tb.len() as int) =~= tail + rest);
        lemma_parse_entries(fs.drop_first(), rest);
        assert(seq![(fs[0].0, fs[0].1)] + fs.drop_first() =~= fs);
    }
}


/// Relies on String::from_utf8: it succeeds exactly on valid UTF-8 and keeps its characters.
#[verifier::external_body]
fn string_from_utf8(bytes: Vec<u8>) -> (r: Option<String>)
    ensures
        r is Some <==> valid_utf8(bytes@),
        r matches Some(s) ==> s@ == decode_utf8(bytes@),
{
    String::from_utf8(bytes).ok()
}

/// Decodes `k` fields starting at `pos`: the fields and the position after them.
fn decode_entries(b: &[u8], pos: usize, k: u64) -> (r: Option<(Vec<(String, FieldType)>, usize)>)
    requires
        pos <= b@.len(),
    ensures
        match parse_entries(b@.skip(pos as int), k as nat) {
            Some((fs, n)) => r matches Some((v, q)) && fields_shape(v@) == fs && q == pos + n,
            None => r is None,
        },
        r matches Some((v, q)) ==> pos <= q <= b@.len(),
    decreases b@.len() - pos, k,
{
    let ghost bb = b@.skip(pos as int);
    if k == 0 {
        return Some((Vec::new(), pos));
    }
    if b.len() - pos < 8 {
        return None;
    }
    let n = read_le_u64(b, pos);
    if n > (b.len() - pos - 8) as u64 {
        return None;
    }
    let n = n as usize;
    let start = pos + 8;
    let name_bytes = copy_range(b, start, start + n);
    assert(bb.subrange(8, 8 + n as int) =~= b@.subrange(start as int, start + n));
    let name = match string_from_utf8(name_bytes) {
        Some(s) => s,
        None => return None,
    };
    assert(bb.skip(8 + n as int) =~= b@.skip(start + n));
    let (t, q) = match FieldType::decode(b, start + n) {
        Some(p) => p,
        None => return None,
    };
    assert(bb.skip(q - pos) =~= b@.skip(q as int));
    let (mut rest, end) = match decode_entries(b, q, k - 1) {
        Some(p) => p,
        None => return None,
    };
    let ghost tail = rest@;
    rest.insert(0, (name, t));
    proof {
        let fs = rest@;
        assert(fs.drop_first() =~= tail);
        assert(fs[0] == (name, t));
    }
    Some((rest, end))
}

impl FieldType {
    /// Decodes a field type starting at `pos`: the field type and the position after it.
    pub fn decode(b: &[u8], pos: usize) -> (r: Option<(FieldType, usize)>)
        requires
            pos <= b@.len(),
        ensures
            match parse_shape(b@.skip(pos as int)) {
                Some((t, n)) => r matches Some((x, q)) && shape_of(x) == t && q == pos + n,
                None => r is None,
            },
            r matches Some((x, q)) ==> pos <= q <= b@.len(),
        decreases b@.len() - pos, 0nat,
    {
        let ghost bb = b@.skip(pos as int);
        if b.len() - pos < 4 || b[pos + 1] != 0 || b[pos + 2] != 0 || b[pos + 3] != 0 {
            return None;
        }
        let tag = b[pos];
        assert(bb.skip(4) =~= b@.skip(pos + 4));
        if tag == 0 {
            Some((FieldType::Integer, pos + 4))
        } else if tag == 1 {
            Some((FieldType::Float, pos + 4))
        } else if tag == 2 {
            Some((FieldType::String, pos + 4))
        } else if tag == 3 {
            Some((FieldType::Boolean, pos + 4))
        } else if tag == 4 {
            match Schema::decode(b, pos + 4) {
                Some((s, q)) => Some((FieldType::Object(s), q)),
                None => None,
            }
        } else if tag == 5 {
            match FieldType::decode(b, pos + 4) {
                Some((e, q)) => Some((FieldType::Array(Box::new(e)), q)),
                None => None,
            }
        } else {
            None
        }
    }

    /// Appends the encoding of this field type to `out`.
    pub fn encode_into(&self, out: &mut Vec<u8>)
        ensures
            final(out)@ == old(out)@ + shape_bytes(shape_of(*self)),
            shape_fits(shape_of(*self)),
        decreases *self, 0nat,
    {
        match self {
            FieldType::Integer => push_all(out, &[0u8, 0, 0, 0]),
            FieldType::Float => push_all(out, &[1u8, 0, 0, 0]),
            FieldType::String => push_all(out, &[2u8, 0, 0, 0]),
            FieldType::Boolean => push_all(out, &[3u8, 0, 0, 0]),
            FieldType::Object(s) => {
                push_all(out, &[4u8, 0, 0, 0]);
                s.encode_into(out);
            },
            FieldType::Array(e) => {
                push_all(out, &[5u8, 0, 0, 0]);
                e.encode_into(out);
            },
        }
    }
}

impl Schema {
    pub fn new(fields: Vec<(String, FieldType)>) -> (r: Self)
        ensures
            r.fields@ == fields@,
    {
        Schema { fields }
    }

    /// Appends the encoding of this schema to `out`.
    pub fn encode_into(&self, out: &mut Vec<u8>)
        ensures
            final(out)@ == old(out)@ + schema_bytes(self@),
            entries_fit(self@),
        decreases *self, self.fields@.len() + 1,
    {
        proof {
            lemma_fields_shape_len(self.fields@);
        }
        push_le_u64(out, self.fields.len() as u64);
        self.encode_entries(0, out);
        assert(self.fields@.skip(0) =~= self.fields@);
    }

    fn encode_entries(&self, i: usize, out: &mut Vec<u8>)
        requires
            i <= self.fields@.len(),
        ensures
            final(out)@ == old(out)@ + entries_bytes(fields_shape(self.fields@.skip(i as int))),
            entries_fit(fields_shape(self.fields@.skip(i as int))),
        decreases *self, self.fields@.len() - i,
    {
        let ghost rest = self.fields@.skip(i as int);
        if i == self.fields.len() {
            assert(rest.len() == 0);
            assert(out@ =~= old(out)@ + entries_bytes(fields_shape(rest)));
        } else {
            let name = self.fields[i].0.as_str().as_bytes_vec();
            push_le_u64(out, name.len() as u64);
            push_all(out, name.as_slice());
            self.fields[i].1.encode_into(out);
            self.encode_entries(i + 1, out);
            proof {
                assert(rest.drop_first() =~= self.fields@.skip(i + 1));
                assert(rest[0] == self.fields@[i as int]);
                let fs = fields_shape(rest);
                lemma_fields_shape_len(rest);
                assert(fs.drop_first() =~= fields_shape(rest.drop_first()));
                assert(fs[0] == (self.fields@[i as int].0@, shape_of(self.fields@[i as int].1)));
                assert(out@ =~= old(out)@ + entries_bytes(fs));
            }
        }
    }

    /// Decodes a schema starting at `pos`: the schema and the position after it.
    pub fn decode(b: &[u8], pos: usize) -> (r: Option<(Schema, usize)>)
        requires
            pos <= b@.len(),
        ensures
            match parse_schema(b@.skip(pos as int)) {
                Some((fs, n)) => r matches Some((x, q)) && x@ == fs && q == pos + n,
                None => r is None,
            },
            r matches Some((x, q)) ==> pos <= q <= b@.len(),
        decreases b@.len() - pos, 0nat,
    {
        if b.len() - pos < 8 {
            return None;
        }
        let k = read_le_u64(b, pos);
        assert(b@.skip(pos as int).skip(8) =~= b@.skip(pos + 8));
        match decode_entries(b, pos + 8, k) {
            Some((fields, q)) => Some((Schema { fields }, q)),
            None => None,
        }
    }

    /// The encoding of this schema.
    pub fn to_bytes(&self) -> (r: Vec<u8>)
        ensures
            r@ == schema_bytes(self@),
            entries_fit(self@),
    {
        let mut out: Vec<u8> = Vec::new();
        self.encode_into(&mut out);
        assert(out@ =~= schema_bytes(self@));
        out
    }
}

} // verus!
