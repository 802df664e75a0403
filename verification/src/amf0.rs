//! AMF0 (Action Message Format 0) markers, values and their encoding.
use vstd::prelude::*;

verus! {

/// AMF0 marker types, in the order of their one-byte codes (0x00 to 0x11).
#[derive(Debug, PartialEq, Eq, Clone, Copy, Structural)]
pub enum Amf0Marker {
    Number,
    Boolean,
    String,
    Object,
    /// reserved, not supported
    MovieClipMarker,
    Null,
    Undefined,
    Reference,
    EcmaArray,
    ObjectEnd,
    StrictArray,
    Date,
    LongString,
    Unsupported,
    /// reserved, not supported
    Recordset,
    XmlDocument,
    TypedObject,
    /// AMF3 marker
    AVMPlusObject,
}

/// The one-byte code of a marker.
pub open spec fn marker_code(m: Amf0Marker) -> u8 {
    match m {
        Amf0Marker::Number => 0x00,
        Amf0Marker::Boolean => 0x01,
        Amf0Marker::String => 0x02,
        Amf0Marker::Object => 0x03,
        Amf0Marker::MovieClipMarker => 0x04,
        Amf0Marker::Null => 0x05,
        Amf0Marker::Undefined => 0x06,
        Amf0Marker::Reference => 0x07,
        Amf0Marker::EcmaArray => 0x08,
        Amf0Marker::ObjectEnd => 0x09,
        Amf0Marker::StrictArray => 0x0a,
        Amf0Marker::Date => 0x0b,
        Amf0Marker::LongString => 0x0c,
        Amf0Marker::Unsupported => 0x0d,
        Amf0Marker::Recordset => 0x0e,
        Amf0Marker::XmlDocument => 0x0f,
        Amf0Marker::TypedObject => 0x10,
        Amf0Marker::AVMPlusObject => 0x11,
    }
}

impl Amf0Marker {
    /// Returns the one-byte code of the marker.
    pub fn to_u8(self) -> (b: u8)
        ensures
            b == marker_code(self),
    {
        match self {
            Amf0Marker::Number => 0x00,
            Amf0Marker::Boolean => 0x01,
            Amf0Marker::String => 0x02,
            Amf0Marker::Object => 0x03,
            Amf0Marker::MovieClipMarker => 0x04,
            Amf0Marker::Null => 0x05,
            Amf0Marker::Undefined => 0x06,
            Amf0Marker::Reference => 0x07,
            Amf0Marker::EcmaArray => 0x08,
            Amf0Marker::ObjectEnd => 0x09,
            Amf0Marker::StrictArray => 0x0a,
            Amf0Marker::Date => 0x0b,
            Amf0Marker::LongString => 0x0c,
            Amf0Marker::Unsupported => 0x0d,
            Amf0Marker::Recordset => 0x0e,
            Amf0Marker::XmlDocument => 0x0f,
            Amf0Marker::TypedObject => 0x10,
            Amf0Marker::AVMPlusObject => 0x11,
        }
    }

    /// Returns the marker with the code `b`, if there is one.
    pub fn from_u8(b: u8) -> (m: Option<Amf0Marker>)
        ensures
            m matches Some(x) ==> marker_code(x) == b,
            m is None <==> b > 0x11,
    {
        match b {
            0x00 => Some(Amf0Marker::Number),
            0x01 => Some(Amf0Marker::Boolean),
            0x02 => Some(Amf0Marker::String),
            0x03 => Some(Amf0Marker::Object),
            0x04 => Some(Amf0Marker::MovieClipMarker),
            0x05 => Some(Amf0Marker::Null),
            0x06 => Some(Amf0Marker::Undefined),
            0x07 => Some(Amf0Marker::Reference),
            0x08 => Some(Amf0Marker::EcmaArray),
            0x09 => Some(Amf0Marker::ObjectEnd),
            0x0a => Some(Amf0Marker::StrictArray),
            0x0b => Some(Amf0Marker::Date),
            0x0c => Some(Amf0Marker::LongString),
            0x0d => Some(Amf0Marker::Unsupported),
            0x0e => Some(Amf0Marker::Recordset),
            0x0f => Some(Amf0Marker::XmlDocument),
            0x10 => Some(Amf0Marker::TypedObject),
            0x11 => Some(Amf0Marker::AVMPlusObject),
            _ => None,
        }
    }
}

/// Each code names at most one marker, and every marker comes back from
/// its code.
pub proof fn lemma_marker_code_roundtrip(m: Amf0Marker, n: Amf0Marker)
    ensures
        marker_code(m) <= 0x11,
        marker_code(m) == marker_code(n) ==> m == n,
{
}

/// AMF0 value types. A number is held as the bit pattern of its IEEE 754
/// double (`f64::to_bits`).
#[derive(Debug, PartialEq)]
pub enum Amf0Value {
    /// Number Type
    Number(u64),
    /// Boolean Type
    Boolean(bool),
    /// String Type
    String(String),
    /// Object Type
    Object(Vec<(String, Amf0Value)>),
    /// Null Type
    Null,
    /// Object end marker
    ObjectEnd,
    /// LongString Type
    LongString(String),
}

/// The marker that tags a value.
pub open spec fn value_marker(v: Amf0Value) -> Amf0Marker {
    match v {
        Amf0Value::Boolean(_) => Amf0Marker::Boolean,
        Amf0Value::Number(_) => Amf0Marker::Number,
        Amf0Value::String(_) => Amf0Marker::String,
        Amf0Value::Object(_) => Amf0Marker::Object,
        Amf0Value::Null => Amf0Marker::Null,
        Amf0Value::ObjectEnd => Amf0Marker::ObjectEnd,
        Amf0Value::LongString(_) => Amf0Marker::LongString,
    }
}

/// Whether two values hold the same content: the same variant, the same
/// characters, the same number and the same properties in the same order.
pub open spec fn same_value(a: Amf0Value, b: Amf0Value) -> bool
    decreases a,
{
    match (a, b) {
        (Amf0Value::Number(x), Amf0Value::Number(y)) => x == y,
        (Amf0Value::Boolean(x), Amf0Value::Boolean(y)) => x == y,
        (Amf0Value::String(x), Amf0Value::String(y)) => x@ == y@,
        (Amf0Value::LongString(x), Amf0Value::LongString(y)) => x@ == y@,
        (Amf0Value::Null, Amf0Value::Null) => true,
        (Amf0Value::ObjectEnd, Amf0Value::ObjectEnd) => true,
        (Amf0Value::Object(x), Amf0Value::Object(y)) => same_props(x@, y@),
        _ => false,
    }
}

/// Whether two property lists hold the same keys and values, in order.
pub open spec fn same_props(a: Seq<(String, Amf0Value)>, b: Seq<(String, Amf0Value)>) -> bool
    decreases a,
{
    &&& a.len() == b.len()
    &&& forall|i: int| 0 <= i < a.len() ==> #[trigger] a[i].0@ == b[i].0@
    &&& forall|i: int| 0 <= i < a.len() ==> same_value(#[trigger] a[i].1, b[i].1)
}

impl Clone for Amf0Value {
    /// A copy that holds the same content.
    fn clone(&self) -> (r: Amf0Value)
        ensures
            same_value(r, *self),
    {
        self.to_owned()
    }
}

impl Amf0Value {
    /// Returns the marker of the value.
    pub fn marker(&self) -> (m: Amf0Marker)
        ensures
            m == value_marker(*self),
    {
        match self {
            Amf0Value::Boolean(_) => Amf0Marker::Boolean,
            Amf0Value::Number(_) => Amf0Marker::Number,
            Amf0Value::String(_) => Amf0Marker::String,
            Amf0Value::Object(_) => Amf0Marker::Object,
            Amf0Value::Null => Amf0Marker::Null,
            Amf0Value::ObjectEnd => Amf0Marker::ObjectEnd,
            Amf0Value::LongString(_) => Amf0Marker::LongString,
        }
    }

    /// Returns a copy of the value that owns all of its content.
    pub fn to_owned(&self) -> (r: Amf0Value)
        ensures
            same_value(r, *self),
        decreases self,
    {
        match self {
            Amf0Value::String(s) => Amf0Value::String(s.clone()),
            Amf0Value::LongString(s) => Amf0Value::LongString(s.clone()),
            Amf0Value::Object(o) => {
                let mut props: Vec<(String, Amf0Value)> = Vec::new();
                let mut i: usize = 0;
                while i < o.len()
                    invariant
                        *self == Amf0Value::Object(*o),
                        i <= o@.len(),
                        props@.len() == i,
                        forall|j: int| 0 <= j < i ==> #[trigger] props@[j].0@ == o@[j].0@,
                        forall|j: int| 0 <= j < i ==> same_value(#[trigger] props@[j].1, o@[j].1),
                    decreases o@.len() - i,
                {
                    proof {
                        vstd::std_specs::vec::axiom_vec_index_decreases(*o, i as int);
                        assert(decreases_to!(*self => self->Object_0));
                        assert(decreases_to!(*self => o@[i as int].1));
                    }
                    let key = o[i].0.clone();
                    let value = o[i].1.to_owned();
                    props.push((key, value));
                    i = i + 1;
                }
                Amf0Value::Object(props)
            },
            Amf0Value::Number(n) => Amf0Value::Number(*n),
            Amf0Value::Boolean(b) => Amf0Value::Boolean(*b),
            Amf0Value::Null => Amf0Value::Null,
            Amf0Value::ObjectEnd => Amf0Value::ObjectEnd,
        }
    }
}

/// An error raised while encoding AMF0.
#[derive(Debug, Clone, Copy, PartialEq, Eq, Structural)]
pub enum Amf0WriteError {
    /// A value of this type cannot be encoded.
    UnsupportedType(Amf0Marker),
    /// A string is longer than the 65535 bytes a normal string can hold.
    NormalStringTooLong,
}

/// The two bytes of `n`, most significant first.
pub open spec fn be_u16(n: u16) -> Seq<u8> {
    seq![(n >> 8u16) as u8, n as u8]
}

/// The eight bytes of `n`, most significant first.
pub open spec fn be_u64(n: u64) -> Seq<u8> {
    seq![
        (n >> 56u64) as u8, (n >> 48u64) as u8, (n >> 40u64) as u8, (n >> 32u64) as u8,
        (n >> 24u64) as u8, (n >> 16u64) as u8, (n >> 8u64) as u8, n as u8,
    ]
}

/// The UTF-8 bytes of a string.
pub open spec fn string_bytes(s: Seq<char>) -> Seq<u8> {
    vstd::utf8::encode_utf8(s)
}

/// The result that an encoding which stopped with `e` (or did not stop)
/// returns.
pub open spec fn outcome(e: Option<Amf0WriteError>) -> Result<(), Amf0WriteError> {
    match e {
        Some(err) => Err(err),
        None => Ok(()),
    }
}

/// What encoding a string appends (nothing when it is too long) and the
/// error it stops with, if any.
pub open spec fn string_encoding(s: Seq<char>) -> (Seq<u8>, Option<Amf0WriteError>) {
    let b = string_bytes(s);
    if b.len() > 65535 {
        (Seq::empty(), Some(Amf0WriteError::NormalStringTooLong))
    } else {
        (seq![0x02u8] + be_u16(b.len() as u16) + b, None)
    }
}

/// What encoding a value appends, and the error it stops with, if any. An
/// object that fails part-way keeps what it wrote before the failure.
pub open spec fn encoding(v: Amf0Value) -> (Seq<u8>, Option<Amf0WriteError>)
    decreases v,
{
    match v {
        Amf0Value::Boolean(b) => (seq![0x01u8, if b { 1u8 } else { 0u8 }], None),
        Amf0Value::Null => (seq![0x05u8], None),
        Amf0Value::Number(n) => (seq![0x00u8] + be_u64(n), None),
        Amf0Value::String(s) => string_encoding(s@),
        Amf0Value::Object(props) => {
            let (b, e) = properties_encoding(props@);
            if e is Some {
                (seq![0x03u8] + b, e)
            } else {
                (seq![0x03u8] + b + seq![0x00u8, 0x00u8, 0x09u8], None)
            }
        },
        _ => (Seq::empty(), Some(Amf0WriteError::UnsupportedType(value_marker(v)))),
    }
}

/// What encoding the properties of an object appends: for each, the length
/// of its key (kept to its low 16 bits), the key and the value, stopping at
/// the first value that fails.
pub open spec fn properties_encoding(ps: Seq<(String, Amf0Value)>) -> (Seq<u8>, Option<Amf0WriteError>)
    decreases ps,
{
    if ps.len() == 0 {
        (Seq::empty(), None)
    } else {
        let (b, e) = properties_encoding(ps.subrange(0, ps.len() - 1));
        if e is Some {
            (b, e)
        } else {
            let k = string_bytes(ps[ps.len() - 1].0@);
            let (vb, ve) = encoding(ps[ps.len() - 1].1);
            (b + be_u16(k.len() as u16) + k + vb, ve)
        }
    }
}

/// What encoding an object with the properties `ps` appends, and the error
/// it stops with, if any (as [`encoding`] gives it for an object).
pub open spec fn object_encoding(ps: Seq<(String, Amf0Value)>) -> (Seq<u8>, Option<Amf0WriteError>) {
    let (b, e) = properties_encoding(ps);
    if e is Some {
        (seq![0x03u8] + b, e)
    } else {
        (seq![0x03u8] + b + seq![0x00u8, 0x00u8, 0x09u8], None)
    }
}

/// Once the encoding of a prefix of the properties has failed, longer
/// prefixes fail the same way and write nothing more.
proof fn lemma_properties_error_sticks(ps: Seq<(String, Amf0Value)>, k: int, n: int)
    requires
        0 <= k <= n <= ps.len(),
        properties_encoding(ps.take(k)).1 is Some,
    ensures
        properties_encoding(ps.take(n)) == properties_encoding(ps.take(k)),
    decreases n - k,
{
    if n > k {
        lemma_properties_error_sticks(ps, k, n - 1);
        assert(ps.take(n).subrange(0, n - 1) =~= ps.take(n - 1));
    }
}

/// Appends `bytes` to `writer`.
fn append_bytes(writer: &mut Vec<u8>, bytes: &[u8])
    ensures
        final(writer)@ == old(writer)@ + bytes@,
{
    let ghost start = writer@;
    let mut i: usize = 0;
    while i < bytes.len()
        invariant
            i <= bytes@.len(),
            writer@ == start + bytes@.take(i as int),
        decreases bytes@.len() - i,
    {
        writer.push(bytes[i]);
        i = i + 1;
        assert(writer@ =~= start + bytes@.take(i as int));
    }
    assert(bytes@.take(i as int) =~= bytes@);
}

/// Appends `n`, most significant byte first.
fn write_u16_be(writer: &mut Vec<u8>, n: u16)
    ensures
        final(writer)@ == old(writer)@ + be_u16(n),
{
    writer.push((n >> 8u16) as u8);
    writer.push(n as u8);
    assert(writer@ =~= old(writer)@ + be_u16(n));
}

/// Appends `n`, most significant byte first.
fn write_u64_be(writer: &mut Vec<u8>, n: u64)
    ensures
        final(writer)@ == old(writer)@ + be_u64(n),
{
    writer.push((n >> 56u64) as u8);
    writer.push((n >> 48u64) as u8);
    writer.push((n >> 40u64) as u8);
    writer.push((n >> 32u64) as u8);
    writer.push((n >> 24u64) as u8);
    writer.push((n >> 16u64) as u8);
    writer.push((n >> 8u64) as u8);
    writer.push(n as u8);
    assert(writer@ =~= old(writer)@ + be_u64(n));
}

/// AMF0 encoder: appends encoded values to a byte vector.
pub struct Amf0Encoder;

impl Amf0Encoder {
    /// Encodes a value. Numbers, booleans, strings, null and objects are
    /// supported; any other value fails with `UnsupportedType` and writes
    /// nothing.
    pub fn encode(writer: &mut Vec<u8>, value: &Amf0Value) -> (r: Result<(), Amf0WriteError>)
        ensures
            final(writer)@ == old(writer)@ + encoding(*value).0,
            r == outcome(encoding(*value).1),
        decreases value,
    {
        match value {
            Amf0Value::Boolean(val) => Self::encode_bool(writer, *val),
            Amf0Value::Null => Self::encode_null(writer),
            Amf0Value::Number(val) => Self::encode_number(writer, *val),
            Amf0Value::String(val) => Self::encode_string(writer, val.as_str()),
            Amf0Value::Object(val) => {
                proof {
                    assert(decreases_to!(*value => value->Object_0));
                }
                let r = Self::encode_object(writer, val.as_slice());
                assert(encoding(*value) == object_encoding(val@));
                r
            },
            _ => {
                assert(writer@ =~= old(writer)@ + encoding(*value).0);
                Err(Amf0WriteError::UnsupportedType(value.marker()))
            },
        }
    }

    /// Writes the end of an object: an empty key and the object end marker.
    fn object_eof(writer: &mut Vec<u8>) -> (r: Result<(), Amf0WriteError>)
        ensures
            final(writer)@ == old(writer)@ + seq![0x00u8, 0x00u8, 0x09u8],
            r is Ok,
    {
        writer.push(0x00);
        writer.push(0x00);
        writer.push(Amf0Marker::ObjectEnd.to_u8());
        assert(writer@ =~= old(writer)@ + seq![0x00u8, 0x00u8, 0x09u8]);
        Ok(())
    }

    /// Encodes a number, given as the bit pattern of its IEEE 754 double:
    /// the number marker and the eight bytes, most significant first.
    pub fn encode_number(writer: &mut Vec<u8>, value: u64) -> (r: Result<(), Amf0WriteError>)
        ensures
            final(writer)@ == old(writer)@ + seq![0x00u8] + be_u64(value),
            r == Ok::<(), Amf0WriteError>(()),
    {
        writer.push(Amf0Marker::Number.to_u8());
        write_u64_be(writer, value);
        Ok(())
    }

    /// Encodes a boolean: the boolean marker and one byte, 1 or 0.
    pub fn encode_bool(writer: &mut Vec<u8>, value: bool) -> (r: Result<(), Amf0WriteError>)
        ensures
            final(writer)@ == old(writer)@ + seq![0x01u8, if value { 1u8 } else { 0u8 }],
            r == Ok::<(), Amf0WriteError>(()),
    {
        writer.push(Amf0Marker::Boolean.to_u8());
        writer.push(if value { 1u8 } else { 0u8 });
        assert(writer@ =~= old(writer)@ + seq![0x01u8, if value { 1u8 } else { 0u8 }]);
        Ok(())
    }

    /// Encodes a string: the string marker, its length in bytes (two bytes,
    /// most significant first) and its UTF-8 bytes. A string of more than
    /// 65535 bytes fails with `NormalStringTooLong` and writes nothing.
    pub fn encode_string(writer: &mut Vec<u8>, value: &str) -> (r: Result<(), Amf0WriteError>)
        ensures
            final(writer)@ == old(writer)@ + string_encoding(value@).0,
            r == outcome(string_encoding(value@).1),
    {
        let bytes = value.as_bytes();
        proof {
            assert(bytes@ == string_bytes(value@));
        }
        if bytes.len() > 65535 {
            assert(writer@ =~= old(writer)@ + string_encoding(value@).0);
            return Err(Amf0WriteError::NormalStringTooLong);
        }
        writer.push(Amf0Marker::String.to_u8());
        write_u16_be(writer, bytes.len() as u16);
        append_bytes(writer, bytes);
        assert(writer@ =~= old(writer)@ + string_encoding(value@).0);
        Ok(())
    }

    /// Encodes null: the null marker.
    pub fn encode_null(writer: &mut Vec<u8>) -> (r: Result<(), Amf0WriteError>)
        ensures
            final(writer)@ == old(writer)@ + seq![0x05u8],
            r == Ok::<(), Amf0WriteError>(()),
    {
        writer.push(Amf0Marker::Null.to_u8());
        assert(writer@ =~= old(writer)@ + seq![0x05u8]);
        Ok(())
    }

    /// Encodes an object: the object marker, each property (the length of
    /// its key, kept to its low 16 bits, the key and the encoded value) and
    /// the object end. A value that fails stops the encoding with its error;
    /// what was written before it stays.
    pub fn encode_object(writer: &mut Vec<u8>, properties: &[(String, Amf0Value)]) -> (r: Result<(), Amf0WriteError>)
        ensures
            final(writer)@ == old(writer)@ + object_encoding(properties@).0,
            r == outcome(object_encoding(properties@).1),
        decreases properties@,
    {
        let ghost ps = properties@;
        let ghost start = writer@;
        writer.push(Amf0Marker::Object.to_u8());
        let mut i: usize = 0;
        assert(ps.take(0) =~= Seq::<(String, Amf0Value)>::empty());
        while i < properties.len()
            invariant
                ps == properties@,
                start == old(writer)@,
                i <= ps.len(),
                properties_encoding(ps.take(i as int)).1 is None,
                writer@ == start + seq![0x03u8] + properties_encoding(ps.take(i as int)).0,
            decreases ps.len() - i,
        {
            let ghost before = writer@;
            let key = properties[i].0.as_str();
            let key_bytes = key.as_bytes();
            proof {
                assert(key_bytes@ == string_bytes(ps[i as int].0@));
            }
            write_u16_be(writer, key_bytes.len() as u16);
            append_bytes(writer, key_bytes);
            proof {
                assert(decreases_to!(ps => ps[i as int]));
                assert(decreases_to!(ps => ps[i as int].1));
            }
            let res = Self::encode(writer, &properties[i].1);
            proof {
                let t = ps.take(i + 1);
                assert(t.subrange(0, t.len() - 1) =~= ps.take(i as int));
                assert(t[t.len() - 1] == ps[i as int]);
                let k = string_bytes(ps[i as int].0@);
                let prev = properties_encoding(ps.take(i as int));
                let (vb, ve) = encoding(ps[i as int].1);
                assert(properties_encoding(t) == (prev.0 + be_u16(k.len() as u16) + k + vb, ve));
                assert(writer@ =~= start + seq![0x03u8] + properties_encoding(t).0);
            }
            match res {
                Err(e) => {
                    proof {
                        let t = ps.take(i + 1);
                        assert(properties_encoding(t).1 == Some(e));
                        lemma_properties_error_sticks(ps, i + 1, ps.len() as int);
                        assert(ps.take(ps.len() as int) =~= ps);
                        assert(properties_encoding(ps) == properties_encoding(t));
                        assert(object_encoding(ps).0 == seq![0x03u8] + properties_encoding(t).0);
                        assert(writer@ =~= start + object_encoding(ps).0);
                    }
                    return Err(e);
                },
                Ok(()) => {},
            }
            i = i + 1;
        }
        let _ = Self::object_eof(writer);
        assert(ps.take(i as int) =~= ps);
        Ok(())
    }
}

/// Every value that encodes without error starts with its own marker, so
/// values of different kinds never encode alike.
pub proof fn lemma_encoding_starts_with_marker(v: Amf0Value)
    ensures
        encoding(v).1 is None ==> encoding(v).0.len() >= 1 && encoding(v).0[0] == marker_code(value_marker(v)),
{
    match v {
        Amf0Value::Object(props) => {
            let (b, e) = properties_encoding(props@);
            if e is None {
                assert((seq![0x03u8] + b + seq![0x00u8, 0x00u8, 0x09u8])[0] == 0x03u8);
            }
        },
        Amf0Value::String(st) => {
            let b = string_bytes(st@);
            if b.len() <= 65535 {
                assert((seq![0x02u8] + be_u16(b.len() as u16) + b)[0] == 0x02u8);
            }
        },
        Amf0Value::Number(n) => {
            assert((seq![0x00u8] + be_u64(n))[0] == 0x00u8);
        },
        _ => {},
    }
}

/// The two bytes of a 16-bit number, most significant first, give the
/// number back.
proof fn lemma_be_u16_value(n: u16)
    ensures
        be_u16(n)[0] as int * 256 + be_u16(n)[1] as int == n,
{
    let hi = (n >> 8u16) as u8;
    let lo = n as u8;
    assert(hi as u16 * 256 + lo as u16 == n) by (bit_vector)
        requires
            hi == (n >> 8u16) as u8,
            lo == n as u8,
    ;
}

/// An encoded string can be read back: a string encodes without error
/// exactly when its UTF-8 text fits in 65535 bytes, and then, after the
/// string marker, two bytes give the length, most significant first, of the
/// rest, and the rest is the UTF-8 text of the string.
pub proof fn lemma_string_encoding_decodes(s: String)
    ensures
        ({
            let (e, err) = encoding(Amf0Value::String(s));
            &&& (err is None) == (vstd::utf8::encode_utf8(s@).len() <= 65535)
            &&& err is None ==> {
                &&& e.len() >= 3
                &&& e[0] == 0x02u8
                &&& e.len() == 3 + (e[1] as int * 256 + e[2] as int)
                &&& vstd::utf8::decode_utf8(e.skip(3)) == s@
            }
        }),
{
    let b = string_bytes(s@);
    if b.len() <= 65535 {
        let e = seq![0x02u8] + be_u16(b.len() as u16) + b;
        lemma_be_u16_value(b.len() as u16);
        assert(e[1] == be_u16(b.len() as u16)[0] && e[2] == be_u16(b.len() as u16)[1]);
        assert(e.skip(3) =~= b);
        vstd::utf8::encode_utf8_decode_utf8(s@);
    }
}

/// Strings that encode alike are the same string.
pub proof fn lemma_string_encoding_injective(a: String, b: String)
    ensures
        encoding(Amf0Value::String(a)).1 is None && encoding(Amf0Value::String(a)).0 == encoding(
            Amf0Value::String(b),
        ).0 ==> a@ == b@,
{
    lemma_string_encoding_decodes(a);
    lemma_string_encoding_decodes(b);
    let ea = encoding(Amf0Value::String(a));
    let eb = encoding(Amf0Value::String(b));
    if ea.1 is None && ea.0 == eb.0 {
        if eb.1 is Some {
            assert(eb.0.len() == 0);
        }
    }
}

/// Booleans that encode alike are the same boolean: the byte after the
/// marker is 1 for true and 0 for false.
pub proof fn lemma_bool_encoding_injective(a: bool, b: bool)
    ensures
        encoding(Amf0Value::Boolean(a)).0 == encoding(Amf0Value::Boolean(b)).0 ==> a == b,
        encoding(Amf0Value::Boolean(a)).0.len() == 2,
        (encoding(Amf0Value::Boolean(a)).0[1] == 1u8) == a,
{
    if encoding(Amf0Value::Boolean(a)).0 == encoding(Amf0Value::Boolean(b)).0 {
        assert(encoding(Amf0Value::Boolean(a)).0[1] == encoding(Amf0Value::Boolean(b)).0[1]);
    }
}

/// Numbers that encode alike are the same number: the eight bytes after
/// the marker are its bits, most significant first.
pub proof fn lemma_number_encoding_injective(a: u64, b: u64)
    ensures
        encoding(Amf0Value::Number(a)).0 == encoding(Amf0Value::Number(b)).0 ==> a == b,
{
    let ea = encoding(Amf0Value::Number(a)).0;
    let eb = encoding(Amf0Value::Number(b)).0;
    if ea == eb {
        let x = be_u64(a);
        let y = be_u64(b);
        assert forall|i: int| 0 <= i < 8 implies x[i] == y[i] by {
            assert(ea[i + 1] == x[i] && eb[i + 1] == y[i]);
        }
        assert(x[0] == y[0] && x[1] == y[1] && x[2] == y[2] && x[3] == y[3]);
        assert(x[4] == y[4] && x[5] == y[5] && x[6] == y[6] && x[7] == y[7]);
        assert(a == b) by (bit_vector)
            requires
                (a >> 56u64) as u8 == (b >> 56u64) as u8,
                (a >> 48u64) as u8 == (b >> 48u64) as u8,
                (a >> 40u64) as u8 == (b >> 40u64) as u8,
                (a >> 32u64) as u8 == (b >> 32u64) as u8,
                (a >> 24u64) as u8 == (b >> 24u64) as u8,
                (a >> 16u64) as u8 == (b >> 16u64) as u8,
                (a >> 8u64) as u8 == (b >> 8u64) as u8,
                a as u8 == b as u8,
        ;
    }
}

} // verus!
