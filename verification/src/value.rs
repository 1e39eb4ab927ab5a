//! The values that a parse gives and that output takes.

use vstd::prelude::*;
use crate::strmap;
use crate::strmap::StrMap;
use crate::text::eq;

verus! {

broadcast use vstd::string::group_string_axioms;

/// A value. Binary floating point numbers are kept as text.
#[derive(Debug)]
pub enum DfdlValue {
    Null,
    Boolean(bool),
    Int(i32),
    Integer(String),
    Long(i64),
    UnsignedLong(u64),
    Short(i16),
    Byte(i8),
    UnsignedInt(u32),
    UnsignedShort(u16),
    UnsignedByte(u8),
    Float(String),
    Double(String),
    Decimal(String),
    DateTime(String),
    String(String),
    HexBinary(Vec<u8>),
    /// The bytes of a large object.
    Blob(Vec<u8>),
    /// The occurrences of an element or group.
    Array(Vec<DfdlValue>),
    Sequence(StrMap<DfdlValue>),
    Choice {
        /// The name of the element that was chosen.
        discriminator: String,
        value: Box<DfdlValue>,
    },
}

/// What a [`DfdlValue`] holds, its text as character sequences.
#[verifier::ext_equal]
pub enum DfdlValueModel {
    Null,
    Boolean(bool),
    Int(i32),
    Integer(Seq<char>),
    Long(i64),
    UnsignedLong(u64),
    Short(i16),
    Byte(i8),
    UnsignedInt(u32),
    UnsignedShort(u16),
    UnsignedByte(u8),
    Float(Seq<char>),
    Double(Seq<char>),
    Decimal(Seq<char>),
    DateTime(Seq<char>),
    String(Seq<char>),
    HexBinary(Seq<u8>),
    Blob(Seq<u8>),
    Array(Seq<DfdlValueModel>),
    Sequence(Seq<(Seq<char>, DfdlValueModel)>),
    Choice { discriminator: Seq<char>, value: Box<DfdlValueModel> },
}

/// What each value of a list holds.
pub open spec fn item_models(v: Vec<DfdlValue>) -> Seq<DfdlValueModel>
    decreases v,
{
    Seq::new(
        v@.len(),
        |i: int|
            if 0 <= i < v@.len() {
                v@[i].model()
            } else {
                arbitrary()
            },
    )
}

/// What each field holds.
pub open spec fn field_models(v: Vec<(String, DfdlValue)>) -> Seq<(Seq<char>, DfdlValueModel)>
    decreases v,
{
    Seq::new(
        v@.len(),
        |i: int|
            if 0 <= i < v@.len() {
                (v@[i].0@, v@[i].1.model())
            } else {
                arbitrary()
            },
    )
}

impl DfdlValue {
    /// What the value holds.
    pub open spec fn model(self) -> DfdlValueModel
        decreases self,
    {
        match self {
            DfdlValue::Null => DfdlValueModel::Null,
            DfdlValue::Boolean(v) => DfdlValueModel::Boolean(v),
            DfdlValue::Int(v) => DfdlValueModel::Int(v),
            DfdlValue::Integer(v) => DfdlValueModel::Integer(v@),
            DfdlValue::Long(v) => DfdlValueModel::Long(v),
            DfdlValue::UnsignedLong(v) => DfdlValueModel::UnsignedLong(v),
            DfdlValue::Short(v) => DfdlValueModel::Short(v),
            DfdlValue::Byte(v) => DfdlValueModel::Byte(v),
            DfdlValue::UnsignedInt(v) => DfdlValueModel::UnsignedInt(v),
            DfdlValue::UnsignedShort(v) => DfdlValueModel::UnsignedShort(v),
            DfdlValue::UnsignedByte(v) => DfdlValueModel::UnsignedByte(v),
            DfdlValue::Float(v) => DfdlValueModel::Float(v@),
            DfdlValue::Double(v) => DfdlValueModel::Double(v@),
            DfdlValue::Decimal(v) => DfdlValueModel::Decimal(v@),
            DfdlValue::DateTime(v) => DfdlValueModel::DateTime(v@),
            DfdlValue::String(v) => DfdlValueModel::String(v@),
            DfdlValue::HexBinary(v) => DfdlValueModel::HexBinary(v@),
            DfdlValue::Blob(v) => DfdlValueModel::Blob(v@),
            DfdlValue::Array(v) => DfdlValueModel::Array(item_models(v)),
            DfdlValue::Sequence(m) => DfdlValueModel::Sequence(field_models(m.entries)),
            DfdlValue::Choice { discriminator, value } => DfdlValueModel::Choice {
                discriminator: discriminator@,
                value: Box::new(value.model()),
            },
        }
    }
}

impl View for DfdlValue {
    type V = DfdlValueModel;

    open spec fn view(&self) -> DfdlValueModel {
        self.model()
    }
}

impl DeepView for DfdlValue {
    type V = DfdlValueModel;

    open spec fn deep_view(&self) -> DfdlValueModel {
        self.model()
    }
}

/// Fields hold what their values hold.
pub proof fn lemma_fields(m: StrMap<DfdlValue>)
    ensures
        m@ == field_models(m.entries),
{
    let e = field_models(m.entries);
    assert(m@.len() == e.len());
    assert forall|i: int| 0 <= i < e.len() implies #[trigger] m@[i] == e[i] by {
        assert(m@[i] == m.entries@[i].deep_view());
    }
    assert(m@ =~= e);
}

/// The optional value that an optional reference is to.
pub open spec fn ref_model(o: Option<&DfdlValue>) -> Option<DfdlValueModel> {
    match o {
        Some(v) => Some(v@),
        None => None,
    }
}

/// The part of a value with this name: the chosen element, a field, or what they
/// hold where there is only one.
pub open spec fn field_of(v: DfdlValueModel, name: Seq<char>) -> Option<DfdlValueModel>
    decreases v,
{
    match v {
        DfdlValueModel::Choice { discriminator, value } => if discriminator == name {
            Some(*value)
        } else {
            field_of(*value, name)
        },
        DfdlValueModel::Sequence(fields) => match strmap::lookup(fields, name) {
            Some(x) => Some(x),
            None => if fields.len() == 1 {
                field_of(fields[0].1, name)
            } else {
                None
            },
        },
        _ => None,
    }
}

impl DfdlValue {
    /// The value as a truth value.
    pub fn as_bool(&self) -> (r: Option<bool>)
        ensures
            r == (match self@ {
                DfdlValueModel::Boolean(v) => Some(v),
                _ => None,
            }),
    {
        match self {
            DfdlValue::Boolean(v) => Some(*v),
            _ => None,
        }
    }

    /// The value as a number of 32 bits.
    pub fn as_i32(&self) -> (r: Option<i32>)
        ensures
            r == (match self@ {
                DfdlValueModel::Int(v) => Some(v),
                _ => None,
            }),
    {
        match self {
            DfdlValue::Int(v) => Some(*v),
            _ => None,
        }
    }

    /// The value as a number of 64 bits, also from one of 32 bits.
    pub fn as_i64(&self) -> (r: Option<i64>)
        ensures
            r == (match self@ {
                DfdlValueModel::Long(v) => Some(v),
                DfdlValueModel::Int(v) => Some(v as i64),
                _ => None,
            }),
    {
        match self {
            DfdlValue::Long(v) => Some(*v),
            DfdlValue::Int(v) => Some(*v as i64),
            _ => None,
        }
    }

    /// The value as text.
    pub fn as_str(&self) -> (r: Option<&str>)
        ensures
            crate::text::ref_opt(r) == (match self@ {
                DfdlValueModel::String(v) => Some(v),
                _ => None,
            }),
    {
        match self {
            DfdlValue::String(v) => Some(v.as_str()),
            _ => None,
        }
    }

    /// The value as bytes.
    pub fn as_bytes(&self) -> (r: Option<&[u8]>)
        ensures
            match (r, self@) {
                (Some(b), DfdlValueModel::HexBinary(v)) => b@ == v,
                (None, DfdlValueModel::HexBinary(_)) => false,
                (Some(_), _) => false,
                (None, _) => true,
            },
    {
        match self {
            DfdlValue::HexBinary(v) => Some(v.as_slice()),
            _ => None,
        }
    }

    /// The part with this name.
    pub fn field(&self, name: &str) -> (r: Option<&DfdlValue>)
        ensures
            ref_model(r) == field_of(self@, name@),
        decreases self,
    {
        match self {
            DfdlValue::Choice { discriminator, value } => {
                if eq(discriminator.as_str(), name) {
                    return Some(value);
                }
                value.field(name)
            },
            DfdlValue::Sequence(map) => {
                proof {
                    lemma_fields(*map);
                }
                if let Some(v) = map.get(name) {
                    return Some(v);
                }
                if map.len() == 1 {
                    return map.entries[0].1.field(name);
                }
                None
            },
            _ => None,
        }
    }

    /// A value with fields.
    pub fn sequence(fields: StrMap<DfdlValue>) -> (r: Self)
        ensures
            r@ == DfdlValueModel::Sequence(fields@),
    {
        proof {
            lemma_fields(fields);
        }
        DfdlValue::Sequence(fields)
    }

    /// A value of a choice.
    pub fn choice(name: String, value: DfdlValue) -> (r: Self)
        ensures
            r@ == (DfdlValueModel::Choice { discriminator: name@, value: Box::new(value@) }),
    {
        DfdlValue::Choice { discriminator: name, value: Box::new(value) }
    }
}

} // verus!
