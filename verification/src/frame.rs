//! Decoded frames: the header of a raw frame beside a tree of named values.

use vstd::prelude::*;

verus! {

/// A raw CAN frame with its payload packed into one word.
#[derive(Clone, Copy, Debug, PartialEq, Eq, Structural)]
pub struct CanFrame {
    pub id: u32,
    pub ide: bool,
    pub rtr: bool,
    pub dlc: u8,
    pub data: u64,
}

impl CanFrame {
    /// At most eight bytes of payload, and an identifier of 11 bits, or of
    /// 29 bits where the frame is extended.
    pub open spec fn well_formed(&self) -> bool {
        self.dlc <= 8 && if self.ide {
            self.id < 0x2000_0000
        } else {
            self.id < 0x800
        }
    }

    pub fn is_well_formed(&self) -> (ok: bool)
        ensures
            ok == self.well_formed(),
    {
        self.dlc <= 8 && if self.ide {
            self.id < 0x2000_0000
        } else {
            self.id < 0x800
        }
    }
}

/// A decimal as it stands on the wire, with the scale and the offset of its
/// type: the number meant is `raw * scale + offset`. Scale and offset are
/// binary64 bit patterns.
#[derive(Clone, Copy, Debug, PartialEq, Eq, Structural)]
pub struct RealValue {
    pub raw: u64,
    pub scale: u64,
    pub offset: u64,
}

#[derive(Debug)]
pub enum TypeValue {
    Unsigned(u64),
    Signed(i64),
    Real(RealValue),
    Composite(CompositeTypeValue),
    Root(Vec<FrameType>),
    /// The name of the enumeration, then the symbol.
    Enum(String, String),
    Array(ArrayTypeValue),
}

/// A named value.
#[derive(Debug)]
pub struct FrameType {
    pub name: String,
    pub value: TypeValue,
}

/// The members of a composite, in the order of its type, and the type's name.
#[derive(Debug)]
pub struct CompositeTypeValue {
    pub attributes: Vec<FrameType>,
    pub ty: String,
}

#[derive(Debug)]
pub struct ArrayTypeValue {
    pub values: Vec<TypeValue>,
}

/// A decoded frame: what the raw frame held, the message's name and
/// description, and one value for each field of the message.
#[derive(Debug)]
pub struct TypeFrame {
    pub id: u32,
    pub ide: bool,
    pub rtr: bool,
    pub dlc: u8,
    pub value: Vec<FrameType>,
    pub name: String,
    pub description: Option<String>,
    pub data: u64,
}

impl TypeFrame {
    pub fn new(
        id: u32,
        ide: bool,
        rtr: bool,
        dlc: u8,
        value: Vec<FrameType>,
        name: String,
        description: Option<String>,
        data: u64,
    ) -> (frame: Self)
        ensures
            frame == (TypeFrame { id, ide, rtr, dlc, value, name, description, data }),
    {
        Self { id, ide, rtr, dlc, value, name, description, data }
    }

    pub fn id(&self) -> (id: u32)
        ensures
            id == self.id,
    {
        self.id
    }

    pub fn ide(&self) -> (ide: bool)
        ensures
            ide == self.ide,
    {
        self.ide
    }

    pub fn rtr(&self) -> (rtr: bool)
        ensures
            rtr == self.rtr,
    {
        self.rtr
    }

    pub fn dlc(&self) -> (dlc: u8)
        ensures
            dlc == self.dlc,
    {
        self.dlc
    }

    pub fn value(&self) -> (value: &Vec<FrameType>)
        ensures
            *value == self.value,
    {
        &self.value
    }

    pub fn into_value(self) -> (value: Vec<FrameType>)
        ensures
            value == self.value,
    {
        self.value
    }

    pub fn name(&self) -> (name: &str)
        ensures
            name@ == self.name@,
    {
        self.name.as_str()
    }

    pub fn description(&self) -> (description: Option<&str>)
        ensures
            match description {
                Some(text) => self.description.is_some() && text@ == self.description.unwrap()@,
                None => self.description.is_none(),
            },
    {
        match &self.description {
            Some(text) => Some(text.as_str()),
            None => None,
        }
    }

    pub fn data(&self) -> (data: u64)
        ensures
            data == self.data,
    {
        self.data
    }
}

/// Two decoded frames are equal when their headers and payload words are:
/// identifier, extended flag, remote flag and word. The values follow from
/// the word; the length and the texts are not compared.
impl PartialEq for TypeFrame {
    fn eq(&self, other: &Self) -> (equal: bool) {
        self.id == other.id && self.ide == other.ide && self.data == other.data && self.rtr
            == other.rtr
    }
}

impl vstd::std_specs::cmp::PartialEqSpecImpl for TypeFrame {
    open spec fn obeys_eq_spec() -> bool {
        true
    }

    open spec fn eq_spec(&self, other: &Self) -> bool {
        self.id == other.id && self.ide == other.ide && self.data == other.data && self.rtr
            == other.rtr
    }
}

impl FrameType {
    pub fn new(name: String, value: TypeValue) -> (field: Self)
        ensures
            field == (FrameType { name, value }),
    {
        Self { name, value }
    }

    pub fn value(&self) -> (value: &TypeValue)
        ensures
            *value == self.value,
    {
        &self.value
    }

    pub fn into_value(self) -> (value: TypeValue)
        ensures
            value == self.value,
    {
        self.value
    }

    pub fn name(&self) -> (name: &str)
        ensures
            name@ == self.name@,
    {
        self.name.as_str()
    }
}

/// The index of the first of the fields from `from` on that is called `name`.
pub open spec fn find_field(fields: Seq<FrameType>, name: Seq<char>, from: nat) -> Option<int>
    decreases fields.len() - from,
{
    if from >= fields.len() {
        None
    } else if fields[from as int].name@ == name {
        Some(from as int)
    } else {
        find_field(fields, name, from + 1)
    }
}

impl CompositeTypeValue {
    pub fn new(attributes: Vec<FrameType>, ty: String) -> (composite: Self)
        ensures
            composite == (CompositeTypeValue { attributes, ty }),
    {
        Self { attributes, ty }
    }

    pub fn attributes(&self) -> (attributes: &Vec<FrameType>)
        ensures
            *attributes == self.attributes,
    {
        &self.attributes
    }

    /// The first member called `index`.
    pub fn at(&self, index: &str) -> (found: Option<&FrameType>)
        ensures
            match found {
                Some(field) => find_field(self.attributes@, index@, 0).is_some() && *field
                    == self.attributes@[find_field(self.attributes@, index@, 0).unwrap()],
                None => find_field(self.attributes@, index@, 0).is_none(),
            },
    {
        let wanted = String::from_str(index);
        let mut i: usize = 0;
        while i < self.attributes.len()
            invariant
                wanted@ == index@,
                i <= self.attributes@.len(),
                find_field(self.attributes@, index@, 0) == find_field(
                    self.attributes@,
                    index@,
                    i as nat,
                ),
            decreases self.attributes@.len() - i,
        {
            if self.attributes[i].name == wanted {
                return Some(&self.attributes[i]);
            }
            i += 1;
        }
        None
    }

    pub fn ty(&self) -> (ty: &str)
        ensures
            ty@ == self.ty@,
    {
        self.ty.as_str()
    }
}

impl ArrayTypeValue {
    pub fn new(values: Vec<TypeValue>) -> (array: Self)
        ensures
            array == (ArrayTypeValue { values }),
    {
        Self { values }
    }

    pub fn size(&self) -> (size: usize)
        ensures
            size == self.values@.len(),
    {
        self.values.len()
    }

    pub fn at(&self, index: usize) -> (found: Option<&TypeValue>)
        ensures
            match found {
                Some(value) => index < self.values@.len() && *value == self.values@[index as int],
                None => index >= self.values@.len(),
            },
    {
        if index < self.values.len() {
            Some(&self.values[index])
        } else {
            None
        }
    }
}

} // verus!
