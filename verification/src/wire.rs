//! The flat form in which a decoded frame is shown: one attribute for each
//! leaf, named by its path, the members of a composite under
//! `parent.child`.

use crate::frame::{FrameType, RealValue, TypeFrame, TypeValue};
use vstd::prelude::*;
use vstd::string::*;

verus! {

/// The value of a leaf.
#[derive(Debug)]
pub enum AttributeValue {
    Unsigned(u64),
    Signed(i64),
    Real(RealValue),
    Symbol(String),
}

#[derive(Debug)]
pub struct SerializedAttribute {
    pub name: String,
    pub value: AttributeValue,
}

#[derive(Clone, Copy, Debug, PartialEq, Eq, Structural)]
pub enum FlattenError {
    /// A top-level list stands inside a value.
    NestedRoot,
    /// Arrays have no flat form.
    Array,
}

/// A leaf value with the text of its symbol.
pub enum LeafModel {
    Unsigned(u64),
    Signed(i64),
    Real(RealValue),
    Symbol(Seq<char>),
}

impl AttributeValue {
    pub open spec fn model(&self) -> LeafModel {
        match self {
            AttributeValue::Unsigned(v) => LeafModel::Unsigned(*v),
            AttributeValue::Signed(v) => LeafModel::Signed(*v),
            AttributeValue::Real(v) => LeafModel::Real(*v),
            AttributeValue::Symbol(s) => LeafModel::Symbol(s@),
        }
    }
}

/// The attributes as pairs of path and leaf.
pub open spec fn attribute_models(attributes: Seq<SerializedAttribute>) -> Seq<
    (Seq<char>, LeafModel),
> {
    attributes.map_values(|a: SerializedAttribute| (a.name@, a.value.model()))
}

/// The flat form of one named value under the path `prefix`.
pub open spec fn flat_value(prefix: Seq<char>, field: &FrameType) -> Result<
    Seq<(Seq<char>, LeafModel)>,
    FlattenError,
>
    decreases field, 0nat,
{
    match field.value {
        TypeValue::Unsigned(v) => Ok(seq![(prefix + field.name@, LeafModel::Unsigned(v))]),
        TypeValue::Signed(v) => Ok(seq![(prefix + field.name@, LeafModel::Signed(v))]),
        TypeValue::Real(v) => Ok(seq![(prefix + field.name@, LeafModel::Real(v))]),
        TypeValue::Enum(_, symbol) => Ok(seq![(prefix + field.name@, LeafModel::Symbol(symbol@))]),
        TypeValue::Composite(composite) => flat_fields(
            prefix + field.name@ + "."@,
            composite.attributes@,
            composite.attributes@.len(),
        ),
        TypeValue::Root(_) => Err(FlattenError::NestedRoot),
        TypeValue::Array(_) => Err(FlattenError::Array),
    }
}

/// The flat forms of the first `n` fields, one after the other, or the
/// first thing among them that has no flat form.
pub open spec fn flat_fields(prefix: Seq<char>, fields: Seq<FrameType>, n: nat) -> Result<
    Seq<(Seq<char>, LeafModel)>,
    FlattenError,
>
    decreases fields, n,
{
    if n == 0 || n > fields.len() {
        Ok(Seq::empty())
    } else {
        match flat_fields(prefix, fields, (n - 1) as nat) {
            Err(e) => Err(e),
            Ok(before) => match flat_value(prefix, &fields[n - 1]) {
                Err(e) => Err(e),
                Ok(more) => Ok(before + more),
            },
        }
    }
}

pub proof fn lemma_flat_error_stays(prefix: Seq<char>, fields: Seq<FrameType>, n: nat, m: nat)
    requires
        n <= m <= fields.len(),
        flat_fields(prefix, fields, n).is_err(),
    ensures
        flat_fields(prefix, fields, m) == flat_fields(prefix, fields, n),
    decreases m,
{
    if n < m {
        lemma_flat_error_stays(prefix, fields, n, (m - 1) as nat);
    }
}

fn leaf(prefix: &str, name: &String, value: AttributeValue) -> (r: Vec<SerializedAttribute>)
    ensures
        attribute_models(r@) == seq![(prefix@ + name@, value.model())],
{
    let mut path = String::from_str(prefix);
    path.append(name.as_str());
    let mut r: Vec<SerializedAttribute> = Vec::new();
    r.push(SerializedAttribute { name: path, value });
    assert(attribute_models(r@) =~= seq![(prefix@ + name@, value.model())]);
    r
}

/// Flattens one named value under the path `prefix`.
pub fn flatten_value(prefix: &str, field: &FrameType) -> (r: Result<
    Vec<SerializedAttribute>,
    FlattenError,
>)
    ensures
        match r {
            Ok(attributes) => flat_value(prefix@, field) == Ok::<
                Seq<(Seq<char>, LeafModel)>,
                FlattenError,
            >(attribute_models(attributes@)),
            Err(e) => flat_value(prefix@, field) == Err::<
                Seq<(Seq<char>, LeafModel)>,
                FlattenError,
            >(e),
        },
    decreases field, 0nat,
{
    match &field.value {
        TypeValue::Unsigned(v) => Ok(leaf(prefix, &field.name, AttributeValue::Unsigned(*v))),
        TypeValue::Signed(v) => Ok(leaf(prefix, &field.name, AttributeValue::Signed(*v))),
        TypeValue::Real(v) => Ok(leaf(prefix, &field.name, AttributeValue::Real(*v))),
        TypeValue::Enum(_, symbol) => Ok(
            leaf(prefix, &field.name, AttributeValue::Symbol(symbol.clone())),
        ),
        TypeValue::Composite(composite) => {
            let mut path = String::from_str(prefix);
            path.append(field.name.as_str());
            path.append(".");
            flatten_fields(path.as_str(), &composite.attributes)
        },
        TypeValue::Root(_) => Err(FlattenError::NestedRoot),
        TypeValue::Array(_) => Err(FlattenError::Array),
    }
}

/// Flattens the fields, one after the other, under the path `prefix`.
#[verifier::loop_isolation(false)]
pub fn flatten_fields(prefix: &str, fields: &Vec<FrameType>) -> (r: Result<
    Vec<SerializedAttribute>,
    FlattenError,
>)
    ensures
        match r {
            Ok(attributes) => flat_fields(prefix@, fields@, fields@.len()) == Ok::<
                Seq<(Seq<char>, LeafModel)>,
                FlattenError,
            >(attribute_models(attributes@)),
            Err(e) => flat_fields(prefix@, fields@, fields@.len()) == Err::<
                Seq<(Seq<char>, LeafModel)>,
                FlattenError,
            >(e),
        },
    decreases fields, 1nat,
{
    let mut out: Vec<SerializedAttribute> = Vec::new();
    let mut i: usize = 0;
    assert(attribute_models(out@) =~= Seq::empty());
    while i < fields.len()
        invariant
            i <= fields@.len(),
            flat_fields(prefix@, fields@, i as nat) == Ok::<
                Seq<(Seq<char>, LeafModel)>,
                FlattenError,
            >(attribute_models(out@)),
        decreases fields@.len() - i,
    {
        match flatten_value(prefix, &fields[i]) {
            Err(e) => {
                proof {
                    lemma_flat_error_stays(prefix@, fields@, (i + 1) as nat, fields@.len());
                }
                return Err(e);
            },
            Ok(more) => {
                let ghost before = out@;
                let ghost added = more@;
                let mut more = more;
                out.append(&mut more);
                assert(attribute_models(out@) =~= attribute_models(before) + attribute_models(
                    added,
                ));
            },
        }
        i += 1;
    }
    Ok(out)
}

impl TypeFrame {
    /// The attributes of the frame in their flat form.
    pub fn attributes(&self) -> (r: Result<Vec<SerializedAttribute>, FlattenError>)
        ensures
            match r {
                Ok(attributes) => flat_fields(Seq::empty(), self.value@, self.value@.len()) == Ok::<
                    Seq<(Seq<char>, LeafModel)>,
                    FlattenError,
                >(attribute_models(attributes@)),
                Err(e) => flat_fields(Seq::empty(), self.value@, self.value@.len()) == Err::<
                    Seq<(Seq<char>, LeafModel)>,
                    FlattenError,
                >(e),
            },
    {
        let prefix = String::new();
        flatten_fields(prefix.as_str(), &self.value)
    }
}

} // verus!
