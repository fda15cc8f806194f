//! Decoding a payload word into a value tree as a type lays it out, and
//! encoding a value tree back into the word.

use crate::bits::{
    extract, extract_bits, field_mask, lemma_field_mask_empty, lemma_field_mask_join,
    lemma_place_extract, lemma_truncate_sign_extend, low_mask, mask, place, place_bits,
    sign_extend, sign_extend_raw, signed_fits, truncate_signed, truncate_signed_value,
};
use crate::frame::{
    ArrayTypeValue, CanFrame, CompositeTypeValue, FrameType, RealValue, TypeFrame, TypeValue,
};
use crate::schema::{
    fields_well_formed, fields_width, find_symbol, find_value, lemma_fields_width_mono,
    lemma_find_symbol, lemma_find_value, lemma_same_fields_same_width,
    lemma_same_type_same_width, same_entries, same_fields, same_message, same_text, same_type,
    slot, well_formed, width, Attribute, EnumEntry, Message, MessageId, Type,
};
use vstd::prelude::*;

verus! {

#[derive(Clone, Copy, Debug, PartialEq, Eq, Structural)]
pub enum CodecError {
    /// The fields take more than 64 bits.
    LayoutTooWide,
    /// An enumeration has no entry for the number on the wire.
    EnumValueOutOfRange,
    /// A value is of another kind than its type, or a composite or an array
    /// has other members than its type.
    TypeMismatch,
    /// A value does not fit the bits of its type.
    ValueOutOfRange,
    /// An enumeration has no entry for the symbol.
    UnknownSymbol,
}

/// The width of the type where it fits a payload word.
pub fn bit_width(ty: &Type) -> (r: Option<u64>)
    ensures
        r == (if width(ty) <= 64 {
            Some(width(ty) as u64)
        } else {
            None::<u64>
        }),
    decreases ty, 0nat,
{
    match ty {
        Type::Unsigned { size } => leaf_width(*size),
        Type::Signed { size } => leaf_width(*size),
        Type::Decimal { size, .. } => leaf_width(*size),
        Type::Enum { size, .. } => leaf_width(*size),
        Type::Struct { attribs, .. } => fields_bit_width(attribs),
        Type::Array { len, ty: elem } => {
            let n: usize = *len;
            let elem_width = bit_width(elem);
            if n == 0 {
                assert((n as nat) * width(elem) == 0) by (nonlinear_arith)
                    requires
                        n == 0,
                ;
                Some(0)
            } else {
                match elem_width {
                    None => {
                        assert((n as nat) * width(elem) > 64) by (nonlinear_arith)
                            requires
                                n >= 1,
                                width(elem) > 64,
                        ;
                        None
                    },
                    Some(w) => {
                        if w == 0 {
                            assert((n as nat) * width(elem) == 0) by (nonlinear_arith)
                                requires
                                    width(elem) == 0,
                            ;
                            Some(0)
                        } else if n > 64 {
                            assert((n as nat) * width(elem) > 64) by (nonlinear_arith)
                                requires
                                    n > 64,
                                    width(elem) >= 1,
                            ;
                            None
                        } else {
                            assert((n as nat) * width(elem) <= 64 * 64) by (nonlinear_arith)
                                requires
                                    n <= 64,
                                    width(elem) <= 64,
                            ;
                            let total: u64 = (n as u64) * w;
                            if total > 64 {
                                None
                            } else {
                                Some(total)
                            }
                        }
                    },
                }
            }
        },
    }
}

fn leaf_width(size: u8) -> (r: Option<u64>)
    ensures
        r == (if size <= 64 {
            Some(size as u64)
        } else {
            None::<u64>
        }),
{
    if size <= 64 {
        Some(size as u64)
    } else {
        None
    }
}

/// The width of the fields together where they fit a payload word.
pub fn fields_bit_width(fields: &Vec<Attribute>) -> (r: Option<u64>)
    ensures
        r == (if fields_width(fields@, fields@.len()) <= 64 {
            Some(fields_width(fields@, fields@.len()) as u64)
        } else {
            None::<u64>
        }),
    decreases fields, 1nat,
{
    let mut total: u64 = 0;
    let mut i: usize = 0;
    while i < fields.len()
        invariant
            i <= fields@.len(),
            total == fields_width(fields@, i as nat),
            total <= 64,
        decreases fields@.len() - i,
    {
        proof {
            lemma_fields_width_mono(fields@, (i + 1) as nat, fields@.len());
        }
        match bit_width(&fields[i].ty) {
            None => {
                return None;
            },
            Some(w) => {
                if total + w > 64 {
                    return None;
                }
                total = total + w;
            },
        }
        i += 1;
    }
    Some(total)
}

/// Every enumeration in the type finds the number that the word holds for it.
pub open spec fn decodable(ty: &Type, data: u64, off: nat) -> bool
    decreases ty, 0nat,
{
    match ty {
        Type::Unsigned { .. } => true,
        Type::Signed { .. } => true,
        Type::Decimal { .. } => true,
        Type::Enum { size, entries, .. } => find_value(
            entries@,
            extract_bits(data, off, *size as nat),
            0,
        ).is_some(),
        Type::Struct { attribs, .. } => fields_decodable(attribs@, data, off),
        Type::Array { len, ty: elem } => forall|i: int|
            0 <= i < *len ==> decodable(elem, data, #[trigger] slot(off, i, width(elem))),
    }
}

pub open spec fn fields_decodable(fields: Seq<Attribute>, data: u64, off: nat) -> bool
    decreases fields, 0nat,
{
    forall|i: int|
        0 <= i < fields.len() ==> decodable(
            &(#[trigger] fields[i]).ty,
            data,
            off + fields_width(fields, i as nat),
        )
}

/// `value` is what the bits of `data` from `off` on mean as a `ty`.
pub open spec fn decodes_to(ty: &Type, data: u64, off: nat, value: &TypeValue) -> bool
    decreases ty, 0nat,
{
    match ty {
        Type::Unsigned { size } => *value == TypeValue::Unsigned(
            extract_bits(data, off, *size as nat),
        ),
        Type::Signed { size } => *value == TypeValue::Signed(
            sign_extend(extract_bits(data, off, *size as nat), *size as nat),
        ),
        Type::Decimal { size, scale, offset } => *value == TypeValue::Real(
            RealValue {
                raw: extract_bits(data, off, *size as nat),
                scale: *scale,
                offset: *offset,
            },
        ),
        Type::Enum { name, size, entries } => match value {
            TypeValue::Enum(of, symbol) => of@ == name@ && match find_value(
                entries@,
                extract_bits(data, off, *size as nat),
                0,
            ) {
                Some(i) => symbol@ == entries@[i].name@,
                None => false,
            },
            _ => false,
        },
        Type::Struct { name, attribs } => match value {
            TypeValue::Composite(composite) => composite.ty@ == name@ && fields_decode_to(
                attribs@,
                data,
                off,
                composite.attributes@,
            ),
            _ => false,
        },
        Type::Array { len, ty: elem } => match value {
            TypeValue::Array(array) => array.values@.len() == *len && forall|i: int|
                0 <= i < *len ==> decodes_to(
                    elem,
                    data,
                    slot(off, i, width(elem)),
                    &(#[trigger] array.values@[i]),
                ),
            _ => false,
        },
    }
}

/// `values` holds, under the fields' names and in their order, what the bits
/// of `data` from `off` on mean.
pub open spec fn fields_decode_to(
    fields: Seq<Attribute>,
    data: u64,
    off: nat,
    values: Seq<FrameType>,
) -> bool
    decreases fields, 0nat,
{
    values.len() == fields.len() && forall|i: int|
        0 <= i < fields.len() ==> (#[trigger] values[i]).name@ == fields[i].name@ && decodes_to(
            &fields[i].ty,
            data,
            off + fields_width(fields, i as nat),
            &values[i].value,
        )
}

/// Decodes the bits of `data` from `off` on as a value of `ty`.
#[verifier::loop_isolation(false)]
pub fn decode_value(ty: &Type, data: u64, off: u64) -> (r: Result<TypeValue, CodecError>)
    requires
        off + width(ty) <= 64,
    ensures
        r.is_ok() == decodable(ty, data, off as nat),
        match r {
            Ok(value) => decodes_to(ty, data, off as nat, &value),
            Err(e) => e == CodecError::EnumValueOutOfRange,
        },
    decreases ty, 0nat,
{
    match ty {
        Type::Unsigned { size } => Ok(TypeValue::Unsigned(extract(data, off, *size as u64))),
        Type::Signed { size } => {
            let raw: u64 = extract(data, off, *size as u64);
            Ok(TypeValue::Signed(sign_extend_raw(raw, *size as u64)))
        },
        Type::Decimal { size, scale, offset } => {
            let raw: u64 = extract(data, off, *size as u64);
            Ok(TypeValue::Real(RealValue { raw, scale: *scale, offset: *offset }))
        },
        Type::Enum { name, size, entries } => {
            let raw: u64 = extract(data, off, *size as u64);
            let mut i: usize = 0;
            while i < entries.len()
                invariant
                    i <= entries@.len(),
                    find_value(entries@, raw, 0) == find_value(entries@, raw, i as nat),
                decreases entries@.len() - i,
            {
                if entries[i].value == raw {
                    return Ok(TypeValue::Enum(name.clone(), entries[i].name.clone()));
                }
                i += 1;
            }
            Err(CodecError::EnumValueOutOfRange)
        },
        Type::Struct { name, attribs } => {
            match decode_fields(attribs, data, off) {
                Ok(values) => Ok(
                    TypeValue::Composite(
                        CompositeTypeValue { attributes: values, ty: name.clone() },
                    ),
                ),
                Err(e) => Err(e),
            }
        },
        Type::Array { len, ty: elem } => {
            let n: usize = *len;
            let mut values: Vec<TypeValue> = Vec::new();
            if n == 0 {
                return Ok(TypeValue::Array(ArrayTypeValue { values }));
            }
            let ghost ew: nat = width(elem);
            assert(ew <= (n as nat) * ew) by (nonlinear_arith)
                requires
                    n >= 1,
            ;
            let w: u64 = bit_width(elem).unwrap();
            let mut cur: u64 = off;
            let mut i: usize = 0;
            while i < n
                invariant
                    i <= n,
                    n == *len,
                    w == width(elem),
                    ew == w,
                    off + (n as nat) * ew <= 64,
                    cur == off + i * ew,
                    values@.len() == i,
                    forall|j: int|
                        0 <= j < i ==> decodes_to(
                            elem,
                            data,
                            slot(off as nat, j, width(elem)),
                            &(#[trigger] values@[j]),
                        ),
                    forall|j: int|
                        0 <= j < i ==> decodable(
                            elem,
                            data,
                            #[trigger] slot(off as nat, j, width(elem)),
                        ),
                decreases n - i,
            {
                assert((i + 1) * ew <= (n as nat) * ew && (i + 1) * ew == i * ew + ew)
                    by (nonlinear_arith)
                    requires
                        i < n,
                ;
                match decode_value(elem, data, cur) {
                    Ok(value) => {
                        values.push(value);
                    },
                    Err(e) => {
                        assert(!decodable(elem, data, slot(off as nat, i as int, width(elem))));
                        return Err(e);
                    },
                }
                cur = cur + w;
                i += 1;
            }
            Ok(TypeValue::Array(ArrayTypeValue { values }))
        },
    }
}

/// Decodes the bits of `data` from `off` on as the fields, one after the other.
#[verifier::loop_isolation(false)]
pub fn decode_fields(fields: &Vec<Attribute>, data: u64, off: u64) -> (r: Result<
    Vec<FrameType>,
    CodecError,
>)
    requires
        off + fields_width(fields@, fields@.len()) <= 64,
    ensures
        r.is_ok() == fields_decodable(fields@, data, off as nat),
        match r {
            Ok(values) => fields_decode_to(fields@, data, off as nat, values@),
            Err(e) => e == CodecError::EnumValueOutOfRange,
        },
    decreases fields, 1nat,
{
    let mut values: Vec<FrameType> = Vec::new();
    let mut cur: u64 = off;
    let mut i: usize = 0;
    while i < fields.len()
        invariant
            i <= fields@.len(),
            values@.len() == i,
            cur == off + fields_width(fields@, i as nat),
            off + fields_width(fields@, fields@.len()) <= 64,
            forall|j: int|
                0 <= j < i ==> (#[trigger] values@[j]).name@ == fields@[j].name@ && decodes_to(
                    &fields@[j].ty,
                    data,
                    off as nat + fields_width(fields@, j as nat),
                    &values@[j].value,
                ),
            forall|j: int|
                0 <= j < i ==> decodable(
                    &(#[trigger] fields@[j]).ty,
                    data,
                    off as nat + fields_width(fields@, j as nat),
                ),
        decreases fields@.len() - i,
    {
        proof {
            lemma_fields_width_mono(fields@, (i + 1) as nat, fields@.len());
        }
        let w: u64 = bit_width(&fields[i].ty).unwrap();
        match decode_value(&fields[i].ty, data, cur) {
            Ok(value) => {
                values.push(FrameType { name: fields[i].name.clone(), value });
            },
            Err(e) => {
                assert(!decodable(
                    &fields@[i as int].ty,
                    data,
                    off as nat + fields_width(fields@, i as nat),
                ));
                return Err(e);
            },
        }
        cur = cur + w;
        i += 1;
    }
    Ok(values)
}

/// The bits of a raw number of `size` bits placed at `off`, where it fits.
pub open spec fn raw_encoding(raw: u64, size: nat, off: nat) -> Result<u64, CodecError> {
    if raw <= low_mask(size) {
        Ok(place_bits(raw, off))
    } else {
        Err(CodecError::ValueOutOfRange)
    }
}

/// The bits that `value` takes in the payload word as a `ty` that starts at
/// bit `off`, or else the first thing that keeps it from being encoded.
pub open spec fn encode_value_spec(ty: &Type, value: &TypeValue, off: nat) -> Result<
    u64,
    CodecError,
>
    decreases ty, 0nat,
{
    match ty {
        Type::Unsigned { size } => match value {
            TypeValue::Unsigned(x) => raw_encoding(*x, *size as nat, off),
            _ => Err(CodecError::TypeMismatch),
        },
        Type::Signed { size } => match value {
            TypeValue::Signed(x) => if signed_fits(*x, *size as nat) {
                Ok(place_bits(truncate_signed(*x, *size as nat), off))
            } else {
                Err(CodecError::ValueOutOfRange)
            },
            _ => Err(CodecError::TypeMismatch),
        },
        Type::Decimal { size, .. } => match value {
            TypeValue::Real(decimal) => raw_encoding(decimal.raw, *size as nat, off),
            _ => Err(CodecError::TypeMismatch),
        },
        Type::Enum { size, entries, .. } => match value {
            TypeValue::Enum(_, symbol) => match find_symbol(entries@, symbol@, 0) {
                Some(i) => raw_encoding(entries@[i].value, *size as nat, off),
                None => Err(CodecError::UnknownSymbol),
            },
            _ => Err(CodecError::TypeMismatch),
        },
        Type::Struct { attribs, .. } => match value {
            TypeValue::Composite(composite) => encode_fields_spec(
                attribs@,
                composite.attributes@,
                off,
            ),
            _ => Err(CodecError::TypeMismatch),
        },
        Type::Array { len, ty: elem } => match value {
            TypeValue::Array(array) => if array.values@.len() != *len {
                Err(CodecError::TypeMismatch)
            } else {
                encode_elems_spec(elem, array.values@, off, *len as nat)
            },
            _ => Err(CodecError::TypeMismatch),
        },
    }
}

/// The bits that the values take as the fields, one after the other from bit
/// `off` on. The values must be as many as the fields and bear their names.
pub open spec fn encode_fields_spec(fields: Seq<Attribute>, values: Seq<FrameType>, off: nat)
    -> Result<u64, CodecError>
    decreases fields, fields.len() + 1,
{
    if values.len() != fields.len() {
        Err(CodecError::TypeMismatch)
    } else {
        encode_prefix_spec(fields, values, off, fields.len())
    }
}

/// The bits of the first `n` fields.
pub open spec fn encode_prefix_spec(
    fields: Seq<Attribute>,
    values: Seq<FrameType>,
    off: nat,
    n: nat,
) -> Result<u64, CodecError>
    decreases fields, n,
{
    if n == 0 || n > fields.len() || n > values.len() {
        Ok(0)
    } else {
        match encode_prefix_spec(fields, values, off, (n - 1) as nat) {
            Err(e) => Err(e),
            Ok(before) => if values[n - 1].name@ != fields[n - 1].name@ {
                Err(CodecError::TypeMismatch)
            } else {
                match encode_value_spec(
                    &fields[n - 1].ty,
                    &values[n - 1].value,
                    off + fields_width(fields, (n - 1) as nat),
                ) {
                    Err(e) => Err(e),
                    Ok(bits) => Ok(before | bits),
                }
            },
        }
    }
}

/// The bits of the first `n` elements of an array.
pub open spec fn encode_elems_spec(elem: &Type, values: Seq<TypeValue>, off: nat, n: nat) -> Result<
    u64,
    CodecError,
>
    decreases elem, n,
{
    if n == 0 || n > values.len() {
        Ok(0)
    } else {
        match encode_elems_spec(elem, values, off, (n - 1) as nat) {
            Err(e) => Err(e),
            Ok(before) => match encode_value_spec(
                elem,
                &values[n - 1],
                slot(off, n - 1, width(elem)),
            ) {
                Err(e) => Err(e),
                Ok(bits) => Ok(before | bits),
            },
        }
    }
}

fn encode_raw(raw: u64, size: u64, off: u64) -> (r: Result<u64, CodecError>)
    ensures
        r == raw_encoding(raw, size as nat, off as nat),
{
    if raw <= mask(size) {
        Ok(place(raw, off))
    } else {
        Err(CodecError::ValueOutOfRange)
    }
}

/// Encodes `value` as a `ty` that starts at bit `off`.
#[verifier::loop_isolation(false)]
pub fn encode_value(ty: &Type, value: &TypeValue, off: u64) -> (r: Result<u64, CodecError>)
    requires
        off + width(ty) <= 64,
    ensures
        r == encode_value_spec(ty, value, off as nat),
    decreases ty, 0nat,
{
    match ty {
        Type::Unsigned { size } => match value {
            TypeValue::Unsigned(x) => encode_raw(*x, *size as u64, off),
            _ => Err(CodecError::TypeMismatch),
        },
        Type::Signed { size } => match value {
            TypeValue::Signed(x) => {
                let raw: u64 = truncate_signed_value(*x, *size as u64);
                if sign_extend_raw(raw, *size as u64) == *x {
                    Ok(place(raw, off))
                } else {
                    Err(CodecError::ValueOutOfRange)
                }
            },
            _ => Err(CodecError::TypeMismatch),
        },
        Type::Decimal { size, .. } => match value {
            TypeValue::Real(decimal) => encode_raw(decimal.raw, *size as u64, off),
            _ => Err(CodecError::TypeMismatch),
        },
        Type::Enum { size, entries, .. } => match value {
            TypeValue::Enum(_, symbol) => {
                let mut i: usize = 0;
                while i < entries.len()
                    invariant
                        i <= entries@.len(),
                        find_symbol(entries@, symbol@, 0) == find_symbol(
                            entries@,
                            symbol@,
                            i as nat,
                        ),
                    decreases entries@.len() - i,
                {
                    if entries[i].name == *symbol {
                        return encode_raw(entries[i].value, *size as u64, off);
                    }
                    i += 1;
                }
                Err(CodecError::UnknownSymbol)
            },
            _ => Err(CodecError::TypeMismatch),
        },
        Type::Struct { attribs, .. } => match value {
            TypeValue::Composite(composite) => encode_fields(attribs, &composite.attributes, off),
            _ => Err(CodecError::TypeMismatch),
        },
        Type::Array { len, ty: elem } => match value {
            TypeValue::Array(array) => {
                let n: usize = *len;
                if array.values.len() != n {
                    return Err(CodecError::TypeMismatch);
                }
                if n == 0 {
                    return Ok(0);
                }
                let ghost ew: nat = width(elem);
                assert(ew <= (n as nat) * ew) by (nonlinear_arith)
                    requires
                        n >= 1,
                ;
                let w: u64 = bit_width(elem).unwrap();
                let mut word: u64 = 0;
                let mut cur: u64 = off;
                let mut i: usize = 0;
                while i < n
                    invariant
                        i <= n,
                        ew == w,
                        cur == off + i * ew,
                        encode_elems_spec(elem, array.values@, off as nat, i as nat) == Ok::<
                            u64,
                            CodecError,
                        >(word),
                    decreases n - i,
                {
                    assert((i + 1) * ew <= (n as nat) * ew && (i + 1) * ew == i * ew + ew)
                        by (nonlinear_arith)
                        requires
                            i < n,
                    ;
                    match encode_value(elem, &array.values[i], cur) {
                        Ok(bits) => {
                            word = word | bits;
                        },
                        Err(e) => {
                            proof {
                                lemma_elems_error_stays(
                                    elem,
                                    array.values@,
                                    off as nat,
                                    (i + 1) as nat,
                                    n as nat,
                                );
                            }
                            return Err(e);
                        },
                    }
                    cur = cur + w;
                    i += 1;
                }
                Ok(word)
            },
            _ => Err(CodecError::TypeMismatch),
        },
    }
}

/// Encodes the values as the fields, one after the other from bit `off` on.
#[verifier::loop_isolation(false)]
pub fn encode_fields(fields: &Vec<Attribute>, values: &Vec<FrameType>, off: u64) -> (r: Result<
    u64,
    CodecError,
>)
    requires
        off + fields_width(fields@, fields@.len()) <= 64,
    ensures
        r == encode_fields_spec(fields@, values@, off as nat),
    decreases fields, 1nat,
{
    if values.len() != fields.len() {
        return Err(CodecError::TypeMismatch);
    }
    let mut word: u64 = 0;
    let mut cur: u64 = off;
    let mut i: usize = 0;
    while i < fields.len()
        invariant
            i <= fields@.len(),
            cur == off + fields_width(fields@, i as nat),
            encode_prefix_spec(fields@, values@, off as nat, i as nat) == Ok::<u64, CodecError>(
                word,
            ),
        decreases fields@.len() - i,
    {
        proof {
            lemma_fields_width_mono(fields@, (i + 1) as nat, fields@.len());
        }
        let w: u64 = bit_width(&fields[i].ty).unwrap();
        if values[i].name != fields[i].name {
            proof {
                lemma_prefix_error_stays(
                    fields@,
                    values@,
                    off as nat,
                    (i + 1) as nat,
                    fields@.len(),
                );
            }
            return Err(CodecError::TypeMismatch);
        }
        match encode_value(&fields[i].ty, &values[i].value, cur) {
            Ok(bits) => {
                word = word | bits;
            },
            Err(e) => {
                proof {
                    lemma_prefix_error_stays(
                        fields@,
                        values@,
                        off as nat,
                        (i + 1) as nat,
                        fields@.len(),
                    );
                }
                return Err(e);
            },
        }
        cur = cur + w;
        i += 1;
    }
    Ok(word)
}

/// What keeps the first fields from being encoded keeps all of them.
pub proof fn lemma_prefix_error_stays(
    fields: Seq<Attribute>,
    values: Seq<FrameType>,
    off: nat,
    n: nat,
    m: nat,
)
    requires
        n <= m <= fields.len(),
        m <= values.len(),
        encode_prefix_spec(fields, values, off, n).is_err(),
    ensures
        encode_prefix_spec(fields, values, off, m) == encode_prefix_spec(fields, values, off, n),
    decreases m,
{
    if n < m {
        lemma_prefix_error_stays(fields, values, off, n, (m - 1) as nat);
    }
}

/// What keeps the first elements from being encoded keeps all of them.
pub proof fn lemma_elems_error_stays(elem: &Type, values: Seq<TypeValue>, off: nat, n: nat, m: nat)
    requires
        n <= m <= values.len(),
        encode_elems_spec(elem, values, off, n).is_err(),
    ensures
        encode_elems_spec(elem, values, off, m) == encode_elems_spec(elem, values, off, n),
    decreases m,
{
    if n < m {
        lemma_elems_error_stays(elem, values, off, n, (m - 1) as nat);
    }
}

/// Encoding what was decoded gives back the bits it was decoded from, and
/// no others.
pub proof fn lemma_encode_decoded(ty: &Type, data: u64, off: nat, value: &TypeValue)
    requires
        well_formed(ty),
        off + width(ty) <= 64,
        decodes_to(ty, data, off, value),
    ensures
        encode_value_spec(ty, value, off) == Ok::<u64, CodecError>(
            data & field_mask(off, width(ty)),
        ),
    decreases ty, 0nat,
{
    match ty {
        Type::Unsigned { size } => {
            lemma_place_extract(data, off, *size as nat);
        },
        Type::Signed { size } => {
            lemma_place_extract(data, off, *size as nat);
            lemma_truncate_sign_extend(extract_bits(data, off, *size as nat), *size as nat);
        },
        Type::Decimal { size, .. } => {
            lemma_place_extract(data, off, *size as nat);
        },
        Type::Enum { size, entries, .. } => {
            let raw = extract_bits(data, off, *size as nat);
            lemma_place_extract(data, off, *size as nat);
            lemma_find_value(entries@, raw, 0);
            lemma_find_symbol(entries@, find_value(entries@, raw, 0).unwrap(), 0);
        },
        Type::Struct { attribs, .. } => match value {
            TypeValue::Composite(composite) => {
                lemma_encode_decoded_fields(
                    attribs@,
                    data,
                    off,
                    composite.attributes@,
                    attribs@.len(),
                );
            },
            _ => {},
        },
        Type::Array { len, ty: elem } => match value {
            TypeValue::Array(array) => {
                lemma_encode_decoded_elems(elem, data, off, array.values@, *len as nat);
            },
            _ => {},
        },
    }
}

/// Encoding the first `n` decoded fields gives back the bits of those fields.
pub proof fn lemma_encode_decoded_fields(
    fields: Seq<Attribute>,
    data: u64,
    off: nat,
    values: Seq<FrameType>,
    n: nat,
)
    requires
        fields_well_formed(fields),
        off + fields_width(fields, fields.len()) <= 64,
        fields_decode_to(fields, data, off, values),
        n <= fields.len(),
    ensures
        encode_prefix_spec(fields, values, off, n) == Ok::<u64, CodecError>(
            data & field_mask(off, fields_width(fields, n)),
        ),
    decreases fields, n,
{
    if n == 0 {
        lemma_field_mask_empty(data, off);
    } else {
        let before = fields_width(fields, (n - 1) as nat);
        lemma_encode_decoded_fields(fields, data, off, values, (n - 1) as nat);
        lemma_fields_width_mono(fields, n, fields.len());
        assert(values[n - 1].name@ == fields[n - 1].name@);
        lemma_encode_decoded(&fields[n - 1].ty, data, off + before, &values[n - 1].value);
        lemma_field_mask_join(data, off, before, width(&fields[n - 1].ty));
    }
}

/// Encoding the first `n` decoded elements gives back the bits of those
/// elements.
pub proof fn lemma_encode_decoded_elems(
    elem: &Type,
    data: u64,
    off: nat,
    values: Seq<TypeValue>,
    n: nat,
)
    requires
        well_formed(elem),
        off + values.len() * width(elem) <= 64,
        n <= values.len(),
        forall|i: int|
            0 <= i < values.len() ==> decodes_to(
                elem,
                data,
                slot(off, i, width(elem)),
                &(#[trigger] values[i]),
            ),
    ensures
        encode_elems_spec(elem, values, off, n) == Ok::<u64, CodecError>(
            data & field_mask(off, n * width(elem)),
        ),
    decreases elem, n,
{
    let w = width(elem);
    if n == 0 {
        lemma_field_mask_empty(data, off);
        assert(n * w == 0) by (nonlinear_arith)
            requires
                n == 0,
        ;
    } else {
        lemma_encode_decoded_elems(elem, data, off, values, (n - 1) as nat);
        assert((n - 1) * w + w == n * w && n * w <= values.len() * w) by (nonlinear_arith)
            requires
                1 <= n <= values.len(),
        ;
        assert(decodes_to(elem, data, slot(off, n - 1, w), &values[n - 1]));
        lemma_encode_decoded(elem, data, slot(off, n - 1, w), &values[n - 1]);
        lemma_field_mask_join(data, off, ((n - 1) * w) as nat, w);
    }
}

/// What a parser makes of a raw frame: the decoded frame, or the raw frame
/// itself where it is not of the parser's message.
#[derive(Debug)]
pub enum Frame {
    TypeFrame(TypeFrame),
    UndefinedFrame(CanFrame),
}

/// Decodes the frames of one message.
pub struct TypeFrameParser {
    pub message: Message,
}

/// The frame bears the identifier of the message, in the message's
/// identifier space.
pub open spec fn frame_of_message(message: &Message, frame: &CanFrame) -> bool {
    match message.id {
        MessageId::StandardId(id) => !frame.ide && frame.id == id,
        MessageId::ExtendedId(id) => frame.ide && frame.id == id,
    }
}

/// `decoded` is the raw frame read as the message: the frame's header and
/// payload word, the message's name and description, and the payload decoded
/// as the message's fields from bit 0 on.
pub open spec fn frame_decodes_to(message: &Message, frame: &CanFrame, decoded: &TypeFrame) -> bool {
    &&& decoded.id == frame.id
    &&& decoded.ide == frame.ide
    &&& decoded.rtr == frame.rtr
    &&& decoded.dlc == frame.dlc
    &&& decoded.data == frame.data
    &&& decoded.name@ == message.name@
    &&& same_text(&decoded.description, &message.description)
    &&& fields_decode_to(message.fields@, frame.data, 0, decoded.value@)
}

/// The raw frame that a decoded frame stands for: its header, and its values
/// encoded as the message's fields from bit 0 on.
pub open spec fn encode_frame_spec(message: &Message, decoded: &TypeFrame) -> Result<
    CanFrame,
    CodecError,
> {
    if fields_width(message.fields@, message.fields@.len()) > 64 {
        Err(CodecError::LayoutTooWide)
    } else {
        match encode_fields_spec(message.fields@, decoded.value@, 0) {
            Err(e) => Err(e),
            Ok(word) => Ok(
                CanFrame {
                    id: decoded.id,
                    ide: decoded.ide,
                    rtr: decoded.rtr,
                    dlc: decoded.dlc,
                    data: word,
                },
            ),
        }
    }
}

impl TypeFrameParser {
    pub fn new(message: Message) -> (parser: Self)
        ensures
            parser.message == message,
    {
        Self { message }
    }

    /// Decodes a frame of the parser's message; a frame of another message
    /// is handed back as it is.
    pub fn parse(&self, frame: &CanFrame) -> (r: Result<Frame, CodecError>)
        ensures
            !frame_of_message(&self.message, frame) ==> r == Ok::<Frame, CodecError>(
                Frame::UndefinedFrame(*frame),
            ),
            frame_of_message(&self.message, frame) ==> match r {
                Ok(Frame::TypeFrame(decoded)) => {
                    &&& fields_width(self.message.fields@, self.message.fields@.len()) <= 64
                    &&& fields_decodable(self.message.fields@, frame.data, 0)
                    &&& frame_decodes_to(&self.message, frame, &decoded)
                },
                Ok(Frame::UndefinedFrame(_)) => false,
                Err(e) => if fields_width(self.message.fields@, self.message.fields@.len())
                    > 64 {
                    e == CodecError::LayoutTooWide
                } else {
                    e == CodecError::EnumValueOutOfRange && !fields_decodable(
                        self.message.fields@,
                        frame.data,
                        0,
                    )
                },
            },
    {
        let of_message = match self.message.id {
            MessageId::StandardId(id) => !frame.ide && frame.id == id,
            MessageId::ExtendedId(id) => frame.ide && frame.id == id,
        };
        if !of_message {
            return Ok(Frame::UndefinedFrame(*frame));
        }
        if fields_bit_width(&self.message.fields).is_none() {
            return Err(CodecError::LayoutTooWide);
        }
        match decode_fields(&self.message.fields, frame.data, 0) {
            Err(e) => Err(e),
            Ok(value) => {
                let description = match &self.message.description {
                    Some(text) => Some(text.clone()),
                    None => None,
                };
                Ok(
                    Frame::TypeFrame(
                        TypeFrame {
                            id: frame.id,
                            ide: frame.ide,
                            rtr: frame.rtr,
                            dlc: frame.dlc,
                            value,
                            name: self.message.name.clone(),
                            description,
                            data: frame.data,
                        },
                    ),
                )
            },
        }
    }
}

/// The payload word holds no bit beyond the fields of the message.
pub open spec fn payload_fits(message: &Message, frame: &CanFrame) -> bool {
    frame.data & low_mask(fields_width(message.fields@, message.fields@.len())) == frame.data
}

/// Tells whether the fields of the message fit the payload word and the
/// word of the frame holds no bit beyond them.
pub fn payload_fits_layout(message: &Message, frame: &CanFrame) -> (fits: bool)
    ensures
        fits == (fields_width(message.fields@, message.fields@.len()) <= 64 && payload_fits(
            message,
            frame,
        )),
{
    match fields_bit_width(&message.fields) {
        None => false,
        Some(total) => frame.data & mask(total) == frame.data,
    }
}

/// Encodes a decoded frame of the message into the raw frame it stands for.
pub fn encode_frame(message: &Message, decoded: &TypeFrame) -> (r: Result<CanFrame, CodecError>)
    ensures
        r == encode_frame_spec(message, decoded),
{
    if fields_bit_width(&message.fields).is_none() {
        return Err(CodecError::LayoutTooWide);
    }
    match encode_fields(&message.fields, &decoded.value, 0) {
        Err(e) => Err(e),
        Ok(word) => Ok(
            CanFrame {
                id: decoded.id,
                ide: decoded.ide,
                rtr: decoded.rtr,
                dlc: decoded.dlc,
                data: word,
            },
        ),
    }
}

/// For every message whose enumerations have distinct symbols and whose
/// fields fit the payload word, and every raw frame that holds no bit beyond
/// those fields: encoding the frame that it decodes to gives the raw frame
/// back.
pub proof fn lemma_encode_inverts_decode(message: &Message, frame: &CanFrame, decoded: &TypeFrame)
    requires
        fields_well_formed(message.fields@),
        fields_width(message.fields@, message.fields@.len()) <= 64,
        payload_fits(message, frame),
        frame_decodes_to(message, frame, decoded),
    ensures
        encode_frame_spec(message, decoded) == Ok::<CanFrame, CodecError>(*frame),
{
    let total = fields_width(message.fields@, message.fields@.len());
    lemma_encode_decoded_fields(message.fields@, frame.data, 0, decoded.value@, message.fields@.len());
    let m: u64 = low_mask(total);
    let d: u64 = frame.data;
    assert(low_mask(0) == 0) by (bit_vector);
    assert(d & (m & !0u64) == d & m) by (bit_vector);
}

/// Tables that are the same find the same entry for a number.
pub proof fn lemma_same_entries_find_alike(
    a: Seq<EnumEntry>,
    b: Seq<EnumEntry>,
    raw: u64,
    from: nat,
)
    requires
        same_entries(a, b),
    ensures
        find_value(a, raw, from) == find_value(b, raw, from),
    decreases a.len() - from,
{
    if from < a.len() {
        assert(a[from as int].value == b[from as int].value);
        if a[from as int].value != raw {
            lemma_same_entries_find_alike(a, b, raw, from + 1);
        }
    }
}

/// What a payload means as a type, it means as every type that is the same.
pub proof fn lemma_same_type_decodes_alike(
    a: &Type,
    b: &Type,
    data: u64,
    off: nat,
    value: &TypeValue,
)
    requires
        same_type(a, b),
        decodes_to(a, data, off, value),
    ensures
        decodes_to(b, data, off, value),
    decreases a, 0nat,
{
    match a {
        Type::Unsigned { .. } => {},
        Type::Signed { .. } => {},
        Type::Decimal { .. } => {},
        Type::Enum { size, entries, .. } => match b {
            Type::Enum { entries: other, .. } => {
                let raw = extract_bits(data, off, *size as nat);
                lemma_same_entries_find_alike(entries@, other@, raw, 0);
                lemma_find_value(entries@, raw, 0);
                let i = find_value(entries@, raw, 0).unwrap();
                assert(entries@[i].name@ == other@[i].name@);
            },
            _ => {},
        },
        Type::Struct { attribs, .. } => match b {
            Type::Struct { attribs: other, .. } => match value {
                TypeValue::Composite(composite) => {
                    lemma_same_fields_decode_alike(
                        attribs@,
                        other@,
                        data,
                        off,
                        composite.attributes@,
                    );
                },
                _ => {},
            },
            _ => {},
        },
        Type::Array { len, ty } => match b {
            Type::Array { ty: other, .. } => match value {
                TypeValue::Array(array) => {
                    lemma_same_type_same_width(ty, other);
                    assert forall|i: int| 0 <= i < *len implies decodes_to(
                        other,
                        data,
                        slot(off, i, width(other)),
                        &(#[trigger] array.values@[i]),
                    ) by {
                        lemma_same_type_decodes_alike(
                            ty,
                            other,
                            data,
                            slot(off, i, width(ty)),
                            &array.values@[i],
                        );
                    }
                },
                _ => {},
            },
            _ => {},
        },
    }
}

/// What a payload means as fields, it means as all fields that are the
/// same.
pub proof fn lemma_same_fields_decode_alike(
    a: Seq<Attribute>,
    b: Seq<Attribute>,
    data: u64,
    off: nat,
    values: Seq<FrameType>,
)
    requires
        same_fields(a, b),
        fields_decode_to(a, data, off, values),
    ensures
        fields_decode_to(b, data, off, values),
    decreases a, 1nat,
{
    assert forall|i: int| 0 <= i < b.len() implies (#[trigger] values[i]).name@ == b[i].name@
        && decodes_to(&b[i].ty, data, off + fields_width(b, i as nat), &values[i].value) by {
        assert(a[i].name@ == b[i].name@ && same_type(&a[i].ty, &b[i].ty));
        lemma_same_fields_same_width(a, b, i as nat);
        lemma_same_type_decodes_alike(
            &a[i].ty,
            &b[i].ty,
            data,
            off + fields_width(a, i as nat),
            &values[i].value,
        );
    }
}

/// A copy of a message reads every frame as the message does.
pub proof fn lemma_same_message_decodes_alike(
    a: &Message,
    b: &Message,
    frame: &CanFrame,
    decoded: &TypeFrame,
)
    requires
        same_message(a, b),
    ensures
        frame_of_message(a, frame) == frame_of_message(b, frame),
        fields_width(a.fields@, a.fields@.len()) == fields_width(b.fields@, b.fields@.len()),
        frame_decodes_to(a, frame, decoded) ==> frame_decodes_to(b, frame, decoded),
{
    lemma_same_fields_same_width(a.fields@, b.fields@, a.fields@.len());
    if frame_decodes_to(a, frame, decoded) {
        lemma_same_fields_decode_alike(a.fields@, b.fields@, frame.data, 0, decoded.value@);
    }
}

} // verus!
