//! The part of a network description that the codec and the dispatch read.

use vstd::prelude::*;

verus! {

/// A named member of a composite type, or a named field of a message.
pub struct Attribute {
    pub name: String,
    pub ty: Type,
}

/// One symbol of an enumeration and the number that stands for it on the wire.
pub struct EnumEntry {
    pub name: String,
    pub value: u64,
}

/// A value type. Sizes are widths in bits. The scale and the offset of a
/// decimal are kept as the bit patterns of their binary64 form; this library
/// carries them and never computes with them.
pub enum Type {
    Unsigned { size: u8 },
    Signed { size: u8 },
    Decimal { size: u8, scale: u64, offset: u64 },
    Struct { name: String, attribs: Vec<Attribute> },
    Enum { name: String, size: u8, entries: Vec<EnumEntry> },
    Array { len: usize, ty: Box<Type> },
}

/// The number of payload bits that a value of the type takes.
pub open spec fn width(ty: &Type) -> nat
    decreases ty, 0nat,
{
    match ty {
        Type::Unsigned { size } => *size as nat,
        Type::Signed { size } => *size as nat,
        Type::Decimal { size, .. } => *size as nat,
        Type::Enum { size, .. } => *size as nat,
        Type::Struct { attribs, .. } => fields_width(attribs@, attribs@.len()),
        Type::Array { len, ty } => (*len as nat) * width(ty),
    }
}

/// The bit at which element `i` of an array starts that starts at `off` and
/// whose elements take `w` bits each.
pub open spec fn slot(off: nat, i: int, w: nat) -> nat {
    (off + i * w) as nat
}

/// The number of payload bits that the first `n` fields take together.
pub open spec fn fields_width(fields: Seq<Attribute>, n: nat) -> nat
    decreases fields, n,
{
    if n == 0 || n > fields.len() {
        0
    } else {
        fields_width(fields, (n - 1) as nat) + width(&fields[n - 1].ty)
    }
}

/// The index of the first entry from `from` on that stands for `raw`.
pub open spec fn find_value(entries: Seq<EnumEntry>, raw: u64, from: nat) -> Option<int>
    decreases entries.len() - from,
{
    if from >= entries.len() {
        None
    } else if entries[from as int].value == raw {
        Some(from as int)
    } else {
        find_value(entries, raw, from + 1)
    }
}

/// The index of the first entry from `from` on whose symbol is `symbol`.
pub open spec fn find_symbol(entries: Seq<EnumEntry>, symbol: Seq<char>, from: nat) -> Option<int>
    decreases entries.len() - from,
{
    if from >= entries.len() {
        None
    } else if entries[from as int].name@ == symbol {
        Some(from as int)
    } else {
        find_symbol(entries, symbol, from + 1)
    }
}

/// No two entries share a symbol.
pub open spec fn distinct_symbols(entries: Seq<EnumEntry>) -> bool {
    forall|i: int, j: int|
        0 <= i < j < entries.len() ==> (#[trigger] entries[i]).name@ != (#[trigger] entries[j]).name@
}

/// Every enumeration in the type has distinct symbols.
pub open spec fn well_formed(ty: &Type) -> bool
    decreases ty, 0nat,
{
    match ty {
        Type::Unsigned { .. } => true,
        Type::Signed { .. } => true,
        Type::Decimal { .. } => true,
        Type::Enum { entries, .. } => distinct_symbols(entries@),
        Type::Struct { attribs, .. } => fields_well_formed(attribs@),
        Type::Array { ty, .. } => well_formed(ty),
    }
}

pub open spec fn fields_well_formed(fields: Seq<Attribute>) -> bool
    decreases fields, 0nat,
{
    forall|i: int| 0 <= i < fields.len() ==> well_formed(&(#[trigger] fields[i]).ty)
}

/// Tells whether no two entries share a symbol.
#[verifier::loop_isolation(false)]
pub fn symbols_distinct(entries: &Vec<EnumEntry>) -> (distinct: bool)
    ensures
        distinct == distinct_symbols(entries@),
{
    let mut j: usize = 0;
    while j < entries.len()
        invariant
            j <= entries@.len(),
            forall|a: int, b: int|
                0 <= a < b < j ==> (#[trigger] entries@[a]).name@ != (#[trigger] entries@[b]).name@,
        decreases entries@.len() - j,
    {
        let mut i: usize = 0;
        while i < j
            invariant
                i <= j,
                j < entries@.len(),
                forall|a: int| 0 <= a < i ==> (#[trigger] entries@[a]).name@ != entries@[j as int].name@,
            decreases j - i,
        {
            if entries[i].name == entries[j].name {
                assert(entries@[i as int].name@ == entries@[j as int].name@);
                return false;
            }
            i += 1;
        }
        j += 1;
    }
    true
}

/// Tells whether every enumeration in the type has distinct symbols.
#[verifier::loop_isolation(false)]
pub fn type_well_formed(ty: &Type) -> (ok: bool)
    ensures
        ok == well_formed(ty),
    decreases ty, 0nat,
{
    match ty {
        Type::Unsigned { .. } => true,
        Type::Signed { .. } => true,
        Type::Decimal { .. } => true,
        Type::Enum { entries, .. } => symbols_distinct(entries),
        Type::Struct { attribs, .. } => all_well_formed(attribs),
        Type::Array { ty: elem, .. } => type_well_formed(elem),
    }
}

/// Tells whether every enumeration in the fields has distinct symbols.
#[verifier::loop_isolation(false)]
pub fn all_well_formed(fields: &Vec<Attribute>) -> (ok: bool)
    ensures
        ok == fields_well_formed(fields@),
    decreases fields, 1nat,
{
    let mut i: usize = 0;
    while i < fields.len()
        invariant
            i <= fields@.len(),
            forall|j: int| 0 <= j < i ==> well_formed(&(#[trigger] fields@[j]).ty),
        decreases fields@.len() - i,
    {
        if !type_well_formed(&fields[i].ty) {
            assert(!well_formed(&fields@[i as int].ty));
            return false;
        }
        i += 1;
    }
    true
}

/// The first `n` fields take no more bits than the first `m`, for `n <= m`.
pub proof fn lemma_fields_width_mono(fields: Seq<Attribute>, n: nat, m: nat)
    requires
        n <= m <= fields.len(),
    ensures
        fields_width(fields, n) <= fields_width(fields, m),
    decreases m,
{
    if n < m {
        lemma_fields_width_mono(fields, n, (m - 1) as nat);
    }
}

/// A found entry stands for the number that was looked for.
pub proof fn lemma_find_value(entries: Seq<EnumEntry>, raw: u64, from: nat)
    ensures
        match find_value(entries, raw, from) {
            Some(i) => from <= i < entries.len() && entries[i].value == raw,
            None => forall|j: int| from <= j < entries.len() ==> (#[trigger] entries[j]).value != raw,
        },
    decreases entries.len() - from,
{
    if from < entries.len() && entries[from as int].value != raw {
        lemma_find_value(entries, raw, from + 1);
    }
}

/// Among distinct symbols, looking for the symbol of entry `i` finds entry `i`.
pub proof fn lemma_find_symbol(entries: Seq<EnumEntry>, i: int, from: nat)
    requires
        distinct_symbols(entries),
        from <= i < entries.len(),
    ensures
        find_symbol(entries, entries[i].name@, from) == Some(i),
    decreases i - from,
{
    if from < i {
        lemma_find_symbol(entries, i, from + 1);
    }
}

/// A CAN identifier, of the 11-bit or of the 29-bit space.
#[derive(Clone, Copy, Debug, PartialEq, Eq, Structural)]
pub enum MessageId {
    StandardId(u32),
    ExtendedId(u32),
}

/// An object entry, named by its node and its own name.
pub struct EntryRef {
    pub node: String,
    pub entry: String,
}

/// What a message is for. A stream carries one object entry in each field.
pub enum MessageUsage {
    Stream(Vec<Option<EntryRef>>),
    CommandReq,
    CommandResp,
    GetResp,
    GetReq,
    SetResp,
    SetReq,
    Heartbeat,
    External,
}

/// A message of the network: its identifier, the bus that carries it, its
/// purpose, and its fields, which lie in the payload one after the other
/// from bit 0 on.
pub struct Message {
    pub id: MessageId,
    pub bus: usize,
    pub name: String,
    pub description: Option<String>,
    pub usage: MessageUsage,
    pub fields: Vec<Attribute>,
}

/// The two hold the same text, or both hold none.
pub open spec fn same_text(a: &Option<String>, b: &Option<String>) -> bool {
    match (a, b) {
        (Some(x), Some(y)) => x@ == y@,
        (None, None) => true,
        _ => false,
    }
}

/// The two tables hold the same symbols for the same numbers, in the same
/// order.
pub open spec fn same_entries(a: Seq<EnumEntry>, b: Seq<EnumEntry>) -> bool {
    a.len() == b.len() && forall|i: int|
        0 <= i < a.len() ==> (#[trigger] a[i]).name@ == b[i].name@ && a[i].value == b[i].value
}

/// The two types are the same: of one kind, with the same sizes, names,
/// symbols and members.
pub open spec fn same_type(a: &Type, b: &Type) -> bool
    decreases a, 0nat,
{
    match a {
        Type::Unsigned { size } => *b == (Type::Unsigned { size: *size }),
        Type::Signed { size } => *b == (Type::Signed { size: *size }),
        Type::Decimal { size, scale, offset } => *b == (Type::Decimal {
            size: *size,
            scale: *scale,
            offset: *offset,
        }),
        Type::Enum { name, size, entries } => match b {
            Type::Enum { name: other_name, size: other_size, entries: other } => other_name@
                == name@ && other_size == size && same_entries(entries@, other@),
            _ => false,
        },
        Type::Struct { name, attribs } => match b {
            Type::Struct { name: other_name, attribs: other } => other_name@ == name@
                && same_fields(attribs@, other@),
            _ => false,
        },
        Type::Array { len, ty } => match b {
            Type::Array { len: other_len, ty: other } => other_len == len && same_type(ty, other),
            _ => false,
        },
    }
}

/// The two lists hold the same types under the same names, in the same
/// order.
pub open spec fn same_fields(a: Seq<Attribute>, b: Seq<Attribute>) -> bool
    decreases a, 0nat,
{
    a.len() == b.len() && forall|i: int|
        0 <= i < a.len() ==> (#[trigger] a[i]).name@ == b[i].name@ && same_type(
            &a[i].ty,
            &b[i].ty,
        )
}

/// The two name the same object entry, or both name none.
pub open spec fn same_target(a: &Option<EntryRef>, b: &Option<EntryRef>) -> bool {
    match (a, b) {
        (Some(x), Some(y)) => x.node@ == y.node@ && x.entry@ == y.entry@,
        (None, None) => true,
        _ => false,
    }
}

/// The two purposes are the same, with the same targets for a stream.
pub open spec fn same_usage(a: &MessageUsage, b: &MessageUsage) -> bool {
    match a {
        MessageUsage::Stream(targets) => match b {
            MessageUsage::Stream(other) => targets@.len() == other@.len() && forall|i: int|
                0 <= i < targets@.len() ==> same_target(&(#[trigger] targets@[i]), &other@[i]),
            _ => false,
        },
        MessageUsage::CommandReq => b is CommandReq,
        MessageUsage::CommandResp => b is CommandResp,
        MessageUsage::GetResp => b is GetResp,
        MessageUsage::GetReq => b is GetReq,
        MessageUsage::SetResp => b is SetResp,
        MessageUsage::SetReq => b is SetReq,
        MessageUsage::Heartbeat => b is Heartbeat,
        MessageUsage::External => b is External,
    }
}

/// The two messages are the same in every part.
pub open spec fn same_message(a: &Message, b: &Message) -> bool {
    &&& a.id == b.id
    &&& a.bus == b.bus
    &&& a.name@ == b.name@
    &&& same_text(&a.description, &b.description)
    &&& same_usage(&a.usage, &b.usage)
    &&& same_fields(a.fields@, b.fields@)
}

/// Types that are the same take the same number of bits.
pub proof fn lemma_same_type_same_width(a: &Type, b: &Type)
    requires
        same_type(a, b),
    ensures
        width(a) == width(b),
    decreases a, 0nat,
{
    match a {
        Type::Unsigned { .. } => {},
        Type::Signed { .. } => {},
        Type::Decimal { .. } => {},
        Type::Enum { .. } => {},
        Type::Struct { attribs, .. } => match b {
            Type::Struct { attribs: other, .. } => {
                lemma_same_fields_same_width(attribs@, other@, attribs@.len());
            },
            _ => {},
        },
        Type::Array { ty, .. } => match b {
            Type::Array { ty: other, .. } => {
                lemma_same_type_same_width(ty, other);
            },
            _ => {},
        },
    }
}

/// Fields that are the same take the same number of bits.
pub proof fn lemma_same_fields_same_width(a: Seq<Attribute>, b: Seq<Attribute>, n: nat)
    requires
        same_fields(a, b),
        n <= a.len(),
    ensures
        fields_width(a, n) == fields_width(b, n),
    decreases a, n,
{
    if n > 0 {
        lemma_same_fields_same_width(a, b, (n - 1) as nat);
        assert(same_type(&a[n - 1].ty, &b[n - 1].ty));
        lemma_same_type_same_width(&a[n - 1].ty, &b[n - 1].ty);
    }
}

/// A copy of the type.
#[verifier::loop_isolation(false)]
pub fn copy_type(ty: &Type) -> (copy: Type)
    ensures
        same_type(ty, &copy),
    decreases ty, 0nat,
{
    match ty {
        Type::Unsigned { size } => Type::Unsigned { size: *size },
        Type::Signed { size } => Type::Signed { size: *size },
        Type::Decimal { size, scale, offset } => Type::Decimal {
            size: *size,
            scale: *scale,
            offset: *offset,
        },
        Type::Enum { name, size, entries } => {
            let mut copied: Vec<EnumEntry> = Vec::new();
            let mut i: usize = 0;
            while i < entries.len()
                invariant
                    i <= entries@.len(),
                    copied@.len() == i,
                    forall|j: int|
                        0 <= j < i ==> (#[trigger] entries@[j]).name@ == copied@[j].name@
                            && entries@[j].value == copied@[j].value,
                decreases entries@.len() - i,
            {
                copied.push(EnumEntry { name: entries[i].name.clone(), value: entries[i].value });
                i += 1;
            }
            Type::Enum { name: name.clone(), size: *size, entries: copied }
        },
        Type::Struct { name, attribs } => Type::Struct {
            name: name.clone(),
            attribs: copy_fields(attribs),
        },
        Type::Array { len, ty: elem } => Type::Array { len: *len, ty: Box::new(copy_type(elem)) },
    }
}

/// A copy of the fields.
#[verifier::loop_isolation(false)]
pub fn copy_fields(fields: &Vec<Attribute>) -> (copy: Vec<Attribute>)
    ensures
        same_fields(fields@, copy@),
    decreases fields, 1nat,
{
    let mut copy: Vec<Attribute> = Vec::new();
    let mut i: usize = 0;
    while i < fields.len()
        invariant
            i <= fields@.len(),
            copy@.len() == i,
            forall|j: int|
                0 <= j < i ==> (#[trigger] fields@[j]).name@ == copy@[j].name@ && same_type(
                    &fields@[j].ty,
                    &copy@[j].ty,
                ),
        decreases fields@.len() - i,
    {
        let ty = copy_type(&fields[i].ty);
        copy.push(Attribute { name: fields[i].name.clone(), ty });
        i += 1;
    }
    copy
}

fn copy_usage(usage: &MessageUsage) -> (copy: MessageUsage)
    ensures
        same_usage(usage, &copy),
{
    match usage {
        MessageUsage::Stream(targets) => {
            let mut copied: Vec<Option<EntryRef>> = Vec::new();
            let mut i: usize = 0;
            while i < targets.len()
                invariant
                    i <= targets@.len(),
                    copied@.len() == i,
                    forall|j: int|
                        0 <= j < i ==> same_target(&(#[trigger] targets@[j]), &copied@[j]),
                decreases targets@.len() - i,
            {
                let target = match &targets[i] {
                    Some(named) => Some(
                        EntryRef { node: named.node.clone(), entry: named.entry.clone() },
                    ),
                    None => None,
                };
                copied.push(target);
                i += 1;
            }
            MessageUsage::Stream(copied)
        },
        MessageUsage::CommandReq => MessageUsage::CommandReq,
        MessageUsage::CommandResp => MessageUsage::CommandResp,
        MessageUsage::GetResp => MessageUsage::GetResp,
        MessageUsage::GetReq => MessageUsage::GetReq,
        MessageUsage::SetResp => MessageUsage::SetResp,
        MessageUsage::SetReq => MessageUsage::SetReq,
        MessageUsage::Heartbeat => MessageUsage::Heartbeat,
        MessageUsage::External => MessageUsage::External,
    }
}

impl Message {
    /// A copy of the message.
    pub fn duplicate(&self) -> (copy: Message)
        ensures
            same_message(self, &copy),
    {
        let description = match &self.description {
            Some(text) => Some(text.clone()),
            None => None,
        };
        Message {
            id: self.id,
            bus: self.bus,
            name: self.name.clone(),
            description,
            usage: copy_usage(&self.usage),
            fields: copy_fields(&self.fields),
        }
    }
}

/// Copies of the messages, in their order.
pub fn copy_messages(messages: &Vec<Message>) -> (copy: Vec<Message>)
    ensures
        copy@.len() == messages@.len(),
        forall|i: int|
            0 <= i < messages@.len() ==> same_message(&(#[trigger] messages@[i]), &copy@[i]),
{
    let mut copy: Vec<Message> = Vec::new();
    let mut i: usize = 0;
    while i < messages.len()
        invariant
            i <= messages@.len(),
            copy@.len() == i,
            forall|j: int| 0 <= j < i ==> same_message(&(#[trigger] messages@[j]), &copy@[j]),
        decreases messages@.len() - i,
    {
        copy.push(messages[i].duplicate());
        i += 1;
    }
    copy
}

} // verus!
