//! The live model of the network: nodes, their commands, and an arena of
//! object entries whose values are replaced one by one.

use crate::frame::{FrameType, TypeValue};
use crate::schema::Type;
use vstd::prelude::*;

verus! {

/// What is known of an object entry apart from its value. `node` is the index
/// of the node that owns it.
pub struct ObjectEntryObject {
    pub name: String,
    pub description: Option<String>,
    pub id: u32,
    pub unit: Option<String>,
    pub ty: Type,
    pub node: usize,
}

pub struct CommandObject {
    pub name: String,
    pub description: Option<String>,
}

/// A node. Its object entries are indices into the network's arena.
pub struct NodeObject {
    pub name: String,
    pub description: Option<String>,
    pub id: u16,
    pub object_entries: Vec<usize>,
    pub commands: Vec<CommandObject>,
}

/// A value with the time at which the frame that carried it was seen.
pub struct EntryValue {
    pub timestamp: u64,
    pub value: TypeValue,
}

pub struct NetworkObject {
    pub baudrate: u32,
    pub nodes: Vec<NodeObject>,
    pub entries: Vec<ObjectEntryObject>,
    pub values: Vec<Option<EntryValue>>,
}

/// The index of the first node from `from` on that is called `name`.
pub open spec fn find_node(nodes: Seq<NodeObject>, name: Seq<char>, from: nat) -> Option<int>
    decreases nodes.len() - from,
{
    if from >= nodes.len() {
        None
    } else if nodes[from as int].name@ == name {
        Some(from as int)
    } else {
        find_node(nodes, name, from + 1)
    }
}

/// The first of the node's entries from position `from` on that lies in the
/// arena and is called `name`.
pub open spec fn find_entry(
    entries: Seq<ObjectEntryObject>,
    owned: Seq<usize>,
    name: Seq<char>,
    from: nat,
) -> Option<usize>
    decreases owned.len() - from,
{
    if from >= owned.len() {
        None
    } else if owned[from as int] < entries.len() && entries[owned[from as int] as int].name@
        == name {
        Some(owned[from as int])
    } else {
        find_entry(entries, owned, name, from + 1)
    }
}

/// The index of the first command from `from` on that is called `name`.
pub open spec fn find_command(commands: Seq<CommandObject>, name: Seq<char>, from: nat) -> Option<
    int,
>
    decreases commands.len() - from,
{
    if from >= commands.len() {
        None
    } else if commands[from as int].name@ == name {
        Some(from as int)
    } else {
        find_command(commands, name, from + 1)
    }
}

/// The values after the fields from `from` on were written to the entries
/// that `mapping` gives them. A field without a place in the mapping, or
/// mapped outside the arena, is written nowhere. Where two fields are mapped
/// to one entry, the earlier field stays.
pub open spec fn stream_applied(
    before: Seq<Option<EntryValue>>,
    mapping: Seq<usize>,
    fields: Seq<FrameType>,
    timestamp: u64,
    from: nat,
) -> Seq<Option<EntryValue>>
    decreases fields.len() - from,
{
    if from >= fields.len() {
        before
    } else {
        let rest = stream_applied(before, mapping, fields, timestamp, from + 1);
        if from < mapping.len() && mapping[from as int] < rest.len() {
            rest.update(
                mapping[from as int] as int,
                Some(EntryValue { timestamp, value: fields[from as int].value }),
            )
        } else {
            rest
        }
    }
}

/// A stream leaves every entry that its mapping does not name as it was, and
/// gives each entry that it writes the time of the frame.
pub proof fn lemma_stream_touches_only_mapping(
    before: Seq<Option<EntryValue>>,
    mapping: Seq<usize>,
    fields: Seq<FrameType>,
    timestamp: u64,
    from: nat,
)
    ensures
        stream_applied(before, mapping, fields, timestamp, from).len() == before.len(),
        forall|id: int|
            0 <= id < before.len() && !mapping.contains(id as usize) ==> stream_applied(
                before,
                mapping,
                fields,
                timestamp,
                from,
            )[id] == #[trigger] before[id],
        forall|id: int|
            0 <= id < before.len() ==> {
                let after = #[trigger] stream_applied(before, mapping, fields, timestamp, from)[id];
                after == before[id] || (after.is_some() && after.unwrap().timestamp == timestamp)
            },
    decreases fields.len() - from,
{
    if from < fields.len() {
        lemma_stream_touches_only_mapping(before, mapping, fields, timestamp, from + 1);
        if from < mapping.len() {
            assert(mapping.contains(mapping[from as int]));
        }
    }
}

/// A stream gives the entry of each mapped field the value of that field
/// under the time of the frame, where no earlier field is mapped to the same
/// entry.
pub proof fn lemma_stream_writes_mapping(
    before: Seq<Option<EntryValue>>,
    mapping: Seq<usize>,
    fields: Seq<FrameType>,
    timestamp: u64,
    from: nat,
    field: int,
)
    requires
        from <= field < fields.len(),
        field < mapping.len(),
        mapping[field] < before.len(),
        forall|k: int| from <= k < field ==> mapping[k] != mapping[field],
    ensures
        stream_applied(before, mapping, fields, timestamp, from)[mapping[field] as int] == Some(
            EntryValue { timestamp, value: fields[field].value },
        ),
    decreases field - from,
{
    lemma_stream_touches_only_mapping(before, mapping, fields, timestamp, from + 1);
    if from < field {
        lemma_stream_writes_mapping(before, mapping, fields, timestamp, from + 1, field);
    }
}

/// Every entry that a node owns lies in an arena of `arena` entries.
pub open spec fn owned_in_arena(nodes: Seq<NodeObject>, arena: nat) -> bool {
    forall|n: int, k: int|
        0 <= n < nodes.len() && 0 <= k < nodes[n].object_entries@.len()
            ==> #[trigger] nodes[n].object_entries@[k] < arena
}

/// Tells whether every entry that a node owns lies in an arena of `arena`
/// entries.
#[verifier::loop_isolation(false)]
pub fn nodes_in_arena(nodes: &Vec<NodeObject>, arena: usize) -> (ok: bool)
    ensures
        ok == owned_in_arena(nodes@, arena as nat),
{
    let mut n: usize = 0;
    while n < nodes.len()
        invariant
            n <= nodes@.len(),
            forall|a: int, k: int|
                0 <= a < n && 0 <= k < nodes@[a].object_entries@.len()
                    ==> #[trigger] nodes@[a].object_entries@[k] < arena,
        decreases nodes@.len() - n,
    {
        let owned = &nodes[n].object_entries;
        let mut k: usize = 0;
        while k < owned.len()
            invariant
                k <= owned@.len(),
                forall|j: int| 0 <= j < k ==> #[trigger] owned@[j] < arena,
            decreases owned@.len() - k,
        {
            if owned[k] >= arena {
                assert(!(nodes@[n as int].object_entries@[k as int] < arena));
                return false;
            }
            k += 1;
        }
        n += 1;
    }
    true
}

#[derive(Clone, Copy, Debug, PartialEq, Eq, Structural)]
pub enum NetworkError {
    /// A node owns an entry that the arena does not hold.
    EntryOutsideArena,
}

impl NetworkObject {
    /// Every entry has a place for its value, and every entry that a node
    /// owns lies in the arena.
    pub open spec fn well_formed(&self) -> bool {
        self.values@.len() == self.entries@.len() && owned_in_arena(
            self.nodes@,
            self.entries@.len(),
        )
    }

    pub fn is_well_formed(&self) -> (ok: bool)
        ensures
            ok == self.well_formed(),
    {
        self.values.len() == self.entries.len() && nodes_in_arena(&self.nodes, self.entries.len())
    }

    /// A network of the nodes and entries, with no value seen yet. It is
    /// refused where a node owns an entry that the arena does not hold.
    pub fn new(baudrate: u32, nodes: Vec<NodeObject>, entries: Vec<ObjectEntryObject>) -> (r:
        Result<Self, NetworkError>)
        ensures
            r.is_ok() == owned_in_arena(nodes@, entries@.len()),
            match r {
                Ok(network) => {
                    &&& network.baudrate == baudrate
                    &&& network.nodes == nodes
                    &&& network.entries == entries
                    &&& network.well_formed()
                    &&& forall|id: int|
                        0 <= id < entries@.len() ==> (#[trigger] network.values@[id]).is_none()
                },
                Err(e) => e == NetworkError::EntryOutsideArena,
            },
    {
        if !nodes_in_arena(&nodes, entries.len()) {
            return Err(NetworkError::EntryOutsideArena);
        }
        let mut values: Vec<Option<EntryValue>> = Vec::new();
        let mut i: usize = 0;
        while i < entries.len()
            invariant
                i <= entries@.len(),
                values@.len() == i,
                forall|id: int| 0 <= id < i ==> (#[trigger] values@[id]).is_none(),
            decreases entries@.len() - i,
        {
            values.push(None);
            i += 1;
        }
        Ok(NetworkObject { baudrate, nodes, entries, values })
    }

    /// The index of the first node called `name`.
    pub fn find_node_index(&self, name: &String) -> (found: Option<usize>)
        ensures
            match found {
                Some(i) => i < self.nodes@.len() && find_node(self.nodes@, name@, 0) == Some(
                    i as int,
                ),
                None => find_node(self.nodes@, name@, 0).is_none(),
            },
    {
        let mut i: usize = 0;
        while i < self.nodes.len()
            invariant
                i <= self.nodes@.len(),
                find_node(self.nodes@, name@, 0) == find_node(self.nodes@, name@, i as nat),
            decreases self.nodes@.len() - i,
        {
            if self.nodes[i].name == *name {
                return Some(i);
            }
            i += 1;
        }
        None
    }

    /// The first of the entries of node `node` that is called `name`, as an
    /// index into the arena; nothing where there is no such node.
    pub fn find_entry_id(&self, node: usize, name: &String) -> (found: Option<usize>)
        ensures
            found == (if node < self.nodes@.len() {
                find_entry(self.entries@, self.nodes@[node as int].object_entries@, name@, 0)
            } else {
                None
            }),
            found.is_some() ==> found.unwrap() < self.entries@.len()
                && self.entries@[found.unwrap() as int].name@ == name@,
    {
        if node >= self.nodes.len() {
            return None;
        }
        let owned = &self.nodes[node].object_entries;
        let mut i: usize = 0;
        while i < owned.len()
            invariant
                i <= owned@.len(),
                node < self.nodes@.len(),
                *owned == self.nodes@[node as int].object_entries,
                find_entry(self.entries@, owned@, name@, 0) == find_entry(
                    self.entries@,
                    owned@,
                    name@,
                    i as nat,
                ),
            decreases owned@.len() - i,
        {
            let id: usize = owned[i];
            if id < self.entries.len() && self.entries[id].name == *name {
                return Some(id);
            }
            i += 1;
        }
        None
    }

    pub fn nodes(&self) -> (nodes: &Vec<NodeObject>)
        ensures
            *nodes == self.nodes,
    {
        &self.nodes
    }

    pub fn baudrate(&self) -> (baudrate: u32)
        ensures
            baudrate == self.baudrate,
    {
        self.baudrate
    }

    /// The value of an entry, if the entry exists and a value was seen.
    pub fn value_of(&self, id: usize) -> (value: Option<&EntryValue>)
        ensures
            match value {
                Some(v) => id < self.values@.len() && self.values@[id as int] == Some(*v),
                None => id >= self.values@.len() || self.values@[id as int].is_none(),
            },
    {
        if id < self.values.len() {
            self.values[id].as_ref()
        } else {
            None
        }
    }

    /// Replaces the value of one entry; an `id` outside the arena changes
    /// nothing.
    pub fn set_value(&mut self, id: usize, value: TypeValue, timestamp: u64)
        ensures
            final(self).well_formed() == old(self).well_formed(),
            final(self).baudrate == old(self).baudrate,
            final(self).nodes == old(self).nodes,
            final(self).entries == old(self).entries,
            final(self).values@ == (if id < old(self).values@.len() {
                old(self).values@.update(id as int, Some(EntryValue { timestamp, value }))
            } else {
                old(self).values@
            }),
    {
        if id < self.values.len() {
            self.values.set(id, Some(EntryValue { timestamp, value }));
        }
    }

    /// Writes each field of a stream frame to the entry that `mapping` gives
    /// it. No other entry changes.
    pub fn apply_stream(&mut self, mapping: &Vec<usize>, fields: Vec<FrameType>, timestamp: u64)
        ensures
            final(self).well_formed() == old(self).well_formed(),
            final(self).baudrate == old(self).baudrate,
            final(self).nodes == old(self).nodes,
            final(self).entries == old(self).entries,
            final(self).values@ == stream_applied(
                old(self).values@,
                mapping@,
                fields@,
                timestamp,
                0,
            ),
            final(self).values@.len() == old(self).values@.len(),
            forall|id: int|
                0 <= id < old(self).values@.len() && !mapping@.contains(id as usize)
                    ==> final(self).values@[id] == #[trigger] old(self).values@[id],
    {
        let ghost before = self.values@;
        let ghost all = fields@;
        let mut fields = fields;
        let mut k: usize = fields.len();
        while k > 0
            invariant
                k == fields@.len(),
                k <= all.len(),
                fields@ == all.subrange(0, k as int),
                self.baudrate == old(self).baudrate,
                self.nodes == old(self).nodes,
                self.entries == old(self).entries,
                self.values@ == stream_applied(before, mapping@, all, timestamp, k as nat),
            decreases k,
        {
            let field = fields.pop().unwrap();
            k = k - 1;
            assert(field == all[k as int]);
            if k < mapping.len() {
                self.set_value(mapping[k], field.value, timestamp);
            }
        }
        proof {
            lemma_stream_touches_only_mapping(before, mapping@, all, timestamp, 0);
        }
    }
}

} // verus!
