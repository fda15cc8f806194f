//! What can be asked of the network: a summary, a node, an object entry, a
//! command. An unknown name is answered with an error that says what was
//! not found.

use crate::network::{
    find_command, find_entry, find_node, CommandObject, NetworkObject, ObjectEntryObject,
};
use crate::schema::{same_text, Type};
use vstd::prelude::*;
use vstd::string::*;

verus! {

pub struct NetworkInformation {
    pub baudrate: u32,
    pub node_names: Vec<String>,
}

pub struct NodeInformation {
    pub name: String,
    pub description: Option<String>,
    pub id: u16,
    pub object_entries: Vec<String>,
    pub commands: Vec<String>,
}

pub struct ObjectEntryInformation {
    pub name: String,
    pub description: Option<String>,
    pub id: u16,
    pub unit: Option<String>,
    pub ty: ObjectEntryType,
}

/// The shape of a value type: the kind of a primitive, the symbols of an
/// enumeration, the named members of a composite, the elements of an array.
pub enum ObjectEntryType {
    Int,
    Uint,
    Real,
    Enum { entries: Vec<String> },
    Composite { name: String, attributes: Vec<(String, Box<ObjectEntryType>)> },
    Array { len: usize, ty: Box<ObjectEntryType> },
}

pub struct CommandInformation {
    pub name: String,
    pub description: Option<String>,
}

#[derive(Clone, Copy, Debug, PartialEq, Eq, Structural)]
pub enum QueryError {
    UnknownNode,
    UnknownObjectEntry,
    UnknownCommand,
}

impl QueryError {
    /// The error in words, for the node and the entry or command that were
    /// asked for.
    pub open spec fn text(self, node_name: Seq<char>, name: Seq<char>) -> Seq<char> {
        match self {
            QueryError::UnknownNode => "node with name '"@ + node_name + "' doesn't exist"@,
            QueryError::UnknownObjectEntry => "node '"@ + node_name
                + "' doesn't have a object entry with name '"@ + name + "'"@,
            QueryError::UnknownCommand => "node '"@ + node_name
                + "' doesn't have a command with name '"@ + name + "'"@,
        }
    }

    pub fn message(&self, node_name: &str, name: &str) -> (message: String)
        ensures
            message@ == self.text(node_name@, name@),
    {
        match self {
            QueryError::UnknownNode => {
                let mut message = String::from_str("node with name '");
                message.append(node_name);
                message.append("' doesn't exist");
                message
            },
            QueryError::UnknownObjectEntry => {
                let mut message = String::from_str("node '");
                message.append(node_name);
                message.append("' doesn't have a object entry with name '");
                message.append(name);
                message.append("'");
                message
            },
            QueryError::UnknownCommand => {
                let mut message = String::from_str("node '");
                message.append(node_name);
                message.append("' doesn't have a command with name '");
                message.append(name);
                message.append("'");
                message
            },
        }
    }
}

/// `shape` is the shape of `ty`.
pub open spec fn describes(ty: &Type, shape: &ObjectEntryType) -> bool
    decreases ty,
{
    match ty {
        Type::Unsigned { .. } => shape is Uint,
        Type::Signed { .. } => shape is Int,
        Type::Decimal { .. } => shape is Real,
        Type::Enum { entries, .. } => match shape {
            ObjectEntryType::Enum { entries: symbols } => symbols@.len() == entries@.len()
                && forall|i: int|
                0 <= i < entries@.len() ==> (#[trigger] symbols@[i])@ == entries@[i].name@,
            _ => false,
        },
        Type::Struct { name, attribs } => match shape {
            ObjectEntryType::Composite { name: shape_name, attributes } => shape_name@ == name@
                && attributes@.len() == attribs@.len() && forall|i: int|
                0 <= i < attribs@.len() ==> (#[trigger] attributes@[i]).0@ == attribs@[i].name@
                    && describes(&attribs@[i].ty, &*attributes@[i].1),
            _ => false,
        },
        Type::Array { len, ty: elem } => match shape {
            ObjectEntryType::Array { len: shape_len, ty: shape_elem } => shape_len == len
                && describes(elem, shape_elem),
            _ => false,
        },
    }
}

impl ObjectEntryType {
    /// The shape of a type.
    #[verifier::loop_isolation(false)]
    pub fn new(ty: &Type) -> (shape: ObjectEntryType)
        ensures
            describes(ty, &shape),
        decreases ty,
    {
        match ty {
            Type::Unsigned { .. } => ObjectEntryType::Uint,
            Type::Signed { .. } => ObjectEntryType::Int,
            Type::Decimal { .. } => ObjectEntryType::Real,
            Type::Enum { entries, .. } => {
                let mut symbols: Vec<String> = Vec::new();
                let mut i: usize = 0;
                while i < entries.len()
                    invariant
                        i <= entries@.len(),
                        symbols@.len() == i,
                        forall|j: int| 0 <= j < i ==> (#[trigger] symbols@[j])@ == entries@[j].name@,
                    decreases entries@.len() - i,
                {
                    symbols.push(entries[i].name.clone());
                    i += 1;
                }
                ObjectEntryType::Enum { entries: symbols }
            },
            Type::Struct { name, attribs } => {
                let mut attributes: Vec<(String, Box<ObjectEntryType>)> = Vec::new();
                let mut i: usize = 0;
                while i < attribs.len()
                    invariant
                        i <= attribs@.len(),
                        attributes@.len() == i,
                        forall|j: int|
                            0 <= j < i ==> (#[trigger] attributes@[j]).0@ == attribs@[j].name@
                                && describes(&attribs@[j].ty, &*attributes@[j].1),
                    decreases attribs@.len() - i,
                {
                    let member = ObjectEntryType::new(&attribs[i].ty);
                    attributes.push((attribs[i].name.clone(), Box::new(member)));
                    i += 1;
                }
                ObjectEntryType::Composite { name: name.clone(), attributes }
            },
            Type::Array { len, ty: elem } => ObjectEntryType::Array {
                len: *len,
                ty: Box::new(ObjectEntryType::new(elem)),
            },
        }
    }
}

/// The texts that the strings hold.
pub open spec fn texts(strings: Seq<String>) -> Seq<Seq<char>> {
    strings.map_values(|s: String| s@)
}

/// The names of the nodes, in their order.
pub open spec fn node_names(network: &NetworkObject) -> Seq<Seq<char>> {
    network.nodes@.map_values(|node: crate::network::NodeObject| node.name@)
}

/// The names of the commands, in their order.
pub open spec fn command_names(commands: Seq<CommandObject>) -> Seq<Seq<char>> {
    commands.map_values(|command: CommandObject| command.name@)
}

/// The names of the first `n` of the entries that a node owns, in their
/// order, without those that lie outside the arena.
pub open spec fn owned_names(entries: Seq<ObjectEntryObject>, owned: Seq<usize>, n: nat) -> Seq<
    Seq<char>,
>
    decreases n,
{
    if n == 0 || n > owned.len() {
        Seq::empty()
    } else {
        let before = owned_names(entries, owned, (n - 1) as nat);
        if owned[n - 1] < entries.len() {
            before.push(entries[owned[n - 1] as int].name@)
        } else {
            before
        }
    }
}

/// Where every owned entry lies in the arena, none is left out: the names
/// are as many as the owned entries, and each is the name of its entry.
pub proof fn lemma_owned_names_complete(
    entries: Seq<ObjectEntryObject>,
    owned: Seq<usize>,
    n: nat,
)
    requires
        n <= owned.len(),
        forall|k: int| 0 <= k < owned.len() ==> #[trigger] owned[k] < entries.len(),
    ensures
        owned_names(entries, owned, n).len() == n,
        forall|k: int|
            0 <= k < n ==> #[trigger] owned_names(entries, owned, n)[k]
                == entries[owned[k] as int].name@,
    decreases n,
{
    if n > 0 {
        lemma_owned_names_complete(entries, owned, (n - 1) as nat);
    }
}

fn copy_text(text: &Option<String>) -> (copy: Option<String>)
    ensures
        same_text(&copy, text),
{
    match text {
        Some(held) => Some(held.clone()),
        None => None,
    }
}

/// The baud rate and the names of the nodes.
pub fn network_information(network: &NetworkObject) -> (information: NetworkInformation)
    ensures
        information.baudrate == network.baudrate,
        texts(information.node_names@) == node_names(network),
{
    let mut names: Vec<String> = Vec::new();
    let mut i: usize = 0;
    while i < network.nodes.len()
        invariant
            i <= network.nodes@.len(),
            names@.len() == i,
            forall|j: int| 0 <= j < i ==> (#[trigger] names@[j])@ == network.nodes@[j].name@,
        decreases network.nodes@.len() - i,
    {
        names.push(network.nodes[i].name.clone());
        i += 1;
    }
    assert(texts(names@) =~= node_names(network));
    NetworkInformation { baudrate: network.baudrate, node_names: names }
}

/// `information` tells of node `i` of the network.
pub open spec fn node_described(
    network: &NetworkObject,
    i: int,
    information: &NodeInformation,
) -> bool {
    let node = network.nodes@[i];
    &&& information.name@ == node.name@
    &&& same_text(&information.description, &node.description)
    &&& information.id == node.id
    &&& texts(information.object_entries@) == owned_names(
        network.entries@,
        node.object_entries@,
        node.object_entries@.len(),
    )
    &&& texts(information.commands@) == command_names(node.commands@)
}

/// The node called `node_name`: its description, its number, and the names
/// of its object entries and commands.
#[verifier::loop_isolation(false)]
pub fn node_information(network: &NetworkObject, node_name: String) -> (r: Result<
    NodeInformation,
    QueryError,
>)
    ensures
        match find_node(network.nodes@, node_name@, 0) {
            Some(i) => r.is_ok() && node_described(network, i, &r.unwrap()),
            None => r == Err::<NodeInformation, QueryError>(QueryError::UnknownNode),
        },
        network.well_formed() && r.is_ok() ==> {
            let i = find_node(network.nodes@, node_name@, 0).unwrap();
            let owned = network.nodes@[i].object_entries@;
            &&& r.unwrap().object_entries@.len() == owned.len()
            &&& forall|k: int|
                0 <= k < owned.len() ==> (#[trigger] r.unwrap().object_entries@[k])@
                    == network.entries@[owned[k] as int].name@
        },
{
    let Some(at) = network.find_node_index(&node_name) else {
        return Err(QueryError::UnknownNode);
    };
    let node = &network.nodes[at];
    let mut object_entries: Vec<String> = Vec::new();
    let mut i: usize = 0;
    while i < node.object_entries.len()
        invariant
            i <= node.object_entries@.len(),
            texts(object_entries@) == owned_names(
                network.entries@,
                node.object_entries@,
                i as nat,
            ),
        decreases node.object_entries@.len() - i,
    {
        let id: usize = node.object_entries[i];
        let ghost before = object_entries@;
        if id < network.entries.len() {
            object_entries.push(network.entries[id].name.clone());
            assert(texts(object_entries@) =~= texts(before).push(network.entries@[id as int].name@));
        }
        i += 1;
    }
    let mut commands: Vec<String> = Vec::new();
    let mut k: usize = 0;
    while k < node.commands.len()
        invariant
            k <= node.commands@.len(),
            commands@.len() == k,
            forall|j: int| 0 <= j < k ==> (#[trigger] commands@[j])@ == node.commands@[j].name@,
        decreases node.commands@.len() - k,
    {
        commands.push(node.commands[k].name.clone());
        k += 1;
    }
    assert(texts(commands@) =~= command_names(node.commands@));
    assert(texts(Seq::<String>::empty()) =~= Seq::<Seq<char>>::empty());
    proof {
        if network.well_formed() {
            assert forall|k: int| 0 <= k < node.object_entries@.len() implies #[trigger]
                node.object_entries@[k] < network.entries@.len() by {
                assert(network.nodes@[at as int].object_entries@[k] < network.entries@.len());
            }
            lemma_owned_names_complete(
                network.entries@,
                node.object_entries@,
                node.object_entries@.len(),
            );
            assert(forall|k: int|
                0 <= k < object_entries@.len() ==> (#[trigger] object_entries@[k])@ == texts(
                    object_entries@,
                )[k]);
        }
    }
    Ok(
        NodeInformation {
            name: node.name.clone(),
            description: copy_text(&node.description),
            id: node.id,
            object_entries,
            commands,
        },
    )
}

/// `information` tells of entry `id` of the arena.
pub open spec fn entry_described(
    network: &NetworkObject,
    id: usize,
    information: &ObjectEntryInformation,
) -> bool {
    let entry = network.entries@[id as int];
    &&& information.name@ == entry.name@
    &&& same_text(&information.description, &entry.description)
    &&& information.id == entry.id as u16
    &&& same_text(&information.unit, &entry.unit)
    &&& describes(&entry.ty, &information.ty)
}

/// The object entry called `object_entry_name` of the node called
/// `node_name`: its description, its number, its unit and the shape of its
/// type.
pub fn object_entry_information(
    network: &NetworkObject,
    node_name: String,
    object_entry_name: String,
) -> (r: Result<ObjectEntryInformation, QueryError>)
    ensures
        match find_node(network.nodes@, node_name@, 0) {
            None => r == Err::<ObjectEntryInformation, QueryError>(QueryError::UnknownNode),
            Some(i) => match find_entry(
                network.entries@,
                network.nodes@[i].object_entries@,
                object_entry_name@,
                0,
            ) {
                None => r == Err::<ObjectEntryInformation, QueryError>(
                    QueryError::UnknownObjectEntry,
                ),
                Some(id) => r.is_ok() && entry_described(network, id, &r.unwrap()),
            },
        },
{
    let Some(at) = network.find_node_index(&node_name) else {
        return Err(QueryError::UnknownNode);
    };
    let Some(id) = network.find_entry_id(at, &object_entry_name) else {
        return Err(QueryError::UnknownObjectEntry);
    };
    let entry = &network.entries[id];
    Ok(
        ObjectEntryInformation {
            name: object_entry_name,
            description: copy_text(&entry.description),
            id: #[verifier::truncate]
            (entry.id as u16),
            unit: copy_text(&entry.unit),
            ty: ObjectEntryType::new(&entry.ty),
        },
    )
}

/// The command called `command_name` of the node called `node_name`.
#[verifier::loop_isolation(false)]
pub fn command_information(network: &NetworkObject, node_name: String, command_name: String) -> (r:
    Result<CommandInformation, QueryError>)
    ensures
        match find_node(network.nodes@, node_name@, 0) {
            None => r == Err::<CommandInformation, QueryError>(QueryError::UnknownNode),
            Some(i) => match find_command(network.nodes@[i].commands@, command_name@, 0) {
                None => r == Err::<CommandInformation, QueryError>(QueryError::UnknownCommand),
                Some(c) => r.is_ok() && r.unwrap().name@ == command_name@ && same_text(
                    &r.unwrap().description,
                    &network.nodes@[i].commands@[c].description,
                ),
            },
        },
{
    let Some(at) = network.find_node_index(&node_name) else {
        return Err(QueryError::UnknownNode);
    };
    let commands = &network.nodes[at].commands;
    let mut i: usize = 0;
    while i < commands.len()
        invariant
            i <= commands@.len(),
            at < network.nodes@.len(),
            *commands == network.nodes@[at as int].commands,
            find_command(commands@, command_name@, 0) == find_command(
                commands@,
                command_name@,
                i as nat,
            ),
        decreases commands@.len() - i,
    {
        if commands[i].name == command_name {
            return Ok(
                CommandInformation {
                    name: command_name,
                    description: copy_text(&commands[i].description),
                },
            );
        }
        i += 1;
    }
    Err(QueryError::UnknownCommand)
}

} // verus!
