//! The Linux desktop: PipeWire's microphones, the credential file and a recording session.
use crate::capture::{CANCEL, FINISH, RECORDING};
use crate::config::{
    below, dotenv_entries, entries_key, errors_withhold_the_file, file_says, filled, join, key_name,
    lookup, lookup_filled, pairs, resolve, value_of, verdict, Credentials, EnvFile, Verdict,
};
use crate::json::{
    json_elements, json_member, json_null, json_object, json_stream, json_string, json_u64,
    json_view, Json,
};
use crate::text::{
    blank, comes_before, decimal, digits, digits_tell_numbers_apart, ends_with, found,
    lemma_not_found, lemma_precedes_irreflexive, lemma_precedes_total, lemma_precedes_transitive,
    never_followed, occurs_at, owned_view, precedes, same,
};
use vstd::prelude::*;

verus! {

/// A microphone that PipeWire offers.
#[derive(Debug)]
pub struct Microphone {
    pub serial: String,
    pub name: String,
}

pub ghost struct MicrophoneModel {
    pub serial: Seq<char>,
    pub name: Seq<char>,
}

impl View for Microphone {
    type V = MicrophoneModel;

    open spec fn view(&self) -> MicrophoneModel {
        MicrophoneModel { serial: self.serial@, name: self.name@ }
    }
}

/// What PipeWire says of one object in its graph.
#[derive(Debug)]
pub struct Node {
    /// The object's number in the graph.
    pub id: Option<u64>,
    /// The object has left the graph.
    pub removed: bool,
    /// The object's properties are given.
    pub described: bool,
    pub serial: Option<u64>,
    pub name: Option<String>,
    pub class: Option<String>,
    pub description: Option<String>,
}

pub ghost struct NodeModel {
    pub id: Option<u64>,
    pub removed: bool,
    pub described: bool,
    pub serial: Option<u64>,
    pub name: Option<Seq<char>>,
    pub class: Option<Seq<char>>,
    pub description: Option<Seq<char>>,
}

impl View for Node {
    type V = NodeModel;

    open spec fn view(&self) -> NodeModel {
        NodeModel {
            id: self.id,
            removed: self.removed,
            described: self.described,
            serial: self.serial,
            name: owned_view(self.name),
            class: owned_view(self.class),
            description: owned_view(self.description),
        }
    }
}

/// One value that PipeWire wrote.
#[derive(Debug)]
pub enum Snapshot {
    Malformed,
    NotAList,
    Nodes(Vec<Node>),
}

pub ghost enum SnapshotModel {
    Malformed,
    NotAList,
    Nodes(Seq<NodeModel>),
}

impl View for Snapshot {
    type V = SnapshotModel;

    open spec fn view(&self) -> SnapshotModel {
        match *self {
            Snapshot::Malformed => SnapshotModel::Malformed,
            Snapshot::NotAList => SnapshotModel::NotAList,
            Snapshot::Nodes(nodes) => SnapshotModel::Nodes(nodes@.map_values(|n: Node| n@)),
        }
    }
}

/// The microphones known so far, each under the identity of its node.
pub type Sources = Map<Seq<char>, MicrophoneModel>;

/// The name under which updates of a node are matched with it.
pub open spec fn identity(node: NodeModel) -> Option<Seq<char>> {
    match node.id {
        Some(id) => Some("id:"@ + digits(id as nat)),
        None => match node.serial {
            Some(serial) => Some("serial:"@ + digits(serial as nat)),
            None => None,
        },
    }
}

/// The node plays back what another device outputs.
pub open spec fn monitor(name: Seq<char>) -> bool {
    occurs_at(name, ".monitor"@, name.len() - ".monitor"@.len())
}

/// The microphone that a described node is, if it is one.
pub open spec fn microphone(node: NodeModel) -> Option<MicrophoneModel> {
    match (node.name, node.serial) {
        (Some(name), Some(serial)) => if node.class == Some("Audio/Source"@) && !monitor(name) {
            Some(
                MicrophoneModel {
                    serial: digits(serial as nat),
                    name: match node.description {
                        Some(description) => description,
                        None => name,
                    },
                },
            )
        } else {
            None
        },
        _ => None,
    }
}

/// The node says something of the object it belongs to.
pub open spec fn speaks(node: NodeModel) -> bool {
    identity(node) is Some && (node.removed || node.described)
}

/// The microphone that the object is after this node, if it is one.
pub open spec fn word(node: NodeModel) -> Option<MicrophoneModel> {
    if node.removed {
        None
    } else {
        microphone(node)
    }
}

/// The microphones known after one more node.
pub open spec fn after_node(sources: Sources, node: NodeModel) -> Sources {
    if !speaks(node) {
        sources
    } else {
        match word(node) {
            Some(m) => sources.insert(identity(node)->0, m),
            None => sources.remove(identity(node)->0),
        }
    }
}

/// The microphones known after more nodes.
pub open spec fn after_nodes(sources: Sources, nodes: Seq<NodeModel>) -> Sources
    decreases nodes.len(),
{
    if nodes.len() == 0 {
        sources
    } else {
        after_node(after_nodes(sources, nodes.drop_last()), nodes.last())
    }
}

/// The nodes of all snapshots, in order, or why they cannot be had.
pub open spec fn all_nodes(snapshots: Seq<SnapshotModel>) -> Result<Seq<NodeModel>, Seq<char>>
    decreases snapshots.len(),
{
    if snapshots.len() == 0 {
        Ok(seq![])
    } else {
        match all_nodes(snapshots.drop_last()) {
            Err(message) => Err(message),
            Ok(nodes) => match snapshots.last() {
                SnapshotModel::Malformed => Err("Invalid PipeWire response"@),
                SnapshotModel::NotAList => Err("Invalid PipeWire node list"@),
                SnapshotModel::Nodes(more) => Ok(nodes + more),
            },
        }
    }
}

/// The keys stand in ascending order.
pub open spec fn ascending(keys: Seq<Seq<char>>) -> bool {
    forall|i: int, j: int|
        0 <= i < j < keys.len() ==> precedes(#[trigger] keys[i], #[trigger] keys[j])
}

/// `keys` are the keys of `sources` in ascending order, and `values` what stands under them.
pub open spec fn lists(
    keys: Seq<Seq<char>>,
    values: Seq<MicrophoneModel>,
    sources: Sources,
) -> bool {
    &&& ascending(keys)
    &&& keys.len() == values.len()
    &&& forall|k: Seq<char>| #[trigger] sources.contains_key(k) <==> keys.contains(k)
    &&& forall|i: int| 0 <= i < keys.len() ==> sources[#[trigger] keys[i]] == values[i]
}

/// `values` are the microphones of `sources`, sorted by identity.
pub open spec fn in_order(values: Seq<MicrophoneModel>, sources: Sources) -> bool {
    exists|keys: Seq<Seq<char>>| #[trigger] lists(keys, values, sources)
}

/// The views of microphones.
pub open spec fn models(list: Seq<Microphone>) -> Seq<MicrophoneModel> {
    list.map_values(|m: Microphone| m@)
}

/// `r` is the answer to these snapshots: the microphones known in the end, by identity.
pub open spec fn answers(
    r: Result<Vec<Microphone>, String>,
    snapshots: Seq<SnapshotModel>,
) -> bool {
    match all_nodes(snapshots) {
        Err(message) => r is Err && r->Err_0@ == message,
        Ok(nodes) => if snapshots.len() == 0 {
            r is Err && r->Err_0@ == "Empty PipeWire response"@
        } else {
            r is Ok && in_order(models(r->Ok_0@), after_nodes(Map::empty(), nodes))
        },
    }
}

/// Microphones sorted by identity.
struct Table {
    keys: Vec<String>,
    values: Vec<Microphone>,
}

impl Table {
    spec fn names(self) -> Seq<Seq<char>> {
        self.keys@.map_values(|k: String| k@)
    }

    spec fn holds(self, sources: Sources) -> bool {
        lists(self.names(), models(self.values@), sources)
    }

    /// How many keys come before `key`.
    fn position(&self, key: &str) -> (i: usize)
        requires
            ascending(self.names()),
        ensures
            i <= self.keys.len(),
            forall|j: int| 0 <= j < i ==> precedes(#[trigger] self.names()[j], key@),
            forall|j: int| i <= j < self.keys.len() ==> !precedes(#[trigger] self.names()[j], key@),
    {
        let mut i: usize = 0;
        while i < self.keys.len() && comes_before(self.keys[i].as_str(), key)
            invariant
                i <= self.keys.len(),
                forall|j: int| 0 <= j < i ==> precedes(#[trigger] self.names()[j], key@),
            decreases self.keys.len() - i,
        {
            assert(self.names()[i as int] == self.keys@[i as int]@);
            i += 1;
        }
        proof {
            assert forall|j: int| i <= j < self.keys.len() implies !precedes(
                #[trigger] self.names()[j],
                key@,
            ) by {
                assert(self.names()[i as int] == self.keys@[i as int]@);
                if precedes(self.names()[j], key@) && i < j {
                    lemma_precedes_transitive(self.names()[i as int], self.names()[j], key@);
                }
            }
        }
        i
    }

    fn forget(&mut self, key: &str, sources: Ghost<Sources>)
        requires
            old(self).holds(sources@),
        ensures
            final(self).holds(sources@.remove(key@)),
            !final(self).names().contains(key@),
    {
        let i = self.position(key);
        let ghost names = self.names();
        let ghost values = models(self.values@);
        if i < self.keys.len() && same(self.keys[i].as_str(), key) {
            assert(names[i as int] == key@);
            self.keys.remove(i);
            self.values.remove(i);
            proof {
                assert(self.names() =~= names.remove(i as int));
                assert(models(self.values@) =~= values.remove(i as int));
                lemma_forget(names, values, sources@, i as int);
            }
        } else {
            proof {
                if names.contains(key@) {
                    let j = choose|j: int| 0 <= j < names.len() && names[j] == key@;
                    lemma_precedes_irreflexive(key@);
                    assert(j >= i);
                    assert(names[i as int] == self.keys@[i as int]@);
                    if j > i {
                        assert(precedes(names[i as int], names[j]));
                    }
                }
                assert(sources@.remove(key@) =~= sources@);
            }
        }
    }

    fn learn(&mut self, key: String, m: Microphone, sources: Ghost<Sources>)
        requires
            old(self).holds(sources@),
            !old(self).names().contains(key@),
        ensures
            final(self).holds(sources@.insert(key@, m@)),
    {
        let i = self.position(key.as_str());
        let ghost names = self.names();
        let ghost values = models(self.values@);
        let ghost k = key@;
        let ghost v = m@;
        self.keys.insert(i, key);
        self.values.insert(i, m);
        proof {
            assert(self.names() =~= names.insert(i as int, k));
            assert(models(self.values@) =~= values.insert(i as int, v));
            lemma_learn(names, values, sources@, i as int, k, v);
        }
    }
}

proof fn lemma_forget(
    names: Seq<Seq<char>>,
    values: Seq<MicrophoneModel>,
    sources: Sources,
    i: int,
)
    requires
        lists(names, values, sources),
        0 <= i < names.len(),
    ensures
        lists(names.remove(i), values.remove(i), sources.remove(names[i])),
        !names.remove(i).contains(names[i]),
{
    let rest = names.remove(i);
    assert forall|j: int| 0 <= j < rest.len() implies rest[j] != names[i] by {
        lemma_precedes_irreflexive(names[i]);
        if j < i {
            assert(precedes(names[j], names[i]));
        } else {
            assert(precedes(names[i], names[j + 1]));
        }
    }
    assert forall|k: Seq<char>| #[trigger]
        sources.remove(names[i]).contains_key(k) <==> rest.contains(k) by {
        if sources.remove(names[i]).contains_key(k) {
            assert(sources.contains_key(k));
            let j = choose|j: int| 0 <= j < names.len() && names[j] == k;
            assert(rest[if j < i { j } else { j - 1 }] == k);
        }
        if rest.contains(k) {
            let j = choose|j: int| 0 <= j < rest.len() && rest[j] == k;
            assert(names[if j < i { j } else { j + 1 }] == k);
            assert(names.contains(k));
            assert(sources.contains_key(k));
        }
    }
}

proof fn lemma_learn(
    names: Seq<Seq<char>>,
    values: Seq<MicrophoneModel>,
    sources: Sources,
    i: int,
    key: Seq<char>,
    value: MicrophoneModel,
)
    requires
        lists(names, values, sources),
        0 <= i <= names.len(),
        !names.contains(key),
        forall|j: int| 0 <= j < i ==> precedes(#[trigger] names[j], key),
        forall|j: int| i <= j < names.len() ==> !precedes(#[trigger] names[j], key),
    ensures
        lists(names.insert(i, key), values.insert(i, value), sources.insert(key, value)),
{
    let all = names.insert(i, key);
    assert forall|j: int| i <= j < names.len() implies precedes(key, #[trigger] names[j]) by {
        lemma_precedes_total(key, names[j]);
    }
    assert forall|a: int, b: int| 0 <= a < b < all.len() implies precedes(
        #[trigger] all[a],
        #[trigger] all[b],
    ) by {
        if b < i {
            assert(precedes(names[a], names[b]));
        } else if b == i {
            assert(precedes(names[a], key));
        } else if a < i {
            assert(precedes(names[a], names[b - 1]));
        } else if a == i {
            assert(precedes(key, names[b - 1]));
        } else {
            assert(precedes(names[a - 1], names[b - 1]));
        }
    }
    assert(all[i] == key);
    assert forall|k: Seq<char>| #[trigger]
        sources.insert(key, value).contains_key(k) <==> all.contains(k) by {
        if sources.insert(key, value).contains_key(k) && k != key {
            assert(sources.contains_key(k));
            let j = choose|j: int| 0 <= j < names.len() && names[j] == k;
            assert(all[if j < i { j } else { j + 1 }] == k);
        }
        if all.contains(k) && k != key {
            let j = choose|j: int| 0 <= j < all.len() && all[j] == k;
            assert(names[if j < i { j } else { j - 1 }] == k);
            assert(names.contains(k));
            assert(sources.contains_key(k));
        }
    }
    assert forall|j: int| 0 <= j < all.len() implies sources.insert(key, value)[#[trigger] all[j]]
        == values.insert(i, value)[j] by {
        if j < i {
            assert(all[j] == names[j]);
            assert(names.contains(names[j]));
        } else if j > i {
            assert(all[j] == names[j - 1]);
            assert(names.contains(names[j - 1]));
        }
    }
}

/// The member of a value that may be absent.
pub open spec fn member_of(value: Option<Seq<char>>, key: Seq<char>) -> Option<Seq<char>> {
    match value {
        Some(value) => json_member(value, key),
        None => None,
    }
}

/// The number that a value is, where there is one.
pub open spec fn number_in(value: Option<Seq<char>>) -> Option<u64> {
    match value {
        Some(value) => json_u64(value),
        None => None,
    }
}

/// The string that a value is, where there is one.
pub open spec fn string_in(value: Option<Seq<char>>) -> Option<Seq<char>> {
    match value {
        Some(value) => json_string(value),
        None => None,
    }
}

/// The node that a JSON value describes.
pub open spec fn node_in(value: Seq<char>) -> NodeModel {
    let info = json_member(value, "info"@);
    let props = member_of(info, "props"@);
    NodeModel {
        id: number_in(json_member(value, "id"@)),
        removed: info is Some && json_null(info->0),
        described: props is Some && json_object(props->0),
        serial: number_in(member_of(props, "object.serial"@)),
        name: string_in(member_of(props, "node.name"@)),
        class: string_in(member_of(props, "media.class"@)),
        description: string_in(member_of(props, "node.description"@)),
    }
}

/// The snapshot that a JSON value is.
pub open spec fn snapshot_in(value: Option<Seq<char>>) -> SnapshotModel {
    match value {
        None => SnapshotModel::Malformed,
        Some(value) => match json_elements(value) {
            None => SnapshotModel::NotAList,
            Some(list) => SnapshotModel::Nodes(list.map_values(|v: Seq<char>| node_in(v))),
        },
    }
}

fn member(value: &Option<Json>, key: &str) -> (r: Option<Json>)
    ensures
        json_view(r) == member_of(json_view(*value), key@),
{
    match value {
        Some(value) => value.member(key),
        None => None,
    }
}

fn number(value: &Option<Json>) -> (r: Option<u64>)
    ensures
        r == number_in(json_view(*value)),
{
    match value {
        Some(value) => value.as_u64(),
        None => None,
    }
}

fn string(value: &Option<Json>) -> (r: Option<String>)
    ensures
        owned_view(r) == string_in(json_view(*value)),
{
    match value {
        Some(value) => value.as_string(),
        None => None,
    }
}

impl Node {
    /// The node that a JSON value describes.
    pub fn read(value: &Json) -> (r: Node)
        ensures
            r@ == node_in(value@),
    {
        let info = value.member("info");
        let props = member(&info, "props");
        let removed = match &info {
            Some(info) => info.is_null(),
            None => false,
        };
        let described = match &props {
            Some(props) => props.is_object(),
            None => false,
        };
        Node {
            id: number(&value.member("id")),
            removed,
            described,
            serial: number(&member(&props, "object.serial")),
            name: string(&member(&props, "node.name")),
            class: string(&member(&props, "media.class")),
            description: string(&member(&props, "node.description")),
        }
    }

    fn key(&self) -> (r: Option<String>)
        ensures
            owned_view(r) == identity(self@),
    {
        match self.id {
            Some(id) => Some("id:".to_owned().concat(decimal(id).as_str())),
            None => match self.serial {
                Some(serial) => Some("serial:".to_owned().concat(decimal(serial).as_str())),
                None => None,
            },
        }
    }

    fn is_source(&self) -> (r: bool)
        ensures
            r == (self@.class == Some("Audio/Source"@)),
    {
        match &self.class {
            Some(class) => same(class.as_str(), "Audio/Source"),
            None => false,
        }
    }

    fn microphone(&self) -> (r: Option<Microphone>)
        ensures
            match r {
                Some(m) => microphone(self@) == Some(m@),
                None => microphone(self@) is None,
            },
    {
        let name = match &self.name {
            Some(name) => name.as_str(),
            None => {
                return None;
            },
        };
        if !self.is_source() || ends_with(name, ".monitor") {
            return None;
        }
        let serial = match self.serial {
            Some(serial) => serial,
            None => {
                return None;
            },
        };
        let shown = match &self.description {
            Some(description) => description.as_str().to_owned(),
            None => name.to_owned(),
        };
        Some(Microphone { serial: decimal(serial), name: shown })
    }
}

impl Snapshot {
    /// The snapshot that a JSON value is; `None` stands for a malformed one.
    pub fn read(value: &Option<Json>) -> (r: Snapshot)
        ensures
            r@ == snapshot_in(json_view(*value)),
    {
        let list = match value {
            None => {
                return Snapshot::Malformed;
            },
            Some(value) => match value.elements() {
                None => {
                    return Snapshot::NotAList;
                },
                Some(list) => list,
            },
        };
        let mut nodes: Vec<Node> = Vec::new();
        for i in 0..list.len()
            invariant
                nodes.len() == i,
                forall|j: int| 0 <= j < i ==> (#[trigger] nodes@[j])@ == node_in(list@[j]@),
        {
            nodes.push(Node::read(&list[i]));
        }
        proof {
            let values = list@.map_values(|j: Json| j@);
            assert(nodes@.map_values(|n: Node| n@) =~= values.map_values(
                |v: Seq<char>| node_in(v),
            ));
        }
        Snapshot::Nodes(nodes)
    }
}

impl Table {
    fn apply(&mut self, node: &Node, sources: Ghost<Sources>)
        requires
            old(self).holds(sources@),
        ensures
            final(self).holds(after_node(sources@, node@)),
    {
        let key = match node.key() {
            Some(key) => key,
            None => {
                return;
            },
        };
        if !node.removed && !node.described {
            return;
        }
        self.forget(key.as_str(), sources);
        if node.removed {
            return;
        }
        if let Some(m) = node.microphone() {
            let ghost rest = sources@.remove(key@);
            assert(rest.insert(key@, m@) =~= sources@.insert(key@, m@));
            self.learn(key, m, Ghost(rest));
        }
    }

    fn apply_all(&mut self, nodes: &Vec<Node>, sources: Ghost<Sources>)
        requires
            old(self).holds(sources@),
        ensures
            final(self).holds(after_nodes(sources@, nodes@.map_values(|n: Node| n@))),
    {
        let ghost all = nodes@.map_values(|n: Node| n@);
        let mut i: usize = 0;
        while i < nodes.len()
            invariant
                i <= nodes.len(),
                all == nodes@.map_values(|n: Node| n@),
                self.holds(after_nodes(sources@, all.take(i as int))),
            decreases nodes.len() - i,
        {
            assert(all.take(i + 1).drop_last() =~= all.take(i as int));
            assert(all.take(i + 1).last() == nodes@[i as int]@);
            self.apply(&nodes[i], Ghost(after_nodes(sources@, all.take(i as int))));
            i += 1;
        }
        assert(all.take(all.len() as int) =~= all);
    }
}

/// Nodes given in two parts say what they say in one.
pub proof fn nodes_may_come_in_parts(sources: Sources, a: Seq<NodeModel>, b: Seq<NodeModel>)
    ensures
        after_nodes(after_nodes(sources, a), b) == after_nodes(sources, a + b),
    decreases b.len(),
{
    if b.len() == 0 {
        assert(a + b =~= a);
    } else {
        nodes_may_come_in_parts(sources, a, b.drop_last());
        assert((a + b).drop_last() =~= a + b.drop_last());
    }
}

proof fn lemma_first_error_stands(snapshots: Seq<SnapshotModel>, i: int)
    requires
        0 <= i <= snapshots.len(),
        all_nodes(snapshots.take(i)) is Err,
    ensures
        all_nodes(snapshots) == all_nodes(snapshots.take(i)),
    decreases snapshots.len(),
{
    if i == snapshots.len() {
        assert(snapshots.take(i) =~= snapshots);
    } else {
        assert(snapshots.drop_last().take(i) =~= snapshots.take(i));
        lemma_first_error_stands(snapshots.drop_last(), i);
    }
}

/// The microphones that remain when all snapshots have been applied in order. Later
/// snapshots are updates: a node without properties changes nothing, a node without
/// information removes what it stands for.
pub fn microphones_in(snapshots: &[Snapshot]) -> (r: Result<Vec<Microphone>, String>)
    ensures
        answers(r, snapshots@.map_values(|s: Snapshot| s@)),
{
    let ghost all = snapshots@.map_values(|s: Snapshot| s@);
    let mut table = Table { keys: Vec::new(), values: Vec::new() };
    let ghost mut nodes: Seq<NodeModel> = seq![];
    let mut i: usize = 0;
    assert(all.take(0) =~= seq![]);
    while i < snapshots.len()
        invariant
            i <= snapshots.len(),
            all == snapshots@.map_values(|s: Snapshot| s@),
            all_nodes(all.take(i as int)) == Ok::<Seq<NodeModel>, Seq<char>>(nodes),
            table.holds(after_nodes(Map::empty(), nodes)),
        decreases snapshots.len() - i,
    {
        proof {
            assert(all.take(i + 1).drop_last() =~= all.take(i as int));
            assert(all.take(i + 1).last() == snapshots@[i as int]@);
        }
        match &snapshots[i] {
            Snapshot::Malformed => {
                proof {
                    lemma_first_error_stands(all, i + 1);
                }
                return Err("Invalid PipeWire response".to_owned());
            },
            Snapshot::NotAList => {
                proof {
                    lemma_first_error_stands(all, i + 1);
                }
                return Err("Invalid PipeWire node list".to_owned());
            },
            Snapshot::Nodes(more) => {
                let ghost said = more@.map_values(|n: Node| n@);
                table.apply_all(more, Ghost(after_nodes(Map::empty(), nodes)));
                proof {
                    nodes_may_come_in_parts(Map::empty(), nodes, said);
                    nodes = nodes + said;
                }
            },
        }
        i += 1;
    }
    assert(all.take(all.len() as int) =~= all);
    if snapshots.len() == 0 {
        return Err("Empty PipeWire response".to_owned());
    }
    assert(all_nodes(all) == Ok::<Seq<NodeModel>, Seq<char>>(nodes));
    let ghost keys = table.names();
    let values = table.values;
    assert(lists(keys, models(values@), after_nodes(Map::empty(), nodes)));
    assert(in_order(models(values@), after_nodes(Map::empty(), nodes)));
    Ok(values)
}

/// The microphones in what `pw-dump` wrote: one or more lists of nodes, the first a
/// snapshot of the graph and the others its changes since.
pub fn microphones_from_json(raw: &str) -> (r: Result<Vec<Microphone>, String>)
    ensures
        answers(r, json_stream(raw@).map_values(|v: Option<Seq<char>>| snapshot_in(v))),
{
    let values = Json::stream(raw);
    let mut snapshots: Vec<Snapshot> = Vec::new();
    for i in 0..values.len()
        invariant
            snapshots.len() == i,
            forall|j: int|
                0 <= j < i ==> (#[trigger] snapshots@[j])@ == snapshot_in(json_view(values@[j])),
    {
        snapshots.push(Snapshot::read(&values[i]));
    }
    proof {
        let stream = values@.map_values(|v: Option<Json>| json_view(v));
        assert(snapshots@.map_values(|s: Snapshot| s@) =~= stream.map_values(
            |v: Option<Seq<char>>| snapshot_in(v),
        ));
    }
    microphones_in(snapshots.as_slice())
}

/// A node that has left the graph is no longer listed.
pub proof fn removed_nodes_are_not_listed(sources: Sources, node: NodeModel)
    requires
        node.removed,
        identity(node) is Some,
    ensures
        !after_node(sources, node).contains_key(identity(node)->0),
{
}

/// A change that gives no properties leaves the list as it is.
pub proof fn changes_without_properties_keep_the_list(sources: Sources, node: NodeModel)
    requires
        !node.removed,
        !node.described,
    ensures
        after_node(sources, node) == sources,
{
}

/// A node says nothing of another.
pub proof fn nodes_speak_for_themselves(sources: Sources, node: NodeModel, key: Seq<char>)
    requires
        identity(node) != Some(key),
    ensures
        after_node(sources, node).contains_key(key) == sources.contains_key(key),
        sources.contains_key(key) ==> after_node(sources, node)[key] == sources[key],
{
}

/// What is listed is what the node of that identity that spoke last said: a source that is
/// no monitor and has a serial number.
pub proof fn the_last_word_is_listed(nodes: Seq<NodeModel>, key: Seq<char>, last: int)
    requires
        0 <= last < nodes.len(),
        speaks(nodes[last]),
        identity(nodes[last]) == Some(key),
        forall|i: int|
            last < i < nodes.len() && speaks(#[trigger] nodes[i]) ==> identity(nodes[i]) != Some(
                key,
            ),
    ensures
        ({
            let sources = after_nodes(Map::empty(), nodes);
            match word(nodes[last]) {
                Some(m) => sources.contains_key(key) && sources[key] == m,
                None => !sources.contains_key(key),
            }
        }),
    decreases nodes.len(),
{
    if last < nodes.len() - 1 {
        let earlier = nodes.drop_last();
        assert forall|i: int| last < i < earlier.len() && speaks(#[trigger] earlier[i]) implies
            identity(earlier[i]) != Some(key) by {
            assert(earlier[i] == nodes[i]);
        }
        the_last_word_is_listed(earlier, key, last);
    }
}

/// What no node spoke of is not listed.
pub proof fn nothing_is_listed_unsaid(nodes: Seq<NodeModel>, key: Seq<char>)
    requires
        forall|i: int|
            0 <= i < nodes.len() && speaks(#[trigger] nodes[i]) ==> identity(nodes[i]) != Some(key),
    ensures
        !after_nodes(Map::empty(), nodes).contains_key(key),
    decreases nodes.len(),
{
    if nodes.len() > 0 {
        let earlier = nodes.drop_last();
        assert forall|i: int| 0 <= i < earlier.len() && speaks(#[trigger] earlier[i]) implies
            identity(earlier[i]) != Some(key) by {
            assert(earlier[i] == nodes[i]);
        }
        nothing_is_listed_unsaid(earlier, key);
        assert(nodes.last() == nodes[nodes.len() - 1]);
    }
}

proof fn lemma_first_keys_agree(a: Seq<Seq<char>>, b: Seq<Seq<char>>, n: int)
    requires
        ascending(a),
        ascending(b),
        forall|k: Seq<char>| #[trigger] a.contains(k) ==> b.contains(k),
        forall|k: Seq<char>| #[trigger] b.contains(k) ==> a.contains(k),
        0 <= n <= a.len(),
        n <= b.len(),
    ensures
        forall|i: int| 0 <= i < n ==> #[trigger] a[i] == b[i],
    decreases n,
{
    if n > 0 {
        let i = n - 1;
        lemma_first_keys_agree(a, b, i);
        lemma_precedes_total(a[i], b[i]);
        lemma_precedes_irreflexive(a[i]);
        lemma_precedes_irreflexive(b[i]);
        assert(a.contains(a[i]) && b.contains(b[i]));
        if precedes(a[i], b[i]) {
            let p = choose|p: int| 0 <= p < b.len() && b[p] == a[i];
            if p < i {
                assert(a[p] == b[p]);
                assert(precedes(a[p], a[i]));
            } else if p > i {
                assert(precedes(b[i], b[p]));
                lemma_precedes_transitive(a[i], b[i], b[p]);
            }
        }
        if precedes(b[i], a[i]) {
            let p = choose|p: int| 0 <= p < a.len() && a[p] == b[i];
            if p < i {
                assert(a[p] == b[p]);
                assert(precedes(b[p], b[i]));
            } else if p > i {
                assert(precedes(a[i], a[p]));
                lemma_precedes_transitive(b[i], a[i], a[p]);
            }
        }
    }
}

proof fn lemma_no_more_keys(a: Seq<Seq<char>>, b: Seq<Seq<char>>)
    requires
        ascending(a),
        ascending(b),
        forall|k: Seq<char>| #[trigger] a.contains(k) ==> b.contains(k),
        forall|k: Seq<char>| #[trigger] b.contains(k) ==> a.contains(k),
    ensures
        b.len() <= a.len(),
{
    if a.len() < b.len() {
        let n = a.len() as int;
        lemma_first_keys_agree(a, b, n);
        assert(b.contains(b[n]));
        let p = choose|p: int| 0 <= p < a.len() && a[p] == b[n];
        assert(precedes(b[p], b[n]));
        lemma_precedes_irreflexive(b[n]);
    }
}

/// The microphones known can be listed in one order only.
pub proof fn the_list_is_determined(
    a: Seq<MicrophoneModel>,
    b: Seq<MicrophoneModel>,
    sources: Sources,
)
    requires
        in_order(a, sources),
        in_order(b, sources),
    ensures
        a == b,
{
    let ka = choose|keys: Seq<Seq<char>>| #[trigger] lists(keys, a, sources);
    let kb = choose|keys: Seq<Seq<char>>| #[trigger] lists(keys, b, sources);
    assert forall|k: Seq<char>| #[trigger] ka.contains(k) implies kb.contains(k) by {
        assert(sources.contains_key(k));
    }
    assert forall|k: Seq<char>| #[trigger] kb.contains(k) implies ka.contains(k) by {
        assert(sources.contains_key(k));
    }
    lemma_no_more_keys(ka, kb);
    lemma_no_more_keys(kb, ka);
    lemma_first_keys_agree(ka, kb, ka.len() as int);
    assert forall|i: int| 0 <= i < a.len() implies a[i] == b[i] by {
        assert(ka[i] == kb[i]);
    }
    assert(a =~= b);
}

/// The path is absolute.
pub open spec fn absolute(path: Seq<char>) -> bool {
    path.len() > 0 && path[0] == '/'
}

/// The folder for configuration files.
pub open spec fn config_home(vars: Seq<(Seq<char>, Seq<char>)>) -> Option<Seq<char>> {
    match value_of(vars, "XDG_CONFIG_HOME"@) {
        Some(path) if absolute(path) => Some(path),
        _ => match value_of(vars, "HOME"@) {
            Some(home) => Some(below(home, ".config"@)),
            None => None,
        },
    }
}

/// Where the credential file is: where it is said to be, else in the folder for
/// configuration files.
pub open spec fn config_file(vars: Seq<(Seq<char>, Seq<char>)>) -> Option<Seq<char>> {
    match filled(value_of(vars, "FOTW_ENV_FILE"@)) {
        Some(path) => Some(path),
        None => match config_home(vars) {
            Some(folder) => Some(below(folder, "murmur/env"@)),
            None => None,
        },
    }
}

fn is_absolute(path: &str) -> (r: bool)
    ensures
        r == absolute(path@),
{
    path.unicode_len() > 0 && path.get_char(0) == '/'
}

/// Where the credential file is.
pub fn config_path(vars: &[(String, String)]) -> (r: Option<String>)
    ensures
        owned_view(r) == config_file(pairs(vars@)),
{
    if let Some(path) = lookup_filled(vars, "FOTW_ENV_FILE") {
        return Some(path.to_owned());
    }
    if let Some(path) = lookup(vars, "XDG_CONFIG_HOME") {
        if is_absolute(path) {
            return Some(join(path, "murmur/env"));
        }
    }
    match lookup(vars, "HOME") {
        Some(home) => Some(join(join(home, ".config").as_str(), "murmur/env")),
        None => None,
    }
}

/// What is known of a file without reading it.
#[derive(Clone, Copy, Debug, PartialEq, Eq, Structural)]
pub struct Metadata {
    pub is_file: bool,
    pub mode: u32,
}

/// The file is an ordinary one that only its owner may use.
pub open spec fn private(file: Metadata) -> bool {
    file.is_file && file.mode & 0o077 == 0
}

/// The credential file exists and is private.
pub open spec fn usable(file: Option<Metadata>) -> bool {
    file matches Some(f) && private(f)
}

/// A credential file must exist and be private.
pub fn check_private(file: Option<Metadata>) -> (r: Result<(), String>)
    ensures
        match file {
            None => r is Err && r->Err_0@ == unreadable(),
            Some(file) => if private(file) {
                r is Ok
            } else {
                r is Err && r->Err_0@ == not_private()
            },
        },
        r is Ok <==> usable(file),
{
    match file {
        None => Err("Cannot read configured credential file".to_owned()),
        Some(file) => if !file.is_file || file.mode & 0o077 != 0 {
            Err("Credential file must be private: chmod 600 the configured env file".to_owned())
        } else {
            Ok(())
        },
    }
}

/// What is said where there is no key.
pub open spec fn no_key() -> Seq<char> {
    "No Deepgram key. Set DEEPGRAM_API_KEY or configure ~/.config/murmur/env (mode 600)."@
}

/// What is said of a credential file that cannot be inspected.
pub open spec fn unreadable() -> Seq<char> {
    "Cannot read configured credential file"@
}

/// What is said of a credential file that others may use.
pub open spec fn not_private() -> Seq<char> {
    "Credential file must be private: chmod 600 the configured env file"@
}

/// The credential file was named: it counts whether or not it exists.
pub open spec fn file_named(vars: Seq<(Seq<char>, Seq<char>)>) -> bool {
    filled(value_of(vars, "FOTW_ENV_FILE"@)) is Some
}

/// What the key that a file gives comes to.
pub open spec fn file_verdict(key: Result<Option<Seq<char>>, Seq<char>>) -> Verdict {
    match key {
        Err(message) => Err(message),
        Ok(Some(k)) => Ok((k, "dotenv"@)),
        Ok(None) => Err(no_key()),
    }
}

/// The file at `path` was read, and what it says decides.
pub open spec fn file_decides<R: FnOnce(&str) -> EnvFile>(
    read: R,
    path: Seq<char>,
    r: Result<Credentials, String>,
) -> bool {
    exists|asked: &str, file: EnvFile, key: Result<Option<Seq<char>>, Seq<char>>|
        #![trigger call_ensures(read, (asked,), file), file_says(file, key)]
        {
            &&& asked@ == path
            &&& call_ensures(read, (asked,), file)
            &&& file_says(file, key)
            &&& verdict(r) == file_verdict(key)
        }
}

/// What is known of the file at the place where it is looked for decides whether it is read.
pub open spec fn inspection_decides<R: FnOnce(&str) -> EnvFile>(
    found: Option<Metadata>,
    named: bool,
    read: R,
    path: Seq<char>,
    r: Result<Credentials, String>,
) -> bool {
    match found {
        None => verdict(r) == Err::<(Seq<char>, Seq<char>), Seq<char>>(
            if named {
                unreadable()
            } else {
                no_key()
            },
        ),
        Some(file) => if private(file) {
            file_decides(read, path, r)
        } else {
            verdict(r) == Err::<(Seq<char>, Seq<char>), Seq<char>>(not_private())
        },
    }
}

/// The key: that of the environment, else that of the credential file. The file is inspected
/// only where the environment gives no key, and read only where it is private.
pub fn credentials<M: FnOnce(&str) -> Option<Metadata>, R: FnOnce(&str) -> EnvFile>(
    vars: &[(String, String)],
    stat: M,
    read: R,
) -> (r: Result<Credentials, String>)
    requires
        filled(value_of(pairs(vars@), key_name())) is None ==> forall|path: &str|
            config_file(pairs(vars@)) == Some(path@) ==> {
                &&& #[trigger] call_requires(stat, (path,))
                &&& (exists|file: Metadata|
                    private(file) && #[trigger] call_ensures(stat, (path,), Some(file)))
                    ==> call_requires(read, (path,))
            },
    ensures
        match filled(value_of(pairs(vars@), key_name())) {
            Some(key) => verdict(r) == Ok::<(Seq<char>, Seq<char>), Seq<char>>(
                (key, "environment"@),
            ),
            None => match config_file(pairs(vars@)) {
                Some(p) => exists|path: &str, found: Option<Metadata>|
                    path@ == p && #[trigger] call_ensures(stat, (path,), found)
                        && inspection_decides(found, file_named(pairs(vars@)), read, p, r),
                None => verdict(r) == Err::<(Seq<char>, Seq<char>), Seq<char>>(no_key()),
            },
        },
{
    let missing = || -> (answer: Result<Option<String>, String>)
        ensures
            answer is Err && answer->Err_0@ == no_key(),
        {
            Err(
                "No Deepgram key. Set DEEPGRAM_API_KEY or configure ~/.config/murmur/env (mode 600).".to_owned(),
            )
        };
    if lookup_filled(vars, "DEEPGRAM_API_KEY").is_some() {
        return resolve(vars, None, read, missing);
    }
    let path = match config_path(vars) {
        Some(path) => path,
        None => {
            return resolve(vars, None, read, missing);
        },
    };
    let place = path.as_str();
    let found = stat(place);
    if found.is_none() && lookup_filled(vars, "FOTW_ENV_FILE").is_none() {
        return resolve(vars, None, read, missing);
    }
    if let Err(message) = check_private(found) {
        return Err(message);
    }
    assert(private(found->0) && call_ensures(stat, (place,), Some(found->0)));
    resolve(vars, Some(place), read, missing)
}

/// A credential file that others may use gives no key, whatever it holds, and neither does
/// one that cannot be inspected.
pub proof fn open_files_give_no_key<R: FnOnce(&str) -> EnvFile>(
    found: Option<Metadata>,
    named: bool,
    read: R,
    path: Seq<char>,
    r: Result<Credentials, String>,
)
    requires
        inspection_decides(found, named, read, path, r),
        !(found matches Some(file) && private(file)),
    ensures
        verdict(r) == Err::<(Seq<char>, Seq<char>), Seq<char>>(unreadable()) || verdict(r) == Err::<
            (Seq<char>, Seq<char>),
            Seq<char>,
        >(no_key()) || verdict(r) == Err::<(Seq<char>, Seq<char>), Seq<char>>(not_private()),
{
}

#[verifier::spinoff_prover]
proof fn lemma_no_key()
    ensures
        no_key().len() > 0,
        never_followed(no_key(), 'K', 'e', (no_key().len() - 1) as nat),
{
    reveal_strlit("No Deepgram key. Set DEEPGRAM_API_KEY or configure ~/.config/murmur/env (mode 600).");
    let s = no_key();
    assert(never_followed(s, 'K', 'e', 20)) by {
        reveal_with_fuel(never_followed, 21);
    }
    assert(never_followed(s, 'K', 'e', 40)) by {
        reveal_with_fuel(never_followed, 21);
    }
    assert(never_followed(s, 'K', 'e', 60)) by {
        reveal_with_fuel(never_followed, 21);
    }
    assert(never_followed(s, 'K', 'e', 80)) by {
        reveal_with_fuel(never_followed, 21);
    }
    assert(never_followed(s, 'K', 'e', 82)) by {
        reveal_with_fuel(never_followed, 3);
    }
}

#[verifier::spinoff_prover]
proof fn lemma_unreadable()
    ensures
        unreadable().len() > 0,
        never_followed(unreadable(), 'K', 'e', (unreadable().len() - 1) as nat),
{
    reveal_strlit("Cannot read configured credential file");
    let s = unreadable();
    assert(never_followed(s, 'K', 'e', 20)) by {
        reveal_with_fuel(never_followed, 21);
    }
    assert(never_followed(s, 'K', 'e', 37)) by {
        reveal_with_fuel(never_followed, 18);
    }
}

#[verifier::spinoff_prover]
proof fn lemma_not_private()
    ensures
        not_private().len() > 0,
        never_followed(not_private(), 'K', 'e', (not_private().len() - 1) as nat),
{
    reveal_strlit("Credential file must be private: chmod 600 the configured env file");
    let s = not_private();
    assert(never_followed(s, 'K', 'e', 20)) by {
        reveal_with_fuel(never_followed, 21);
    }
    assert(never_followed(s, 'K', 'e', 40)) by {
        reveal_with_fuel(never_followed, 21);
    }
    assert(never_followed(s, 'K', 'e', 60)) by {
        reveal_with_fuel(never_followed, 21);
    }
    assert(never_followed(s, 'K', 'e', 65)) by {
        reveal_with_fuel(never_followed, 6);
    }
}

#[verifier::spinoff_prover]
proof fn lemma_missing_file()
    ensures
        "Cannot read the configured .env file"@.len() > 0,
        never_followed(
            "Cannot read the configured .env file"@,
            'K',
            'e',
            ("Cannot read the configured .env file"@.len() - 1) as nat,
        ),
{
    reveal_strlit("Cannot read the configured .env file");
    let s = "Cannot read the configured .env file"@;
    assert(never_followed(s, 'K', 'e', 20)) by {
        reveal_with_fuel(never_followed, 21);
    }
    assert(never_followed(s, 'K', 'e', 35)) by {
        reveal_with_fuel(never_followed, 16);
    }
}

#[verifier::spinoff_prover]
proof fn lemma_malformed_file()
    ensures
        "Invalid .env syntax; values withheld"@.len() > 0,
        never_followed(
            "Invalid .env syntax; values withheld"@,
            'K',
            'e',
            ("Invalid .env syntax; values withheld"@.len() - 1) as nat,
        ),
{
    reveal_strlit("Invalid .env syntax; values withheld");
    let s = "Invalid .env syntax; values withheld"@;
    assert(never_followed(s, 'K', 'e', 20)) by {
        reveal_with_fuel(never_followed, 21);
    }
    assert(never_followed(s, 'K', 'e', 35)) by {
        reveal_with_fuel(never_followed, 16);
    }
}

/// No error speaks of the keychain, which this desktop does not have.
#[verifier::spinoff_prover]
pub proof fn errors_do_not_mention_the_keychain(file: EnvFile, message: Seq<char>)
    requires
        message == no_key() || message == unreadable() || message == not_private() || file_says(
            file,
            Err(message),
        ),
    ensures
        !found(message, "Keychain"@),
{
    reveal_strlit("Keychain");
    lemma_no_key();
    lemma_unreadable();
    lemma_not_private();
    lemma_missing_file();
    lemma_malformed_file();
    if file_says(file, Err(message)) {
        errors_withhold_the_file(file, message);
    }
    lemma_not_found(message, "Keychain"@, 0);
}

/// A microphone with this serial number is among these.
pub open spec fn offered(list: Seq<MicrophoneModel>, serial: Seq<char>) -> bool {
    exists|i: int| 0 <= i < list.len() && (#[trigger] list[i]).serial == serial
}

/// The microphone with this serial number is among those known.
pub fn available(microphones: &[Microphone], serial: &str) -> (r: bool)
    ensures
        r == exists|i: int|
            0 <= i < microphones@.len() && (#[trigger] microphones@[i]).serial@ == serial@,
        r == offered(models(microphones@), serial@),
{
    let ghost all = models(microphones@);
    let mut i: usize = 0;
    while i < microphones.len()
        invariant
            i <= microphones@.len(),
            all == models(microphones@),
            forall|j: int| 0 <= j < i ==> (#[trigger] microphones@[j]).serial@ != serial@,
        decreases microphones.len() - i,
    {
        if same(microphones[i].serial.as_str(), serial) {
            assert(all[i as int].serial == serial@);
            return true;
        }
        i += 1;
    }
    proof {
        if offered(all, serial@) {
            let j = choose|j: int| 0 <= j < all.len() && (#[trigger] all[j]).serial == serial@;
            assert(microphones@[j].serial@ == serial@);
        }
    }
    false
}

/// What the desktop says to a session.
#[derive(Clone, Copy, Debug, PartialEq, Eq, Structural)]
pub enum Order {
    Stop,
    Cancel,
    /// A line without meaning.
    Unknown,
    /// No more lines can be read.
    Gone,
}

/// What a line says.
pub open spec fn order_in(line: Seq<char>) -> Order {
    if line == "stop"@ {
        Order::Stop
    } else if line == "cancel"@ {
        Order::Cancel
    } else {
        Order::Unknown
    }
}

impl Order {
    /// What a line says.
    pub fn read(line: &str) -> (r: Order)
        ensures
            r == order_in(line@),
    {
        if same(line, "stop") {
            Order::Stop
        } else if same(line, "cancel") {
            Order::Cancel
        } else {
            Order::Unknown
        }
    }

    /// The session's control after this order. A session that was cancelled stays so, and
    /// one without a desktop is cancelled.
    pub open spec fn obeyed(self, control: u8) -> u8 {
        match self {
            Order::Stop => if control == RECORDING {
                FINISH
            } else {
                control
            },
            Order::Unknown => control,
            Order::Cancel | Order::Gone => CANCEL,
        }
    }

    /// No order after this one counts.
    pub open spec fn ends(self) -> bool {
        self == Order::Cancel || self == Order::Gone
    }

    /// The session's control after this order.
    pub fn obey(self, control: u8) -> (r: u8)
        ensures
            r == self.obeyed(control),
    {
        match self {
            Order::Stop => if control == RECORDING {
                FINISH
            } else {
                control
            },
            Order::Unknown => control,
            Order::Cancel | Order::Gone => CANCEL,
        }
    }

    /// No order after this one counts.
    pub fn is_last(self) -> (r: bool)
        ensures
            r == (self == Order::Cancel || self == Order::Gone),
            r == self.ends(),
    {
        match self {
            Order::Cancel | Order::Gone => true,
            _ => false,
        }
    }
}

/// What a session says to the desktop in the end.
#[derive(Debug)]
pub enum Report {
    Cancelled,
    Review(String),
    Error(String),
}

pub ghost enum ReportModel {
    Cancelled,
    Review(Seq<char>),
    Error(Seq<char>),
}

impl View for Report {
    type V = ReportModel;

    open spec fn view(&self) -> ReportModel {
        match *self {
            Report::Cancelled => ReportModel::Cancelled,
            Report::Review(text) => ReportModel::Review(text@),
            Report::Error(message) => ReportModel::Error(message@),
        }
    }
}

/// What a session says in the end.
pub open spec fn reported(control: u8, result: Result<Seq<char>, Seq<char>>) -> ReportModel {
    if control == CANCEL {
        ReportModel::Cancelled
    } else {
        match result {
            Ok(text) => ReportModel::Review(text),
            Err(message) => ReportModel::Error(message),
        }
    }
}

/// What a session says in the end: nothing of a transcript if it was cancelled.
pub fn report(control: u8, result: Result<String, String>) -> (r: Report)
    ensures
        control == CANCEL <==> r is Cancelled,
        control != CANCEL ==> match result {
            Ok(text) => r is Review && r->Review_0@ == text@,
            Err(message) => r is Error && r->Error_0@ == message@,
        },
        r@ == reported(
            control,
            match result {
                Ok(text) => Ok(text@),
                Err(message) => Err(message@),
            },
        ),
{
    if control == CANCEL {
        return Report::Cancelled;
    }
    match result {
        Ok(text) => Report::Review(text),
        Err(message) => Report::Error(message),
    }
}

/// The session is to say now that it is recording.
pub open spec fn announcing(announced: bool, receiving: bool, control: u8) -> bool {
    !announced && receiving && control == RECORDING
}

/// The session is to say now that it is recording: once, when audio arrives.
pub fn announces(announced: bool, receiving: bool, control: u8) -> (r: bool)
    ensures
        r == (!announced && receiving && control == RECORDING),
        r == announcing(announced, receiving, control),
{
    !announced && receiving && control == RECORDING
}

/// Orders, one after the other.
pub open spec fn obeyed_all(control: u8, orders: Seq<Order>) -> u8
    decreases orders.len(),
{
    if orders.len() == 0 {
        control
    } else {
        orders.last().obeyed(obeyed_all(control, orders.drop_last()))
    }
}

/// A cancelled session stays cancelled, whatever the desktop says later.
pub proof fn cancellation_stands(control: u8, orders: Seq<Order>, i: int)
    requires
        0 <= i < orders.len(),
        orders[i] == Order::Cancel || orders[i] == Order::Gone,
    ensures
        obeyed_all(control, orders) == CANCEL,
    decreases orders.len(),
{
    if i < orders.len() - 1 {
        cancellation_stands(control, orders.drop_last(), i);
    }
}

/// The arguments of the recorder: one channel of 32-bit floating-point samples at 48 kHz of
/// this microphone and no other, written to standard output.
pub open spec fn recorder_words(serial: Seq<char>) -> Seq<Seq<char>> {
    seq![
        "--target"@,
        serial,
        "--rate"@,
        "48000"@,
        "--channels"@,
        "1"@,
        "--format"@,
        "f32"@,
        "--properties"@,
        "{ node.dont-reconnect = true }"@,
        "-"@,
    ]
}

/// The arguments of the recorder for the microphone with this serial number.
pub fn recorder_args(serial: &str) -> (r: Vec<String>)
    ensures
        r@.map_values(|s: String| s@) == recorder_words(serial@),
{
    let r: Vec<String> = vec![
        "--target".to_owned(),
        serial.to_owned(),
        "--rate".to_owned(),
        "48000".to_owned(),
        "--channels".to_owned(),
        "1".to_owned(),
        "--format".to_owned(),
        "f32".to_owned(),
        "--properties".to_owned(),
        "{ node.dont-reconnect = true }".to_owned(),
        "-".to_owned(),
    ];
    assert(r@.map_values(|s: String| s@) =~= recorder_words(serial@));
    r
}

/// The rate of the recorder.
pub const RECORDER_RATE: u32 = 48_000;

/// How many bytes are read at a time: 10 ms.
pub const READ_BYTES: usize = 1_920;

/// The 32 bits that four bytes from `i` on make, the low ones first.
pub open spec fn word_at(bytes: Seq<u8>, i: int) -> int {
    bytes[i] + 0x100 * bytes[i + 1] + 0x1_0000 * bytes[i + 2] + 0x100_0000 * bytes[i + 3]
}

/// What the bytes are as samples.
pub open spec fn words_in(bytes: Seq<u8>) -> Seq<u32> {
    Seq::new(bytes.len() / 4, |i: int| word_at(bytes, 4 * i) as u32)
}

/// The samples, as bits, that the bytes hold; an incomplete one at the end is left out.
pub fn samples(bytes: &[u8]) -> (r: Vec<u32>)
    ensures
        r@ == words_in(bytes@),
{
    let len: usize = bytes.len();
    let n: usize = len / 4;
    let mut out: Vec<u32> = Vec::new();
    let mut i: usize = 0;
    while i < n
        invariant
            len == bytes@.len(),
            n == len / 4,
            i <= n,
            out@.len() == i,
            forall|j: int| 0 <= j < i ==> #[trigger] out@[j] == word_at(bytes@, 4 * j) as u32,
        decreases n - i,
    {
        let at: usize = 4 * i;
        let word: u32 = bytes[at] as u32 + 0x100 * (bytes[at + 1] as u32) + 0x1_0000 * (bytes[at
            + 2] as u32) + 0x100_0000 * (bytes[at + 3] as u32);
        out.push(word);
        i += 1;
    }
    assert(out@ =~= words_in(bytes@));
    out
}

/// The position behind a block that follows the first `position` samples.
pub open spec fn read_to(position: int, bytes: Seq<u8>) -> int {
    position + bytes.len() / 4
}

/// Why the recorder was not started.
#[derive(Clone, Copy, Debug, PartialEq, Eq, Structural)]
pub struct AlreadyRunning;

/// The recorder as its owner sees it.
#[derive(Clone, Copy, Debug, PartialEq, Eq, Structural)]
pub struct Recorder {
    pub running: bool,
}

impl Recorder {
    /// A recorder may be started unless it runs.
    pub fn may_start(&self) -> (r: Result<(), AlreadyRunning>)
        ensures
            r is Err <==> self.running,
    {
        if self.running {
            return Err(AlreadyRunning);
        }
        Ok(())
    }
}

/// What one read of the recorder's output comes to.
#[derive(Debug)]
pub enum Reading {
    /// These samples follow the first `position` samples.
    Frames {
        samples: Vec<u32>,
        position: u64,
    },
    /// The microphone is gone.
    Lost,
    /// The recorder was stopped.
    Ended,
}

/// The recorder's output, as far as it was read.
#[derive(Clone, Copy, Debug, PartialEq, Eq, Structural)]
pub struct Output {
    pub position: u64,
}

impl Output {
    /// A block was read, or none could be. An end of the output is a loss of the microphone
    /// unless the recorder is being stopped.
    pub fn read(&mut self, bytes: Option<&[u8]>, stopping: bool) -> (r: Reading)
        requires
            bytes matches Some(b) ==> old(self).position + b@.len() / 4 <= u64::MAX,
        ensures
            match bytes {
                Some(b) => {
                    &&& r is Frames
                    &&& r->samples@ == words_in(b@)
                    &&& r->position == old(self).position
                    &&& final(self).position == old(self).position + b@.len() / 4
                },
                None => {
                    &&& r is Ended <==> stopping
                    &&& r is Lost <==> !stopping
                    &&& *final(self) == *old(self)
                },
            },
            bytes matches Some(b) ==> final(self).position as int == read_to(
                old(self).position as int,
                b@,
            ),
    {
        match bytes {
            Some(b) => {
                let samples = samples(b);
                let position: u64 = self.position;
                self.position = position + samples.len() as u64;
                Reading::Frames { samples, position }
            },
            None => if stopping {
                Reading::Ended
            } else {
                Reading::Lost
            },
        }
    }
}

/// A node of class `Audio/Source` that has a name and a serial number is a microphone unless
/// its name ends with the eight characters `.monitor`; a dot elsewhere in the name is no
/// reason, and no other node is one.
pub proof fn sources_are_microphones_unless_they_monitor(node: NodeModel)
    ensures
        microphone(node) is Some <==> {
            let name = node.name->0;
            let n = name.len() as int;
            &&& node.name is Some
            &&& node.serial is Some
            &&& node.class == Some("Audio/Source"@)
            &&& !(n >= 8 && name[n - 8] == '.' && name[n - 7] == 'm' && name[n - 6] == 'o' && name[n
                - 5] == 'n' && name[n - 4] == 'i' && name[n - 3] == 't' && name[n - 2] == 'o'
                && name[n - 1] == 'r')
        },
        microphone(node) is Some <==> node.name is Some && node.serial is Some && node.class
            == Some("Audio/Source"@) && forall|stem: Seq<char>|
            node.name->0 != #[trigger] (stem + ".monitor"@),
{
    reveal_strlit(".monitor");
    if let Some(name) = node.name {
        let n = name.len() as int;
        let at = n - 8;
        if n >= 8 {
            let tail = name.subrange(at, at + 8);
            assert(tail[0] == name[n - 8] && tail[1] == name[n - 7] && tail[2] == name[n - 6]
                && tail[3] == name[n - 5] && tail[4] == name[n - 4] && tail[5] == name[n - 3]
                && tail[6] == name[n - 2] && tail[7] == name[n - 1]);
            if name[n - 8] == '.' && name[n - 7] == 'm' && name[n - 6] == 'o' && name[n - 5] == 'n'
                && name[n - 4] == 'i' && name[n - 3] == 't' && name[n - 2] == 'o' && name[n - 1]
                == 'r' {
                assert(tail =~= ".monitor"@);
                assert(name =~= name.take(at) + ".monitor"@);
            }
        }
        assert forall|stem: Seq<char>| name == #[trigger] (stem + ".monitor"@) implies monitor(
            name,
        ) by {
            assert(name.subrange(at, at + 8) =~= ".monitor"@);
        }
    }
}

/// A microphone goes by its description, by its name where it has none, and is told from
/// others by the decimal digits of its serial number.
pub proof fn microphones_go_by_their_description(node: NodeModel)
    requires
        microphone(node) is Some,
    ensures
        microphone(node)->0.name == (if node.description is Some {
            node.description->0
        } else {
            node.name->0
        }),
        microphone(node)->0.serial == digits(node.serial->0 as nat),
{
}

/// Nodes are told apart by their numbers in the graph, and by their serial numbers where they
/// have none; a number never stands for a serial number.
pub proof fn nodes_go_by_their_numbers(a: NodeModel, b: NodeModel)
    ensures
        identity(a) is Some <==> a.id is Some || a.serial is Some,
        a.id is Some && b.id is Some ==> (identity(a) == identity(b) <==> a.id == b.id),
        a.id is None && b.id is None && a.serial is Some && b.serial is Some ==> (identity(a)
            == identity(b) <==> a.serial == b.serial),
        a.id is Some && b.id is None ==> identity(a) != identity(b),
{
    reveal_strlit("id:");
    reveal_strlit("serial:");
    if a.id is Some && b.id is Some && identity(a) == identity(b) {
        let x = digits(a.id->0 as nat);
        let y = digits(b.id->0 as nat);
        assert(x =~= ("id:"@ + x).skip(3));
        assert(y =~= ("id:"@ + y).skip(3));
        digits_tell_numbers_apart(a.id->0 as nat, b.id->0 as nat);
    }
    if a.id is None && b.id is None && a.serial is Some && b.serial is Some && identity(a)
        == identity(b) {
        let x = digits(a.serial->0 as nat);
        let y = digits(b.serial->0 as nat);
        assert(x =~= ("serial:"@ + x).skip(7));
        assert(y =~= ("serial:"@ + y).skip(7));
        digits_tell_numbers_apart(a.serial->0 as nat, b.serial->0 as nat);
    }
    if a.id is Some && b.id is None && b.serial is Some {
        assert(identity(a)->0[0] == 'i');
        assert(identity(b)->0[0] == 's');
    }
}

/// A described node that is a microphone is listed as that, one that is none leaves the list,
/// and so does a node that is gone.
pub proof fn described_nodes_are_listed(sources: Sources, node: NodeModel)
    requires
        node.id is Some || node.serial is Some,
    ensures
        !node.removed && node.described && microphone(node) is Some ==> after_node(
            sources,
            node,
        ).contains_key(identity(node)->0) && after_node(sources, node)[identity(node)->0]
            == microphone(node)->0,
        node.removed || (node.described && microphone(node) is None) ==> !after_node(
            sources,
            node,
        ).contains_key(identity(node)->0),
{
}

/// The nodes of all snapshots are taken, in order; the first that is none decides.
pub proof fn all_snapshots_count(snapshots: Seq<SnapshotModel>, more: Seq<NodeModel>)
    ensures
        all_nodes(Seq::<SnapshotModel>::empty()) == Ok::<Seq<NodeModel>, Seq<char>>(Seq::empty()),
        all_nodes(snapshots) matches Ok(nodes) ==> {
            &&& all_nodes(snapshots.push(SnapshotModel::Nodes(more))) == Ok::<
                Seq<NodeModel>,
                Seq<char>,
            >(nodes + more)
            &&& all_nodes(snapshots.push(SnapshotModel::Malformed)) == Err::<
                Seq<NodeModel>,
                Seq<char>,
            >("Invalid PipeWire response"@)
            &&& all_nodes(snapshots.push(SnapshotModel::NotAList)) == Err::<
                Seq<NodeModel>,
                Seq<char>,
            >("Invalid PipeWire node list"@)
        },
        all_nodes(snapshots) is Err ==> all_nodes(snapshots.push(SnapshotModel::Nodes(more)))
            == all_nodes(snapshots),
{
    assert(snapshots.push(SnapshotModel::Nodes(more)).drop_last() =~= snapshots);
    assert(snapshots.push(SnapshotModel::Malformed).drop_last() =~= snapshots);
    assert(snapshots.push(SnapshotModel::NotAList).drop_last() =~= snapshots);
}

/// The credential file is where it is said to be, whatever else is set; else in the absolute
/// folder for configuration files, else below the home folder, else nowhere.
pub proof fn credential_files_have_one_place(vars: Seq<(Seq<char>, Seq<char>)>)
    ensures
        ({
            let named = value_of(vars, "FOTW_ENV_FILE"@);
            let folder = value_of(vars, "XDG_CONFIG_HOME"@);
            let home = value_of(vars, "HOME"@);
            let unnamed = named is None || blank(named->0);
            let folderless = folder is None || folder->0.len() == 0 || folder->0[0] != '/';
            &&& !unnamed ==> config_file(vars) == named
            &&& unnamed && !folderless ==> config_file(vars) == Some(
                below(folder->0, "murmur/env"@),
            )
            &&& unnamed && folderless && home is Some ==> config_file(vars) == Some(
                below(below(home->0, ".config"@), "murmur/env"@),
            )
            &&& unnamed && folderless && home is None ==> config_file(vars) is None
            &&& file_named(vars) == !unnamed
        }),
{
}

/// A file is private when it is an ordinary one whose mode gives no permission in its last two
/// octal digits, those of the group and of others.
pub proof fn private_files_are_for_their_owner(file: Metadata)
    ensures
        private(file) <==> file.is_file && file.mode % 64 == 0,
{
    let mode = file.mode;
    assert(mode & 0o077 == mode % 64) by (bit_vector);
}

/// What a file's key comes to: the key itself, marked as the file's, or why there is none.
pub proof fn file_keys_are_given_whole(key: Seq<char>, message: Seq<char>)
    ensures
        file_verdict(Ok(Some(key))) == Ok::<(Seq<char>, Seq<char>), Seq<char>>((key, "dotenv"@)),
        file_verdict(Err(message)) == Err::<(Seq<char>, Seq<char>), Seq<char>>(message),
        file_verdict(Ok(None)) is Err,
{
}

/// A line orders something only where it is one of the two words.
pub proof fn orders_go_by_their_words(line: Seq<char>)
    ensures
        order_in(line) == Order::Stop <==> line == "stop"@,
        order_in(line) == Order::Cancel <==> line == "cancel"@,
        order_in(line) != Order::Gone,
{
    reveal_strlit("stop");
    reveal_strlit("cancel");
    assert("stop"@.len() != "cancel"@.len());
}

/// Stopping ends a recording with its transcript and changes nothing else; a line without
/// meaning changes nothing; cancelling, and a desktop that is gone, cancel.
pub proof fn orders_are_obeyed(control: u8)
    ensures
        Order::Stop.obeyed(0) == 1,
        control != 0 ==> Order::Stop.obeyed(control) == control,
        Order::Unknown.obeyed(control) == control,
        Order::Cancel.obeyed(control) == 2,
        Order::Gone.obeyed(control) == 2,
{
}

proof fn lemma_stop_stands(orders: Seq<Order>)
    requires
        forall|i: int|
            0 <= i < orders.len() ==> #[trigger] orders[i] == Order::Stop || orders[i]
                == Order::Unknown,
    ensures
        obeyed_all(0, orders) == 0 || obeyed_all(0, orders) == 1,
        obeyed_all(0, orders) == 1 <==> orders.contains(Order::Stop),
    decreases orders.len(),
{
    if orders.len() > 0 {
        let before = orders.drop_last();
        assert forall|i: int| 0 <= i < before.len() implies #[trigger] before[i] == Order::Stop
            || before[i] == Order::Unknown by {
            assert(before[i] == orders[i]);
        }
        lemma_stop_stands(before);
        assert(orders.last() == orders[orders.len() - 1]);
        if before.contains(Order::Stop) {
            let i = choose|i: int| 0 <= i < before.len() && before[i] == Order::Stop;
            assert(orders[i] == Order::Stop);
        }
        if orders.contains(Order::Stop) && orders.last() != Order::Stop {
            let i = choose|i: int| 0 <= i < orders.len() && orders[i] == Order::Stop;
            assert(before[i] == Order::Stop);
        }
    }
}

/// A session that is never cancelled finishes exactly when it is told to stop, at any time.
pub proof fn stopping_is_obeyed_at_any_time(orders: Seq<Order>)
    requires
        forall|i: int|
            0 <= i < orders.len() ==> #[trigger] orders[i] == Order::Stop || orders[i]
                == Order::Unknown,
    ensures
        obeyed_all(0, orders) == 1 <==> orders.contains(Order::Stop),
        obeyed_all(0, orders) == 0 <==> !orders.contains(Order::Stop),
{
    lemma_stop_stands(orders);
}

/// The recorder is given the microphone's own serial number, whatever it is, behind the word
/// that names it, and is told to write to standard output.
pub proof fn the_recorder_hears_one_microphone(serial: Seq<char>)
    ensures
        recorder_words(serial).len() == 11,
        recorder_words(serial)[0] == "--target"@,
        recorder_words(serial)[1] == serial,
        recorder_words(serial)[2] == "--rate"@,
        recorder_words(serial)[3] == "48000"@,
        recorder_words(serial)[4] == "--channels"@,
        recorder_words(serial)[5] == "1"@,
        recorder_words(serial)[6] == "--format"@,
        recorder_words(serial)[7] == "f32"@,
        recorder_words(serial)[8] == "--properties"@,
        recorder_words(serial)[9] == "{ node.dont-reconnect = true }"@,
        recorder_words(serial).last() == "-"@,
{
}

/// Four more bytes are one more sample, the low byte first, however many came before; fewer
/// than four are none.
pub proof fn four_bytes_are_a_sample(bytes: Seq<u8>, a: u8, b: u8, c: u8, d: u8)
    requires
        bytes.len() % 4 == 0,
    ensures
        words_in(bytes + seq![a, b, c, d]) == words_in(bytes).push(
            (a + 256 * b + 65_536 * c + 16_777_216 * d) as u32,
        ),
        words_in(bytes + seq![a]) == words_in(bytes),
        words_in(bytes + seq![a, b]) == words_in(bytes),
        words_in(bytes + seq![a, b, c]) == words_in(bytes),
        words_in(Seq::<u8>::empty()) == Seq::<u32>::empty(),
{
    let more = bytes + seq![a, b, c, d];
    assert forall|i: int| 0 <= i < words_in(more).len() implies #[trigger] words_in(more)[i]
        == words_in(bytes).push((a + 256 * b + 65_536 * c + 16_777_216 * d) as u32)[i] by {}
    assert(words_in(more) =~= words_in(bytes).push(
        (a + 256 * b + 65_536 * c + 16_777_216 * d) as u32,
    ));
    assert(words_in(bytes + seq![a]) =~= words_in(bytes));
    assert(words_in(bytes + seq![a, b]) =~= words_in(bytes));
    assert(words_in(bytes + seq![a, b, c]) =~= words_in(bytes));
    assert(words_in(Seq::<u8>::empty()) =~= Seq::<u32>::empty());
}

/// The key of a private file is the one that is used, whole, where nothing in the file depends
/// on the environment; whether the file was named makes no difference.
pub proof fn private_files_give_their_key<R: FnOnce(&str) -> EnvFile>(
    file: Metadata,
    named: bool,
    read: R,
    path: Seq<char>,
    bytes: Vec<u8>,
    key: Seq<char>,
    r: Result<Credentials, String>,
)
    requires
        inspection_decides(Some(file), named, read, path, r),
        file.is_file,
        file.mode % 64 == 0,
        forall|asked: &str, text: EnvFile|
            asked@ == path && #[trigger] call_ensures(read, (asked,), text) ==> text
                == EnvFile::Text(bytes),
        !bytes@.contains(0x24u8),
        entries_key(dotenv_entries(bytes@)) == Ok::<Option<Seq<char>>, Seq<char>>(Some(key)),
    ensures
        verdict(r) == Ok::<(Seq<char>, Seq<char>), Seq<char>>((key, "dotenv"@)),
{
    private_files_are_for_their_owner(file);
    assert(file_decides(read, path, r));
}

/// A file that is not there matters only where it was named.
pub proof fn missing_files_matter_where_they_were_named<R: FnOnce(&str) -> EnvFile>(
    read: R,
    path: Seq<char>,
    r: Result<Credentials, String>,
)
    ensures
        inspection_decides(None, true, read, path, r) ==> verdict(r) == Err::<
            (Seq<char>, Seq<char>),
            Seq<char>,
        >("Cannot read configured credential file"@),
        inspection_decides(None, false, read, path, r) ==> verdict(r) == Err::<
            (Seq<char>, Seq<char>),
            Seq<char>,
        >("No Deepgram key. Set DEEPGRAM_API_KEY or configure ~/.config/murmur/env (mode 600)."@),
{
}

/// A node is read from its own number and, where it has properties, from those; every element
/// of a list is a node, in order.
pub proof fn nodes_are_read_from_their_members(
    value: Seq<char>,
    list: Seq<Seq<char>>,
    info: Seq<char>,
    props: Seq<char>,
    i: int,
)
    ensures
        json_member(value, "info"@) == Some(info) && json_member(info, "props"@) == Some(props)
            ==> {
            let node = node_in(value);
            &&& node.described == json_object(props)
            &&& node.removed == json_null(info)
            &&& json_member(props, "object.serial"@) matches Some(v) ==> node.serial == json_u64(v)
            &&& json_member(props, "node.name"@) matches Some(v) ==> node.name == json_string(v)
            &&& json_member(props, "media.class"@) matches Some(v) ==> node.class == json_string(v)
            &&& json_member(props, "node.description"@) matches Some(v) ==> node.description
                == json_string(v)
        },
        json_member(value, "info"@) is None ==> !node_in(value).removed && !node_in(
            value,
        ).described,
        json_member(value, "id"@) matches Some(v) ==> node_in(value).id == json_u64(v),
        json_member(value, "id"@) is None ==> node_in(value).id is None,
        json_elements(value) == Some(list) ==> (snapshot_in(Some(value)) matches
            SnapshotModel::Nodes(nodes) && nodes.len() == list.len() && (0 <= i < list.len()
            ==> nodes[i] == node_in(list[i]))),
        json_elements(value) is None ==> snapshot_in(Some(value)) is NotAList,
        snapshot_in(None) is Malformed,
{
}

/// A file can be used that is there, is an ordinary one, and is for its owner alone.
pub proof fn private_files_can_be_used(file: Metadata)
    ensures
        usable(Some(file)) <==> file.is_file && file.mode % 64 == 0,
        !usable(None),
{
    private_files_are_for_their_owner(file);
}

/// Every microphone in a list is offered, wherever it stands in it, and no other.
pub proof fn listed_microphones_are_offered(
    list: Seq<MicrophoneModel>,
    more: MicrophoneModel,
    serial: Seq<char>,
)
    ensures
        !offered(Seq::<MicrophoneModel>::empty(), serial),
        offered(list.push(more), serial) <==> offered(list, serial) || more.serial == serial,
{
    let all = list.push(more);
    if offered(list, serial) {
        let i = choose|i: int| 0 <= i < list.len() && (#[trigger] list[i]).serial == serial;
        assert(all[i].serial == serial);
    }
    if more.serial == serial {
        assert(all[list.len() as int].serial == serial);
    }
    if offered(all, serial) && more.serial != serial {
        let i = choose|i: int| 0 <= i < all.len() && (#[trigger] all[i]).serial == serial;
        assert(list[i].serial == serial);
    }
}

/// An order ends a session exactly where no order after it can change what becomes of it.
pub proof fn ending_orders_cannot_be_revoked(order: Order, control: u8, later: Seq<Order>)
    ensures
        order.ends() ==> obeyed_all(order.obeyed(control), later) == 2,
        order == Order::Cancel || order == Order::Gone ==> order.ends(),
        order == Order::Stop || order == Order::Unknown ==> !order.ends(),
    decreases later.len(),
{
    if later.len() > 0 && order.ends() {
        ending_orders_cannot_be_revoked(order, control, later.drop_last());
    }
}

/// A session that was not cancelled reports its transcript whole, or its error with its own
/// words; a cancelled one reports neither.
pub proof fn sessions_report_the_whole_transcript(
    control: u8,
    text: Seq<char>,
    message: Seq<char>,
    result: Result<Seq<char>, Seq<char>>,
)
    ensures
        control != 2 ==> reported(control, Ok(text)) == ReportModel::Review(text),
        control != 2 ==> reported(control, Err(message)) == ReportModel::Error(message),
        reported(2, result) == ReportModel::Cancelled,
{
}

/// A session announces itself with the first audio while it records, and never again.
pub proof fn sessions_announce_themselves_once(receiving: bool, control: u8)
    ensures
        announcing(false, true, 0),
        !announcing(true, receiving, control),
        !announcing(false, false, control),
        control != 0 ==> !announcing(false, receiving, control),
{
}

/// The position moves on by the samples that were read.
pub proof fn positions_count_samples(position: int, bytes: Seq<u8>)
    ensures
        read_to(position, bytes) == position + words_in(bytes).len(),
{
}

proof fn lemma_known_microphones_were_said(nodes: Seq<NodeModel>, key: Seq<char>)
    requires
        after_nodes(Map::empty(), nodes).contains_key(key),
    ensures
        exists|i: int|
            0 <= i < nodes.len() && #[trigger] word(nodes[i]) == Some(
                after_nodes(Map::empty(), nodes)[key],
            ) && identity(nodes[i]) == Some(key) && speaks(nodes[i]),
    decreases nodes.len(),
{
    if nodes.len() > 0 {
        let earlier = nodes.drop_last();
        let last = nodes.last();
        let n = nodes.len() - 1;
        if speaks(last) && identity(last) == Some(key) {
            assert(word(nodes[n]) == Some(after_nodes(Map::empty(), nodes)[key]));
        } else {
            lemma_known_microphones_were_said(earlier, key);
            let i = choose|i: int|
                0 <= i < earlier.len() && #[trigger] word(earlier[i]) == Some(
                    after_nodes(Map::empty(), earlier)[key],
                ) && identity(earlier[i]) == Some(key) && speaks(earlier[i]);
            assert(earlier[i] == nodes[i]);
            assert(word(nodes[i]) == Some(after_nodes(Map::empty(), nodes)[key]));
        }
    }
}

/// The answer lists every microphone of which a node spoke last, however many nodes and
/// snapshots there are.
pub proof fn all_microphones_are_answered(
    r: Result<Vec<Microphone>, String>,
    snapshots: Seq<SnapshotModel>,
    nodes: Seq<NodeModel>,
    last: int,
)
    requires
        answers(r, snapshots),
        snapshots.len() > 0,
        all_nodes(snapshots) == Ok::<Seq<NodeModel>, Seq<char>>(nodes),
        0 <= last < nodes.len(),
        identity(nodes[last]) is Some,
        nodes[last].described,
        !nodes[last].removed,
        microphone(nodes[last]) is Some,
        forall|i: int|
            last < i < nodes.len() && speaks(#[trigger] nodes[i]) ==> identity(nodes[i])
                != identity(nodes[last]),
    ensures
        r is Ok,
        models(r->Ok_0@).contains(microphone(nodes[last])->0),
{
    let key = identity(nodes[last])->0;
    assert forall|i: int| last < i < nodes.len() && speaks(#[trigger] nodes[i]) implies identity(
        nodes[i],
    ) != Some(key) by {
        assert(identity(nodes[last]) == Some(key));
    }
    the_last_word_is_listed(nodes, key, last);
    let sources = after_nodes(Map::empty(), nodes);
    let values = models(r->Ok_0@);
    let keys = choose|keys: Seq<Seq<char>>| #[trigger] lists(keys, values, sources);
    assert(keys.contains(key));
    let i = choose|i: int| 0 <= i < keys.len() && keys[i] == key;
    assert(sources[keys[i]] == values[i]);
    assert(values[i] == microphone(nodes[last])->0);
}

/// The answer lists nothing but microphones that nodes spoke of.
pub proof fn only_microphones_are_answered(
    r: Result<Vec<Microphone>, String>,
    snapshots: Seq<SnapshotModel>,
    nodes: Seq<NodeModel>,
    at: int,
)
    requires
        answers(r, snapshots),
        snapshots.len() > 0,
        all_nodes(snapshots) == Ok::<Seq<NodeModel>, Seq<char>>(nodes),
        r is Ok,
        0 <= at < r->Ok_0@.len(),
    ensures
        exists|i: int|
            0 <= i < nodes.len() && #[trigger] microphone(nodes[i]) == Some(
                models(r->Ok_0@)[at],
            ) && !nodes[i].removed && nodes[i].described,
{
    let sources = after_nodes(Map::empty(), nodes);
    let values = models(r->Ok_0@);
    let keys = choose|keys: Seq<Seq<char>>| #[trigger] lists(keys, values, sources);
    assert(keys.contains(keys[at]));
    assert(sources.contains_key(keys[at]));
    assert(sources[keys[at]] == values[at]);
    lemma_known_microphones_were_said(nodes, keys[at]);
    let i = choose|i: int|
        0 <= i < nodes.len() && #[trigger] word(nodes[i]) == Some(sources[keys[at]]) && identity(
            nodes[i],
        ) == Some(keys[at]) && speaks(nodes[i]);
    assert(microphone(nodes[i]) == Some(values[at]));
}

/// An answer without any snapshot, and one to a snapshot that cannot be read, is an error of
/// its own.
pub proof fn unreadable_answers_are_errors(
    r: Result<Vec<Microphone>, String>,
    snapshots: Seq<SnapshotModel>,
)
    requires
        answers(r, snapshots),
    ensures
        snapshots.len() == 0 ==> r is Err && r->Err_0@ == "Empty PipeWire response"@,
        all_nodes(snapshots) matches Err(message) ==> r is Err && r->Err_0@ == message,
        snapshots.len() > 0 && all_nodes(snapshots) is Ok ==> r is Ok,
{
}

/// The microphones known are listed by identity, in ascending order, each once.
pub proof fn lists_are_in_ascending_order(
    keys: Seq<Seq<char>>,
    values: Seq<MicrophoneModel>,
    sources: Sources,
    i: int,
    j: int,
)
    requires
        lists(keys, values, sources),
        0 <= i < j < keys.len(),
    ensures
        precedes(keys[i], keys[j]),
        keys[i] != keys[j],
        values.len() == keys.len(),
        sources.contains_key(keys[i]) && values[i] == sources[keys[i]],
{
    lemma_precedes_irreflexive(keys[i]);
    assert(keys.contains(keys[i]));
}

/// A read is ten milliseconds of four-byte samples at the rate that the recorder is told.
pub proof fn reads_are_ten_milliseconds()
    ensures
        100 * READ_BYTES == 4 * RECORDER_RATE,
        digits(RECORDER_RATE as nat) == "48000"@,
{
    reveal_strlit("48000");
    reveal_strlit("0123456789");
    reveal_with_fuel(digits, 6);
    assert(digits(48_000) =~= "48000"@);
}

/// Microphones are seen whole, all of them, in order.
pub proof fn microphones_are_seen_whole(list: Seq<Microphone>, i: int)
    requires
        0 <= i < list.len(),
    ensures
        models(list).len() == list.len(),
        models(list)[i].serial == list[i].serial@,
        models(list)[i].name == list[i].name@,
{
}

} // verus!
