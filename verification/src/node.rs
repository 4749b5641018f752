//! Nodes: mpv's generic tree of values (`mpv_node`), the layout in which a
//! node lies in mpv's memory, and the conversions between the two.
//!
//! A node's double is held by its IEEE-754 bits, and a map by its entries in
//! order. The layout (`RawNode`) is what a reader of mpv's memory finds: a
//! pointer that may be null is an `Option`, an array pointer holds the
//! elements that its count announces.

use vstd::prelude::*;
use crate::format::{AsFormat, FORMAT_NODE, FORMAT_NONE};
use crate::assoc::{distinct_keys, entries_insert, has_key, lemma_insert_absent, lemma_insert_keeps_distinct};

verus! {

// ---------------------------------------------------------------------------
// Mathematical model
// ---------------------------------------------------------------------------

/// The value of a node.
pub enum NodeValue {
    Empty,
    Str(Seq<char>),
    Int(i64),
    /// The IEEE-754 bits of a double.
    Double(u64),
    Bool(bool),
    Bytes(Seq<u8>),
    Array(Seq<NodeValue>),
    /// Named values, in order.
    NodeMap(Seq<(Seq<char>, NodeValue)>),
}

/// The value of a node list (`mpv_node_list`): the announced count, the
/// values and the keys, each absent when its pointer is null.
pub struct RawListValue {
    pub num: i32,
    pub values: Option<Seq<RawValue>>,
    pub keys: Option<Seq<Option<Seq<char>>>>,
}

/// The value of a node as it lies in memory, by format.
pub enum RawValue {
    /// `MPV_FORMAT_STRING`; absent for a null pointer.
    String(Option<Seq<char>>),
    /// `MPV_FORMAT_FLAG`.
    Flag(i32),
    /// `MPV_FORMAT_INT64`.
    Int64(i64),
    /// `MPV_FORMAT_DOUBLE`, by its bits.
    Double(u64),
    /// `MPV_FORMAT_NODE_ARRAY`; absent for a null list pointer.
    NodeArray(Option<RawListValue>),
    /// `MPV_FORMAT_NODE_MAP`; absent for a null list pointer.
    NodeMap(Option<RawListValue>),
    /// `MPV_FORMAT_BYTE_ARRAY`; the outer option is the array pointer, the
    /// inner one the data pointer.
    ByteArray(Option<Option<Seq<u8>>>),
    /// Any other format code; no payload is read.
    Other(u32),
}

/// The map built by inserting, in order, the first `n` pairs of keys and
/// values, skipping absent keys.
pub open spec fn collect_entries(
    keys: Seq<Option<Seq<char>>>,
    vals: Seq<NodeValue>,
    n: nat,
) -> Seq<(Seq<char>, NodeValue)>
    decreases n,
{
    if n == 0 {
        seq![]
    } else {
        let prev = collect_entries(keys, vals, (n - 1) as nat);
        match keys[n - 1] {
            Some(k) => entries_insert(prev, k, vals[n - 1]),
            None => prev,
        }
    }
}

/// The node that a value in memory stands for (as a node of any format).
pub open spec fn decode(r: RawValue) -> NodeValue
    decreases r,
{
    match r {
        RawValue::String(None) => NodeValue::Empty,
        RawValue::String(Some(s)) => NodeValue::Str(s),
        RawValue::Flag(f) => NodeValue::Bool(f != 0),
        RawValue::Int64(i) => NodeValue::Int(i),
        RawValue::Double(b) => NodeValue::Double(b),
        RawValue::NodeArray(None) => NodeValue::Array(seq![]),
        RawValue::NodeArray(Some(l)) => NodeValue::Array(
            match l.values {
                None => seq![],
                Some(vs) => decode_seq(vs),
            },
        ),
        RawValue::NodeMap(None) => NodeValue::NodeMap(seq![]),
        RawValue::NodeMap(Some(l)) => {
            let dv = match l.values {
                None => seq![],
                Some(vs) => decode_seq(vs),
            };
            let ks = match l.keys {
                None => seq![],
                Some(ks) => ks,
            };
            let n = if ks.len() < dv.len() {
                ks.len()
            } else {
                dv.len()
            };
            NodeValue::NodeMap(collect_entries(ks, dv, n))
        },
        RawValue::ByteArray(None) => NodeValue::Bytes(seq![]),
        RawValue::ByteArray(Some(None)) => NodeValue::Bytes(seq![]),
        RawValue::ByteArray(Some(Some(b))) => NodeValue::Bytes(b),
        RawValue::Other(_) => NodeValue::Empty,
    }
}

/// The nodes that a sequence of values in memory stands for.
pub open spec fn decode_seq(vs: Seq<RawValue>) -> Seq<NodeValue>
    decreases vs,
{
    Seq::new(
        vs.len(),
        |i: int|
            if 0 <= i < vs.len() {
                decode(vs[i])
            } else {
                NodeValue::Empty
            },
    )
}

/// Whether a value in memory can be read as a node: every list that is
/// reached has a non-negative count.
pub open spec fn decodable(r: RawValue) -> bool
    decreases r,
{
    match r {
        RawValue::NodeArray(Some(l)) => {
            &&& l.num >= 0
            &&& match l.values {
                None => true,
                Some(vs) => forall|i: int| 0 <= i < vs.len() ==> decodable(#[trigger] vs[i]),
            }
        },
        RawValue::NodeMap(Some(l)) => {
            &&& l.num >= 0
            &&& match (l.values, l.keys) {
                (Some(vs), Some(ks)) => forall|i: int|
                    0 <= i < vs.len() && 0 <= i < ks.len() && ks[i] is Some ==> decodable(
                        #[trigger] vs[i],
                    ),
                _ => true,
            }
        },
        _ => true,
    }
}

/// The number of elements that a list of `len` nodes is written with: at
/// most `i32::MAX`.
pub open spec fn clamped_len(len: nat) -> nat {
    if len < i32::MAX {
        len
    } else {
        i32::MAX as nat
    }
}

/// The layout in which a node is written to memory.
pub open spec fn encode(n: NodeValue) -> RawValue
    decreases n,
{
    match n {
        NodeValue::Empty => RawValue::Other(FORMAT_NONE),
        NodeValue::Str(s) => RawValue::String(Some(s)),
        NodeValue::Int(i) => RawValue::Int64(i),
        NodeValue::Double(b) => RawValue::Double(b),
        NodeValue::Bool(b) => RawValue::Flag(
            if b {
                1
            } else {
                0
            },
        ),
        NodeValue::Array(v) => {
            let num = clamped_len(v.len());
            RawValue::NodeArray(
                Some(
                    if num == 0 {
                        RawListValue { num: 0, values: None, keys: None }
                    } else {
                        RawListValue {
                            num: num as i32,
                            values: Some(Seq::new(num, |i: int| if 0 <= i < v.len() { encode(v[i]) } else { RawValue::Other(FORMAT_NONE) })),
                            keys: None,
                        }
                    },
                ),
            )
        },
        NodeValue::NodeMap(m) => {
            let num = clamped_len(m.len());
            RawValue::NodeMap(
                Some(
                    if num == 0 {
                        RawListValue { num: 0, values: None, keys: None }
                    } else {
                        RawListValue {
                            num: num as i32,
                            values: Some(Seq::new(num, |i: int| if 0 <= i < m.len() { encode(m[i].1) } else { RawValue::Other(FORMAT_NONE) })),
                            keys: Some(Seq::new(num, |i: int| Some(m[i].0))),
                        }
                    },
                ),
            )
        },
        NodeValue::Bytes(b) => RawValue::ByteArray(
            Some(
                if b.len() == 0 {
                    None
                } else {
                    Some(b)
                },
            ),
        ),
    }
}

/// Whether a node is written whole and read back as itself: every array and
/// map has at most `i32::MAX` elements and no map names a key twice.
pub open spec fn node_wf(n: NodeValue) -> bool
    decreases n,
{
    match n {
        NodeValue::Array(v) => v.len() <= i32::MAX && forall|i: int|
            0 <= i < v.len() ==> node_wf(#[trigger] v[i]),
        NodeValue::NodeMap(m) => m.len() <= i32::MAX && distinct_keys(m) && forall|i: int|
            0 <= i < m.len() ==> node_wf(#[trigger] m[i].1),
        _ => true,
    }
}

// ---------------------------------------------------------------------------
// Laws of the model
// ---------------------------------------------------------------------------

/// A map collected from keys and values names no key twice.
pub proof fn lemma_collect_distinct(keys: Seq<Option<Seq<char>>>, vals: Seq<NodeValue>, n: nat)
    ensures
        distinct_keys(collect_entries(keys, vals, n)),
    decreases n,
{
    if n > 0 {
        lemma_collect_distinct(keys, vals, (n - 1) as nat);
        let prev = collect_entries(keys, vals, (n - 1) as nat);
        if let Some(k) = keys[n - 1] {
            lemma_insert_keeps_distinct(prev, k, vals[n - 1]);
        }
    }
}

/// Collecting the entries of a map without repeated keys gives the map back.
proof fn lemma_collect_distinct_entries(
    m: Seq<(Seq<char>, NodeValue)>,
    keys: Seq<Option<Seq<char>>>,
    vals: Seq<NodeValue>,
    n: nat,
)
    requires
        distinct_keys(m),
        n <= m.len(),
        n <= keys.len(),
        n <= vals.len(),
        forall|i: int| 0 <= i < n ==> keys[i] == Some(#[trigger] m[i].0),
        forall|i: int| 0 <= i < n ==> vals[i] == #[trigger] m[i].1,
    ensures
        collect_entries(keys, vals, n) == m.take(n as int),
    decreases n,
{
    if n > 0 {
        lemma_collect_distinct_entries(m, keys, vals, (n - 1) as nat);
        let prev = m.take(n - 1);
        let k = m[n - 1].0;
        assert(!has_key(prev, k)) by {
            if has_key(prev, k) {
                let i = choose|i: int| 0 <= i < prev.len() && prev[i].0 == k;
                assert(m[i].0 == m[n - 1].0);
            }
        }
        assert(vals[n - 1] == m[n - 1].1);
        assert(keys[n - 1] == Some(m[n - 1].0));
        lemma_insert_absent(prev, k, vals[n - 1]);
        assert(prev.push((k, vals[n - 1])) =~= m.take(n as int));
    }
}

/// What is written of a node can be read back.
pub proof fn lemma_encode_decodable(n: NodeValue)
    ensures
        decodable(encode(n)),
    decreases n,
{
    match n {
        NodeValue::Array(v) => {
            let num = clamped_len(v.len());
            if num > 0 {
                let l = encode(n)->NodeArray_0->Some_0;
                let vs = l.values->Some_0;
                assert forall|i: int| 0 <= i < vs.len() implies decodable(#[trigger] vs[i]) by {
                    lemma_encode_decodable(v[i]);
                }
            }
        },
        NodeValue::NodeMap(m) => {
            let num = clamped_len(m.len());
            if num > 0 {
                let l = encode(n)->NodeMap_0->Some_0;
                let vs = l.values->Some_0;
                assert forall|i: int| 0 <= i < vs.len() implies decodable(#[trigger] vs[i]) by {
                    lemma_encode_decodable(m[i].1);
                }
            }
        },
        _ => {},
    }
}

/// Reading back a written node gives the node: for every node whose arrays
/// and maps have at most `i32::MAX` elements and whose maps name no key
/// twice, decoding its layout gives the node itself.
pub proof fn lemma_decode_encode(n: NodeValue)
    requires
        node_wf(n),
    ensures
        decode(encode(n)) == n,
    decreases n,
{
    match n {
        NodeValue::Array(v) => {
            if v.len() == 0 {
                assert(decode(encode(n))->Array_0 =~= v);
            } else {
                let vs = encode(n)->NodeArray_0->Some_0.values->Some_0;
                assert forall|i: int| 0 <= i < v.len() implies decode(#[trigger] vs[i]) == v[i] by {
                    lemma_decode_encode(v[i]);
                }
                assert(decode_seq(vs) =~= v);
                assert(decode(encode(n))->Array_0 =~= v);
            }
        },
        NodeValue::NodeMap(m) => {
            if m.len() == 0 {
                assert(decode(encode(n))->NodeMap_0 =~= m);
            } else {
                let num = m.len();
                let l = encode(n)->NodeMap_0->Some_0;
                let vs = l.values->Some_0;
                let ks = l.keys->Some_0;
                let dv = decode_seq(vs);
                assert forall|i: int| 0 <= i < num implies dv[i] == #[trigger] m[i].1 by {
                    lemma_decode_encode(m[i].1);
                }
                assert forall|i: int| 0 <= i < num implies ks[i] == Some(#[trigger] m[i].0) by {}
                lemma_collect_distinct_entries(m, ks, dv, num);
                assert(m.take(num as int) =~= m);
                assert(decode(encode(n))->NodeMap_0 == collect_entries(ks, dv, num));
            }
        },
        NodeValue::Bytes(b) => {
            if b.len() == 0 {
                assert(b =~= seq![]);
            }
        },
        _ => {},
    }
}


/// The count written for a list is the number of values written with it:
/// the array's or map's length, capped at `i32::MAX`. An empty list is
/// written with null value and key pointers; otherwise the values are the
/// written elements in order, and a map's keys, as many as its values, are
/// its keys in order.
pub proof fn lemma_written_list_counts(n: NodeValue)
    ensures
        n matches NodeValue::Array(v) ==> encode(n) matches RawValue::NodeArray(Some(l)) && (
        v.len() <= i32::MAX ==> l.num == v.len()) && (v.len() > i32::MAX ==> l.num == i32::MAX)
            && (l.num == 0 <==> l.values is None) && (l.values matches Some(vs) ==> vs.len()
            == l.num && forall|i: int| 0 <= i < vs.len() ==> #[trigger] vs[i] == encode(v[i]))
            && l.keys is None,
        n matches NodeValue::NodeMap(m) ==> encode(n) matches RawValue::NodeMap(Some(l)) && (
        m.len() <= i32::MAX ==> l.num == m.len()) && (m.len() > i32::MAX ==> l.num == i32::MAX)
            && (l.num == 0 <==> l.values is None) && (l.num == 0 <==> l.keys is None) && (
        l.values matches Some(vs) ==> vs.len() == l.num && forall|i: int|
            0 <= i < vs.len() ==> #[trigger] vs[i] == encode(m[i].1)) && (l.keys matches Some(
            ks,
        ) ==> ks.len() == l.num && forall|i: int| 0 <= i < ks.len() ==> #[trigger] ks[i] == Some(
            m[i].0,
        )),
{
}

/// Reading a list whose count is positive as an array reads every value it
/// holds, in order: as many nodes as values, each the node its value stands
/// for.
pub proof fn lemma_array_list_reads_every_value(l: RawListValue)
    requires
        l.num > 0,
        l.values is Some,
    ensures
        decode_array_list(Some(l)).len() == l.values->Some_0.len(),
        forall|i: int|
            0 <= i < l.values->Some_0.len() ==> #[trigger] decode_array_list(Some(l))[i] == decode(
                l.values->Some_0[i],
            ),
{
}

/// Reading a list whose count is positive as a map, when its keys are all
/// present and distinct, gives one entry for each pair of a key and a
/// value, in order: the key and the node that the value stands for.
pub proof fn lemma_map_list_reads_every_pair(l: RawListValue)
    requires
        l.num > 0,
        l.values is Some,
        l.keys is Some,
        forall|i: int| 0 <= i < l.keys->Some_0.len() ==> (#[trigger] l.keys->Some_0[i]) is Some,
        forall|i: int, j: int|
            0 <= i < j < l.keys->Some_0.len() ==> #[trigger] l.keys->Some_0[i]
                != #[trigger] l.keys->Some_0[j],
    ensures
        decode_map_list(Some(l)).len() == (if l.keys->Some_0.len() < l.values->Some_0.len() {
            l.keys->Some_0.len()
        } else {
            l.values->Some_0.len()
        }),
        forall|i: int|
            0 <= i < decode_map_list(Some(l)).len() ==> #[trigger] decode_map_list(Some(l))[i] == (
            l.keys->Some_0[i]->Some_0,
            decode(l.values->Some_0[i]),
            ),
{
    let ks = l.keys->Some_0;
    let vs = l.values->Some_0;
    let dv = decode_seq(vs);
    let n: nat = if ks.len() < vs.len() {
        ks.len()
    } else {
        vs.len()
    };
    let m = Seq::new(n, |i: int| (ks[i]->Some_0, dv[i]));
    assert(distinct_keys(m)) by {
        assert forall|i: int, j: int|
            0 <= i < m.len() && 0 <= j < m.len() && i != j implies m[i].0 != m[j].0 by {
            if i < j {
                assert(ks[i] != ks[j]);
            } else {
                assert(ks[j] != ks[i]);
            }
        }
    }
    assert(keys_present(ks, n as int));
    assert forall|i: int| 0 <= i < n implies ks[i] == Some(#[trigger] m[i].0) by {}
    assert forall|i: int| 0 <= i < n implies dv[i] == #[trigger] m[i].1 by {}
    lemma_collect_distinct_entries(m, ks, dv, n);
    assert(m.take(n as int) =~= m);
}

/// Reading back the list written for a non-empty array gives the array,
/// and reading back the list written for a non-empty map gives the map,
/// for every node whose lists have at most `i32::MAX` elements and whose
/// maps name no key twice.
pub proof fn lemma_read_back_written_list(n: NodeValue)
    requires
        node_wf(n),
    ensures
        n matches NodeValue::Array(v) ==> (v.len() > 0 ==> decode_array_list(
            Some(encode(n)->NodeArray_0->Some_0),
        ) == v),
        n matches NodeValue::NodeMap(m) ==> (m.len() > 0 ==> decode_map_list(
            Some(encode(n)->NodeMap_0->Some_0),
        ) == m),
{
    lemma_decode_encode(n);
    lemma_written_list_counts(n);
    match n {
        NodeValue::NodeMap(m) => {
            if m.len() > 0 {
                let l = encode(n)->NodeMap_0->Some_0;
                let ks = l.keys->Some_0;
                assert(keys_present(ks, ks.len() as int));
            }
        },
        _ => {},
    }
}


// ---------------------------------------------------------------------------
// Executable nodes and layouts
// ---------------------------------------------------------------------------

/// A node of mpv's value tree (`mpv_node`).
#[derive(Debug, PartialEq)]
pub enum Node {
    /// No value (`MPV_FORMAT_NONE`).
    Empty,
    String(String),
    Int(i64),
    /// A double, by its IEEE-754 bits.
    Double(u64),
    Bool(bool),
    ByteArray(Vec<u8>),
    Array(Vec<Node>),
    /// Named values, in order.
    NodeMap(Vec<(String, Node)>),
}

/// A node list as it lies in memory (`mpv_node_list`).
#[derive(Debug, PartialEq)]
pub struct RawList {
    /// The announced number of elements.
    pub num: i32,
    /// The values; `None` for a null pointer.
    pub values: Option<Vec<RawNode>>,
    /// The keys; `None` for a null pointer, an inner `None` for a null key.
    pub keys: Option<Vec<Option<String>>>,
}

/// A byte array as it lies in memory (`mpv_byte_array`).
#[derive(Debug, PartialEq)]
pub struct RawByteArray {
    /// The bytes; `None` for a null data pointer.
    pub data: Option<Vec<u8>>,
}

/// A node as it lies in memory (`mpv_node`), read according to its format.
#[derive(Debug, PartialEq)]
pub enum RawNode {
    /// `MPV_FORMAT_STRING`; `None` for a null pointer.
    String(Option<String>),
    /// `MPV_FORMAT_FLAG`.
    Flag(i32),
    /// `MPV_FORMAT_INT64`.
    Int64(i64),
    /// `MPV_FORMAT_DOUBLE`, by its bits.
    Double(u64),
    /// `MPV_FORMAT_NODE_ARRAY`; `None` for a null list pointer.
    NodeArray(Option<RawList>),
    /// `MPV_FORMAT_NODE_MAP`; `None` for a null list pointer.
    NodeMap(Option<RawList>),
    /// `MPV_FORMAT_BYTE_ARRAY`; `None` for a null array pointer.
    ByteArray(Option<RawByteArray>),
    /// Any other format code.
    Other(u32),
}

impl Node {
    /// The value of this node.
    pub open spec fn value(self) -> NodeValue
        decreases self,
    {
        match self {
            Node::Empty => NodeValue::Empty,
            Node::String(s) => NodeValue::Str(s@),
            Node::Int(i) => NodeValue::Int(i),
            Node::Double(b) => NodeValue::Double(b),
            Node::Bool(b) => NodeValue::Bool(b),
            Node::ByteArray(b) => NodeValue::Bytes(b@),
            Node::Array(v) => NodeValue::Array(nodes_value(v@)),
            Node::NodeMap(m) => NodeValue::NodeMap(entries_value(m@)),
        }
    }
}

/// The values of a sequence of nodes.
pub open spec fn nodes_value(s: Seq<Node>) -> Seq<NodeValue>
    decreases s,
{
    Seq::new(
        s.len(),
        |i: int|
            if 0 <= i < s.len() {
                s[i].value()
            } else {
                NodeValue::Empty
            },
    )
}

/// The values of a sequence of named nodes.
pub open spec fn entries_value(s: Seq<(String, Node)>) -> Seq<(Seq<char>, NodeValue)>
    decreases s,
{
    Seq::new(
        s.len(),
        |i: int|
            if 0 <= i < s.len() {
                (s[i].0@, s[i].1.value())
            } else {
                (Seq::empty(), NodeValue::Empty)
            },
    )
}

impl RawNode {
    /// The value of this layout.
    pub open spec fn value(self) -> RawValue
        decreases self,
    {
        match self {
            RawNode::String(None) => RawValue::String(None),
            RawNode::String(Some(s)) => RawValue::String(Some(s@)),
            RawNode::Flag(f) => RawValue::Flag(f),
            RawNode::Int64(i) => RawValue::Int64(i),
            RawNode::Double(b) => RawValue::Double(b),
            RawNode::NodeArray(None) => RawValue::NodeArray(None),
            RawNode::NodeArray(Some(l)) => RawValue::NodeArray(Some(list_value(l))),
            RawNode::NodeMap(None) => RawValue::NodeMap(None),
            RawNode::NodeMap(Some(l)) => RawValue::NodeMap(Some(list_value(l))),
            RawNode::ByteArray(None) => RawValue::ByteArray(None),
            RawNode::ByteArray(Some(b)) => RawValue::ByteArray(Some(bytes_value(b))),
            RawNode::Other(f) => RawValue::Other(f),
        }
    }
}

/// The value of a list layout.
pub open spec fn list_value(l: RawList) -> RawListValue
    decreases l,
{
    RawListValue {
        num: l.num,
        values: match l.values {
            None => None,
            Some(vs) => Some(raw_nodes_value(vs@)),
        },
        keys: match l.keys {
            None => None,
            Some(ks) => Some(keys_value(ks@)),
        },
    }
}

/// The values of a sequence of layouts.
pub open spec fn raw_nodes_value(s: Seq<RawNode>) -> Seq<RawValue>
    decreases s,
{
    Seq::new(
        s.len(),
        |i: int|
            if 0 <= i < s.len() {
                s[i].value()
            } else {
                RawValue::Other(FORMAT_NONE)
            },
    )
}

/// The values of a sequence of keys that may be null.
pub open spec fn keys_value(s: Seq<Option<String>>) -> Seq<Option<Seq<char>>> {
    Seq::new(
        s.len(),
        |i: int|
            match s[i] {
                None => None,
                Some(k) => Some(k@),
            },
    )
}

/// The value of a byte array layout.
pub open spec fn bytes_value(b: RawByteArray) -> Option<Seq<u8>> {
    match b.data {
        None => None,
        Some(d) => Some(d@),
    }
}


/// Whether a node's strings can be handed to mpv: no string and no key in
/// it contains a NUL character.
pub open spec fn strings_without_nul(n: NodeValue) -> bool
    decreases n,
{
    match n {
        NodeValue::Str(s) => !s.contains('\0'),
        NodeValue::Array(v) => {
            &&& v.len() >= 0
            &&& forall|i: int| 0 <= i < v.len() ==> strings_without_nul(#[trigger] v[i])
        },
        NodeValue::NodeMap(m) => {
            &&& m.len() >= 0
            &&& forall|i: int|
                0 <= i < m.len() ==> !(#[trigger] m[i]).0.contains('\0') && strings_without_nul(
                    m[i].1,
                )
        },
        _ => true,
    }
}

/// The position of the entry with key `k`, if any.
fn find_key(m: &Vec<(String, Node)>, k: &String) -> (r: Option<usize>)
    ensures
        r matches Some(j) ==> j < m@.len() && m@[j as int].0@ == k@,
        r is None ==> forall|i: int| 0 <= i < m@.len() ==> (#[trigger] m@[i]).0@ != k@,
{
    let mut j: usize = 0;
    while j < m.len()
        invariant
            j <= m@.len(),
            forall|i: int| 0 <= i < j ==> (#[trigger] m@[i]).0@ != k@,
        decreases m@.len() - j,
    {
        if m[j].0 == *k {
            return Some(j);
        }
        j += 1;
    }
    None
}

/// Inserts `v` under the key `k`: the entry with that key takes the value,
/// or, if there is none, a new entry comes last.
fn insert_entry(m: &mut Vec<(String, Node)>, k: String, v: Node)
    requires
        distinct_keys(entries_value(old(m)@)),
    ensures
        entries_value(final(m)@) == entries_insert(entries_value(old(m)@), k@, v.value()),
        distinct_keys(entries_value(final(m)@)),
{
    let ghost ev = entries_value(m@);
    let ghost kv = k@;
    let ghost vv = v.value();
    proof {
        lemma_insert_keeps_distinct(ev, kv, vv);
    }
    match find_key(m, &k) {
        Some(j) => {
            proof {
                assert(ev[j as int].0 == kv);
                let c = choose|i: int| 0 <= i < ev.len() && ev[i].0 == kv;
                assert(c == j);
            }
            m.set(j, (k, v));
            assert(entries_value(m@) =~= ev.update(j as int, (kv, vv)));
        },
        None => {
            assert(!has_key(ev, kv)) by {
                if has_key(ev, kv) {
                    let c = choose|i: int| 0 <= i < ev.len() && ev[i].0 == kv;
                    assert(m@[c].0@ != kv);
                }
            }
            m.push((k, v));
            assert(entries_value(m@) =~= ev.push((kv, vv)));
        },
    }
}

/// A copy of a byte sequence.
fn copy_bytes(b: &Vec<u8>) -> (r: Vec<u8>)
    ensures
        r@ == b@,
{
    let mut r: Vec<u8> = Vec::new();
    let mut i: usize = 0;
    while i < b.len()
        invariant
            i <= b@.len(),
            r@ == b@.take(i as int),
        decreases b@.len() - i,
    {
        r.push(b[i]);
        i += 1;
        assert(r@ =~= b@.take(i as int));
    }
    assert(b@.take(b@.len() as int) =~= b@);
    r
}

impl RawNode {
    /// The node that this layout stands for, whatever its format: a null
    /// string is no value, a flag is true when it is not zero, a null list or
    /// byte array is empty, a map skips null keys and keeps the last value of
    /// a repeated key, and an unknown format is no value.
    #[verifier::loop_isolation(false)]
    pub fn to_node(&self) -> (n: Node)
        requires
            decodable(self.value()),
        ensures
            n.value() == decode(self.value()),
        decreases self,
    {
        match self {
            RawNode::String(None) => Node::Empty,
            RawNode::String(Some(s)) => Node::String(s.clone()),
            RawNode::Flag(f) => Node::Bool(*f != 0),
            RawNode::Int64(i) => Node::Int(*i),
            RawNode::Double(b) => Node::Double(*b),
            RawNode::NodeArray(None) => {
                let r = Node::Array(Vec::new());
                assert(nodes_value(Seq::<Node>::empty()) =~= seq![]);
                r
            },
            RawNode::NodeArray(Some(l)) => {
                match &l.values {
                    None => {
                        let r = Node::Array(Vec::new());
                        assert(nodes_value(Seq::<Node>::empty()) =~= seq![]);
                        r
                    },
                    Some(vs) => {
                        proof {
                            assert(decreases_to!(*self => *l));
                            assert(decreases_to!(*l => l.values));
                            assert(decreases_to!(l.values => *vs));
                            assert(raw_nodes_value(vs@).len() == vs@.len());
                            assert forall|i: int| 0 <= i < vs@.len() implies decodable(
                                (#[trigger] vs@[i]).value(),
                            ) by {
                                assert(raw_nodes_value(vs@)[i] == vs@[i].value());
                            }
                        }
                        Node::Array(decode_all(vs))
                    },
                }
            },
            RawNode::NodeMap(None) => {
                let r = Node::NodeMap(Vec::new());
                assert(entries_value(Seq::<(String, Node)>::empty()) =~= seq![]);
                r
            },
            RawNode::NodeMap(Some(l)) => {
                let mut out: Vec<(String, Node)> = Vec::new();
                assert(entries_value(out@) =~= seq![]);
                match (&l.values, &l.keys) {
                    (Some(vs), Some(ks)) => {
                        let ghost dv = decode_seq(raw_nodes_value(vs@));
                        let ghost kv = keys_value(ks@);
                        let n = if ks.len() < vs.len() {
                            ks.len()
                        } else {
                            vs.len()
                        };
                        proof {
                            assert(decreases_to!(*self => *l));
                            assert(decreases_to!(*l => l.values));
                            assert(decreases_to!(l.values => *vs));
                        }
                        let mut i: usize = 0;
                        while i < n
                            invariant
                                i <= n,
                                n <= vs@.len(),
                                n <= ks@.len(),
                                entries_value(out@) == collect_entries(kv, dv, i as nat),
                                distinct_keys(entries_value(out@)),
                            decreases n - i,
                        {
                            proof {
                                assert(raw_nodes_value(vs@)[i as int] == vs@[i as int].value());
                                assert(kv[i as int] == (match ks@[i as int] {
                                    None => None,
                                    Some(k) => Some(k@),
                                }));
                                assert(decreases_to!(*vs => vs@));
                                assert(decreases_to!(vs@ => vs@[i as int]));
                            }
                            match &ks[i] {
                                None => {},
                                Some(k) => {
                                    let v = vs[i].to_node();
                                    insert_entry(&mut out, k.clone(), v);
                                },
                            }
                            i += 1;
                        }
                    },
                    _ => {},
                }
                Node::NodeMap(out)
            },
            RawNode::ByteArray(None) => Node::ByteArray(Vec::new()),
            RawNode::ByteArray(Some(b)) => {
                match &b.data {
                    None => Node::ByteArray(Vec::new()),
                    Some(d) => Node::ByteArray(copy_bytes(d)),
                }
            },
            RawNode::Other(_) => Node::Empty,
        }
    }
}

/// The nodes that a sequence of layouts stands for.
fn decode_all(vs: &Vec<RawNode>) -> (r: Vec<Node>)
    requires
        forall|i: int| 0 <= i < vs@.len() ==> decodable((#[trigger] vs@[i]).value()),
    ensures
        nodes_value(r@) == decode_seq(raw_nodes_value(vs@)),
    decreases vs,
{
    let mut r: Vec<Node> = Vec::new();
    let mut i: usize = 0;
    while i < vs.len()
        invariant
            i <= vs@.len(),
            r@.len() == i,
            forall|j: int| 0 <= j < vs@.len() ==> decodable((#[trigger] vs@[j]).value()),
            forall|j: int| 0 <= j < i ==> (#[trigger] r@[j]).value() == decode(vs@[j].value()),
        decreases vs@.len() - i,
    {
        proof {
            assert(decreases_to!(*vs => vs@));
            assert(decreases_to!(vs@ => vs@[i as int]));
        }
        let n = vs[i].to_node();
        r.push(n);
        i += 1;
    }
    assert(nodes_value(r@) =~= decode_seq(raw_nodes_value(vs@)));
    r
}


/// The nodes of a list read as an array: none for a null list, a count
/// that is not positive or a null value pointer.
pub open spec fn decode_array_list(l: Option<RawListValue>) -> Seq<NodeValue> {
    match l {
        None => seq![],
        Some(l) => if l.num <= 0 {
            seq![]
        } else {
            match l.values {
                None => seq![],
                Some(vs) => decode_seq(vs),
            }
        },
    }
}

/// Whether a list can be read as an array: every element that is read can
/// be read as a node.
pub open spec fn array_list_decodable(l: Option<RawListValue>) -> bool {
    l matches Some(l) ==> ((l.num > 0 && l.values is Some) ==> forall|i: int|
        0 <= i < l.values->Some_0.len() ==> decodable(#[trigger] l.values->Some_0[i]))
}

/// Whether the first `n` keys are all present.
pub open spec fn keys_present(ks: Seq<Option<Seq<char>>>, n: int) -> bool {
    forall|j: int| 0 <= j < n ==> (#[trigger] ks[j]) is Some
}

/// The entries of a list read as a map: none for a null list, a count that
/// is not positive, a null value or key pointer, or any null key among the
/// pairs of a key and a value; otherwise every such pair in order, a
/// repeated key keeping its last value.
pub open spec fn decode_map_list(l: Option<RawListValue>) -> Seq<(Seq<char>, NodeValue)> {
    match l {
        None => seq![],
        Some(l) => if l.num <= 0 {
            seq![]
        } else {
            match (l.values, l.keys) {
                (Some(vs), Some(ks)) => {
                    let n = if ks.len() < vs.len() {
                        ks.len()
                    } else {
                        vs.len()
                    };
                    if keys_present(ks, n as int) {
                        collect_entries(ks, decode_seq(vs), n)
                    } else {
                        seq![]
                    }
                },
                _ => seq![],
            }
        },
    }
}

/// Whether a list can be read as a map: every value read before the first
/// null key can be read as a node.
pub open spec fn map_list_decodable(l: Option<RawListValue>) -> bool {
    l matches Some(l) ==> ((l.num > 0 && l.values is Some && l.keys is Some) ==> forall|i: int|
        0 <= i < l.values->Some_0.len() && 0 <= i < l.keys->Some_0.len() && keys_present(
            l.keys->Some_0,
            i + 1,
        ) ==> decodable(#[trigger] l.values->Some_0[i]))
}

/// The value of an optional list layout.
pub open spec fn opt_list_value(l: Option<RawList>) -> Option<RawListValue> {
    match l {
        None => None,
        Some(l) => Some(list_value(l)),
    }
}

/// The nodes of a list read as an array (what mpv hands back for a
/// property read as a list of nodes).
pub fn to_node_array(list: &Option<RawList>) -> (r: Vec<Node>)
    requires
        array_list_decodable(opt_list_value(*list)),
    ensures
        nodes_value(r@) == decode_array_list(opt_list_value(*list)),
        list matches Some(l) ==> (l.values matches Some(vs) ==> (l.num > 0 ==> r@.len()
            == vs@.len() && forall|i: int|
            0 <= i < vs@.len() ==> (#[trigger] r@[i]).value() == decode(vs@[i].value()))),
{
    match list {
        None => {
            let r = Vec::new();
            assert(nodes_value(r@) =~= seq![]);
            r
        },
        Some(l) => {
            if l.num <= 0 {
                let r = Vec::new();
                assert(nodes_value(r@) =~= seq![]);
                return r;
            }
            match &l.values {
                None => {
                    let r = Vec::new();
                    assert(nodes_value(r@) =~= seq![]);
                    r
                },
                Some(vs) => {
                    proof {
                        let lv = list_value(*l);
                        assert(lv.values == Some(raw_nodes_value(vs@)));
                        assert(lv.num > 0);
                        assert(array_list_decodable(Some(lv)));
                        assert forall|i: int| 0 <= i < vs@.len() implies decodable(
                            (#[trigger] vs@[i]).value(),
                        ) by {
                            assert(raw_nodes_value(vs@)[i] == vs@[i].value());
                            assert(decodable(lv.values->Some_0[i]));
                        }
                    }
                    let r = decode_all(vs);
                    proof {
                        let lv = list_value(*l);
                        lemma_array_list_reads_every_value(lv);
                        assert forall|i: int| 0 <= i < vs@.len() implies (#[trigger] r@[i]).value()
                            == decode(vs@[i].value()) by {
                            assert(nodes_value(r@)[i] == r@[i].value());
                            assert(raw_nodes_value(vs@)[i] == vs@[i].value());
                        }
                    }
                    r
                },
            }
        },
    }
}

/// The entries of a list read as a map (what mpv hands back for a property
/// read as a map of nodes).
#[verifier::loop_isolation(false)]
pub fn to_node_map(list: &Option<RawList>) -> (r: Vec<(String, Node)>)
    requires
        map_list_decodable(opt_list_value(*list)),
    ensures
        entries_value(r@) == decode_map_list(opt_list_value(*list)),
        list matches Some(l) ==> (l.values matches Some(vs) ==> (l.keys matches Some(ks) ==> ((
        l.num > 0 && (forall|i: int| 0 <= i < ks@.len() ==> (#[trigger] ks@[i]) is Some) && (
        forall|i: int, j: int|
            0 <= i < j < ks@.len() ==> (#[trigger] ks@[i])->Some_0@ != (
            #[trigger] ks@[j])->Some_0@)) ==> r@.len() == (if ks@.len() < vs@.len() {
            ks@.len()
        } else {
            vs@.len()
        }) && forall|i: int|
            0 <= i < r@.len() ==> (#[trigger] r@[i]).0@ == ks@[i]->Some_0@ && r@[i].1.value()
                == decode(vs@[i].value())))),
{
    let mut out: Vec<(String, Node)> = Vec::new();
    assert(entries_value(out@) =~= seq![]);
    match list {
        None => {},
        Some(l) => {
            if l.num > 0 {
                match (&l.values, &l.keys) {
                    (Some(vs), Some(ks)) => {
                        let ghost dv = decode_seq(raw_nodes_value(vs@));
                        let ghost kv = keys_value(ks@);
                        let n = if ks.len() < vs.len() {
                            ks.len()
                        } else {
                            vs.len()
                        };
                        let mut i: usize = 0;
                        while i < n
                            invariant
                                i <= n,
                                entries_value(out@) == collect_entries(kv, dv, i as nat),
                                distinct_keys(entries_value(out@)),
                                keys_present(kv, i as int),
                            decreases n - i,
                        {
                            assert(raw_nodes_value(vs@)[i as int] == vs@[i as int].value());
                            assert(kv[i as int] == (match ks@[i as int] {
                                None => None,
                                Some(k) => Some(k@),
                            }));
                            match &ks[i] {
                                None => {
                                    let empty: Vec<(String, Node)> = Vec::new();
                                    assert(!keys_present(kv, kv.len() as int));
                                    assert(entries_value(empty@) =~= seq![]);
                                    return empty;
                                },
                                Some(k) => {
                                    assert(keys_present(kv, i + 1));
                                    proof {
                                        let lv = list_value(*l);
                                        assert(lv.values == Some(raw_nodes_value(vs@)));
                                        assert(lv.keys == Some(kv));
                                        assert(decodable(lv.values->Some_0[i as int]));
                                    }
                                    let v = vs[i].to_node();
                                    insert_entry(&mut out, k.clone(), v);
                                },
                            }
                            i += 1;
                        }
                    },
                    _ => {},
                }
            }
        },
    }
    proof {
        if list is Some && list->Some_0.values is Some && list->Some_0.keys is Some {
            let l = list->Some_0;
            let vs = l.values->Some_0;
            let ks = l.keys->Some_0;
            if l.num > 0 && (forall|i: int| 0 <= i < ks@.len() ==> (#[trigger] ks@[i]) is Some)
                && (forall|i: int, j: int|
                0 <= i < j < ks@.len() ==> (#[trigger] ks@[i])->Some_0@ != (
                #[trigger] ks@[j])->Some_0@) {
                let lv = list_value(l);
                let kv = keys_value(ks@);
                assert forall|i: int| 0 <= i < kv.len() implies (#[trigger] kv[i]) is Some by {
                    assert(ks@[i] is Some);
                }
                assert forall|i: int, j: int|
                    0 <= i < j < kv.len() implies #[trigger] kv[i] != #[trigger] kv[j] by {
                    assert(ks@[i]->Some_0@ != ks@[j]->Some_0@);
                }
                lemma_map_list_reads_every_pair(lv);
                assert forall|i: int| 0 <= i < out@.len() implies (#[trigger] out@[i]).0@
                    == ks@[i]->Some_0@ && out@[i].1.value() == decode(vs@[i].value()) by {
                    assert(entries_value(out@)[i] == (out@[i].0@, out@[i].1.value()));
                    assert(raw_nodes_value(vs@)[i] == vs@[i].value());
                }
            }
        }
    }
    out
}

/// The bytes of a byte array layout: none for a null array or data pointer.
pub fn to_node_byte_array(ba: &Option<RawByteArray>) -> (r: Vec<u8>)
    ensures
        r@ == (match *ba {
            None => Seq::<u8>::empty(),
            Some(b) => match bytes_value(b) {
                None => Seq::<u8>::empty(),
                Some(d) => d,
            },
        }),
{
    match ba {
        None => Vec::new(),
        Some(b) => match &b.data {
            None => Vec::new(),
            Some(d) => copy_bytes(d),
        },
    }
}

impl RawNode {
    /// The layout in which a node is written: the format of its variant, a
    /// flag of 1 or 0, lists of at most `i32::MAX` elements (none, with null
    /// pointers, for an empty list), and a null data pointer for no bytes.
    /// No string of what is written may contain a NUL character.
    pub fn from_node(node: &Node) -> (r: RawNode)
        requires
            strings_without_nul(node.value()),
        ensures
            r.value() == encode(node.value()),
        decreases node,
    {
        match node {
            Node::Empty => RawNode::Other(FORMAT_NONE),
            Node::String(s) => RawNode::String(Some(s.clone())),
            Node::Int(i) => RawNode::Int64(*i),
            Node::Double(b) => RawNode::Double(*b),
            Node::Bool(b) => RawNode::Flag(
                if *b {
                    1
                } else {
                    0
                },
            ),
            Node::Array(v) => {
                proof {
                    assert(decreases_to!(*node => *v));
                }
                RawNode::NodeArray(Some(mpv_node_list_from_node_array(v)))
            },
            Node::NodeMap(m) => {
                proof {
                    assert(decreases_to!(*node => *m));
                }
                RawNode::NodeMap(Some(mpv_node_list_from_node_map(m)))
            },
            Node::ByteArray(b) => RawNode::ByteArray(Some(mpv_byte_array_from_byte_array(b))),
        }
    }
}

/// The number of elements written of a list of `len`: at most `i32::MAX`.
fn clamp_len(len: usize) -> (n: usize)
    ensures
        n == clamped_len(len as nat),
        n <= i32::MAX,
{
    if len < i32::MAX as usize {
        len
    } else {
        i32::MAX as usize
    }
}

/// The list layout of an array of nodes.
pub fn mpv_node_list_from_node_array(v: &Vec<Node>) -> (l: RawList)
    requires
        strings_without_nul(NodeValue::Array(nodes_value(v@))),
    ensures
        RawValue::NodeArray(Some(list_value(l))) == encode(NodeValue::Array(nodes_value(v@))),
        v@.len() <= i32::MAX ==> l.num == v@.len(),
        v@.len() > i32::MAX ==> l.num == i32::MAX,
        l.num == 0 <==> l.values is None,
        l.values matches Some(vs) ==> vs@.len() == l.num,
        l.keys is None,
    decreases v,
{
    let num = clamp_len(v.len());
    let ghost nv = nodes_value(v@);
    if num == 0 {
        return RawList { num: 0, values: None, keys: None };
    }
    let mut values: Vec<RawNode> = Vec::new();
    let mut i: usize = 0;
    while i < num
        invariant
            i <= num,
            num == clamped_len(v@.len()),
            num <= i32::MAX,
            nv == nodes_value(v@),
            strings_without_nul(NodeValue::Array(nv)),
            values@.len() == i,
            forall|j: int| 0 <= j < i ==> (#[trigger] values@[j]).value() == encode(nv[j]),
        decreases num - i,
    {
        proof {
            assert(nv.len() == v@.len());
            assert(nv[i as int] == v@[i as int].value());
            assert(strings_without_nul(nv[i as int]));
            assert(decreases_to!(*v => v@));
            assert(decreases_to!(v@ => v@[i as int]));
        }
        let r = RawNode::from_node(&v[i]);
        values.push(r);
        i += 1;
    }
    let l = RawList { num: num as i32, values: Some(values), keys: None };
    proof {
        let target = encode(NodeValue::Array(nv))->NodeArray_0->Some_0;
        assert(raw_nodes_value(values@) =~= target.values->Some_0);
    }
    l
}

/// The list layout of a map of nodes.
pub fn mpv_node_list_from_node_map(m: &Vec<(String, Node)>) -> (l: RawList)
    requires
        strings_without_nul(NodeValue::NodeMap(entries_value(m@))),
    ensures
        RawValue::NodeMap(Some(list_value(l))) == encode(NodeValue::NodeMap(entries_value(m@))),
        m@.len() <= i32::MAX ==> l.num == m@.len(),
        m@.len() > i32::MAX ==> l.num == i32::MAX,
        l.num == 0 <==> l.values is None,
        l.num == 0 <==> l.keys is None,
        l.values matches Some(vs) ==> vs@.len() == l.num,
        l.keys matches Some(ks) ==> ks@.len() == l.num,
    decreases m,
{
    let num = clamp_len(m.len());
    let ghost ev = entries_value(m@);
    if num == 0 {
        return RawList { num: 0, values: None, keys: None };
    }
    let mut values: Vec<RawNode> = Vec::new();
    let mut keys: Vec<Option<String>> = Vec::new();
    let mut i: usize = 0;
    while i < num
        invariant
            i <= num,
            num == clamped_len(m@.len()),
            num <= i32::MAX,
            ev == entries_value(m@),
            strings_without_nul(NodeValue::NodeMap(ev)),
            values@.len() == i,
            keys@.len() == i,
            forall|j: int| 0 <= j < i ==> (#[trigger] values@[j]).value() == encode(ev[j].1),
            forall|j: int| 0 <= j < i ==> ((#[trigger] keys@[j]) matches Some(k) && k@ == ev[j].0),
        decreases num - i,
    {
        proof {
            assert(ev.len() == m@.len());
            assert(ev[i as int] == (m@[i as int].0@, m@[i as int].1.value()));
            assert(strings_without_nul(ev[i as int].1));
            assert(decreases_to!(*m => m@));
            assert(decreases_to!(m@ => m@[i as int]));
            assert(decreases_to!(m@[i as int] => m@[i as int].1));
        }
        let r = RawNode::from_node(&m[i].1);
        values.push(r);
        keys.push(Some(m[i].0.clone()));
        i += 1;
    }
    let l = RawList { num: num as i32, values: Some(values), keys: Some(keys) };
    proof {
        let target = encode(NodeValue::NodeMap(ev))->NodeMap_0->Some_0;
        assert(raw_nodes_value(values@) =~= target.values->Some_0);
        assert(keys_value(keys@) =~= target.keys->Some_0);
    }
    l
}

/// The byte array layout of a sequence of bytes: a null data pointer when
/// there are none.
pub fn mpv_byte_array_from_byte_array(b: &Vec<u8>) -> (r: RawByteArray)
    ensures
        RawValue::ByteArray(Some(bytes_value(r))) == encode(NodeValue::Bytes(b@)),
{
    if b.len() == 0 {
        RawByteArray { data: None }
    } else {
        RawByteArray { data: Some(copy_bytes(b)) }
    }
}


impl Default for Node {
    /// No value.
    fn default() -> (n: Node)
        ensures
            n.value() == NodeValue::Empty,
    {
        Node::Empty
    }
}

impl AsFormat for Node {
    const MPV_FORMAT: u32 = FORMAT_NODE;
}

impl AsFormat for Vec<Node> {
    const MPV_FORMAT: u32 = FORMAT_NODE;
}

impl AsFormat for Vec<(String, Node)> {
    const MPV_FORMAT: u32 = FORMAT_NODE;
}

} // verus!
