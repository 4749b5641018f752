use mpv_client::node::{
    mpv_byte_array_from_byte_array, mpv_node_list_from_node_array, mpv_node_list_from_node_map,
    to_node_array, to_node_byte_array, to_node_map, Node, RawByteArray, RawList, RawNode,
};

fn s(x: &str) -> String {
    x.to_string()
}

fn sample() -> Node {
    Node::NodeMap(vec![
        (s("title"), Node::String(s("Song"))),
        (s("count"), Node::Int(-3)),
        (s("ratio"), Node::Double(2.5f64.to_bits())),
        (s("paused"), Node::Bool(true)),
        (s("nothing"), Node::Empty),
        (s("bytes"), Node::ByteArray(vec![1, 2, 3])),
        (s("no-bytes"), Node::ByteArray(vec![])),
        (
            s("list"),
            Node::Array(vec![Node::Int(1), Node::Bool(false), Node::Array(vec![]), Node::NodeMap(vec![])]),
        ),
    ])
}

#[test]
fn written_node_reads_back() {
    let node = sample();
    let raw = RawNode::from_node(&node);
    assert_eq!(raw.to_node(), node);
}

#[test]
fn scalar_layouts() {
    assert_eq!(RawNode::from_node(&Node::Empty), RawNode::Other(0));
    assert_eq!(RawNode::from_node(&Node::Bool(true)), RawNode::Flag(1));
    assert_eq!(RawNode::from_node(&Node::Bool(false)), RawNode::Flag(0));
    assert_eq!(RawNode::from_node(&Node::Int(7)), RawNode::Int64(7));
    assert_eq!(RawNode::from_node(&Node::String(s("a"))), RawNode::String(Some(s("a"))));
}

#[test]
fn empty_lists_are_written_with_null_pointers() {
    let l = mpv_node_list_from_node_array(&vec![]);
    assert_eq!(l, RawList { num: 0, values: None, keys: None });
    let m = mpv_node_list_from_node_map(&vec![]);
    assert_eq!(m, RawList { num: 0, values: None, keys: None });
    assert_eq!(mpv_byte_array_from_byte_array(&vec![]), RawByteArray { data: None });
    assert_eq!(mpv_byte_array_from_byte_array(&vec![9]), RawByteArray { data: Some(vec![9]) });
}

#[test]
fn map_layout_has_keys() {
    let l = mpv_node_list_from_node_map(&vec![(s("a"), Node::Int(1)), (s("b"), Node::Empty)]);
    assert_eq!(l.num, 2);
    assert_eq!(l.keys, Some(vec![Some(s("a")), Some(s("b"))]));
    assert_eq!(l.values, Some(vec![RawNode::Int64(1), RawNode::Other(0)]));
}

#[test]
fn reading_scalars() {
    assert_eq!(RawNode::String(None).to_node(), Node::Empty);
    assert_eq!(RawNode::Flag(2).to_node(), Node::Bool(true));
    assert_eq!(RawNode::Flag(0).to_node(), Node::Bool(false));
    assert_eq!(RawNode::Double(1.5f64.to_bits()).to_node(), Node::Double(1.5f64.to_bits()));
    assert_eq!(RawNode::Other(2).to_node(), Node::Empty);
    assert_eq!(RawNode::Other(6).to_node(), Node::Empty);
    assert_eq!(RawNode::NodeArray(None).to_node(), Node::Array(vec![]));
    assert_eq!(RawNode::NodeMap(None).to_node(), Node::NodeMap(vec![]));
    assert_eq!(RawNode::ByteArray(None).to_node(), Node::ByteArray(vec![]));
    assert_eq!(RawNode::ByteArray(Some(RawByteArray { data: None })).to_node(), Node::ByteArray(vec![]));
}

#[test]
fn reading_a_map_skips_null_keys_and_keeps_the_last_value() {
    let raw = RawNode::NodeMap(Some(RawList {
        num: 4,
        values: Some(vec![RawNode::Int64(1), RawNode::Int64(2), RawNode::Int64(3), RawNode::Int64(4)]),
        keys: Some(vec![Some(s("a")), None, Some(s("b")), Some(s("a"))]),
    }));
    assert_eq!(raw.to_node(), Node::NodeMap(vec![(s("a"), Node::Int(4)), (s("b"), Node::Int(3))]));
}

#[test]
fn reading_a_map_without_keys_is_empty() {
    let raw = RawNode::NodeMap(Some(RawList { num: 1, values: Some(vec![RawNode::Int64(1)]), keys: None }));
    assert_eq!(raw.to_node(), Node::NodeMap(vec![]));
}

#[test]
fn reading_lists_as_arrays() {
    assert_eq!(to_node_array(&None), vec![]);
    let negative = Some(RawList { num: -1, values: Some(vec![]), keys: None });
    assert_eq!(to_node_array(&negative), vec![]);
    let no_values = Some(RawList { num: 2, values: None, keys: None });
    assert_eq!(to_node_array(&no_values), vec![]);
    let two = Some(RawList { num: 2, values: Some(vec![RawNode::Int64(5), RawNode::String(None)]), keys: None });
    assert_eq!(to_node_array(&two), vec![Node::Int(5), Node::Empty]);
}

#[test]
fn reading_lists_as_maps() {
    assert_eq!(to_node_map(&None), vec![]);
    let null_key = Some(RawList {
        num: 2,
        values: Some(vec![RawNode::Int64(1), RawNode::Int64(2)]),
        keys: Some(vec![Some(s("a")), None]),
    });
    assert_eq!(to_node_map(&null_key), vec![]);
    let no_keys = Some(RawList { num: 1, values: Some(vec![RawNode::Int64(1)]), keys: None });
    assert_eq!(to_node_map(&no_keys), vec![]);
    let good = Some(RawList {
        num: 3,
        values: Some(vec![RawNode::Int64(1), RawNode::Int64(2), RawNode::Flag(1)]),
        keys: Some(vec![Some(s("x")), Some(s("y")), Some(s("x"))]),
    });
    assert_eq!(to_node_map(&good), vec![(s("x"), Node::Bool(true)), (s("y"), Node::Int(2))]);
}

#[test]
fn reading_byte_arrays() {
    assert_eq!(to_node_byte_array(&None), Vec::<u8>::new());
    assert_eq!(to_node_byte_array(&Some(RawByteArray { data: None })), Vec::<u8>::new());
    assert_eq!(to_node_byte_array(&Some(RawByteArray { data: Some(vec![4, 5]) })), vec![4, 5]);
}

#[test]
fn default_node_is_empty() {
    assert_eq!(Node::default(), Node::Empty);
}
