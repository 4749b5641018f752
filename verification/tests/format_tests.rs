use mpv_client::format::{AsFormat, Format, OsdString};
use mpv_client::node::Node;

#[test]
fn format_codes_follow_the_client_api() {
    assert_eq!(Format::Empty.as_u32(), 0);
    assert_eq!(Format::String.as_u32(), 1);
    assert_eq!(Format::OsdString.as_u32(), 2);
    assert_eq!(Format::Bool.as_u32(), 3);
    assert_eq!(Format::Int.as_u32(), 4);
    assert_eq!(Format::Double.as_u32(), 5);
    assert_eq!(Format::Node.as_u32(), 6);
    assert_eq!(Format::NodeArray.as_u32(), 7);
    assert_eq!(Format::NodeMap.as_u32(), 8);
    assert_eq!(Format::ByteArray.as_u32(), 9);
    assert_eq!(Format::Unknown(1234).as_u32(), 1234);
}

#[test]
fn format_from_code() {
    assert_eq!(Format::from(0), Format::Empty);
    assert_eq!(Format::from(3), Format::Bool);
    assert_eq!(Format::from(8), Format::NodeMap);
    assert_eq!(Format::from(9), Format::ByteArray);
    assert_eq!(Format::from(10), Format::Unknown(10));
    assert_eq!(Format::from_u32(u32::MAX), Format::Unknown(u32::MAX));
}

#[test]
fn format_code_roundtrip_on_every_named_format() {
    let all = [
        Format::Empty,
        Format::String,
        Format::OsdString,
        Format::Bool,
        Format::Int,
        Format::Double,
        Format::Node,
        Format::NodeArray,
        Format::NodeMap,
        Format::ByteArray,
        Format::Unknown(77),
    ];
    for f in all {
        assert_eq!(Format::from(f.as_u32()), f);
    }
    for v in 0..20u32 {
        assert_eq!(Format::from(v).as_u32(), v);
    }
    // An unknown format that holds a named code decodes to the named one.
    assert_eq!(Format::from(Format::Unknown(4).as_u32()), Format::Int);
}

#[test]
fn format_text() {
    assert_eq!(Format::Empty.to_string(), "None");
    assert_eq!(Format::String.to_string(), "String");
    assert_eq!(Format::OsdString.to_string(), "OsdString");
    assert_eq!(Format::Bool.to_string(), "Bool");
    assert_eq!(Format::Int.to_string(), "Int");
    assert_eq!(Format::Double.to_string(), "Double");
    assert_eq!(Format::Node.to_string(), "Node");
    assert_eq!(Format::NodeArray.to_string(), "NodeArray");
    assert_eq!(Format::NodeMap.to_string(), "NodeMap");
    assert_eq!(Format::ByteArray.to_string(), "ByteArray");
    assert_eq!(Format::Unknown(42).to_string(), "Unknown: 42");
    assert_eq!(Format::Unknown(0).to_string(), "Unknown: 0");
    assert_eq!(Format::Unknown(4294967295).to_string(), "Unknown: 4294967295");
}

#[test]
fn types_name_their_format() {
    assert_eq!(<() as AsFormat>::MPV_FORMAT, 0);
    assert_eq!(<String as AsFormat>::MPV_FORMAT, 1);
    assert_eq!(<OsdString as AsFormat>::MPV_FORMAT, 2);
    assert_eq!(<bool as AsFormat>::MPV_FORMAT, 3);
    assert_eq!(<i64 as AsFormat>::MPV_FORMAT, 4);
    assert_eq!(<Node as AsFormat>::MPV_FORMAT, 6);
    assert_eq!(<Vec<Node> as AsFormat>::MPV_FORMAT, 6);
    assert_eq!(<Vec<(String, Node)> as AsFormat>::MPV_FORMAT, 6);
    assert_eq!(<Vec<u8> as AsFormat>::MPV_FORMAT, 6);
}

#[test]
fn osd_string_wraps_a_string() {
    let s = OsdString::from(String::from("00:01:02"));
    assert_eq!(s.as_str(), "00:01:02");
    assert_eq!(&*s, "00:01:02");
    assert_eq!(s.len(), 8);
    let parsed: OsdString = "volume: 50%".parse().unwrap();
    assert_eq!(parsed, OsdString(String::from("volume: 50%")));
    assert_eq!(OsdString::default().as_str(), "");
    let r: &str = s.as_ref();
    assert_eq!(r, "00:01:02");
    let b: &str = std::borrow::Borrow::borrow(&s);
    assert_eq!(b, "00:01:02");
    assert_eq!(s.to_string(), "00:01:02");
}
