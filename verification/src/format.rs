//! The value formats of the libmpv client API (`mpv_format`), the Rust types
//! that carry one of them, and the OSD string wrapper.

use vstd::prelude::*;
use crate::text::{push_decimal, push_str, decimal};
use std::convert::Infallible;
use std::str::FromStr;
use std::ops::Deref;


verus! {

/// `MPV_FORMAT_NONE`: no value.
pub const FORMAT_NONE: u32 = 0;
/// `MPV_FORMAT_STRING`: a UTF-8 string.
pub const FORMAT_STRING: u32 = 1;
/// `MPV_FORMAT_OSD_STRING`: a string formatted for on-screen display.
pub const FORMAT_OSD_STRING: u32 = 2;
/// `MPV_FORMAT_FLAG`: a boolean stored as an `int`.
pub const FORMAT_FLAG: u32 = 3;
/// `MPV_FORMAT_INT64`: a signed 64-bit integer.
pub const FORMAT_INT64: u32 = 4;
/// `MPV_FORMAT_DOUBLE`: a double-precision float.
pub const FORMAT_DOUBLE: u32 = 5;
/// `MPV_FORMAT_NODE`: a generic node.
pub const FORMAT_NODE: u32 = 6;
/// `MPV_FORMAT_NODE_ARRAY`: a list of nodes.
pub const FORMAT_NODE_ARRAY: u32 = 7;
/// `MPV_FORMAT_NODE_MAP`: a list of named nodes.
pub const FORMAT_NODE_MAP: u32 = 8;
/// `MPV_FORMAT_BYTE_ARRAY`: raw bytes.
pub const FORMAT_BYTE_ARRAY: u32 = 9;

/// A value format of the client API; `Unknown` keeps any other code.
#[derive(Debug, Clone, Copy, PartialEq, Eq, Structural)]
pub enum Format {
    Empty,
    String,
    OsdString,
    Bool,
    Int,
    Double,
    Node,
    NodeArray,
    NodeMap,
    ByteArray,
    Unknown(u32),
}

/// The numeric code of a format.
pub open spec fn format_code(f: Format) -> u32 {
    match f {
        Format::Empty => FORMAT_NONE,
        Format::String => FORMAT_STRING,
        Format::OsdString => FORMAT_OSD_STRING,
        Format::Bool => FORMAT_FLAG,
        Format::Int => FORMAT_INT64,
        Format::Double => FORMAT_DOUBLE,
        Format::Node => FORMAT_NODE,
        Format::NodeArray => FORMAT_NODE_ARRAY,
        Format::NodeMap => FORMAT_NODE_MAP,
        Format::ByteArray => FORMAT_BYTE_ARRAY,
        Format::Unknown(v) => v,
    }
}

/// The format named by a numeric code: a known code gives its variant,
/// every other code gives `Unknown` with that code.
pub open spec fn format_of_code(v: u32) -> Format {
    if v == FORMAT_NONE {
        Format::Empty
    } else if v == FORMAT_STRING {
        Format::String
    } else if v == FORMAT_OSD_STRING {
        Format::OsdString
    } else if v == FORMAT_FLAG {
        Format::Bool
    } else if v == FORMAT_INT64 {
        Format::Int
    } else if v == FORMAT_DOUBLE {
        Format::Double
    } else if v == FORMAT_NODE {
        Format::Node
    } else if v == FORMAT_NODE_ARRAY {
        Format::NodeArray
    } else if v == FORMAT_NODE_MAP {
        Format::NodeMap
    } else if v == FORMAT_BYTE_ARRAY {
        Format::ByteArray
    } else {
        Format::Unknown(v)
    }
}

/// Whether `v` is the code of one of the named formats.
pub open spec fn is_known_format_code(v: u32) -> bool {
    v <= FORMAT_BYTE_ARRAY
}

/// The text that names a format: its variant name, or `Unknown: ` followed
/// by the code in decimal.
pub open spec fn format_text(f: Format) -> Seq<char> {
    match f {
        Format::Empty => "None"@,
        Format::String => "String"@,
        Format::OsdString => "OsdString"@,
        Format::Bool => "Bool"@,
        Format::Int => "Int"@,
        Format::Double => "Double"@,
        Format::Node => "Node"@,
        Format::NodeArray => "NodeArray"@,
        Format::NodeMap => "NodeMap"@,
        Format::ByteArray => "ByteArray"@,
        Format::Unknown(v) => "Unknown: "@ + decimal(v as nat),
    }
}

impl Format {
    /// The numeric code of this format.
    pub fn as_u32(self) -> (r: u32)
        ensures
            r == format_code(self),
    {
        match self {
            Format::Empty => FORMAT_NONE,
            Format::String => FORMAT_STRING,
            Format::OsdString => FORMAT_OSD_STRING,
            Format::Bool => FORMAT_FLAG,
            Format::Int => FORMAT_INT64,
            Format::Double => FORMAT_DOUBLE,
            Format::Node => FORMAT_NODE,
            Format::NodeArray => FORMAT_NODE_ARRAY,
            Format::NodeMap => FORMAT_NODE_MAP,
            Format::ByteArray => FORMAT_BYTE_ARRAY,
            Format::Unknown(v) => v,
        }
    }

    /// The format named by a numeric code.
    pub fn from_u32(v: u32) -> (f: Format)
        ensures
            f == format_of_code(v),
    {
        if v == FORMAT_NONE {
            Format::Empty
        } else if v == FORMAT_STRING {
            Format::String
        } else if v == FORMAT_OSD_STRING {
            Format::OsdString
        } else if v == FORMAT_FLAG {
            Format::Bool
        } else if v == FORMAT_INT64 {
            Format::Int
        } else if v == FORMAT_DOUBLE {
            Format::Double
        } else if v == FORMAT_NODE {
            Format::Node
        } else if v == FORMAT_NODE_ARRAY {
            Format::NodeArray
        } else if v == FORMAT_NODE_MAP {
            Format::NodeMap
        } else if v == FORMAT_BYTE_ARRAY {
            Format::ByteArray
        } else {
            Format::Unknown(v)
        }
    }

    /// The text that names this format (what the format displays as).
    pub fn to_string(&self) -> (s: String)
        ensures
            s@ == format_text(*self),
    {
        let lit = match self {
            Format::Empty => "None",
            Format::String => "String",
            Format::OsdString => "OsdString",
            Format::Bool => "Bool",
            Format::Int => "Int",
            Format::Double => "Double",
            Format::Node => "Node",
            Format::NodeArray => "NodeArray",
            Format::NodeMap => "NodeMap",
            Format::ByteArray => "ByteArray",
            Format::Unknown(_) => "Unknown: ",
        };
        let mut s = String::new();
        push_str(&mut s, lit);
        if let Format::Unknown(v) = self {
            push_decimal(&mut s, *v as u128);
        }
        proof {
            reveal_strlit("None");
            reveal_strlit("String");
            reveal_strlit("OsdString");
            reveal_strlit("Bool");
            reveal_strlit("Int");
            reveal_strlit("Double");
            reveal_strlit("Node");
            reveal_strlit("NodeArray");
            reveal_strlit("NodeMap");
            reveal_strlit("ByteArray");
            reveal_strlit("Unknown: ");
        }
        s
    }
}

impl From<u32> for Format {
    fn from(v: u32) -> (f: Format) {
        Format::from_u32(v)
    }
}

impl vstd::std_specs::convert::FromSpecImpl<u32> for Format {
    open spec fn obeys_from_spec() -> bool {
        true
    }

    open spec fn from_spec(v: u32) -> Format {
        format_of_code(v)
    }
}

/// Decoding a format's code gives the format back, for every format except
/// `Unknown` holding the code of a named format.
pub proof fn lemma_format_code_roundtrip(f: Format)
    requires
        !(f is Unknown && is_known_format_code(f->Unknown_0)),
    ensures
        format_of_code(format_code(f)) == f,
{
}

/// Encoding the format decoded from a code gives the code back, for every
/// code.
pub proof fn lemma_code_format_roundtrip(v: u32)
    ensures
        format_code(format_of_code(v)) == v,
        format_of_code(v) is Unknown <==> !is_known_format_code(v),
{
}

/// A Rust type that is exchanged with mpv in one fixed format.
pub trait AsFormat {
    /// The code of the format in which values of this type are exchanged.
    const MPV_FORMAT: u32;
}

impl AsFormat for () {
    const MPV_FORMAT: u32 = FORMAT_NONE;
}

impl AsFormat for String {
    const MPV_FORMAT: u32 = FORMAT_STRING;
}

impl AsFormat for OsdString {
    const MPV_FORMAT: u32 = FORMAT_OSD_STRING;
}

impl AsFormat for bool {
    const MPV_FORMAT: u32 = FORMAT_FLAG;
}

impl AsFormat for i64 {
    const MPV_FORMAT: u32 = FORMAT_INT64;
}

impl AsFormat for Vec<u8> {
    const MPV_FORMAT: u32 = FORMAT_NODE;
}

/// Each type is exchanged in the format of its kind of value: `()` as no
/// value, `String` as a string, `OsdString` as an OSD string, `bool` as a
/// flag, `i64` as an integer, and bytes as a node.
pub proof fn lemma_type_formats()
    ensures
        <() as AsFormat>::MPV_FORMAT == format_code(Format::Empty),
        <String as AsFormat>::MPV_FORMAT == format_code(Format::String),
        <OsdString as AsFormat>::MPV_FORMAT == format_code(Format::OsdString),
        <bool as AsFormat>::MPV_FORMAT == format_code(Format::Bool),
        <i64 as AsFormat>::MPV_FORMAT == format_code(Format::Int),
        <Vec<u8> as AsFormat>::MPV_FORMAT == format_code(Format::Node),
{
}

/// A string that mpv formats for on-screen display (`MPV_FORMAT_OSD_STRING`).
#[derive(Debug, Default, Clone, PartialEq, Eq, Hash)]
pub struct OsdString(pub String);

impl OsdString {
    /// The text of this string.
    pub fn as_str(&self) -> (s: &str)
        ensures
            s@ == self.0@,
    {
        self.0.as_str()
    }

    /// The text of this string, as it displays.
    pub fn to_string(&self) -> (s: String)
        ensures
            s@ == self.0@,
    {
        self.0.clone()
    }
}

impl Deref for OsdString {
    type Target = str;

    fn deref(&self) -> (s: &str)
        ensures
            s@ == self.0@,
    {
        self.0.as_str()
    }
}

impl AsRef<str> for OsdString {
    fn as_ref(&self) -> (s: &str)
        ensures
            s@ == self.0@,
    {
        self.0.as_str()
    }
}

impl std::borrow::Borrow<str> for OsdString {
    fn borrow(&self) -> (s: &str)
        ensures
            <str as View>::view(s) == self.0@,
    {
        self.0.as_str()
    }
}

impl From<String> for OsdString {
    fn from(value: String) -> (r: OsdString) {
        OsdString(value)
    }
}

impl vstd::std_specs::convert::FromSpecImpl<String> for OsdString {
    open spec fn obeys_from_spec() -> bool {
        true
    }

    open spec fn from_spec(v: String) -> OsdString {
        OsdString(v)
    }
}

impl FromStr for OsdString {
    type Err = Infallible;

    fn from_str(s: &str) -> (r: Result<OsdString, Infallible>)
        ensures
            r matches Ok(o) && o.0@ == s@,
    {
        Ok(OsdString(s.to_owned()))
    }
}

} // verus!
