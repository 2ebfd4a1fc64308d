//! Methodmaps, as they are read from the syntax tree of a document.

use crate::range::Range;
use crate::spitem::methodmap_item::MethodmapItem;
use crate::spitem::{Description, SPItem};
use crate::text::{text_eq, trim, trimmed};
use vstd::prelude::*;

verus! {

/// What a node inside a methodmap is.
#[derive(Clone, Copy, Debug, PartialEq, Eq, Structural)]
pub enum MethodmapMember {
    /// A method, a constructor or a destructor, native or not.
    Method,
    /// A property.
    Property,
    /// A comment.
    Comment,
    /// A pragma, which may mark what follows as deprecated.
    Pragma,
    /// Anything else.
    Other,
}

/// What the node kind `kind` is inside a methodmap.
pub open spec fn member_of_kind(kind: Seq<char>) -> MethodmapMember {
    if kind == "methodmap_method"@ || kind == "methodmap_method_constructor"@ || kind
        == "methodmap_method_destructor"@ || kind == "methodmap_native"@ || kind
        == "methodmap_native_constructor"@ || kind == "methodmap_native_destructor"@ {
        MethodmapMember::Method
    } else if kind == "methodmap_property"@ {
        MethodmapMember::Property
    } else if kind == "comment"@ {
        MethodmapMember::Comment
    } else if kind == "preproc_pragma"@ {
        MethodmapMember::Pragma
    } else {
        MethodmapMember::Other
    }
}

/// Tells what a node inside a methodmap is from the kind of the node.
pub fn read_methodmap_members(kind: &str) -> (member: MethodmapMember)
    ensures
        member == member_of_kind(kind@),
{
    if text_eq(kind, "methodmap_method") || text_eq(kind, "methodmap_method_constructor")
        || text_eq(kind, "methodmap_method_destructor") || text_eq(kind, "methodmap_native")
        || text_eq(kind, "methodmap_native_constructor") || text_eq(
        kind,
        "methodmap_native_destructor",
    ) {
        MethodmapMember::Method
    } else if text_eq(kind, "methodmap_property") {
        MethodmapMember::Property
    } else if text_eq(kind, "comment") {
        MethodmapMember::Comment
    } else if text_eq(kind, "preproc_pragma") {
        MethodmapMember::Pragma
    } else {
        MethodmapMember::Other
    }
}

/// The item of a methodmap whose parts have been read from the tree:
/// its name, the text after `<` if it inherits, the range of the name
/// and of the whole, and its description. The methodmap that it
/// inherits from is known by name only, without the white space around
/// it; it has no references yet.
pub fn parse_methodmap(
    name: String,
    inherits: Option<String>,
    range: Range,
    full_range: Range,
    description: Description,
    uri: String,
) -> (item: SPItem)
    ensures
        item is Methodmap,
        item->Methodmap_0.name == name,
        item->Methodmap_0.range == range,
        item->Methodmap_0.full_range == full_range,
        item->Methodmap_0.description == description,
        item->Methodmap_0.uri == uri,
        item->Methodmap_0.parent is None,
        item->Methodmap_0.references@.len() == 0,
        item->Methodmap_0.tmp_parent is Some == inherits is Some,
        inherits is Some ==> item->Methodmap_0.tmp_parent->Some_0@ == trimmed(inherits->Some_0@),
{
    let tmp_parent = match inherits {
        Some(text) => Some(trim(text.as_str())),
        None => None,
    };
    SPItem::Methodmap(
        MethodmapItem {
            name,
            parent: None,
            tmp_parent,
            range,
            full_range,
            description,
            uri,
            references: Vec::new(),
        },
    )
}

} // verus!
