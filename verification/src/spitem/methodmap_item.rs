//! Methodmaps.

use crate::range::Range;
use crate::spitem::{
    CompletionItem, CompletionKind, Description, Hover, HoverView, Location, SPItem,
};
use crate::text::{trim, trimmed};
use vstd::prelude::*;
use vstd::string::*;

verus! {

/// A methodmap.
#[derive(Debug)]
pub struct MethodmapItem {
    /// Name of the methodmap.
    pub name: String,
    /// The methodmap that this one inherits from.
    pub parent: Option<Box<SPItem>>,
    /// The name of that methodmap, until the methodmap itself is known.
    pub tmp_parent: Option<String>,
    /// Range of the name of the methodmap.
    pub range: Range,
    /// Range of the whole methodmap.
    pub full_range: Range,
    /// Description of the methodmap.
    pub description: Description,
    /// The document in which the methodmap is declared.
    pub uri: String,
    /// References to this methodmap.
    pub references: Vec<Location>,
}

impl MethodmapItem {
    /// What stands for the methodmap in a list of completions: its
    /// name, with the name of the file that declares it as the detail.
    pub fn to_completion(&self, file_name: Option<String>) -> (completion: Option<CompletionItem>)
        ensures
            completion is Some,
            completion->Some_0.label@ == self.name@,
            completion->Some_0.kind == CompletionKind::Class,
            completion->Some_0.detail == file_name,
            completion->Some_0.deprecated is None,
    {
        Some(
            CompletionItem {
                label: self.name.clone(),
                kind: CompletionKind::Class,
                detail: file_name,
                deprecated: None,
            },
        )
    }

    /// What is shown of the item on hover: the item as it is written in
    /// code, with its description.
    pub fn to_hover(&self) -> (hover: Option<Hover>)
        ensures
            hover is Some,
            hover->Some_0@ == (HoverView {
                code: trimmed(self.spec_head()),
                description: self.description@,
            }),
    {
        Some(Hover { code: self.formatted_text(), description: self.description.clone() })
    }

    /// The place at which the methodmap is declared.
    pub fn to_definition(&self) -> (target: Option<Location>)
        ensures
            target is Some,
            target->Some_0.uri@ == self.uri@,
            target->Some_0.range == self.range,
    {
        Some(Location { uri: self.uri.clone(), range: self.range })
    }

    /// The head of the methodmap before it is trimmed: `methodmap`, the
    /// name, and ` < ` with the name of the methodmap that it inherits
    /// from, if it inherits from one.
    pub open spec fn spec_head(&self) -> Seq<char> {
        match self.parent {
            Some(parent) => "methodmap "@ + self.name@ + " < "@ + parent.spec_name(),
            None => "methodmap "@ + self.name@,
        }
    }

    /// The head of the methodmap as it is written in code, without
    /// white space around it.
    pub fn formatted_text(&self) -> (text: String)
        ensures
            text@ == trimmed(self.spec_head()),
    {
        let mut head = String::from_str("methodmap ");
        head.append(self.name.as_str());
        match &self.parent {
            Some(parent) => {
                head.append(" < ");
                let name = parent.name();
                head.append(name.as_str());
            },
            None => {},
        }
        trim(head.as_str())
    }
}

} // verus!
