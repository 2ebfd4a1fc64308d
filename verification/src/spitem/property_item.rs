//! The properties of methodmaps.

use crate::range::Range;
use crate::spitem::{
    Completion, CompletionItem, CompletionKind, Description, Hover, HoverView, Location, SPItem,
};
use vstd::prelude::*;
use vstd::string::*;

verus! {

/// A property of a methodmap.
#[derive(Debug)]
pub struct PropertyItem {
    /// Name of the property.
    pub name: String,
    /// The methodmap that the property belongs to.
    pub parent: Box<SPItem>,
    /// Type of the property.
    pub type_: String,
    /// Range of the name of the property.
    pub range: Range,
    /// Range of the whole property, its block included.
    pub full_range: Range,
    /// Description of the property.
    pub description: Description,
    /// The document in which the property is declared.
    pub uri: String,
    /// References to this property.
    pub references: Vec<Location>,
}

impl PropertyItem {
    /// Whether the description says that the property should no longer
    /// be used.
    pub open spec fn spec_is_deprecated(&self) -> bool {
        self.description.deprecated is Some
    }

    fn is_deprecated(&self) -> (deprecated: bool)
        ensures
            deprecated == self.spec_is_deprecated(),
    {
        self.description.deprecated.is_some()
    }

    /// What stands for the property in a list of completions: its name,
    /// with the name of its methodmap as the detail, and whether it is
    /// deprecated.
    pub open spec fn spec_completion(&self) -> Completion {
        Completion {
            label: self.name@,
            kind: CompletionKind::Property,
            detail: Some(self.parent.spec_name()),
            deprecated: Some(self.spec_is_deprecated()),
        }
    }

    /// What stands for the property in a list of completions; nothing
    /// where the list is not one of methods and properties.
    pub fn to_completion(&self, request_method: bool) -> (completion: Option<CompletionItem>)
        ensures
            completion is Some == request_method,
            completion is Some ==> completion->Some_0@ == self.spec_completion(),
    {
        if !request_method {
            return None;
        }
        Some(
            CompletionItem {
                label: self.name.clone(),
                kind: CompletionKind::Property,
                detail: Some(self.parent.name()),
                deprecated: Some(self.is_deprecated()),
            },
        )
    }

    /// What is shown of the item on hover: the item as it is written in
    /// code, with its description.
    pub fn to_hover(&self) -> (hover: Option<Hover>)
        ensures
            hover is Some,
            hover->Some_0@ == (HoverView {
                code: self.spec_formatted_text(),
                description: self.description@,
            }),
    {
        Some(Hover { code: self.formatted_text(), description: self.description.clone() })
    }

    /// The place at which the property is declared.
    pub fn to_definition(&self) -> (target: Option<Location>)
        ensures
            target is Some,
            target->Some_0.uri@ == self.uri@,
            target->Some_0.range == self.range,
    {
        Some(Location { uri: self.uri.clone(), range: self.range })
    }

    /// The property as it is written in code: the name of its methodmap,
    /// a space, and its own name.
    pub open spec fn spec_formatted_text(&self) -> Seq<char> {
        self.parent.spec_name() + " "@ + self.name@
    }

    /// The property as it is written in code.
    pub fn formatted_text(&self) -> (text: String)
        ensures
            text@ == self.spec_formatted_text(),
    {
        let mut text = self.parent.name();
        text.append(" ");
        text.append(self.name.as_str());
        text
    }
}

} // verus!
