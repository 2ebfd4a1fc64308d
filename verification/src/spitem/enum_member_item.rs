//! The members of enums.

use crate::range::Range;
use crate::spitem::{Completion, CompletionKind, Description, Hover, HoverView, Location, SPItem};
use crate::text::contains_char;
use vstd::prelude::*;
use vstd::string::*;

verus! {

/// A member of an enum.
#[derive(Debug)]
pub struct EnumMemberItem {
    /// Name of the enum member.
    pub name: String,
    /// Range of the name of the enum member.
    pub range: Range,
    /// The enum that the member belongs to.
    pub parent: Box<SPItem>,
    /// Description of the enum member.
    pub description: Description,
    /// The document in which the enum member is declared.
    pub uri: String,
    /// References to this enum member.
    pub references: Vec<Location>,
}

impl EnumMemberItem {
    /// What stands for the member in a list of completions: its name,
    /// with the name of its enum as the detail.
    pub open spec fn spec_completion(&self) -> Completion {
        Completion {
            label: self.name@,
            kind: CompletionKind::EnumMember,
            detail: Some(self.parent.spec_name()),
            deprecated: None,
        }
    }

    /// What stands for the member in a list of completions.
    pub fn to_completion(&self) -> (completion: Option<crate::spitem::CompletionItem>)
        ensures
            completion is Some,
            completion->Some_0@ == self.spec_completion(),
    {
        Some(
            crate::spitem::CompletionItem {
                label: self.name.clone(),
                kind: CompletionKind::EnumMember,
                detail: Some(self.parent.name()),
                deprecated: None,
            },
        )
    }

    /// What is shown of the item on hover: the item as it is written in
    /// code, with its description.
    pub fn to_hover(&self) -> (hover: Option<Hover>)
        ensures
            hover is Some,
            hover->Some_0@ == (HoverView {
                code: self.spec_formatted_text(),
                description: self.description@,
            }),
    {
        Some(Hover { code: self.formatted_text(), description: self.description.clone() })
    }

    /// The place at which the member is declared.
    pub fn to_definition(&self) -> (target: Option<Location>)
        ensures
            target is Some,
            target->Some_0.uri@ == self.uri@,
            target->Some_0.range == self.range,
    {
        Some(Location { uri: self.uri.clone(), range: self.range })
    }

    /// The member as it is written in code: its name after the name of
    /// its enum and `::`, or its name alone where the enum has no name
    /// of its own, which shows in a `#` in the name that it was given.
    /// The text is empty where the parent is no enum.
    pub open spec fn spec_formatted_text(&self) -> Seq<char> {
        match *self.parent {
            SPItem::Enum(parent) => if parent.name@.contains('#') {
                self.name@
            } else {
                parent.name@ + "::"@ + self.name@
            },
            _ => Seq::empty(),
        }
    }

    /// The member as it is written in code.
    pub fn formatted_text(&self) -> (text: String)
        ensures
            text@ == self.spec_formatted_text(),
    {
        match &*self.parent {
            SPItem::Enum(parent) => {
                if contains_char(parent.name.as_str(), '#') {
                    self.name.clone()
                } else {
                    let mut text = parent.name.clone();
                    text.append("::");
                    text.append(self.name.as_str());
                    text
                }
            },
            _ => String::new(),
        }
    }
}

} // verus!
