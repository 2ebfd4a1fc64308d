//! The items of a SourcePawn document: functions, variables, enums and
//! the like, as the language server tells its clients about them.

use crate::range::{Position, Range};
use crate::text::text_eq;
use crate::spitem::enum_member_item::EnumMemberItem;
use crate::spitem::items::{
    DefineItem, EnumItem, EnumStructItem, FunctionItem, IncludeItem, VariableItem,
};
use crate::spitem::methodmap_item::MethodmapItem;
use crate::spitem::property_item::PropertyItem;
use vstd::prelude::*;
use vstd::string::*;

pub mod enum_member_item;
pub mod items;
pub mod methodmap_item;
pub mod property_item;

verus! {

/// A place inside a document: a range in the text at `uri`.
#[derive(Debug)]
pub struct Location {
    pub uri: String,
    pub range: Range,
}

impl Clone for Location {
    fn clone(&self) -> (copy: Location)
        ensures
            copy.uri@ == self.uri@,
            copy.range == self.range,
    {
        Location { uri: self.uri.clone(), range: self.range }
    }
}

/// What the documentation comment of an item says.
#[derive(Debug)]
pub struct Description {
    /// The text of the comment.
    pub text: String,
    /// Why the item should no longer be used, if it should not.
    pub deprecated: Option<String>,
}

/// A description as contracts see it.
pub struct DescriptionView {
    pub text: Seq<char>,
    pub deprecated: Option<Seq<char>>,
}

impl View for Description {
    type V = DescriptionView;

    open spec fn view(&self) -> DescriptionView {
        DescriptionView {
            text: self.text@,
            deprecated: match self.deprecated {
                Some(reason) => Some(reason@),
                None => None,
            },
        }
    }
}

impl DescriptionView {
    /// The description as it is shown: its text, after a line that says
    /// why the item is deprecated, if it is.
    pub open spec fn to_md(self) -> Seq<char> {
        match self.deprecated {
            Some(reason) => "**DEPRECATED**: "@ + reason + "\n\n"@ + self.text,
            None => self.text,
        }
    }
}

impl Description {
    /// The description as it is shown.
    pub fn to_md(&self) -> (shown: String)
        ensures
            shown@ == self@.to_md(),
    {
        match &self.deprecated {
            Some(reason) => {
                let mut shown = String::from_str("**DEPRECATED**: ");
                shown.append(reason.as_str());
                shown.append("\n\n");
                shown.append(self.text.as_str());
                shown
            },
            None => self.text.clone(),
        }
    }
}

impl Clone for Description {
    fn clone(&self) -> (copy: Description)
        ensures
            copy@ == self@,
    {
        Description {
            text: self.text.clone(),
            deprecated: match &self.deprecated {
                Some(reason) => Some(reason.clone()),
                None => None,
            },
        }
    }
}

/// What kind of thing a completion stands for.
#[derive(Clone, Copy, Debug, PartialEq, Eq, Structural)]
pub enum CompletionKind {
    EnumMember,
    Class,
    Property,
}

/// What stands for an item in a list of completions.
#[derive(Debug)]
pub struct CompletionItem {
    /// The text that is shown and inserted.
    pub label: String,
    pub kind: CompletionKind,
    /// What is shown beside the label.
    pub detail: Option<String>,
    /// Whether the item should no longer be used, where that is known.
    pub deprecated: Option<bool>,
}

/// A completion as contracts see it.
pub struct Completion {
    pub label: Seq<char>,
    pub kind: CompletionKind,
    pub detail: Option<Seq<char>>,
    pub deprecated: Option<bool>,
}

impl View for CompletionItem {
    type V = Completion;

    open spec fn view(&self) -> Completion {
        Completion {
            label: self.label@,
            kind: self.kind,
            detail: match self.detail {
                Some(detail) => Some(detail@),
                None => None,
            },
            deprecated: self.deprecated,
        }
    }
}

/// What is shown of an item when the pointer rests on it.
#[derive(Debug)]
pub struct Hover {
    /// The item as it is written in code.
    pub code: String,
    pub description: Description,
}

/// A hover as contracts see it.
pub struct HoverView {
    pub code: Seq<char>,
    pub description: DescriptionView,
}

impl View for Hover {
    type V = HoverView;

    open spec fn view(&self) -> HoverView {
        HoverView { code: self.code@, description: self.description@ }
    }
}

/// An item of a document.
#[derive(Debug)]
pub enum SPItem {
    Function(FunctionItem),
    Variable(VariableItem),
    Enum(EnumItem),
    EnumMember(EnumMemberItem),
    EnumStruct(EnumStructItem),
    Define(DefineItem),
    Methodmap(MethodmapItem),
    Property(PropertyItem),
    Include(IncludeItem),
}

impl SPItem {
    /// The name of the item.
    pub open spec fn spec_name(&self) -> Seq<char> {
        match self {
            SPItem::Variable(item) => item.name@,
            SPItem::Function(item) => item.name@,
            SPItem::Enum(item) => item.name@,
            SPItem::EnumMember(item) => item.name@,
            SPItem::EnumStruct(item) => item.name@,
            SPItem::Define(item) => item.name@,
            SPItem::Methodmap(item) => item.name@,
            SPItem::Property(item) => item.name@,
            SPItem::Include(item) => item.name@,
        }
    }

    /// The range of the name of the item.
    pub open spec fn spec_range(&self) -> Range {
        match self {
            SPItem::Variable(item) => item.range,
            SPItem::Function(item) => item.range,
            SPItem::Enum(item) => item.range,
            SPItem::EnumMember(item) => item.range,
            SPItem::EnumStruct(item) => item.range,
            SPItem::Define(item) => item.range,
            SPItem::Methodmap(item) => item.range,
            SPItem::Property(item) => item.range,
            SPItem::Include(item) => item.range,
        }
    }

    /// The range of the whole item; for an item that is no more than its
    /// name, the range of the name.
    pub open spec fn spec_full_range(&self) -> Range {
        match self {
            SPItem::Variable(item) => item.range,
            SPItem::Function(item) => item.full_range,
            SPItem::Enum(item) => item.full_range,
            SPItem::EnumMember(item) => item.range,
            SPItem::EnumStruct(item) => item.full_range,
            SPItem::Define(item) => item.full_range,
            SPItem::Methodmap(item) => item.full_range,
            SPItem::Property(item) => item.full_range,
            SPItem::Include(item) => item.range,
        }
    }

    /// The item that this item belongs to, if it belongs to one.
    pub open spec fn spec_parent(&self) -> Option<SPItem> {
        match self {
            SPItem::Variable(item) => match item.parent {
                Some(parent) => Some(*parent),
                None => None,
            },
            SPItem::Function(item) => match item.parent {
                Some(parent) => Some(*parent),
                None => None,
            },
            SPItem::EnumMember(item) => Some(*item.parent),
            SPItem::Property(item) => Some(*item.parent),
            _ => None,
        }
    }

    /// The type of the item: the declared type of a variable, a function
    /// or a property; the name of its enum for an enum member; its own
    /// name for an enum, an enum struct or a methodmap; and none for a
    /// define or an include.
    pub open spec fn spec_type(&self) -> Seq<char> {
        match self {
            SPItem::Variable(item) => item.type_@,
            SPItem::Function(item) => item.type_@,
            SPItem::Enum(item) => item.name@,
            SPItem::EnumMember(item) => item.parent.spec_name(),
            SPItem::EnumStruct(item) => item.name@,
            SPItem::Define(_) => Seq::empty(),
            SPItem::Methodmap(item) => item.name@,
            SPItem::Property(item) => item.type_@,
            SPItem::Include(_) => Seq::empty(),
        }
    }

    /// The description of the item; an include has none.
    pub open spec fn spec_description(&self) -> Option<DescriptionView> {
        match self {
            SPItem::Variable(item) => Some(item.description@),
            SPItem::Function(item) => Some(item.description@),
            SPItem::Enum(item) => Some(item.description@),
            SPItem::EnumMember(item) => Some(item.description@),
            SPItem::EnumStruct(item) => Some(item.description@),
            SPItem::Define(item) => Some(item.description@),
            SPItem::Methodmap(item) => Some(item.description@),
            SPItem::Property(item) => Some(item.description@),
            SPItem::Include(_) => None,
        }
    }

    /// The document in which the item is declared.
    pub open spec fn spec_uri(&self) -> Seq<char> {
        match self {
            SPItem::Variable(item) => item.uri@,
            SPItem::Function(item) => item.uri@,
            SPItem::Enum(item) => item.uri@,
            SPItem::EnumMember(item) => item.uri@,
            SPItem::EnumStruct(item) => item.uri@,
            SPItem::Define(item) => item.uri@,
            SPItem::Methodmap(item) => item.uri@,
            SPItem::Property(item) => item.uri@,
            SPItem::Include(item) => item.uri@,
        }
    }

    /// The places at which the item is used; an include keeps none.
    pub open spec fn spec_references(&self) -> Option<Seq<Location>> {
        match self {
            SPItem::Variable(item) => Some(item.references@),
            SPItem::Function(item) => Some(item.references@),
            SPItem::Enum(item) => Some(item.references@),
            SPItem::EnumMember(item) => Some(item.references@),
            SPItem::EnumStruct(item) => Some(item.references@),
            SPItem::Define(item) => Some(item.references@),
            SPItem::Methodmap(item) => Some(item.references@),
            SPItem::Property(item) => Some(item.references@),
            SPItem::Include(_) => None,
        }
    }

    pub fn range(&self) -> (range: Option<Range>)
        ensures
            range == Some(self.spec_range()),
    {
        match self {
            SPItem::Variable(item) => Some(item.range),
            SPItem::Function(item) => Some(item.range),
            SPItem::Enum(item) => Some(item.range),
            SPItem::EnumMember(item) => Some(item.range),
            SPItem::EnumStruct(item) => Some(item.range),
            SPItem::Define(item) => Some(item.range),
            SPItem::Methodmap(item) => Some(item.range),
            SPItem::Property(item) => Some(item.range),
            SPItem::Include(item) => Some(item.range),
        }
    }

    pub fn full_range(&self) -> (range: Option<Range>)
        ensures
            range == Some(self.spec_full_range()),
    {
        match self {
            SPItem::Variable(item) => Some(item.range),
            SPItem::Function(item) => Some(item.full_range),
            SPItem::Enum(item) => Some(item.full_range),
            SPItem::EnumMember(item) => Some(item.range),
            SPItem::EnumStruct(item) => Some(item.full_range),
            SPItem::Define(item) => Some(item.full_range),
            SPItem::Methodmap(item) => Some(item.full_range),
            SPItem::Property(item) => Some(item.full_range),
            SPItem::Include(item) => Some(item.range),
        }
    }

    pub fn name(&self) -> (name: String)
        ensures
            name@ == self.spec_name(),
    {
        match self {
            SPItem::Variable(item) => item.name.clone(),
            SPItem::Function(item) => item.name.clone(),
            SPItem::Enum(item) => item.name.clone(),
            SPItem::EnumMember(item) => item.name.clone(),
            SPItem::EnumStruct(item) => item.name.clone(),
            SPItem::Define(item) => item.name.clone(),
            SPItem::Methodmap(item) => item.name.clone(),
            SPItem::Property(item) => item.name.clone(),
            SPItem::Include(item) => item.name.clone(),
        }
    }

    pub fn parent(&self) -> (parent: Option<&SPItem>)
        ensures
            parent is Some == self.spec_parent() is Some,
            parent is Some ==> *parent->Some_0 == self.spec_parent()->Some_0,
    {
        match self {
            SPItem::Variable(item) => match &item.parent {
                Some(parent) => Some(&**parent),
                None => None,
            },
            SPItem::Function(item) => match &item.parent {
                Some(parent) => Some(&**parent),
                None => None,
            },
            SPItem::Enum(_) => None,
            SPItem::EnumMember(item) => Some(&*item.parent),
            SPItem::EnumStruct(_) => None,
            SPItem::Define(_) => None,
            SPItem::Methodmap(_) => None,
            SPItem::Property(item) => Some(&*item.parent),
            SPItem::Include(_) => None,
        }
    }

    pub fn type_(&self) -> (type_: String)
        ensures
            type_@ == self.spec_type(),
    {
        match self {
            SPItem::Variable(item) => item.type_.clone(),
            SPItem::Function(item) => item.type_.clone(),
            SPItem::Enum(item) => item.name.clone(),
            SPItem::EnumMember(item) => item.parent.name(),
            SPItem::EnumStruct(item) => item.name.clone(),
            SPItem::Define(_) => String::new(),
            SPItem::Methodmap(item) => item.name.clone(),
            SPItem::Property(item) => item.type_.clone(),
            SPItem::Include(_) => String::new(),
        }
    }

    pub fn description(&self) -> (description: Option<Description>)
        ensures
            description is Some == self.spec_description() is Some,
            description is Some ==> description->Some_0@ == self.spec_description()->Some_0,
    {
        match self {
            SPItem::Variable(item) => Some(item.description.clone()),
            SPItem::Function(item) => Some(item.description.clone()),
            SPItem::Enum(item) => Some(item.description.clone()),
            SPItem::EnumMember(item) => Some(item.description.clone()),
            SPItem::EnumStruct(item) => Some(item.description.clone()),
            SPItem::Define(item) => Some(item.description.clone()),
            SPItem::Methodmap(item) => Some(item.description.clone()),
            SPItem::Property(item) => Some(item.description.clone()),
            SPItem::Include(_) => None,
        }
    }

    pub fn uri(&self) -> (uri: String)
        ensures
            uri@ == self.spec_uri(),
    {
        match self {
            SPItem::Variable(item) => item.uri.clone(),
            SPItem::Function(item) => item.uri.clone(),
            SPItem::Enum(item) => item.uri.clone(),
            SPItem::EnumMember(item) => item.uri.clone(),
            SPItem::EnumStruct(item) => item.uri.clone(),
            SPItem::Define(item) => item.uri.clone(),
            SPItem::Methodmap(item) => item.uri.clone(),
            SPItem::Property(item) => item.uri.clone(),
            SPItem::Include(item) => item.uri.clone(),
        }
    }

    pub fn references(&self) -> (references: Option<&Vec<Location>>)
        ensures
            references is Some == self.spec_references() is Some,
            references is Some ==> references->Some_0@ == self.spec_references()->Some_0,
    {
        match self {
            SPItem::Variable(item) => Some(&item.references),
            SPItem::Function(item) => Some(&item.references),
            SPItem::Enum(item) => Some(&item.references),
            SPItem::EnumMember(item) => Some(&item.references),
            SPItem::EnumStruct(item) => Some(&item.references),
            SPItem::Define(item) => Some(&item.references),
            SPItem::Methodmap(item) => Some(&item.references),
            SPItem::Property(item) => Some(&item.references),
            SPItem::Include(_) => None,
        }
    }
}

impl Location {
    /// Whether two locations are the same place: the same range in the
    /// same document.
    pub open spec fn spec_same(&self, other: &Location) -> bool {
        self.uri@ == other.uri@ && self.range == other.range
    }

    /// Whether two locations are the same place.
    pub fn same(&self, other: &Location) -> (same: bool)
        ensures
            same == self.spec_same(other),
    {
        self.range == other.range && self.uri == other.uri
    }
}

impl SPItem {
    /// Whether `reference` is the place at which the item is declared.
    pub open spec fn declared_at(&self, reference: &Location) -> bool {
        self.spec_range() == reference.range && self.spec_uri() == reference.uri@
    }

    /// Whether two items are alike in all but the places at which they
    /// are used.
    pub open spec fn alike_but_references(&self, other: &SPItem) -> bool {
        match (self, other) {
            (SPItem::Variable(a), SPItem::Variable(b)) => a.name == b.name && a.type_ == b.type_
                && a.range == b.range && a.description == b.description && a.uri == b.uri
                && a.parent == b.parent,
            (SPItem::Function(a), SPItem::Function(b)) => a.name == b.name && a.type_ == b.type_
                && a.range == b.range && a.full_range == b.full_range && a.description
                == b.description && a.uri == b.uri && a.parent == b.parent && a.params == b.params,
            (SPItem::Enum(a), SPItem::Enum(b)) => a.name == b.name && a.range == b.range
                && a.full_range == b.full_range && a.description == b.description && a.uri == b.uri,
            (SPItem::EnumMember(a), SPItem::EnumMember(b)) => a.name == b.name && a.range == b.range
                && a.parent == b.parent && a.description == b.description && a.uri == b.uri,
            (SPItem::EnumStruct(a), SPItem::EnumStruct(b)) => a.name == b.name && a.range == b.range
                && a.full_range == b.full_range && a.description == b.description && a.uri == b.uri,
            (SPItem::Define(a), SPItem::Define(b)) => a.name == b.name && a.range == b.range
                && a.full_range == b.full_range && a.description == b.description && a.uri == b.uri,
            (SPItem::Methodmap(a), SPItem::Methodmap(b)) => a.name == b.name && a.parent == b.parent
                && a.tmp_parent == b.tmp_parent && a.range == b.range && a.full_range
                == b.full_range && a.description == b.description && a.uri == b.uri,
            (SPItem::Property(a), SPItem::Property(b)) => a.name == b.name && a.parent == b.parent
                && a.type_ == b.type_ && a.range == b.range && a.full_range == b.full_range
                && a.description == b.description && a.uri == b.uri,
            (SPItem::Include(a), SPItem::Include(b)) => a == b,
            _ => false,
        }
    }

    /// Replaces the places at which the item is used. An include keeps
    /// none and stays as it is.
    pub fn set_new_references(&mut self, references: Vec<Location>)
        ensures
            final(self).alike_but_references(old(self)),
            final(self).spec_references() == match old(self).spec_references() {
                Some(_) => Some(references@),
                None => None,
            },
    {
        match self {
            SPItem::Variable(item) => item.references = references,
            SPItem::Function(item) => item.references = references,
            SPItem::Enum(item) => item.references = references,
            SPItem::EnumMember(item) => item.references = references,
            SPItem::EnumStruct(item) => item.references = references,
            SPItem::Define(item) => item.references = references,
            SPItem::Methodmap(item) => item.references = references,
            SPItem::Property(item) => item.references = references,
            SPItem::Include(_) => {},
        }
    }

    /// Records a place at which the item is used. The place at which
    /// the item is declared is no use of it and is not recorded; an
    /// include records none.
    pub fn push_reference(&mut self, reference: Location)
        ensures
            final(self).alike_but_references(old(self)),
            final(self).spec_references() == match old(self).spec_references() {
                Some(references) => if old(self).declared_at(&reference) {
                    Some(references)
                } else {
                    Some(references.push(reference))
                },
                None => None,
            },
    {
        let declared = match self.range() {
            Some(range) => range == reference.range && self.uri() == reference.uri,
            None => false,
        };
        if declared {
            return ;
        }
        match self {
            SPItem::Variable(item) => item.references.push(reference),
            SPItem::Function(item) => item.references.push(reference),
            SPItem::Enum(item) => item.references.push(reference),
            SPItem::EnumMember(item) => item.references.push(reference),
            SPItem::EnumStruct(item) => item.references.push(reference),
            SPItem::Define(item) => item.references.push(reference),
            SPItem::Methodmap(item) => item.references.push(reference),
            SPItem::Property(item) => item.references.push(reference),
            SPItem::Include(_) => {},
        }
    }

    /// The parameters of a function; no other item has any.
    pub open spec fn spec_params(&self) -> Option<Seq<SPItem>> {
        match self {
            SPItem::Function(item) => Some(item.params@),
            _ => None,
        }
    }

    /// Adds a parameter to a function. Any other item stays as it is.
    pub fn push_params(&mut self, param: SPItem)
        ensures
            match old(self).spec_params() {
                Some(params) => final(self).spec_params() == Some(params.push(param)),
                None => *final(self) == *old(self),
            },
            final(self).spec_name() == old(self).spec_name(),
            final(self).spec_references() == old(self).spec_references(),
    {
        match self {
            SPItem::Function(item) => item.params.push(param),
            _ => {},
        }
    }
}

/// Whether one of the references lies in the document at `uri` and
/// holds `position`.
pub open spec fn reference_at(
    references: Seq<Location>,
    position: Position,
    uri: Seq<char>,
) -> bool {
    exists|i: int|
        0 <= i < references.len() && (#[trigger] references[i]).range.spec_contains(position)
            && references[i].uri@ == uri
}

/// Whether `position` in the document at `uri` lies on the item: on
/// its name where it is declared, or on one of its uses.
pub open spec fn at_position(item: SPItem, position: Position, uri: Seq<char>) -> bool {
    let declared = item.spec_range().spec_contains(position) && item.spec_uri() == uri;
    let used = match item.spec_references() {
        Some(references) => reference_at(references, position, uri),
        None => false,
    };
    declared || used
}

fn any_reference_at(references: &Vec<Location>, position: Position, uri: &str) -> (found: bool)
    ensures
        found == reference_at(references@, position, uri@),
{
    let mut i: usize = 0;
    while i < references.len()
        invariant
            i <= references.len(),
            forall|j: int|
                0 <= j < i ==> !((#[trigger] references@[j]).range.spec_contains(position)
                    && references@[j].uri@ == uri@),
        decreases references.len() - i,
    {
        if references[i].range.contains(position) && text_eq(references[i].uri.as_str(), uri) {
            return true;
        }
        i += 1;
    }
    false
}

fn is_at_position(item: &SPItem, position: Position, uri: &str) -> (found: bool)
    ensures
        found == at_position(*item, position, uri@),
{
    let declared = match item.range() {
        Some(range) => {
            let item_uri = item.uri();
            range.contains(position) && text_eq(item_uri.as_str(), uri)
        },
        None => false,
    };
    if declared {
        return true;
    }
    match item.references() {
        Some(references) => any_reference_at(references, position, uri),
        None => false,
    }
}

/// The places, among `all_items`, of the items on which `position` in
/// the document at `uri` lies, in their order.
pub fn get_items_from_position(all_items: &Vec<&SPItem>, position: Position, uri: &str) -> (found:
    Vec<usize>)
    ensures
        forall|k: int|
            0 <= k < found@.len() ==> (#[trigger] found@[k]) < all_items@.len() && at_position(
                *all_items@[found@[k] as int],
                position,
                uri@,
            ),
        forall|k: int, l: int| 0 <= k < l < found@.len() ==> found@[k] < found@[l],
        forall|i: int|
            0 <= i < all_items@.len() && at_position(*#[trigger] all_items@[i], position, uri@)
                ==> found@.contains(i as usize),
{
    let mut found: Vec<usize> = Vec::new();
    let mut i: usize = 0;
    while i < all_items.len()
        invariant
            i <= all_items.len(),
            forall|k: int|
                0 <= k < found@.len() ==> (#[trigger] found@[k]) < i && at_position(
                    *all_items@[found@[k] as int],
                    position,
                    uri@,
                ),
            forall|k: int, l: int| 0 <= k < l < found@.len() ==> found@[k] < found@[l],
            forall|j: int|
                0 <= j < i && at_position(*#[trigger] all_items@[j], position, uri@)
                    ==> found@.contains(j as usize),
        decreases all_items.len() - i,
    {
        if is_at_position(all_items[i], position, uri) {
            let ghost before = found@;
            found.push(i);
            proof {
                assert(found@[found@.len() - 1] == i);
                assert forall|j: int|
                    0 <= j < i + 1 && at_position(
                        *#[trigger] all_items@[j],
                        position,
                        uri@,
                    ) implies found@.contains(j as usize) by {
                    if j < i {
                        let k = choose|k: int| 0 <= k < before.len() && before[k] == j as usize;
                        assert(found@[k] == j as usize);
                    }
                }
            }
        }
        i += 1;
    }
    found
}

impl SPItem {
    /// What stands for the item in a list of completions: what the
    /// kind of the item gives for it. `file_name` is the name of the file
    /// that declares the item, and `request_method` says whether the
    /// list is one of methods and properties. Of the kinds of item, enum
    /// members, methodmaps and properties give a completion; the others
    /// give none.
    pub open spec fn spec_completion(
        &self,
        file_name: Option<Seq<char>>,
        request_method: bool,
    ) -> Option<Completion> {
        match self {
            SPItem::EnumMember(item) => Some(item.spec_completion()),
            SPItem::Methodmap(item) => Some(
                Completion {
                    label: item.name@,
                    kind: CompletionKind::Class,
                    detail: file_name,
                    deprecated: None,
                },
            ),
            SPItem::Property(item) => if request_method {
                Some(item.spec_completion())
            } else {
                None
            },
            _ => None,
        }
    }

    /// What stands for the item in a list of completions.
    pub fn to_completion(&self, file_name: Option<String>, request_method: bool) -> (completion:
        Option<CompletionItem>)
        ensures
            completion is Some == self.spec_completion(
                match file_name {
                    Some(name) => Some(name@),
                    None => None,
                },
                request_method,
            ) is Some,
            completion is Some ==> Some(completion->Some_0@) == self.spec_completion(
                match file_name {
                    Some(name) => Some(name@),
                    None => None,
                },
                request_method,
            ),
    {
        match self {
            SPItem::EnumMember(item) => item.to_completion(),
            SPItem::Methodmap(item) => item.to_completion(file_name),
            SPItem::Property(item) => item.to_completion(request_method),
            _ => None,
        }
    }

    /// What is shown of the item on hover: for an enum member, a
    /// methodmap and a property the item as it is written in code, with
    /// its description; for the other kinds nothing.
    pub open spec fn spec_hover(&self) -> Option<HoverView> {
        match self {
            SPItem::EnumMember(item) => Some(
                HoverView { code: item.spec_formatted_text(), description: item.description@ },
            ),
            SPItem::Methodmap(item) => Some(
                HoverView {
                    code: crate::text::trimmed(item.spec_head()),
                    description: item.description@,
                },
            ),
            SPItem::Property(item) => Some(
                HoverView { code: item.spec_formatted_text(), description: item.description@ },
            ),
            _ => None,
        }
    }

    /// What is shown of the item on hover.
    pub fn to_hover(&self) -> (hover: Option<Hover>)
        ensures
            hover is Some == self.spec_hover() is Some,
            hover is Some ==> Some(hover->Some_0@) == self.spec_hover(),
    {
        match self {
            SPItem::EnumMember(item) => item.to_hover(),
            SPItem::Methodmap(item) => item.to_hover(),
            SPItem::Property(item) => item.to_hover(),
            _ => None,
        }
    }

    /// The place at which the item is declared, for an enum member, a
    /// methodmap and a property; for the other kinds nothing.
    pub fn to_definition(&self) -> (target: Option<Location>)
        ensures
            target is Some == (self is EnumMember || self is Methodmap || self is Property),
            target is Some ==> target->Some_0.uri@ == self.spec_uri() && target->Some_0.range
                == self.spec_range(),
    {
        match self {
            SPItem::EnumMember(item) => item.to_definition(),
            SPItem::Methodmap(item) => item.to_definition(),
            SPItem::Property(item) => item.to_definition(),
            _ => None,
        }
    }
}

} // verus!
