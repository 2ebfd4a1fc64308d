//! The items that are no more than their fields.

use crate::range::Range;
use crate::spitem::{Description, Location, SPItem};
use vstd::prelude::*;

verus! {

/// A function.
#[derive(Debug)]
pub struct FunctionItem {
    pub name: String,
    /// The type that the function returns.
    pub type_: String,
    /// The range of the name.
    pub range: Range,
    /// The range of the whole function.
    pub full_range: Range,
    pub description: Description,
    /// The document in which the function is declared.
    pub uri: String,
    pub references: Vec<Location>,
    /// The methodmap or enum struct that the function belongs to.
    pub parent: Option<Box<SPItem>>,
    pub params: Vec<SPItem>,
}

/// A variable.
#[derive(Debug)]
pub struct VariableItem {
    pub name: String,
    pub type_: String,
    /// The range of the name.
    pub range: Range,
    pub description: Description,
    /// The document in which the variable is declared.
    pub uri: String,
    pub references: Vec<Location>,
    /// The function that the variable is local to.
    pub parent: Option<Box<SPItem>>,
}

/// An enum.
#[derive(Debug)]
pub struct EnumItem {
    pub name: String,
    /// The range of the name.
    pub range: Range,
    /// The range of the whole enum.
    pub full_range: Range,
    pub description: Description,
    /// The document in which the enum is declared.
    pub uri: String,
    pub references: Vec<Location>,
}

/// An enum struct.
#[derive(Debug)]
pub struct EnumStructItem {
    pub name: String,
    /// The range of the name.
    pub range: Range,
    /// The range of the whole enum struct.
    pub full_range: Range,
    pub description: Description,
    /// The document in which the enum struct is declared.
    pub uri: String,
    pub references: Vec<Location>,
}

/// A `#define`.
#[derive(Debug)]
pub struct DefineItem {
    pub name: String,
    /// The range of the name.
    pub range: Range,
    /// The range of the whole line.
    pub full_range: Range,
    pub description: Description,
    /// The document in which the macro is defined.
    pub uri: String,
    pub references: Vec<Location>,
}

/// An `#include`.
#[derive(Debug)]
pub struct IncludeItem {
    pub name: String,
    /// The range of the path.
    pub range: Range,
    /// The document that holds the directive.
    pub uri: String,
}

} // verus!
