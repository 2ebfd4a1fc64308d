//! Macros and the table that holds them by name.

use crate::symbol::{deep, lemma_deep_push, Symbol, SymbolView};
use vstd::prelude::*;

verus! {

/// The number of parameters that a macro can have: `%0` to `%9`.
pub const MAX_PARAMS: usize = 10;

/// The mark of a parameter that a macro does not use.
pub const UNUSED_PARAM: i8 = -1;

/// A `#define`.
///
/// With `args` the macro is function-like: `args[n]` is the place, among
/// the arguments of a call, of the argument that `%n` stands for, or
/// [`UNUSED_PARAM`]. Without, it is object-like.
#[derive(Debug)]
pub struct Macro {
    pub args: Option<[i8; 10]>,
    pub body: Vec<Symbol>,
}

/// A macro as contracts see it.
pub struct MacroView {
    pub args: Option<Seq<i8>>,
    pub body: Seq<SymbolView>,
}

impl View for Macro {
    type V = MacroView;

    open spec fn view(&self) -> MacroView {
        MacroView {
            args: match self.args {
                Some(args) => Some(args@),
                None => None,
            },
            body: deep(self.body@),
        }
    }
}

/// A copy of a list of symbols.
pub fn clone_symbols(symbols: &Vec<Symbol>) -> (copy: Vec<Symbol>)
    ensures
        deep(copy@) == deep(symbols@),
{
    let mut copy: Vec<Symbol> = Vec::new();
    let mut i: usize = 0;
    while i < symbols.len()
        invariant
            i <= symbols.len(),
            deep(copy@) == deep(symbols@.take(i as int)),
        decreases symbols.len() - i,
    {
        let ghost before = copy@;
        copy.push(symbols[i].clone());
        proof {
            lemma_deep_push(before, copy@.last());
            assert(deep(symbols@.take(i + 1)) =~= deep(symbols@.take(i as int)).push(
                symbols@[i as int]@,
            ));
        }
        i += 1;
    }
    proof {
        assert(symbols@.take(symbols@.len() as int) =~= symbols@);
        assert(deep(symbols@.take(0)) =~= Seq::<SymbolView>::empty());
    }
    copy
}

impl Clone for Macro {
    fn clone(&self) -> (copy: Macro)
        ensures
            copy@ == self@,
    {
        Macro { args: self.args, body: clone_symbols(&self.body) }
    }
}

impl Macro {
    pub fn new(args: Option<[i8; 10]>, body: Vec<Symbol>) -> (new: Macro)
        ensures
            new.args == args,
            new.body == body,
    {
        Macro { args, body }
    }
}

/// `fxhash::FxHasher`: the hasher of the hash map that holds the macros.
#[verifier::external_type_specification]
#[verifier::external_body]
pub struct ExFxHasher(fxhash::FxHasher);

/// `std::hash::BuildHasherDefault`: what makes the hashers of that map.
#[verifier::external_type_specification]
#[verifier::external_body]
#[verifier::reject_recursive_types(H)]
pub struct ExBuildHasherDefault<H>(std::hash::BuildHasherDefault<H>);

/// The table without macros.
pub open spec fn no_macros() -> Map<Seq<char>, MacroView> {
    Map::empty()
}

/// The entries of a hash map of macros: each name with its macro.
pub uninterp spec fn table_entries(map: fxhash::FxHashMap<String, Macro>) -> Map<
    Seq<char>,
    MacroView,
>;

/// `FxHashMap::default`: a map without entries.
#[verifier::external_body]
fn fx_new() -> (fresh: fxhash::FxHashMap<String, Macro>)
    ensures
        table_entries(fresh) == no_macros(),
{
    fxhash::FxHashMap::default()
}

/// `HashMap::get`: the macro entered under `name`, if there is one.
#[verifier::external_body]
fn fx_get<'a>(map: &'a fxhash::FxHashMap<String, Macro>, name: &str) -> (found: Option<&'a Macro>)
    ensures
        found is Some == table_entries(*map).contains_key(name@),
        found is Some ==> found->Some_0@ == table_entries(*map)[name@],
{
    map.get(name)
}

/// `HashMap::insert`: enters `value` under `name`, in place of what was
/// entered under that name before.
#[verifier::external_body]
fn fx_insert(map: &mut fxhash::FxHashMap<String, Macro>, name: String, value: Macro)
    ensures
        table_entries(*final(map)) == table_entries(*old(map)).insert(name@, value@),
{
    map.insert(name, value);
}

/// `HashMap::extend`: enters every entry of `other`, each in place of
/// what was entered under its name before.
#[verifier::external_body]
fn fx_extend(map: &mut fxhash::FxHashMap<String, Macro>, other: fxhash::FxHashMap<String, Macro>)
    ensures
        table_entries(*final(map)) == table_entries(*old(map)).union_prefer_right(
            table_entries(other),
        ),
{
    map.extend(other);
}

/// `HashMap::clone`: a map with the same entries.
#[verifier::external_body]
fn fx_clone(map: &fxhash::FxHashMap<String, Macro>) -> (copy: fxhash::FxHashMap<String, Macro>)
    ensures
        table_entries(copy) == table_entries(*map),
{
    map.clone()
}

/// The macros that are defined, by name.
pub struct MacroTable {
    map: fxhash::FxHashMap<String, Macro>,
}

impl View for MacroTable {
    type V = Map<Seq<char>, MacroView>;

    closed spec fn view(&self) -> Map<Seq<char>, MacroView> {
        table_entries(self.map)
    }
}

/// The table that holds the entries of `local` and of `included`, and on
/// a name that both hold the entry of `included`.
pub open spec fn merged(
    local: Map<Seq<char>, MacroView>,
    included: Map<Seq<char>, MacroView>,
) -> Map<Seq<char>, MacroView> {
    local.union_prefer_right(included)
}

impl MacroTable {
    /// A table without macros.
    pub fn new() -> (table: MacroTable)
        ensures
            table@ == no_macros(),
    {
        MacroTable { map: fx_new() }
    }

    /// The macro of the given name, if it is defined.
    pub fn get(&self, name: &str) -> (found: Option<&Macro>)
        ensures
            found is Some == self@.contains_key(name@),
            found is Some ==> found->Some_0@ == self@[name@],
    {
        fx_get(&self.map, name)
    }

    /// Whether a macro of the given name is defined.
    pub fn contains(&self, name: &str) -> (defined: bool)
        ensures
            defined == self@.contains_key(name@),
    {
        fx_get(&self.map, name).is_some()
    }

    /// Defines a macro; an earlier macro of the same name is replaced.
    pub fn insert(&mut self, name: String, value: Macro)
        ensures
            final(self)@ == old(self)@.insert(name@, value@),
    {
        fx_insert(&mut self.map, name, value);
    }

    /// Takes over the macros of `included`; on a name that both tables
    /// hold, the macro of `included` replaces the one held before.
    pub fn merge(&mut self, included: MacroTable)
        ensures
            final(self)@ == merged(old(self)@, included@),
    {
        fx_extend(&mut self.map, included.map);
    }
}

impl Clone for MacroTable {
    fn clone(&self) -> (copy: MacroTable)
        ensures
            copy@ == self@,
    {
        MacroTable { map: fx_clone(&self.map) }
    }
}

/// Merging is monotone in the order of inclusion: after the macros of
/// `first` and then those of `second` have been merged into `local`, a
/// name holds the macro of `second` if `second` defines it, else that of
/// `first` if `first` defines it, else that of `local`; and no other
/// name is defined.
pub proof fn lemma_merge_prefers_later(
    local: Map<Seq<char>, MacroView>,
    first: Map<Seq<char>, MacroView>,
    second: Map<Seq<char>, MacroView>,
)
    ensures
        forall|name: Seq<char>| #[trigger]
            merged(merged(local, first), second).contains_key(name) <==> local.contains_key(name)
                || first.contains_key(name) || second.contains_key(name),
        forall|name: Seq<char>|
            second.contains_key(name) ==> #[trigger] merged(merged(local, first), second)[name]
                == second[name],
        forall|name: Seq<char>|
            !second.contains_key(name) && first.contains_key(name) ==> #[trigger] merged(
                merged(local, first),
                second,
            )[name] == first[name],
        forall|name: Seq<char>|
            !second.contains_key(name) && !first.contains_key(name) && local.contains_key(name)
                ==> #[trigger] merged(merged(local, first), second)[name] == local[name],
        merged(merged(local, first), second) == merged(local, merged(first, second)),
{
    assert(merged(merged(local, first), second) =~= merged(local, merged(first, second)));
}

} // verus!
