//! The per-module item graph: one item for each top-level construct of a module,
//! with the names it declares, reads and writes.
use vstd::prelude::*;

use crate::text::{name_set, views};

verus! {

/// Identifies an item of a module's graph (its position in insertion order).
#[derive(Clone, Copy, Debug, PartialEq, Eq, Hash)]
pub struct ItemId(pub usize);

/// What kind of construct an item stands for.
#[derive(Clone, Debug, PartialEq, Eq)]
pub enum ItemType {
    Import { module: String, alias: Option<String> },
    FromImport { module: String, names: Vec<(String, Option<String>)>, level: u32, is_star: bool },
    FunctionDef { name: String },
    ClassDef { name: String },
    Assignment { targets: Vec<String> },
    Expression,
    If { condition: String },
    Try,
    Other,
}

/// One item of a module: what it declares, reads and writes, now or later
/// (`eventual_*`: inside a function body, when the function runs).
#[derive(Clone, Debug, PartialEq, Eq)]
pub struct ItemData {
    pub item_type: ItemType,
    pub var_decls: Vec<String>,
    pub read_vars: Vec<String>,
    pub eventual_read_vars: Vec<String>,
    pub write_vars: Vec<String>,
    pub eventual_write_vars: Vec<String>,
    pub has_side_effects: bool,
    pub imported_names: Vec<String>,
    pub reexported_names: Vec<String>,
}

/// An import whose binding nothing in the module uses: the name it binds
/// and the module it comes from.
#[derive(Clone, Debug, PartialEq, Eq)]
pub struct UnusedImportInfo {
    pub name: String,
    pub module: String,
}

/// The items of one module, in the order they were added.
#[derive(Clone, Debug, PartialEq, Eq)]
pub struct ModuleDepGraph {
    pub items: Vec<ItemData>,
}

// ---------------------------------------------------------------------------
// Mathematical view
// ---------------------------------------------------------------------------

/// The kind of an item, over plain character sequences.
#[verifier::ext_equal]
pub ghost enum ItemTypeView {
    Import { module: Seq<char>, alias: Option<Seq<char>> },
    FromImport {
        module: Seq<char>,
        names: Seq<(Seq<char>, Option<Seq<char>>)>,
        level: u32,
        is_star: bool,
    },
    FunctionDef { name: Seq<char> },
    ClassDef { name: Seq<char> },
    Assignment { targets: Seq<Seq<char>> },
    Expression,
    If { condition: Seq<char> },
    Try,
    Other,
}

/// An item, with its name collections taken as sets.
#[verifier::ext_equal]
pub ghost struct ItemView {
    pub item_type: ItemTypeView,
    pub var_decls: Set<Seq<char>>,
    pub read_vars: Set<Seq<char>>,
    pub eventual_read_vars: Set<Seq<char>>,
    pub write_vars: Set<Seq<char>>,
    pub eventual_write_vars: Set<Seq<char>>,
    pub has_side_effects: bool,
    pub imported_names: Set<Seq<char>>,
    pub reexported_names: Set<Seq<char>>,
}

pub open spec fn opt_view(o: Option<String>) -> Option<Seq<char>> {
    match o {
        Some(s) => Some(s@),
        None => None,
    }
}

pub open spec fn pair_views(v: Seq<(String, Option<String>)>) -> Seq<(Seq<char>, Option<Seq<char>>)> {
    v.map_values(|p: (String, Option<String>)| (p.0@, opt_view(p.1)))
}

pub open spec fn item_type_view(t: ItemType) -> ItemTypeView {
    match t {
        ItemType::Import { module, alias } => ItemTypeView::Import {
            module: module@,
            alias: opt_view(alias),
        },
        ItemType::FromImport { module, names, level, is_star } => ItemTypeView::FromImport {
            module: module@,
            names: pair_views(names@),
            level,
            is_star,
        },
        ItemType::FunctionDef { name } => ItemTypeView::FunctionDef { name: name@ },
        ItemType::ClassDef { name } => ItemTypeView::ClassDef { name: name@ },
        ItemType::Assignment { targets } => ItemTypeView::Assignment { targets: views(targets@) },
        ItemType::Expression => ItemTypeView::Expression,
        ItemType::If { condition } => ItemTypeView::If { condition: condition@ },
        ItemType::Try => ItemTypeView::Try,
        ItemType::Other => ItemTypeView::Other,
    }
}

pub open spec fn item_view(d: ItemData) -> ItemView {
    ItemView {
        item_type: item_type_view(d.item_type),
        var_decls: name_set(d.var_decls@),
        read_vars: name_set(d.read_vars@),
        eventual_read_vars: name_set(d.eventual_read_vars@),
        write_vars: name_set(d.write_vars@),
        eventual_write_vars: name_set(d.eventual_write_vars@),
        has_side_effects: d.has_side_effects,
        imported_names: name_set(d.imported_names@),
        reexported_names: name_set(d.reexported_names@),
    }
}

pub open spec fn item_views(items: Seq<ItemData>) -> Seq<ItemView> {
    items.map_values(|d: ItemData| item_view(d))
}

impl ModuleDepGraph {
    /// An empty graph.
    pub fn new() -> (g: Self)
        ensures
            g.items@.len() == 0,
    {
        ModuleDepGraph { items: Vec::new() }
    }

    /// Appends an item and returns its id.
    pub fn add_item(&mut self, item: ItemData) -> (id: ItemId)
        ensures
            final(self).items@ == old(self).items@.push(item),
            id.0 == old(self).items@.len(),
    {
        let id = ItemId(self.items.len());
        self.items.push(item);
        id
    }
}

} // verus!
