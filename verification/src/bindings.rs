use vstd::prelude::*;
use crate::config::{Config, ConfigModel};
use crate::function::{Function, FunctionModel};
use crate::item::{ItemContainer, ItemModel};
use crate::item_map::ItemMap;
use crate::model::views;
use crate::warning::{Warning, WarningModel};

verus! {

/// What is handed to the writer of a header: the items in the order in
/// which they are to be written, and beside them the constants, globals and
/// functions.
#[derive(Debug)]
pub struct Bindings {
    pub config: Config,
    /// The structs, for the writer to look up what a name stands for.
    pub struct_map: ItemMap,
    /// The typedefs, for the writer to look up what a name stands for.
    pub typedef_map: ItemMap,
    pub constants: Vec<ItemContainer>,
    pub globals: Vec<ItemContainer>,
    pub items: Vec<ItemContainer>,
    pub functions: Vec<Function>,
    pub source_files: Vec<String>,
    pub package_version: String,
    /// What was found wrong and passed over on the way.
    pub warnings: Vec<Warning>,
}

pub struct BindingsModel {
    pub config: ConfigModel,
    pub struct_map: Seq<ItemModel>,
    pub typedef_map: Seq<ItemModel>,
    pub constants: Seq<ItemModel>,
    pub globals: Seq<ItemModel>,
    pub items: Seq<ItemModel>,
    pub functions: Seq<FunctionModel>,
    pub source_files: Seq<Seq<char>>,
    pub package_version: Seq<char>,
    pub warnings: Seq<WarningModel>,
}

impl View for Bindings {
    type V = BindingsModel;

    open spec fn view(&self) -> BindingsModel {
        BindingsModel {
            config: self.config@,
            struct_map: self.struct_map@,
            typedef_map: self.typedef_map@,
            constants: views(self.constants@),
            globals: views(self.globals@),
            items: views(self.items@),
            functions: views(self.functions@),
            source_files: views(self.source_files@),
            package_version: self.package_version@,
            warnings: views(self.warnings@),
        }
    }
}

/// Why no header can be generated. The stages of the pipeline pass over what
/// they cannot handle and say so in the warnings; only a library that was
/// put together wrongly is refused.
#[derive(Debug, PartialEq, Eq)]
pub enum Error {
    /// The library cannot be turned into a header, for the reason given.
    Unsupported(String),
}

} // verus!
