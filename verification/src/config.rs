use vstd::prelude::*;
use crate::model::{clone_strings, clone_text, contains_text, list_contains, view_of, views};

verus! {

/// The dialect of the generated header.
#[derive(Clone, Copy, Debug, PartialEq, Eq, Structural)]
pub enum Language {
    Cxx,
    C,
    Cython,
}

/// How a declaration is written: with a tag, as a type alias, or both.
#[derive(Clone, Copy, Debug, PartialEq, Eq, Structural)]
pub enum Style {
    Both,
    Tag,
    Type,
}

impl Style {
    pub open spec fn spec_generate_tag(self) -> bool {
        self == Style::Both || self == Style::Tag
    }

    /// Whether references are written with their tag keyword.
    #[verifier::when_used_as_spec(spec_generate_tag)]
    pub fn generate_tag(self) -> (b: bool)
        ensures
            b == self.spec_generate_tag(),
    {
        match self {
            Style::Both | Style::Tag => true,
            Style::Type => false,
        }
    }
}

/// The order in which a category is emitted.
#[derive(Clone, Copy, Debug, PartialEq, Eq, Structural)]
pub enum SortKey {
    Name,
    Unsorted,
}

/// A category of items that can be switched on or off for export.
#[derive(Clone, Copy, Debug, PartialEq, Eq, Structural)]
pub enum ItemType {
    Constants,
    Globals,
    Enums,
    Structs,
    Unions,
    Typedefs,
    OpaqueItems,
    Functions,
}

/// A rule by which an identifier is rewritten.
#[derive(Debug, PartialEq, Eq)]
pub enum RenameRule {
    Keep,
    Prefix(String),
    Suffix(String),
}

pub enum RenameRuleModel {
    Keep,
    Prefix(Seq<char>),
    Suffix(Seq<char>),
}

impl View for RenameRule {
    type V = RenameRuleModel;

    open spec fn view(&self) -> RenameRuleModel {
        match self {
            RenameRule::Keep => RenameRuleModel::Keep,
            RenameRule::Prefix(p) => RenameRuleModel::Prefix(p@),
            RenameRule::Suffix(s) => RenameRuleModel::Suffix(s@),
        }
    }
}

impl Clone for RenameRule {
    fn clone(&self) -> (res: RenameRule)
        ensures
            res@ == self@,
    {
        match self {
            RenameRule::Keep => RenameRule::Keep,
            RenameRule::Prefix(p) => RenameRule::Prefix(p.clone()),
            RenameRule::Suffix(s) => RenameRule::Suffix(s.clone()),
        }
    }
}

/// `text` as `rule` rewrites it.
pub open spec fn apply_rule(rule: RenameRuleModel, text: Seq<char>) -> Seq<char> {
    match rule {
        RenameRuleModel::Keep => text,
        RenameRuleModel::Prefix(p) => p + text,
        RenameRuleModel::Suffix(s) => text + s,
    }
}

impl RenameRule {
    pub fn apply(&self, text: &str) -> (res: String)
        ensures
            res@ == apply_rule(self@, text@),
    {
        match self {
            RenameRule::Keep => text.to_owned(),
            RenameRule::Prefix(p) => {
                let mut out = p.clone();
                out.append(text);
                out
            },
            RenameRule::Suffix(s) => {
                let mut out = text.to_owned();
                out.append(s.as_str());
                out
            },
        }
    }

    /// This rule, unless it is the rule that rewrites nothing.
    pub fn not_keep(&self) -> (res: Option<&RenameRule>)
        ensures
            res is Some == !(self@ is Keep),
            res matches Some(r) ==> r@ == self@,
    {
        match self {
            RenameRule::Keep => None,
            _ => Some(self),
        }
    }
}

/// How the names of instantiations are formed.
#[derive(Clone, Copy, Debug, PartialEq, Eq, Structural)]
pub struct MangleConfig {
    pub remove_underscores: bool,
}

/// What is exported, and under which names.
#[derive(Debug, PartialEq, Eq)]
pub struct ExportConfig {
    /// Names of items to emit even where nothing refers to them.
    pub roots: Vec<String>,
    /// Names of items never to emit.
    pub exclude: Vec<String>,
    /// Pairs of an item's name and the name it is exported under.
    pub rename: Vec<(String, String)>,
    /// A prefix put before every exported name.
    pub prefix: Option<String>,
    /// Whether a name from `rename` is exempt from `prefix`.
    pub renaming_overrides_prefixing: bool,
    /// The categories to export; all of them where this is empty.
    pub item_types: Vec<ItemType>,
    pub mangle: MangleConfig,
}

pub struct ExportConfigModel {
    pub roots: Seq<Seq<char>>,
    pub exclude: Seq<Seq<char>>,
    pub rename: Seq<(Seq<char>, Seq<char>)>,
    pub prefix: Option<Seq<char>>,
    pub renaming_overrides_prefixing: bool,
    pub item_types: Seq<ItemType>,
    pub mangle: MangleConfig,
}

pub open spec fn rename_pairs(v: Seq<(String, String)>) -> Seq<(Seq<char>, Seq<char>)> {
    Seq::new(v.len(), |i: int| (v[i].0@, v[i].1@))
}

impl View for ExportConfig {
    type V = ExportConfigModel;

    open spec fn view(&self) -> ExportConfigModel {
        ExportConfigModel {
            roots: views(self.roots@),
            exclude: views(self.exclude@),
            rename: rename_pairs(self.rename@),
            prefix: view_of(self.prefix),
            renaming_overrides_prefixing: self.renaming_overrides_prefixing,
            item_types: self.item_types@,
            mangle: self.mangle,
        }
    }
}

/// The replacement of the first pair at or after `from` that renames `name`.
pub open spec fn first_rename(pairs: Seq<(Seq<char>, Seq<char>)>, name: Seq<char>, from: int)
    -> Option<Seq<char>>
    decreases pairs.len() - from,
{
    if from < 0 || from >= pairs.len() {
        None
    } else if pairs[from].0 == name {
        Some(pairs[from].1)
    } else {
        first_rename(pairs, name, from + 1)
    }
}

impl ExportConfigModel {
    /// Whether the category `ty` is exported.
    pub open spec fn should_generate(self, ty: ItemType) -> bool {
        self.item_types.len() == 0 || self.item_types.contains(ty)
    }

    /// Whether an item called `name` is barred from the output.
    pub open spec fn excludes(self, name: Seq<char>) -> bool {
        contains_text(self.exclude, name)
    }

    /// The name under which an item called `name` is exported.
    pub open spec fn exported_name(self, name: Seq<char>) -> Seq<char> {
        match first_rename(self.rename, name, 0) {
            Some(renamed) => if self.renaming_overrides_prefixing {
                renamed
            } else {
                match self.prefix {
                    Some(p) => p + renamed,
                    None => renamed,
                }
            },
            None => match self.prefix {
                Some(p) => p + name,
                None => name,
            },
        }
    }
}

impl Clone for ExportConfig {
    fn clone(&self) -> (res: ExportConfig)
        ensures
            res@ == self@,
    {
        let mut rename: Vec<(String, String)> = Vec::new();
        let mut i: usize = 0;
        while i < self.rename.len()
            invariant
                i <= self.rename.len(),
                rename.len() == i,
                forall|j: int|
                    0 <= j < i ==> rename[j].0@ == self.rename[j].0@ && rename[j].1@
                        == self.rename[j].1@,
            decreases self.rename.len() - i,
        {
            rename.push((self.rename[i].0.clone(), self.rename[i].1.clone()));
            i += 1;
        }
        assert(rename_pairs(rename@) =~= rename_pairs(self.rename@));
        let mut item_types: Vec<ItemType> = Vec::new();
        let mut k: usize = 0;
        while k < self.item_types.len()
            invariant
                k <= self.item_types.len(),
                item_types.len() == k,
                forall|j: int| 0 <= j < k ==> item_types[j] == self.item_types[j],
            decreases self.item_types.len() - k,
        {
            item_types.push(self.item_types[k]);
            k += 1;
        }
        assert(item_types@ =~= self.item_types@);
        ExportConfig {
            roots: clone_strings(&self.roots),
            exclude: clone_strings(&self.exclude),
            rename,
            prefix: clone_text(&self.prefix),
            renaming_overrides_prefixing: self.renaming_overrides_prefixing,
            item_types,
            mangle: self.mangle,
        }
    }
}

impl ExportConfig {
    pub fn should_generate(&self, ty: ItemType) -> (b: bool)
        ensures
            b == self@.should_generate(ty),
    {
        if self.item_types.len() == 0 {
            return true;
        }
        let mut i: usize = 0;
        while i < self.item_types.len()
            invariant
                i <= self.item_types.len(),
                forall|j: int| 0 <= j < i ==> self.item_types[j] != ty,
            decreases self.item_types.len() - i,
        {
            if self.item_types[i] == ty {
                return true;
            }
            i += 1;
        }
        false
    }

    pub fn is_excluded(&self, name: &str) -> (b: bool)
        ensures
            b == self@.excludes(name@),
    {
        list_contains(&self.exclude, name)
    }

    /// The name that `rename` gives for `name`, if it gives one.
    pub fn renamed(&self, name: &str) -> (res: Option<String>)
        ensures
            view_of(res) == first_rename(self@.rename, name@, 0),
    {
        let owned = name.to_owned();
        let mut i: usize = 0;
        while i < self.rename.len()
            invariant
                i <= self.rename.len(),
                owned@ == name@,
                first_rename(self@.rename, name@, 0) == first_rename(
                    self@.rename,
                    name@,
                    i as int,
                ),
            decreases self.rename.len() - i,
        {
            if self.rename[i].0 == owned {
                return Some(self.rename[i].1.clone());
            }
            i += 1;
        }
        None
    }

    /// Replaces `item_name` by the name it is exported under.
    pub fn rename(&self, item_name: &mut String)
        ensures
            final(item_name)@ == self@.exported_name(old(item_name)@),
    {
        let found = self.renamed(item_name.as_str());
        let overridden = found.is_some() && self.renaming_overrides_prefixing;
        if let Some(name) = found {
            *item_name = name;
        }
        if !overridden {
            if let Some(prefix) = &self.prefix {
                let mut out = prefix.clone();
                out.append(item_name.as_str());
                *item_name = out;
            }
        }
    }
}

/// Settings for functions.
#[derive(Debug, PartialEq, Eq)]
pub struct FunctionConfig {
    pub sort_by: Option<SortKey>,
    pub rename_args: RenameRule,
}

/// Settings for constants and globals.
#[derive(Clone, Copy, Debug, PartialEq, Eq, Structural)]
pub struct ConstantConfig {
    pub sort_by: Option<SortKey>,
}

/// The resolved configuration of one run.
#[derive(Debug, PartialEq, Eq)]
pub struct Config {
    pub language: Language,
    pub style: Style,
    pub sort_by: SortKey,
    pub function: FunctionConfig,
    pub constant: ConstantConfig,
    pub export: ExportConfig,
}

pub struct ConfigModel {
    pub language: Language,
    pub style: Style,
    pub sort_by: SortKey,
    pub function_sort_by: Option<SortKey>,
    pub rename_args: RenameRuleModel,
    pub constant_sort_by: Option<SortKey>,
    pub export: ExportConfigModel,
}

impl View for Config {
    type V = ConfigModel;

    open spec fn view(&self) -> ConfigModel {
        ConfigModel {
            language: self.language,
            style: self.style,
            sort_by: self.sort_by,
            function_sort_by: self.function.sort_by,
            rename_args: self.function.rename_args@,
            constant_sort_by: self.constant.sort_by,
            export: self.export@,
        }
    }
}

impl Clone for Config {
    fn clone(&self) -> (res: Config)
        ensures
            res@ == self@,
    {
        Config {
            language: self.language,
            style: self.style,
            sort_by: self.sort_by,
            function: FunctionConfig {
                sort_by: self.function.sort_by,
                rename_args: self.function.rename_args.clone(),
            },
            constant: self.constant,
            export: self.export.clone(),
        }
    }
}

} // verus!
