//! The values that the diff hands out, and the snapshot it works on.
use crate::name_map::{unique_keys, NameMap};
use crate::syntax::Declaration;
use vstd::prelude::*;

verus! {

/// The entries of one list of a change report: each entry is a name followed
/// by one text (added, deleted) or by the old and the new text (modified).
pub type Entries = Seq<Seq<Seq<char>>>;

/// Where a declaration stands in its file.
#[derive(Debug)]
pub struct SourceLocation {
    pub start_line: usize,
    pub start_col: usize,
    pub end_line: usize,
    pub end_col: usize,
    pub file_name: String,
}

/// A location with the file's name as a sequence of characters.
pub struct SourceLocationView {
    pub start_line: usize,
    pub start_col: usize,
    pub end_line: usize,
    pub end_col: usize,
    pub file_name: Seq<char>,
}

impl View for SourceLocation {
    type V = SourceLocationView;

    open spec fn view(&self) -> SourceLocationView {
        SourceLocationView {
            start_line: self.start_line,
            start_col: self.start_col,
            end_line: self.end_line,
            end_col: self.end_col,
            file_name: self.file_name@,
        }
    }
}

/// A literal found in a body: the tag of its type and its text.
#[derive(Debug)]
pub struct TypedLiteral {
    pub type_tag: String,
    pub value: String,
}

impl View for TypedLiteral {
    type V = (Seq<char>, Seq<char>);

    open spec fn view(&self) -> (Seq<char>, Seq<char>) {
        (self.type_tag@, self.value@)
    }
}

impl DeepView for TypedLiteral {
    type V = (Seq<char>, Seq<char>);

    open spec fn deep_view(&self) -> (Seq<char>, Seq<char>) {
        self@
    }
}

impl Clone for TypedLiteral {
    fn clone(&self) -> (r: Self)
        ensures
            r@ == self@,
    {
        TypedLiteral { type_tag: self.type_tag.clone(), value: self.value.clone() }
    }
}

/// What changed inside one function between two revisions.
#[derive(Debug)]
pub struct CalledFunctionChanges {
    pub added_functions: Vec<String>,
    pub removed_functions: Vec<String>,
    pub added_literals: Vec<TypedLiteral>,
    pub removed_literals: Vec<TypedLiteral>,
    pub old_function_src_loc: SourceLocation,
    pub new_function_src_loc: SourceLocation,
}

/// The changes inside one function, with every text as a sequence of
/// characters.
pub struct CalledFunctionChangesView {
    pub added_functions: Seq<Seq<char>>,
    pub removed_functions: Seq<Seq<char>>,
    pub added_literals: Seq<(Seq<char>, Seq<char>)>,
    pub removed_literals: Seq<(Seq<char>, Seq<char>)>,
    pub old_function_src_loc: SourceLocationView,
    pub new_function_src_loc: SourceLocationView,
}

impl View for CalledFunctionChanges {
    type V = CalledFunctionChangesView;

    open spec fn view(&self) -> CalledFunctionChangesView {
        CalledFunctionChangesView {
            added_functions: self.added_functions.deep_view(),
            removed_functions: self.removed_functions.deep_view(),
            added_literals: self.added_literals.deep_view(),
            removed_literals: self.removed_literals.deep_view(),
            old_function_src_loc: self.old_function_src_loc@,
            new_function_src_loc: self.new_function_src_loc@,
        }
    }
}

/// A named piece of code.
#[derive(Debug)]
pub struct NamedCode {
    pub name: String,
    pub code: String,
}

impl View for NamedCode {
    type V = (Seq<char>, Seq<char>);

    open spec fn view(&self) -> (Seq<char>, Seq<char>) {
        (self.name@, self.code@)
    }
}

/// A named piece of code before and after a change.
#[derive(Debug)]
pub struct ModifiedCode {
    pub name: String,
    pub old_code: String,
    pub new_code: String,
}

impl View for ModifiedCode {
    type V = (Seq<char>, Seq<char>, Seq<char>);

    open spec fn view(&self) -> (Seq<char>, Seq<char>, Seq<char>) {
        (self.name@, self.old_code@, self.new_code@)
    }
}

/// The change report of one file: for each of the four categories the
/// declarations that were added, modified and deleted.
#[derive(Debug)]
pub struct DetailedChanges {
    pub module_name: String,
    pub added_functions: Vec<Vec<String>>,
    pub modified_functions: Vec<Vec<String>>,
    pub deleted_functions: Vec<Vec<String>>,
    pub added_types: Vec<Vec<String>>,
    pub modified_types: Vec<Vec<String>>,
    pub deleted_types: Vec<Vec<String>>,
    pub added_interfaces: Vec<Vec<String>>,
    pub modified_interfaces: Vec<Vec<String>>,
    pub deleted_interfaces: Vec<Vec<String>>,
    pub added_methods: Vec<Vec<String>>,
    pub modified_methods: Vec<Vec<String>>,
    pub deleted_methods: Vec<Vec<String>>,
}

/// A change report with every text as a sequence of characters.
pub struct DetailedChangesView {
    pub module_name: Seq<char>,
    pub added_functions: Entries,
    pub modified_functions: Entries,
    pub deleted_functions: Entries,
    pub added_types: Entries,
    pub modified_types: Entries,
    pub deleted_types: Entries,
    pub added_interfaces: Entries,
    pub modified_interfaces: Entries,
    pub deleted_interfaces: Entries,
    pub added_methods: Entries,
    pub modified_methods: Entries,
    pub deleted_methods: Entries,
}

impl DetailedChangesView {
    /// Some list of the report has an entry.
    pub open spec fn has_changes(self) -> bool {
        ||| self.added_functions.len() > 0
        ||| self.modified_functions.len() > 0
        ||| self.deleted_functions.len() > 0
        ||| self.added_types.len() > 0
        ||| self.modified_types.len() > 0
        ||| self.deleted_types.len() > 0
        ||| self.added_interfaces.len() > 0
        ||| self.modified_interfaces.len() > 0
        ||| self.deleted_interfaces.len() > 0
        ||| self.added_methods.len() > 0
        ||| self.modified_methods.len() > 0
        ||| self.deleted_methods.len() > 0
    }

    /// Every entry of `entries` has exactly `n` parts.
    pub open spec fn each_has(entries: Entries, n: nat) -> bool {
        forall|i: int| 0 <= i < entries.len() ==> (#[trigger] entries[i]).len() == n
    }

    /// Added and deleted entries are a name and a text; modified entries are
    /// a name, the old text and the new text.
    pub open spec fn well_formed(self) -> bool {
        &&& Self::each_has(self.added_functions, 2)
        &&& Self::each_has(self.modified_functions, 3)
        &&& Self::each_has(self.deleted_functions, 2)
        &&& Self::each_has(self.added_types, 2)
        &&& Self::each_has(self.modified_types, 3)
        &&& Self::each_has(self.deleted_types, 2)
        &&& Self::each_has(self.added_interfaces, 2)
        &&& Self::each_has(self.modified_interfaces, 3)
        &&& Self::each_has(self.deleted_interfaces, 2)
        &&& Self::each_has(self.added_methods, 2)
        &&& Self::each_has(self.modified_methods, 3)
        &&& Self::each_has(self.deleted_methods, 2)
    }
}

impl View for DetailedChanges {
    type V = DetailedChangesView;

    open spec fn view(&self) -> DetailedChangesView {
        DetailedChangesView {
            module_name: self.module_name@,
            added_functions: self.added_functions.deep_view(),
            modified_functions: self.modified_functions.deep_view(),
            deleted_functions: self.deleted_functions.deep_view(),
            added_types: self.added_types.deep_view(),
            modified_types: self.modified_types.deep_view(),
            deleted_types: self.deleted_types.deep_view(),
            added_interfaces: self.added_interfaces.deep_view(),
            modified_interfaces: self.modified_interfaces.deep_view(),
            deleted_interfaces: self.deleted_interfaces.deep_view(),
            added_methods: self.added_methods.deep_view(),
            modified_methods: self.modified_methods.deep_view(),
            deleted_methods: self.deleted_methods.deep_view(),
        }
    }
}

/// Whether every entry of `entries` has `n` parts.
fn each_has_len(entries: &Vec<Vec<String>>, n: usize) -> (b: bool)
    ensures
        b == DetailedChangesView::each_has(entries.deep_view(), n as nat),
{
    let mut i: usize = 0;
    while i < entries.len()
        invariant
            i <= entries.len(),
            forall|j: int| 0 <= j < i ==> (#[trigger] entries.deep_view()[j]).len() == n,
        decreases entries.len() - i,
    {
        if entries[i].len() != n {
            assert(entries.deep_view()[i as int].len() != n);
            return false;
        }
        assert(entries.deep_view()[i as int].len() == n);
        i = i + 1;
    }
    true
}

impl DeepView for DetailedChanges {
    type V = DetailedChangesView;

    open spec fn deep_view(&self) -> DetailedChangesView {
        self@
    }
}

impl DetailedChanges {
    /// A report for `module_name` with every list empty.
    pub fn new(module_name: String) -> (changes: Self)
        ensures
            changes@.module_name == module_name@,
            !changes@.has_changes(),
            changes@.well_formed(),
    {
        DetailedChanges {
            module_name,
            added_functions: Vec::new(),
            modified_functions: Vec::new(),
            deleted_functions: Vec::new(),
            added_types: Vec::new(),
            modified_types: Vec::new(),
            deleted_types: Vec::new(),
            added_interfaces: Vec::new(),
            modified_interfaces: Vec::new(),
            deleted_interfaces: Vec::new(),
            added_methods: Vec::new(),
            modified_methods: Vec::new(),
            deleted_methods: Vec::new(),
        }
    }

    /// Whether every added and deleted entry is a name and a text, and
    /// every modified entry a name and two texts.
    pub fn is_well_formed(&self) -> (b: bool)
        ensures
            b == self@.well_formed(),
    {
        each_has_len(&self.added_functions, 2) && each_has_len(&self.modified_functions, 3)
            && each_has_len(&self.deleted_functions, 2) && each_has_len(&self.added_types, 2)
            && each_has_len(&self.modified_types, 3) && each_has_len(&self.deleted_types, 2)
            && each_has_len(&self.added_interfaces, 2) && each_has_len(
            &self.modified_interfaces,
            3,
        ) && each_has_len(&self.deleted_interfaces, 2) && each_has_len(&self.added_methods, 2)
            && each_has_len(&self.modified_methods, 3) && each_has_len(&self.deleted_methods, 2)
    }

    /// Whether any list of the report has an entry.
    pub fn has_changes(&self) -> (b: bool)
        ensures
            b == self@.has_changes(),
    {
        !self.added_functions.is_empty() || !self.modified_functions.is_empty()
            || !self.deleted_functions.is_empty() || !self.added_types.is_empty()
            || !self.modified_types.is_empty() || !self.deleted_types.is_empty()
            || !self.added_interfaces.is_empty() || !self.modified_interfaces.is_empty()
            || !self.deleted_interfaces.is_empty() || !self.added_methods.is_empty()
            || !self.modified_methods.is_empty() || !self.deleted_methods.is_empty()
    }
}

/// The snapshot of one file at one revision: its declarations by category
/// and name, with the file's path and text.
#[derive(Debug)]
pub struct FileASTData {
    pub functions: NameMap<Declaration>,
    /// Structs, enums and type aliases.
    pub types: NameMap<Declaration>,
    /// Traits.
    pub interfaces: NameMap<Declaration>,
    /// Functions of implementation blocks, named `Type.function`.
    pub methods: NameMap<Declaration>,
    pub file_content: String,
    pub file_path: String,
}

/// A snapshot with each category as the sequence of its names and
/// declarations, in the order in which the names were first declared.
pub struct FileASTDataView {
    pub functions: Seq<(Seq<char>, Declaration)>,
    pub types: Seq<(Seq<char>, Declaration)>,
    pub interfaces: Seq<(Seq<char>, Declaration)>,
    pub methods: Seq<(Seq<char>, Declaration)>,
    pub file_content: Seq<char>,
    pub file_path: Seq<char>,
}

impl FileASTDataView {
    /// The snapshot without declarations and without text of the file at
    /// `file_path`.
    pub open spec fn empty(file_path: Seq<char>) -> FileASTDataView {
        FileASTDataView {
            functions: Seq::empty(),
            types: Seq::empty(),
            interfaces: Seq::empty(),
            methods: Seq::empty(),
            file_content: Seq::empty(),
            file_path,
        }
    }

    /// Within each category no name is declared twice.
    pub open spec fn wf(self) -> bool {
        &&& unique_keys(self.functions)
        &&& unique_keys(self.types)
        &&& unique_keys(self.interfaces)
        &&& unique_keys(self.methods)
    }

    /// No declaration at all.
    pub open spec fn is_empty(self) -> bool {
        &&& self.functions.len() == 0
        &&& self.types.len() == 0
        &&& self.interfaces.len() == 0
        &&& self.methods.len() == 0
    }
}

impl View for FileASTData {
    type V = FileASTDataView;

    open spec fn view(&self) -> FileASTDataView {
        FileASTDataView {
            functions: self.functions@,
            types: self.types@,
            interfaces: self.interfaces@,
            methods: self.methods@,
            file_content: self.file_content@,
            file_path: self.file_path@,
        }
    }
}

impl FileASTData {
    /// Within each category no name is declared twice.
    pub open spec fn wf(&self) -> bool {
        self@.wf()
    }

    /// A snapshot of the file at `file_path` with text `file_content` and no
    /// declaration yet.
    pub fn new(file_path: String, file_content: String) -> (ast: Self)
        ensures
            ast@ == (FileASTDataView {
                file_content: file_content@,
                ..FileASTDataView::empty(file_path@)
            }),
            ast.wf(),
    {
        FileASTData {
            functions: NameMap::new(),
            types: NameMap::new(),
            interfaces: NameMap::new(),
            methods: NameMap::new(),
            file_content,
            file_path,
        }
    }

    /// The snapshot of a file that is absent or could not be read: no
    /// declaration and no text.
    pub fn empty(file_path: String) -> (ast: Self)
        ensures
            ast@ == FileASTDataView::empty(file_path@),
            ast.wf(),
    {
        FileASTData {
            functions: NameMap::new(),
            types: NameMap::new(),
            interfaces: NameMap::new(),
            methods: NameMap::new(),
            file_content: String::new(),
            file_path,
        }
    }
}

/// Collects the labels of the calls of an expression tree, in the order of
/// the walk.
pub struct FunctionCallVisitor {
    pub calls: Vec<String>,
}

/// Collects the literals of an expression tree, in the order of the walk.
pub struct LiteralVisitor {
    pub literals: Vec<TypedLiteral>,
}

} // verus!
