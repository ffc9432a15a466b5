//! The dependency correlator: which sources of the packages in use relate to
//! the errors in captured compiler output.

use crate::engine::{
    pattern_captures, pattern_error, regex_captures, regex_compile_error, regex_valid,
};
use crate::error::{ScanError, ScanErrorModel};
use crate::paths::{
    chain_has_marker, has_suffix_after_stem, is_rust_project, is_rust_source, is_used_crate_dir,
    SOURCE_SUFFIX,
};
use crate::relevant::{with_reason, with_reasons, RelevantFile, RelevantFiles, RelevantModel};
use crate::render::{BodyModel, FileBody, BINARY_PLACEHOLDER};
use crate::text::{
    chars_of, contains, contains_chars, distinct, insert_unique, is_substring,
    lemma_push_unique_distinct, lines, lines_of, lowercase, lowercased, prefix_before, push_unique,
    take_before,
};
use vstd::pervasive::unreached;
use vstd::prelude::*;

verus! {

/// An error location: `--> `, a path that starts at the root and ends in
/// `.rs`, a line and a column.
pub const DIRECT_PATTERN: &'static str = r"--> ([/\\].*?\.rs):(\d+):(\d+)";

/// A method that a type lacks.
pub const METHOD_PATTERN: &'static str = r"method not found in `([^`]+)`";

/// An error that comes out of a macro.
pub const MACRO_PATTERN: &'static str = r"this error originates in the macro `([^`]+)`";

/// Two types that should have been one.
pub const MISMATCH_PATTERN: &'static str = r"expected `([^`]+)`, found `([^`]+)`";

/// A line of the dependency tree: the drawing of the levels above it
/// (vertical bars and spaces), a branch, the package's name, `v` and its
/// version.
pub const TREE_PATTERN: &'static str =
    "^[\\s\u{2502}]*[\u{251c}\u{2514}]\u{2500}\u{2500} (.+) v(\\d+\\.\\d+\\.\\d+)";

/// What the path of a downloaded package holds.
pub const REGISTRY_MARK: &'static str = ".cargo/registry";

/// The reason of a file that an error location names.
pub const DIRECT_REASON: &'static str = "directly referenced";

/// What opens the list of dependency files.
pub const DEPENDENCY_HEADER: &'static str = "\n=== Relevant Dependency Files ===\n\n";

/// Group `g` of a match; `None` if the match has no such group or the group
/// took no part.
pub open spec fn group(found: Seq<Option<Seq<char>>>, g: int) -> Option<Seq<char>> {
    if 0 <= g < found.len() {
        found[g]
    } else {
        None
    }
}

/// `acc` and, match by match, what group `g` holds, each text once. With
/// `cut`, a text ends before its first `<`.
pub open spec fn names_from(
    acc: Seq<Seq<char>>,
    caps: Seq<Seq<Option<Seq<char>>>>,
    g: int,
    cut: bool,
) -> Seq<Seq<char>>
    decreases caps.len(),
{
    if caps.len() == 0 {
        acc
    } else {
        let before = names_from(acc, caps.drop_last(), g, cut);
        match group(caps.last(), g) {
            Some(name) => push_unique(
                before,
                if cut {
                    prefix_before(name, '<')
                } else {
                    name
                },
            ),
            None => before,
        }
    }
}

/// The paths in group 1 of the matches that lie in the package cache, each
/// once.
pub open spec fn registry_paths(caps: Seq<Seq<Option<Seq<char>>>>) -> Seq<Seq<char>>
    decreases caps.len(),
{
    if caps.len() == 0 {
        Seq::empty()
    } else {
        let before = registry_paths(caps.drop_last());
        match group(caps.last(), 1) {
            Some(path) if is_substring(REGISTRY_MARK@, path) => push_unique(before, path),
            _ => before,
        }
    }
}

/// What captured output refers to.
#[derive(Debug, Clone, PartialEq, Eq)]
pub struct ErrorReferences {
    /// Paths in the package cache that error locations name.
    pub direct: Vec<String>,
    /// Names of types that errors speak of, without type arguments.
    pub types: Vec<String>,
    /// Names of macros that errors come out of.
    pub macros: Vec<String>,
}

/// `ErrorReferences` as plain values.
pub struct ReferencesModel {
    pub direct: Seq<Seq<char>>,
    pub types: Seq<Seq<char>>,
    pub macros: Seq<Seq<char>>,
}

impl View for ErrorReferences {
    type V = ReferencesModel;

    open spec fn view(&self) -> ReferencesModel {
        ReferencesModel {
            direct: self.direct.deep_view(),
            types: self.types.deep_view(),
            macros: self.macros.deep_view(),
        }
    }
}

/// The references that the matches of the four error patterns give.
pub open spec fn references_in(
    direct: Seq<Seq<Option<Seq<char>>>>,
    method: Seq<Seq<Option<Seq<char>>>>,
    macros: Seq<Seq<Option<Seq<char>>>>,
    mismatch: Seq<Seq<Option<Seq<char>>>>,
) -> ReferencesModel {
    ReferencesModel {
        direct: registry_paths(direct),
        types: names_from(
            names_from(names_from(Seq::empty(), method, 1, true), mismatch, 1, true),
            mismatch,
            2,
            true,
        ),
        macros: names_from(Seq::empty(), macros, 1, false),
    }
}

/// What `output` refers to.
pub open spec fn references_of(output: Seq<char>) -> ReferencesModel {
    references_in(
        regex_captures(DIRECT_PATTERN@, output),
        regex_captures(METHOD_PATTERN@, output),
        regex_captures(MACRO_PATTERN@, output),
        regex_captures(MISMATCH_PATTERN@, output),
    )
}

/// The error of the first of the four error patterns that the engine
/// refuses; `None` if it takes them all.
pub open spec fn extraction_failure() -> Option<Seq<char>> {
    if !regex_valid(DIRECT_PATTERN@) {
        regex_compile_error(DIRECT_PATTERN@)
    } else if !regex_valid(METHOD_PATTERN@) {
        regex_compile_error(METHOD_PATTERN@)
    } else if !regex_valid(MACRO_PATTERN@) {
        regex_compile_error(MACRO_PATTERN@)
    } else {
        regex_compile_error(MISMATCH_PATTERN@)
    }
}

/// The package named by a match of the tree pattern: name, a hyphen and
/// version.
pub open spec fn crate_version(found: Seq<Option<Seq<char>>>) -> Option<Seq<char>> {
    match (group(found, 1), group(found, 2)) {
        (Some(name), Some(version)) => Some(name + seq!['-'] + version),
        _ => None,
    }
}

/// The package that a line of the dependency tree names, if it names one.
pub open spec fn line_crate_version(line: Seq<char>) -> Option<Seq<char>> {
    let caps = regex_captures(TREE_PATTERN@, line);
    if caps.len() > 0 {
        crate_version(caps[0])
    } else {
        None
    }
}

/// The packages that the lines of a dependency tree name, each once.
pub open spec fn crate_versions(tree_lines: Seq<Seq<char>>) -> Seq<Seq<char>>
    decreases tree_lines.len(),
{
    if tree_lines.len() == 0 {
        Seq::empty()
    } else {
        let before = crate_versions(tree_lines.drop_last());
        match line_crate_version(tree_lines.last()) {
            Some(name) => push_unique(before, name),
            None => before,
        }
    }
}

/// The reason of a file that speaks of a type.
pub open spec fn type_reason(name: Seq<char>) -> Seq<char> {
    "type "@ + name
}

/// The reason of a file that defines a macro.
pub open spec fn macro_reason(name: Seq<char>) -> Seq<char> {
    "macro "@ + name
}

/// The name of a type with its form in lower case.
#[derive(Debug, Clone, PartialEq, Eq)]
pub struct LoweredName {
    pub name: String,
    pub lowered: String,
}

/// A `LoweredName` as plain values.
pub struct LoweredModel {
    pub name: Seq<char>,
    pub lowered: Seq<char>,
}

impl View for LoweredName {
    type V = LoweredModel;

    open spec fn view(&self) -> LoweredModel {
        LoweredModel { name: self.name@, lowered: self.lowered@ }
    }
}

impl DeepView for LoweredName {
    type V = LoweredModel;

    open spec fn deep_view(&self) -> LoweredModel {
        self@
    }
}

/// Whether the name or the content of a file, both in lower case, holds the
/// lower-case form of the name of a type.
pub open spec fn mentions_type(
    lower_name: Seq<char>,
    lower_content: Seq<char>,
    lowered: Seq<char>,
) -> bool {
    is_substring(lowered, lower_name) || is_substring(lowered, lower_content)
}

/// Whether the content of a file holds the definition of the macro, letter
/// for letter.
pub open spec fn defines_macro(content: Seq<char>, macro_name: Seq<char>) -> bool {
    is_substring("macro_rules! "@ + macro_name, content)
}

/// A reason for each of `types` that the file speaks of, in their order.
pub open spec fn type_reasons(
    lower_name: Seq<char>,
    lower_content: Seq<char>,
    types: Seq<LoweredModel>,
) -> Seq<Seq<char>>
    decreases types.len(),
{
    if types.len() == 0 {
        Seq::empty()
    } else {
        let before = type_reasons(lower_name, lower_content, types.drop_last());
        if mentions_type(lower_name, lower_content, types.last().lowered) {
            before.push(type_reason(types.last().name))
        } else {
            before
        }
    }
}

/// A reason for each of `macros` that the file defines, in their order.
pub open spec fn macro_reasons(content: Seq<char>, macros: Seq<Seq<char>>) -> Seq<Seq<char>>
    decreases macros.len(),
{
    if macros.len() == 0 {
        Seq::empty()
    } else {
        let before = macro_reasons(content, macros.drop_last());
        if defines_macro(content, macros.last()) {
            before.push(macro_reason(macros.last()))
        } else {
            before
        }
    }
}

/// Why a file is relevant, given its name and content in lower case and
/// each type with its lower-case form: its types first, then its macros.
pub open spec fn reasons_given(
    lower_name: Seq<char>,
    lower_content: Seq<char>,
    content: Seq<char>,
    types: Seq<LoweredModel>,
    macros: Seq<Seq<char>>,
) -> Seq<Seq<char>> {
    type_reasons(lower_name, lower_content, types) + macro_reasons(content, macros)
}

/// Each of `types` with its form in lower case.
pub open spec fn lowered_names(types: Seq<Seq<char>>) -> Seq<LoweredModel> {
    Seq::new(types.len(), |i: int| LoweredModel { name: types[i], lowered: lowercased(types[i]) })
}

/// Why a file is relevant: a type counts if its name stands in the name or
/// the content of the file, whatever the case of the letters; a macro
/// counts if the content holds its definition letter for letter.
pub open spec fn reasons_of(
    file_name: Seq<char>,
    content: Seq<char>,
    types: Seq<Seq<char>>,
    macros: Seq<Seq<char>>,
) -> Seq<Seq<char>> {
    reasons_given(
        lowercased(file_name),
        lowercased(content),
        content,
        lowered_names(types),
        macros,
    )
}

/// A file found in the package cache.
#[derive(Debug, Clone, PartialEq, Eq)]
pub struct DependencyFile {
    /// The name of the package directory that holds it.
    pub crate_dir: String,
    pub path: String,
    pub file_name: String,
    /// Its text; empty if it could not be read.
    pub content: String,
}

/// A `DependencyFile` as plain values.
pub struct DependencyFileModel {
    pub crate_dir: Seq<char>,
    pub path: Seq<char>,
    pub file_name: Seq<char>,
    pub content: Seq<char>,
}

impl View for DependencyFile {
    type V = DependencyFileModel;

    open spec fn view(&self) -> DependencyFileModel {
        DependencyFileModel {
            crate_dir: self.crate_dir@,
            path: self.path@,
            file_name: self.file_name@,
            content: self.content@,
        }
    }
}

impl DeepView for DependencyFile {
    type V = DependencyFileModel;

    open spec fn deep_view(&self) -> DependencyFileModel {
        self@
    }
}

/// Whether a file of the cache is looked at: a source file in the directory
/// of a package in use.
pub open spec fn is_candidate(file: DependencyFileModel, used: Seq<Seq<char>>) -> bool {
    used.contains(file.crate_dir) && has_suffix_after_stem(file.file_name, SOURCE_SUFFIX@)
}

/// `files` after each path of `direct` was recorded as directly referenced.
pub open spec fn with_direct(files: Seq<RelevantModel>, direct: Seq<Seq<char>>) -> Seq<
    RelevantModel,
>
    decreases direct.len(),
{
    if direct.len() == 0 {
        files
    } else {
        with_reason(with_direct(files, direct.drop_last()), direct.last(), DIRECT_REASON@)
    }
}

/// `files` after each candidate among `found` was recorded with its
/// reasons.
pub open spec fn with_matches(
    files: Seq<RelevantModel>,
    refs: ReferencesModel,
    used: Seq<Seq<char>>,
    found: Seq<DependencyFileModel>,
) -> Seq<RelevantModel>
    decreases found.len(),
{
    if found.len() == 0 {
        files
    } else {
        let before = with_matches(files, refs, used, found.drop_last());
        let file = found.last();
        if is_candidate(file, used) {
            with_reasons(
                before,
                file.path,
                reasons_of(file.file_name, file.content, refs.types, refs.macros),
            )
        } else {
            before
        }
    }
}

/// The relevant files: those directly referenced, then the candidates that
/// speak of a type or define a macro.
pub open spec fn relevant_among(
    refs: ReferencesModel,
    used: Seq<Seq<char>>,
    found: Seq<DependencyFileModel>,
) -> Seq<RelevantModel> {
    with_matches(with_direct(Seq::empty(), refs.direct), refs, used, found)
}

/// What was found out about the project and its package cache.
#[derive(Debug, Clone, PartialEq, Eq)]
pub struct DependencyScan {
    /// For the scanned directory and each one above it, nearest first:
    /// whether it holds the project marker.
    pub marker_chain: Vec<bool>,
    /// The dependency tree as the package manager prints it; `None` if it
    /// could not be had.
    pub tree_output: Option<String>,
    /// Whether the package cache is there.
    pub registry_found: bool,
    /// The files of the package cache.
    pub files: Vec<DependencyFile>,
}

/// A `DependencyScan` as plain values.
pub struct DependencyScanModel {
    pub marker_chain: Seq<bool>,
    pub tree_output: Option<Seq<char>>,
    pub registry_found: bool,
    pub files: Seq<DependencyFileModel>,
}

impl View for DependencyScan {
    type V = DependencyScanModel;

    open spec fn view(&self) -> DependencyScanModel {
        DependencyScanModel {
            marker_chain: self.marker_chain@,
            tree_output: self.tree_output.deep_view(),
            registry_found: self.registry_found,
            files: self.files.deep_view(),
        }
    }
}

/// Whether the correlator looks at the package cache at all: the scanned
/// directory belongs to a project, its dependency tree is known and the
/// cache is there.
pub open spec fn correlator_active(scan: DependencyScanModel) -> bool {
    chain_has_marker(scan.marker_chain) && scan.tree_output is Some && scan.registry_found
}

/// The files that the correlator reports for `output`.
pub open spec fn correlation(output: Seq<char>, scan: DependencyScanModel) -> Seq<RelevantModel> {
    if correlator_active(scan) {
        relevant_among(
            references_of(output),
            crate_versions(lines_of(scan.tree_output->0)),
            scan.files,
        )
    } else {
        Seq::empty()
    }
}

/// The error of the first pattern that the correlator needs and the engine
/// refuses.
pub open spec fn correlation_failure(scan: DependencyScanModel) -> Option<Seq<char>> {
    if extraction_failure() is Some {
        extraction_failure()
    } else if chain_has_marker(scan.marker_chain) && scan.tree_output is Some {
        regex_compile_error(TREE_PATTERN@)
    } else {
        None
    }
}

/// A relevant file and what reading it gave.
#[derive(Debug, Clone, PartialEq, Eq)]
pub struct DependencyListing {
    pub file: RelevantFile,
    pub body: FileBody,
}

/// A `DependencyListing` as plain values.
pub struct ListingModel {
    pub file: RelevantModel,
    pub body: BodyModel,
}

impl View for DependencyListing {
    type V = ListingModel;

    open spec fn view(&self) -> ListingModel {
        ListingModel { file: self.file@, body: self.body@ }
    }
}

impl DeepView for DependencyListing {
    type V = ListingModel;

    open spec fn deep_view(&self) -> ListingModel {
        self@
    }
}

/// The reasons as a list, one item to a line.
pub open spec fn reason_list(reasons: Seq<Seq<char>>) -> Seq<char>
    decreases reasons.len(),
{
    if reasons.len() == 0 {
        Seq::empty()
    } else if reasons.len() == 1 {
        reasons[0]
    } else {
        reason_list(reasons.drop_last()) + "\n  - "@ + reasons.last()
    }
}

/// What stands between the fences of a dependency file: its text, the
/// placeholder if it is not text, or a note that it could not be read.
pub open spec fn listing_body(body: BodyModel) -> Seq<char> {
    match body {
        BodyModel::Text(text) => text,
        BodyModel::Binary => BINARY_PLACEHOLDER@,
        BodyModel::Unreadable(detail) => "(Failed to read file: "@ + detail + ")"@,
    }
}

/// The block of one dependency file: its path, its reasons, and its body
/// between fences.
pub open spec fn dependency_block(listing: ListingModel) -> Seq<char> {
    "File: "@ + listing.file.path + "\n"@ + "  - "@ + reason_list(listing.file.reasons) + "\n"@
        + "```\n"@ + listing_body(listing.body) + "\n"@ + "```\n\n"@
}

/// The blocks of the dependency files, in order.
pub open spec fn dependency_blocks(listings: Seq<ListingModel>) -> Seq<char>
    decreases listings.len(),
{
    if listings.len() == 0 {
        Seq::empty()
    } else {
        dependency_blocks(listings.drop_last()) + dependency_block(listings.last())
    }
}

/// The warning for a dependency file that could not be read.
pub open spec fn listing_warning(path: Seq<char>, detail: Seq<char>) -> Seq<char> {
    "Warning: Dependency file "@ + path + " could not be read: "@ + detail
}

/// A warning for each dependency file that could not be read, in order. A
/// file that is not text gives none.
pub open spec fn listing_warnings(listings: Seq<ListingModel>) -> Seq<Seq<char>>
    decreases listings.len(),
{
    if listings.len() == 0 {
        Seq::empty()
    } else {
        let before = listing_warnings(listings.drop_last());
        match listings.last().body {
            BodyModel::Unreadable(detail) => before.push(
                listing_warning(listings.last().file.path, detail),
            ),
            _ => before,
        }
    }
}

/// The section on dependency files: nothing if there is none, else the
/// header and a block for each.
pub open spec fn dependency_section(listings: Seq<ListingModel>) -> Seq<char> {
    if listings.len() == 0 {
        Seq::empty()
    } else {
        DEPENDENCY_HEADER@ + dependency_blocks(listings)
    }
}

/// Names are kept as a set: collecting into a list without repetitions
/// gives a list without repetitions.
pub proof fn lemma_names_from_distinct(
    acc: Seq<Seq<char>>,
    caps: Seq<Seq<Option<Seq<char>>>>,
    g: int,
    cut: bool,
)
    requires
        distinct(acc),
    ensures
        distinct(names_from(acc, caps, g, cut)),
    decreases caps.len(),
{
    if caps.len() > 0 {
        lemma_names_from_distinct(acc, caps.drop_last(), g, cut);
        let before = names_from(acc, caps.drop_last(), g, cut);
        match group(caps.last(), g) {
            Some(name) => {
                lemma_push_unique_distinct(
                    before,
                    if cut {
                        prefix_before(name, '<')
                    } else {
                        name
                    },
                );
            },
            None => {},
        }
    }
}

/// No path of the package cache is listed twice.
pub proof fn lemma_registry_paths_distinct(caps: Seq<Seq<Option<Seq<char>>>>)
    ensures
        distinct(registry_paths(caps)),
    decreases caps.len(),
{
    if caps.len() > 0 {
        lemma_registry_paths_distinct(caps.drop_last());
        match group(caps.last(), 1) {
            Some(path) => {
                lemma_push_unique_distinct(registry_paths(caps.drop_last()), path);
            },
            None => {},
        }
    }
}

/// What output refers to is three sets: no path, type or macro is listed
/// twice.
pub proof fn lemma_references_distinct(
    direct: Seq<Seq<Option<Seq<char>>>>,
    method: Seq<Seq<Option<Seq<char>>>>,
    macros: Seq<Seq<Option<Seq<char>>>>,
    mismatch: Seq<Seq<Option<Seq<char>>>>,
)
    ensures
        distinct(references_in(direct, method, macros, mismatch).direct),
        distinct(references_in(direct, method, macros, mismatch).types),
        distinct(references_in(direct, method, macros, mismatch).macros),
{
    let none = Seq::<Seq<char>>::empty();
    lemma_registry_paths_distinct(direct);
    lemma_names_from_distinct(none, method, 1, true);
    lemma_names_from_distinct(names_from(none, method, 1, true), mismatch, 1, true);
    lemma_names_from_distinct(
        names_from(names_from(none, method, 1, true), mismatch, 1, true),
        mismatch,
        2,
        true,
    );
    lemma_names_from_distinct(none, macros, 1, false);
}

/// No package in use is listed twice.
pub proof fn lemma_crate_versions_distinct(tree_lines: Seq<Seq<char>>)
    ensures
        distinct(crate_versions(tree_lines)),
    decreases tree_lines.len(),
{
    if tree_lines.len() > 0 {
        lemma_crate_versions_distinct(tree_lines.drop_last());
        match line_crate_version(tree_lines.last()) {
            Some(name) => {
                lemma_push_unique_distinct(crate_versions(tree_lines.drop_last()), name);
            },
            None => {},
        }
    }
}

/// A dependency file that is not text is never written as it is: its
/// block holds the placeholder between the fences, and it gives no
/// warning.
pub proof fn lemma_binary_dependency_shown_as_placeholder(file: RelevantModel)
    ensures
        listing_body(BodyModel::Binary) == BINARY_PLACEHOLDER@,
        dependency_block(ListingModel { file, body: BodyModel::Binary }) == "File: "@ + file.path
            + "\n"@ + "  - "@ + reason_list(file.reasons) + "\n"@ + "```\n"@ + BINARY_PLACEHOLDER@
            + "\n"@ + "```\n\n"@,
        listing_warnings(seq![ListingModel { file, body: BodyModel::Binary }]) == Seq::<
            Seq<char>,
        >::empty(),
{
    let one = seq![ListingModel { file, body: BodyModel::Binary }];
    assert(one.drop_last() =~= Seq::<ListingModel>::empty());
    assert(listing_warnings(one.drop_last()) == Seq::<Seq<char>>::empty());
}

/// Outside a project the correlator reports nothing: without the project
/// marker in the directory chain no file is found relevant, and the section
/// on dependency files is empty.
pub proof fn lemma_no_marker_no_output(
    output: Seq<char>,
    scan: DependencyScanModel,
    listings: Seq<ListingModel>,
)
    requires
        !chain_has_marker(scan.marker_chain),
        listings.len() == correlation(output, scan).len(),
    ensures
        correlation(output, scan) == Seq::<RelevantModel>::empty(),
        dependency_section(listings) == Seq::<char>::empty(),
{
}

fn group_of(found: &Vec<Option<String>>, g: usize) -> (r: Option<&String>)
    ensures
        match r {
            Some(text) => group(found.deep_view(), g as int) == Some(text@),
            None => group(found.deep_view(), g as int) is None,
        },
{
    if g < found.len() {
        match &found[g] {
            Some(text) => Some(text),
            None => None,
        }
    } else {
        None
    }
}

/// Adds to `acc`, match by match, what group `g` holds. With `cut`, a text
/// ends before its first `<`.
pub fn collect_names(acc: &mut Vec<String>, caps: &Vec<Vec<Option<String>>>, g: usize, cut: bool)
    ensures
        final(acc).deep_view() == names_from(old(acc).deep_view(), caps.deep_view(), g as int, cut),
{
    let ghost start = acc.deep_view();
    let mut i: usize = 0;
    while i < caps.len()
        invariant
            i <= caps.len(),
            acc.deep_view() == names_from(start, caps.deep_view().take(i as int), g as int, cut),
        decreases caps.len() - i,
    {
        proof {
            let next = caps.deep_view().take(i + 1);
            assert(next.drop_last() =~= caps.deep_view().take(i as int));
            assert(next.last() == caps[i as int].deep_view());
        }
        match group_of(&caps[i], g) {
            Some(name) => {
                if cut {
                    insert_unique(acc, take_before(name.as_str(), '<'));
                } else {
                    insert_unique(acc, name.as_str());
                }
            },
            None => {},
        }
        i += 1;
    }
    proof {
        assert(caps.deep_view().take(caps.len() as int) =~= caps.deep_view());
    }
}

/// The paths in group 1 of the matches that lie in the package cache.
pub fn collect_registry_paths(caps: &Vec<Vec<Option<String>>>) -> (paths: Vec<String>)
    ensures
        paths.deep_view() == registry_paths(caps.deep_view()),
{
    let mut paths: Vec<String> = Vec::new();
    assert(paths.deep_view() =~= Seq::<Seq<char>>::empty());
    let mut i: usize = 0;
    while i < caps.len()
        invariant
            i <= caps.len(),
            paths.deep_view() == registry_paths(caps.deep_view().take(i as int)),
        decreases caps.len() - i,
    {
        proof {
            let next = caps.deep_view().take(i + 1);
            assert(next.drop_last() =~= caps.deep_view().take(i as int));
            assert(next.last() == caps[i as int].deep_view());
        }
        match group_of(&caps[i], 1) {
            Some(path) => {
                if contains(path.as_str(), REGISTRY_MARK) {
                    insert_unique(&mut paths, path.as_str());
                }
            },
            None => {},
        }
        i += 1;
    }
    proof {
        assert(caps.deep_view().take(caps.len() as int) =~= caps.deep_view());
    }
    paths
}

/// The references that the matches of the four error patterns give.
pub fn references_from(
    direct: &Vec<Vec<Option<String>>>,
    method: &Vec<Vec<Option<String>>>,
    macros: &Vec<Vec<Option<String>>>,
    mismatch: &Vec<Vec<Option<String>>>,
) -> (refs: ErrorReferences)
    ensures
        refs@ == references_in(
            direct.deep_view(),
            method.deep_view(),
            macros.deep_view(),
            mismatch.deep_view(),
        ),
{
    let direct_paths = collect_registry_paths(direct);
    let mut types: Vec<String> = Vec::new();
    assert(types.deep_view() =~= Seq::<Seq<char>>::empty());
    collect_names(&mut types, method, 1, true);
    collect_names(&mut types, mismatch, 1, true);
    collect_names(&mut types, mismatch, 2, true);
    let mut macro_names: Vec<String> = Vec::new();
    assert(macro_names.deep_view() =~= Seq::<Seq<char>>::empty());
    collect_names(&mut macro_names, macros, 1, false);
    ErrorReferences { direct: direct_paths, types, macros: macro_names }
}

fn captures_of(pattern: &str, text: &str) -> (r: Result<Vec<Vec<Option<String>>>, ScanError>)
    ensures
        match r {
            Ok(caps) => regex_valid(pattern@) && caps.deep_view() == regex_captures(
                pattern@,
                text@,
            ),
            Err(e) => regex_compile_error(pattern@) matches Some(detail) && e@
                == (ScanErrorModel::BrokenPattern { detail }),
        },
{
    match pattern_captures(pattern, text) {
        Some(caps) => Ok(caps),
        None => match pattern_error(pattern) {
            Some(detail) => Err(ScanError::BrokenPattern { detail }),
            None => unreached(),
        },
    }
}

/// What captured output refers to: the files that error locations name,
/// and the types and macros that error messages speak of. It fails only if
/// the engine refuses one of the error patterns.
pub fn extract_references(test_output: &str) -> (r: Result<ErrorReferences, ScanError>)
    ensures
        match r {
            Ok(refs) => extraction_failure() is None && refs@ == references_of(test_output@),
            Err(e) => extraction_failure() matches Some(detail) && e@
                == (ScanErrorModel::BrokenPattern { detail }),
        },
{
    let direct = match captures_of(DIRECT_PATTERN, test_output) {
        Ok(caps) => caps,
        Err(e) => {
            return Err(e);
        },
    };
    let method = match captures_of(METHOD_PATTERN, test_output) {
        Ok(caps) => caps,
        Err(e) => {
            return Err(e);
        },
    };
    let macros = match captures_of(MACRO_PATTERN, test_output) {
        Ok(caps) => caps,
        Err(e) => {
            return Err(e);
        },
    };
    let mismatch = match captures_of(MISMATCH_PATTERN, test_output) {
        Ok(caps) => caps,
        Err(e) => {
            return Err(e);
        },
    };
    Ok(references_from(&direct, &method, &macros, &mismatch))
}

/// The package named by a match of the tree pattern.
pub fn crate_version_of(found: &Vec<Option<String>>) -> (r: Option<String>)
    ensures
        r.deep_view() == crate_version(found.deep_view()),
{
    match group_of(found, 1) {
        Some(name) => match group_of(found, 2) {
            Some(version) => {
                let mut text = name.clone();
                text.append("-");
                text.append(version.as_str());
                proof {
                    reveal_strlit("-");
                    assert("-"@ =~= seq!['-']);
                }
                Some(text)
            },
            None => None,
        },
        None => None,
    }
}

/// The packages in use, each as name, hyphen and version, from the
/// dependency tree as the package manager prints it. It fails only if the
/// engine refuses the tree pattern.
pub fn get_used_crate_versions(tree_output: &str) -> (r: Result<Vec<String>, ScanError>)
    ensures
        match r {
            Ok(used) => regex_valid(TREE_PATTERN@) && used.deep_view() == crate_versions(
                lines_of(tree_output@),
            ),
            Err(e) => regex_compile_error(TREE_PATTERN@) matches Some(detail) && e@
                == (ScanErrorModel::BrokenPattern { detail }),
        },
{
    match pattern_error(TREE_PATTERN) {
        Some(detail) => {
            return Err(ScanError::BrokenPattern { detail });
        },
        None => {},
    }
    let tree_lines = lines(tree_output);
    let mut used: Vec<String> = Vec::new();
    assert(used.deep_view() =~= Seq::<Seq<char>>::empty());
    let mut i: usize = 0;
    while i < tree_lines.len()
        invariant
            i <= tree_lines.len(),
            regex_valid(TREE_PATTERN@),
            used.deep_view() == crate_versions(tree_lines.deep_view().take(i as int)),
        decreases tree_lines.len() - i,
    {
        proof {
            let next = tree_lines.deep_view().take(i + 1);
            assert(next.drop_last() =~= tree_lines.deep_view().take(i as int));
            assert(next.last() == tree_lines[i as int]@);
        }
        let caps = match pattern_captures(TREE_PATTERN, tree_lines[i].as_str()) {
            Some(caps) => caps,
            None => unreached(),
        };
        if caps.len() > 0 {
            assert(caps.deep_view()[0] == caps[0].deep_view());
            match crate_version_of(&caps[0]) {
                Some(name) => {
                    insert_unique(&mut used, name.as_str());
                },
                None => {},
            }
        }
        i += 1;
    }
    proof {
        assert(tree_lines.deep_view().take(tree_lines.len() as int) =~= tree_lines.deep_view());
    }
    Ok(used)
}

/// Why a file is relevant, given its name and content in lower case and
/// each type with its lower-case form: a reason for each type whose
/// lower-case form stands in the lower-case name or content, then one for
/// each macro whose definition stands in the content as written.
pub fn reasons_from(
    lower_name: &str,
    lower_content: &str,
    content: &str,
    types: &Vec<LoweredName>,
    macros: &Vec<String>,
) -> (reasons: Vec<String>)
    ensures
        reasons.deep_view() == reasons_given(
            lower_name@,
            lower_content@,
            content@,
            types.deep_view(),
            macros.deep_view(),
        ),
{
    let name_chars = chars_of(lower_name);
    let lower_chars = chars_of(lower_content);
    let content_chars = chars_of(content);
    let mut reasons: Vec<String> = Vec::new();
    assert(reasons.deep_view() =~= Seq::<Seq<char>>::empty());
    let mut i: usize = 0;
    while i < types.len()
        invariant
            i <= types.len(),
            name_chars@ == lower_name@,
            lower_chars@ == lower_content@,
            reasons.deep_view() == type_reasons(
                lower_name@,
                lower_content@,
                types.deep_view().take(i as int),
            ),
        decreases types.len() - i,
    {
        proof {
            let next = types.deep_view().take(i + 1);
            assert(next.drop_last() =~= types.deep_view().take(i as int));
            assert(next.last() == types[i as int]@);
        }
        let needle_chars = chars_of(types[i].lowered.as_str());
        if contains_chars(&name_chars, &needle_chars) || contains_chars(
            &lower_chars,
            &needle_chars,
        ) {
            let mut reason = String::new();
            reason.append("type ");
            reason.append(types[i].name.as_str());
            let ghost before = reasons.deep_view();
            reasons.push(reason);
            assert(reasons.deep_view() =~= before.push(type_reason(types[i as int]@.name)));
        }
        i += 1;
    }
    proof {
        assert(types.deep_view().take(types.len() as int) =~= types.deep_view());
    }
    let ghost from_types = reasons.deep_view();
    let mut j: usize = 0;
    assert(from_types + Seq::<Seq<char>>::empty() =~= from_types);
    while j < macros.len()
        invariant
            j <= macros.len(),
            content_chars@ == content@,
            reasons.deep_view() == from_types + macro_reasons(
                content@,
                macros.deep_view().take(j as int),
            ),
        decreases macros.len() - j,
    {
        proof {
            let next = macros.deep_view().take(j + 1);
            assert(next.drop_last() =~= macros.deep_view().take(j as int));
            assert(next.last() == macros[j as int]@);
        }
        let mut needle = String::new();
        needle.append("macro_rules! ");
        needle.append(macros[j].as_str());
        let needle_chars = chars_of(needle.as_str());
        if contains_chars(&content_chars, &needle_chars) {
            let mut reason = String::new();
            reason.append("macro ");
            reason.append(macros[j].as_str());
            let ghost before = reasons.deep_view();
            reasons.push(reason);
            assert(reasons.deep_view() =~= before.push(macro_reason(macros[j as int]@)));
            assert(before.push(macro_reason(macros[j as int]@)) =~= from_types + macro_reasons(
                content@,
                macros.deep_view().take(j as int),
            ).push(macro_reason(macros[j as int]@)));
        }
        j += 1;
    }
    proof {
        assert(macros.deep_view().take(macros.len() as int) =~= macros.deep_view());
    }
    reasons
}

/// Why a file is relevant: a reason for each type that its name or content
/// speaks of, whatever the case of the letters, then one for each macro
/// that it defines.
pub fn match_reasons(
    file_name: &str,
    content: &str,
    types: &Vec<String>,
    macros: &Vec<String>,
) -> (reasons: Vec<String>)
    ensures
        reasons.deep_view() == reasons_of(
            file_name@,
            content@,
            types.deep_view(),
            macros.deep_view(),
        ),
{
    let lower_name = lowercase(file_name);
    let lower_content = lowercase(content);
    let mut lowered: Vec<LoweredName> = Vec::new();
    let mut i: usize = 0;
    while i < types.len()
        invariant
            i <= types.len(),
            lowered.len() == i,
            forall|k: int|
                0 <= k < i ==> #[trigger] lowered[k]@ == (LoweredModel {
                    name: types[k]@,
                    lowered: lowercased(types[k]@),
                }),
        decreases types.len() - i,
    {
        let name = types[i].clone();
        let lower = lowercase(types[i].as_str());
        lowered.push(LoweredName { name, lowered: lower });
        i += 1;
    }
    assert(lowered.deep_view() =~= lowered_names(types.deep_view()));
    reasons_from(lower_name.as_str(), lower_content.as_str(), content, &lowered, macros)
}

/// The relevant files among those found: the directly referenced ones,
/// then each source file of a package in use that speaks of a type or
/// defines a macro.
pub fn collect_relevant(
    refs: &ErrorReferences,
    used: &Vec<String>,
    found: &Vec<DependencyFile>,
) -> (files: RelevantFiles)
    ensures
        files@ == relevant_among(refs@, used.deep_view(), found.deep_view()),
{
    let mut files = RelevantFiles::new();
    let mut i: usize = 0;
    while i < refs.direct.len()
        invariant
            i <= refs.direct.len(),
            files@ == with_direct(Seq::empty(), refs.direct.deep_view().take(i as int)),
        decreases refs.direct.len() - i,
    {
        proof {
            let next = refs.direct.deep_view().take(i + 1);
            assert(next.drop_last() =~= refs.direct.deep_view().take(i as int));
            assert(next.last() == refs.direct[i as int]@);
        }
        files.add_reason(refs.direct[i].as_str(), DIRECT_REASON);
        i += 1;
    }
    proof {
        assert(refs.direct.deep_view().take(refs.direct.len() as int) =~= refs.direct.deep_view());
    }
    let ghost direct = files@;
    let mut j: usize = 0;
    while j < found.len()
        invariant
            j <= found.len(),
            files@ == with_matches(
                direct,
                refs@,
                used.deep_view(),
                found.deep_view().take(j as int),
            ),
        decreases found.len() - j,
    {
        proof {
            let next = found.deep_view().take(j + 1);
            assert(next.drop_last() =~= found.deep_view().take(j as int));
            assert(next.last() == found[j as int]@);
        }
        let file = &found[j];
        if is_used_crate_dir(file.crate_dir.as_str(), used) && is_rust_source(
            file.file_name.as_str(),
        ) {
            let reasons = match_reasons(
                file.file_name.as_str(),
                file.content.as_str(),
                &refs.types,
                &refs.macros,
            );
            let ghost before = files@;
            let mut k: usize = 0;
            while k < reasons.len()
                invariant
                    k <= reasons.len(),
                    files@ == with_reasons(before, file.path@, reasons.deep_view().take(k as int)),
                decreases reasons.len() - k,
            {
                proof {
                    let next = reasons.deep_view().take(k + 1);
                    assert(next.drop_last() =~= reasons.deep_view().take(k as int));
                    assert(next.last() == reasons[k as int]@);
                }
                files.add_reason(file.path.as_str(), reasons[k].as_str());
                k += 1;
            }
            proof {
                assert(reasons.deep_view().take(reasons.len() as int) =~= reasons.deep_view());
            }
        }
        j += 1;
    }
    proof {
        assert(found.deep_view().take(found.len() as int) =~= found.deep_view());
    }
    files
}

/// The dependency files that relate to the errors in `test_output`. There
/// are none unless the scanned directory belongs to a project, its
/// dependency tree is known and the package cache is there. It fails only
/// if the engine refuses one of the library's patterns.
pub fn relevant_dependency_files(test_output: &str, scan: &DependencyScan) -> (r: Result<
    RelevantFiles,
    ScanError,
>)
    ensures
        match r {
            Ok(files) => correlation_failure(scan@) is None && files@ == correlation(
                test_output@,
                scan@,
            ),
            Err(e) => correlation_failure(scan@) matches Some(detail) && e@
                == (ScanErrorModel::BrokenPattern { detail }),
        },
        r is Ok && !chain_has_marker(scan.marker_chain@) ==> r->Ok_0@.len() == 0,
{
    let refs = match extract_references(test_output) {
        Ok(refs) => refs,
        Err(e) => {
            return Err(e);
        },
    };
    if !is_rust_project(&scan.marker_chain) {
        return Ok(RelevantFiles::new());
    }
    let used = match &scan.tree_output {
        Some(tree) => match get_used_crate_versions(tree.as_str()) {
            Ok(used) => used,
            Err(e) => {
                return Err(e);
            },
        },
        None => {
            return Ok(RelevantFiles::new());
        },
    };
    if !scan.registry_found {
        return Ok(RelevantFiles::new());
    }
    Ok(collect_relevant(&refs, &used, &scan.files))
}

/// Writes one dependency file: its path, its reasons, and its text between
/// fences. In place of the text stands the placeholder if the file is not
/// text, or the error if the file could not be read.
pub fn print_dependency_file(listing: &DependencyListing, writer: &mut String)
    ensures
        final(writer)@ == old(writer)@ + dependency_block(listing@),
{
    let ghost start = writer@;
    writer.append("File: ");
    writer.append(listing.file.path.as_str());
    writer.append("\n");
    writer.append("  - ");
    let ghost head = writer@;
    let reasons = &listing.file.reasons;
    let mut i: usize = 0;
    assert(head + Seq::<char>::empty() =~= head);
    assert(reasons.deep_view().take(0) =~= Seq::<Seq<char>>::empty());
    while i < reasons.len()
        invariant
            i <= reasons.len(),
            writer@ == head + reason_list(reasons.deep_view().take(i as int)),
        decreases reasons.len() - i,
    {
        proof {
            let next = reasons.deep_view().take(i + 1);
            assert(next.drop_last() =~= reasons.deep_view().take(i as int));
            assert(next.last() == reasons[i as int]@);
            if i == 0 {
                assert(next[0] == reasons[0]@);
            }
        }
        if i > 0 {
            writer.append("\n  - ");
        }
        writer.append(reasons[i].as_str());
        i += 1;
    }
    proof {
        assert(reasons.deep_view().take(reasons.len() as int) =~= reasons.deep_view());
    }
    writer.append("\n");
    writer.append("```\n");
    match &listing.body {
        FileBody::Text(text) => {
            writer.append(text.as_str());
        },
        FileBody::Binary => {
            writer.append(BINARY_PLACEHOLDER);
        },
        FileBody::Unreadable(detail) => {
            writer.append("(Failed to read file: ");
            writer.append(detail.as_str());
            writer.append(")");
        },
    }
    writer.append("\n");
    writer.append("```\n\n");
    assert(writer@ =~= start + dependency_block(listing@));
}

/// Writes the section on dependency files: nothing if there is none, else
/// the header and a block for each file. Returns a warning for each file
/// that could not be read; its block says so in place of the text. A file
/// that is not text gives no warning: its block holds the placeholder.
pub fn print_relevant_dependency_files(
    listings: &Vec<DependencyListing>,
    writer: &mut String,
) -> (warnings: Vec<String>)
    ensures
        final(writer)@ == old(writer)@ + dependency_section(listings.deep_view()),
        warnings.deep_view() == listing_warnings(listings.deep_view()),
{
    let ghost start = writer@;
    let mut warnings: Vec<String> = Vec::new();
    assert(warnings.deep_view() =~= Seq::<Seq<char>>::empty());
    if listings.len() == 0 {
        assert(start + Seq::<char>::empty() =~= start);
        return warnings;
    }
    writer.append(DEPENDENCY_HEADER);
    let ghost head = writer@;
    assert(head + Seq::<char>::empty() =~= head);
    let mut i: usize = 0;
    while i < listings.len()
        invariant
            i <= listings.len(),
            writer@ == head + dependency_blocks(listings.deep_view().take(i as int)),
            warnings.deep_view() == listing_warnings(listings.deep_view().take(i as int)),
        decreases listings.len() - i,
    {
        proof {
            let next = listings.deep_view().take(i + 1);
            assert(next.drop_last() =~= listings.deep_view().take(i as int));
            assert(next.last() == listings[i as int]@);
        }
        print_dependency_file(&listings[i], writer);
        match &listings[i].body {
            FileBody::Unreadable(detail) => {
                let mut warning = String::new();
                warning.append("Warning: Dependency file ");
                warning.append(listings[i].file.path.as_str());
                warning.append(" could not be read: ");
                warning.append(detail.as_str());
                let ghost earlier = warnings.deep_view();
                warnings.push(warning);
                assert(warnings.deep_view() =~= earlier.push(
                    listing_warning(listings[i as int]@.file.path, detail@),
                ));
            },
            _ => {},
        }
        proof {
            let before = dependency_blocks(listings.deep_view().take(i as int));
            assert((head + before) + dependency_block(listings[i as int]@) =~= head + (before
                + dependency_block(listings[i as int]@)));
        }
        i += 1;
    }
    proof {
        assert(listings.deep_view().take(listings.len() as int) =~= listings.deep_view());
        assert(head + dependency_blocks(listings.deep_view()) =~= start + (DEPENDENCY_HEADER@
            + dependency_blocks(listings.deep_view())));
    }
    warnings
}

} // verus!
