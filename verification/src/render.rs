//! The project files: which of them are shown, and how each is written.

use crate::engine::{regex_compile_error, regex_is_match};
use crate::error::{ScanError, ScanErrorModel};
use crate::grep::{compile_grep, grep_failure, grep_source, GrepFilter};
use crate::paths::{has_component, has_git_component, within_depth, GIT_DIR};
use crate::text::{contains, is_substring};
use vstd::prelude::*;

verus! {

/// What stands for the content of a file that is not text.
pub const BINARY_PLACEHOLDER: &'static str = "[binary file]";

/// What opens the list of project files.
pub const CONTEXT_HEADER: &'static str = "\n=== Project Context ===\n\n";

/// What the error of a read holds when the file is not valid text.
pub const INVALID_TEXT_MARK: &'static str = "stream did not contain valid UTF-8";

/// What reading a file gave.
#[derive(Debug, Clone, PartialEq, Eq)]
pub enum FileBody {
    /// The file is text.
    Text(String),
    /// The file is not valid text.
    Binary,
    /// The file could not be read; the error's words.
    Unreadable(String),
}

/// A `FileBody` as plain values.
pub enum BodyModel {
    Text(Seq<char>),
    Binary,
    Unreadable(Seq<char>),
}

impl View for FileBody {
    type V = BodyModel;

    open spec fn view(&self) -> BodyModel {
        match self {
            FileBody::Text(text) => BodyModel::Text(text@),
            FileBody::Binary => BodyModel::Binary,
            FileBody::Unreadable(detail) => BodyModel::Unreadable(detail@),
        }
    }
}

/// A regular file that the walk came by.
#[derive(Debug, Clone, PartialEq, Eq)]
pub struct ScannedFile {
    pub path: String,
    /// The number of directories between the root and the file; 0 for a
    /// file directly in the root.
    pub depth: usize,
    pub body: FileBody,
}

/// A `ScannedFile` as plain values.
pub struct ScannedModel {
    pub path: Seq<char>,
    pub depth: usize,
    pub body: BodyModel,
}

impl View for ScannedFile {
    type V = ScannedModel;

    open spec fn view(&self) -> ScannedModel {
        ScannedModel { path: self.path@, depth: self.depth, body: self.body@ }
    }
}

impl DeepView for ScannedFile {
    type V = ScannedModel;

    open spec fn deep_view(&self) -> ScannedModel {
        self@
    }
}

/// A path that was asked for by name.
#[derive(Debug, Clone, PartialEq, Eq)]
pub struct IncludedFile {
    pub path: String,
    /// Whether the path exists and is a regular file.
    pub is_file: bool,
    /// What reading it gave; of no account unless `is_file`.
    pub body: FileBody,
}

/// An `IncludedFile` as plain values.
pub struct IncludedModel {
    pub path: Seq<char>,
    pub is_file: bool,
    pub body: BodyModel,
}

impl View for IncludedFile {
    type V = IncludedModel;

    open spec fn view(&self) -> IncludedModel {
        IncludedModel { path: self.path@, is_file: self.is_file, body: self.body@ }
    }
}

impl DeepView for IncludedFile {
    type V = IncludedModel;

    open spec fn deep_view(&self) -> IncludedModel {
        self@
    }
}

/// What a step writes, and the error that ends the run there, if any.
pub struct Rendered {
    pub text: Seq<char>,
    pub failure: Option<ScanErrorModel>,
}

/// What the whole scan writes, the warnings it gives, and the error that
/// ends the run, if any.
pub struct ProjectOutput {
    pub text: Seq<char>,
    pub warnings: Seq<Seq<char>>,
    pub failure: Option<ScanErrorModel>,
}

/// What a read gave, from its result: the text, or the words of the error.
pub open spec fn body_of(read: Result<Seq<char>, Seq<char>>) -> BodyModel {
    match read {
        Ok(text) => BodyModel::Text(text),
        Err(detail) => if is_substring(INVALID_TEXT_MARK@, detail) {
            BodyModel::Binary
        } else {
            BodyModel::Unreadable(detail)
        },
    }
}

/// The lines that open the block of a file.
pub open spec fn block_head(path: Seq<char>) -> Seq<char> {
    "File: "@ + path + "\n"@ + "```\n"@
}

/// The block of a file: a line with its path, then its content between
/// fences, then an empty line.
pub open spec fn file_block(path: Seq<char>, content: Seq<char>) -> Seq<char> {
    block_head(path) + content + "\n"@ + "```\n"@ + "\n"@
}

/// A step that writes nothing.
pub open spec fn nothing() -> Rendered {
    Rendered { text: Seq::empty(), failure: None }
}

/// Writing one file: its block, with the placeholder in place of content
/// that is not text. A file that could not be read leaves the opening of
/// its block and ends the run.
pub open spec fn print_of(path: Seq<char>, body: BodyModel) -> Rendered {
    match body {
        BodyModel::Text(text) => Rendered { text: file_block(path, text), failure: None },
        BodyModel::Binary => Rendered {
            text: file_block(path, BINARY_PLACEHOLDER@),
            failure: None,
        },
        BodyModel::Unreadable(detail) => Rendered {
            text: block_head(path),
            failure: Some(ScanErrorModel::ReadFailed { path, detail }),
        },
    }
}

/// Whether the walk takes the file at all: it is within the depth limit and
/// not below a version-control directory.
pub open spec fn in_scope(file: ScannedModel, max_depth: Option<usize>) -> bool {
    within_depth(file.depth, max_depth) && !has_component(file.path, GIT_DIR@)
}

/// Whether the filter `source` lets the file through: its content is text
/// that the filter matches.
pub open spec fn matching(file: ScannedModel, source: Seq<char>) -> bool {
    file.body matches BodyModel::Text(text) && regex_is_match(source, text)
}

/// What the filter says of a file: nothing without a filter, else whether
/// the file is text that the filter matches.
pub open spec fn verdict_of(body: BodyModel, grep: Option<Seq<char>>) -> Option<bool> {
    match grep {
        None => None,
        Some(source) => Some(body matches BodyModel::Text(text) && regex_is_match(source, text)),
    }
}

/// What the walk does with one file, given what the filter says of it.
/// Without a filter each file in scope is written. With a filter a file of
/// text is written if the filter matched; one that is not text is passed
/// over, and one that cannot be read ends the run.
pub open spec fn judged_step(
    file: ScannedModel,
    verdict: Option<bool>,
    max_depth: Option<usize>,
) -> Rendered {
    if !in_scope(file, max_depth) {
        nothing()
    } else {
        match verdict {
            None => print_of(file.path, file.body),
            Some(matched) => match file.body {
                BodyModel::Text(text) => if matched {
                    print_of(file.path, file.body)
                } else {
                    nothing()
                },
                BodyModel::Binary => nothing(),
                BodyModel::Unreadable(detail) => Rendered {
                    text: Seq::empty(),
                    failure: Some(ScanErrorModel::ReadFailed { path: file.path, detail }),
                },
            },
        }
    }
}

/// What the walk does with one file. Without a filter each file in scope is
/// written. With a filter a file is written if its content matches; one
/// that is not text is passed over, and one that cannot be read ends the
/// run.
pub open spec fn file_step(
    file: ScannedModel,
    grep: Option<Seq<char>>,
    max_depth: Option<usize>,
) -> Rendered {
    judged_step(file, verdict_of(file.body, grep), max_depth)
}

/// One step after what came before it: nothing more once the run has
/// ended.
pub open spec fn step_after(before: Rendered, step: Rendered) -> Rendered {
    if before.failure is Some {
        before
    } else {
        Rendered { text: before.text + step.text, failure: step.failure }
    }
}

/// What the walk writes for `files`, in their order.
pub open spec fn files_output(
    files: Seq<ScannedModel>,
    grep: Option<Seq<char>>,
    max_depth: Option<usize>,
) -> Rendered
    decreases files.len(),
{
    if files.len() == 0 {
        nothing()
    } else {
        step_after(
            files_output(files.drop_last(), grep, max_depth),
            file_step(files.last(), grep, max_depth),
        )
    }
}

/// The warning for a path that was asked for and is no regular file.
pub open spec fn include_warning(path: Seq<char>) -> Seq<char> {
    "Warning: Included path "@ + path + " does not exist or is not a file"@
}

/// One included path after what came before it: a regular file is written
/// whatever its content, any other path gives a warning.
pub open spec fn include_then(before: ProjectOutput, file: IncludedModel) -> ProjectOutput {
    if before.failure is Some {
        before
    } else if !file.is_file {
        ProjectOutput {
            text: before.text,
            warnings: before.warnings.push(include_warning(file.path)),
            failure: None,
        }
    } else {
        let step = print_of(file.path, file.body);
        ProjectOutput {
            text: before.text + step.text,
            warnings: before.warnings,
            failure: step.failure,
        }
    }
}

/// What is written and warned for the included paths after `before`, in
/// their order.
pub open spec fn includes_output(
    before: ProjectOutput,
    includes: Seq<IncludedModel>,
) -> ProjectOutput
    decreases includes.len(),
{
    if includes.len() == 0 {
        before
    } else {
        include_then(includes_output(before, includes.drop_last()), includes.last())
    }
}

/// What the scan writes: the files of the walk, then the included paths.
pub open spec fn project_output(
    files: Seq<ScannedModel>,
    grep: Option<Seq<char>>,
    includes: Seq<IncludedModel>,
    max_depth: Option<usize>,
) -> ProjectOutput {
    let walked = files_output(files, grep, max_depth);
    includes_output(
        ProjectOutput { text: walked.text, warnings: Seq::empty(), failure: walked.failure },
        includes,
    )
}

/// The error for a filter text that gives no matcher; `None` if there is no
/// filter text or it compiles.
pub open spec fn filter_failure(pattern: Option<Seq<char>>) -> Option<ScanErrorModel> {
    match pattern {
        Some(text) => match regex_compile_error(grep_source(text)) {
            Some(detail) => Some(grep_failure(text, detail)),
            None => None,
        },
        None => None,
    }
}

/// The regular expression of the filter, if there is a filter text.
pub open spec fn filter_source(pattern: Option<Seq<char>>) -> Option<Seq<char>> {
    match pattern {
        Some(text) => Some(grep_source(text)),
        None => None,
    }
}

/// The included paths, none if no list was given.
pub open spec fn included(include_files: Option<Seq<IncludedModel>>) -> Seq<IncludedModel> {
    match include_files {
        Some(list) => list,
        None => Seq::empty(),
    }
}

/// The result of a read as plain values.
pub open spec fn read_model(read: Result<String, String>) -> Result<Seq<char>, Seq<char>> {
    match read {
        Ok(text) => Ok(text@),
        Err(detail) => Err(detail@),
    }
}

/// Once a file has ended the run, the files after it change nothing.
pub proof fn lemma_failure_ends_walk(
    files: Seq<ScannedModel>,
    grep: Option<Seq<char>>,
    max_depth: Option<usize>,
    k: int,
)
    requires
        0 <= k <= files.len(),
        files_output(files.take(k), grep, max_depth).failure is Some,
    ensures
        files_output(files, grep, max_depth) == files_output(files.take(k), grep, max_depth),
    decreases files.len(),
{
    if k == files.len() {
        assert(files.take(k) =~= files);
    } else {
        assert(files.drop_last().take(k) =~= files.take(k));
        lemma_failure_ends_walk(files.drop_last(), grep, max_depth, k);
    }
}

/// Once an included file has ended the run, the paths after it change
/// nothing.
pub proof fn lemma_failure_ends_includes(
    before: ProjectOutput,
    includes: Seq<IncludedModel>,
    k: int,
)
    requires
        0 <= k <= includes.len(),
        includes_output(before, includes.take(k)).failure is Some,
    ensures
        includes_output(before, includes) == includes_output(before, includes.take(k)),
    decreases includes.len(),
{
    if k == includes.len() {
        assert(includes.take(k) =~= includes);
    } else {
        assert(includes.drop_last().take(k) =~= includes.take(k));
        lemma_failure_ends_includes(before, includes.drop_last(), k);
    }
}

/// The blocks of `files`, in their order.
pub open spec fn blocks_of(files: Seq<ScannedModel>) -> Seq<char>
    decreases files.len(),
{
    if files.len() == 0 {
        Seq::empty()
    } else {
        blocks_of(files.drop_last()) + print_of(files.last().path, files.last().body).text
    }
}

/// The blocks of the included paths `includes`, in their order.
pub open spec fn included_blocks(includes: Seq<IncludedModel>) -> Seq<char>
    decreases includes.len(),
{
    if includes.len() == 0 {
        Seq::empty()
    } else {
        included_blocks(includes.drop_last()) + print_of(
            includes.last().path,
            includes.last().body,
        ).text
    }
}

/// The files of the walk that could be read, as far as they are in scope.
pub open spec fn all_readable(files: Seq<ScannedModel>, max_depth: Option<usize>) -> bool {
    forall|i: int|
        0 <= i < files.len() && in_scope(#[trigger] files[i], max_depth) ==> !(files[i].body
            is Unreadable)
}

/// The included regular files that could be read.
pub open spec fn includes_readable(includes: Seq<IncludedModel>) -> bool {
    forall|i: int|
        0 <= i < includes.len() && (#[trigger] includes[i]).is_file ==> !(includes[i].body
            is Unreadable)
}

/// With a filter, a file in scope is written if and only if its content
/// matches the filter: its step writes its whole block if it matches and
/// nothing if it does not, and a block is never empty.
pub proof fn lemma_file_shown_iff_matching(
    file: ScannedModel,
    source: Seq<char>,
    max_depth: Option<usize>,
)
    requires
        in_scope(file, max_depth),
    ensures
        matching(file, source) ==> file_step(file, Some(source), max_depth) == print_of(
            file.path,
            file.body,
        ),
        !matching(file, source) ==> file_step(file, Some(source), max_depth).text == Seq::<
            char,
        >::empty(),
        print_of(file.path, file.body).text.len() > 0,
{
    reveal_strlit("File: ");
}

/// How many files the walk takes before the run ends: the place of the
/// first file in scope that cannot be read, or the number of files if there
/// is none.
pub open spec fn files_taken(files: Seq<ScannedModel>, max_depth: Option<usize>) -> int
    decreases files.len(),
{
    if files.len() == 0 {
        0
    } else {
        let before = files_taken(files.drop_last(), max_depth);
        if before < files.len() - 1 {
            before
        } else if in_scope(files.last(), max_depth) && files.last().body is Unreadable {
            files.len() - 1
        } else {
            files.len() as int
        }
    }
}

/// With a filter, the walk writes exactly the files in scope whose content
/// matches the filter: the output is the blocks of those files, in the
/// order of the walk, and nothing else. A file in scope that cannot be read
/// ends the run: the files after it are not looked at. When every file in
/// scope could be read, all files are looked at and the run does not end
/// early.
pub proof fn lemma_filter_shows_matching_files(
    files: Seq<ScannedModel>,
    source: Seq<char>,
    max_depth: Option<usize>,
)
    ensures
        0 <= files_taken(files, max_depth) <= files.len(),
        files_output(files, Some(source), max_depth).text == blocks_of(
            files.take(files_taken(files, max_depth)).filter(
                |f: ScannedModel| in_scope(f, max_depth) && matching(f, source),
            ),
        ),
        files_output(files, Some(source), max_depth).failure is None <==> files_taken(
            files,
            max_depth,
        ) == files.len(),
        all_readable(files, max_depth) ==> files_taken(files, max_depth) == files.len(),
    decreases files.len(),
{
    let pred = |f: ScannedModel| in_scope(f, max_depth) && matching(f, source);
    reveal(Seq::filter);
    if files.len() == 0 {
        assert(files.take(0) =~= files);
    } else {
        let front = files.drop_last();
        let last = files.last();
        lemma_filter_shows_matching_files(front, source, max_depth);
        let taken_before = files_taken(front, max_depth);
        let taken = files_taken(files, max_depth);
        let before = files_output(front, Some(source), max_depth);
        let step = file_step(last, Some(source), max_depth);
        assert(files[files.len() - 1] == last);
        if all_readable(files, max_depth) {
            assert forall|i: int| 0 <= i < front.len() && in_scope(
                #[trigger] front[i],
                max_depth,
            ) implies !(front[i].body is Unreadable) by {
                assert(front[i] == files[i]);
            }
        }
        if taken_before < front.len() {
            assert(files.take(taken) =~= front.take(taken_before));
        } else if in_scope(last, max_depth) && last.body is Unreadable {
            assert(files.take(taken) =~= front);
            assert(front.take(taken_before) =~= front);
            assert(before.text + step.text =~= before.text);
        } else {
            assert(files.take(taken) =~= files);
            assert(front.take(taken_before) =~= front);
            if pred(last) {
                assert(files.filter(pred) == front.filter(pred).push(last));
                assert(front.filter(pred).push(last).drop_last() =~= front.filter(pred));
            } else {
                assert(files.filter(pred) == front.filter(pred));
                assert(before.text + step.text =~= before.text);
            }
        }
    }
}

/// A depth limit of 0 leaves the files directly in the root and no others:
/// the walk writes what it would write for those files alone.
pub proof fn lemma_depth_zero_shows_root_files_only(
    files: Seq<ScannedModel>,
    grep: Option<Seq<char>>,
)
    ensures
        files_output(files, grep, Some(0usize)) == files_output(
            files.filter(|f: ScannedModel| f.depth == 0),
            grep,
            Some(0usize),
        ),
    decreases files.len(),
{
    let pred = |f: ScannedModel| f.depth == 0;
    reveal(Seq::filter);
    if files.len() > 0 {
        let front = files.drop_last();
        let last = files.last();
        lemma_depth_zero_shows_root_files_only(front, grep);
        let before = files_output(front, grep, Some(0usize));
        if pred(last) {
            assert(files.filter(pred) == front.filter(pred).push(last));
            assert(front.filter(pred).push(last).drop_last() =~= front.filter(pred));
        } else {
            assert(files.filter(pred) == front.filter(pred));
            assert(file_step(last, grep, Some(0usize)) == nothing());
            assert(before.text + Seq::<char>::empty() =~= before.text);
        }
    }
}

/// The included paths that are regular files are always written, each by
/// its whole block and in their order, after the files of the walk:
/// neither the filter nor the depth limit nor where a path lies has any
/// say in it. This holds when every included regular file could be read,
/// and the walk came to its end or there is no included regular file; a
/// file that cannot be read ends the run.
pub proof fn lemma_included_files_are_shown(
    files: Seq<ScannedModel>,
    grep: Option<Seq<char>>,
    includes: Seq<IncludedModel>,
    max_depth: Option<usize>,
)
    requires
        includes_readable(includes),
        files_output(files, grep, max_depth).failure is None || includes.filter(
            |f: IncludedModel| f.is_file,
        ).len() == 0,
    ensures
        project_output(files, grep, includes, max_depth).failure == files_output(
            files,
            grep,
            max_depth,
        ).failure,
        project_output(files, grep, includes, max_depth).text == files_output(
            files,
            grep,
            max_depth,
        ).text + included_blocks(includes.filter(|f: IncludedModel| f.is_file)),
    decreases includes.len(),
{
    let pred = |f: IncludedModel| f.is_file;
    let walked = files_output(files, grep, max_depth);
    reveal(Seq::filter);
    if includes.len() == 0 {
        assert(walked.text + Seq::<char>::empty() =~= walked.text);
    } else {
        let front = includes.drop_last();
        let last = includes.last();
        assert forall|i: int| 0 <= i < front.len() && (#[trigger] front[i]).is_file implies !(
        front[i].body is Unreadable) by {
            assert(front[i] == includes[i]);
        }
        assert(includes[includes.len() - 1] == last);
        if pred(last) {
            assert(includes.filter(pred) == front.filter(pred).push(last));
            assert(front.filter(pred).push(last).drop_last() =~= front.filter(pred));
        } else {
            assert(includes.filter(pred) == front.filter(pred));
        }
        lemma_included_files_are_shown(files, grep, front, max_depth);
        let before = project_output(files, grep, front, max_depth);
        assert(project_output(files, grep, includes, max_depth) == include_then(before, last));
        if pred(last) {
            let step = print_of(last.path, last.body);
            assert((walked.text + included_blocks(front.filter(pred))) + step.text =~= walked.text
                + (included_blocks(front.filter(pred)) + step.text));
        }
    }
}

/// A file that is not text is never written as it is: its block holds the
/// placeholder between the fences, and a read that failed because the
/// content is not valid text makes the file binary.
pub proof fn lemma_binary_shown_as_placeholder(path: Seq<char>, detail: Seq<char>)
    ensures
        print_of(path, BodyModel::Binary) == (Rendered {
            text: file_block(path, BINARY_PLACEHOLDER@),
            failure: None,
        }),
        is_substring(INVALID_TEXT_MARK@, detail) ==> body_of(Err(detail)) == BodyModel::Binary,
{
}

/// What a read gave, from its result. A read that failed because the file
/// is not valid text makes the file binary.
pub fn classify_read(read: Result<String, String>) -> (body: FileBody)
    ensures
        body@ == body_of(read_model(read)),
{
    match read {
        Ok(text) => FileBody::Text(text),
        Err(detail) => {
            if contains(detail.as_str(), INVALID_TEXT_MARK) {
                FileBody::Binary
            } else {
                FileBody::Unreadable(detail)
            }
        },
    }
}

/// Writes one file: a line with its path, its content between fences, and
/// an empty line. Content that is not text is replaced by the placeholder.
/// For a file that could not be read, the opening of the block is written
/// and the error returned.
pub fn print_file(path: &str, body: &FileBody, writer: &mut String) -> (r: Result<(), ScanError>)
    ensures
        final(writer)@ == old(writer)@ + print_of(path@, body@).text,
        match print_of(path@, body@).failure {
            Some(e) => r matches Err(x) && x@ == e,
            None => r is Ok,
        },
{
    let ghost start = writer@;
    writer.append("File: ");
    writer.append(path);
    writer.append("\n");
    writer.append("```\n");
    assert(writer@ =~= start + block_head(path@));
    match body {
        FileBody::Text(text) => {
            writer.append(text.as_str());
        },
        FileBody::Binary => {
            writer.append(BINARY_PLACEHOLDER);
        },
        FileBody::Unreadable(detail) => {
            return Err(ScanError::ReadFailed { path: path.to_owned(), detail: detail.clone() });
        },
    }
    writer.append("\n");
    writer.append("```\n");
    writer.append("\n");
    assert(writer@ =~= start + print_of(path@, body@).text);
    Ok(())
}

/// Whether the walk takes the file at all: it is within the depth limit
/// and not below a version-control directory.
pub fn file_in_scope(file: &ScannedFile, max_depth: &Option<usize>) -> (b: bool)
    ensures
        b == in_scope(file@, *max_depth),
{
    let within = match max_depth {
        Some(limit) => file.depth <= *limit,
        None => true,
    };
    within && !has_git_component(file.path.as_str())
}

/// What the walk does with one file, given what the filter says of it:
/// `None` without a filter, else whether the filter matched the file's
/// text. See `judged_step`.
pub fn print_judged_file(
    file: &ScannedFile,
    verdict: Option<bool>,
    max_depth: &Option<usize>,
    writer: &mut String,
) -> (r: Result<(), ScanError>)
    ensures
        final(writer)@ == old(writer)@ + judged_step(file@, verdict, *max_depth).text,
        match judged_step(file@, verdict, *max_depth).failure {
            Some(e) => r matches Err(x) && x@ == e,
            None => r is Ok,
        },
{
    let ghost start = writer@;
    assert(start + Seq::<char>::empty() =~= start);
    if !file_in_scope(file, max_depth) {
        return Ok(());
    }
    match verdict {
        None => print_file(file.path.as_str(), &file.body, writer),
        Some(matched) => match &file.body {
            FileBody::Text(_) => {
                if matched {
                    print_file(file.path.as_str(), &file.body, writer)
                } else {
                    Ok(())
                }
            },
            FileBody::Binary => Ok(()),
            FileBody::Unreadable(detail) => Err(
                ScanError::ReadFailed { path: file.path.clone(), detail: detail.clone() },
            ),
        },
    }
}

/// What the walk does with one file: the filter, if there is one, is asked
/// about the file's text, and the file is written or passed over by its
/// answer. See `file_step`.
pub fn print_scanned_file(
    file: &ScannedFile,
    grep: &Option<GrepFilter>,
    max_depth: &Option<usize>,
    writer: &mut String,
) -> (r: Result<(), ScanError>)
    ensures
        final(writer)@ == old(writer)@ + file_step(file@, sources(*grep), *max_depth).text,
        match file_step(file@, sources(*grep), *max_depth).failure {
            Some(e) => r matches Err(x) && x@ == e,
            None => r is Ok,
        },
{
    let verdict = match grep {
        None => None,
        Some(filter) => match &file.body {
            FileBody::Text(text) => Some(filter.is_match(text.as_str())),
            _ => Some(false),
        },
    };
    print_judged_file(file, verdict, max_depth, writer)
}

/// The regular expression of a compiled filter, if there is one.
pub open spec fn sources(grep: Option<GrepFilter>) -> Option<Seq<char>> {
    match grep {
        Some(filter) => Some(filter.source()),
        None => None,
    }
}

/// Writes the files of the walk and then the included paths, and returns
/// the warnings. The first file that cannot be read ends the run: what was
/// written until then stays, and the error is returned.
pub fn print_files(
    files: &Vec<ScannedFile>,
    grep: &Option<GrepFilter>,
    include_files: &Option<Vec<IncludedFile>>,
    max_depth: &Option<usize>,
    writer: &mut String,
) -> (r: Result<Vec<String>, ScanError>)
    ensures
        ({
            let out = project_output(
                files.deep_view(),
                sources(*grep),
                included(include_files.deep_view()),
                *max_depth,
            );
            &&& final(writer)@ == old(writer)@ + out.text
            &&& match out.failure {
                Some(e) => r matches Err(x) && x@ == e,
                None => r matches Ok(warnings) && warnings.deep_view() == out.warnings,
            }
        }),
{
    let ghost start = writer@;
    let ghost all = files.deep_view();
    let ghost source = sources(*grep);
    let mut i: usize = 0;
    assert(start + Seq::<char>::empty() =~= start);
    assert(all.take(0) =~= Seq::<ScannedModel>::empty());
    while i < files.len()
        invariant
            i <= files.len(),
            all == files.deep_view(),
            source == sources(*grep),
            files_output(all.take(i as int), source, *max_depth).failure is None,
            writer@ == start + files_output(all.take(i as int), source, *max_depth).text,
            *final(writer) == *final(old(writer)),
            start == old(writer)@,
        decreases files.len() - i,
    {
        let ghost before = files_output(all.take(i as int), source, *max_depth);
        proof {
            let next = all.take(i + 1);
            assert(next.drop_last() =~= all.take(i as int));
            assert(next.last() == files[i as int]@);
        }
        let step = print_scanned_file(&files[i], grep, max_depth, writer);
        proof {
            let written = file_step(files[i as int]@, source, *max_depth);
            assert((start + before.text) + written.text =~= start + (before.text + written.text));
            let next_output = files_output(all.take(i + 1), source, *max_depth);
            assert(next_output == step_after(before, written));
        }
        match step {
            Ok(()) => {},
            Err(e) => {
                proof {
                    let written = file_step(files[i as int]@, source, *max_depth);
                    assert(written.failure is Some);
                    assert(files_output(all.take(i + 1), source, *max_depth).failure is Some);
                    lemma_failure_ends_walk(all, source, *max_depth, i + 1);
                    let inc = included(include_files.deep_view());
                    let walked = files_output(all, source, *max_depth);
                    assert(walked == step_after(before, written));
                    let stopped = ProjectOutput {
                        text: walked.text,
                        warnings: Seq::empty(),
                        failure: walked.failure,
                    };
                    assert(inc.take(0) =~= Seq::<IncludedModel>::empty());
                    assert(includes_output(stopped, inc.take(0)) == stopped);
                    lemma_failure_ends_includes(stopped, inc, 0);
                    assert(project_output(all, source, inc, *max_depth) == stopped);
                    assert(writer@ == start + stopped.text);
                }
                return Err(e);
            },
        }
        i += 1;
    }
    proof {
        assert(all.take(files.len() as int) =~= all);
    }
    let ghost walked = files_output(all, source, *max_depth);
    let ghost base = ProjectOutput {
        text: walked.text,
        warnings: Seq::empty(),
        failure: walked.failure,
    };
    let mut warnings: Vec<String> = Vec::new();
    assert(warnings.deep_view() =~= Seq::<Seq<char>>::empty());
    match include_files {
        None => {},
        Some(list) => {
            let ghost inc = list.deep_view();
            let mut j: usize = 0;
            assert(inc.take(0) =~= Seq::<IncludedModel>::empty());
            while j < list.len()
                invariant
                    j <= list.len(),
                    inc == list.deep_view(),
                    includes_output(base, inc.take(j as int)).failure is None,
                    writer@ == start + includes_output(base, inc.take(j as int)).text,
                    *final(writer) == *final(old(writer)),
                    start == old(writer)@,
                    files_output(files.deep_view(), sources(*grep), *max_depth).failure is None,
                    base == (ProjectOutput {
                        text: files_output(files.deep_view(), sources(*grep), *max_depth).text,
                        warnings: Seq::empty(),
                        failure: None,
                    }),
                    included(include_files.deep_view()) == inc,
                    warnings.deep_view() == includes_output(base, inc.take(j as int)).warnings,
                decreases list.len() - j,
            {
                let ghost before = includes_output(base, inc.take(j as int));
                proof {
                    let next = inc.take(j + 1);
                    assert(next.drop_last() =~= inc.take(j as int));
                    assert(next.last() == list[j as int]@);
                    assert(includes_output(base, next) == include_then(before, list[j as int]@));
                }
                let file = &list[j];
                if !file.is_file {
                    let mut warning = String::new();
                    warning.append("Warning: Included path ");
                    warning.append(file.path.as_str());
                    warning.append(" does not exist or is not a file");
                    let ghost earlier = warnings.deep_view();
                    warnings.push(warning);
                    assert(warnings.deep_view() =~= earlier.push(include_warning(file.path@)));
                } else {
                    let step = print_file(file.path.as_str(), &file.body, writer);
                    proof {
                        let written = print_of(file.path@, file.body@);
                        assert((start + before.text) + written.text =~= start + (before.text
                            + written.text));
                    }
                    match step {
                        Ok(()) => {},
                        Err(e) => {
                            proof {
                                let stopped = includes_output(base, inc.take(j + 1));
                                assert(stopped.failure is Some);
                                lemma_failure_ends_includes(base, inc, j + 1);
                                let walked = files_output(
                                    files.deep_view(),
                                    sources(*grep),
                                    *max_depth,
                                );
                                assert(walked.failure is None);
                                assert(project_output(
                                    files.deep_view(),
                                    sources(*grep),
                                    inc,
                                    *max_depth,
                                ) == stopped);
                            }
                            return Err(e);
                        },
                    }
                }
                j += 1;
            }
            proof {
                assert(inc.take(list.len() as int) =~= inc);
            }
        },
    }
    Ok(warnings)
}

/// Writes the files of the project: those of the walk that are in scope
/// and, if `grep_pattern` is given, whose content it matches; then the
/// included paths, whatever their content. Returns the warnings for the
/// included paths that are no regular files. A filter text that gives no
/// matcher is an error, and nothing is written.
pub fn print_project_files(
    files: &Vec<ScannedFile>,
    grep_pattern: &Option<String>,
    include_files: &Option<Vec<IncludedFile>>,
    max_depth: &Option<usize>,
    writer: &mut String,
) -> (r: Result<Vec<String>, ScanError>)
    ensures
        match filter_failure(grep_pattern.deep_view()) {
            Some(e) => r matches Err(x) && x@ == e && final(writer)@ == old(writer)@,
            None => {
                let out = project_output(
                    files.deep_view(),
                    filter_source(grep_pattern.deep_view()),
                    included(include_files.deep_view()),
                    *max_depth,
                );
                &&& final(writer)@ == old(writer)@ + out.text
                &&& match out.failure {
                    Some(e) => r matches Err(x) && x@ == e,
                    None => r matches Ok(warnings) && warnings.deep_view() == out.warnings,
                }
            },
        },
{
    let grep = match grep_pattern {
        Some(text) => match compile_grep(text.as_str()) {
            Ok(filter) => Some(filter),
            Err(e) => {
                return Err(e);
            },
        },
        None => None,
    };
    print_files(files, &grep, include_files, max_depth, writer)
}

} // verus!
