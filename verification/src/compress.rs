//! Filters, and the plans by which readers and writers are set up.
//!
//! Nothing here opens a file or starts a process.  A plan says which file
//! to open, which utility to start with which arguments, how the two are
//! connected, and what has to happen when the stream is closed; it is for
//! the caller to carry it out.

use vstd::prelude::*;
use vstd::string::*;
use crate::compress_type::{CompressThreads, CompressType};
use crate::error::{CompressError, CompressErrorView};
use crate::filter_spec::{FilterSpec, FilterSpecView};
use crate::path_utils::{
    check_read_ctype,
    path_extension,
    probe_for,
    with_ext,
    CheckBuf,
    Probe,
};
use crate::text::{opt_str_view, opt_view, views};
use crate::tools::{
    best_tool,
    eligible,
    lemma_best_tool_usable,
    Role,
    Service,
    ToolRegister,
    ToolView,
};

verus! {

/// How a standard stream of a child process is connected.
#[derive(Debug, Copy, Clone, PartialEq, Eq, Structural)]
pub enum Wiring {
    /// To the stream of the same name of this process.
    Inherit,
    /// To a new pipe, whose other end this process keeps.
    Piped,
    /// To the file or pipe that the plan names.
    Handle,
}

/// The call of a utility: its executable, its arguments and the
/// connections of its standard input and output.
#[derive(Debug)]
pub struct Invocation {
    pub program: String,
    pub args: Vec<String>,
    pub stdin: Wiring,
    pub stdout: Wiring,
}

/// The contents of an [`Invocation`].
pub struct InvocationView {
    pub program: Seq<char>,
    pub args: Seq<Seq<char>>,
    pub stdin: Wiring,
    pub stdout: Wiring,
}

impl View for Invocation {
    type V = InvocationView;

    open spec fn view(&self) -> InvocationView {
        InvocationView {
            program: self.program@,
            args: views(self.args@),
            stdin: self.stdin,
            stdout: self.stdout,
        }
    }
}

/// The call of the filter `f` for reading: its output is piped to this
/// process, its input is the handle it is given, or else the standard input
/// of this process.
pub open spec fn read_invocation(f: FilterSpecView, input: bool) -> InvocationView {
    InvocationView {
        program: f.path,
        args: f.args,
        stdin: if input {
            Wiring::Handle
        } else {
            Wiring::Inherit
        },
        stdout: Wiring::Piped,
    }
}

/// The call of the filter `f` for writing: its input is piped from this
/// process, its output is the handle it is given, or else the standard
/// output of this process.
pub open spec fn write_invocation(f: FilterSpecView, output: bool) -> InvocationView {
    InvocationView {
        program: f.path,
        args: f.args,
        stdin: Wiring::Piped,
        stdout: if output {
            Wiring::Handle
        } else {
            Wiring::Inherit
        },
    }
}

fn clone_strings(v: &[String]) -> (r: Vec<String>)
    ensures
        r@ == v@,
{
    let mut r: Vec<String> = Vec::new();
    let mut i: usize = 0;
    while i < v.len()
        invariant
            i <= v.len(),
            r@ == v@.take(i as int),
        decreases v.len() - i,
    {
        r.push(v[i].clone());
        assert(v@.take(i + 1) =~= v@.take(i as int).push(v[i as int]));
        i += 1;
    }
    assert(v@.take(v.len() as int) =~= v@);
    r
}

/// The call by which the filter `f` is started for reading; `input` says
/// whether it is handed a file or pipe to read, in place of the standard
/// input.
pub fn open_read_filter(f: &FilterSpec, input: bool) -> (r: Invocation)
    ensures
        r@ == read_invocation(f@, input),
{
    Invocation {
        program: f.path().to_owned(),
        args: clone_strings(f.args()),
        stdin: if input {
            Wiring::Handle
        } else {
            Wiring::Inherit
        },
        stdout: Wiring::Piped,
    }
}

/// The call by which the filter `f` is started for writing; `output` says
/// whether it is handed a file to write, in place of the standard output.
pub fn open_write_filter(f: &FilterSpec, output: bool) -> (r: Invocation)
    ensures
        r@ == write_invocation(f@, output),
{
    Invocation {
        program: f.path().to_owned(),
        args: clone_strings(f.args()),
        stdin: Wiring::Piped,
        stdout: if output {
            Wiring::Handle
        } else {
            Wiring::Inherit
        },
    }
}

/// Whether a stream is passed through a utility, and through which.
#[derive(Debug)]
pub enum Filter {
    NoFilter,
    Filter(FilterSpec),
}

/// The contents of a [`Filter`].
pub enum FilterView {
    NoFilter,
    Filter(FilterSpecView),
}

impl View for Filter {
    type V = FilterView;

    open spec fn view(&self) -> FilterView {
        match self {
            Filter::NoFilter => FilterView::NoFilter,
            Filter::Filter(f) => FilterView::Filter(f@),
        }
    }
}

impl Default for Filter {
    fn default() -> (r: Self)
        ensures
            r@ == FilterView::NoFilter,
    {
        Self::NoFilter
    }
}

/// The filter for `ctype` in `role`, given the tools that are registered and
/// the number of threads to ask for.
///
/// No filter is needed where there is nothing to filter.  Otherwise the
/// filter calls the best tool for the format with the arguments of the
/// service by which that tool serves it; without such a tool there is no
/// filter.
pub open spec fn filter_for(
    tools: Seq<ToolView>,
    role: Role,
    ctype: CompressType,
    n: Option<usize>,
) -> Result<FilterView, CompressErrorView> {
    if ctype is NoFilter {
        Ok(FilterView::NoFilter)
    } else {
        match best_tool(tools, role, ctype) {
            Some(i) => Ok(
                FilterView::Filter(
                    FilterSpecView {
                        path: tools[i].path->0,
                        args: tools[i].service(role, ctype)->0.args(n),
                        compress_type: Some(ctype),
                    },
                ),
            ),
            None => Err(CompressErrorView::ToolUnavailable { kind: ctype, role }),
        }
    }
}

/// The contents of a filter, or of the failure to find one.
pub open spec fn filter_result(r: Result<Filter, CompressError>) -> Result<
    FilterView,
    CompressErrorView,
> {
    match r {
        Ok(f) => Ok(f@),
        Err(e) => Err(e@),
    }
}

/// Where the bytes of a reader come from.
#[derive(Debug)]
pub enum Source {
    /// The file of this name.
    File(String),
    /// The standard input, of which these bytes were read already: they
    /// are sent through a pipe ahead of the rest of it.
    Pipe(CheckBuf),
    /// The standard input, untouched.
    Stdin,
}

/// The contents of a [`Source`].
pub enum SourceView {
    File(Seq<char>),
    Pipe(Seq<u8>),
    Stdin,
}

impl View for Source {
    type V = SourceView;

    open spec fn view(&self) -> SourceView {
        match self {
            Source::File(p) => SourceView::File(p@),
            Source::Pipe(b) => SourceView::Pipe(b@),
            Source::Stdin => SourceView::Stdin,
        }
    }
}

/// What a reader is backed by.
#[derive(Debug, Copy, Clone, PartialEq, Eq, Structural)]
pub enum ReaderState {
    /// A file.
    File,
    /// The output of a child process, which the reader owns.
    Child,
    /// The standard input.
    Stdin,
    /// The reading end of a pipe.
    PipeReader,
}

/// What a writer is backed by.
#[derive(Debug, Copy, Clone, PartialEq, Eq, Structural)]
pub enum WriterState {
    /// A file.
    File,
    /// A child process that the writer owns: the pipe into it, while it is
    /// open, and the process itself, until it is waited for or handed over.
    Child { stdin_open: bool, child_held: bool },
    /// The pipe into a child process that nobody waits for.
    ChildStdin,
    /// The standard output.
    Stdout,
}

/// One thing that is done to a child process when its stream is closed.
#[derive(Debug, Copy, Clone, PartialEq, Eq, Structural)]
pub enum Step {
    /// Close the pipe into the child, which is how it learns that its input
    /// has ended.
    CloseInput,
    /// Terminate the child.
    Kill,
    /// Wait until the child has ended.
    Wait,
}

impl ReaderState {
    /// What is done when a reader in this state is closed.  A child is
    /// terminated, not waited for to finish by itself: what it would still
    /// write is no longer wanted.
    pub open spec fn spec_close(self) -> Seq<Step> {
        match self {
            ReaderState::Child => seq![Step::Kill, Step::Wait],
            _ => Seq::empty(),
        }
    }

    pub fn from_file() -> (r: Self)
        ensures
            r == ReaderState::File,
    {
        ReaderState::File
    }

    pub fn from_stdin() -> (r: Self)
        ensures
            r == ReaderState::Stdin,
    {
        ReaderState::Stdin
    }

    pub fn from_child() -> (r: Self)
        ensures
            r == ReaderState::Child,
    {
        ReaderState::Child
    }

    pub fn from_pipe_reader() -> (r: Self)
        ensures
            r == ReaderState::PipeReader,
    {
        ReaderState::PipeReader
    }

    /// What has to be done, in this order, when the reader is closed.
    pub fn close(&self) -> (r: Vec<Step>)
        ensures
            r@ == self.spec_close(),
    {
        let mut r: Vec<Step> = Vec::new();
        match self {
            ReaderState::Child => {
                r.push(Step::Kill);
                r.push(Step::Wait);
            },
            _ => {},
        }
        r
    }
}

impl WriterState {
    /// What is done when a writer in this state is closed: the pipe into a
    /// child is closed where it is open, and after that the child is waited
    /// for where the writer still holds it.
    pub open spec fn spec_close(self) -> Seq<Step> {
        match self {
            WriterState::Child { stdin_open, child_held } => (if stdin_open {
                seq![Step::CloseInput]
            } else {
                Seq::empty()
            }) + (if child_held {
                seq![Step::Wait]
            } else {
                Seq::empty()
            }),
            WriterState::ChildStdin => seq![Step::CloseInput],
            _ => Seq::empty(),
        }
    }

    /// The state in which closing leaves a writer.
    pub open spec fn closed(self) -> WriterState {
        match self {
            WriterState::Child { .. } => WriterState::Child { stdin_open: false, child_held: false },
            _ => self,
        }
    }

    /// Whether what is written reaches a stream.
    pub open spec fn spec_is_open(self) -> bool {
        match self {
            WriterState::Child { stdin_open, .. } => stdin_open,
            _ => true,
        }
    }

    /// A writer into a child process.  With `no_wait` the child is let go
    /// at once, and nobody waits for it when the writer is closed.
    pub fn from_child(no_wait: bool) -> (r: Self)
        ensures
            r == (if no_wait {
                WriterState::ChildStdin
            } else {
                WriterState::Child { stdin_open: true, child_held: true }
            }),
    {
        if no_wait {
            WriterState::ChildStdin
        } else {
            WriterState::Child { stdin_open: true, child_held: true }
        }
    }

    pub fn from_file() -> (r: Self)
        ensures
            r == WriterState::File,
    {
        WriterState::File
    }

    pub fn from_stdout() -> (r: Self)
        ensures
            r == WriterState::Stdout,
    {
        WriterState::Stdout
    }

    /// Hands the child process over to the caller, who then waits for it
    /// when it suits.  Says whether there was a child to hand over.
    pub fn take_child(&mut self) -> (r: bool)
        ensures
            r == (*old(self) matches WriterState::Child { child_held: true, .. }),
            *final(self) == (match *old(self) {
                WriterState::Child { stdin_open, .. } => WriterState::Child {
                    stdin_open,
                    child_held: false,
                },
                s => s,
            }),
    {
        match *self {
            WriterState::Child { stdin_open, child_held } => {
                *self = WriterState::Child { stdin_open, child_held: false };
                child_held
            },
            _ => false,
        }
    }

    /// Whether what is written reaches a stream: it does not once the pipe
    /// into a child has been closed.
    pub fn is_open(&self) -> (r: bool)
        ensures
            r == self.spec_is_open(),
    {
        match self {
            WriterState::Child { stdin_open, .. } => *stdin_open,
            _ => true,
        }
    }

    /// What has to be done, in this order, when the writer is closed.
    pub fn close(&mut self) -> (r: Vec<Step>)
        ensures
            r@ == old(self).spec_close(),
            *final(self) == old(self).closed(),
    {
        let mut r: Vec<Step> = Vec::new();
        match *self {
            WriterState::Child { stdin_open, child_held } => {
                if stdin_open {
                    r.push(Step::CloseInput);
                }
                if child_held {
                    r.push(Step::Wait);
                }
                *self = WriterState::Child { stdin_open: false, child_held: false };
            },
            WriterState::ChildStdin => {
                r.push(Step::CloseInput);
            },
            _ => {},
        }
        assert(r@ =~= old(self).spec_close());
        r
    }
}

/// A child is never waited for while the pipe into it is still open, and a
/// writer never terminates its child.
pub proof fn lemma_writer_closes_before_waiting(state: WriterState)
    ensures
        forall|i: int, j: int|
            0 <= i < state.spec_close().len() && 0 <= j < state.spec_close().len()
                && state.spec_close()[i] == Step::Wait && state.spec_close()[j] == Step::CloseInput
                ==> j < i,
        forall|i: int| 0 <= i < state.spec_close().len() ==> state.spec_close()[i] != Step::Kill,
        state.spec_close().contains(Step::Wait) ==> !state.closed().spec_is_open(),
{
}

/// A writer whose child was let go, or handed over, does not wait.
pub proof fn lemma_writer_without_child_does_not_wait(state: WriterState)
    requires
        !(state matches WriterState::Child { child_held: true, .. }),
    ensures
        !state.spec_close().contains(Step::Wait),
{
}

/// What has to be set up for a reader.
#[derive(Debug)]
pub struct ReaderPlan {
    /// Where the bytes come from.
    pub source: Source,
    /// The utility that the bytes are passed through, if any.
    pub filter: Option<Invocation>,
    /// What the reader is backed by once it is set up.
    pub state: ReaderState,
}

/// The contents of a [`ReaderPlan`].
pub struct ReaderPlanView {
    pub source: SourceView,
    pub filter: Option<InvocationView>,
    pub state: ReaderState,
}

impl View for ReaderPlan {
    type V = ReaderPlanView;

    open spec fn view(&self) -> ReaderPlanView {
        ReaderPlanView {
            source: self.source@,
            filter: match self.filter {
                Some(c) => Some(c@),
                None => None,
            },
            state: self.state,
        }
    }
}

/// Where the bytes of the input `name` come from, or those of the standard
/// input where there is no name: `probe` holds what was read of the
/// standard input to tell its format.
pub open spec fn source_for(name: Option<Seq<char>>, probe: Seq<u8>) -> SourceView {
    match name {
        Some(p) => SourceView::File(p),
        None => if probe.len() > 0 {
            SourceView::Pipe(probe)
        } else {
            SourceView::Stdin
        },
    }
}

/// The plan for a reader of the input `name` through `filter`.
pub open spec fn reader_plan(filter: FilterView, name: Option<Seq<char>>, probe: Seq<u8>) -> ReaderPlanView {
    let source = source_for(name, probe);
    match filter {
        FilterView::NoFilter => ReaderPlanView {
            source,
            filter: None,
            state: match source {
                SourceView::File(_) => ReaderState::File,
                SourceView::Pipe(_) => ReaderState::PipeReader,
                SourceView::Stdin => ReaderState::Stdin,
            },
        },
        FilterView::Filter(f) => ReaderPlanView {
            source,
            filter: Some(read_invocation(f, !(source is Stdin))),
            state: ReaderState::Child,
        },
    }
}

/// Where the bytes of a writer go.
#[derive(Debug)]
pub enum Sink {
    /// To the file of this name, which is created.
    File(String),
    /// To the standard output.
    Stdout,
}

/// The contents of a [`Sink`].
pub enum SinkView {
    File(Seq<char>),
    Stdout,
}

impl View for Sink {
    type V = SinkView;

    open spec fn view(&self) -> SinkView {
        match self {
            Sink::File(p) => SinkView::File(p@),
            Sink::Stdout => SinkView::Stdout,
        }
    }
}

/// What has to be set up for a writer.
#[derive(Debug)]
pub struct WriterPlan {
    /// Where the bytes go in the end.
    pub sink: Sink,
    /// The utility that the bytes are passed through, if any.
    pub filter: Option<Invocation>,
    /// What the writer is backed by once it is set up.
    pub state: WriterState,
}

/// The contents of a [`WriterPlan`].
pub struct WriterPlanView {
    pub sink: SinkView,
    pub filter: Option<InvocationView>,
    pub state: WriterState,
}

impl View for WriterPlan {
    type V = WriterPlanView;

    open spec fn view(&self) -> WriterPlanView {
        WriterPlanView {
            sink: self.sink@,
            filter: match self.filter {
                Some(c) => Some(c@),
                None => None,
            },
            state: self.state,
        }
    }
}

/// The name of the file that a writer through `filter` creates for the
/// output `name`, whose extension is `ext`: the suffix of the filter's
/// format is added unless the name is to be left as it is.
pub open spec fn output_name(
    filter: FilterView,
    name: Seq<char>,
    ext: Option<Seq<char>>,
    fix_path: bool,
) -> Seq<char> {
    match filter {
        FilterView::Filter(f) => if fix_path {
            name
        } else {
            f.file_name(name, ext)
        },
        FilterView::NoFilter => name,
    }
}

/// The plan for a writer of the output `name`, whose extension is `ext`,
/// through `filter`.
pub open spec fn writer_plan(
    filter: FilterView,
    name: Option<Seq<char>>,
    ext: Option<Seq<char>>,
    fix_path: bool,
    no_wait: bool,
) -> WriterPlanView {
    let sink = match name {
        Some(p) => SinkView::File(output_name(filter, p, ext, fix_path)),
        None => SinkView::Stdout,
    };
    match filter {
        FilterView::NoFilter => WriterPlanView {
            sink,
            filter: None,
            state: match name {
                Some(_) => WriterState::File,
                None => WriterState::Stdout,
            },
        },
        FilterView::Filter(f) => WriterPlanView {
            sink,
            filter: Some(write_invocation(f, name is Some)),
            state: if no_wait {
                WriterState::ChildStdin
            } else {
                WriterState::Child { stdin_open: true, child_held: true }
            },
        },
    }
}

/// The writer that is planned through a filter closes the pipe into its
/// child and then waits for it; with `no_wait` it closes the pipe and leaves
/// the child alone.
pub proof fn lemma_planned_writer_closes_first(
    f: FilterSpecView,
    name: Option<Seq<char>>,
    ext: Option<Seq<char>>,
    fix_path: bool,
    no_wait: bool,
)
    ensures
        writer_plan(FilterView::Filter(f), name, ext, fix_path, no_wait).state.spec_close() == (
        if no_wait {
            seq![Step::CloseInput]
        } else {
            seq![Step::CloseInput, Step::Wait]
        }),
{
    let steps = writer_plan(FilterView::Filter(f), name, ext, fix_path, no_wait).state.spec_close();
    if no_wait {
        assert(steps =~= seq![Step::CloseInput]);
    } else {
        assert(steps =~= seq![Step::CloseInput, Step::Wait]);
    }
}

/// The reader that is planned through a filter terminates its child when
/// it is closed, and then waits for it.
pub proof fn lemma_planned_reader_terminates(
    f: FilterSpecView,
    name: Option<Seq<char>>,
    probe: Seq<u8>,
)
    ensures
        reader_plan(FilterView::Filter(f), name, probe).state.spec_close() == seq![
            Step::Kill,
            Step::Wait,
        ],
{
}

/// The extension of a file name that may be missing.
pub open spec fn opt_extension(name: Option<Seq<char>>) -> Option<Seq<char>> {
    match name {
        Some(p) => path_extension(p),
        None => None,
    }
}

/// The tool and the service by which `ctype` is served in `role`.
fn serving<'a>(tools: &'a ToolRegister, role: Role, ctype: CompressType) -> (r: Result<
    (&'a str, &'a Service),
    CompressError,
>)
    ensures
        r is Ok <==> exists|i: int, p: nat| eligible(tools@, role, ctype, i, p),
        match best_tool(tools@, role, ctype) {
            Some(i) => r matches Ok(found) && Some(found.0@) == tools@[i].path && Some(found.1@)
                == tools@[i].service(role, ctype),
            None => r matches Err(e) && e@ == (CompressErrorView::ToolUnavailable {
                kind: ctype,
                role,
            }),
        },
{
    proof {
        lemma_best_tool_usable(tools@, role, ctype);
    }
    match tools.get_tool(ctype, role) {
        Some(tool) => {
            let path = tool.path().unwrap();
            let service = match role {
                Role::Compress => tool.get_compress(ctype).unwrap(),
                Role::Decompress => tool.get_decompress(ctype).unwrap(),
            };
            Ok((path, service))
        },
        None => Err(CompressError::ToolUnavailable { kind: ctype, role }),
    }
}

/// Every thread preference resolves to some count, or to none.
proof fn lemma_preference_resolves(cthreads: CompressThreads)
    ensures
        exists|n: Option<usize>| cthreads.admits(n),
{
    match cthreads {
        CompressThreads::Default => {
            assert(cthreads.admits(None));
        },
        CompressThreads::ExplicitCount(x) => {
            assert(cthreads.admits(Some(x)));
        },
        _ => {
            assert(cthreads.admits(Some(1usize)));
        },
    }
}

impl Filter {
    /// The plan for a reader of the input `name` through this filter, or of
    /// the standard input where there is no name.
    ///
    /// `buf` holds what was read of the standard input to tell its format,
    /// and is empty where nothing was read.  Those bytes are not lost: the
    /// plan sends them through a pipe, ahead of the rest of the standard
    /// input.
    pub fn reader(&self, name: Option<&str>, buf: CheckBuf) -> (r: ReaderPlan)
        ensures
            r@ == reader_plan(self@, opt_str_view(name), buf@),
    {
        let source = match name {
            Some(p) => Source::File(p.to_owned()),
            None => {
                if !buf.is_empty() {
                    Source::Pipe(buf)
                } else {
                    Source::Stdin
                }
            },
        };
        match self {
            Filter::NoFilter => {
                let state = match &source {
                    Source::File(_) => ReaderState::from_file(),
                    Source::Pipe(_) => ReaderState::from_pipe_reader(),
                    Source::Stdin => ReaderState::from_stdin(),
                };
                ReaderPlan { source, filter: None, state }
            },
            Filter::Filter(f) => {
                let input = match &source {
                    Source::Stdin => false,
                    _ => true,
                };
                ReaderPlan {
                    source,
                    filter: Some(open_read_filter(f, input)),
                    state: ReaderState::from_child(),
                }
            },
        }
    }

    /// The plan for a writer of the output `name` through this filter, or
    /// to the standard output where there is no name.
    ///
    /// The suffix of the filter's format is added to the name unless it is
    /// there already; with `fix_path` the name is left as it is.  With
    /// `no_wait` the child process is not waited for when the writer is
    /// closed.
    pub fn writer(&self, name: Option<&str>, fix_path: bool, no_wait: bool) -> (r: WriterPlan)
        ensures
            r@ == writer_plan(
                self@,
                opt_str_view(name),
                opt_extension(opt_str_view(name)),
                fix_path,
                no_wait,
            ),
    {
        let sink = match name {
            Some(p) => {
                match self {
                    Filter::Filter(f) => {
                        if fix_path {
                            Sink::File(p.to_owned())
                        } else {
                            Sink::File(f.cond_add_suffix(p))
                        }
                    },
                    Filter::NoFilter => Sink::File(p.to_owned()),
                }
            },
            None => Sink::Stdout,
        };
        match self {
            Filter::NoFilter => {
                let state = match &sink {
                    Sink::File(_) => WriterState::from_file(),
                    Sink::Stdout => WriterState::from_stdout(),
                };
                WriterPlan { sink, filter: None, state }
            },
            Filter::Filter(f) => {
                WriterPlan {
                    sink,
                    filter: Some(open_write_filter(f, name.is_some())),
                    state: WriterState::from_child(no_wait),
                }
            },
        }
    }

    /// The filter that decompresses `ctype` with the best tool that `tools`
    /// has for it.  Threads are of no use to decompression, so none are
    /// asked for.
    pub fn new_decompress_filter(tools: &ToolRegister, ctype: CompressType) -> (r: Result<
        Self,
        CompressError,
    >)
        ensures
            filter_result(r) == filter_for(tools@, Role::Decompress, ctype, None),
            r is Ok <==> ctype is NoFilter || exists|i: int, p: nat|
                eligible(tools@, Role::Decompress, ctype, i, p),
    {
        match ctype {
            CompressType::NoFilter => Ok(Filter::NoFilter),
            _ => {
                match serving(tools, Role::Decompress, ctype) {
                    Ok((path, service)) => Ok(
                        Filter::Filter(
                            FilterSpec::new_compress(path, service.args_for(None), ctype),
                        ),
                    ),
                    Err(e) => Err(e),
                }
            },
        }
    }

    /// The filter that compresses to `ctype` with the best tool that `tools`
    /// has for it, under the thread preference `cthreads`.
    ///
    /// Where the preference is for as many threads as the machine has
    /// cores, the count that is passed is whatever the machine says.
    pub fn new_compress_filter(
        tools: &ToolRegister,
        ctype: CompressType,
        cthreads: CompressThreads,
    ) -> (r: Result<Self, CompressError>)
        ensures
            exists|n: Option<usize>|
                cthreads.admits(n) && filter_result(r) == #[trigger] filter_for(
                    tools@,
                    Role::Compress,
                    ctype,
                    n,
                ),
            r is Ok <==> ctype is NoFilter || exists|i: int, p: nat|
                eligible(tools@, Role::Compress, ctype, i, p),
    {
        match ctype {
            CompressType::NoFilter => {
                proof {
                    lemma_preference_resolves(cthreads);
                    let n = choose|n: Option<usize>| cthreads.admits(n);
                    assert(filter_for(tools@, Role::Compress, ctype, n) == Ok::<
                        FilterView,
                        CompressErrorView,
                    >(FilterView::NoFilter));
                }
                Ok(Filter::NoFilter)
            },
            _ => {
                match serving(tools, Role::Compress, ctype) {
                    Ok((path, service)) => {
                        let args = service.args(cthreads);
                        proof {
                            let n = choose|n: Option<usize>|
                                cthreads.admits(n) && views(args@) == #[trigger] service@.args(n);
                            assert(filter_for(tools@, Role::Compress, ctype, n) is Ok);
                        }
                        Ok(Filter::Filter(FilterSpec::new_compress(path, args, ctype)))
                    },
                    Err(e) => {
                        proof {
                            lemma_preference_resolves(cthreads);
                            let n = choose|n: Option<usize>| cthreads.admits(n);
                            assert(filter_for(tools@, Role::Compress, ctype, n) is Err);
                        }
                        Err(e)
                    },
                }
            },
        }
    }
}

/// A writer through a filter leaves alone a file name that carries the
/// suffix of the filter's format: the suffix is not added twice.
pub proof fn lemma_suffix_not_doubled(f: FilterSpecView, ct: CompressType, name: Seq<char>)
    requires
        f.compress_type == Some(ct),
    ensures
        output_name(FilterView::Filter(f), name, Some(ct.spec_suffix()), false) == name,
{
}

/// A writer that is given the file name that an earlier writer through the
/// same filter has made up writes to that very file, provided that the
/// suffix of the format is the extension of the name once it has been added.
pub proof fn lemma_output_name_settles(f: FilterSpecView, ct: CompressType, name: Seq<char>)
    requires
        f.compress_type == Some(ct),
        path_extension(name) == Some(ct.spec_suffix()) || path_extension(
            with_ext(name, ct.spec_suffix()),
        ) == Some(ct.spec_suffix()),
    ensures
        ({
            let filter = FilterView::Filter(f);
            let once = output_name(filter, name, path_extension(name), false);
            output_name(filter, once, path_extension(once), false) == once
        }),
{
}

/// With `fix_path`, and without a filter, the file name is left as it is.
pub proof fn lemma_name_left_alone(
    filter: FilterView,
    name: Seq<char>,
    ext: Option<Seq<char>>,
    fix_path: bool,
)
    requires
        fix_path || filter is NoFilter,
    ensures
        output_name(filter, name, ext, fix_path) == name,
{
}

/// Size of the pieces in which the standard input is passed on.
pub const RELAY_BUFFER_LEN: usize = 65536;

/// What the relay of the standard input does after an attempt to read.
#[derive(Debug, Copy, Clone, PartialEq, Eq, Structural)]
pub enum RelayStep {
    /// Write this many bytes, the ones just read, and read again.
    Forward(usize),
    /// Stop, and close the pipe.
    Finish,
}

/// What the relay does after a read that gave `read` bytes, or failed
/// (`None`).
pub open spec fn relay_after(read: Option<usize>) -> RelayStep {
    match read {
        Some(n) => if n > 0 {
            RelayStep::Forward(n)
        } else {
            RelayStep::Finish
        },
        None => RelayStep::Finish,
    }
}

/// Decides how the relay of the standard input goes on after an attempt to
/// read: what was read is passed on, and the relay ends with the input or
/// with the first failure.
///
/// The relay starts by writing the bytes that were read ahead, so the
/// consumer sees them first and everything else in the order it was read.
pub fn relay_step(read: Option<usize>) -> (r: RelayStep)
    ensures
        r == relay_after(read),
{
    match read {
        Some(n) => {
            if n > 0 {
                RelayStep::Forward(n)
            } else {
                RelayStep::Finish
            }
        },
        None => RelayStep::Finish,
    }
}

/// What was read ahead of the standard input is not lost: where there is
/// no file name, the plan for a reader hands on the very bytes that were
/// read, to be sent ahead of the rest.
pub proof fn lemma_probe_is_handed_on(filter: FilterView, probe: Seq<u8>)
    requires
        probe.len() > 0,
    ensures
        reader_plan(filter, None, probe).source == SourceView::Pipe(probe),
{
}

/// The settings from which a reader or a writer is made.
#[derive(Debug)]
pub struct CompressIo {
    path: Option<String>,
    ctype: CompressType,
    cthreads: CompressThreads,
    fix_path: bool,
    no_wait: bool,
}

/// The contents of a [`CompressIo`].
pub struct CompressIoView {
    /// The file to read or write; without one, the standard input or output
    /// is used.
    pub path: Option<Seq<char>>,
    /// The format; `Unknown` to have it found out.
    pub ctype: CompressType,
    /// How many threads a compressing utility is asked to use.
    pub cthreads: CompressThreads,
    /// Whether the name of an output file is left as it is.
    pub fix_path: bool,
    /// Whether the child process of a writer is left alone when the writer
    /// is closed.
    pub no_wait: bool,
}

impl View for CompressIo {
    type V = CompressIoView;

    closed spec fn view(&self) -> CompressIoView {
        CompressIoView {
            path: opt_view(self.path),
            ctype: self.ctype,
            cthreads: self.cthreads,
            fix_path: self.fix_path,
            no_wait: self.no_wait,
        }
    }
}

impl Default for CompressIo {
    fn default() -> (r: Self)
        ensures
            r@ == CompressIoView::initial(),
    {
        Self::new()
    }
}

impl CompressIoView {
    /// The settings to start from: no file, the format to be found out, the
    /// utility's own number of threads, the suffix added to output names,
    /// and the child waited for.
    pub open spec fn initial() -> CompressIoView {
        CompressIoView {
            path: None,
            ctype: CompressType::Unknown,
            cthreads: CompressThreads::Default,
            fix_path: false,
            no_wait: false,
        }
    }

    /// The format that a writer with these settings writes, where `ext` is
    /// the extension of the file name: the one that was set, or else the
    /// one that the extension stands for.
    pub open spec fn write_kind(self, ext: Option<Seq<char>>) -> CompressType {
        if self.ctype is Unknown {
            match self.path {
                Some(_) => CompressType::of_extension(ext),
                None => CompressType::NoFilter,
            }
        } else {
            self.ctype
        }
    }

    /// The plan for a reader with these settings, once the format of the
    /// input is known to be `ctype` and `probe` was read ahead to find it.
    pub open spec fn reader(self, tools: Seq<ToolView>, ctype: CompressType, probe: Seq<u8>) -> Result<
        ReaderPlanView,
        CompressErrorView,
    > {
        match filter_for(tools, Role::Decompress, ctype, None) {
            Ok(f) => Ok(reader_plan(f, self.path, probe)),
            Err(e) => Err(e),
        }
    }

    /// The plan for a writer with these settings, where `ext` is the
    /// extension of the file name and `n` the number of threads to ask for.
    pub open spec fn writer(self, tools: Seq<ToolView>, ext: Option<Seq<char>>, n: Option<usize>) -> Result<
        WriterPlanView,
        CompressErrorView,
    > {
        match filter_for(tools, Role::Compress, self.write_kind(ext), n) {
            Ok(f) => Ok(writer_plan(f, self.path, ext, self.fix_path, self.no_wait)),
            Err(e) => Err(e),
        }
    }
}

/// The contents of a plan for a reader, or of the failure to make one.
pub open spec fn reader_result(r: Result<ReaderPlan, CompressError>) -> Result<
    ReaderPlanView,
    CompressErrorView,
> {
    match r {
        Ok(p) => Ok(p@),
        Err(e) => Err(e@),
    }
}

/// The contents of a plan for a writer, or of the failure to make one.
pub open spec fn writer_result(r: Result<WriterPlan, CompressError>) -> Result<
    WriterPlanView,
    CompressErrorView,
> {
    match r {
        Ok(p) => Ok(p@),
        Err(e) => Err(e@),
    }
}

impl CompressIo {
    /// The settings to start from: a reader is connected to the standard
    /// input and finds the format out from the first bytes; a writer is
    /// connected to the standard output.
    pub fn new() -> (r: Self)
        ensures
            r@ == CompressIoView::initial(),
    {
        Self {
            path: None,
            ctype: CompressType::Unknown,
            cthreads: CompressThreads::Default,
            fix_path: false,
            no_wait: false,
        }
    }

    /// Sets the file to read or write.
    pub fn path(&mut self, path: &str) -> (r: &mut Self)
        ensures
            r@ == (CompressIoView { path: Some(path@), ..old(self)@ }),
            *final(self) == *final(r),
    {
        self.path = Some(path.to_owned());
        self
    }

    /// Sets the file to read or write, or goes back to the standard input
    /// or output.
    pub fn opt_path(&mut self, path: Option<&str>) -> (r: &mut Self)
        ensures
            r@ == (CompressIoView { path: opt_str_view(path), ..old(self)@ }),
            *final(self) == *final(r),
    {
        self.path = match path {
            Some(p) => Some(p.to_owned()),
            None => None,
        };
        self
    }

    /// Sets the format, in place of finding it out: a reader would look at
    /// the first bytes, a writer at the extension of the file name.
    pub fn ctype(&mut self, ctype: CompressType) -> (r: &mut Self)
        ensures
            r@ == (CompressIoView { ctype, ..old(self)@ }),
            *final(self) == *final(r),
    {
        self.ctype = ctype;
        self
    }

    /// Sets how many threads a compressing utility is asked to use.  This
    /// changes nothing for a reader.
    pub fn cthreads(&mut self, cthreads: CompressThreads) -> (r: &mut Self)
        ensures
            r@ == (CompressIoView { cthreads, ..old(self)@ }),
            *final(self) == *final(r),
    {
        self.cthreads = cthreads;
        self
    }

    /// Has the name of an output file left as it is, without the suffix of
    /// the format.
    pub fn fix_path(&mut self) -> (r: &mut Self)
        ensures
            r@ == (CompressIoView { fix_path: true, ..old(self)@ }),
            *final(self) == *final(r),
    {
        self.fix_path = true;
        self
    }

    /// Has the child process of a writer left alone when the writer is
    /// closed, in place of waiting for it.
    pub fn no_wait(&mut self) -> (r: &mut Self)
        ensures
            r@ == (CompressIoView { no_wait: true, ..old(self)@ }),
            *final(self) == *final(r),
    {
        self.no_wait = true;
        self
    }

    /// The file to read or write, if one was set.
    pub fn file(&self) -> (r: Option<&str>)
        ensures
            opt_str_view(r) == self@.path,
    {
        match &self.path {
            Some(p) => Some(p.as_str()),
            None => None,
        }
    }

    /// Says what has to be read into `buf` before a reader can be planned.
    /// Where the format was set there is nothing to read, and `buf` is
    /// emptied.
    pub fn probe(&self, buf: &mut CheckBuf) -> (r: Probe)
        ensures
            r == probe_for(self@.path is Some, self@.ctype, true),
            final(buf)@ == (if self@.ctype is Unknown {
                old(buf)@
            } else {
                Seq::<u8>::empty()
            }),
    {
        check_read_ctype(self.file(), self.ctype, Some(buf))
    }

    /// The plan for a reader, once the format of the input is known to be
    /// `ctype`; `buf` holds what was read ahead to find it.
    pub fn reader(&self, tools: &ToolRegister, ctype: CompressType, buf: CheckBuf) -> (r: Result<
        ReaderPlan,
        CompressError,
    >)
        ensures
            reader_result(r) == self@.reader(tools@, ctype, buf@),
            r is Ok <==> ctype is NoFilter || exists|i: int, p: nat|
                eligible(tools@, Role::Decompress, ctype, i, p),
    {
        match Filter::new_decompress_filter(tools, ctype) {
            Ok(filter) => Ok(filter.reader(self.file(), buf)),
            Err(e) => Err(e),
        }
    }

    /// The plan for a writer.
    ///
    /// Where no format was set, the extension of the file name decides,
    /// and the standard output is written as it is.
    pub fn writer(&self, tools: &ToolRegister) -> (r: Result<WriterPlan, CompressError>)
        ensures
            exists|n: Option<usize>|
                self@.cthreads.admits(n) && writer_result(r) == #[trigger] self@.writer(
                    tools@,
                    opt_extension(self@.path),
                    n,
                ),
            r is Ok <==> self@.write_kind(opt_extension(self@.path)) is NoFilter || exists|
                i: int,
                p: nat,
            |
                eligible(
                    tools@,
                    Role::Compress,
                    self@.write_kind(opt_extension(self@.path)),
                    i,
                    p,
                ),
    {
        let ctype = match self.ctype {
            CompressType::Unknown => {
                match self.file() {
                    Some(p) => CompressType::from_suffix(p),
                    None => CompressType::NoFilter,
                }
            },
            _ => self.ctype,
        };
        let ghost ext = opt_extension(self@.path);
        assert(ctype == self@.write_kind(ext));
        let found = Filter::new_compress_filter(tools, ctype, self.cthreads);
        let ghost n = choose|n: Option<usize>|
            self@.cthreads.admits(n) && filter_result(found) == #[trigger] filter_for(
                tools@,
                Role::Compress,
                ctype,
                n,
            );
        match found {
            Ok(filter) => {
                let plan = filter.writer(self.file(), self.fix_path, self.no_wait);
                assert(Ok::<WriterPlanView, CompressErrorView>(plan@) == self@.writer(tools@, ext, n));
                Ok(plan)
            },
            Err(e) => {
                assert(Err::<WriterPlanView, CompressErrorView>(e@) == self@.writer(tools@, ext, n));
                Err(e)
            },
        }
    }
}

/// A writer is planned for the same file whatever number of threads is
/// asked for: its name follows from the settings and the tools alone.
pub proof fn lemma_writer_file_is_settled(
    io: CompressIoView,
    tools: Seq<ToolView>,
    ext: Option<Seq<char>>,
    n: Option<usize>,
    m: Option<usize>,
)
    ensures
        io.writer(tools, ext, n) is Ok <==> io.writer(tools, ext, m) is Ok,
        io.writer(tools, ext, n) is Ok ==> io.writer(tools, ext, n)->Ok_0.sink == io.writer(
            tools,
            ext,
            m,
        )->Ok_0.sink,
{
}

} // verus!
