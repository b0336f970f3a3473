//! Plans for readers and writers that run under a cooperative scheduler.
//!
//! Which filter is used, with which arguments, and under which file name a
//! writer writes is decided exactly as for the blocking readers and
//! writers.  What differs is how a filter gets at the standard input after
//! a part of it was read ahead: the relay writes straight into the pipe of
//! the child process.

use vstd::prelude::*;
use vstd::string::*;
use crate::compress::{
    filter_for,
    filter_result,
    opt_extension,
    reader_result,
    source_for,
    writer_plan,
    writer_result,
    CompressIoView,
    Filter,
    FilterView,
    Invocation,
    InvocationView,
    ReaderPlan,
    ReaderPlanView,
    ReaderState,
    Source,
    SourceView,
    Wiring,
    WriterPlan,
    WriterPlanView,
};
use crate::compress_type::{CompressThreads, CompressType};
use crate::error::{CompressError, CompressErrorView};
use crate::filter_spec::{FilterSpec, FilterSpecView};
use crate::path_utils::{check_read_ctype, probe_for, CheckBuf, Probe};
use crate::text::{opt_str_view, opt_view};
use crate::tools::{eligible, Role, ToolRegister, ToolView};

verus! {

/// What the standard input of a filter is connected to.
#[derive(Debug)]
pub enum PipeType {
    /// An open file, which the caller supplies.
    Stdio,
    /// A new pipe, into which these bytes are written ahead of the standard
    /// input of this process.
    Pipe(CheckBuf),
    /// The standard input of this process.
    Stdin,
}

/// The contents of a [`PipeType`].
pub enum PipeTypeView {
    Stdio,
    Pipe(Seq<u8>),
    Stdin,
}

impl View for PipeType {
    type V = PipeTypeView;

    open spec fn view(&self) -> PipeTypeView {
        match self {
            PipeType::Stdio => PipeTypeView::Stdio,
            PipeType::Pipe(b) => PipeTypeView::Pipe(b@),
            PipeType::Stdin => PipeTypeView::Stdin,
        }
    }
}

impl Default for PipeType {
    fn default() -> (r: Self)
        ensures
            r@ == PipeTypeView::Stdin,
    {
        Self::Stdin
    }
}

/// The call of the filter `f` for reading from `input`: its output is piped
/// to this process.
pub open spec fn read_invocation(f: FilterSpecView, input: PipeTypeView) -> InvocationView {
    InvocationView {
        program: f.path,
        args: f.args,
        stdin: match input {
            PipeTypeView::Stdio => Wiring::Handle,
            PipeTypeView::Pipe(_) => Wiring::Piped,
            PipeTypeView::Stdin => Wiring::Inherit,
        },
        stdout: Wiring::Piped,
    }
}

/// The bytes that have to be written into the pipe of the child ahead of
/// the standard input.
pub open spec fn relay_bytes(input: PipeTypeView) -> Option<Seq<u8>> {
    match input {
        PipeTypeView::Pipe(b) => Some(b),
        _ => None,
    }
}

/// The call by which the filter `f` is started for reading from `input`,
/// and the bytes that the relay has to write first where the input is a
/// pipe.
pub fn open_read_filter(f: &FilterSpec, input: PipeType) -> (r: (Invocation, Option<CheckBuf>))
    ensures
        r.0@ == read_invocation(f@, input@),
        match r.1 {
            Some(b) => Some(b@),
            None => None,
        } == relay_bytes(input@),
{
    let (stdin, buf) = match input {
        PipeType::Stdio => (Wiring::Handle, None),
        PipeType::Stdin => (Wiring::Inherit, None),
        PipeType::Pipe(buf) => (Wiring::Piped, Some(buf)),
    };
    let call = crate::compress::open_read_filter(f, false);
    (Invocation { program: call.program, args: call.args, stdin, stdout: Wiring::Piped }, buf)
}

/// The call by which the filter `f` is started for writing; `output` says
/// whether it is handed a file to write, in place of the standard output.
pub fn open_write_filter(f: &FilterSpec, output: bool) -> (r: Invocation)
    ensures
        r@ == crate::compress::write_invocation(f@, output),
{
    crate::compress::open_write_filter(f, output)
}

/// What a filter reads from, given where the bytes of the reader come from.
pub open spec fn input_of(source: SourceView) -> PipeTypeView {
    match source {
        SourceView::File(_) => PipeTypeView::Stdio,
        SourceView::Pipe(b) => PipeTypeView::Pipe(b),
        SourceView::Stdin => PipeTypeView::Stdin,
    }
}

/// The plan for a reader of the input `name` through `filter`.
pub open spec fn reader_plan(filter: FilterView, name: Option<Seq<char>>, probe: Seq<u8>) -> ReaderPlanView {
    let source = source_for(name, probe);
    match filter {
        FilterView::NoFilter => crate::compress::reader_plan(filter, name, probe),
        FilterView::Filter(f) => ReaderPlanView {
            source,
            filter: Some(read_invocation(f, input_of(source))),
            state: ReaderState::Child,
        },
    }
}

impl Filter {
    /// The plan for a reader of the input `name` through this filter, or of
    /// the standard input where there is no name; `buf` holds what was read
    /// of the standard input to tell its format.
    pub fn new_read_filter(&self, name: Option<&str>, buf: CheckBuf) -> (r: ReaderPlan)
        ensures
            r@ == reader_plan(self@, opt_str_view(name), buf@),
    {
        match self {
            Filter::NoFilter => self.reader(name, buf),
            Filter::Filter(f) => {
                let input = match name {
                    Some(_) => PipeType::Stdio,
                    None => {
                        if !buf.is_empty() {
                            PipeType::Pipe(buf)
                        } else {
                            PipeType::Stdin
                        }
                    },
                };
                let (call, relay) = open_read_filter(f, input);
                let source = match name {
                    Some(p) => Source::File(p.to_owned()),
                    None => {
                        match relay {
                            Some(b) => Source::Pipe(b),
                            None => Source::Stdin,
                        }
                    },
                };
                ReaderPlan { source, filter: Some(call), state: ReaderState::from_child() }
            },
        }
    }

    /// The plan for a writer of the output `name` through this filter, or
    /// to the standard output where there is no name.  The child process of
    /// such a writer is always waited for.
    pub fn new_write_filter(&self, name: Option<&str>, fix_path: bool) -> (r: WriterPlan)
        ensures
            r@ == writer_plan(
                self@,
                opt_str_view(name),
                opt_extension(opt_str_view(name)),
                fix_path,
                false,
            ),
    {
        self.writer(name, fix_path, false)
    }
}

/// The settings from which a reader or a writer under a cooperative
/// scheduler is made.
#[derive(Debug)]
pub struct AsyncCompressIo {
    path: Option<String>,
    ctype: CompressType,
    cthreads: CompressThreads,
    fix_path: bool,
}

impl View for AsyncCompressIo {
    type V = CompressIoView;

    closed spec fn view(&self) -> CompressIoView {
        CompressIoView {
            path: opt_view(self.path),
            ctype: self.ctype,
            cthreads: self.cthreads,
            fix_path: self.fix_path,
            no_wait: false,
        }
    }
}

impl Default for AsyncCompressIo {
    fn default() -> (r: Self)
        ensures
            r@ == CompressIoView::initial(),
    {
        Self::new()
    }
}

/// The plan for a reader with the settings `io`, once the format of the
/// input is known to be `ctype` and `probe` was read ahead to find it.
pub open spec fn reader_for(
    io: CompressIoView,
    tools: Seq<ToolView>,
    ctype: CompressType,
    probe: Seq<u8>,
) -> Result<ReaderPlanView, CompressErrorView> {
    match filter_for(tools, Role::Decompress, ctype, None) {
        Ok(f) => Ok(reader_plan(f, io.path, probe)),
        Err(e) => Err(e),
    }
}

impl AsyncCompressIo {
    /// The settings to start from: a reader is connected to the standard
    /// input and finds the format out from the first bytes; a writer is
    /// connected to the standard output.
    pub fn new() -> (r: Self)
        ensures
            r@ == CompressIoView::initial(),
    {
        Self {
            path: None,
            ctype: CompressType::Unknown,
            cthreads: CompressThreads::Default,
            fix_path: false,
        }
    }

    /// Sets the file to read or write.
    pub fn path(&mut self, path: &str) -> (r: &mut Self)
        ensures
            r@ == (CompressIoView { path: Some(path@), ..old(self)@ }),
            *final(self) == *final(r),
    {
        self.path = Some(path.to_owned());
        self
    }

    /// Sets the file to read or write, or goes back to the standard input
    /// or output.
    pub fn opt_path(&mut self, path: Option<&str>) -> (r: &mut Self)
        ensures
            r@ == (CompressIoView { path: opt_str_view(path), ..old(self)@ }),
            *final(self) == *final(r),
    {
        self.path = match path {
            Some(p) => Some(p.to_owned()),
            None => None,
        };
        self
    }

    /// Sets the format, in place of finding it out.
    pub fn ctype(&mut self, ctype: CompressType) -> (r: &mut Self)
        ensures
            r@ == (CompressIoView { ctype, ..old(self)@ }),
            *final(self) == *final(r),
    {
        self.ctype = ctype;
        self
    }

    /// Sets how many threads a compressing utility is asked to use.
    pub fn cthreads(&mut self, cthreads: CompressThreads) -> (r: &mut Self)
        ensures
            r@ == (CompressIoView { cthreads, ..old(self)@ }),
            *final(self) == *final(r),
    {
        self.cthreads = cthreads;
        self
    }

    /// Says whether the name of an output file is left as it is (`true`),
    /// or completed by the suffix of the format.
    pub fn fix_path(&mut self, x: bool) -> (r: &mut Self)
        ensures
            r@ == (CompressIoView { fix_path: x, ..old(self)@ }),
            *final(self) == *final(r),
    {
        self.fix_path = x;
        self
    }

    /// The file to read or write, if one was set.
    pub fn file(&self) -> (r: Option<&str>)
        ensures
            opt_str_view(r) == self@.path,
    {
        match &self.path {
            Some(p) => Some(p.as_str()),
            None => None,
        }
    }

    /// Says what has to be read into `buf` before a reader can be planned.
    pub fn probe(&self, buf: &mut CheckBuf) -> (r: Probe)
        ensures
            r == probe_for(self@.path is Some, self@.ctype, true),
            final(buf)@ == (if self@.ctype is Unknown {
                old(buf)@
            } else {
                Seq::<u8>::empty()
            }),
    {
        check_read_ctype(self.file(), self.ctype, Some(buf))
    }

    /// The plan for a reader, once the format of the input is known to be
    /// `ctype`; `buf` holds what was read ahead to find it.
    pub fn reader(&self, tools: &ToolRegister, ctype: CompressType, buf: CheckBuf) -> (r: Result<
        ReaderPlan,
        CompressError,
    >)
        ensures
            reader_result(r) == reader_for(self@, tools@, ctype, buf@),
            r is Ok <==> ctype is NoFilter || exists|i: int, p: nat|
                eligible(tools@, Role::Decompress, ctype, i, p),
    {
        match Filter::new_decompress_filter(tools, ctype) {
            Ok(filter) => Ok(filter.new_read_filter(self.file(), buf)),
            Err(e) => Err(e),
        }
    }

    /// The plan for a writer.
    pub fn writer(&self, tools: &ToolRegister) -> (r: Result<WriterPlan, CompressError>)
        ensures
            exists|n: Option<usize>|
                self@.cthreads.admits(n) && writer_result(r) == #[trigger] self@.writer(
                    tools@,
                    opt_extension(self@.path),
                    n,
                ),
            r is Ok <==> self@.write_kind(opt_extension(self@.path)) is NoFilter || exists|
                i: int,
                p: nat,
            |
                eligible(
                    tools@,
                    Role::Compress,
                    self@.write_kind(opt_extension(self@.path)),
                    i,
                    p,
                ),
    {
        let ctype = match self.ctype {
            CompressType::Unknown => {
                match self.file() {
                    Some(p) => CompressType::from_suffix(p),
                    None => CompressType::NoFilter,
                }
            },
            _ => self.ctype,
        };
        let ghost ext = opt_extension(self@.path);
        assert(ctype == self@.write_kind(ext));
        let found = Filter::new_compress_filter(tools, ctype, self.cthreads);
        let ghost n = choose|n: Option<usize>|
            self@.cthreads.admits(n) && filter_result(found) == #[trigger] filter_for(
                tools@,
                Role::Compress,
                ctype,
                n,
            );
        match found {
            Ok(filter) => {
                let plan = filter.new_write_filter(self.file(), self.fix_path);
                assert(Ok::<WriterPlanView, CompressErrorView>(plan@) == self@.writer(tools@, ext, n));
                Ok(plan)
            },
            Err(e) => {
                assert(Err::<WriterPlanView, CompressErrorView>(e@) == self@.writer(tools@, ext, n));
                Err(e)
            },
        }
    }
}

/// Both kinds of readers and writers are planned alike: the same source,
/// the same utility with the same arguments, the same teardown.  Only the
/// connection of a filter to a relayed standard input differs.
pub proof fn lemma_same_plan(filter: FilterView, name: Option<Seq<char>>, probe: Seq<u8>)
    ensures
        reader_plan(filter, name, probe).source == crate::compress::reader_plan(
            filter,
            name,
            probe,
        ).source,
        reader_plan(filter, name, probe).state == crate::compress::reader_plan(
            filter,
            name,
            probe,
        ).state,
        reader_plan(filter, name, probe).filter is Some == crate::compress::reader_plan(
            filter,
            name,
            probe,
        ).filter is Some,
        reader_plan(filter, name, probe).filter matches Some(c) ==> {
            let d = crate::compress::reader_plan(filter, name, probe).filter->0;
            c.program == d.program && c.args == d.args && c.stdout == d.stdout && (c.stdin
                != d.stdin ==> name is None && probe.len() > 0)
        },
{
}

} // verus!
