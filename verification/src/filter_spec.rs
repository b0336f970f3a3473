//! The description of one call of an external utility.

use vstd::prelude::*;
use vstd::string::*;
use crate::compress_type::CompressType;
use crate::path_utils::{cond_add_suffix, path_extension, suffixed};
use crate::text::views;

verus! {

/// A filter: an external utility, with its arguments, through which a
/// stream is passed.
///
/// A filter that writes compressed data knows the format that it writes, by
/// which the name of its output file is completed.
#[derive(Debug)]
pub struct FilterSpec {
    path: String,
    args: Vec<String>,
    compress_type: Option<CompressType>,
}

/// The contents of a [`FilterSpec`].
pub struct FilterSpecView {
    /// Where the executable is.
    pub path: Seq<char>,
    /// The arguments it is called with, in order.
    pub args: Seq<Seq<char>>,
    /// The format by whose suffix file names are completed, if any.
    pub compress_type: Option<CompressType>,
}

impl FilterSpecView {
    /// The name under which the output file `name`, whose extension is
    /// `ext`, is written: with the suffix of the filter's format, unless it
    /// carries that suffix already or the filter has no format.
    pub open spec fn file_name(self, name: Seq<char>, ext: Option<Seq<char>>) -> Seq<char> {
        match self.compress_type {
            Some(ct) => suffixed(name, ext, ct.spec_suffix()),
            None => name,
        }
    }
}

impl View for FilterSpec {
    type V = FilterSpecView;

    closed spec fn view(&self) -> FilterSpecView {
        FilterSpecView {
            path: self.path@,
            args: views(self.args@),
            compress_type: self.compress_type,
        }
    }
}

impl FilterSpec {
    /// A filter that calls the executable at `path` with `args`.
    pub fn new(path: &str, args: Vec<String>) -> (r: Self)
        ensures
            r@ == (FilterSpecView { path: path@, args: views(args@), compress_type: None }),
    {
        Self { path: path.to_owned(), args, compress_type: None }
    }

    /// A filter that calls the executable at `path` with `args`, and whose
    /// output is in the format `ctype`.
    pub fn new_compress(path: &str, args: Vec<String>, ctype: CompressType) -> (r: Self)
        ensures
            r@ == (FilterSpecView { path: path@, args: views(args@), compress_type: Some(ctype) }),
    {
        Self { path: path.to_owned(), args, compress_type: Some(ctype) }
    }

    /// The name under which the output file `name` is written.
    pub fn cond_add_suffix(&self, name: &str) -> (r: String)
        ensures
            r@ == self@.file_name(name@, path_extension(name@)),
    {
        match self.compress_type {
            Some(ct) => cond_add_suffix(name, ct.suffix()),
            None => name.to_owned(),
        }
    }

    pub fn compress_type(&self) -> (r: Option<CompressType>)
        ensures
            r == self@.compress_type,
    {
        self.compress_type
    }

    pub fn path(&self) -> (r: &str)
        ensures
            r@ == self@.path,
    {
        self.path.as_str()
    }

    pub fn args(&self) -> (r: &[String])
        ensures
            views(r@) == self@.args,
    {
        self.args.as_slice()
    }
}

} // verus!
