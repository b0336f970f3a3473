//! File names and the bytes at the head of a stream.

use vstd::prelude::*;
use vstd::string::*;
use crate::compress_type::{get_ctype, magic_kind, CompressType, MAGIC_LEN};
use crate::text::opt_view;

verus! {

/// The directories in which executables are looked for where no search path
/// is set, separated by colons.
pub const DEFAULT_SEARCH_PATH: &'static str = "/usr/bin:/usr/local/bin";

/// The extension of a file name, as `std::path::Path::extension` tells it:
/// what follows the last dot of the last component, where that component
/// has a dot that is not its first character.
pub uninterp spec fn path_extension(path: Seq<char>) -> Option<Seq<char>>;

/// `std::path::Path::extension` on the path written `path`, as a string.
#[verifier::external_body]
pub(crate) fn extension_of(path: &str) -> (r: Option<String>)
    ensures
        opt_view(r) == path_extension(path@),
{
    std::path::Path::new(path).extension().map(|e| e.to_string_lossy().into_owned())
}

/// The file name `path` with a dot and `ext` behind it.
pub open spec fn with_ext(path: Seq<char>, ext: Seq<char>) -> Seq<char> {
    path + seq!['.'] + ext
}

/// The file name `path`, which has the extension `ext`, made to end in
/// `suffix`: as it is where the extension is the suffix already, and with
/// the suffix added where it is not.
pub open spec fn suffixed(path: Seq<char>, ext: Option<Seq<char>>, suffix: Seq<char>) -> Seq<
    char,
> {
    if ext == Some(suffix) {
        path
    } else {
        with_ext(path, suffix)
    }
}

fn add_ext_to_path(p: &str, ext: &str) -> (r: String)
    ensures
        r@ == with_ext(p@, ext@),
{
    proof {
        reveal_strlit(".");
    }
    let mut buf = p.to_owned();
    buf.append(".");
    buf.append(ext);
    buf
}

/// Adds `suffix` to the file name `path`, whose extension is `ext`, unless
/// it is there already.
pub fn add_suffix_unless(path: &str, ext: Option<&str>, suffix: &str) -> (r: String)
    ensures
        r@ == suffixed(
            path@,
            match ext {
                Some(e) => Some(e@),
                None => None,
            },
            suffix@,
        ),
{
    match ext {
        Some(e) => {
            if e.eq(suffix) {
                path.to_owned()
            } else {
                add_ext_to_path(path, suffix)
            }
        },
        None => add_ext_to_path(path, suffix),
    }
}

/// Adds `suffix` to the file name `path` unless it is there already.
pub fn cond_add_suffix(path: &str, suffix: &str) -> (r: String)
    ensures
        r@ == suffixed(path@, path_extension(path@), suffix@),
{
    let ext = extension_of(path);
    match &ext {
        Some(e) => add_suffix_unless(path, Some(e.as_str()), suffix),
        None => add_suffix_unless(path, None, suffix),
    }
}

/// A file name that carries the suffix is left as it is.
pub proof fn lemma_suffix_kept(path: Seq<char>, suffix: Seq<char>)
    requires
        path_extension(path) == Some(suffix),
    ensures
        suffixed(path, path_extension(path), suffix) == path,
{
}

/// Adding a suffix a second time changes nothing, provided that the suffix
/// is the extension of the name once it has been added.  (It is not where
/// the name has no stem to carry an extension, as in a name that is empty.)
pub proof fn lemma_suffix_added_once(path: Seq<char>, suffix: Seq<char>)
    requires
        path_extension(path) == Some(suffix) || path_extension(with_ext(path, suffix)) == Some(
            suffix,
        ),
    ensures
        ({
            let once = suffixed(path, path_extension(path), suffix);
            suffixed(once, path_extension(once), suffix) == once
        }),
{
}

/// The first bytes of a stream, read ahead of its consumer to tell the
/// format of the stream.
#[derive(Debug, Clone, Eq, PartialEq)]
pub struct CheckBuf(Vec<u8>);

impl View for CheckBuf {
    type V = Seq<u8>;

    closed spec fn view(&self) -> Seq<u8> {
        self.0@
    }
}

impl Default for CheckBuf {
    /// A buffer of `MAGIC_LEN` zero bytes, ready to be read into.
    fn default() -> (r: Self)
        ensures
            r@ == Seq::new(MAGIC_LEN as nat, |i: int| 0u8),
    {
        let mut v: Vec<u8> = Vec::new();
        let mut i: usize = 0;
        while i < MAGIC_LEN
            invariant
                i <= MAGIC_LEN,
                v@ == Seq::new(i as nat, |i: int| 0u8),
            decreases MAGIC_LEN - i,
        {
            v.push(0);
            i += 1;
        }
        Self(v)
    }
}

impl core::ops::Deref for CheckBuf {
    type Target = [u8];

    fn deref(&self) -> (r: &[u8])
        ensures
            r@ == self@,
    {
        self.0.as_slice()
    }
}

impl core::ops::DerefMut for CheckBuf {
    fn deref_mut(&mut self) -> (r: &mut [u8])
        ensures
            r@ == old(self)@,
            final(self)@ == final(r)@,
    {
        self.0.as_mut_slice()
    }
}

impl CheckBuf {
    /// A buffer of `MAGIC_LEN` zero bytes, ready to be read into.
    pub fn new() -> (r: Self)
        ensures
            r@ == Seq::new(MAGIC_LEN as nat, |i: int| 0u8),
    {
        Self::default()
    }

    /// Empties the buffer: nothing was read ahead.
    pub fn clear(&mut self)
        ensures
            final(self)@ == Seq::<u8>::empty(),
    {
        self.0.clear()
    }

    /// Keeps the first `n` bytes, or all of them where there are fewer.
    pub fn truncate(&mut self, n: usize)
        ensures
            final(self)@ == old(self)@.take(
                if n <= old(self)@.len() {
                    n as int
                } else {
                    old(self)@.len() as int
                },
            ),
    {
        self.0.truncate(n);
        assert(old(self)@.take(old(self)@.len() as int) =~= old(self)@);
    }

    pub fn len(&self) -> (r: usize)
        ensures
            r == self@.len(),
    {
        self.0.len()
    }

    pub fn is_empty(&self) -> (r: bool)
        ensures
            r == (self@.len() == 0),
    {
        self.0.len() == 0
    }
}

/// What has to be read before the format of an input is known.
#[derive(Debug, Copy, Clone, PartialEq, Eq, Structural)]
pub enum Probe {
    /// The head of the named file.
    File,
    /// The head of the standard input.
    Stdin,
    /// Nothing: the format is the one given.
    Known(CompressType),
}

/// What has to be read to learn the format of an input, given whether the
/// input has a file name, which format was asked for, and whether there is
/// a buffer to read into.
pub open spec fn probe_for(has_name: bool, ctype: CompressType, has_buf: bool) -> Probe {
    if ctype is Unknown {
        if has_name {
            Probe::File
        } else if has_buf {
            Probe::Stdin
        } else {
            Probe::Known(CompressType::NoFilter)
        }
    } else {
        Probe::Known(ctype)
    }
}

/// Says what has to be read to learn the format of the input `name`, or of
/// the standard input where there is no name.
///
/// A format other than `Unknown` is taken as given; the buffer is then
/// emptied, since nothing is read ahead.  The format of the standard input
/// can only be looked for where there is a buffer to hold what was read.
pub fn check_read_ctype(name: Option<&str>, ctype: CompressType, buf: Option<&mut CheckBuf>) -> (r:
    Probe)
    ensures
        r == probe_for(name is Some, ctype, buf is Some),
        buf matches Some(b) ==> final(b)@ == (if ctype is Unknown {
            b@
        } else {
            Seq::<u8>::empty()
        }),
{
    match ctype {
        CompressType::Unknown => {
            if name.is_some() {
                Probe::File
            } else if buf.is_some() {
                Probe::Stdin
            } else {
                Probe::Known(CompressType::NoFilter)
            }
        },
        _ => {
            match buf {
                Some(b) => {
                    b.clear();
                },
                None => {},
            }
            Probe::Known(ctype)
        },
    }
}

/// Tells the format of a stream after `n` bytes of it were read into `buf`.
///
/// The buffer is cut down to the bytes that were read.  A stream that gave
/// fewer than `MAGIC_LEN` bytes is taken as not compressed.
pub fn guess_ctype_from_read(n: usize, buf: &mut CheckBuf) -> (r: CompressType)
    ensures
        final(buf)@ == old(buf)@.take(
            if n <= old(buf)@.len() {
                n as int
            } else {
                old(buf)@.len() as int
            },
        ),
        r == magic_kind(final(buf)@),
{
    buf.truncate(n);
    get_ctype(buf.0.as_slice())
}

} // verus!
