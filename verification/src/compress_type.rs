//! Compression formats: their names, file suffixes and magic numbers.

use vstd::prelude::*;
use vstd::string::*;
use crate::error::{CompressError, CompressErrorView};
use crate::path_utils::{extension_of, path_extension};
use crate::tools::{best_tool, eligible, Role, Tool, ToolRegister};

verus! {

/// Ask of the machine how many logical cores it has.  Nothing is claimed of
/// the answer of `num_cpus::get`.
pub assume_specification[ num_cpus::get ]() -> usize;

/// Ask of the machine how many physical cores it has.  Nothing is claimed of
/// the answer of `num_cpus::get_physical`.
pub assume_specification[ num_cpus::get_physical ]() -> usize;

/// How many threads a compression utility is asked to use.
#[derive(Debug, Copy, Clone)]
pub enum CompressThreads {
    /// Leave it to the utility.
    Default,
    /// This number of threads.
    ExplicitCount(usize),
    /// As many threads as the machine has logical cores.
    NCores,
    /// As many threads as the machine has physical cores.
    NPhysCores,
}

impl Default for CompressThreads {
    fn default() -> (r: Self)
        ensures
            r is Default,
    {
        Self::Default
    }
}

impl CompressThreads {
    /// Whether `n` is a thread count that this preference can resolve to.
    pub open spec fn admits(self, n: Option<usize>) -> bool {
        match self {
            CompressThreads::Default => n is None,
            CompressThreads::ExplicitCount(x) => n == Some(x),
            CompressThreads::NCores | CompressThreads::NPhysCores => n is Some,
        }
    }

    /// The number of threads to ask for, or `None` to leave it to the utility.
    pub fn n_threads(&self) -> (r: Option<usize>)
        ensures
            self.admits(r),
    {
        match self {
            Self::Default => None,
            Self::ExplicitCount(x) => Some(*x),
            Self::NCores => Some(num_cpus::get()),
            Self::NPhysCores => Some(num_cpus::get_physical()),
        }
    }
}

/// The compression formats that are recognised.
///
/// `NoFilter` stands for data that needs no filtering at all, `Unknown` for a
/// format that has not been determined yet.
#[derive(Debug, Copy, Clone, PartialEq, Eq, Hash, Structural)]
pub enum CompressType {
    Gzip,
    Bgzip,
    Compress,
    Bzip2,
    Xz,
    Lz4,
    Lzma,
    Zstd,
    NoFilter,
    Unknown,
}

impl Default for CompressType {
    fn default() -> (r: Self)
        ensures
            r == CompressType::Unknown,
    {
        Self::Unknown
    }
}

/// Number of formats, the two that stand for "none" and "not known" included.
pub const KIND_COUNT: usize = 10;

impl CompressType {
    /// The position of the format in the list of formats.
    pub open spec fn spec_index(self) -> int {
        match self {
            CompressType::Gzip => 0,
            CompressType::Bgzip => 1,
            CompressType::Compress => 2,
            CompressType::Bzip2 => 3,
            CompressType::Xz => 4,
            CompressType::Lz4 => 5,
            CompressType::Lzma => 6,
            CompressType::Zstd => 7,
            CompressType::NoFilter => 8,
            CompressType::Unknown => 9,
        }
    }

    /// The name of the format.
    pub open spec fn spec_name(self) -> Seq<char> {
        match self {
            CompressType::Gzip => "gzip"@,
            CompressType::Bgzip => "bgzip"@,
            CompressType::Compress => "compress"@,
            CompressType::Bzip2 => "bzip2"@,
            CompressType::Xz => "xz"@,
            CompressType::Lz4 => "lz4"@,
            CompressType::Lzma => "lzma"@,
            CompressType::Zstd => "zstd"@,
            CompressType::NoFilter => "no filter"@,
            CompressType::Unknown => "unknown"@,
        }
    }

    /// The suffix that files of the format carry, without the dot.  The
    /// blocked variant of gzip shares the suffix of gzip; the two kinds that
    /// are no format have the empty suffix.
    pub open spec fn spec_suffix(self) -> Seq<char> {
        match self {
            CompressType::Gzip => "gz"@,
            CompressType::Bgzip => "gz"@,
            CompressType::Compress => "Z"@,
            CompressType::Bzip2 => "bz2"@,
            CompressType::Xz => "xz"@,
            CompressType::Lzma => "lzma"@,
            CompressType::Lz4 => "lz4"@,
            CompressType::Zstd => "zst"@,
            CompressType::NoFilter => ""@,
            CompressType::Unknown => ""@,
        }
    }

    /// The format that a file extension stands for.  An extension that
    /// stands for none, and a missing one, mean that there is nothing to
    /// filter.
    pub open spec fn of_extension(ext: Option<Seq<char>>) -> CompressType {
        match ext {
            Some(e) => if e == "gz"@ {
                CompressType::Gzip
            } else if e == "Z"@ {
                CompressType::Compress
            } else if e == "bz2"@ {
                CompressType::Bzip2
            } else if e == "xz"@ {
                CompressType::Xz
            } else if e == "lz4"@ {
                CompressType::Lz4
            } else if e == "lzma"@ {
                CompressType::Lzma
            } else if e == "zst"@ {
                CompressType::Zstd
            } else {
                CompressType::NoFilter
            },
            None => CompressType::NoFilter,
        }
    }

    /// The format that is written `name`, letter for letter.
    pub open spec fn named(name: Seq<char>) -> Option<CompressType> {
        if name == "gzip"@ {
            Some(CompressType::Gzip)
        } else if name == "bzip2"@ {
            Some(CompressType::Bzip2)
        } else if name == "bgzip"@ {
            Some(CompressType::Bgzip)
        } else if name == "xz"@ {
            Some(CompressType::Xz)
        } else if name == "lz4"@ {
            Some(CompressType::Lz4)
        } else if name == "lzma"@ {
            Some(CompressType::Lzma)
        } else if name == "zstd"@ {
            Some(CompressType::Zstd)
        } else {
            None
        }
    }

    /// The name of the format.
    pub fn name(&self) -> (r: &'static str)
        ensures
            r@ == self.spec_name(),
    {
        match self {
            CompressType::Gzip => "gzip",
            CompressType::Bgzip => "bgzip",
            CompressType::Compress => "compress",
            CompressType::Bzip2 => "bzip2",
            CompressType::Xz => "xz",
            CompressType::Lz4 => "lz4",
            CompressType::Lzma => "lzma",
            CompressType::Zstd => "zstd",
            CompressType::NoFilter => "no filter",
            CompressType::Unknown => "unknown",
        }
    }

    /// The name of the format.
    pub fn to_string(&self) -> (r: String)
        ensures
            r@ == self.spec_name(),
    {
        String::from_str(self.name())
    }

    /// The format that the extension `ext` of a file name stands for.
    pub fn from_extension(ext: Option<&str>) -> (r: Self)
        ensures
            r == Self::of_extension(
                match ext {
                    Some(e) => Some(e@),
                    None => None,
                },
            ),
    {
        match ext {
            Some(e) => {
                if e.eq("gz") {
                    Self::Gzip
                } else if e.eq("Z") {
                    Self::Compress
                } else if e.eq("bz2") {
                    Self::Bzip2
                } else if e.eq("xz") {
                    Self::Xz
                } else if e.eq("lz4") {
                    Self::Lz4
                } else if e.eq("lzma") {
                    Self::Lzma
                } else if e.eq("zst") {
                    Self::Zstd
                } else {
                    Self::NoFilter
                }
            },
            None => Self::NoFilter,
        }
    }

    /// The format that the extension of the file name `path` stands for.
    pub fn from_suffix(path: &str) -> (r: Self)
        ensures
            r == Self::of_extension(path_extension(path@)),
    {
        let ext = extension_of(path);
        match &ext {
            Some(e) => Self::from_extension(Some(e.as_str())),
            None => Self::from_extension(None),
        }
    }

    /// The format whose name is `s` once the letters of `s` are in upper
    /// case.
    pub fn from_str(s: &str) -> (r: Option<Self>)
        ensures
            r == Self::named(upper_case(s@)),
    {
        let up = ascii_uppercase(s);
        let name = up.as_str();
        if name.eq("gzip") {
            Some(Self::Gzip)
        } else if name.eq("bzip2") {
            Some(Self::Bzip2)
        } else if name.eq("bgzip") {
            Some(Self::Bgzip)
        } else if name.eq("xz") {
            Some(Self::Xz)
        } else if name.eq("lz4") {
            Some(Self::Lz4)
        } else if name.eq("lzma") {
            Some(Self::Lzma)
        } else if name.eq("zstd") {
            Some(Self::Zstd)
        } else {
            None
        }
    }

    /// The suffix that files of the format carry, without the dot.
    pub fn suffix(&self) -> (r: &'static str)
        ensures
            r@ == self.spec_suffix(),
    {
        match self {
            Self::Gzip => "gz",
            Self::Bgzip => "gz",
            Self::Compress => "Z",
            Self::Bzip2 => "bz2",
            Self::Xz => "xz",
            Self::Lzma => "lzma",
            Self::Lz4 => "lz4",
            Self::Zstd => "zst",
            _ => "",
        }
    }

    /// The tool of `tools` to decompress the format with.
    pub fn get_decompress_tool<'a>(&self, tools: &'a ToolRegister) -> (r: Result<
        &'a Tool,
        CompressError,
    >)
        ensures
            r is Ok <==> exists|i: int, p: nat| eligible(tools@, Role::Decompress, *self, i, p),
            match best_tool(tools@, Role::Decompress, *self) {
                Some(i) => 0 <= i < tools@.len() && (r matches Ok(t) && t@ == tools@[i]),
                None => r matches Err(e) && e@ == (CompressErrorView::ToolUnavailable {
                    kind: *self,
                    role: Role::Decompress,
                }),
            },
    {
        match tools.get_decompress_tool(*self) {
            Some(t) => Ok(t),
            None => Err(CompressError::ToolUnavailable { kind: *self, role: Role::Decompress }),
        }
    }

    /// The tool of `tools` to compress the format with.
    pub fn get_compress_tool<'a>(&self, tools: &'a ToolRegister) -> (r: Result<
        &'a Tool,
        CompressError,
    >)
        ensures
            r is Ok <==> exists|i: int, p: nat| eligible(tools@, Role::Compress, *self, i, p),
            match best_tool(tools@, Role::Compress, *self) {
                Some(i) => 0 <= i < tools@.len() && (r matches Ok(t) && t@ == tools@[i]),
                None => r matches Err(e) && e@ == (CompressErrorView::ToolUnavailable {
                    kind: *self,
                    role: Role::Compress,
                }),
            },
    {
        match tools.get_compress_tool(*self) {
            Some(t) => Ok(t),
            None => Err(CompressError::ToolUnavailable { kind: *self, role: Role::Compress }),
        }
    }

    /// The position of the format in the list of formats, by which tables
    /// of `KIND_COUNT` entries are indexed.
    pub fn index(&self) -> (r: usize)
        ensures
            r == self.spec_index(),
            r < KIND_COUNT,
    {
        match self {
            CompressType::Gzip => 0,
            CompressType::Bgzip => 1,
            CompressType::Compress => 2,
            CompressType::Bzip2 => 3,
            CompressType::Xz => 4,
            CompressType::Lz4 => 5,
            CompressType::Lzma => 6,
            CompressType::Zstd => 7,
            CompressType::NoFilter => 8,
            CompressType::Unknown => 9,
        }
    }
}

/// The upper case letter for a lower case letter of the ASCII range, and
/// any other character as it is.
pub open spec fn upper_char(c: char) -> char {
    if 'a' <= c <= 'z' {
        ((c as int) - 32) as char
    } else {
        c
    }
}

/// A text with its lower case letters of the ASCII range in upper case.
pub open spec fn upper_case(s: Seq<char>) -> Seq<char> {
    s.map_values(|c: char| upper_char(c))
}

/// `str::to_ascii_uppercase`: a copy of the text in which the letters `a` to
/// `z` are replaced by `A` to `Z`, and nothing else is changed.
#[verifier::external_body]
fn ascii_uppercase(s: &str) -> (r: String)
    ensures
        r@ == upper_case(s@),
{
    s.to_ascii_uppercase()
}

/// Number of bytes that are inspected to recognise a format.
pub const MAGIC_LEN: usize = 6;

/// `buf` starts with the bytes of `sig`.
pub open spec fn has_prefix(buf: Seq<u8>, sig: Seq<u8>) -> bool {
    sig.len() <= buf.len() && buf.subrange(0, sig.len() as int) == sig
}

/// The first bytes of data packed by `compress`.
pub open spec fn compress_magic() -> Seq<u8> {
    seq![0x1fu8, 0x9du8]
}

/// The first bytes of data in the gzip format, in its plain and in its
/// blocked variant.
pub open spec fn gzip_magic() -> Seq<u8> {
    seq![0x1fu8, 0x8bu8, 0x08u8]
}

/// The first bytes of data in the bzip2 format, which a digit follows.
pub open spec fn bzip2_magic() -> Seq<u8> {
    seq![0x42u8, 0x5au8, 0x68u8]
}

/// The first bytes of data in the xz format.
pub open spec fn xz_magic() -> Seq<u8> {
    seq![0xfdu8, 0x37u8, 0x7au8, 0x58u8, 0x5au8, 0x00u8]
}

/// The first bytes of data in the zstd format.
pub open spec fn zstd_magic() -> Seq<u8> {
    seq![0x28u8, 0xb5u8, 0x2fu8, 0xfdu8]
}

/// The first bytes of data in the lz4 format.
pub open spec fn lz4_magic() -> Seq<u8> {
    seq![0x04u8, 0x22u8, 0x4du8, 0x18u8]
}

/// The first bytes of data in the lzma format.
pub open spec fn lzma_magic() -> Seq<u8> {
    seq![0x5du8, 0x00u8, 0x00u8]
}

/// The format announced by a probe of `MAGIC_LEN` bytes, by its magic number.
///
/// The two variants of gzip are told apart by the flag, in the byte behind
/// the magic number, that says whether an extra field follows.  A probe of
/// any other length, or one that carries no known magic number, announces
/// no compression.
pub open spec fn magic_kind(buf: Seq<u8>) -> CompressType {
    if buf.len() != MAGIC_LEN {
        CompressType::NoFilter
    } else if has_prefix(buf, compress_magic()) {
        CompressType::Compress
    } else if has_prefix(buf, gzip_magic()) {
        if buf[3] & 4 == 0 {
            CompressType::Gzip
        } else {
            CompressType::Bgzip
        }
    } else if has_prefix(buf, bzip2_magic()) && 0x30 <= buf[3] <= 0x39 {
        CompressType::Bzip2
    } else if has_prefix(buf, xz_magic()) {
        CompressType::Xz
    } else if has_prefix(buf, zstd_magic()) {
        CompressType::Zstd
    } else if has_prefix(buf, lz4_magic()) {
        CompressType::Lz4
    } else if has_prefix(buf, lzma_magic()) {
        CompressType::Lzma
    } else {
        CompressType::NoFilter
    }
}

/// A signature is a prefix exactly when the probe agrees with it byte by byte.
proof fn lemma_has_prefix(buf: Seq<u8>, sig: Seq<u8>)
    requires
        sig.len() <= buf.len(),
    ensures
        has_prefix(buf, sig) <==> forall|i: int| 0 <= i < sig.len() ==> buf[i] == sig[i],
{
    let head = buf.subrange(0, sig.len() as int);
    if has_prefix(buf, sig) {
        assert forall|i: int| 0 <= i < sig.len() implies buf[i] == sig[i] by {
            assert(head[i] == buf[i]);
        }
    }
    if forall|i: int| 0 <= i < sig.len() ==> buf[i] == sig[i] {
        assert(head =~= sig);
    }
}

/// What it means, byte by byte, that a probe of `MAGIC_LEN` bytes carries
/// one of the magic numbers.
proof fn lemma_magic_bytes(buf: Seq<u8>)
    requires
        buf.len() == MAGIC_LEN,
    ensures
        has_prefix(buf, compress_magic()) <==> buf[0] == 0x1f && buf[1] == 0x9d,
        has_prefix(buf, gzip_magic()) <==> buf[0] == 0x1f && buf[1] == 0x8b && buf[2] == 0x08,
        has_prefix(buf, bzip2_magic()) <==> buf[0] == 0x42 && buf[1] == 0x5a && buf[2] == 0x68,
        has_prefix(buf, xz_magic()) <==> buf[0] == 0xfd && buf[1] == 0x37 && buf[2] == 0x7a
            && buf[3] == 0x58 && buf[4] == 0x5a && buf[5] == 0x00,
        has_prefix(buf, zstd_magic()) <==> buf[0] == 0x28 && buf[1] == 0xb5 && buf[2] == 0x2f
            && buf[3] == 0xfd,
        has_prefix(buf, lz4_magic()) <==> buf[0] == 0x04 && buf[1] == 0x22 && buf[2] == 0x4d
            && buf[3] == 0x18,
        has_prefix(buf, lzma_magic()) <==> buf[0] == 0x5d && buf[1] == 0x00 && buf[2] == 0x00,
{
    lemma_has_prefix(buf, compress_magic());
    lemma_has_prefix(buf, gzip_magic());
    lemma_has_prefix(buf, bzip2_magic());
    lemma_has_prefix(buf, xz_magic());
    lemma_has_prefix(buf, zstd_magic());
    lemma_has_prefix(buf, lz4_magic());
    lemma_has_prefix(buf, lzma_magic());
}

/// Every magic number announces its own format, whatever follows it in the
/// probe: no probe carries two of them.  A probe that carries none
/// announces no compression.
pub proof fn lemma_magic_numbers(buf: Seq<u8>)
    requires
        buf.len() == MAGIC_LEN,
    ensures
        has_prefix(buf, compress_magic()) ==> magic_kind(buf) == CompressType::Compress,
        has_prefix(buf, gzip_magic()) && buf[3] & 4 == 0 ==> magic_kind(buf) == CompressType::Gzip,
        has_prefix(buf, gzip_magic()) && buf[3] & 4 != 0 ==> magic_kind(buf) == CompressType::Bgzip,
        has_prefix(buf, bzip2_magic()) && 0x30 <= buf[3] <= 0x39 ==> magic_kind(buf)
            == CompressType::Bzip2,
        has_prefix(buf, xz_magic()) ==> magic_kind(buf) == CompressType::Xz,
        has_prefix(buf, zstd_magic()) ==> magic_kind(buf) == CompressType::Zstd,
        has_prefix(buf, lz4_magic()) ==> magic_kind(buf) == CompressType::Lz4,
        has_prefix(buf, lzma_magic()) ==> magic_kind(buf) == CompressType::Lzma,
        !has_prefix(buf, compress_magic()) && !has_prefix(buf, gzip_magic()) && !(has_prefix(
            buf,
            bzip2_magic(),
        ) && 0x30 <= buf[3] <= 0x39) && !has_prefix(buf, xz_magic()) && !has_prefix(
            buf,
            zstd_magic(),
        ) && !has_prefix(buf, lz4_magic()) && !has_prefix(buf, lzma_magic()) ==> magic_kind(buf)
            == CompressType::NoFilter,
{
    lemma_magic_bytes(buf);
}

/// The magic number of xz fills the whole probe.
pub proof fn lemma_xz_magic_is_the_probe(buf: Seq<u8>)
    requires
        buf.len() == MAGIC_LEN,
    ensures
        has_prefix(buf, xz_magic()) <==> buf == xz_magic(),
{
    assert(buf.subrange(0, 6) =~= buf);
}

/// The suffix of a format stands for that format, but for the blocked
/// variant of gzip, whose files are told from those of gzip by their
/// contents only.
pub proof fn lemma_suffix_names_kind(kind: CompressType)
    requires
        !(kind is Bgzip || kind is NoFilter || kind is Unknown),
    ensures
        CompressType::of_extension(Some(kind.spec_suffix())) == kind,
{
    reveal_strlit("gz");
    reveal_strlit("Z");
    reveal_strlit("bz2");
    reveal_strlit("xz");
    reveal_strlit("lz4");
    reveal_strlit("lzma");
    reveal_strlit("zst");
    assert("gz"@.len() == 2 && "gz"@[0] == 'g');
    assert("Z"@.len() == 1);
    assert("bz2"@.len() == 3 && "bz2"@[0] == 'b');
    assert("xz"@.len() == 2 && "xz"@[0] == 'x');
    assert("lz4"@.len() == 3 && "lz4"@[0] == 'l');
    assert("lzma"@.len() == 4);
    assert("zst"@.len() == 3 && "zst"@[0] == 'z');
}

/// An extension that is the suffix of no format, and a missing one, stand
/// for data that needs no filter.
pub proof fn lemma_other_extensions(ext: Option<Seq<char>>)
    requires
        ext matches Some(e) ==> forall|kind: CompressType| e != #[trigger] kind.spec_suffix(),
    ensures
        CompressType::of_extension(ext) == CompressType::NoFilter,
{
    if ext is Some {
        let e = ext->0;
        assert(e != CompressType::Gzip.spec_suffix());
        assert(e != CompressType::Compress.spec_suffix());
        assert(e != CompressType::Bzip2.spec_suffix());
        assert(e != CompressType::Xz.spec_suffix());
        assert(e != CompressType::Lz4.spec_suffix());
        assert(e != CompressType::Lzma.spec_suffix());
        assert(e != CompressType::Zstd.spec_suffix());
    }
}

/// Recognises the format of a stream from its first `MAGIC_LEN` bytes.
pub fn get_ctype(buf: &[u8]) -> (r: CompressType)
    ensures
        r == magic_kind(buf@),
{
    if buf.len() != MAGIC_LEN {
        return CompressType::NoFilter;
    }
    proof {
        lemma_magic_bytes(buf@);
    }
    if buf[0] == 0x1f {
        if buf[1] == 0x9d {
            CompressType::Compress
        } else if buf[1] == 0x8b && buf[2] == 0x08 {
            if (buf[3] & 4) == 0 {
                CompressType::Gzip
            } else {
                CompressType::Bgzip
            }
        } else {
            CompressType::NoFilter
        }
    } else if buf[0] == 0x42 && buf[1] == 0x5a && buf[2] == 0x68 && buf[3] >= 0x30 && buf[3]
        <= 0x39 {
        CompressType::Bzip2
    } else if buf[0] == 0xfd && buf[1] == 0x37 && buf[2] == 0x7a && buf[3] == 0x58 && buf[4]
        == 0x5a && buf[5] == 0x00 {
        CompressType::Xz
    } else if buf[0] == 0x28 && buf[1] == 0xb5 && buf[2] == 0x2f && buf[3] == 0xfd {
        CompressType::Zstd
    } else if buf[0] == 0x04 && buf[1] == 0x22 && buf[2] == 0x4d && buf[3] == 0x18 {
        CompressType::Lz4
    } else if buf[0] == 0x5d && buf[1] == 0x00 && buf[2] == 0x00 {
        CompressType::Lzma
    } else {
        CompressType::NoFilter
    }
}

} // verus!
