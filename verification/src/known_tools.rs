//! The utilities that are known, with what each of them is called for.
//!
//! Within one format the ranks tell which utility is preferred: a utility
//! that works in several threads stands above the plain one, and a utility
//! that merely copes with a foreign format stands below the one made for it.

use vstd::prelude::*;
use crate::compress_type::CompressType;
use crate::tools::{
    tool_views,
    Service,
    ServiceView,
    Tool,
    ToolOpt,
    ToolOptView,
    ToolView,
};

verus! {

/// A service without options.
pub open spec fn plain(kind: CompressType, priority: nat) -> ServiceView {
    ServiceView { compress_type: kind, options: Seq::empty(), thread_option: None, priority }
}

/// A service that is called with one short option.
pub open spec fn flagged(kind: CompressType, flag: Seq<char>, priority: nat) -> ServiceView {
    ServiceView {
        compress_type: kind,
        options: seq![ToolOptView::Short(flag)],
        thread_option: None,
        priority,
    }
}

/// A service that is called with one long option.
pub open spec fn converting(kind: CompressType, option: Seq<char>) -> ServiceView {
    ServiceView {
        compress_type: kind,
        options: seq![ToolOptView::Long(option)],
        thread_option: None,
        priority: 0,
    }
}

/// A service that takes a number of threads through `thread_option`.
pub open spec fn threaded(kind: CompressType, thread_option: ToolOptView, priority: nat) -> ServiceView {
    ServiceView {
        compress_type: kind,
        options: Seq::empty(),
        thread_option: Some(thread_option),
        priority,
    }
}

/// A tool whose executable has not been looked for.
pub open spec fn unresolved(
    name: Seq<char>,
    decompress: Seq<ServiceView>,
    compress: Seq<ServiceView>,
) -> ToolView {
    ToolView { name, decompress, compress, path: None }
}

pub open spec fn uncompress_view() -> ToolView {
    unresolved("uncompress"@, seq![plain(CompressType::Compress, 10)], Seq::empty())
}

pub open spec fn gzip_view() -> ToolView {
    unresolved(
        "gzip"@,
        seq![
            flagged(CompressType::Gzip, "dcf"@, 10),
            flagged(CompressType::Bgzip, "dcf"@, 5),
            flagged(CompressType::Compress, "dcf"@, 5),
        ],
        seq![plain(CompressType::Gzip, 5)],
    )
}

pub open spec fn pigz_view() -> ToolView {
    unresolved(
        "pigz"@,
        seq![
            flagged(CompressType::Gzip, "dcf"@, 0),
            flagged(CompressType::Compress, "dcf"@, 0),
            flagged(CompressType::Bgzip, "dcf"@, 0),
        ],
        seq![threaded(CompressType::Gzip, ToolOptView::Long("processes"@), 10)],
    )
}

pub open spec fn bgzip_view() -> ToolView {
    unresolved(
        "bgzip"@,
        seq![flagged(CompressType::Bgzip, "dcf"@, 10), flagged(CompressType::Gzip, "dcf"@, 0)],
        seq![
            threaded(CompressType::Bgzip, ToolOptView::Long("threads"@), 10),
            plain(CompressType::Gzip, 0),
        ],
    )
}

pub open spec fn bzip2_view() -> ToolView {
    unresolved(
        "bzip2"@,
        seq![flagged(CompressType::Bzip2, "dcf"@, 10)],
        seq![plain(CompressType::Bzip2, 5)],
    )
}

pub open spec fn pbzip2_view() -> ToolView {
    unresolved(
        "pbzip2"@,
        seq![flagged(CompressType::Bzip2, "dcf"@, 5)],
        seq![threaded(CompressType::Bzip2, ToolOptView::Short("dcf"@), 10)],
    )
}

pub open spec fn xz_view() -> ToolView {
    unresolved(
        "xz"@,
        seq![flagged(CompressType::Xz, "dcf"@, 10), flagged(CompressType::Lzma, "dcf"@, 10)],
        seq![
            threaded(CompressType::Xz, ToolOptView::Long("threads"@), 10),
            ServiceView {
                compress_type: CompressType::Lzma,
                options: seq![ToolOptView::Long("format=lzma"@)],
                thread_option: Some(ToolOptView::Long("threads"@)),
                priority: 10,
            },
        ],
    )
}

pub open spec fn lzma_view() -> ToolView {
    unresolved(
        "lzma"@,
        seq![flagged(CompressType::Lzma, "dcf"@, 5)],
        seq![plain(CompressType::Lzma, 5)],
    )
}

pub open spec fn lz4_view() -> ToolView {
    unresolved(
        "lz4"@,
        seq![flagged(CompressType::Lzma, "dcfm"@, 5)],
        seq![plain(CompressType::Lzma, 5)],
    )
}

pub open spec fn zstd_view() -> ToolView {
    unresolved(
        "zstd"@,
        seq![
            flagged(CompressType::Zstd, "dcf"@, 10),
            flagged(CompressType::Gzip, "dcf"@, 0),
            flagged(CompressType::Xz, "dcf"@, 0),
            flagged(CompressType::Lzma, "dcf"@, 0),
            flagged(CompressType::Lz4, "dcf"@, 0),
        ],
        seq![
            threaded(CompressType::Zstd, ToolOptView::Short("T"@), 10),
            converting(CompressType::Gzip, "format=gzip"@),
            converting(CompressType::Xz, "format=xz"@),
            converting(CompressType::Lzma, "format=lzma"@),
            converting(CompressType::Lz4, "format=lz4"@),
        ],
    )
}

/// The known utilities, in the order in which they are registered.
pub open spec fn known_tool_views() -> Seq<ToolView> {
    seq![
        uncompress_view(),
        gzip_view(),
        pigz_view(),
        bgzip_view(),
        bzip2_view(),
        pbzip2_view(),
        xz_view(),
        lzma_view(),
        lz4_view(),
        zstd_view(),
    ]
}

fn uncompress() -> (r: Tool)
    ensures
        r@ == uncompress_view(),
{
    Tool::new("uncompress").decompress(Service::new(CompressType::Compress).priority(10))
}

fn gzip() -> (r: Tool)
    ensures
        r@ == gzip_view(),
{
    let r = Tool::new("gzip").decompress(
            Service::new(CompressType::Gzip).option(ToolOpt::short("dcf")).priority(10),
        ).decompress(
            Service::new(CompressType::Bgzip).option(ToolOpt::short("dcf")).priority(5),
        ).decompress(
            Service::new(CompressType::Compress).option(ToolOpt::short("dcf")).priority(5),
        ).compress(Service::new(CompressType::Gzip).priority(5));
    assert(r@.decompress =~= gzip_view().decompress);
    assert(r@.compress =~= gzip_view().compress);
    r
}

fn pigz() -> (r: Tool)
    ensures
        r@ == pigz_view(),
{
    let r = Tool::new("pigz").decompress(
            Service::new(CompressType::Gzip).option(ToolOpt::short("dcf")),
        ).decompress(Service::new(CompressType::Compress).option(ToolOpt::short("dcf"))).decompress(
            Service::new(CompressType::Bgzip).option(ToolOpt::short("dcf")),
        ).compress(
            Service::new(CompressType::Gzip).thread_option(ToolOpt::long("processes")).priority(10),
        );
    assert(r@.decompress =~= pigz_view().decompress);
    assert(r@.compress =~= pigz_view().compress);
    r
}

fn bgzip() -> (r: Tool)
    ensures
        r@ == bgzip_view(),
{
    let r = Tool::new("bgzip").decompress(
            Service::new(CompressType::Bgzip).option(ToolOpt::short("dcf")).priority(10),
        ).decompress(Service::new(CompressType::Gzip).option(ToolOpt::short("dcf"))).compress(
            Service::new(CompressType::Bgzip).thread_option(ToolOpt::long("threads")).priority(10),
        ).compress(Service::new(CompressType::Gzip));
    assert(r@.decompress =~= bgzip_view().decompress);
    assert(r@.compress =~= bgzip_view().compress);
    r
}

fn bzip2() -> (r: Tool)
    ensures
        r@ == bzip2_view(),
{
    Tool::new("bzip2").decompress(
        Service::new(CompressType::Bzip2).option(ToolOpt::short("dcf")).priority(10),
    ).compress(Service::new(CompressType::Bzip2).priority(5))
}

fn pbzip2() -> (r: Tool)
    ensures
        r@ == pbzip2_view(),
{
    Tool::new("pbzip2").decompress(
        Service::new(CompressType::Bzip2).option(ToolOpt::short("dcf")).priority(5),
    ).compress(
        Service::new(CompressType::Bzip2).thread_option(ToolOpt::short("dcf")).priority(10),
    )
}

fn xz() -> (r: Tool)
    ensures
        r@ == xz_view(),
{
    let r = Tool::new("xz").decompress(
            Service::new(CompressType::Xz).option(ToolOpt::short("dcf")).priority(10),
        ).decompress(
            Service::new(CompressType::Lzma).option(ToolOpt::short("dcf")).priority(10),
        ).compress(
            Service::new(CompressType::Xz).thread_option(ToolOpt::long("threads")).priority(10),
        ).compress(
            Service::new(CompressType::Lzma).option(ToolOpt::long("format=lzma")).thread_option(
                ToolOpt::long("threads"),
            ).priority(10),
        );
    assert(r@.decompress =~= xz_view().decompress);
    assert(r@.compress =~= xz_view().compress);
    r
}

fn lzma() -> (r: Tool)
    ensures
        r@ == lzma_view(),
{
    Tool::new("lzma").decompress(
        Service::new(CompressType::Lzma).option(ToolOpt::short("dcf")).priority(5),
    ).compress(Service::new(CompressType::Lzma).priority(5))
}

fn lz4() -> (r: Tool)
    ensures
        r@ == lz4_view(),
{
    Tool::new("lz4").decompress(
        Service::new(CompressType::Lzma).option(ToolOpt::short("dcfm")).priority(5),
    ).compress(Service::new(CompressType::Lzma).priority(5))
}

fn zstd() -> (r: Tool)
    ensures
        r@ == zstd_view(),
{
    let r = Tool::new("zstd").decompress(
            Service::new(CompressType::Zstd).option(ToolOpt::short("dcf")).priority(10),
        ).decompress(Service::new(CompressType::Gzip).option(ToolOpt::short("dcf"))).decompress(
            Service::new(CompressType::Xz).option(ToolOpt::short("dcf")),
        ).decompress(Service::new(CompressType::Lzma).option(ToolOpt::short("dcf"))).decompress(
            Service::new(CompressType::Lz4).option(ToolOpt::short("dcf")),
        ).compress(
            Service::new(CompressType::Zstd).thread_option(ToolOpt::short("T")).priority(10),
        ).compress(Service::new(CompressType::Gzip).option(ToolOpt::long("format=gzip"))).compress(
            Service::new(CompressType::Xz).option(ToolOpt::long("format=xz")),
        ).compress(Service::new(CompressType::Lzma).option(ToolOpt::long("format=lzma"))).compress(
            Service::new(CompressType::Lz4).option(ToolOpt::long("format=lz4")),
        );
    assert(r@.decompress =~= zstd_view().decompress);
    assert(r@.compress =~= zstd_view().compress);
    r
}

/// The known utilities, in the order in which they are to be registered.
/// None of them has a path yet: their executables have to be looked for.
pub fn known_tools() -> (r: Vec<Tool>)
    ensures
        tool_views(r@) == known_tool_views(),
{
    let mut r: Vec<Tool> = Vec::new();
    r.push(uncompress());
    r.push(gzip());
    r.push(pigz());
    r.push(bgzip());
    r.push(bzip2());
    r.push(pbzip2());
    r.push(xz());
    r.push(lzma());
    r.push(lz4());
    r.push(zstd());
    assert(tool_views(r@) =~= known_tool_views());
    r
}

} // verus!
