use compress_io::compress::{
    open_read_filter, open_write_filter, Filter, Invocation, Wiring,
};
use compress_io::compress_type::{CompressThreads, CompressType};
use compress_io::error::CompressError;
use compress_io::filter_spec::FilterSpec;
use compress_io::known_tools::known_tools;
use compress_io::path_utils::{add_suffix_unless, cond_add_suffix};
use compress_io::tools::{Role, Service, Tool, ToolOpt, ToolRegister};

fn register_with(installed: &[&str]) -> ToolRegister {
    let mut tools = known_tools();
    for tool in tools.iter_mut() {
        if installed.contains(&tool.name()) {
            let path = format!("/usr/bin/{}", tool.name());
            tool.add_path(Some(path));
        }
    }
    ToolRegister::from_tools(tools)
}

fn full_register() -> ToolRegister {
    register_with(&[
        "uncompress", "gzip", "pigz", "bgzip", "bzip2", "pbzip2", "xz", "lzma", "lz4", "zstd",
    ])
}

fn spec_of(filter: Filter) -> FilterSpec {
    match filter {
        Filter::Filter(f) => f,
        Filter::NoFilter => panic!("a filter was expected"),
    }
}

fn list(args: &[&str]) -> Vec<String> {
    args.iter().map(|s| s.to_string()).collect()
}

#[test]
fn suffix_is_added_where_it_is_missing() {
    assert_eq!(cond_add_suffix("a", "gz"), "a.gz");
    assert_eq!(cond_add_suffix("a.txt", "gz"), "a.txt.gz");
    assert_eq!(cond_add_suffix("dir/a.tar", "bz2"), "dir/a.tar.bz2");
    assert_eq!(cond_add_suffix("a.gz", "xz"), "a.gz.xz");
    assert_eq!(cond_add_suffix("a.GZ", "gz"), "a.GZ.gz");
}

#[test]
fn suffix_is_not_doubled() {
    assert_eq!(cond_add_suffix("a.gz", "gz"), "a.gz");
    assert_eq!(cond_add_suffix("a.tar.zst", "zst"), "a.tar.zst");
    assert_eq!(cond_add_suffix("/x/y/z.lzma", "lzma"), "/x/y/z.lzma");
    assert_eq!(cond_add_suffix("a.Z", "Z"), "a.Z");
}

#[test]
fn adding_a_suffix_twice_changes_nothing_more() {
    for path in ["a", "a.txt", "a.gz", "dir.d/file", "x.tar"] {
        for suffix in ["gz", "bz2", "xz", "lzma", "lz4", "zst", "Z"] {
            let once = cond_add_suffix(path, suffix);
            let twice = cond_add_suffix(&once, suffix);
            assert_eq!(once, twice);
        }
    }
}

#[test]
fn a_name_without_a_stem_gets_the_suffix_each_time() {
    assert_eq!(cond_add_suffix("", "gz"), ".gz");
    assert_eq!(cond_add_suffix(".gz", "gz"), ".gz.gz");
    assert_eq!(cond_add_suffix("dir/", "gz"), "dir/.gz");
}

#[test]
fn the_empty_suffix_adds_a_dot() {
    assert_eq!(cond_add_suffix("a", ""), "a.");
    assert_eq!(cond_add_suffix("a.", ""), "a.");
}

#[test]
fn add_suffix_unless_goes_by_the_extension_it_is_given() {
    assert_eq!(add_suffix_unless("a.gz", Some("gz"), "gz"), "a.gz");
    assert_eq!(add_suffix_unless("a.gz", None, "gz"), "a.gz.gz");
    assert_eq!(add_suffix_unless("a.gz", Some("xz"), "gz"), "a.gz.gz");
    assert_eq!(add_suffix_unless("a", Some("gz"), "gz"), "a");
    assert_eq!(add_suffix_unless("a", Some(""), ""), "a");
    assert_eq!(add_suffix_unless("a", None, ""), "a.");
}

#[test]
fn filter_spec_keeps_what_it_is_given() {
    let f = FilterSpec::new("/bin/cat", list(&["-u", "-"]));
    assert_eq!(f.path(), "/bin/cat");
    assert_eq!(f.args(), list(&["-u", "-"]).as_slice());
    assert_eq!(f.compress_type(), None);
    let f = FilterSpec::new_compress("/bin/xz", Vec::new(), CompressType::Xz);
    assert_eq!(f.path(), "/bin/xz");
    assert!(f.args().is_empty());
    assert_eq!(f.compress_type(), Some(CompressType::Xz));
}

#[test]
fn filter_spec_completes_file_names_by_its_format() {
    let f = FilterSpec::new_compress("/bin/gzip", Vec::new(), CompressType::Gzip);
    assert_eq!(f.cond_add_suffix("out"), "out.gz");
    assert_eq!(f.cond_add_suffix("out.gz"), "out.gz");
    assert_eq!(f.cond_add_suffix("out.txt"), "out.txt.gz");
    let f = FilterSpec::new_compress("/bin/bgzip", Vec::new(), CompressType::Bgzip);
    assert_eq!(f.cond_add_suffix("out"), "out.gz");
    assert_eq!(f.cond_add_suffix("out.gz"), "out.gz");
    let f = FilterSpec::new("/bin/cat", Vec::new());
    assert_eq!(f.cond_add_suffix("out"), "out");
    assert_eq!(f.cond_add_suffix("out.gz"), "out.gz");
}

#[test]
fn nothing_to_filter_needs_no_tool() {
    let empty = ToolRegister::new();
    assert!(matches!(
        Filter::new_decompress_filter(&empty, CompressType::NoFilter),
        Ok(Filter::NoFilter)
    ));
    assert!(matches!(
        Filter::new_compress_filter(&empty, CompressType::NoFilter, CompressThreads::NCores),
        Ok(Filter::NoFilter)
    ));
    assert!(matches!(Filter::default(), Filter::NoFilter));
}

#[test]
fn decompress_filter_calls_the_best_tool() {
    let reg = full_register();
    let f = spec_of(Filter::new_decompress_filter(&reg, CompressType::Gzip).unwrap());
    assert_eq!(f.path(), "/usr/bin/gzip");
    assert_eq!(f.args(), list(&["-dcf"]).as_slice());
    assert_eq!(f.compress_type(), Some(CompressType::Gzip));
    let f = spec_of(Filter::new_decompress_filter(&reg, CompressType::Compress).unwrap());
    assert_eq!(f.path(), "/usr/bin/uncompress");
    assert!(f.args().is_empty());
    let f = spec_of(Filter::new_decompress_filter(&reg, CompressType::Lz4).unwrap());
    assert_eq!(f.path(), "/usr/bin/zstd");
    assert_eq!(f.args(), list(&["-dcf"]).as_slice());
    assert_eq!(f.compress_type(), Some(CompressType::Lz4));
}

#[test]
fn decompress_filter_falls_back() {
    let reg = register_with(&["lz4"]);
    let f = spec_of(Filter::new_decompress_filter(&reg, CompressType::Lzma).unwrap());
    assert_eq!(f.path(), "/usr/bin/lz4");
    assert_eq!(f.args(), list(&["-dcfm"]).as_slice());
    let reg = register_with(&["pigz"]);
    let f = spec_of(Filter::new_decompress_filter(&reg, CompressType::Bgzip).unwrap());
    assert_eq!(f.path(), "/usr/bin/pigz");
}

#[test]
fn compress_filter_without_thread_preference() {
    let reg = full_register();
    let f = spec_of(
        Filter::new_compress_filter(&reg, CompressType::Gzip, CompressThreads::Default).unwrap(),
    );
    assert_eq!(f.path(), "/usr/bin/pigz");
    assert!(f.args().is_empty());
    assert_eq!(f.compress_type(), Some(CompressType::Gzip));
    let f = spec_of(
        Filter::new_compress_filter(&reg, CompressType::Lz4, CompressThreads::Default).unwrap(),
    );
    assert_eq!(f.path(), "/usr/bin/zstd");
    assert_eq!(f.args(), list(&["--format=lz4"]).as_slice());
}

#[test]
fn compress_filter_with_a_thread_count() {
    let reg = full_register();
    let threads = CompressThreads::ExplicitCount(4);
    let f = spec_of(Filter::new_compress_filter(&reg, CompressType::Gzip, threads).unwrap());
    assert_eq!(f.path(), "/usr/bin/pigz");
    assert_eq!(f.args(), list(&["--processes", "4"]).as_slice());
    let f = spec_of(Filter::new_compress_filter(&reg, CompressType::Zstd, threads).unwrap());
    assert_eq!(f.args(), list(&["-T4"]).as_slice());
    let f = spec_of(Filter::new_compress_filter(&reg, CompressType::Lzma, threads).unwrap());
    assert_eq!(f.path(), "/usr/bin/xz");
    assert_eq!(f.args(), list(&["--format=lzma", "--threads", "4"]).as_slice());
    let f = spec_of(Filter::new_compress_filter(&reg, CompressType::Bgzip, threads).unwrap());
    assert_eq!(f.args(), list(&["--threads", "4"]).as_slice());
    let f = spec_of(Filter::new_compress_filter(&reg, CompressType::Bzip2, threads).unwrap());
    assert_eq!(f.path(), "/usr/bin/pbzip2");
    assert_eq!(f.args(), list(&["-dcf4"]).as_slice());
}

#[test]
fn compress_filter_of_a_tool_without_thread_option_ignores_the_count() {
    let reg = register_with(&["gzip", "bzip2"]);
    let threads = CompressThreads::ExplicitCount(4);
    let f = spec_of(Filter::new_compress_filter(&reg, CompressType::Gzip, threads).unwrap());
    assert_eq!(f.path(), "/usr/bin/gzip");
    assert!(f.args().is_empty());
    let f = spec_of(Filter::new_compress_filter(&reg, CompressType::Bzip2, threads).unwrap());
    assert_eq!(f.path(), "/usr/bin/bzip2");
    assert!(f.args().is_empty());
}

#[test]
fn compress_filter_by_cores_passes_the_count_of_the_machine() {
    let reg = full_register();
    let f = spec_of(
        Filter::new_compress_filter(&reg, CompressType::Xz, CompressThreads::NCores).unwrap(),
    );
    assert_eq!(f.args(), vec!["--threads".to_string(), num_cpus::get().to_string()].as_slice());
    let f = spec_of(
        Filter::new_compress_filter(&reg, CompressType::Zstd, CompressThreads::NPhysCores).unwrap(),
    );
    assert_eq!(f.args().len(), 1);
    assert!(f.args()[0].starts_with("-T"));
    assert!(f.args()[0][2..].parse::<usize>().is_ok());
}

#[test]
fn the_arguments_are_those_of_the_service_declared_last() {
    let mut tool = Tool::new("odd")
        .compress(Service::new(CompressType::Gzip).option(ToolOpt::short("a")).priority(9))
        .compress(Service::new(CompressType::Gzip).option(ToolOpt::short("b")).priority(1));
    tool.add_path(Some("/opt/odd".to_string()));
    let reg = ToolRegister::new().add(tool);
    let f = spec_of(
        Filter::new_compress_filter(&reg, CompressType::Gzip, CompressThreads::Default).unwrap(),
    );
    assert_eq!(f.path(), "/opt/odd");
    assert_eq!(f.args(), list(&["-b"]).as_slice());
}

#[test]
fn without_a_tool_there_is_no_filter() {
    let reg = register_with(&["gzip"]);
    let err = Filter::new_decompress_filter(&reg, CompressType::Xz).unwrap_err();
    assert!(matches!(
        err,
        CompressError::ToolUnavailable { kind: CompressType::Xz, role: Role::Decompress }
    ));
    assert_eq!(err.message(), "Can not find program to decompress xz files");
    let err = Filter::new_compress_filter(&reg, CompressType::Zstd, CompressThreads::NCores)
        .unwrap_err();
    assert!(matches!(
        err,
        CompressError::ToolUnavailable { kind: CompressType::Zstd, role: Role::Compress }
    ));
    assert_eq!(err.message(), "Can not find program to compress zstd files");
    assert_eq!(err.to_string(), "Can not find program to compress zstd files");
}

#[test]
fn no_tool_compresses_the_compress_format() {
    let reg = full_register();
    let err =
        Filter::new_compress_filter(&reg, CompressType::Compress, CompressThreads::Default)
            .unwrap_err();
    assert_eq!(err.message(), "Can not find program to compress compress files");
}

#[test]
fn an_unknown_format_has_no_tool() {
    let reg = full_register();
    let err = Filter::new_decompress_filter(&reg, CompressType::Unknown).unwrap_err();
    assert!(matches!(
        err,
        CompressError::ToolUnavailable { kind: CompressType::Unknown, role: Role::Decompress }
    ));
    assert_eq!(err.message(), "Can not find program to decompress unknown files");
    let err = Filter::new_compress_filter(&reg, CompressType::Unknown, CompressThreads::Default)
        .unwrap_err();
    assert_eq!(err.message(), "Can not find program to compress unknown files");
}

#[test]
fn kinds_find_their_tools() {
    let reg = register_with(&["gzip", "pigz"]);
    assert_eq!(CompressType::Gzip.get_compress_tool(&reg).unwrap().name(), "pigz");
    assert_eq!(CompressType::Gzip.get_decompress_tool(&reg).unwrap().name(), "gzip");
    let err = CompressType::Bzip2.get_decompress_tool(&reg).unwrap_err();
    assert_eq!(err.message(), "Can not find program to decompress bzip2 files");
    let err = CompressType::NoFilter.get_compress_tool(&reg).unwrap_err();
    assert_eq!(err.message(), "Can not find program to compress no filter files");
}

#[test]
fn spawn_failure_names_the_executable() {
    let err = CompressError::spawn_failed("/usr/bin/xz", "No such file or directory (os error 2)");
    assert!(matches!(err, CompressError::SpawnFailed { .. }));
    assert_eq!(
        err.message(),
        "Error executing pipe command '/usr/bin/xz': No such file or directory (os error 2)"
    );
    assert_eq!(CompressError::spawn_failed("", "").message(), "Error executing pipe command '': ");
}

fn check_call(call: &Invocation, program: &str, args: &[&str], stdin: Wiring, stdout: Wiring) {
    assert_eq!(call.program, program);
    assert_eq!(call.args, list(args));
    assert_eq!(call.stdin, stdin);
    assert_eq!(call.stdout, stdout);
}

#[test]
fn a_read_filter_pipes_its_output() {
    let f = FilterSpec::new("/bin/zcat", list(&["-f", "-"]));
    check_call(&open_read_filter(&f, true), "/bin/zcat", &["-f", "-"], Wiring::Handle, Wiring::Piped);
    check_call(&open_read_filter(&f, false), "/bin/zcat", &["-f", "-"], Wiring::Inherit, Wiring::Piped);
}

#[test]
fn a_write_filter_pipes_its_input() {
    let f = FilterSpec::new_compress("/bin/xz", list(&["--threads", "2"]), CompressType::Xz);
    check_call(&open_write_filter(&f, true), "/bin/xz", &["--threads", "2"], Wiring::Piped, Wiring::Handle);
    check_call(&open_write_filter(&f, false), "/bin/xz", &["--threads", "2"], Wiring::Piped, Wiring::Inherit);
}

#[test]
fn default_search_path_names_two_directories() {
    assert_eq!(compress_io::path_utils::DEFAULT_SEARCH_PATH, "/usr/bin:/usr/local/bin");
}
