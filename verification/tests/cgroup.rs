use memfill::cgroup::{
    cgroup_v1_mem_unlimited, controller_dir, find_controller, probe_paths, read_cgroup_memory,
    read_cgroup_v1_memory, read_cgroup_v1_memory_with, read_cgroup_v2_memory,
    read_cgroupv1_controller, read_cgroupv2_controller, read_file_usize, unlimited_marker,
    uses_cgroup_v2, CGroupError, CGroupMemory, CgroupFiles, FileProbe,
};
use memfill::meminfo::MemInfo;

const V2_TEXT: &str = "0::/user.slice/user-1000.slice/session-3.scope\n";
const V1_TEXT: &str = "12:pids:/user.slice\n9:memory:/docker/abc\n8:cpu,cpuacct:/docker/abc\n";

fn file(path: &str, content: &str) -> FileProbe {
    FileProbe { path: path.to_string(), present: true, content: Ok(content.to_string()) }
}

fn missing(path: &str) -> FileProbe {
    FileProbe {
        path: path.to_string(),
        present: false,
        content: Err("No such file or directory (os error 2)".to_string()),
    }
}

fn unreadable(path: &str) -> FileProbe {
    FileProbe {
        path: path.to_string(),
        present: true,
        content: Err("Permission denied (os error 13)".to_string()),
    }
}

fn found(unified: bool, text: &str, files: Vec<FileProbe>) -> CgroupFiles {
    CgroupFiles { unified, proc_cgroup: Ok(text.to_string()), files }
}

fn memory(result: Result<CGroupMemory, CGroupError>) -> CGroupMemory {
    match result {
        Ok(memory) => memory,
        Err(error) => panic!("{:?}", error),
    }
}

fn refusal<T>(result: Result<T, CGroupError>) -> (String, String, String) {
    match result {
        Ok(_) => panic!("expected a refusal"),
        Err(CGroupError::File(path, message)) => ("File".to_string(), path, message),
        Err(CGroupError::Parse(path, text)) => ("Parse".to_string(), path, text),
        Err(CGroupError::CgroupControllerNotFound()) => {
            ("CgroupControllerNotFound".to_string(), String::new(), String::new())
        }
    }
}

fn not_found() -> (String, String, String) {
    ("CgroupControllerNotFound".to_string(), String::new(), String::new())
}

fn figure(content: &str) -> Result<(usize, bool), CGroupError> {
    read_file_usize("/f", Some(&file("/f", content)))
}

#[test]
fn the_unified_controller_is_on_the_line_that_starts_with_zero() {
    assert_eq!(find_controller(V2_TEXT, true), Some("/user.slice/user-1000.slice/session-3.scope".to_string()));
    assert_eq!(find_controller("1:name=systemd:/a\n0::/b\n", true), Some("/b".to_string()));
    assert_eq!(find_controller("0::/\n", true), Some("/".to_string()));
    assert_eq!(find_controller("0:anything:/x", true), Some("/x".to_string()));
}

#[test]
fn the_first_version_controller_is_on_the_memory_line() {
    assert_eq!(find_controller(V1_TEXT, false), Some("/docker/abc".to_string()));
    assert_eq!(find_controller("0::/b\n3:memory:/m\n", false), Some("/m".to_string()));
}

#[test]
fn the_first_line_to_go_by_counts() {
    assert_eq!(find_controller("0::/first\n0::/second\n", true), Some("/first".to_string()));
    assert_eq!(find_controller("1:memory:/a\n2:memory:/b", false), Some("/a".to_string()));
}

#[test]
fn the_path_runs_to_the_end_of_the_line_colons_included() {
    assert_eq!(find_controller("0::/a:b:c\n", true), Some("/a:b:c".to_string()));
    assert_eq!(find_controller("0::\n", true), Some("".to_string()));
    assert_eq!(find_controller("0:: /a \n", true), Some(" /a ".to_string()));
}

#[test]
fn a_carriage_return_before_the_line_feed_is_no_part_of_the_line() {
    assert_eq!(find_controller("0::/a\r\n", true), Some("/a".to_string()));
    assert_eq!(find_controller("0::/a\r", true), Some("/a\r".to_string()));
    assert_eq!(find_controller("0::/a\r\r\n", true), Some("/a\r".to_string()));
}

#[test]
fn the_last_line_needs_no_line_feed() {
    assert_eq!(find_controller("1:cpu:/c\n0::/a", true), Some("/a".to_string()));
}

#[test]
fn lines_with_fewer_than_three_fields_are_passed_over() {
    assert_eq!(find_controller("0\n0:\n0:x\n\n0::/a\n", true), Some("/a".to_string()));
    assert_eq!(find_controller("memory\n:memory\n1:memory\n\n2:memory:/m\n", false), Some("/m".to_string()));
    assert_eq!(find_controller("0:x", true), None);
    assert_eq!(find_controller("1:memory", false), None);
}

#[test]
fn the_fields_are_compared_as_they_stand() {
    assert_eq!(find_controller("00::/a\n 0::/b\n0 ::/c\n", true), None);
    assert_eq!(find_controller("1:memory,hugetlb:/a\n2:Memory:/b\n3: memory:/c\n", false), None);
    assert_eq!(find_controller("memory:x:/a\n", false), None);
    assert_eq!(find_controller("1:0:/a\n", true), None);
}

#[test]
fn a_text_without_a_line_to_go_by_names_no_controller() {
    assert_eq!(find_controller("", true), None);
    assert_eq!(find_controller("", false), None);
    assert_eq!(find_controller("\n\n", true), None);
    assert_eq!(find_controller(V2_TEXT, false), None);
    assert_eq!(find_controller(V1_TEXT, true), None);
}

#[test]
fn the_controller_functions_read_the_text_that_was_found() {
    let both = found(true, "0::/two\n5:memory:/one\n", vec![]);
    assert_eq!(read_cgroupv2_controller(&both).ok(), Some("/two".to_string()));
    assert_eq!(read_cgroupv1_controller(&both).ok(), Some("/one".to_string()));
    assert_eq!(refusal(read_cgroupv1_controller(&found(true, V2_TEXT, vec![]))), not_found());
    assert_eq!(refusal(read_cgroupv2_controller(&found(false, V1_TEXT, vec![]))), not_found());
}

#[test]
fn an_unreadable_proc_file_is_a_file_refusal() {
    let files = CgroupFiles {
        unified: true,
        proc_cgroup: Err("Permission denied (os error 13)".to_string()),
        files: vec![],
    };
    let expected = (
        "File".to_string(),
        "/proc/self/cgroup".to_string(),
        "Permission denied (os error 13)".to_string(),
    );
    assert_eq!(refusal(read_cgroupv2_controller(&files)), expected);
    assert_eq!(refusal(read_cgroupv1_controller(&files)), expected);
    assert_eq!(refusal(read_cgroup_v2_memory(&files)), expected);
    assert_eq!(refusal(read_cgroup_v1_memory(&files)), expected);
    assert_eq!(refusal(read_cgroup_memory(&files)), expected);
}

#[test]
fn the_group_directory_is_the_controller_path_below_the_root() {
    assert_eq!(controller_dir("/sys/fs/cgroup", "/a/b"), "/sys/fs/cgroup/a/b");
    assert_eq!(controller_dir("/sys/fs/cgroup/memory", "/docker/abc"), "/sys/fs/cgroup/memory/docker/abc");
    assert_eq!(controller_dir("/sys/fs/cgroup", "/"), "/sys/fs/cgroup/");
    assert_eq!(controller_dir("/sys/fs/cgroup", "/../x"), "/sys/fs/cgroup/../x");
}

#[test]
fn a_controller_path_that_does_not_start_at_the_root_stands_for_the_root() {
    assert_eq!(controller_dir("/sys/fs/cgroup", ""), "/sys/fs/cgroup/");
    assert_eq!(controller_dir("/sys/fs/cgroup", "a/b"), "/sys/fs/cgroup/");
}

#[test]
fn a_controller_path_with_two_slashes_replaces_the_root() {
    assert_eq!(controller_dir("/sys/fs/cgroup", "//x"), "/x");
}

#[test]
fn the_group_directory_agrees_with_the_standard_library() {
    for controller in ["/a/b", "/", "", "a", "//x", "/a/", "/../..", "/a b"] {
        let expected = std::path::Path::new("/sys/fs/cgroup")
            .join(controller.strip_prefix("/").unwrap_or(""));
        assert_eq!(controller_dir("/sys/fs/cgroup", controller), expected.to_str().unwrap());
    }
}

#[test]
fn a_figure_is_a_byte_count_with_white_space_around_it() {
    assert_eq!(figure("0\n").ok(), Some((0, false)));
    assert_eq!(figure("123456789\n").ok(), Some((123_456_789, false)));
    assert_eq!(figure("  42 \t\r\n").ok(), Some((42, false)));
    assert_eq!(figure("+42").ok(), Some((42, false)));
    assert_eq!(figure(&format!("{}\n", usize::MAX)).ok(), Some((usize::MAX, false)));
}

#[test]
fn max_is_the_figure_for_no_limit() {
    assert_eq!(figure("max\n").ok(), Some((0, true)));
    assert_eq!(figure("max").ok(), Some((0, true)));
    assert_eq!(figure(" max ").ok(), Some((0, true)));
}

#[test]
fn a_text_that_is_no_figure_is_a_parse_refusal_with_the_text() {
    for (content, text) in [("", ""), ("\n", ""), ("Max\n", "Max"), ("maximum", "maximum"),
        ("12 34\n", "12 34"), ("-1\n", "-1"), ("1.5", "1.5"), ("ma x", "ma x"),
        ("340282366920938463463374607431768211456\n", "340282366920938463463374607431768211456")]
    {
        assert_eq!(
            refusal(figure(content)),
            ("Parse".to_string(), "/f".to_string(), text.to_string()),
            "{:?}",
            content
        );
    }
}

#[test]
fn a_file_that_cannot_be_read_is_a_file_refusal_with_the_message() {
    assert_eq!(
        refusal(read_file_usize("/g", Some(&unreadable("/g")))),
        ("File".to_string(), "/g".to_string(), "Permission denied (os error 13)".to_string())
    );
    assert_eq!(
        refusal(read_file_usize("/g", Some(&missing("/g")))),
        ("File".to_string(), "/g".to_string(), "No such file or directory (os error 2)".to_string())
    );
}

#[test]
fn a_file_that_was_not_looked_at_is_a_file_refusal() {
    assert_eq!(
        refusal(read_file_usize("/g", None)),
        ("File".to_string(), "/g".to_string(), "the file was not looked at".to_string())
    );
}

#[test]
fn of_two_looks_at_one_path_the_first_counts() {
    let files = found(true, V2_TEXT, vec![file("/a", "1"), missing("/b"), file("/a", "2")]);
    assert_eq!(files.probe("/a").map(|probe| probe.content.clone()), Some(Ok("1".to_string())));
    assert_eq!(files.probe("/b").map(|probe| probe.present), Some(false));
    assert!(files.probe("/c").is_none());
    assert!(files.probe("/A").is_none());
    assert!(files.has_file("/a"));
    assert!(!files.has_file("/b"));
    assert!(!files.has_file("/c"));
}

#[test]
fn the_marker_for_no_limit_is_the_largest_multiple_of_the_page_size() {
    assert_eq!(unlimited_marker(Some(4096)), 9_223_372_036_854_771_712);
    assert_eq!(unlimited_marker(Some(16384)), 9_223_372_036_854_759_424);
    assert_eq!(unlimited_marker(Some(65536)), 9_223_372_036_854_710_272);
    assert_eq!(unlimited_marker(Some(1)), 9_223_372_036_854_775_807);
    assert_eq!(unlimited_marker(Some(3)), 9_223_372_036_854_775_806);
    assert_eq!(unlimited_marker(Some(i64::MAX)), 9_223_372_036_854_775_807);
}

#[test]
fn a_page_size_below_zero_counts_by_its_magnitude() {
    assert_eq!(unlimited_marker(Some(-4096)), 9_223_372_036_854_771_712);
    assert_eq!(unlimited_marker(Some(-1)), 9_223_372_036_854_775_807);
    assert_eq!(unlimited_marker(Some(i64::MIN)), 0);
}

#[test]
fn without_a_page_size_the_marker_is_zero() {
    assert_eq!(unlimited_marker(None), 0);
    assert_eq!(unlimited_marker(Some(0)), 0);
}

#[test]
fn the_marker_of_this_machine_goes_by_its_page_size() {
    let page = nix::unistd::sysconf(nix::unistd::SysconfVar::PAGE_SIZE).ok().flatten();
    assert_eq!(cgroup_v1_mem_unlimited(), unlimited_marker(page.map(|size| size as i64)));
    assert!(page.is_some());
    assert!(cgroup_v1_mem_unlimited() > 0);
}

#[test]
fn the_hierarchy_in_use_is_the_one_that_was_found() {
    assert!(uses_cgroup_v2(&found(true, "", vec![])));
    assert!(!uses_cgroup_v2(&found(false, "", vec![])));
}

#[test]
fn the_unified_files_to_look_at_lead_from_the_group_to_the_root() {
    assert_eq!(
        probe_paths(true, "0::/a/b\n"),
        vec![
            "/sys/fs/cgroup/a/b/memory.max",
            "/sys/fs/cgroup/a/b/memory.current",
            "/sys/fs/cgroup/a/memory.max",
            "/sys/fs/cgroup/a/memory.current",
            "/sys/fs/cgroup/memory.max",
            "/sys/fs/cgroup/memory.current",
        ]
    );
    assert_eq!(
        probe_paths(true, "0::/\n"),
        vec!["/sys/fs/cgroup/memory.max", "/sys/fs/cgroup/memory.current"]
    );
    assert_eq!(
        probe_paths(true, "0::relative\n"),
        vec!["/sys/fs/cgroup/memory.max", "/sys/fs/cgroup/memory.current"]
    );
}

#[test]
fn nothing_above_the_root_is_looked_at() {
    for text in ["0::/a/b\n", "0::/\n", "0::/a/../..\n", "0::/../x\n", "0::\n"] {
        for path in probe_paths(true, text) {
            assert!(path.starts_with("/sys/fs/cgroup/"), "{:?} {:?}", text, path);
        }
    }
    for path in probe_paths(false, "1:memory:/a\n") {
        assert!(path.starts_with("/sys/fs/cgroup/memory/"), "{:?}", path);
    }
}

#[test]
fn a_controller_path_that_leads_outside_the_hierarchy_is_not_followed() {
    assert!(probe_paths(true, "0:://x\n").is_empty());
    assert!(probe_paths(false, "1:memory://x\n").is_empty());
    let outside = found(
        true,
        "0:://x\n",
        vec![file("/x/memory.max", "1\n"), file("/x/memory.current", "2\n")],
    );
    assert_eq!(refusal(read_cgroup_memory(&outside)), not_found());
    let beside = found(
        true,
        "0:://sys/fs/cgroup2/a\n",
        vec![
            file("/sys/fs/cgroup2/a/memory.max", "1\n"),
            file("/sys/fs/cgroup2/a/memory.current", "2\n"),
        ],
    );
    assert_eq!(refusal(read_cgroup_memory(&beside)), not_found());
    let first_version = found(
        false,
        "1:memory://x\n",
        vec![file("/x/memory.usage_in_bytes", "1\n"), file("/x/memory.limit_in_bytes", "2\n")],
    );
    assert_eq!(refusal(read_cgroup_v1_memory_with(&first_version, 0)), not_found());
    assert_eq!(refusal(read_cgroup_memory(&first_version)), not_found());
}

#[test]
fn the_walk_ends_at_the_root_of_the_hierarchy() {
    let above = found(
        true,
        "0::/a\n",
        vec![
            missing("/sys/fs/cgroup/a/memory.max"),
            missing("/sys/fs/cgroup/a/memory.current"),
            missing("/sys/fs/cgroup/memory.max"),
            file("/sys/fs/cgroup/memory.current", "5\n"),
            file("/sys/fs/memory.max", "100\n"),
            file("/sys/fs/memory.current", "30\n"),
            file("/sys/memory.max", "100\n"),
            file("/sys/memory.current", "30\n"),
            file("/memory.max", "100\n"),
            file("/memory.current", "30\n"),
        ],
    );
    assert_eq!(refusal(read_cgroup_v2_memory(&above)), not_found());
    assert_eq!(refusal(read_cgroup_memory(&above)), not_found());
}

#[test]
fn the_root_itself_is_looked_at() {
    for text in ["0::/\n", "0::/a/b\n", "0::\n"] {
        let files = found(
            true,
            text,
            vec![file("/sys/fs/cgroup/memory.max", "max\n"), file("/sys/fs/cgroup/memory.current", "8\n")],
        );
        assert_eq!(
            memory(read_cgroup_memory(&files)),
            CGroupMemory { usage: 8, limit: 0, unlimited: true },
            "{:?}",
            text
        );
    }
}

#[test]
fn the_first_version_files_to_look_at_are_the_two_of_the_group() {
    assert_eq!(
        probe_paths(false, V1_TEXT),
        vec![
            "/sys/fs/cgroup/memory/docker/abc/memory.usage_in_bytes",
            "/sys/fs/cgroup/memory/docker/abc/memory.limit_in_bytes",
        ]
    );
}

#[test]
fn without_a_controller_there_is_nothing_to_look_at() {
    assert!(probe_paths(true, V1_TEXT).is_empty());
    assert!(probe_paths(false, V2_TEXT).is_empty());
    assert!(probe_paths(true, "").is_empty());
}

#[test]
fn the_unified_figures_are_read_in_the_group_s_own_directory() {
    let files = found(
        true,
        "0::/a/b\n",
        vec![
            file("/sys/fs/cgroup/a/b/memory.max", "1073741824\n"),
            file("/sys/fs/cgroup/a/b/memory.current", "4096\n"),
            file("/sys/fs/cgroup/a/memory.max", "1\n"),
            file("/sys/fs/cgroup/a/memory.current", "2\n"),
        ],
    );
    let expected = CGroupMemory { usage: 4096, limit: 1_073_741_824, unlimited: false };
    assert_eq!(memory(read_cgroup_v2_memory(&files)), expected);
    assert_eq!(memory(read_cgroup_memory(&files)), expected);
}

#[test]
fn a_leaf_without_the_files_leaves_the_figures_to_an_ancestor() {
    let files = found(
        true,
        "0::/a/b/c\n",
        vec![
            missing("/sys/fs/cgroup/a/b/c/memory.max"),
            missing("/sys/fs/cgroup/a/b/c/memory.current"),
            file("/sys/fs/cgroup/a/b/memory.max", "77\n"),
            missing("/sys/fs/cgroup/a/b/memory.current"),
            file("/sys/fs/cgroup/a/memory.max", "500\n"),
            file("/sys/fs/cgroup/a/memory.current", "20\n"),
            file("/sys/fs/cgroup/memory.max", "9\n"),
            file("/sys/fs/cgroup/memory.current", "8\n"),
        ],
    );
    assert_eq!(
        memory(read_cgroup_memory(&files)),
        CGroupMemory { usage: 20, limit: 500, unlimited: false }
    );
}

#[test]
fn a_directory_needs_both_files_to_be_the_one() {
    let files = found(
        true,
        "0::/a\n",
        vec![
            missing("/sys/fs/cgroup/a/memory.max"),
            file("/sys/fs/cgroup/a/memory.current", "20\n"),
            file("/sys/fs/cgroup/memory.max", "max\n"),
            file("/sys/fs/cgroup/memory.current", "8\n"),
        ],
    );
    assert_eq!(
        memory(read_cgroup_memory(&files)),
        CGroupMemory { usage: 8, limit: 0, unlimited: true }
    );
}

#[test]
fn without_the_files_on_the_way_up_no_controller_is_found() {
    let none = found(true, "0::/a/b\n", vec![]);
    assert_eq!(refusal(read_cgroup_memory(&none)), not_found());
    let absent: Vec<FileProbe> =
        probe_paths(true, "0::/a/b\n").iter().map(|path| missing(path)).collect();
    assert_eq!(absent.len(), 6);
    assert_eq!(refusal(read_cgroup_memory(&found(true, "0::/a/b\n", absent))), not_found());
    let elsewhere = found(
        true,
        "0::/a/b\n",
        vec![file("/sys/fs/cgroup/x/memory.max", "1"), file("/sys/fs/cgroup/x/memory.current", "1")],
    );
    assert_eq!(refusal(read_cgroup_memory(&elsewhere)), not_found());
}

#[test]
fn without_a_line_to_go_by_no_controller_is_found() {
    assert_eq!(refusal(read_cgroup_memory(&found(true, V1_TEXT, vec![]))), not_found());
    assert_eq!(refusal(read_cgroup_memory(&found(false, V2_TEXT, vec![]))), not_found());
    assert_eq!(refusal(read_cgroup_memory(&found(true, "", vec![]))), not_found());
}

#[test]
fn max_in_the_unified_limit_says_unlimited() {
    let files = found(
        true,
        V2_TEXT,
        vec![
            file("/sys/fs/cgroup/user.slice/user-1000.slice/session-3.scope/memory.max", "max\n"),
            file(
                "/sys/fs/cgroup/user.slice/user-1000.slice/session-3.scope/memory.current",
                "123456\n",
            ),
        ],
    );
    let group = memory(read_cgroup_memory(&files));
    assert_eq!(group, CGroupMemory { usage: 123_456, limit: 0, unlimited: true });
    let info = MemInfo::from_cgroup(&group, 8_000_000_000);
    assert_eq!(info, MemInfo { available: 8_000_000_000 - 123_456, total: 8_000_000_000 });
}

#[test]
fn max_in_the_unified_usage_reads_as_zero() {
    let files = found(
        true,
        "0::/a\n",
        vec![file("/sys/fs/cgroup/a/memory.max", "10\n"), file("/sys/fs/cgroup/a/memory.current", "max\n")],
    );
    assert_eq!(
        memory(read_cgroup_memory(&files)),
        CGroupMemory { usage: 0, limit: 10, unlimited: false }
    );
}

#[test]
fn the_unified_limit_is_read_before_the_usage() {
    let files = found(
        true,
        "0::/a\n",
        vec![file("/sys/fs/cgroup/a/memory.max", "x\n"), unreadable("/sys/fs/cgroup/a/memory.current")],
    );
    assert_eq!(
        refusal(read_cgroup_memory(&files)),
        ("Parse".to_string(), "/sys/fs/cgroup/a/memory.max".to_string(), "x".to_string())
    );
    let files = found(
        true,
        "0::/a\n",
        vec![file("/sys/fs/cgroup/a/memory.max", "5\n"), unreadable("/sys/fs/cgroup/a/memory.current")],
    );
    assert_eq!(
        refusal(read_cgroup_memory(&files)),
        (
            "File".to_string(),
            "/sys/fs/cgroup/a/memory.current".to_string(),
            "Permission denied (os error 13)".to_string()
        )
    );
}

#[test]
fn the_first_version_figures_are_read_in_the_group_s_directory() {
    let files = found(
        false,
        V1_TEXT,
        vec![
            file("/sys/fs/cgroup/memory/docker/abc/memory.usage_in_bytes", "2048\n"),
            file("/sys/fs/cgroup/memory/docker/abc/memory.limit_in_bytes", "536870912\n"),
        ],
    );
    let expected = CGroupMemory { usage: 2048, limit: 536_870_912, unlimited: false };
    assert_eq!(memory(read_cgroup_v1_memory_with(&files, 9_223_372_036_854_771_712)), expected);
    assert_eq!(memory(read_cgroup_v1_memory(&files)), expected);
    assert_eq!(memory(read_cgroup_memory(&files)), expected);
}

#[test]
fn the_first_version_limit_that_equals_the_marker_says_unlimited() {
    let files = found(
        false,
        V1_TEXT,
        vec![
            file("/sys/fs/cgroup/memory/docker/abc/memory.usage_in_bytes", "2048\n"),
            file("/sys/fs/cgroup/memory/docker/abc/memory.limit_in_bytes", "9223372036854771712\n"),
        ],
    );
    let unlimited = CGroupMemory { usage: 2048, limit: 9_223_372_036_854_771_712, unlimited: true };
    let limited = CGroupMemory { unlimited: false, ..unlimited };
    assert_eq!(memory(read_cgroup_v1_memory_with(&files, 9_223_372_036_854_771_712)), unlimited);
    assert_eq!(memory(read_cgroup_v1_memory_with(&files, 9_223_372_036_854_759_424)), limited);
    assert_eq!(memory(read_cgroup_v1_memory_with(&files, 0)), limited);
}

#[test]
fn the_first_version_marker_of_this_machine_says_unlimited() {
    let marker = cgroup_v1_mem_unlimited();
    let files = found(
        false,
        V1_TEXT,
        vec![
            file("/sys/fs/cgroup/memory/docker/abc/memory.usage_in_bytes", "10\n"),
            file("/sys/fs/cgroup/memory/docker/abc/memory.limit_in_bytes", &format!("{}\n", marker)),
        ],
    );
    let group = memory(read_cgroup_memory(&files));
    assert_eq!(group, CGroupMemory { usage: 10, limit: marker, unlimited: true });
    assert_eq!(
        MemInfo::from_cgroup(&group, 4_000_000_000),
        MemInfo { available: 3_999_999_990, total: 4_000_000_000 }
    );
}

#[test]
fn the_first_version_does_not_walk_and_does_not_ask_whether_the_files_are_there() {
    let files = found(
        false,
        V1_TEXT,
        vec![
            missing("/sys/fs/cgroup/memory/docker/abc/memory.usage_in_bytes"),
            file("/sys/fs/cgroup/memory/docker/abc/memory.limit_in_bytes", "5\n"),
            file("/sys/fs/cgroup/memory/docker/memory.usage_in_bytes", "1\n"),
            file("/sys/fs/cgroup/memory/docker/memory.limit_in_bytes", "2\n"),
        ],
    );
    assert_eq!(
        refusal(read_cgroup_memory(&files)),
        (
            "File".to_string(),
            "/sys/fs/cgroup/memory/docker/abc/memory.usage_in_bytes".to_string(),
            "No such file or directory (os error 2)".to_string()
        )
    );
    let gone = FileProbe {
        path: "/sys/fs/cgroup/memory/docker/abc/memory.usage_in_bytes".to_string(),
        present: false,
        content: Ok("7\n".to_string()),
    };
    let files = found(
        false,
        V1_TEXT,
        vec![gone, file("/sys/fs/cgroup/memory/docker/abc/memory.limit_in_bytes", "50\n")],
    );
    assert_eq!(
        memory(read_cgroup_v1_memory_with(&files, 1)),
        CGroupMemory { usage: 7, limit: 50, unlimited: false }
    );
}

#[test]
fn the_first_version_usage_is_read_before_the_limit() {
    let files = found(
        false,
        V1_TEXT,
        vec![
            file("/sys/fs/cgroup/memory/docker/abc/memory.usage_in_bytes", "u\n"),
            file("/sys/fs/cgroup/memory/docker/abc/memory.limit_in_bytes", "l\n"),
        ],
    );
    assert_eq!(
        refusal(read_cgroup_v1_memory_with(&files, 1)),
        (
            "Parse".to_string(),
            "/sys/fs/cgroup/memory/docker/abc/memory.usage_in_bytes".to_string(),
            "u".to_string()
        )
    );
}

#[test]
fn max_in_a_first_version_file_reads_as_zero() {
    let files = found(
        false,
        V1_TEXT,
        vec![
            file("/sys/fs/cgroup/memory/docker/abc/memory.usage_in_bytes", "9\n"),
            file("/sys/fs/cgroup/memory/docker/abc/memory.limit_in_bytes", "max\n"),
        ],
    );
    assert_eq!(
        memory(read_cgroup_v1_memory_with(&files, 0)),
        CGroupMemory { usage: 9, limit: 0, unlimited: true }
    );
    assert_eq!(
        memory(read_cgroup_v1_memory_with(&files, 4096)),
        CGroupMemory { usage: 9, limit: 0, unlimited: false }
    );
}

#[test]
fn reading_rests_on_the_named_files_alone() {
    let text = "0::/a/b\n";
    let mut looks: Vec<FileProbe> = probe_paths(true, text).iter().map(|path| missing(path)).collect();
    looks[2] = file("/sys/fs/cgroup/a/memory.max", "100\n");
    looks[3] = file("/sys/fs/cgroup/a/memory.current", "30\n");
    let plain = memory(read_cgroup_memory(&found(true, text, looks)));
    let mut noisy: Vec<FileProbe> = vec![
        file("/sys/fs/cgroup/a/b/c/memory.max", "1\n"),
        file("/sys/fs/cgroup/a/b/memory.min", "2\n"),
        file("/etc/passwd", "3\n"),
    ];
    noisy.extend(probe_paths(true, text).iter().map(|path| missing(path)));
    noisy[5] = file("/sys/fs/cgroup/a/memory.max", "100\n");
    noisy[6] = file("/sys/fs/cgroup/a/memory.current", "30\n");
    assert_eq!(memory(read_cgroup_memory(&found(true, text, noisy))), plain);
    assert_eq!(plain, CGroupMemory { usage: 30, limit: 100, unlimited: false });
}
