//! The memory accounting of the control group that the process runs in.
//!
//! The library reads no files. The program around it looks at the files
//! that [`probe_paths`] names and hands what it found over as a
//! [`CgroupFiles`]; [`read_cgroup_memory`] works the figures out of that.

use crate::path::{
    is_within_root, join_path, joined, parent_toward, path_view, step_toward, within_root,
};
use crate::text::{
    chars_of, decimal_within, find_char, index_of, parse_decimal, same_text,
    text_between, trim_bounds, trimmed,
};
use nix::unistd::{sysconf, SysconfVar};
use vstd::prelude::*;
use vstd::string::StringExecFns;

verus! {

/// Why the memory accounting of the control group could not be read.
#[derive(Debug)]
pub enum CGroupError {
    /// The file at the path could not be read; with the system's message.
    File(String, String),
    /// The file at the path holds the text, which is no byte count.
    Parse(String, String),
    /// No control group with memory accounting was found.
    CgroupControllerNotFound(),
}

/// A [`CGroupError`] as plain values.
pub enum CGroupErrorView {
    File(Seq<char>, Seq<char>),
    Parse(Seq<char>, Seq<char>),
    CgroupControllerNotFound,
}

impl View for CGroupError {
    type V = CGroupErrorView;

    open spec fn view(&self) -> CGroupErrorView {
        match self {
            CGroupError::File(path, message) => CGroupErrorView::File(path@, message@),
            CGroupError::Parse(path, text) => CGroupErrorView::Parse(path@, text@),
            CGroupError::CgroupControllerNotFound() => CGroupErrorView::CgroupControllerNotFound,
        }
    }
}

/// The memory accounting of a control group, in bytes.
#[derive(Clone, Copy, Debug, PartialEq, Eq, Structural)]
pub struct CGroupMemory {
    /// The bytes in use.
    pub usage: usize,
    /// The most that may be used; it says nothing where `unlimited` is set.
    pub limit: usize,
    /// Whether the group may use all the memory there is.
    pub unlimited: bool,
}

/// What a look at one file found.
#[derive(Debug)]
pub struct FileProbe {
    /// The path of the file.
    pub path: String,
    /// Whether the file is there.
    pub present: bool,
    /// What the file holds, or the system's message where it cannot be read.
    pub content: Result<String, String>,
}

/// A [`FileProbe`] as plain values.
pub struct FileProbeView {
    pub path: Seq<char>,
    pub present: bool,
    pub content: Result<Seq<char>, Seq<char>>,
}

/// What was found of the control groups on this machine.
#[derive(Debug)]
pub struct CgroupFiles {
    /// Whether `/sys/fs/cgroup/cgroup.controllers` exists: the hierarchy is
    /// the unified one.
    pub unified: bool,
    /// What `/proc/self/cgroup` holds, or the system's message where it
    /// cannot be read.
    pub proc_cgroup: Result<String, String>,
    /// The files that were looked at. Of two looks at one path the first
    /// counts.
    pub files: Vec<FileProbe>,
}

/// A [`CgroupFiles`] as plain values.
pub struct CgroupFilesView {
    pub unified: bool,
    pub proc_cgroup: Result<Seq<char>, Seq<char>>,
    pub files: Seq<FileProbeView>,
}

/// A text or message as plain values.
pub open spec fn text_result_view(result: Result<String, String>) -> Result<
    Seq<char>,
    Seq<char>,
> {
    match result {
        Ok(text) => Ok(text@),
        Err(message) => Err(message@),
    }
}

impl View for FileProbe {
    type V = FileProbeView;

    open spec fn view(&self) -> FileProbeView {
        FileProbeView {
            path: self.path@,
            present: self.present,
            content: text_result_view(self.content),
        }
    }
}

impl View for CgroupFiles {
    type V = CgroupFilesView;

    open spec fn view(&self) -> CgroupFilesView {
        CgroupFilesView {
            unified: self.unified,
            proc_cgroup: text_result_view(self.proc_cgroup),
            files: self.files@.map_values(|probe: FileProbe| probe@),
        }
    }
}

/// A figure read from a file, or the refusal, as plain values.
pub open spec fn figure_view(result: Result<(usize, bool), CGroupError>) -> Result<
    (usize, bool),
    CGroupErrorView,
> {
    match result {
        Ok(figure) => Ok(figure),
        Err(error) => Err(error@),
    }
}

/// The accounting that was read, or the refusal, as plain values.
pub open spec fn memory_view(result: Result<CGroupMemory, CGroupError>) -> Result<
    CGroupMemory,
    CGroupErrorView,
> {
    match result {
        Ok(memory) => Ok(memory),
        Err(error) => Err(error@),
    }
}

/// A controller path that was found, or the refusal, as plain values.
pub open spec fn controller_view(result: Result<String, CGroupError>) -> Result<
    Seq<char>,
    CGroupErrorView,
> {
    match result {
        Ok(path) => Ok(path@),
        Err(error) => Err(error@),
    }
}

/// The look that there may be, as plain values.
pub open spec fn probe_view(probe: Option<&FileProbe>) -> Option<FileProbeView> {
    match probe {
        Some(found) => Some(found@),
        None => None,
    }
}

/// The message that stands for a file that nobody looked at.
pub open spec fn unprobed_refusal() -> Seq<char> {
    "the file was not looked at"@
}

/// The first line of `s`: what stands before the first line feed, less a
/// carriage return right before that line feed.
pub open spec fn first_line(s: Seq<char>) -> Seq<char> {
    let n = index_of(s, '\n');
    let raw = s.take(n);
    if n < s.len() && raw.len() > 0 && raw.last() == '\r' {
        raw.drop_last()
    } else {
        raw
    }
}

/// What follows the first line of `s`.
pub open spec fn after_first_line(s: Seq<char>) -> Seq<char> {
    let n = index_of(s, '\n');
    if 0 <= n < s.len() {
        s.skip(n + 1)
    } else {
        Seq::empty()
    }
}

/// The controller path that `line` of `/proc/self/cgroup` names, if it is
/// the line to go by. A line holds three fields with colons between them,
/// the third running to the end of the line. On the unified hierarchy the
/// line to go by has `0` for its first field, else `memory` for its second;
/// its third field is the path.
pub open spec fn controller_of_line(line: Seq<char>, unified: bool) -> Option<Seq<char>> {
    let a = index_of(line, ':');
    if a >= line.len() {
        None
    } else {
        let rest = line.skip(a + 1);
        let b = index_of(rest, ':');
        if b >= rest.len() {
            None
        } else if unified && line.take(a) == seq!['0'] {
            Some(rest.skip(b + 1))
        } else if !unified && rest.take(b) == "memory"@ {
            Some(rest.skip(b + 1))
        } else {
            None
        }
    }
}

/// The controller path that the text `s` of `/proc/self/cgroup` names: that
/// of its first line to go by.
pub open spec fn controller_in(s: Seq<char>, unified: bool) -> Option<Seq<char>>
    decreases s.len(),
{
    if s.len() == 0 {
        None
    } else {
        match controller_of_line(first_line(s), unified) {
            Some(path) => Some(path),
            None => controller_in(after_first_line(s), unified),
        }
    }
}

/// The controller path that was found in `/proc/self/cgroup` for the
/// unified hierarchy or for the other, or why none was found.
pub open spec fn controller_of(files: CgroupFilesView, unified: bool) -> Result<
    Seq<char>,
    CGroupErrorView,
> {
    match files.proc_cgroup {
        Err(message) => Err(CGroupErrorView::File("/proc/self/cgroup"@, message)),
        Ok(text) => match controller_in(text, unified) {
            Some(path) => Ok(path),
            None => Err(CGroupErrorView::CgroupControllerNotFound),
        },
    }
}

/// The directory of the control group at `controller` below `root`: the
/// controller path, less the `/` it starts with, joined onto `root`. A path
/// that does not start with `/` stands for the root itself.
pub open spec fn group_dir(root: Seq<char>, controller: Seq<char>) -> Seq<char> {
    if controller.len() > 0 && controller[0] == '/' {
        joined(root, controller.drop_first())
    } else {
        joined(root, Seq::empty())
    }
}

/// What the first look at `path` found, if there was one.
pub open spec fn probe_of(files: Seq<FileProbeView>, path: Seq<char>) -> Option<FileProbeView>
    decreases files.len(),
{
    if files.len() == 0 {
        None
    } else if files[0].path == path {
        Some(files[0])
    } else {
        probe_of(files.drop_first(), path)
    }
}

/// Whether the file at `path` was found to exist.
pub open spec fn exists_in(files: Seq<FileProbeView>, path: Seq<char>) -> bool {
    probe_of(files, path) matches Some(probe) && probe.present
}

/// The figure that the text of a file writes: `max` for "no limit", else a
/// byte count; white space around it does not count.
pub open spec fn figure_of_text(path: Seq<char>, text: Seq<char>) -> Result<
    (usize, bool),
    CGroupErrorView,
> {
    if trimmed(text) == "max"@ {
        Ok((0usize, true))
    } else {
        match decimal_within(trimmed(text), usize::MAX as nat) {
            Some(bytes) => Ok((bytes as usize, false)),
            None => Err(CGroupErrorView::Parse(path, trimmed(text))),
        }
    }
}

/// The figure in the file at `path`, given the look at it.
pub open spec fn figure_of(path: Seq<char>, probe: Option<FileProbeView>) -> Result<
    (usize, bool),
    CGroupErrorView,
> {
    match probe {
        None => Err(CGroupErrorView::File(path, unprobed_refusal())),
        Some(found) => match found.content {
            Err(message) => Err(CGroupErrorView::File(path, message)),
            Ok(text) => figure_of_text(path, text),
        },
    }
}

/// The accounting that the two files of the unified hierarchy in `dir` give:
/// the limit from `memory.max`, then the usage from `memory.current`.
pub open spec fn v2_figures(files: Seq<FileProbeView>, dir: Seq<char>) -> Result<
    CGroupMemory,
    CGroupErrorView,
> {
    let max_path = joined(dir, "memory.max"@);
    let current_path = joined(dir, "memory.current"@);
    match figure_of(max_path, probe_of(files, max_path)) {
        Err(error) => Err(error),
        Ok((limit, unlimited)) => match figure_of(current_path, probe_of(files, current_path)) {
            Err(error) => Err(error),
            Ok((usage, _)) => Ok(CGroupMemory { usage, limit, unlimited }),
        },
    }
}

/// Whether `dir` holds both files of the unified hierarchy.
pub open spec fn v2_files_exist(files: Seq<FileProbeView>, dir: Seq<char>) -> bool {
    exists_in(files, joined(dir, "memory.max"@)) && exists_in(
        files,
        joined(dir, "memory.current"@),
    )
}

/// The root of the unified hierarchy.
pub open spec fn v2_root() -> Seq<char> {
    "/sys/fs/cgroup"@
}

/// The root of the memory controller on the first-version hierarchy.
pub open spec fn v1_root() -> Seq<char> {
    "/sys/fs/cgroup/memory"@
}

/// The accounting on the unified hierarchy, found by walking from `dir` up
/// to `root`: that of the first directory on the way that holds both files.
/// The walk ends at the root: where the root has been looked at and does not
/// hold both files, no controller is found. A directory that is neither the
/// root nor below it is not looked at, and no controller is found from it.
pub open spec fn v2_walk(files: Seq<FileProbeView>, root: Seq<char>, dir: Seq<char>) -> Result<
    CGroupMemory,
    CGroupErrorView,
>
    decreases dir.len(),
{
    if !within_root(root, dir) {
        Err(CGroupErrorView::CgroupControllerNotFound)
    } else if v2_files_exist(files, dir) {
        v2_figures(files, dir)
    } else {
        match step_toward(root, dir) {
            Some(parent) => v2_walk(files, root, parent),
            None => Err(CGroupErrorView::CgroupControllerNotFound),
        }
    }
}

/// The accounting on the unified hierarchy.
pub open spec fn v2_memory(files: CgroupFilesView) -> Result<CGroupMemory, CGroupErrorView> {
    match controller_of(files, true) {
        Err(error) => Err(error),
        Ok(controller) => v2_walk(files.files, v2_root(), group_dir(v2_root(), controller)),
    }
}

/// The accounting on the first-version hierarchy, where a limit of `marker`
/// bytes stands for "no limit": the usage from `memory.usage_in_bytes`, then
/// the limit from `memory.limit_in_bytes`, both in the group's directory. A
/// directory that is neither the root nor below it is not looked at, and no
/// controller is found there.
pub open spec fn v1_memory(files: CgroupFilesView, marker: usize) -> Result<
    CGroupMemory,
    CGroupErrorView,
> {
    match controller_of(files, false) {
        Err(error) => Err(error),
        Ok(controller) => {
            let dir = group_dir(v1_root(), controller);
            let usage_path = joined(dir, "memory.usage_in_bytes"@);
            let limit_path = joined(dir, "memory.limit_in_bytes"@);
            if !within_root(v1_root(), dir) {
                Err(CGroupErrorView::CgroupControllerNotFound)
            } else {
                match figure_of(usage_path, probe_of(files.files, usage_path)) {
                    Err(error) => Err(error),
                    Ok((usage, _)) => match figure_of(
                        limit_path,
                        probe_of(files.files, limit_path),
                    ) {
                        Err(error) => Err(error),
                        Ok((limit, _)) => Ok(
                            CGroupMemory { usage, limit, unlimited: limit == marker },
                        ),
                    },
                }
            }
        },
    }
}

/// The paths as plain values.
pub open spec fn paths_view(paths: Vec<String>) -> Seq<Seq<char>> {
    paths@.map_values(|path: String| path@)
}

/// The files that a walk from `dir` up to `root` may look at: the two files
/// of the unified hierarchy in `dir`, then those in its parent, and so on up
/// to the root and no further. From a directory that is neither the root nor
/// below it there is nothing to look at.
pub open spec fn v2_paths(root: Seq<char>, dir: Seq<char>) -> Seq<Seq<char>>
    decreases dir.len(),
{
    if !within_root(root, dir) {
        Seq::empty()
    } else {
        let here = seq![joined(dir, "memory.max"@), joined(dir, "memory.current"@)];
        match step_toward(root, dir) {
            Some(parent) => here + v2_paths(root, parent),
            None => here,
        }
    }
}

/// The two files of the first-version hierarchy in `dir`, where `dir` is
/// `root` or below it.
pub open spec fn v1_paths(root: Seq<char>, dir: Seq<char>) -> Seq<Seq<char>> {
    if !within_root(root, dir) {
        Seq::empty()
    } else {
        seq![joined(dir, "memory.usage_in_bytes"@), joined(dir, "memory.limit_in_bytes"@)]
    }
}

/// The files that reading the memory accounting may look at, given the
/// hierarchy in use and the text of `/proc/self/cgroup`.
pub open spec fn paths_to_probe(unified: bool, text: Seq<char>) -> Seq<Seq<char>> {
    match controller_in(text, unified) {
        None => Seq::empty(),
        Some(controller) => if unified {
            v2_paths(v2_root(), group_dir(v2_root(), controller))
        } else {
            v1_paths(v1_root(), group_dir(v1_root(), controller))
        },
    }
}

/// The limit that stands for "no limit" on the first-version hierarchy of a
/// machine with pages of `page_size` bytes: the largest multiple of the page
/// size that a signed 64-bit number holds. Without a page size it is zero.
pub open spec fn unlimited_marker_of(page_size: Option<i64>) -> usize {
    match page_size {
        Some(size) if size != 0 => {
            let page = if size < 0 {
                -size
            } else {
                size as int
            };
            ((i64::MAX as int / page) * page) as usize
        },
        _ => 0,
    }
}

/// Asks `nix::unistd::sysconf` for the size of a memory page. `None` where
/// the system names no size or the call fails. The size is the machine's, so
/// nothing is claimed of it.
#[verifier::external_body]
fn page_size() -> (size: Option<i64>) {
    match sysconf(SysconfVar::PAGE_SIZE) {
        Ok(Some(size)) => Some(size as i64),
        _ => None,
    }
}

/// Whether the characters of `cs` from `from` up to `to` are those of
/// `word`.
fn range_is(cs: &Vec<char>, from: usize, to: usize, word: &str) -> (same: bool)
    requires
        from <= to <= cs@.len(),
    ensures
        same == (cs@.subrange(from as int, to as int) == word@),
{
    let wanted = chars_of(word);
    if to - from != wanted.len() {
        return false;
    }
    let mut i: usize = 0;
    while i < wanted.len()
        invariant
            i <= wanted.len(),
            from <= to <= cs@.len(),
            to - from == wanted.len(),
            wanted@ == word@,
            cs@.subrange(from as int, from + i) == wanted@.take(i as int),
        decreases wanted.len() - i,
    {
        if cs[from + i] != wanted[i] {
            assert(cs@.subrange(from as int, to as int)[i as int] != wanted@[i as int]);
            return false;
        }
        assert(cs@.subrange(from as int, from + i + 1) == cs@.subrange(
            from as int,
            from + i,
        ).push(cs@[from + i]));
        assert(wanted@.take(i + 1) == wanted@.take(i as int).push(wanted@[i as int]));
        i = i + 1;
    }
    assert(wanted@.take(i as int) == wanted@);
    true
}

/// The controller path that the line of `cs` from `from` up to `to` names,
/// as positions in `cs`, if it is the line to go by.
fn controller_in_line(cs: &Vec<char>, from: usize, to: usize, unified: bool) -> (found: Option<
    usize,
>)
    requires
        from <= to <= cs@.len(),
    ensures
        found matches Some(at) ==> from <= at <= to && controller_of_line(
            cs@.subrange(from as int, to as int),
            unified,
        ) == Some(cs@.subrange(at as int, to as int)),
        found is None ==> controller_of_line(cs@.subrange(from as int, to as int), unified)
            is None,
{
    let ghost line = cs@.subrange(from as int, to as int);
    let a: usize = find_char(cs, ':', from, to);
    if a == to {
        return None;
    }
    let ghost rest = line.skip(a - from + 1);
    assert(rest == cs@.subrange(a + 1, to as int));
    let b: usize = find_char(cs, ':', a + 1, to);
    if b == to {
        return None;
    }
    assert(line.take(a - from) == cs@.subrange(from as int, a as int));
    assert(rest.take(b - a - 1) == cs@.subrange(a + 1, b as int));
    assert(rest.skip(b - a) == cs@.subrange(b + 1, to as int));
    if unified {
        if a - from == 1 && cs[from] == '0' {
            assert(cs@.subrange(from as int, a as int) == seq!['0']);
            Some(b + 1)
        } else {
            assert(cs@.subrange(from as int, a as int) != seq!['0']) by {
                if a - from == 1 {
                    assert(cs@.subrange(from as int, a as int)[0] != seq!['0'][0]);
                }
            }
            None
        }
    } else if range_is(cs, a + 1, b, "memory") {
        Some(b + 1)
    } else {
        None
    }
}

/// Finds, in the text of `/proc/self/cgroup`, the controller path of the
/// first line to go by: on the unified hierarchy the line whose first field
/// is `0`, else the line whose second field is `memory`. A line with fewer
/// than three fields is passed over.
pub fn find_controller(text: &str, unified: bool) -> (controller: Option<String>)
    ensures
        path_view(controller) == controller_in(text@, unified),
{
    let cs = chars_of(text);
    let n: usize = cs.len();
    let mut start: usize = 0;
    assert(cs@.skip(0) == cs@);
    while start < n
        invariant
            start <= n == cs@.len(),
            cs@ == text@,
            controller_in(text@, unified) == controller_in(cs@.skip(start as int), unified),
        decreases n - start,
    {
        let ghost s = cs@.skip(start as int);
        assert(s == cs@.subrange(start as int, n as int));
        let feed: usize = find_char(&cs, '\n', start, n);
        let end: usize = if feed < n && feed > start && cs[feed - 1] == '\r' {
            feed - 1
        } else {
            feed
        };
        assert(first_line(s) == cs@.subrange(start as int, end as int)) by {
            assert(s.take(feed - start) == cs@.subrange(start as int, feed as int));
            if feed < n && feed > start && cs@[feed - 1] == '\r' {
                assert(s.take(feed - start).drop_last() == cs@.subrange(
                    start as int,
                    end as int,
                ));
            }
        }
        match controller_in_line(&cs, start, end, unified) {
            Some(at) => {
                return Some(text_between(text, at, end));
            },
            None => {},
        }
        if feed < n {
            assert(after_first_line(s) == cs@.skip(feed + 1));
            start = feed + 1;
        } else {
            assert(after_first_line(s) == cs@.skip(n as int));
            start = n;
        }
    }
    None
}

/// The controller path that `/proc/self/cgroup` names, for the unified
/// hierarchy or for the other.
fn read_controller(files: &CgroupFiles, unified: bool) -> (controller: Result<
    String,
    CGroupError,
>)
    ensures
        controller_view(controller) == controller_of(files@, unified),
{
    match &files.proc_cgroup {
        Err(message) => Err(
            CGroupError::File(String::from_str("/proc/self/cgroup"), message.clone()),
        ),
        Ok(text) => match find_controller(text.as_str(), unified) {
            Some(path) => Ok(path),
            None => Err(CGroupError::CgroupControllerNotFound()),
        },
    }
}

/// The controller path of the process on the unified hierarchy: the third
/// field of the line of `/proc/self/cgroup` whose first field is `0`.
pub fn read_cgroupv2_controller(files: &CgroupFiles) -> (controller: Result<String, CGroupError>)
    ensures
        controller_view(controller) == controller_of(files@, true),
{
    read_controller(files, true)
}

/// The controller path of the process on the first-version hierarchy: the
/// third field of the line of `/proc/self/cgroup` whose second field is
/// `memory`.
pub fn read_cgroupv1_controller(files: &CgroupFiles) -> (controller: Result<String, CGroupError>)
    ensures
        controller_view(controller) == controller_of(files@, false),
{
    read_controller(files, false)
}

/// The directory of the control group at `controller` below `root`.
pub fn controller_dir(root: &str, controller: &str) -> (dir: String)
    ensures
        dir@ == group_dir(root@, controller@),
{
    let cs = chars_of(controller);
    if cs.len() > 0 && cs[0] == '/' {
        let rel = text_between(controller, 1, cs.len());
        assert(controller@.subrange(1, cs@.len() as int) == controller@.drop_first());
        join_path(root, rel.as_str())
    } else {
        proof {
            reveal_strlit("");
        }
        assert(""@ == Seq::<char>::empty());
        join_path(root, "")
    }
}

/// Names the files that reading the memory accounting may look at, given
/// the hierarchy in use and the text of `/proc/self/cgroup`: on the unified
/// hierarchy `memory.max` and `memory.current` in the directory of the
/// process's control group and in each directory above it, up to the root of
/// the hierarchy and no further; else `memory.usage_in_bytes` and
/// `memory.limit_in_bytes` in the group's directory. Where the text names no
/// controller path, or one that leads outside the hierarchy, there is
/// nothing to look at.
pub fn probe_paths(unified: bool, proc_cgroup: &str) -> (paths: Vec<String>)
    ensures
        paths_view(paths) == paths_to_probe(unified, proc_cgroup@),
{
    let mut paths: Vec<String> = Vec::new();
    assert(paths_view(paths) == Seq::<Seq<char>>::empty());
    let controller = match find_controller(proc_cgroup, unified) {
        Some(path) => path,
        None => {
            return paths;
        },
    };
    if !unified {
        let dir = controller_dir("/sys/fs/cgroup/memory", controller.as_str());
        if is_within_root("/sys/fs/cgroup/memory", dir.as_str()) {
            paths.push(join_path(dir.as_str(), "memory.usage_in_bytes"));
            paths.push(join_path(dir.as_str(), "memory.limit_in_bytes"));
            assert(paths_view(paths) == v1_paths(v1_root(), dir@));
        }
        return paths;
    }
    let mut dir: String = controller_dir("/sys/fs/cgroup", controller.as_str());
    let ghost leaf = dir@;
    assert(paths_view(paths) + v2_paths(v2_root(), dir@) == v2_paths(v2_root(), leaf));
    loop
        invariant
            paths_to_probe(unified, proc_cgroup@) == v2_paths(v2_root(), leaf),
            paths_view(paths) + v2_paths(v2_root(), dir@) == v2_paths(v2_root(), leaf),
        decreases dir@.len(),
    {
        let ghost before = paths_view(paths);
        if !is_within_root("/sys/fs/cgroup", dir.as_str()) {
            assert(before + Seq::<Seq<char>>::empty() == before);
            return paths;
        }
        paths.push(join_path(dir.as_str(), "memory.max"));
        paths.push(join_path(dir.as_str(), "memory.current"));
        let ghost here = seq![joined(dir@, "memory.max"@), joined(dir@, "memory.current"@)];
        assert(paths_view(paths) == before + here);
        match parent_toward("/sys/fs/cgroup", dir.as_str()) {
            Some(parent) => {
                assert(before + here + v2_paths(v2_root(), parent@) == before + (here + v2_paths(
                    v2_root(),
                    parent@,
                )));
                dir = parent;
            },
            None => {
                return paths;
            },
        }
    }
}

impl CgroupFiles {
    /// What the first look at `path` found, if there was one.
    pub fn probe(&self, path: &str) -> (found: Option<&FileProbe>)
        ensures
            probe_view(found) == probe_of(self@.files, path@),
    {
        let mut i: usize = 0;
        assert(self@.files.skip(0) == self@.files);
        while i < self.files.len()
            invariant
                i <= self.files.len(),
                probe_of(self@.files, path@) == probe_of(self@.files.skip(i as int), path@),
            decreases self.files.len() - i,
        {
            assert(self@.files.skip(i as int)[0] == self.files@[i as int]@);
            if same_text(self.files[i].path.as_str(), path) {
                return Some(&self.files[i]);
            }
            assert(self@.files.skip(i as int).drop_first() == self@.files.skip(i + 1));
            i = i + 1;
        }
        None
    }

    /// Whether the file at `path` was found to exist.
    pub fn has_file(&self, path: &str) -> (r: bool)
        ensures
            r == exists_in(self@.files, path@),
    {
        match self.probe(path) {
            Some(found) => found.present,
            None => false,
        }
    }
}

/// Reads the figure in the file at `path` from the look at it: `max` says
/// "no limit", anything else is a byte count; white space around the figure
/// does not count. A file that could not be read, or was not looked at, and
/// a text that is no figure are refused.
pub fn read_file_usize(path: &str, probe: Option<&FileProbe>) -> (figure: Result<
    (usize, bool),
    CGroupError,
>)
    ensures
        figure_view(figure) == figure_of(path@, probe_view(probe)),
{
    match probe {
        None => Err(
            CGroupError::File(
                String::from_str(path),
                String::from_str("the file was not looked at"),
            ),
        ),
        Some(found) => match &found.content {
            Err(message) => Err(CGroupError::File(String::from_str(path), message.clone())),
            Ok(text) => {
                let cs = chars_of(text.as_str());
                let (from, to) = trim_bounds(&cs);
                if range_is(&cs, from, to, "max") {
                    Ok((0, true))
                } else {
                    match parse_decimal(&cs, from, to, usize::MAX as u64) {
                        Some(bytes) => Ok((bytes as usize, false)),
                        None => Err(
                            CGroupError::Parse(
                                String::from_str(path),
                                text_between(text.as_str(), from, to),
                            ),
                        ),
                    }
                }
            },
        },
    }
}

/// The limit that stands for "no limit" on the first-version hierarchy of a
/// machine with pages of `page_size` bytes.
pub fn unlimited_marker(page_size: Option<i64>) -> (marker: usize)
    ensures
        marker == unlimited_marker_of(page_size),
{
    match page_size {
        Some(size) => {
            if size == 0 {
                0
            } else {
                let page: u64 = if size < 0 {
                    ((-(size + 1)) as u64) + 1
                } else {
                    size as u64
                };
                let whole: u64 = 0x7fff_ffff_ffff_ffff / page;
                assert(whole * page <= 0x7fff_ffff_ffff_ffff && whole * page == (
                0x7fff_ffff_ffff_ffff as int / page as int) * page) by (nonlinear_arith)
                    requires
                        page > 0,
                        whole == 0x7fff_ffff_ffff_ffff as int / page as int,
                ;
                (whole * page) as usize
            }
        },
        None => 0,
    }
}

/// The limit that stands for "no limit" on the first-version hierarchy of
/// this machine, worked out from the size of its pages.
pub fn cgroup_v1_mem_unlimited() -> (marker: usize)
    ensures
        exists|size: Option<i64>| marker == #[trigger] unlimited_marker_of(size),
{
    let size = page_size();
    let marker = unlimited_marker(size);
    assert(marker == unlimited_marker_of(size));
    marker
}

/// Whether the unified hierarchy is the one in use.
pub fn uses_cgroup_v2(files: &CgroupFiles) -> (unified: bool)
    ensures
        unified == files@.unified,
{
    files.unified
}

/// The two figures of the unified hierarchy in the directory `dir`.
fn read_v2_figures(files: &CgroupFiles, max_path: &str, current_path: &str) -> (memory: Result<
    CGroupMemory,
    CGroupError,
>)
    ensures
        memory_view(memory) == match figure_of(max_path@, probe_of(files@.files, max_path@)) {
            Err(error) => Err(error),
            Ok((limit, unlimited)) => match figure_of(
                current_path@,
                probe_of(files@.files, current_path@),
            ) {
                Err(error) => Err(error),
                Ok((usage, _)) => Ok(CGroupMemory { usage, limit, unlimited }),
            },
        },
{
    match read_file_usize(max_path, files.probe(max_path)) {
        Err(error) => Err(error),
        Ok((limit, unlimited)) => match read_file_usize(current_path, files.probe(current_path)) {
            Err(error) => Err(error),
            Ok((usage, _)) => Ok(CGroupMemory { usage, limit, unlimited }),
        },
    }
}

/// Reads the memory accounting on the unified hierarchy. Starting at the
/// directory of the process's control group, walks up to the root of the
/// hierarchy, `/sys/fs/cgroup`, until a directory holds both `memory.max`
/// and `memory.current`, and reads the limit and the usage there. Where no
/// directory from the group's up to and including the root holds both, no
/// controller is found; nor is one found from a directory outside the
/// hierarchy.
pub fn read_cgroup_v2_memory(files: &CgroupFiles) -> (memory: Result<CGroupMemory, CGroupError>)
    ensures
        memory_view(memory) == v2_memory(files@),
{
    let controller = match read_cgroupv2_controller(files) {
        Ok(path) => path,
        Err(error) => {
            return Err(error);
        },
    };
    let mut dir: String = controller_dir("/sys/fs/cgroup", controller.as_str());
    loop
        invariant
            v2_memory(files@) == v2_walk(files@.files, v2_root(), dir@),
        decreases dir@.len(),
    {
        if !is_within_root("/sys/fs/cgroup", dir.as_str()) {
            return Err(CGroupError::CgroupControllerNotFound());
        }
        let max_path = join_path(dir.as_str(), "memory.max");
        let current_path = join_path(dir.as_str(), "memory.current");
        if files.has_file(max_path.as_str()) && files.has_file(current_path.as_str()) {
            return read_v2_figures(files, max_path.as_str(), current_path.as_str());
        }
        match parent_toward("/sys/fs/cgroup", dir.as_str()) {
            Some(parent) => {
                dir = parent;
            },
            None => {
                return Err(CGroupError::CgroupControllerNotFound());
            },
        }
    }
}

/// Reads the memory accounting on the first-version hierarchy, where a limit
/// of `marker` bytes stands for "no limit".
pub fn read_cgroup_v1_memory_with(files: &CgroupFiles, marker: usize) -> (memory: Result<
    CGroupMemory,
    CGroupError,
>)
    ensures
        memory_view(memory) == v1_memory(files@, marker),
{
    let controller = match read_cgroupv1_controller(files) {
        Ok(path) => path,
        Err(error) => {
            return Err(error);
        },
    };
    let dir = controller_dir("/sys/fs/cgroup/memory", controller.as_str());
    if !is_within_root("/sys/fs/cgroup/memory", dir.as_str()) {
        return Err(CGroupError::CgroupControllerNotFound());
    }
    let usage_path = join_path(dir.as_str(), "memory.usage_in_bytes");
    let limit_path = join_path(dir.as_str(), "memory.limit_in_bytes");
    match read_file_usize(usage_path.as_str(), files.probe(usage_path.as_str())) {
        Err(error) => Err(error),
        Ok((usage, _)) => match read_file_usize(
            limit_path.as_str(),
            files.probe(limit_path.as_str()),
        ) {
            Err(error) => Err(error),
            Ok((limit, _)) => Ok(CGroupMemory { usage, limit, unlimited: limit == marker }),
        },
    }
}

/// Reads the memory accounting on the first-version hierarchy. The limit
/// that stands for "no limit" there is worked out from this machine's page
/// size.
pub fn read_cgroup_v1_memory(files: &CgroupFiles) -> (memory: Result<CGroupMemory, CGroupError>)
    ensures
        exists|size: Option<i64>|
            memory_view(memory) == v1_memory(files@, #[trigger] unlimited_marker_of(size)),
{
    let size = page_size();
    let memory = read_cgroup_v1_memory_with(files, unlimited_marker(size));
    assert(memory_view(memory) == v1_memory(files@, unlimited_marker_of(size)));
    memory
}

/// Reads the memory accounting of the control group that the process runs
/// in, from what was found of the control groups on this machine.
pub fn read_cgroup_memory(files: &CgroupFiles) -> (memory: Result<CGroupMemory, CGroupError>)
    ensures
        files.unified ==> memory_view(memory) == v2_memory(files@),
        !files.unified ==> exists|size: Option<i64>|
            memory_view(memory) == v1_memory(files@, #[trigger] unlimited_marker_of(size)),
{
    if uses_cgroup_v2(files) {
        read_cgroup_v2_memory(files)
    } else {
        read_cgroup_v1_memory(files)
    }
}

} // verus!
