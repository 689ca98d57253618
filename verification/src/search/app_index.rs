//! The index of apps: start menu shortcuts, executables of the system and of
//! the search path, the user's folders, and packaged apps.

use vstd::prelude::*;

use super::fuzzy::{ascii_lower, fuzzy_i32, fuzzy_match, is_subsequence, lower, MAX_QUERY_CHARS};
use super::uwp::{self, packaged_apps, uwp_views, UwpApp, UwpView};
use super::{result_views, with_finding, Action, ActionView, ResultView, SearchProvider, SearchResult};
use crate::config::{Config, ConfigView};
use crate::hotkey::lowered;
use crate::text::{chars_of, copy_strings, same_text, string_of, texts};

verus! {

/// `regex::Regex`, a compiled pattern.
#[verifier::external_type_specification]
#[verifier::external_body]
pub struct ExRegex(regex::Regex);

/// `regex::Error`, why a pattern does not compile.
#[verifier::external_type_specification]
#[verifier::external_body]
pub struct ExRegexError(regex::Error);

/// `regex::Regex::new`: the compiled pattern, if it is valid.
pub uninterp spec fn regex_new(pattern: Seq<char>) -> Option<regex::Regex>;

/// `regex::Regex::is_match`: whether a pattern matches anywhere in a text.
pub uninterp spec fn regex_is_match(re: regex::Regex, haystack: Seq<char>) -> bool;

/// `regex::Regex::new` compiles a pattern; the result depends on the pattern
/// alone.
pub assume_specification[ regex::Regex::new ](re: &str) -> (r: Result<regex::Regex, regex::Error>)
    ensures
        r.ok() == regex_new(re@),
;

/// `regex::Regex::is_match` depends on the pattern and the text alone.
pub assume_specification[ regex::Regex::is_match ](re: &regex::Regex, haystack: &str) -> (r: bool)
    ensures
        r == regex_is_match(*re, haystack@),
;

/// How deep subfolders are walked, so that a cycle of links ends.
pub const MAX_SCAN_DEPTH: u32 = 8;

/// Taken at least from the score of executables of the system and the search path,
/// which match easily by their names alone.
pub const LOW_PRIORITY_PENALTY: i32 = 1000;

/// How an indexed app is launched.
#[derive(Debug)]
pub enum Launch {
    Path(String),
    Uwp { aumid: String },
}

/// Where an indexed app comes from.
#[derive(Clone, Copy, PartialEq, Eq, Structural, Debug)]
pub enum AppSource {
    StartMenu,
    CustomFolder,
    SystemOrPath,
    Uwp,
}

/// An app of the index.
#[derive(Debug)]
pub struct IndexedApp {
    pub title: String,
    pub subtitle: String,
    pub launch: Launch,
    pub source: AppSource,
}

pub enum LaunchView {
    Path(Seq<char>),
    Uwp(Seq<char>),
}

pub struct AppView {
    pub title: Seq<char>,
    pub subtitle: Seq<char>,
    pub launch: LaunchView,
    pub source: AppSource,
}

impl View for IndexedApp {
    type V = AppView;

    open spec fn view(&self) -> AppView {
        AppView {
            title: self.title@,
            subtitle: self.subtitle@,
            launch: match self.launch {
                Launch::Path(path) => LaunchView::Path(path@),
                Launch::Uwp { aumid } => LaunchView::Uwp(aumid@),
            },
            source: self.source,
        }
    }
}

pub open spec fn app_views(apps: Seq<IndexedApp>) -> Seq<AppView> {
    apps.map_values(|a: IndexedApp| a@)
}

// --- Exclude patterns ---

/// The patterns that compile, in their order.
pub open spec fn compiled(patterns: Seq<Seq<char>>) -> Seq<regex::Regex>
    decreases patterns.len(),
{
    if patterns.len() == 0 {
        Seq::empty()
    } else {
        match regex_new(patterns.last()) {
            Some(re) => compiled(patterns.drop_last()).push(re),
            None => compiled(patterns.drop_last()),
        }
    }
}

/// Some pattern matches the title.
pub open spec fn excluded(title: Seq<char>, patterns: Seq<regex::Regex>) -> bool {
    exists|i: int| 0 <= i < patterns.len() && regex_is_match(#[trigger] patterns[i], title)
}

/// Compiles the patterns and leaves out those that are not valid.
pub fn compile_patterns(patterns: &Vec<String>) -> (r: Vec<regex::Regex>)
    ensures
        r@ == compiled(texts(patterns@)),
{
    let ghost all = texts(patterns@);
    let mut r: Vec<regex::Regex> = Vec::new();
    let mut i: usize = 0;
    assert(r@ == compiled(all.take(0)));
    while i < patterns.len()
        invariant
            i <= patterns@.len(),
            all == texts(patterns@),
            r@ == compiled(all.take(i as int)),
        decreases patterns@.len() - i,
    {
        assert(all.take(i + 1).drop_last() == all.take(i as int));
        assert(all.take(i + 1).last() == patterns@[i as int]@);
        match regex::Regex::new(patterns[i].as_str()) {
            Ok(re) => {
                r.push(re);
            },
            Err(_) => {},
        }
        i += 1;
    }
    assert(all.take(i as int) == all);
    r
}

/// Whether some pattern matches the title.
pub fn is_excluded(title: &str, patterns: &Vec<regex::Regex>) -> (r: bool)
    ensures
        r == excluded(title@, patterns@),
{
    let mut i: usize = 0;
    while i < patterns.len()
        invariant
            i <= patterns@.len(),
            forall|j: int| 0 <= j < i ==> !regex_is_match(#[trigger] patterns@[j], title@),
        decreases patterns@.len() - i,
    {
        if patterns[i].is_match(title) {
            assert(regex_is_match(patterns@[i as int], title@));
            return true;
        }
        i += 1;
    }
    false
}

// --- File names ---

/// The index of the last dot, or -1.
pub open spec fn last_dot(name: Seq<char>) -> int
    decreases name.len(),
{
    if name.len() == 0 {
        -1
    } else if name.last() == '.' {
        name.len() - 1
    } else {
        last_dot(name.drop_last())
    }
}

/// The index of the dot in front of the extension, or -1. A name that starts
/// with its only dot has no extension, nor has `..`.
pub open spec fn dot_index(name: Seq<char>) -> int {
    if last_dot(name) == 0 || name == seq!['.', '.'] {
        -1
    } else {
        last_dot(name)
    }
}

/// A file name without its extension.
pub open spec fn stem_of(name: Seq<char>) -> Seq<char> {
    if dot_index(name) < 0 {
        name
    } else {
        name.take(dot_index(name))
    }
}

/// What follows the last dot of a file name.
pub open spec fn extension_of(name: Seq<char>) -> Option<Seq<char>> {
    if dot_index(name) < 0 {
        None
    } else {
        Some(name.skip(dot_index(name) + 1))
    }
}

/// Two texts are the same up to the case of ASCII letters.
pub open spec fn same_ignoring_case(a: Seq<char>, b: Seq<char>) -> bool {
    a.map_values(|c: char| lower(c)) == b.map_values(|c: char| lower(c))
}

pub open spec fn extension_is(name: Seq<char>, ext: Seq<char>) -> bool {
    extension_of(name) matches Some(e) && same_ignoring_case(e, ext)
}

proof fn lemma_last_dot(name: Seq<char>)
    ensures
        -1 <= last_dot(name) < name.len(),
    decreases name.len(),
{
    if name.len() > 0 && name.last() != '.' {
        lemma_last_dot(name.drop_last());
    }
}

/// The index of the dot in front of the extension, or the length.
fn find_dot(chars: &Vec<char>) -> (r: usize)
    ensures
        r <= chars@.len(),
        dot_index(chars@) < chars@.len(),
        r == if dot_index(chars@) < 0 {
            chars@.len() as int
        } else {
            dot_index(chars@)
        },
{
    let n: usize = chars.len();
    proof {
        lemma_last_dot(chars@);
    }
    if n == 2 && chars[0] == '.' && chars[1] == '.' {
        assert(chars@ == seq!['.', '.']);
        return n;
    }
    let mut i: usize = n;
    assert(chars@.take(n as int) == chars@);
    while i > 0
        invariant
            i <= n == chars@.len(),
            last_dot(chars@) == last_dot(chars@.take(i as int)),
            chars@ != seq!['.', '.'],
        decreases i,
    {
        i -= 1;
        assert(chars@.take(i + 1).drop_last() == chars@.take(i as int));
        if chars[i] == '.' {
            return if i == 0 {
                n
            } else {
                i
            };
        }
    }
    n
}

/// The name of a file without its extension.
pub fn file_stem(name: &str) -> (r: String)
    ensures
        r@ == stem_of(name@),
{
    let chars = chars_of(name);
    let dot: usize = find_dot(&chars);
    assert(chars@.subrange(0, dot as int) == stem_of(chars@));
    string_of(&chars, 0, dot)
}

/// What follows the last dot of a file name.
pub fn file_extension(name: &str) -> (r: Option<String>)
    ensures
        match extension_of(name@) {
            Some(e) => r matches Some(s) && s@ == e,
            None => r is None,
        },
{
    let chars = chars_of(name);
    let dot: usize = find_dot(&chars);
    if dot == chars.len() {
        return None;
    }
    assert(chars@.subrange(dot + 1, chars@.len() as int) =~= chars@.skip(dot + 1));
    Some(string_of(&chars, dot + 1, chars.len()))
}

fn same_but_for_case(a: &Vec<char>, from: usize, b: &Vec<char>) -> (r: bool)
    requires
        from <= a@.len(),
    ensures
        r == same_ignoring_case(a@.skip(from as int), b@),
{
    let ghost tail = a@.skip(from as int);
    let ghost f = |c: char| lower(c);
    let n: usize = a.len();
    if n - from != b.len() {
        assert(tail.map_values(f).len() != b@.map_values(f).len());
        return false;
    }
    let mut i: usize = 0;
    while i < b.len()
        invariant
            tail == a@.skip(from as int),
            n == a@.len(),
            from <= n,
            n - from == b@.len(),
            i <= b@.len(),
            f == (|c: char| lower(c)),
            forall|j: int| 0 <= j < i ==> lower(tail[j]) == lower(b@[j]),
        decreases b@.len() - i,
    {
        if ascii_lower(a[from + i]) != ascii_lower(b[i]) {
            assert(tail.map_values(f)[i as int] != b@.map_values(f)[i as int]);
            return false;
        }
        i += 1;
    }
    assert(tail.map_values(f) == b@.map_values(f));
    true
}

/// Whether a file name has the extension, in either case.
pub fn has_extension(name: &str, ext: &str) -> (r: bool)
    ensures
        r == extension_is(name@, ext@),
{
    let chars = chars_of(name);
    let wanted = chars_of(ext);
    let dot: usize = find_dot(&chars);
    if dot == chars.len() {
        return false;
    }
    same_but_for_case(&chars, dot + 1, &wanted)
}

// --- Walking folders ---

/// An entry of a folder.
#[derive(Debug)]
pub struct DirEntry {
    pub path: String,
    /// The file name, where it is valid Unicode.
    pub name: Option<String>,
    pub is_dir: bool,
}

pub struct DirEntryView {
    pub path: Seq<char>,
    pub name: Option<Seq<char>>,
    pub is_dir: bool,
}

impl View for DirEntry {
    type V = DirEntryView;

    open spec fn view(&self) -> DirEntryView {
        DirEntryView {
            path: self.path@,
            name: match self.name {
                Some(n) => Some(n@),
                None => None,
            },
            is_dir: self.is_dir,
        }
    }
}

pub open spec fn dir_views(entries: Seq<DirEntry>) -> Seq<DirEntryView> {
    entries.map_values(|e: DirEntry| e@)
}

/// What a walk looks for.
#[derive(Clone, Copy, PartialEq, Eq, Structural, Debug)]
pub enum FileKind {
    Shortcut,
    Executable,
}

impl FileKind {
    pub open spec fn spec_extension(self) -> Seq<char> {
        match self {
            FileKind::Shortcut => "lnk"@,
            FileKind::Executable => "exe"@,
        }
    }

    pub fn extension(self) -> (r: &'static str)
        ensures
            r@ == self.spec_extension(),
    {
        match self {
            FileKind::Shortcut => "lnk",
            FileKind::Executable => "exe",
        }
    }
}

/// How a folder is walked: for what, how deep, and as what source.
#[derive(Clone, Copy, PartialEq, Eq, Structural, Debug)]
pub struct Job {
    pub kind: FileKind,
    /// 0 means the folder alone.
    pub max_depth: u32,
    pub source: AppSource,
}

/// The app that a file is indexed as, unless its title is excluded.
pub open spec fn app_of(job: Job, entry: DirEntryView, title_excluded: bool) -> Option<AppView> {
    match entry.name {
        Some(name) => if extension_is(name, job.kind.spec_extension()) && !title_excluded {
            Some(
                AppView {
                    title: stem_of(name),
                    subtitle: entry.path,
                    launch: LaunchView::Path(entry.path),
                    source: job.source,
                },
            )
        } else {
            None
        },
        None => None,
    }
}

/// The title that a file would be indexed under.
pub open spec fn title_of(entry: DirEntryView) -> Seq<char> {
    match entry.name {
        Some(name) => stem_of(name),
        None => Seq::empty(),
    }
}

/// The apps of one file: one or none.
pub open spec fn file_apps(
    job: Job,
    patterns: Seq<regex::Regex>,
    entry: DirEntryView,
) -> Seq<AppView> {
    match app_of(job, entry, excluded(title_of(entry), patterns)) {
        Some(app) => seq![app],
        None => Seq::empty(),
    }
}

/// Indexes a file, given whether its title is excluded.
pub fn index_file(job: Job, entry: &DirEntry, title_excluded: bool) -> (r: Option<IndexedApp>)
    ensures
        match app_of(job, entry@, title_excluded) {
            Some(app) => r matches Some(a) && a@ == app,
            None => r is None,
        },
{
    match &entry.name {
        Some(name) => {
            if has_extension(name.as_str(), job.kind.extension()) && !title_excluded {
                Some(
                    IndexedApp {
                        title: file_stem(name.as_str()),
                        subtitle: entry.path.clone(),
                        launch: Launch::Path(entry.path.clone()),
                        source: job.source,
                    },
                )
            } else {
                None
            }
        },
        None => None,
    }
}

/// What the outside holds: the entries of the folders that can be read, and the
/// items of the apps folder.
pub ghost struct World {
    pub dirs: spec_fn(Seq<char>) -> Option<Seq<DirEntryView>>,
    pub uwp: Seq<UwpView>,
}

/// The apps below the given entries of a folder, in order: a subfolder's apps
/// stand where the subfolder stands.
pub open spec fn walk(
    world: World,
    patterns: Seq<regex::Regex>,
    job: Job,
    entries: Seq<DirEntryView>,
    depth: nat,
) -> Seq<AppView>
    decreases job.max_depth - depth, entries.len(),
{
    if entries.len() == 0 {
        Seq::empty()
    } else {
        let first = entries[0];
        let head = if first.is_dir {
            if depth < job.max_depth {
                match (world.dirs)(first.path) {
                    Some(inner) => walk(world, patterns, job, inner, depth + 1),
                    None => Seq::empty(),
                }
            } else {
                Seq::empty()
            }
        } else {
            file_apps(job, patterns, first)
        };
        head + walk(world, patterns, job, entries.drop_first(), depth)
    }
}

/// The apps of a folder; none where it cannot be read.
pub open spec fn folder_apps(
    world: World,
    patterns: Seq<regex::Regex>,
    job: Job,
    path: Seq<char>,
    depth: nat,
) -> Seq<AppView> {
    match (world.dirs)(path) {
        Some(entries) => walk(world, patterns, job, entries, depth),
        None => Seq::empty(),
    }
}

/// How many folders are read below the given entries of a folder.
pub open spec fn reads(world: World, job: Job, entries: Seq<DirEntryView>, depth: nat) -> nat
    decreases job.max_depth - depth, entries.len(),
{
    if entries.len() == 0 {
        0
    } else {
        let first = entries[0];
        let head: nat = if first.is_dir && depth < job.max_depth {
            1 + match (world.dirs)(first.path) {
                Some(inner) => reads(world, job, inner, depth + 1),
                None => 0,
            }
        } else {
            0
        };
        head + reads(world, job, entries.drop_first(), depth)
    }
}

/// How many folders are read for a folder, itself and those below.
pub open spec fn folder_reads(world: World, job: Job, path: Seq<char>, depth: nat) -> nat {
    1 + match (world.dirs)(path) {
        Some(entries) => reads(world, job, entries, depth),
        None => 0,
    }
}

/// What the scan needs of the settings, so that they can be edited meanwhile.
#[derive(Debug)]
pub struct ScanConfig {
    pub extra_folders: Vec<String>,
    pub exclude_patterns: Vec<String>,
}

#[verifier::ext_equal]
pub struct ScanConfigView {
    pub extra_folders: Seq<Seq<char>>,
    pub exclude_patterns: Seq<Seq<char>>,
}

impl View for ScanConfig {
    type V = ScanConfigView;

    open spec fn view(&self) -> ScanConfigView {
        ScanConfigView {
            extra_folders: texts(self.extra_folders@),
            exclude_patterns: texts(self.exclude_patterns@),
        }
    }
}

pub open spec fn scan_config_of(config: ConfigView) -> ScanConfigView {
    ScanConfigView {
        extra_folders: config.index_folders,
        exclude_patterns: config.exclude_patterns,
    }
}

impl ScanConfig {
    pub fn from_config(config: &Config) -> (r: Self)
        ensures
            r@ == scan_config_of(config@),
    {
        ScanConfig {
            extra_folders: copy_strings(&config.index_folders),
            exclude_patterns: copy_strings(&config.exclude_patterns),
        }
    }
}

/// A folder to walk from its top.
#[derive(Debug)]
pub struct Task {
    pub path: String,
    pub job: Job,
}

pub struct TaskView {
    pub path: Seq<char>,
    pub job: Job,
}

impl View for Task {
    type V = TaskView;

    open spec fn view(&self) -> TaskView {
        TaskView { path: self.path@, job: self.job }
    }
}

pub open spec fn task_views(tasks: Seq<Task>) -> Seq<TaskView> {
    tasks.map_values(|t: Task| t@)
}

/// The start menu: shortcuts, with subfolders.
pub open spec fn start_menu_job() -> Job {
    Job { kind: FileKind::Shortcut, max_depth: MAX_SCAN_DEPTH, source: AppSource::StartMenu }
}

/// The system folder and the search path: executables, without subfolders.
pub open spec fn system_job() -> Job {
    Job { kind: FileKind::Executable, max_depth: 0, source: AppSource::SystemOrPath }
}

/// The user's folders, with subfolders.
pub open spec fn custom_job(kind: FileKind) -> Job {
    Job { kind, max_depth: MAX_SCAN_DEPTH, source: AppSource::CustomFolder }
}

pub open spec fn tasks_for(paths: Seq<Seq<char>>, job: Job) -> Seq<TaskView> {
    paths.map_values(|path: Seq<char>| TaskView { path, job })
}

/// Every user folder is walked twice: for shortcuts, then for executables.
pub open spec fn custom_tasks(paths: Seq<Seq<char>>) -> Seq<TaskView>
    decreases paths.len(),
{
    if paths.len() == 0 {
        Seq::empty()
    } else {
        custom_tasks(paths.drop_last()).push(
            TaskView { path: paths.last(), job: custom_job(FileKind::Shortcut) },
        ).push(TaskView { path: paths.last(), job: custom_job(FileKind::Executable) })
    }
}

/// What a scan walks, in order.
pub open spec fn all_tasks(
    config: ScanConfigView,
    start_menu: Seq<Seq<char>>,
    system: Seq<Seq<char>>,
) -> Seq<TaskView> {
    tasks_for(start_menu, start_menu_job()) + tasks_for(system, system_job()) + custom_tasks(
        config.extra_folders,
    )
}

/// The apps of several folders, in order.
pub open spec fn tasks_apps(
    world: World,
    patterns: Seq<regex::Regex>,
    tasks: Seq<TaskView>,
) -> Seq<AppView>
    decreases tasks.len(),
{
    if tasks.len() == 0 {
        Seq::empty()
    } else {
        folder_apps(world, patterns, tasks[0].job, tasks[0].path, 0) + tasks_apps(
            world,
            patterns,
            tasks.drop_first(),
        )
    }
}

/// How many folders are read for several folders.
pub open spec fn tasks_reads(world: World, tasks: Seq<TaskView>) -> nat
    decreases tasks.len(),
{
    if tasks.len() == 0 {
        0
    } else {
        folder_reads(world, tasks[0].job, tasks[0].path, 0) + tasks_reads(world, tasks.drop_first())
    }
}

/// The packaged apps whose titles are not excluded.
pub open spec fn uwp_apps(patterns: Seq<regex::Regex>, apps: Seq<UwpView>) -> Seq<AppView>
    decreases apps.len(),
{
    if apps.len() == 0 {
        Seq::empty()
    } else {
        let app = apps.last();
        let rest = uwp_apps(patterns, apps.drop_last());
        if excluded(app.title, patterns) {
            rest
        } else {
            rest.push(
                AppView {
                    title: app.title,
                    subtitle: "UWP"@,
                    launch: LaunchView::Uwp(app.aumid),
                    source: AppSource::Uwp,
                },
            )
        }
    }
}

/// The index of a world: the folders' apps, then the packaged apps.
pub open spec fn index_of(
    world: World,
    config: ScanConfigView,
    start_menu: Seq<Seq<char>>,
    system: Seq<Seq<char>>,
) -> Seq<AppView> {
    let patterns = compiled(config.exclude_patterns);
    tasks_apps(world, patterns, all_tasks(config, start_menu, system)) + uwp_apps(
        patterns,
        packaged_apps(world.uwp),
    )
}

/// A folder whose entries are being walked.
#[derive(Debug)]
pub struct Frame {
    pub job: Job,
    pub depth: u32,
    pub entries: Vec<DirEntry>,
    /// How many entries are done.
    pub done: usize,
}

impl Frame {
    pub open spec fn wf(self) -> bool {
        self.depth <= self.job.max_depth && self.done <= self.entries@.len()
    }

    /// The entries that are left.
    pub open spec fn rest(self) -> Seq<DirEntryView> {
        dir_views(self.entries@).skip(self.done as int)
    }
}

/// The apps that the open folders still hold, the innermost first.
pub open spec fn frames_apps(
    world: World,
    patterns: Seq<regex::Regex>,
    frames: Seq<Frame>,
) -> Seq<AppView>
    decreases frames.len(),
{
    if frames.len() == 0 {
        Seq::empty()
    } else {
        let top = frames.last();
        walk(world, patterns, top.job, top.rest(), top.depth as nat) + frames_apps(
            world,
            patterns,
            frames.drop_last(),
        )
    }
}

/// How many folders are still read below the open folders.
pub open spec fn frames_reads(world: World, frames: Seq<Frame>) -> nat
    decreases frames.len(),
{
    if frames.len() == 0 {
        0
    } else {
        let top = frames.last();
        reads(world, top.job, top.rest(), top.depth as nat) + frames_reads(
            world,
            frames.drop_last(),
        )
    }
}

/// How many steps the open folders take at most before a folder is read.
pub open spec fn frames_work(frames: Seq<Frame>) -> nat
    decreases frames.len(),
{
    if frames.len() == 0 {
        0
    } else {
        frames_work(frames.drop_last()) + frames.last().rest().len() + 1
    }
}

/// A folder that has to be read next.
#[derive(Debug)]
pub struct PendingDir {
    pub path: String,
    pub job: Job,
    pub depth: u32,
}

/// What a scan asks of the outside.
#[derive(Debug)]
pub enum ScanRequest {
    /// Read a folder and answer with `IndexScan::on_dir`.
    ReadDir(String),
    /// List the apps folder and answer with `IndexScan::on_uwp`.
    ListUwp,
    Finished,
}

/// A scan in progress. It asks for one folder at a time, and for the apps
/// folder last.
#[derive(Debug)]
pub struct IndexScan {
    pub patterns: Vec<regex::Regex>,
    pub tasks: Vec<Task>,
    pub started: usize,
    pub frames: Vec<Frame>,
    pub pending: Option<PendingDir>,
    pub uwp_listed: bool,
    pub entries: Vec<IndexedApp>,
    pub delivered: bool,
}

impl IndexScan {
    pub open spec fn wf(self) -> bool {
        &&& self.started <= self.tasks@.len()
        &&& forall|i: int|
            0 <= i < self.tasks@.len() ==> (#[trigger] self.tasks@[i]).job.max_depth
                <= MAX_SCAN_DEPTH
        &&& forall|i: int|
            0 <= i < self.frames@.len() ==> (#[trigger] self.frames@[i]).wf()
                && self.frames@[i].depth == i && self.frames@[i].job.max_depth <= MAX_SCAN_DEPTH
        &&& self.pending matches Some(p) ==> p.depth <= p.job.max_depth <= MAX_SCAN_DEPTH
            && p.depth == self.frames@.len()
    }

    /// No folder is left.
    pub open spec fn walked(self) -> bool {
        self.pending is None && self.frames@.len() == 0 && self.started == self.tasks@.len()
    }

    pub open spec fn finished(self) -> bool {
        self.walked() && self.uwp_listed
    }

    pub open spec fn pending_apps(self, world: World) -> Seq<AppView> {
        match self.pending {
            Some(p) => folder_apps(world, self.patterns@, p.job, p.path@, p.depth as nat),
            None => Seq::empty(),
        }
    }

    /// What the scan ends with, if the outside is as the world says.
    pub open spec fn outcome(self, world: World) -> Seq<AppView> {
        app_views(self.entries@) + self.pending_apps(world) + frames_apps(
            world,
            self.patterns@,
            self.frames@,
        ) + tasks_apps(world, self.patterns@, task_views(self.tasks@).skip(self.started as int)) + (
        if self.uwp_listed {
            Seq::empty()
        } else {
            uwp_apps(self.patterns@, packaged_apps(world.uwp))
        })
    }

    /// How many folders the scan will still ask for, if the outside is as the world
    /// says.
    pub open spec fn reads_left(self, world: World) -> nat {
        frames_reads(world, self.frames@) + tasks_reads(
            world,
            task_views(self.tasks@).skip(self.started as int),
        ) + match self.pending {
            Some(p) => folder_reads(world, p.job, p.path@, p.depth as nat),
            None => 0,
        }
    }

    /// A scan of the start menu folders, the system folders and the user's
    /// folders.
    pub fn spawn(config: &ScanConfig, start_menu: &Vec<String>, system: &Vec<String>) -> (r: Self)
        ensures
            r.wf(),
            !r.delivered,
            forall|world: World| #[trigger]
                r.outcome(world) == index_of(
                    world,
                    config@,
                    texts(start_menu@),
                    texts(system@),
                ),
    {
        let mut tasks: Vec<Task> = Vec::new();
        assert(task_views(tasks@) == Seq::<TaskView>::empty());
        push_tasks(
            &mut tasks,
            start_menu,
            Job {
                kind: FileKind::Shortcut,
                max_depth: MAX_SCAN_DEPTH,
                source: AppSource::StartMenu,
            },
        );
        push_tasks(
            &mut tasks,
            system,
            Job { kind: FileKind::Executable, max_depth: 0, source: AppSource::SystemOrPath },
        );
        push_custom_tasks(&mut tasks, &config.extra_folders);
        let r = IndexScan {
            patterns: compile_patterns(&config.exclude_patterns),
            tasks,
            started: 0,
            frames: Vec::new(),
            pending: None,
            uwp_listed: false,
            entries: Vec::new(),
            delivered: false,
        };
        proof {
            let all = all_tasks(config@, texts(start_menu@), texts(system@));
            assert(task_views(r.tasks@) =~= all);
            lemma_task_depths(config@.extra_folders);
            assert forall|i: int| 0 <= i < r.tasks@.len() implies (
            #[trigger] r.tasks@[i]).job.max_depth <= MAX_SCAN_DEPTH by {
                assert(all[i] == r.tasks@[i]@);
                let (a, b) = (texts(start_menu@), texts(system@));
                if i >= a.len() + b.len() {
                    assert(all[i] == custom_tasks(config@.extra_folders)[i - a.len() - b.len()]);
                }
            }
            assert(task_views(r.tasks@).skip(0) =~= all);
            assert forall|world: World| #[trigger]
                r.outcome(world) == index_of(
                    world,
                    config@,
                    texts(start_menu@),
                    texts(system@),
                ) by {
                assert(app_views(r.entries@) =~= Seq::<AppView>::empty());
                assert(r.outcome(world) =~= index_of(
                    world,
                    config@,
                    texts(start_menu@),
                    texts(system@),
                ));
            }
        }
        r
    }

    /// Walks on until the outside has to be asked.
    pub fn next(&mut self) -> (request: ScanRequest)
        requires
            old(self).wf(),
        ensures
            final(self).wf(),
            final(self).delivered == old(self).delivered,
            forall|world: World| #[trigger] final(self).outcome(world) == old(self).outcome(world),
            forall|world: World| #[trigger]
                final(self).reads_left(world) == old(self).reads_left(world),
            match request {
                ScanRequest::ReadDir(path) => final(self).pending matches Some(p) && p.path@
                    == path@,
                ScanRequest::ListUwp => final(self).walked() && !final(self).uwp_listed,
                ScanRequest::Finished => final(self).finished(),
            },
    {
        loop
            invariant
                self.wf(),
                self.delivered == old(self).delivered,
                forall|world: World| #[trigger] self.outcome(world) == old(self).outcome(world),
                forall|world: World| #[trigger]
                    self.reads_left(world) == old(self).reads_left(world),
            decreases self.tasks@.len() - self.started, frames_work(self.frames@),
        {
            if let Some(p) = &self.pending {
                return ScanRequest::ReadDir(p.path.clone());
            }
            if self.frames.len() > 0 {
                self.advance();
            } else if self.started < self.tasks.len() {
                self.begin_task();
            } else if self.uwp_listed {
                return ScanRequest::Finished;
            } else {
                return ScanRequest::ListUwp;
            }
        }
    }
}

proof fn lemma_task_depths(paths: Seq<Seq<char>>)
    ensures
        forall|i: int|
            0 <= i < custom_tasks(paths).len() ==> (#[trigger] custom_tasks(paths)[i]).job.max_depth
                <= MAX_SCAN_DEPTH,
    decreases paths.len(),
{
    if paths.len() > 0 {
        lemma_task_depths(paths.drop_last());
        let rest = custom_tasks(paths.drop_last());
        assert forall|i: int| 0 <= i < custom_tasks(paths).len() implies (
        #[trigger] custom_tasks(paths)[i]).job.max_depth <= MAX_SCAN_DEPTH by {
            if i < rest.len() {
                assert(custom_tasks(paths)[i] == rest[i]);
            }
        }
    }
}

fn push_tasks(tasks: &mut Vec<Task>, paths: &Vec<String>, job: Job)
    ensures
        task_views(final(tasks)@) == task_views(old(tasks)@) + tasks_for(texts(paths@), job),
{
    let ghost start = task_views(tasks@);
    let mut i: usize = 0;
    assert(start + tasks_for(texts(paths@).take(0), job) =~= start);
    while i < paths.len()
        invariant
            i <= paths@.len(),
            task_views(tasks@) == start + tasks_for(texts(paths@).take(i as int), job),
        decreases paths@.len() - i,
    {
        let ghost before = tasks@;
        tasks.push(Task { path: paths[i].clone(), job });
        assert(task_views(tasks@) =~= task_views(before).push(
            TaskView { path: paths@[i as int]@, job },
        ));
        assert(texts(paths@).take(i + 1) =~= texts(paths@).take(i as int).push(paths@[i as int]@));
        i += 1;
        assert(task_views(tasks@) =~= start + tasks_for(texts(paths@).take(i as int), job));
    }
    assert(texts(paths@).take(i as int) =~= texts(paths@));
}

fn push_custom_tasks(tasks: &mut Vec<Task>, paths: &Vec<String>)
    ensures
        task_views(final(tasks)@) == task_views(old(tasks)@) + custom_tasks(texts(paths@)),
{
    let ghost start = task_views(tasks@);
    let ghost all = texts(paths@);
    let mut i: usize = 0;
    assert(start + custom_tasks(all.take(0)) =~= start);
    while i < paths.len()
        invariant
            i <= paths@.len(),
            all == texts(paths@),
            task_views(tasks@) == start + custom_tasks(all.take(i as int)),
        decreases paths@.len() - i,
    {
        let ghost before = tasks@;
        tasks.push(
            Task {
                path: paths[i].clone(),
                job: Job {
                    kind: FileKind::Shortcut,
                    max_depth: MAX_SCAN_DEPTH,
                    source: AppSource::CustomFolder,
                },
            },
        );
        tasks.push(
            Task {
                path: paths[i].clone(),
                job: Job {
                    kind: FileKind::Executable,
                    max_depth: MAX_SCAN_DEPTH,
                    source: AppSource::CustomFolder,
                },
            },
        );
        assert(all.take(i + 1).drop_last() =~= all.take(i as int));
        assert(all.take(i + 1).last() == paths@[i as int]@);
        assert(task_views(tasks@) =~= task_views(before).push(
            TaskView { path: paths@[i as int]@, job: custom_job(FileKind::Shortcut) },
        ).push(TaskView { path: paths@[i as int]@, job: custom_job(FileKind::Executable) }));
        i += 1;
        assert(task_views(tasks@) =~= start + custom_tasks(all.take(i as int)));
    }
    assert(all.take(i as int) =~= all);
}

impl IndexScan {
    /// Takes the next task, whose folder is then pending.
    fn begin_task(&mut self)
        requires
            old(self).wf(),
            old(self).pending is None,
            old(self).frames@.len() == 0,
            old(self).started < old(self).tasks@.len(),
        ensures
            final(self).wf(),
            final(self).delivered == old(self).delivered,
            final(self).tasks@.len() - final(self).started < old(self).tasks@.len() - old(
                self,
            ).started,
            final(self).started <= final(self).tasks@.len(),
            forall|world: World| #[trigger] final(self).outcome(world) == old(self).outcome(world),
            forall|world: World| #[trigger]
                final(self).reads_left(world) == old(self).reads_left(world),
    {
        let total: usize = self.tasks.len();
        assert(self.started < total);
        let task = &self.tasks[self.started];
        let pending = PendingDir { path: task.path.clone(), job: task.job, depth: 0 };
        let ghost left = task_views(self.tasks@).skip(self.started as int);
        self.pending = Some(pending);
        self.started += 1;
        proof {
            assert(left.drop_first() =~= task_views(self.tasks@).skip(self.started as int));
            assert(left[0] == self.tasks@[self.started - 1]@);
            assert forall|world: World| #[trigger]
                self.outcome(world) == old(self).outcome(world) by {
                assert(self.outcome(world) =~= old(self).outcome(world));
            }
        }
    }

    /// Takes one entry of the innermost open folder, or closes the folder.
    fn advance(&mut self)
        requires
            old(self).wf(),
            old(self).pending is None,
            old(self).frames@.len() > 0,
        ensures
            final(self).wf(),
            final(self).delivered == old(self).delivered,
            final(self).tasks@ == old(self).tasks@,
            final(self).started == old(self).started,
            frames_work(final(self).frames@) < frames_work(old(self).frames@),
            forall|world: World| #[trigger] final(self).outcome(world) == old(self).outcome(world),
            forall|world: World| #[trigger]
                final(self).reads_left(world) == old(self).reads_left(world),
    {
        let ghost frames = self.frames@;
        match self.frames.pop() {
            None => {},
            Some(mut top) => {
                let ghost was = top;
                assert(top.wf());
                assert(self.frames@ =~= frames.drop_last());
                if top.done == top.entries.len() {
                    assert(top.rest() =~= Seq::<DirEntryView>::empty());
                    proof {
                        assert forall|world: World| #[trigger]
                            self.outcome(world) == old(self).outcome(world) by {
                            assert(self.outcome(world) =~= old(self).outcome(world));
                        }
                    }
                    return;
                }
                let ghost e = dir_views(top.entries@)[top.done as int];
                assert(was.rest()[0] == e);
                let entry = &top.entries[top.done];
                if entry.is_dir {
                    if top.depth < top.job.max_depth {
                        self.pending = Some(
                            PendingDir {
                                path: entry.path.clone(),
                                job: top.job,
                                depth: top.depth + 1,
                            },
                        );
                    }
                } else {
                    let title_excluded = match &entry.name {
                        Some(name) => is_excluded(file_stem(name.as_str()).as_str(), &self.patterns),
                        None => false,
                    };
                    if let Some(app) = index_file(top.job, entry, title_excluded) {
                        let ghost before = self.entries@;
                        self.entries.push(app);
                        assert(app_views(self.entries@) =~= app_views(before).push(app@));
                    }
                }
                top.done += 1;
                assert(top.rest() =~= was.rest().drop_first());
                self.frames.push(top);
                assert(self.frames@.drop_last() =~= frames.drop_last());
                proof {
                    assert forall|world: World| #[trigger]
                        self.outcome(world) == old(self).outcome(world) by {
                        assert(self.outcome(world) =~= old(self).outcome(world));
                    }
                }
            },
        }
    }

    /// Answers a `ReadDir` request: the folder's entries, or `None` where it
    /// cannot be read.
    pub fn on_dir(&mut self, listing: Option<Vec<DirEntry>>)
        requires
            old(self).wf(),
            old(self).pending is Some,
        ensures
            final(self).wf(),
            final(self).delivered == old(self).delivered,
            final(self).pending is None,
            forall|world: World|
                (world.dirs)(old(self).pending->0.path@) == (match listing {
                    Some(entries) => Some(dir_views(entries@)),
                    None => None,
                }) ==> #[trigger] final(self).outcome(world) == old(self).outcome(world),
            forall|world: World|
                (world.dirs)(old(self).pending->0.path@) == (match listing {
                    Some(entries) => Some(dir_views(entries@)),
                    None => None,
                }) ==> (#[trigger] final(self).reads_left(world)) + 1 == old(self).reads_left(
                    world,
                ),
    {
        let pending = self.pending.take();
        if let Some(p) = pending {
            if let Some(entries) = listing {
                let frame = Frame { job: p.job, depth: p.depth, entries, done: 0 };
                assert(frame.rest() =~= dir_views(entries@));
                let ghost before = self.frames@;
                self.frames.push(frame);
                assert(self.frames@.drop_last() =~= before);
            }
            proof {
                assert forall|world: World|
                    (world.dirs)(old(self).pending->0.path@) == (match listing {
                        Some(entries) => Some(dir_views(entries@)),
                        None => None,
                    }) implies #[trigger] self.outcome(world) == old(self).outcome(world) by {
                    assert(self.outcome(world) =~= old(self).outcome(world));
                }
            }
        }
    }

    /// Answers a `ListUwp` request.
    pub fn on_uwp(&mut self, items: &Vec<UwpApp>)
        requires
            old(self).wf(),
            old(self).walked(),
            !old(self).uwp_listed,
        ensures
            final(self).wf(),
            final(self).delivered == old(self).delivered,
            final(self).finished(),
            forall|world: World|
                world.uwp == uwp_views(items@) ==> #[trigger] final(self).outcome(world) == old(
                    self,
                ).outcome(world),
    {
        let apps = uwp::scan(items);
        let ghost all = uwp_views(apps@);
        let ghost start = app_views(self.entries@);
        let mut i: usize = 0;
        assert(start + uwp_apps(self.patterns@, all.take(0)) =~= start);
        while i < apps.len()
            invariant
                i <= apps@.len(),
                all == uwp_views(apps@),
                app_views(self.entries@) == start + uwp_apps(self.patterns@, all.take(i as int)),
                self.patterns@ == old(self).patterns@,
                self.tasks@ == old(self).tasks@,
                self.frames@ == old(self).frames@,
                self.pending == old(self).pending,
                self.started == old(self).started,
                self.delivered == old(self).delivered,
            decreases apps@.len() - i,
        {
            let app = &apps[i];
            assert(all.take(i + 1).drop_last() =~= all.take(i as int));
            assert(all.take(i + 1).last() == app@);
            if !is_excluded(app.title.as_str(), &self.patterns) {
                let ghost before = self.entries@;
                let one = IndexedApp {
                    title: app.title.clone(),
                    subtitle: "UWP".to_owned(),
                    launch: Launch::Uwp { aumid: app.aumid.clone() },
                    source: AppSource::Uwp,
                };
                self.entries.push(one);
                assert(app_views(self.entries@) =~= app_views(before).push(one@));
                assert(app_views(self.entries@) =~= start + uwp_apps(
                    self.patterns@,
                    all.take(i + 1),
                ));
            }
            i += 1;
        }
        assert(all.take(i as int) =~= all);
        self.uwp_listed = true;
        proof {
            assert forall|world: World|
                world.uwp == uwp_views(items@) implies #[trigger] self.outcome(world) == old(
                self,
            ).outcome(world) by {
                assert(self.outcome(world) =~= old(self).outcome(world));
            }
        }
    }

    /// The index, once: when the scan is finished.
    pub fn try_recv(&mut self) -> (r: Option<AppIndexProvider>)
        requires
            old(self).wf(),
        ensures
            final(self).wf(),
            r is Some <==> old(self).finished() && !old(self).delivered,
            r matches Some(p) ==> final(self).delivered && app_views(p.entries@) == app_views(
                old(self).entries@,
            ),
            r is None ==> *final(self) == *old(self),
    {
        if self.pending.is_some() || self.frames.len() > 0 || self.started < self.tasks.len()
            || !self.uwp_listed || self.delivered {
            return None;
        }
        let mut entries: Vec<IndexedApp> = Vec::new();
        std::mem::swap(&mut entries, &mut self.entries);
        self.delivered = true;
        Some(AppIndexProvider { entries })
    }
}

/// The apps that can be found.
#[derive(Debug)]
pub struct AppIndexProvider {
    pub entries: Vec<IndexedApp>,
}

/// What is taken from a source that matches easily, for a query of this many
/// characters: more than what the best match of such a query can score above the
/// worst one.
pub open spec fn penalty(len: nat) -> int {
    let n = if len <= MAX_QUERY_CHARS {
        len as int
    } else {
        MAX_QUERY_CHARS as int
    };
    if 13 * n - 4 > LOW_PRIORITY_PENALTY {
        13 * n - 4
    } else {
        LOW_PRIORITY_PENALTY as int
    }
}

/// A score, less the penalty for a source that matches easily.
pub open spec fn weighted(score: i32, source: AppSource, len: nat) -> i32 {
    if source == AppSource::SystemOrPath {
        score.wrapping_sub(penalty(len) as i32)
    } else {
        score
    }
}

fn penalty_for(query: &str) -> (r: i32)
    ensures
        r == penalty(query@.len()),
{
    let len: usize = chars_of(query).len();
    let n: usize = if len <= MAX_QUERY_CHARS {
        len
    } else {
        MAX_QUERY_CHARS
    };
    let grown: i32 = 13 * n as i32 - 4;
    if grown > LOW_PRIORITY_PENALTY {
        grown
    } else {
        LOW_PRIORITY_PENALTY
    }
}

/// What an app is found as.
pub open spec fn app_finding(app: AppView, query: Seq<char>) -> Option<ResultView> {
    match fuzzy_i32(query, app.title) {
        Some(score) => Some(
            ResultView {
                title: app.title,
                subtitle: app.subtitle,
                action: match app.launch {
                    LaunchView::Path(path) => ActionView::Launch { path, args: Seq::empty() },
                    LaunchView::Uwp(aumid) => ActionView::LaunchUwp { aumid },
                },
                score: weighted(score, app.source, query.len()),
            },
        ),
        None => None,
    }
}

/// What is found among apps, in their order.
pub open spec fn app_findings(apps: Seq<AppView>, query: Seq<char>) -> Seq<ResultView>
    decreases apps.len(),
{
    if apps.len() == 0 {
        Seq::empty()
    } else {
        with_finding(app_findings(apps.drop_last(), query), app_finding(apps.last(), query))
    }
}

/// A folder that was read.
#[derive(Debug)]
pub struct Listing {
    pub path: String,
    pub entries: Vec<DirEntry>,
}

/// The entries of a folder, if it was read.
pub open spec fn listed(folders: Seq<Listing>, path: Seq<char>) -> Option<Seq<DirEntryView>>
    decreases folders.len(),
{
    if folders.len() == 0 {
        None
    } else if folders[0].path@ == path {
        Some(dir_views(folders[0].entries@))
    } else {
        listed(folders.drop_first(), path)
    }
}

/// The world in which just these folders can be read.
pub open spec fn world_of(folders: Seq<Listing>, uwp: Seq<UwpView>) -> World {
    World { dirs: |path: Seq<char>| listed(folders, path), uwp }
}

fn copy_entries(entries: &Vec<DirEntry>) -> (r: Vec<DirEntry>)
    ensures
        dir_views(r@) == dir_views(entries@),
{
    let mut r: Vec<DirEntry> = Vec::new();
    let mut i: usize = 0;
    assert(dir_views(r@) =~= dir_views(entries@).take(0));
    while i < entries.len()
        invariant
            i <= entries@.len(),
            dir_views(r@) == dir_views(entries@).take(i as int),
        decreases entries@.len() - i,
    {
        let one = DirEntry {
            path: entries[i].path.clone(),
            name: match &entries[i].name {
                Some(name) => Some(name.clone()),
                None => None,
            },
            is_dir: entries[i].is_dir,
        };
        let ghost before = r@;
        r.push(one);
        assert(one@ == entries@[i as int]@);
        assert(dir_views(r@) =~= dir_views(before).push(one@));
        i += 1;
        assert(dir_views(r@) =~= dir_views(entries@).take(i as int));
    }
    assert(dir_views(entries@).take(i as int) =~= dir_views(entries@));
    r
}

/// Looks a folder up.
fn read_listed(folders: &Vec<Listing>, path: &str) -> (r: Option<Vec<DirEntry>>)
    ensures
        match r {
            Some(entries) => listed(folders@, path@) == Some(dir_views(entries@)),
            None => listed(folders@, path@) is None,
        },
{
    let mut i: usize = 0;
    assert(folders@.skip(0) =~= folders@);
    while i < folders.len()
        invariant
            i <= folders@.len(),
            listed(folders@, path@) == listed(folders@.skip(i as int), path@),
        decreases folders@.len() - i,
    {
        assert(folders@.skip(i as int)[0] == folders@[i as int]);
        if same_text(folders[i].path.as_str(), path) {
            return Some(copy_entries(&folders[i].entries));
        }
        assert(folders@.skip(i as int).drop_first() =~= folders@.skip(i + 1));
        i += 1;
    }
    None
}

impl AppIndexProvider {
    pub fn empty() -> (r: Self)
        ensures
            r.entries@.len() == 0,
    {
        AppIndexProvider { entries: Vec::new() }
    }

    /// Indexes folders that were read, and the items of the apps folder, in one go.
    pub fn scan(
        scan_config: &ScanConfig,
        start_menu: &Vec<String>,
        system: &Vec<String>,
        folders: &Vec<Listing>,
        uwp: &Vec<UwpApp>,
    ) -> (r: Self)
        ensures
            app_views(r.entries@) == index_of(
                world_of(folders@, uwp_views(uwp@)),
                scan_config@,
                texts(start_menu@),
                texts(system@),
            ),
    {
        let ghost world = world_of(folders@, uwp_views(uwp@));
        let mut scan = IndexScan::spawn(scan_config, start_menu, system);
        loop
            invariant
                scan.wf(),
                !scan.delivered,
                world == world_of(folders@, uwp_views(uwp@)),
                scan.outcome(world) == index_of(
                    world,
                    scan_config@,
                    texts(start_menu@),
                    texts(system@),
                ),
            decreases scan.reads_left(world),
        {
            let ghost before = scan;
            match scan.next() {
                ScanRequest::ReadDir(path) => {
                    assert(scan.outcome(world) == before.outcome(world));
                    let ghost asked = scan;
                    scan.on_dir(read_listed(folders, path.as_str()));
                    assert(scan.outcome(world) == asked.outcome(world));
                    assert(scan.reads_left(world) + 1 == asked.reads_left(world));
                },
                request => {
                    assert(scan.outcome(world) == before.outcome(world));
                    if let ScanRequest::ListUwp = request {
                        let ghost asked = scan;
                        scan.on_uwp(uwp);
                        assert(scan.outcome(world) == asked.outcome(world));
                    }
                    proof {
                        law_finished_scan(scan, world);
                    }
                    return match scan.try_recv() {
                        Some(index) => index,
                        None => AppIndexProvider::empty(),
                    };
                },
            }
        }
    }

    pub fn len(&self) -> (r: usize)
        ensures
            r == self.entries@.len(),
    {
        self.entries.len()
    }
}

impl SearchProvider for AppIndexProvider {
    open spec fn accepts(&self, query: Seq<char>) -> bool {
        true
    }

    open spec fn findings(&self, query: Seq<char>) -> Seq<ResultView> {
        if query.len() == 0 {
            Seq::empty()
        } else {
            app_findings(app_views(self.entries@), query)
        }
    }

    fn search(&self, query: &str) -> (r: Vec<SearchResult>) {
        let mut found: Vec<SearchResult> = Vec::new();
        if query.is_empty() {
            assert(result_views(found@) =~= Seq::<ResultView>::empty());
            return found;
        }
        let penalty: i32 = penalty_for(query);
        let ghost all = app_views(self.entries@);
        let mut i: usize = 0;
        assert(result_views(found@) =~= app_findings(all.take(0), query@));
        while i < self.entries.len()
            invariant
                i <= self.entries@.len(),
                penalty == self::penalty(query@.len()),
                all == app_views(self.entries@),
                result_views(found@) == app_findings(all.take(i as int), query@),
            decreases self.entries@.len() - i,
        {
            let app = &self.entries[i];
            assert(all.take(i + 1).drop_last() =~= all.take(i as int));
            assert(all.take(i + 1).last() == app@);
            if let Some(score) = fuzzy_match(query, app.title.as_str()) {
                let result = SearchResult {
                    title: app.title.clone(),
                    subtitle: app.subtitle.clone(),
                    action: match &app.launch {
                        Launch::Path(path) => Action::Launch {
                            path: path.clone(),
                            args: String::new(),
                        },
                        Launch::Uwp { aumid } => Action::LaunchUwp { aumid: aumid.clone() },
                    },
                    score: if app.source == AppSource::SystemOrPath {
                        score.wrapping_sub(penalty)
                    } else {
                        score
                    },
                };
                let ghost before = found@;
                found.push(result);
                assert(result_views(found@) =~= result_views(before).push(result@));
            }
            i += 1;
        }
        assert(all.take(i as int) =~= all);
        found
    }
}

/// A finished scan holds what it was bound to end with.
pub proof fn law_finished_scan(scan: IndexScan, world: World)
    requires
        scan.finished(),
    ensures
        scan.outcome(world) == app_views(scan.entries@),
{
    assert(task_views(scan.tasks@).skip(scan.started as int) =~= Seq::<TaskView>::empty());
    assert(scan.outcome(world) =~= app_views(scan.entries@));
}

/// A scan that asks for a folder has folders left to read. Each answer uses one
/// up, so that the scan ends however folders link to each other.
pub proof fn law_asking_scan_has_reads_left(scan: IndexScan, world: World)
    requires
        scan.pending is Some,
    ensures
        scan.reads_left(world) > 0,
{
}

/// However folders link to each other, only so many are open at a time.
pub proof fn law_open_folders_are_bounded(scan: IndexScan)
    requires
        scan.wf(),
    ensures
        scan.frames@.len() <= MAX_SCAN_DEPTH + 1,
{
    if scan.frames@.len() > 0 {
        let top = scan.frames@[scan.frames@.len() - 1];
        assert(top.wf());
    }
}

pub open spec fn none_excluded(apps: Seq<AppView>, patterns: Seq<regex::Regex>) -> bool {
    forall|i: int| 0 <= i < apps.len() ==> !excluded((#[trigger] apps[i]).title, patterns)
}

proof fn lemma_none_excluded_concat(a: Seq<AppView>, b: Seq<AppView>, patterns: Seq<regex::Regex>)
    requires
        none_excluded(a, patterns),
        none_excluded(b, patterns),
    ensures
        none_excluded(a + b, patterns),
{
    assert forall|i: int| 0 <= i < (a + b).len() implies !excluded(
        (#[trigger] (a + b)[i]).title,
        patterns,
    ) by {
        if i < a.len() {
            assert((a + b)[i] == a[i]);
        } else {
            assert((a + b)[i] == b[i - a.len()]);
        }
    }
}

proof fn lemma_walk_none_excluded(
    world: World,
    patterns: Seq<regex::Regex>,
    job: Job,
    entries: Seq<DirEntryView>,
    depth: nat,
)
    ensures
        none_excluded(walk(world, patterns, job, entries, depth), patterns),
    decreases job.max_depth - depth, entries.len(),
{
    if entries.len() > 0 {
        let first = entries[0];
        lemma_walk_none_excluded(world, patterns, job, entries.drop_first(), depth);
        let rest = walk(world, patterns, job, entries.drop_first(), depth);
        if first.is_dir {
            if depth < job.max_depth {
                match (world.dirs)(first.path) {
                    Some(inner) => {
                        lemma_walk_none_excluded(world, patterns, job, inner, depth + 1);
                        lemma_none_excluded_concat(
                            walk(world, patterns, job, inner, depth + 1),
                            rest,
                            patterns,
                        );
                    },
                    None => {
                        lemma_none_excluded_concat(Seq::empty(), rest, patterns);
                    },
                }
            } else {
                lemma_none_excluded_concat(Seq::empty(), rest, patterns);
            }
        } else {
            lemma_none_excluded_concat(file_apps(job, patterns, first), rest, patterns);
        }
    }
}

proof fn lemma_tasks_none_excluded(
    world: World,
    patterns: Seq<regex::Regex>,
    tasks: Seq<TaskView>,
)
    ensures
        none_excluded(tasks_apps(world, patterns, tasks), patterns),
    decreases tasks.len(),
{
    if tasks.len() > 0 {
        lemma_tasks_none_excluded(world, patterns, tasks.drop_first());
        match (world.dirs)(tasks[0].path) {
            Some(entries) => lemma_walk_none_excluded(
                world,
                patterns,
                tasks[0].job,
                entries,
                0,
            ),
            None => {},
        }
        lemma_none_excluded_concat(
            folder_apps(world, patterns, tasks[0].job, tasks[0].path, 0),
            tasks_apps(world, patterns, tasks.drop_first()),
            patterns,
        );
    }
}

proof fn lemma_uwp_none_excluded(patterns: Seq<regex::Regex>, apps: Seq<UwpView>)
    ensures
        none_excluded(uwp_apps(patterns, apps), patterns),
    decreases apps.len(),
{
    if apps.len() > 0 {
        lemma_uwp_none_excluded(patterns, apps.drop_last());
        let rest = uwp_apps(patterns, apps.drop_last());
        assert forall|i: int| 0 <= i < uwp_apps(patterns, apps).len() implies !excluded(
            (#[trigger] uwp_apps(patterns, apps)[i]).title,
            patterns,
        ) by {
            if i < rest.len() {
                assert(uwp_apps(patterns, apps)[i] == rest[i]);
            }
        }
    }
}

/// No app of the index has a title that an exclude pattern matches.
pub proof fn law_excluded_apps_are_not_indexed(
    world: World,
    config: ScanConfigView,
    start_menu: Seq<Seq<char>>,
    system: Seq<Seq<char>>,
)
    ensures
        none_excluded(
            index_of(world, config, start_menu, system),
            compiled(config.exclude_patterns),
        ),
{
    let patterns = compiled(config.exclude_patterns);
    lemma_tasks_none_excluded(world, patterns, all_tasks(config, start_menu, system));
    lemma_uwp_none_excluded(patterns, packaged_apps(world.uwp));
    lemma_none_excluded_concat(
        tasks_apps(world, patterns, all_tasks(config, start_menu, system)),
        uwp_apps(patterns, packaged_apps(world.uwp)),
        patterns,
    );
}

/// A pattern that does not compile is left out, wherever it stands.
pub proof fn law_invalid_pattern_is_skipped(a: Seq<Seq<char>>, bad: Seq<char>, b: Seq<Seq<char>>)
    requires
        regex_new(bad) is None,
    ensures
        compiled(a.push(bad) + b) == compiled(a + b),
    decreases b.len(),
{
    if b.len() == 0 {
        assert(a.push(bad) + b =~= a.push(bad));
        assert(a.push(bad).drop_last() =~= a);
        assert(a + b =~= a);
    } else {
        law_invalid_pattern_is_skipped(a, bad, b.drop_last());
        assert((a.push(bad) + b).drop_last() =~= a.push(bad) + b.drop_last());
        assert((a + b).drop_last() =~= a + b.drop_last());
    }
}

/// An app from any other source that matches always ranks above every match from
/// the system folder or the search path.
pub proof fn law_system_apps_rank_last(system: AppView, other: AppView, query: Seq<char>)
    requires
        query.len() <= MAX_QUERY_CHARS,
        system.source == AppSource::SystemOrPath,
        other.source != AppSource::SystemOrPath,
        app_finding(system, query) is Some,
        app_finding(other, query) is Some,
    ensures
        app_finding(system, query)->0.score < app_finding(other, query)->0.score,
{
    super::fuzzy::law_score_bounds(query, system.title);
    super::fuzzy::law_score_bounds(query, other.title);
}

/// A query finds exactly the apps of whose titles it is a subsequence, each once and in
/// their order. An app is listed under its title, with its second line; one with a path
/// is launched by the path without arguments, and a packaged one is activated.
pub proof fn law_apps_are_found_by_title(apps: Seq<AppView>, query: Seq<char>)
    ensures
        app_findings(apps, query) == apps.filter(
            |a: AppView| is_subsequence(query, a.title),
        ).map_values(
            |a: AppView|
                ResultView {
                    title: a.title,
                    subtitle: a.subtitle,
                    action: match a.launch {
                        LaunchView::Path(path) => ActionView::Launch { path, args: Seq::empty() },
                        LaunchView::Uwp(aumid) => ActionView::LaunchUwp { aumid },
                    },
                    score: weighted(fuzzy_i32(query, a.title)->0, a.source, query.len()),
                },
        ),
    decreases apps.len(),
{
    reveal(Seq::filter);
    let p = |a: AppView| is_subsequence(query, a.title);
    let f = |a: AppView|
        ResultView {
            title: a.title,
            subtitle: a.subtitle,
            action: match a.launch {
                LaunchView::Path(path) => ActionView::Launch { path, args: Seq::empty() },
                LaunchView::Uwp(aumid) => ActionView::LaunchUwp { aumid },
            },
            score: weighted(fuzzy_i32(query, a.title)->0, a.source, query.len()),
        };
    if apps.len() == 0 {
        assert(apps.filter(p).map_values(f) =~= Seq::<ResultView>::empty());
    } else {
        let last = apps.last();
        law_apps_are_found_by_title(apps.drop_last(), query);
        super::fuzzy::law_score_is_handed_out(query, last.title);
        let before = apps.drop_last().filter(p);
        assert(before.push(last).map_values(f) =~= before.map_values(f).push(f(last)));
    }
}

/// The score of an app is that of its title, whatever its source, except that a thousand
/// is taken from what the system folder and the search path offer, and more for a
/// query of more than 77 characters.
pub proof fn law_app_scores(app: AppView, query: Seq<char>)
    requires
        query.len() <= MAX_QUERY_CHARS,
        app_finding(app, query) is Some,
    ensures
        app.source != AppSource::SystemOrPath ==> app_finding(app, query)->0.score == fuzzy_i32(
            query,
            app.title,
        )->0,
        app.source == AppSource::SystemOrPath && query.len() <= 77 ==> app_finding(
            app,
            query,
        )->0.score == fuzzy_i32(query, app.title)->0 - 1000,
        app.source == AppSource::SystemOrPath && query.len() > 77 ==> app_finding(
            app,
            query,
        )->0.score < fuzzy_i32(query, app.title)->0 - 1000,
{
    super::fuzzy::law_score_bounds(query, app.title);
}

/// A title is excluded exactly where one of the patterns that compile matches it.
pub proof fn law_patterns_exclude_titles(patterns: Seq<Seq<char>>, title: Seq<char>)
    ensures
        excluded(title, compiled(patterns)) <==> exists|i: int|
            0 <= i < patterns.len() && (regex_new(#[trigger] patterns[i]) matches Some(re)
                && regex_is_match(re, title)),
    decreases patterns.len(),
{
    if patterns.len() > 0 {
        let front = patterns.drop_last();
        law_patterns_exclude_titles(front, title);
        let (before, all) = (compiled(front), compiled(patterns));
        assert(patterns[patterns.len() - 1] == patterns.last());
        assert(forall|i: int| 0 <= i < front.len() ==> #[trigger] front[i] == patterns[i]);
        assert(forall|i: int| 0 <= i < before.len() ==> #[trigger] all[i] == before[i]);
        if excluded(title, all) {
            let k = choose|k: int| 0 <= k < all.len() && regex_is_match(#[trigger] all[k], title);
            if k < before.len() {
                assert(regex_is_match(before[k], title));
                let i = choose|i: int|
                    0 <= i < front.len() && (regex_new(#[trigger] front[i]) matches Some(re)
                        && regex_is_match(re, title));
                assert(patterns[i] == front[i]);
            }
        }
        if exists|i: int|
            0 <= i < patterns.len() && (regex_new(#[trigger] patterns[i]) matches Some(re)
                && regex_is_match(re, title)) {
            let i = choose|i: int|
                0 <= i < patterns.len() && (regex_new(#[trigger] patterns[i]) matches Some(re)
                    && regex_is_match(re, title));
            if i < front.len() {
                assert(front[i] == patterns[i]);
                assert(excluded(title, before));
                let k = choose|k: int|
                    0 <= k < before.len() && regex_is_match(#[trigger] before[k], title);
                assert(all[k] == before[k]);
            } else {
                assert(all[before.len() as int] == regex_new(patterns[i])->0);
            }
        }
    }
}

proof fn lemma_last_dot_is(stem: Seq<char>, ext: Seq<char>)
    requires
        !ext.contains('.'),
    ensures
        last_dot(stem + seq!['.'] + ext) == stem.len(),
    decreases ext.len(),
{
    let name = stem + seq!['.'] + ext;
    if ext.len() > 0 {
        let shorter = ext.drop_last();
        assert(name.drop_last() =~= stem + seq!['.'] + shorter);
        assert(ext.contains(ext[ext.len() - 1]));
        assert forall|i: int| 0 <= i < shorter.len() implies shorter[i] != '.' by {
            assert(ext.contains(ext[i]));
        }
        lemma_last_dot_is(stem, shorter);
    }
}

proof fn lemma_no_dot(name: Seq<char>)
    requires
        !name.contains('.'),
    ensures
        last_dot(name) == -1,
    decreases name.len(),
{
    if name.len() > 0 {
        assert(name.contains(name[name.len() - 1]));
        assert forall|i: int| 0 <= i < name.drop_last().len() implies name.drop_last()[i]
            != '.' by {
            assert(name.contains(name[i]));
        }
        lemma_no_dot(name.drop_last());
    }
}

/// A file name is a stem, a dot and an extension without a dot. A name without a dot, or
/// with one at its start alone, is all stem.
pub proof fn law_file_names(stem: Seq<char>, ext: Seq<char>)
    requires
        !ext.contains('.'),
    ensures
        stem.len() > 0 && !(stem == seq!['.'] && ext.len() == 0) ==> {
            &&& stem_of(stem + seq!['.'] + ext) == stem
            &&& extension_of(stem + seq!['.'] + ext) == Some(ext)
        },
        stem_of(ext) == ext,
        extension_of(ext) is None,
        stem_of(seq!['.'] + ext) == seq!['.'] + ext,
        extension_of(seq!['.'] + ext) is None,
{
    let name = stem + seq!['.'] + ext;
    lemma_last_dot_is(stem, ext);
    lemma_no_dot(ext);
    let hidden = seq!['.'] + ext;
    lemma_last_dot_is(Seq::empty(), ext);
    assert(Seq::<char>::empty() + seq!['.'] + ext =~= hidden);
    if stem.len() > 0 {
        assert(name.take(stem.len() as int) =~= stem);
        assert(name.skip(stem.len() as int + 1) =~= ext);
        if name == seq!['.', '.'] {
            assert(name.len() == 2);
            assert(name[0] == '.');
            assert(stem =~= seq!['.']);
        }
    }
}

/// A file is indexed exactly where its extension is the one that is looked for, in either
/// case, and its title is not excluded. Its title is its name without the extension; its
/// path stands below the title and launches it.
pub proof fn law_files_are_indexed(
    job: Job,
    patterns: Seq<regex::Regex>,
    entry: DirEntryView,
    stem: Seq<char>,
    ext: Seq<char>,
)
    requires
        entry.name == Some(stem + seq!['.'] + ext),
        stem.len() > 0,
        !ext.contains('.'),
        ext.len() > 0,
    ensures
        file_apps(job, patterns, entry).len() > 0 <==> lowered(ext) == (if job.kind
            == FileKind::Shortcut {
            "lnk"@
        } else {
            "exe"@
        }) && !excluded(stem, patterns),
        file_apps(job, patterns, entry).len() > 0 ==> file_apps(job, patterns, entry) == seq![
            AppView {
                title: stem,
                subtitle: entry.path,
                launch: LaunchView::Path(entry.path),
                source: job.source,
            },
        ],
{
    law_file_names(stem, ext);
    reveal_strlit("lnk");
    reveal_strlit("exe");
    let f = |c: char| lower(c);
    assert("lnk"@.map_values(f) =~= "lnk"@);
    assert("exe"@.map_values(f) =~= "exe"@);
    assert(ext.map_values(f) =~= lowered(ext));
}

/// What a walk finds, one folder at a time: the apps of the folder's own files, and, as
/// long as it is not too deep, what a walk of each subfolder finds. Nothing else.
pub proof fn law_walk_finds(
    world: World,
    patterns: Seq<regex::Regex>,
    job: Job,
    entries: Seq<DirEntryView>,
    depth: nat,
    app: AppView,
)
    ensures
        walk(world, patterns, job, entries, depth).contains(app) <==> exists|i: int|
            0 <= i < entries.len() && comes_from(
                world,
                patterns,
                job,
                #[trigger] entries[i],
                depth,
                app,
            ),
    decreases entries.len(),
{
    if entries.len() > 0 {
        let (first, rest) = (entries[0], entries.drop_first());
        law_walk_finds(world, patterns, job, rest, depth, app);
        let tail = walk(world, patterns, job, rest, depth);
        let head = if first.is_dir {
            if depth < job.max_depth {
                match (world.dirs)(first.path) {
                    Some(inner) => walk(world, patterns, job, inner, depth + 1),
                    None => Seq::empty(),
                }
            } else {
                Seq::empty()
            }
        } else {
            file_apps(job, patterns, first)
        };
        let all = walk(world, patterns, job, entries, depth);
        assert(all == head + tail);
        assert(forall|i: int| 0 <= i < rest.len() ==> #[trigger] rest[i] == entries[i + 1]);
        assert(head.contains(app) <==> comes_from(world, patterns, job, first, depth, app));
        if all.contains(app) {
            let k = choose|k: int| 0 <= k < all.len() && all[k] == app;
            if k < head.len() {
                assert(head[k] == app);
            } else {
                assert(tail[k - head.len()] == app);
                let i = choose|i: int|
                    0 <= i < rest.len() && comes_from(
                        world,
                        patterns,
                        job,
                        #[trigger] rest[i],
                        depth,
                        app,
                    );
                assert(entries[i + 1] == rest[i]);
            }
        }
        if exists|i: int|
            0 <= i < entries.len() && comes_from(
                world,
                patterns,
                job,
                #[trigger] entries[i],
                depth,
                app,
            ) {
            let i = choose|i: int|
                0 <= i < entries.len() && comes_from(
                    world,
                    patterns,
                    job,
                    #[trigger] entries[i],
                    depth,
                    app,
                );
            if i == 0 {
                let k = choose|k: int| 0 <= k < head.len() && head[k] == app;
                assert(all[k] == app);
            } else {
                assert(rest[i - 1] == entries[i]);
                assert(tail.contains(app));
                let k = choose|k: int| 0 <= k < tail.len() && tail[k] == app;
                assert(all[head.len() + k] == app);
            }
        }
    }
}

/// An app is the one of a file, or one of those in a subfolder that is walked.
pub open spec fn comes_from(
    world: World,
    patterns: Seq<regex::Regex>,
    job: Job,
    entry: DirEntryView,
    depth: nat,
    app: AppView,
) -> bool {
    if entry.is_dir {
        depth < job.max_depth && ((world.dirs)(entry.path) matches Some(inner) && walk(
            world,
            patterns,
            job,
            inner,
            depth + 1,
        ).contains(app))
    } else {
        file_apps(job, patterns, entry).contains(app)
    }
}

proof fn lemma_tasks_find(
    world: World,
    patterns: Seq<regex::Regex>,
    tasks: Seq<TaskView>,
    app: AppView,
)
    ensures
        tasks_apps(world, patterns, tasks).contains(app) <==> exists|i: int|
            0 <= i < tasks.len() && folder_apps(
                world,
                patterns,
                (#[trigger] tasks[i]).job,
                tasks[i].path,
                0,
            ).contains(app),
    decreases tasks.len(),
{
    if tasks.len() > 0 {
        let rest = tasks.drop_first();
        lemma_tasks_find(world, patterns, rest, app);
        let head = folder_apps(world, patterns, tasks[0].job, tasks[0].path, 0);
        let tail = tasks_apps(world, patterns, rest);
        let all = tasks_apps(world, patterns, tasks);
        assert(forall|i: int| 0 <= i < rest.len() ==> #[trigger] rest[i] == tasks[i + 1]);
        if all.contains(app) {
            let k = choose|k: int| 0 <= k < all.len() && all[k] == app;
            if k < head.len() {
                assert(head[k] == app);
            } else {
                assert(tail[k - head.len()] == app);
                let i = choose|i: int|
                    0 <= i < rest.len() && folder_apps(
                        world,
                        patterns,
                        (#[trigger] rest[i]).job,
                        rest[i].path,
                        0,
                    ).contains(app);
                assert(tasks[i + 1] == rest[i]);
            }
        }
        if exists|i: int|
            0 <= i < tasks.len() && folder_apps(
                world,
                patterns,
                (#[trigger] tasks[i]).job,
                tasks[i].path,
                0,
            ).contains(app) {
            let i = choose|i: int|
                0 <= i < tasks.len() && folder_apps(
                    world,
                    patterns,
                    (#[trigger] tasks[i]).job,
                    tasks[i].path,
                    0,
                ).contains(app);
            if i == 0 {
                let k = choose|k: int| 0 <= k < head.len() && head[k] == app;
                assert(all[k] == app);
            } else {
                assert(rest[i - 1] == tasks[i]);
                let k = choose|k: int| 0 <= k < tail.len() && tail[k] == app;
                assert(all[head.len() + k] == app);
            }
        }
    }
}

proof fn lemma_custom_tasks(paths: Seq<Seq<char>>)
    ensures
        custom_tasks(paths).len() == 2 * paths.len(),
        forall|i: int|
            0 <= i < paths.len() ==> custom_tasks(paths)[2 * i] == (TaskView {
                path: #[trigger] paths[i],
                job: custom_job(FileKind::Shortcut),
            }) && custom_tasks(paths)[2 * i + 1] == (TaskView {
                path: paths[i],
                job: custom_job(FileKind::Executable),
            }),
    decreases paths.len(),
{
    if paths.len() > 0 {
        let front = paths.drop_last();
        lemma_custom_tasks(front);
        let all = custom_tasks(paths);
        assert forall|i: int| 0 <= i < paths.len() implies all[2 * i] == (TaskView {
            path: #[trigger] paths[i],
            job: custom_job(FileKind::Shortcut),
        }) && all[2 * i + 1] == (TaskView {
            path: paths[i],
            job: custom_job(FileKind::Executable),
        }) by {
            if i < front.len() {
                assert(front[i] == paths[i]);
                assert(all[2 * i] == custom_tasks(front)[2 * i]);
                assert(all[2 * i + 1] == custom_tasks(front)[2 * i + 1]);
            }
        }
    }
}

/// The packaged apps of the index: those whose titles are not excluded, in their order,
/// each activated by its identifier.
pub proof fn law_packaged_apps_are_indexed(patterns: Seq<regex::Regex>, apps: Seq<UwpView>)
    ensures
        uwp_apps(patterns, apps) == apps.filter(
            |a: UwpView| !excluded(a.title, patterns),
        ).map_values(
            |a: UwpView|
                AppView {
                    title: a.title,
                    subtitle: "UWP"@,
                    launch: LaunchView::Uwp(a.aumid),
                    source: AppSource::Uwp,
                },
        ),
    decreases apps.len(),
{
    reveal(Seq::filter);
    let p = |a: UwpView| !excluded(a.title, patterns);
    let f = |a: UwpView|
        AppView {
            title: a.title,
            subtitle: "UWP"@,
            launch: LaunchView::Uwp(a.aumid),
            source: AppSource::Uwp,
        };
    if apps.len() == 0 {
        assert(apps.filter(p).map_values(f) =~= Seq::<AppView>::empty());
    } else {
        law_packaged_apps_are_indexed(patterns, apps.drop_last());
        let before = apps.drop_last().filter(p);
        assert(before.push(apps.last()).map_values(f) =~= before.map_values(f).push(
            f(apps.last()),
        ));
    }
}

/// The apps of a folder, looked for in this way.
pub open spec fn in_folder(
    world: World,
    patterns: Seq<regex::Regex>,
    path: Seq<char>,
    kind: FileKind,
    max_depth: u32,
    source: AppSource,
    app: AppView,
) -> bool {
    (world.dirs)(path) matches Some(entries) && walk(
        world,
        patterns,
        Job { kind, max_depth, source },
        entries,
        0,
    ).contains(app)
}

/// What the index holds: the shortcuts of the start menu, down to eight subfolders; the
/// executables of the system folder and the search path, without subfolders; the
/// shortcuts and the executables of the user's folders, down to eight subfolders; and the
/// packaged apps. Nothing else, and nothing whose title a pattern excludes.
pub proof fn law_index_holds(
    world: World,
    config: ScanConfigView,
    start_menu: Seq<Seq<char>>,
    system: Seq<Seq<char>>,
    app: AppView,
)
    ensures
        ({
            let patterns = compiled(config.exclude_patterns);
            let extra = config.extra_folders;
            index_of(world, config, start_menu, system).contains(app) <==> {
                ||| exists|i: int|
                    0 <= i < start_menu.len() && in_folder(
                        world,
                        patterns,
                        #[trigger] start_menu[i],
                        FileKind::Shortcut,
                        8,
                        AppSource::StartMenu,
                        app,
                    )
                ||| exists|i: int|
                    0 <= i < system.len() && in_folder(
                        world,
                        patterns,
                        #[trigger] system[i],
                        FileKind::Executable,
                        0,
                        AppSource::SystemOrPath,
                        app,
                    )
                ||| exists|i: int|
                    0 <= i < extra.len() && (in_folder(
                        world,
                        patterns,
                        #[trigger] extra[i],
                        FileKind::Shortcut,
                        8,
                        AppSource::CustomFolder,
                        app,
                    ) || in_folder(
                        world,
                        patterns,
                        extra[i],
                        FileKind::Executable,
                        8,
                        AppSource::CustomFolder,
                        app,
                    ))
                ||| uwp_apps(patterns, packaged_apps(world.uwp)).contains(app)
            }
        }),
{
    let patterns = compiled(config.exclude_patterns);
    let extra = config.extra_folders;
    let (a, b, c) = (
        tasks_for(start_menu, start_menu_job()),
        tasks_for(system, system_job()),
        custom_tasks(extra),
    );
    let tasks = all_tasks(config, start_menu, system);
    let (folders, packaged) = (
        tasks_apps(world, patterns, tasks),
        uwp_apps(patterns, packaged_apps(world.uwp)),
    );
    let index = index_of(world, config, start_menu, system);
    lemma_tasks_find(world, patterns, tasks, app);
    lemma_custom_tasks(extra);
    let (n, m) = (start_menu.len() as int, system.len() as int);
    assert(forall|i: int|
        0 <= i < n ==> tasks[i] == (TaskView {
            path: #[trigger] start_menu[i],
            job: start_menu_job(),
        }));
    assert(forall|i: int|
        0 <= i < m ==> tasks[n + i] == (TaskView {
            path: #[trigger] system[i],
            job: system_job(),
        }));
    assert forall|i: int| 0 <= i < extra.len() implies tasks[n + m + 2 * i] == (TaskView {
        path: #[trigger] extra[i],
        job: custom_job(FileKind::Shortcut),
    }) && tasks[n + m + 2 * i + 1] == (TaskView {
        path: extra[i],
        job: custom_job(FileKind::Executable),
    }) by {
        assert(tasks[n + m + 2 * i] == c[2 * i]);
        assert(tasks[n + m + 2 * i + 1] == c[2 * i + 1]);
    }
    if index.contains(app) {
        let k = choose|k: int| 0 <= k < index.len() && index[k] == app;
        if k < folders.len() {
            assert(folders[k] == app);
            assert(folders.contains(app));
            let i = choose|i: int|
                0 <= i < tasks.len() && folder_apps(
                    world,
                    patterns,
                    (#[trigger] tasks[i]).job,
                    tasks[i].path,
                    0,
                ).contains(app);
            if i < n {
                assert(tasks[i].path == start_menu[i]);
            } else if i < n + m {
                assert(tasks[i].path == system[i - n]);
            } else {
                let j = (i - n - m) / 2;
                assert(extra[j] == extra[j]);
                assert(i == n + m + 2 * j || i == n + m + 2 * j + 1);
                assert(tasks[i].path == extra[j]);
            }
        } else {
            assert(packaged[k - folders.len()] == app);
        }
    }
    if packaged.contains(app) {
        let k = choose|k: int| 0 <= k < packaged.len() && packaged[k] == app;
        assert(index[folders.len() + k] == app);
    }
    if folders.contains(app) {
        let k = choose|k: int| 0 <= k < folders.len() && folders[k] == app;
        assert(index[k] == app);
    }
    assert forall|i: int|
        0 <= i < n && in_folder(
            world,
            patterns,
            #[trigger] start_menu[i],
            FileKind::Shortcut,
            8,
            AppSource::StartMenu,
            app,
        ) implies folders.contains(app) by {
        assert(folder_apps(world, patterns, tasks[i].job, tasks[i].path, 0).contains(app));
    }
    assert forall|i: int|
        0 <= i < m && in_folder(
            world,
            patterns,
            #[trigger] system[i],
            FileKind::Executable,
            0,
            AppSource::SystemOrPath,
            app,
        ) implies folders.contains(app) by {
        assert(folder_apps(world, patterns, tasks[n + i].job, tasks[n + i].path, 0).contains(app));
    }
    assert forall|i: int| 0 <= i < extra.len() && (in_folder(
        world,
        patterns,
        #[trigger] extra[i],
        FileKind::Shortcut,
        8,
        AppSource::CustomFolder,
        app,
    ) || in_folder(
        world,
        patterns,
        extra[i],
        FileKind::Executable,
        8,
        AppSource::CustomFolder,
        app,
    )) implies folders.contains(app) by {
        let (j, k) = (n + m + 2 * i, n + m + 2 * i + 1);
        assert(tasks[j].path == extra[i] && tasks[k].path == extra[i]);
        assert(folder_apps(world, patterns, tasks[j].job, tasks[j].path, 0).contains(app)
            || folder_apps(world, patterns, tasks[k].job, tasks[k].path, 0).contains(app));
    }
}

/// A scan takes the folders and the patterns from the settings.
pub proof fn law_scan_follows_the_settings(config: ConfigView)
    ensures
        scan_config_of(config).extra_folders == config.index_folders,
        scan_config_of(config).exclude_patterns == config.exclude_patterns,
{
}

/// A walk goes through the entries in their order, and takes each of them once: a file for
/// its app, and a subfolder, as long as it is not too deep and can be read, for what is in
/// it.
pub proof fn law_walk_goes_in_order(
    world: World,
    patterns: Seq<regex::Regex>,
    job: Job,
    a: Seq<DirEntryView>,
    b: Seq<DirEntryView>,
    one: DirEntryView,
    depth: nat,
)
    ensures
        walk(world, patterns, job, a + b, depth) == walk(world, patterns, job, a, depth) + walk(
            world,
            patterns,
            job,
            b,
            depth,
        ),
        walk(world, patterns, job, Seq::empty(), depth) == Seq::<AppView>::empty(),
        !one.is_dir ==> walk(world, patterns, job, seq![one], depth) == file_apps(
            job,
            patterns,
            one,
        ),
        one.is_dir ==> walk(world, patterns, job, seq![one], depth) == match (world.dirs)(
            one.path,
        ) {
            Some(inner) => if depth < job.max_depth {
                walk(world, patterns, job, inner, depth + 1)
            } else {
                Seq::empty()
            },
            None => Seq::empty(),
        },
    decreases a.len(),
{
    assert(seq![one].drop_first() =~= Seq::<DirEntryView>::empty());
    assert(walk(world, patterns, job, seq![one].drop_first(), depth) =~= Seq::<AppView>::empty());
    let none = Seq::<AppView>::empty();
    let head = if one.is_dir {
        if depth < job.max_depth {
            match (world.dirs)(one.path) {
                Some(inner) => walk(world, patterns, job, inner, depth + 1),
                None => none,
            }
        } else {
            none
        }
    } else {
        file_apps(job, patterns, one)
    };
    assert(walk(world, patterns, job, seq![one], depth) =~= head);
    let (x, y) = (
        walk(world, patterns, job, a, depth),
        walk(world, patterns, job, b, depth),
    );
    if a.len() == 0 {
        assert(a + b =~= b);
        assert(x + y =~= y);
    } else {
        law_walk_goes_in_order(world, patterns, job, a.drop_first(), b, one, depth);
        assert((a + b).drop_first() =~= a.drop_first() + b);
        assert((a + b)[0] == a[0]);
        assert(walk(world, patterns, job, a + b, depth) =~= x + y);
    }
}

proof fn lemma_tasks_concat(
    world: World,
    patterns: Seq<regex::Regex>,
    a: Seq<TaskView>,
    b: Seq<TaskView>,
)
    ensures
        tasks_apps(world, patterns, a + b) == tasks_apps(world, patterns, a) + tasks_apps(
            world,
            patterns,
            b,
        ),
    decreases a.len(),
{
    let (x, y) = (tasks_apps(world, patterns, a), tasks_apps(world, patterns, b));
    if a.len() == 0 {
        assert(a + b =~= b);
        assert(x + y =~= y);
    } else {
        lemma_tasks_concat(world, patterns, a.drop_first(), b);
        assert((a + b).drop_first() =~= a.drop_first() + b);
        assert((a + b)[0] == a[0]);
        assert(tasks_apps(world, patterns, a + b) =~= x + y);
    }
}

/// The index is in this order: the start menu, the system folder and the search path, the
/// user's folders, each for its shortcuts first and then for its executables, and the
/// packaged apps. Folder follows folder, and one that cannot be read is left out.
pub proof fn law_index_is_in_order(
    world: World,
    config: ScanConfigView,
    start_menu: Seq<Seq<char>>,
    system: Seq<Seq<char>>,
    more: Seq<TaskView>,
    one: TaskView,
    i: int,
)
    ensures
        ({
            let patterns = compiled(config.exclude_patterns);
            let extra = config.extra_folders;
            let menu = start_menu.map_values(
                |path: Seq<char>|
                    TaskView {
                        path,
                        job: Job {
                            kind: FileKind::Shortcut,
                            max_depth: 8,
                            source: AppSource::StartMenu,
                        },
                    },
            );
            let folders = system.map_values(
                |path: Seq<char>|
                    TaskView {
                        path,
                        job: Job {
                            kind: FileKind::Executable,
                            max_depth: 0,
                            source: AppSource::SystemOrPath,
                        },
                    },
            );
            let user = custom_tasks(extra);
            &&& index_of(world, config, start_menu, system) == tasks_apps(world, patterns, menu)
                + tasks_apps(world, patterns, folders) + tasks_apps(world, patterns, user)
                + uwp_apps(patterns, packaged_apps(world.uwp))
            &&& tasks_apps(world, patterns, seq![one] + more) == (match (world.dirs)(one.path) {
                Some(entries) => walk(world, patterns, one.job, entries, 0),
                None => Seq::empty(),
            }) + tasks_apps(world, patterns, more)
            &&& tasks_apps(world, patterns, Seq::empty()) == Seq::<AppView>::empty()
            &&& user.len() == 2 * extra.len()
            &&& 0 <= i < extra.len() ==> user[2 * i].path == extra[i] && user[2 * i + 1].path
                == extra[i] && user[2 * i].job == (Job {
                kind: FileKind::Shortcut,
                max_depth: 8,
                source: AppSource::CustomFolder,
            }) && user[2 * i + 1].job == (Job {
                kind: FileKind::Executable,
                max_depth: 8,
                source: AppSource::CustomFolder,
            })
        }),
{
    let patterns = compiled(config.exclude_patterns);
    let (a, b) = (tasks_for(start_menu, start_menu_job()), tasks_for(system, system_job()));
    let c = custom_tasks(config.extra_folders);
    let menu = start_menu.map_values(
        |path: Seq<char>|
            TaskView {
                path,
                job: Job {
                    kind: FileKind::Shortcut,
                    max_depth: 8,
                    source: AppSource::StartMenu,
                },
            },
    );
    let folders = system.map_values(
        |path: Seq<char>|
            TaskView {
                path,
                job: Job {
                    kind: FileKind::Executable,
                    max_depth: 0,
                    source: AppSource::SystemOrPath,
                },
            },
    );
    assert(a =~= menu && b =~= folders);
    lemma_tasks_concat(world, patterns, a + b, c);
    lemma_tasks_concat(world, patterns, a, b);
    lemma_custom_tasks(config.extra_folders);
    assert((seq![one] + more).drop_first() =~= more);
    if 0 <= i < config.extra_folders.len() {
        assert(c[2 * i].path == config.extra_folders[i]);
    }
}

/// A folder is read from the first listing of its path, and cannot be read where there is
/// none.
pub proof fn law_folders_are_read_from_their_listing(
    folders: Seq<Listing>,
    uwp: Seq<UwpView>,
    path: Seq<char>,
    i: int,
)
    ensures
        0 <= i < folders.len() && folders[i].path@ == path && (forall|j: int|
            0 <= j < i ==> (#[trigger] folders[j]).path@ != path) ==> (world_of(
            folders,
            uwp,
        ).dirs)(path) == Some(dir_views(folders[i].entries@)),
        (forall|j: int| 0 <= j < folders.len() ==> (#[trigger] folders[j]).path@ != path) ==> (
        world_of(folders, uwp).dirs)(path) is None,
        world_of(folders, uwp).uwp == uwp,
    decreases folders.len(),
{
    if folders.len() > 0 {
        let rest = folders.drop_first();
        assert(forall|j: int| 0 <= j < rest.len() ==> #[trigger] rest[j] == folders[j + 1]);
        law_folders_are_read_from_their_listing(rest, uwp, path, i - 1);
        if folders[0].path@ != path {
            assert((world_of(folders, uwp).dirs)(path) == (world_of(rest, uwp).dirs)(path));
        }
    }
}

/// A file without an extension, or whose name cannot be read, is not indexed.
pub proof fn law_other_files_are_not_indexed(
    job: Job,
    patterns: Seq<regex::Regex>,
    entry: DirEntryView,
)
    requires
        entry.name matches Some(name) ==> extension_of(name) is None,
    ensures
        file_apps(job, patterns, entry).len() == 0,
{
}

} // verus!
