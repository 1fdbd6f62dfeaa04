//! Instructions that a project leaves for the agent in its directories.
use vstd::prelude::*;
use crate::text::{
    byte_len, chars_of, cut_to_bytes, owned, str_len, trim, trimmed, within_bytes,
};

verus! {

pub const PROJECT_INSTRUCTIONS_MAX_BYTES: usize = 32768;

/// What was found in a directory: whether it is the root of a repository, and
/// which instruction files it has.
#[derive(Debug)]
pub struct DirectoryFacts {
    pub path: String,
    pub has_git: bool,
    pub has_override: bool,
    pub has_agents: bool,
}

/// The text of an instruction file.
#[derive(Debug)]
pub struct InstructionFile {
    pub directory: String,
    pub source_path: String,
    pub text: String,
}

#[derive(Debug)]
pub struct ProjectInstructionEntry {
    pub source_path: String,
    pub directory: String,
    pub text: String,
}

#[derive(Debug)]
pub struct ProjectInstructions {
    pub entries: Vec<ProjectInstructionEntry>,
}

#[verifier::ext_equal]
pub struct InstructionView {
    pub source_path: Seq<char>,
    pub directory: Seq<char>,
    pub text: Seq<char>,
}

impl View for ProjectInstructionEntry {
    type V = InstructionView;

    open spec fn view(&self) -> InstructionView {
        InstructionView {
            source_path: self.source_path@,
            directory: self.directory@,
            text: self.text@,
        }
    }
}

pub open spec fn instruction_views(entries: Seq<ProjectInstructionEntry>) -> Seq<InstructionView> {
    entries.map_values(|e: ProjectInstructionEntry| e@)
}

pub open spec fn opt_instructions(r: Option<ProjectInstructions>) -> Option<Seq<InstructionView>> {
    match r {
        Some(instructions) => Some(instruction_views(instructions.entries@)),
        None => None,
    }
}

// ---------------------------------------------------------------------------
// Where to look
// ---------------------------------------------------------------------------

/// The first of the directories, from `i` on, that is the root of a repository.
pub open spec fn git_root_from(dirs: Seq<DirectoryFacts>, i: nat) -> Option<nat>
    decreases dirs.len() - i,
{
    if i >= dirs.len() {
        None
    } else if dirs[i as int].has_git {
        Some(i)
    } else {
        git_root_from(dirs, i + 1)
    }
}

/// The nearest repository root among a directory and its ancestors, which are
/// given from the directory upwards.
pub fn nearest_git_root(dirs: &Vec<DirectoryFacts>) -> (r: Option<usize>)
    ensures
        match r {
            Some(i) => git_root_from(dirs@, 0) == Some(i as nat) && i < dirs.len(),
            None => git_root_from(dirs@, 0) is None,
        },
{
    let mut i: usize = 0;
    while i < dirs.len()
        invariant
            i <= dirs@.len(),
            git_root_from(dirs@, 0) == git_root_from(dirs@, i as nat),
        decreases dirs@.len() - i,
    {
        if dirs[i].has_git {
            return Some(i);
        }
        i += 1;
    }
    None
}

/// `n` numbers that count down to 0.
pub open spec fn countdown(n: nat) -> Seq<usize> {
    Seq::new(n, |i: int| (n - 1 - i) as usize)
}

/// The directories to search, outermost first: from the repository root down,
/// or the start alone outside of a repository.
pub open spec fn search_dirs(dirs: Seq<DirectoryFacts>) -> Seq<usize> {
    match git_root_from(dirs, 0) {
        Some(root) => countdown(root + 1),
        None => countdown(1),
    }
}

/// The directories to search, by their place in `dirs`, which holds the start
/// directory and its ancestors upwards.
pub fn instruction_search_dirs(dirs: &Vec<DirectoryFacts>) -> (r: Vec<usize>)
    ensures
        r@ == search_dirs(dirs@),
{
    let mut left: usize = match nearest_git_root(dirs) {
        Some(root) => root + 1,
        None => 1,
    };
    let ghost total = left as nat;
    let mut out: Vec<usize> = Vec::new();
    assert(out@ =~= countdown(total).take(0));
    while left > 0
        invariant
            left <= total,
            total <= usize::MAX,
            out@ == countdown(total).take(total - left),
        decreases left,
    {
        left = left - 1;
        out.push(left);
        assert(countdown(total).take(total - left) =~= countdown(total).take(
            total - left - 1,
        ).push(left));
    }
    assert(countdown(total).take(total as int) =~= countdown(total));
    out
}

/// A file name under a directory.
pub open spec fn joined_path(dir: Seq<char>, name: Seq<char>) -> Seq<char> {
    if dir.len() == 0 || dir.last() == '/' {
        dir + name
    } else {
        dir + "/"@ + name
    }
}

fn join_path(dir: &str, name: &str) -> (r: String)
    ensures
        r@ == joined_path(dir@, name@),
{
    let chars: Vec<char> = chars_of(dir);
    let mut out: String = owned(dir);
    if chars.len() > 0 && chars[chars.len() - 1] != '/' {
        out.push_str("/");
    }
    out.push_str(name);
    out
}

/// The instruction file of a directory; an override goes before the plain one.
pub open spec fn instruction_file(dir: DirectoryFacts) -> Option<Seq<char>> {
    if dir.has_override {
        Some(joined_path(dir.path@, "AGENTS.override.md"@))
    } else if dir.has_agents {
        Some(joined_path(dir.path@, "AGENTS.md"@))
    } else {
        None
    }
}

/// The instruction file of a directory.
pub fn instruction_file_for_dir(dir: &DirectoryFacts) -> (r: Option<String>)
    ensures
        crate::protocol::opt_text(r) == instruction_file(*dir),
{
    if dir.has_override {
        Some(join_path(dir.path.as_str(), "AGENTS.override.md"))
    } else if dir.has_agents {
        Some(join_path(dir.path.as_str(), "AGENTS.md"))
    } else {
        None
    }
}

/// A file to read: its directory and its path.
#[derive(Debug)]
pub struct InstructionPath {
    pub directory: String,
    pub source_path: String,
}

/// The files to read among the first `n` directories of the search.
pub open spec fn paths_to_read(dirs: Seq<DirectoryFacts>, order: Seq<usize>, n: nat) -> Seq<
    (Seq<char>, Seq<char>),
>
    decreases n,
{
    if n == 0 {
        Seq::empty()
    } else {
        let before = paths_to_read(dirs, order, (n - 1) as nat);
        let i = order[n - 1] as int;
        if i < dirs.len() {
            match instruction_file(dirs[i]) {
                Some(path) => before.push((dirs[i].path@, path)),
                None => before,
            }
        } else {
            before
        }
    }
}

pub open spec fn path_views(paths: Seq<InstructionPath>) -> Seq<(Seq<char>, Seq<char>)> {
    paths.map_values(|p: InstructionPath| (p.directory@, p.source_path@))
}

/// The instruction files to read for a directory, outermost first; `dirs`
/// holds the directory and its ancestors upwards.
pub fn instruction_paths(dirs: &Vec<DirectoryFacts>) -> (r: Vec<InstructionPath>)
    ensures
        path_views(r@) == paths_to_read(dirs@, search_dirs(dirs@), search_dirs(dirs@).len()),
{
    let order: Vec<usize> = instruction_search_dirs(dirs);
    let mut out: Vec<InstructionPath> = Vec::new();
    let mut i: usize = 0;
    assert(path_views(out@) =~= Seq::empty());
    while i < order.len()
        invariant
            i <= order@.len(),
            path_views(out@) == paths_to_read(dirs@, order@, i as nat),
        decreases order@.len() - i,
    {
        let at: usize = order[i];
        if at < dirs.len() {
            match instruction_file_for_dir(&dirs[at]) {
                Some(source_path) => {
                    let ghost before = path_views(out@);
                    let ghost added = (dirs@[at as int].path@, source_path@);
                    out.push(InstructionPath { directory: dirs[at].path.clone(), source_path });
                    assert(path_views(out@) =~= before.push(added));
                },
                None => {},
            }
        }
        i += 1;
    }
    out
}

// ---------------------------------------------------------------------------
// What to keep
// ---------------------------------------------------------------------------

/// Cuts `text` to at most `limit` bytes; the flag says whether anything was
/// dropped.
pub fn truncate_to_byte_limit(text: &str, limit: usize) -> (r: (String, bool))
    ensures
        r.0@ == within_bytes(text@, limit as nat),
        r.1 == (byte_len(text@) > limit),
{
    cut_to_bytes(text, limit)
}

/// The entries that were kept, and the bytes that they take.
#[verifier::ext_equal]
pub struct Kept {
    pub entries: Seq<InstructionView>,
    pub bytes: nat,
}

impl Kept {
    /// What is kept once a file was read: nothing of a blank file, and no more
    /// than what the limit leaves.
    pub open spec fn reading(self, file: InstructionFile) -> Kept {
        let limit = PROJECT_INSTRUCTIONS_MAX_BYTES as nat;
        if self.bytes >= limit || trimmed(file.text@).len() == 0 {
            self
        } else {
            let text = within_bytes(file.text@, (limit - self.bytes) as nat);
            if text.len() == 0 {
                self
            } else {
                Kept {
                    entries: self.entries.push(
                        InstructionView {
                            source_path: file.source_path@,
                            directory: file.directory@,
                            text,
                        },
                    ),
                    bytes: self.bytes + byte_len(text),
                }
            }
        }
    }
}

pub open spec fn kept_of(files: Seq<InstructionFile>, n: nat) -> Kept
    decreases n,
{
    if n == 0 {
        Kept { entries: Seq::empty(), bytes: 0 }
    } else {
        kept_of(files, (n - 1) as nat).reading(files[n - 1])
    }
}

/// The instructions of the files that were read, outermost first.
pub fn load_project_instructions_from(files: &Vec<InstructionFile>) -> (r: Option<
    ProjectInstructions,
>)
    ensures
        opt_instructions(r) == {
            let kept = kept_of(files@, files@.len()).entries;
            if kept.len() == 0 {
                None::<Seq<InstructionView>>
            } else {
                Some(kept)
            }
        },
{
    let mut entries: Vec<ProjectInstructionEntry> = Vec::new();
    let mut total_bytes: usize = 0;
    let mut i: usize = 0;
    assert(instruction_views(entries@) =~= Seq::empty());
    while i < files.len()
        invariant
            i <= files@.len(),
            (Kept { entries: instruction_views(entries@), bytes: total_bytes as nat }) == kept_of(
                files@,
                i as nat,
            ),
            total_bytes <= PROJECT_INSTRUCTIONS_MAX_BYTES,
        decreases files@.len() - i,
    {
        let file: &InstructionFile = &files[i];
        let blank: String = trim(file.text.as_str());
        if total_bytes < PROJECT_INSTRUCTIONS_MAX_BYTES && !blank.as_str().is_empty() {
            let remaining: usize = PROJECT_INSTRUCTIONS_MAX_BYTES - total_bytes;
            let (text, _truncated): (String, bool) = truncate_to_byte_limit(
                file.text.as_str(),
                remaining,
            );
            if !text.as_str().is_empty() {
                let n: usize = str_len(text.as_str());
                proof {
                    crate::text::cutting_keeps_a_prefix(file.text@, remaining as nat);
                }
                let ghost before = instruction_views(entries@);
                let ghost added = InstructionView {
                    source_path: file.source_path@,
                    directory: file.directory@,
                    text: text@,
                };
                total_bytes = total_bytes + n;
                entries.push(
                    ProjectInstructionEntry {
                        source_path: file.source_path.clone(),
                        directory: file.directory.clone(),
                        text,
                    },
                );
                assert(instruction_views(entries@) =~= before.push(added));
            }
        }
        i += 1;
    }
    assert(instruction_views(entries@).len() == entries@.len());
    if entries.len() == 0 {
        None
    } else {
        Some(ProjectInstructions { entries })
    }
}

// ---------------------------------------------------------------------------
// Laws
// ---------------------------------------------------------------------------

/// The bytes of all entries.
pub open spec fn total_bytes(entries: Seq<InstructionView>) -> nat
    decreases entries.len(),
{
    if entries.len() == 0 {
        0
    } else {
        total_bytes(entries.drop_last()) + byte_len(entries.last().text)
    }
}

/// All instructions together stay under the limit, and none is empty.
pub proof fn instructions_stay_under_cap(files: Seq<InstructionFile>, n: nat)
    requires
        n <= files.len(),
    ensures
        kept_of(files, n).bytes == total_bytes(kept_of(files, n).entries),
        kept_of(files, n).bytes <= PROJECT_INSTRUCTIONS_MAX_BYTES,
        forall|i: int|
            0 <= i < kept_of(files, n).entries.len() ==> (#[trigger] kept_of(
                files,
                n,
            ).entries[i]).text.len() > 0,
    decreases n,
{
    if n > 0 {
        let before = kept_of(files, (n - 1) as nat);
        let file = files[n - 1];
        instructions_stay_under_cap(files, (n - 1) as nat);
        let after = before.reading(file);
        if after != before {
            let remaining = (PROJECT_INSTRUCTIONS_MAX_BYTES - before.bytes) as nat;
            crate::text::cutting_keeps_a_prefix(file.text@, remaining);
            assert(after.entries.drop_last() =~= before.entries);
        }
    }
}

/// The search starts at the repository root and ends at the start directory.
pub proof fn search_ends_at_start(dirs: Seq<DirectoryFacts>)
    requires
        dirs.len() <= usize::MAX,
    ensures
        search_dirs(dirs).len() > 0,
        search_dirs(dirs).last() == 0,
        git_root_from(dirs, 0) matches Some(root) ==> root < dirs.len() && search_dirs(dirs)[0]
            == root && dirs[root as int].has_git,
{
    lemma_git_root(dirs, 0);
}

proof fn lemma_git_root(dirs: Seq<DirectoryFacts>, i: nat)
    ensures
        git_root_from(dirs, i) matches Some(root) ==> i <= root < dirs.len()
            && dirs[root as int].has_git,
    decreases dirs.len() - i,
{
    if i < dirs.len() && !dirs[i as int].has_git {
        lemma_git_root(dirs, i + 1);
    }
}

/// The repository starts at the nearest directory, from the start upwards, that
/// holds one.
pub proof fn the_nearest_repository_counts(dirs: Seq<DirectoryFacts>, i: nat)
    ensures
        match git_root_from(dirs, i) {
            Some(root) => i <= root < dirs.len() && dirs[root as int].has_git && forall|j: int|
                i <= j < root ==> !(#[trigger] dirs[j]).has_git,
            None => forall|j: int| i <= j < dirs.len() ==> !(#[trigger] dirs[j]).has_git,
        },
    decreases dirs.len() - i,
{
    if i < dirs.len() && !dirs[i as int].has_git {
        the_nearest_repository_counts(dirs, i + 1);
    }
}

/// Directories are searched from the root of the repository down to the start,
/// one by one; without a repository only the start is.
pub proof fn directories_are_searched_downwards(dirs: Seq<DirectoryFacts>, k: int)
    requires
        0 < dirs.len() <= usize::MAX,
    ensures
        match git_root_from(dirs, 0) {
            Some(root) => search_dirs(dirs).len() == root + 1 && (0 <= k <= root ==> search_dirs(
                dirs,
            )[k] == root - k),
            None => search_dirs(dirs).len() == 1 && search_dirs(dirs)[0] == 0,
        },
{
    the_nearest_repository_counts(dirs, 0);
}

/// An override goes before the common file, and a directory without either has
/// none. The file lies in its directory.
pub proof fn overrides_go_first(dir: DirectoryFacts)
    requires
        dir.path@.len() > 0,
        dir.path@.last() != '/',
    ensures
        dir.has_override ==> instruction_file(dir) == Some(
            dir.path@ + "/"@ + "AGENTS.override.md"@,
        ),
        !dir.has_override && dir.has_agents ==> instruction_file(dir) == Some(
            dir.path@ + "/"@ + "AGENTS.md"@,
        ),
        !dir.has_override && !dir.has_agents ==> instruction_file(dir) is None,
{
}

/// The files are read in the order in which their directories are searched, one
/// for each directory that has one.
pub proof fn files_are_read_in_order(dirs: Seq<DirectoryFacts>, order: Seq<usize>, n: nat)
    requires
        n < order.len(),
        order[n as int] < dirs.len(),
    ensures
        ({
            let before = paths_to_read(dirs, order, n);
            let after = paths_to_read(dirs, order, n + 1);
            let dir = dirs[order[n as int] as int];
            &&& instruction_file(dir) is None ==> after == before
            &&& instruction_file(dir) is Some ==> after =~= before.push(
                (dir.path@, instruction_file(dir)->0),
            )
        }),
{
}

/// A file is kept with its place, whole where it fits what is left and cut where
/// it does not; a blank file, and any file once nothing is left, is not kept.
pub proof fn files_are_kept_as_they_fit(kept: Kept, file: InstructionFile)
    ensures
        ({
            let after = kept.reading(file);
            let room = 32768 - kept.bytes;
            let blank = forall|i: int|
                0 <= i < file.text@.len() ==> crate::text::white_space(#[trigger] file.text@[i]);
            &&& blank || room <= 0 ==> after == kept
            &&& !blank && 0 < byte_len(file.text@) <= room ==> {
                &&& after.entries =~= kept.entries.push(
                    InstructionView {
                        source_path: file.source_path@,
                        directory: file.directory@,
                        text: file.text@,
                    },
                )
                &&& after.bytes == kept.bytes + byte_len(file.text@)
            }
            &&& after.entries.len() <= kept.entries.len() + 1
            &&& after.entries.len() > kept.entries.len() ==> {
                let entry = after.entries.last();
                &&& entry.source_path == file.source_path@
                &&& entry.directory == file.directory@
                &&& entry.text.len() <= file.text@.len()
                &&& entry.text =~= file.text@.take(entry.text.len() as int)
                &&& byte_len(entry.text) <= room
                &&& after.bytes == kept.bytes + byte_len(entry.text)
            }
            &&& forall|i: int|
                0 <= i < kept.entries.len() ==> #[trigger] after.entries[i] == kept.entries[i]
        }),
{
    crate::text::blank_texts_are_white_space(file.text@);
    if kept.bytes < 32768 {
        crate::text::cutting_keeps_a_prefix(file.text@, (32768 - kept.bytes) as nat);
    }
    crate::text::lemma_byte_len_bounds(file.text@);
}

} // verus!
