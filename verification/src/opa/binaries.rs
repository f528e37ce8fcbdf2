//! Resolution of policy binaries through the filesystem of a container.

use crate::numeral;
use crate::numeral::{numeral_of, Base};
use crate::opa::policy::{BinaryResolution, IoErrorKind};
use crate::text;
use crate::text::{chars_of, joined, same, split_parts};
use vstd::prelude::*;

verus! {

/// How many symlinks of a chain are followed: the kernel's limit.
pub const MAX_SYMLINK_HOPS: u32 = 40;

/// What a [`BinaryResolution`] denotes.
#[verifier::ext_equal]
pub enum Resolution {
    Resolved(Seq<char>),
    Literal,
    Absent,
    Inaccessible(IoErrorKind),
    CandidateInaccessible(IoErrorKind),
    ChainBroken(IoErrorKind),
}

impl View for BinaryResolution {
    type V = Resolution;

    open spec fn view(&self) -> Resolution {
        match self {
            BinaryResolution::Resolved(target) => Resolution::Resolved(target@),
            BinaryResolution::Literal => Resolution::Literal,
            BinaryResolution::Absent => Resolution::Absent,
            BinaryResolution::Inaccessible(kind) => Resolution::Inaccessible(*kind),
            BinaryResolution::CandidateInaccessible(kind) => Resolution::CandidateInaccessible(
                *kind,
            ),
            BinaryResolution::ChainBroken(kind) => Resolution::ChainBroken(*kind),
        }
    }
}

impl BinaryResolution {
    /// The same outcome once more.
    pub fn copy(&self) -> (r: BinaryResolution)
        ensures
            r@ == self@,
    {
        match self {
            BinaryResolution::Resolved(target) => BinaryResolution::Resolved(target.clone()),
            BinaryResolution::Literal => BinaryResolution::Literal,
            BinaryResolution::Absent => BinaryResolution::Absent,
            BinaryResolution::Inaccessible(kind) => BinaryResolution::Inaccessible(*kind),
            BinaryResolution::CandidateInaccessible(kind) => {
                BinaryResolution::CandidateInaccessible(*kind)
            },
            BinaryResolution::ChainBroken(kind) => BinaryResolution::ChainBroken(*kind),
        }
    }

    /// Classifies a failure to inspect the candidate itself under a process
    /// root that is reachable.
    pub fn classify_first_probe_error(kind: IoErrorKind) -> (r: BinaryResolution)
        ensures
            r@ == candidate_failure(kind),
    {
        match kind {
            IoErrorKind::NotFound => BinaryResolution::Absent,
            _ => BinaryResolution::CandidateInaccessible(kind),
        }
    }
}

/// What a failure to inspect the candidate itself means: a missing candidate
/// is expected, any other failure is a fault of the path.
pub open spec fn candidate_failure(kind: IoErrorKind) -> Resolution {
    match kind {
        IoErrorKind::NotFound => Resolution::Absent,
        _ => Resolution::CandidateInaccessible(kind),
    }
}

/// Whether a path starts at the root.
pub open spec fn is_absolute(path: Seq<char>) -> bool {
    path.len() > 0 && path[0] == '/'
}

/// The components among the parts of a path: neither empty parts nor `.`
/// count, but for a `.` at the start.
pub open spec fn kept_parts(parts: Seq<Seq<char>>) -> Seq<Seq<char>>
    decreases parts.len(),
{
    if parts.len() == 0 {
        seq![]
    } else {
        let before = kept_parts(parts.drop_last());
        if parts.last().len() == 0 || (parts.last() == "."@ && parts.len() > 1) {
            before
        } else {
            before.push(parts.last())
        }
    }
}

/// The components of a path below its root.
pub open spec fn components(path: Seq<char>) -> Seq<Seq<char>> {
    kept_parts(text::split(path, '/'))
}

/// The components that are left when `.` and `..` are resolved.
pub open spec fn folded(parts: Seq<Seq<char>>) -> Seq<Seq<char>>
    decreases parts.len(),
{
    if parts.len() == 0 {
        seq![]
    } else {
        let before = folded(parts.drop_last());
        if parts.last() == ".."@ {
            if before.len() > 0 {
                before.drop_last()
            } else {
                before
            }
        } else if parts.last() == "."@ {
            before
        } else {
            before.push(parts.last())
        }
    }
}

/// The path with given components.
pub open spec fn path_of(absolute: bool, parts: Seq<Seq<char>>) -> Seq<char> {
    if absolute {
        "/"@ + text::join(parts, "/"@)
    } else {
        text::join(parts, "/"@)
    }
}

/// A path with its `.` and `..` components resolved.
pub open spec fn normalized(path: Seq<char>) -> Seq<char> {
    path_of(is_absolute(path), folded(components(path)))
}

/// Where a symlink leads: an absolute target is taken as it is, a relative one
/// starts from the directory of the symlink, which a path without components
/// does not have.
pub open spec fn followed(link: Seq<char>, target: Seq<char>) -> Option<Seq<char>> {
    let parts = components(link);
    if is_absolute(target) {
        Some(target)
    } else if parts.len() == 0 {
        None
    } else {
        Some(path_of(is_absolute(link), folded(parts.drop_last() + components(target))))
    }
}

fn starts_at_root(path: &str) -> (r: bool)
    ensures
        r == is_absolute(path@),
{
    let chars = chars_of(path);
    chars.len() > 0 && chars[0] == '/'
}

fn components_of(path: &str) -> (r: Vec<String>)
    ensures
        text::texts(r@) == components(path@),
{
    let parts = split_parts(path, '/');
    let ghost all = text::split(path@, '/');
    let mut r: Vec<String> = Vec::new();
    assert(text::texts(r@) == Seq::<Seq<char>>::empty());
    let mut i: usize = 0;
    while i < parts.len()
        invariant
            i <= parts@.len(),
            all == text::texts(parts@),
            text::texts(r@) == kept_parts(all.take(i as int)),
        decreases parts@.len() - i,
    {
        assert(all.take(i + 1).drop_last() == all.take(i as int));
        assert(all.take(i + 1).last() == parts@[i as int]@);
        let part = parts[i].as_str();
        if !(chars_of(part).len() == 0 || (i > 0 && same(part, "."))) {
            let ghost before = text::texts(r@);
            r.push(parts[i].clone());
            assert(text::texts(r@) == before.push(part@));
        }
        i += 1;
    }
    assert(all.take(i as int) == all);
    r
}

fn fold_parts(parts: &Vec<String>) -> (r: Vec<String>)
    ensures
        text::texts(r@) == folded(text::texts(parts@)),
{
    let ghost all = text::texts(parts@);
    let mut r: Vec<String> = Vec::new();
    assert(text::texts(r@) == Seq::<Seq<char>>::empty());
    let mut i: usize = 0;
    while i < parts.len()
        invariant
            i <= parts@.len(),
            all == text::texts(parts@),
            text::texts(r@) == folded(all.take(i as int)),
        decreases parts@.len() - i,
    {
        assert(all.take(i + 1).drop_last() == all.take(i as int));
        assert(all.take(i + 1).last() == parts@[i as int]@);
        let part = parts[i].as_str();
        let ghost before = text::texts(r@);
        assert(before.len() == r@.len());
        if same(part, "..") {
            if r.len() > 0 {
                let _dropped = r.pop();
                assert(text::texts(r@) == before.drop_last());
            }
        } else if !same(part, ".") {
            r.push(parts[i].clone());
            assert(text::texts(r@) == before.push(part@));
        }
        i += 1;
    }
    assert(all.take(i as int) == all);
    r
}

fn build_path(absolute: bool, parts: &Vec<String>) -> (r: String)
    ensures
        r@ == path_of(absolute, text::texts(parts@)),
{
    if absolute {
        let mut r = "/".to_string();
        r.append(joined(parts, "/").as_str());
        r
    } else {
        joined(parts, "/")
    }
}

/// Resolves the `.` and `..` components of a path without looking at files.
pub fn normalize_path(path: &str) -> (r: String)
    ensures
        r@ == normalized(path@),
{
    build_path(starts_at_root(path), &fold_parts(&components_of(path)))
}

fn follow(link: &str, target: &str) -> (r: Option<String>)
    ensures
        match r {
            Some(path) => followed(link@, target@) == Some(path@),
            None => followed(link@, target@) is None,
        },
{
    if starts_at_root(target) {
        return Some(target.to_string());
    }
    let mut parts = components_of(link);
    let ghost before = text::texts(parts@);
    assert(before.len() == parts@.len());
    if parts.len() == 0 {
        return None;
    }
    let _name = parts.pop();
    assert(text::texts(parts@) == before.drop_last());
    let rest = components_of(target);
    let ghost kept = text::texts(parts@);
    let ghost more = text::texts(rest@);
    let mut i: usize = 0;
    assert(kept + more.take(0) == kept);
    while i < rest.len()
        invariant
            i <= rest@.len(),
            more == text::texts(rest@),
            text::texts(parts@) == kept + more.take(i as int),
        decreases rest@.len() - i,
    {
        let ghost so_far = text::texts(parts@);
        parts.push(rest[i].clone());
        assert(text::texts(parts@) == so_far.push(rest@[i as int]@));
        assert(kept + more.take(i + 1) == so_far.push(rest@[i as int]@));
        i += 1;
    }
    assert(more.take(i as int) == more);
    Some(build_path(starts_at_root(link), &fold_parts(&parts)))
}

/// What stands at a path, as far as the path's last component goes.
#[derive(Debug)]
pub enum FileEntry {
    /// Something other than a symlink.
    Target,
    /// A symlink, with its target or the failure to read it.
    Link(Result<String, IoErrorKind>),
    /// The path cannot be inspected.
    Failed(IoErrorKind),
}

/// What a [`FileEntry`] denotes.
#[verifier::ext_equal]
pub enum Entry {
    Target,
    Link(Result<Seq<char>, IoErrorKind>),
    Failed(IoErrorKind),
}

impl View for FileEntry {
    type V = Entry;

    open spec fn view(&self) -> Entry {
        match self {
            FileEntry::Target => Entry::Target,
            FileEntry::Link(Ok(target)) => Entry::Link(Ok(target@)),
            FileEntry::Link(Err(kind)) => Entry::Link(Err(*kind)),
            FileEntry::Failed(kind) => Entry::Failed(*kind),
        }
    }
}

/// What the resolution of a path knows.
#[derive(Debug)]
pub enum ResolverState {
    /// The process root is to be looked at.
    Root,
    /// The path that the walk has come to is to be inspected.
    Walk,
    /// The candidate is missing, and the process root is to be looked at again.
    Recheck,
    /// All hops are used up, and the path come to is to be inspected.
    Last,
    /// The resolution is over.
    Ended(BinaryResolution),
}

/// What a [`ResolverState`] denotes.
#[verifier::ext_equal]
pub enum Phase {
    Root,
    Walk,
    Recheck,
    Last,
    Ended(Resolution),
}

impl View for ResolverState {
    type V = Phase;

    open spec fn view(&self) -> Phase {
        match self {
            ResolverState::Root => Phase::Root,
            ResolverState::Walk => Phase::Walk,
            ResolverState::Recheck => Phase::Recheck,
            ResolverState::Last => Phase::Last,
            ResolverState::Ended(resolution) => Phase::Ended(resolution@),
        }
    }
}

/// The resolution of a policy path inside a container, one look at the
/// container's files at a time.
#[derive(Debug)]
pub struct BinaryResolver {
    pub policy_path: String,
    pub pid: u32,
    pub resolved: String,
    pub hops: u32,
    pub state: ResolverState,
}

/// What a [`BinaryResolver`] denotes.
#[verifier::ext_equal]
pub struct Walk {
    pub policy_path: Seq<char>,
    pub pid: int,
    pub resolved: Seq<char>,
    pub hops: int,
    pub phase: Phase,
}

impl View for BinaryResolver {
    type V = Walk;

    open spec fn view(&self) -> Walk {
        Walk {
            policy_path: self.policy_path@,
            pid: self.pid as int,
            resolved: self.resolved@,
            hops: self.hops as int,
            phase: self.state@,
        }
    }
}

/// What the resolution wants done next.
#[derive(Debug)]
pub enum ResolverAction {
    /// Look whether this process root can be reached.
    InspectRoot(String),
    /// Inspect this path without following its last component, and read it
    /// where it is a symlink.
    InspectPath(String),
    /// Nothing more.
    Done(BinaryResolution),
}

/// What a [`ResolverAction`] denotes.
#[verifier::ext_equal]
pub enum Action {
    InspectRoot(Seq<char>),
    InspectPath(Seq<char>),
    Done(Resolution),
}

impl View for ResolverAction {
    type V = Action;

    open spec fn view(&self) -> Action {
        match self {
            ResolverAction::InspectRoot(path) => Action::InspectRoot(path@),
            ResolverAction::InspectPath(path) => Action::InspectPath(path@),
            ResolverAction::Done(resolution) => Action::Done(resolution@),
        }
    }
}

/// What a look at the container's files showed.
#[derive(Debug)]
pub enum ResolverEvent {
    /// The process root, reached or not.
    Root(Result<(), IoErrorKind>),
    /// What stands at the path.
    Path(FileEntry),
}

/// What a [`ResolverEvent`] denotes.
#[verifier::ext_equal]
pub enum Event {
    Root(Result<(), IoErrorKind>),
    Path(Entry),
}

impl View for ResolverEvent {
    type V = Event;

    open spec fn view(&self) -> Event {
        match self {
            ResolverEvent::Root(result) => Event::Root(*result),
            ResolverEvent::Path(entry) => Event::Path(entry@),
        }
    }
}

/// The process root of a process.
pub open spec fn process_root(pid: int) -> Seq<char> {
    "/proc/"@ + numeral::numeral(pid as nat, Base::Decimal) + "/root"@
}

/// The outcome for a walk that ended at a path that is no symlink.
pub open spec fn outcome(policy_path: Seq<char>, resolved: Seq<char>) -> Resolution {
    if resolved == policy_path {
        Resolution::Literal
    } else {
        Resolution::Resolved(resolved)
    }
}

/// The resolution of a policy path at its start. Globs, and paths of a
/// container that has not started, stay as they are.
pub open spec fn started(policy_path: Seq<char>, pid: int) -> Walk {
    Walk {
        policy_path,
        pid,
        resolved: policy_path,
        hops: 0,
        phase: if policy_path.contains('*') || pid == 0 {
            Phase::Ended(Resolution::Literal)
        } else {
            Phase::Root
        },
    }
}

/// What a resolution wants done next.
pub open spec fn wanted(walk: Walk) -> Action {
    match walk.phase {
        Phase::Root => Action::InspectRoot(process_root(walk.pid)),
        Phase::Recheck => Action::InspectRoot(process_root(walk.pid)),
        Phase::Walk => Action::InspectPath(process_root(walk.pid) + walk.resolved),
        Phase::Last => Action::InspectPath(process_root(walk.pid) + walk.resolved),
        Phase::Ended(resolution) => Action::Done(resolution),
    }
}

/// A resolution that has ended.
pub open spec fn ended(walk: Walk, resolution: Resolution) -> Walk {
    Walk { phase: Phase::Ended(resolution), ..walk }
}

/// A resolution after a path on its way was inspected.
pub open spec fn walked(walk: Walk, entry: Entry) -> Walk {
    match entry {
        Entry::Failed(kind) => if walk.resolved != walk.policy_path {
            ended(walk, Resolution::ChainBroken(kind))
        } else if kind == IoErrorKind::NotFound {
            Walk { phase: Phase::Recheck, ..walk }
        } else {
            ended(walk, candidate_failure(kind))
        },
        Entry::Target => ended(walk, outcome(walk.policy_path, walk.resolved)),
        Entry::Link(Err(kind)) => ended(walk, Resolution::ChainBroken(kind)),
        Entry::Link(Ok(target)) => match followed(walk.resolved, target) {
            Some(path) => Walk {
                resolved: path,
                hops: walk.hops + 1,
                phase: if walk.hops + 1 >= MAX_SYMLINK_HOPS {
                    Phase::Last
                } else {
                    Phase::Walk
                },
                ..walk
            },
            None => ended(walk, outcome(walk.policy_path, walk.resolved)),
        },
    }
}

/// A resolution after an event. An event that it did not ask for leaves it as
/// it is.
pub open spec fn stepped(walk: Walk, event: Event) -> Walk {
    match (walk.phase, event) {
        (Phase::Root, Event::Root(Ok(_))) => Walk { phase: Phase::Walk, ..walk },
        (Phase::Root, Event::Root(Err(kind))) => ended(walk, Resolution::Inaccessible(kind)),
        (Phase::Walk, Event::Path(entry)) => walked(walk, entry),
        (Phase::Recheck, Event::Root(Ok(_))) => ended(
            walk,
            candidate_failure(IoErrorKind::NotFound),
        ),
        (Phase::Recheck, Event::Root(Err(kind))) => ended(walk, Resolution::Inaccessible(kind)),
        (Phase::Last, Event::Path(Entry::Target)) => ended(
            walk,
            outcome(walk.policy_path, walk.resolved),
        ),
        (Phase::Last, Event::Path(Entry::Link(_))) => ended(
            walk,
            Resolution::ChainBroken(IoErrorKind::FilesystemLoop),
        ),
        (Phase::Last, Event::Path(Entry::Failed(kind))) => ended(
            walk,
            Resolution::ChainBroken(kind),
        ),
        _ => walk,
    }
}

fn root_path(pid: u32) -> (r: String)
    ensures
        r@ == process_root(pid as int),
{
    let mut r = "/proc/".to_string();
    r.append(numeral_of(pid as u64, Base::Decimal).as_str());
    r.append("/root");
    r
}

fn has_star(path: &str) -> (r: bool)
    ensures
        r == path@.contains('*'),
{
    let chars = chars_of(path);
    let mut i: usize = 0;
    while i < chars.len()
        invariant
            i <= chars@.len(),
            chars@ == path@,
            forall|j: int| 0 <= j < i ==> chars@[j] != '*',
        decreases chars@.len() - i,
    {
        if chars[i] == '*' {
            assert(path@[i as int] == '*');
            return true;
        }
        i += 1;
    }
    false
}

fn final_resolution(policy_path: &str, resolved: &str) -> (r: BinaryResolution)
    ensures
        r@ == outcome(policy_path@, resolved@),
{
    if same(resolved, policy_path) {
        BinaryResolution::Literal
    } else {
        BinaryResolution::Resolved(resolved.to_string())
    }
}

impl BinaryResolver {
    /// Starts the resolution of a policy path in the container of a process.
    pub fn start(policy_path: &str, entrypoint_pid: u32) -> (r: BinaryResolver)
        ensures
            r@ == started(policy_path@, entrypoint_pid as int),
            r.valid(),
    {
        BinaryResolver {
            policy_path: policy_path.to_string(),
            pid: entrypoint_pid,
            resolved: policy_path.to_string(),
            hops: 0,
            state: if has_star(policy_path) || entrypoint_pid == 0 {
                ResolverState::Ended(BinaryResolution::Literal)
            } else {
                ResolverState::Root
            },
        }
    }

    /// Says what is to be done next.
    pub fn want(&self) -> (r: ResolverAction)
        ensures
            r@ == wanted(self@),
    {
        match &self.state {
            ResolverState::Root => ResolverAction::InspectRoot(root_path(self.pid)),
            ResolverState::Recheck => ResolverAction::InspectRoot(root_path(self.pid)),
            ResolverState::Walk => {
                let mut path = root_path(self.pid);
                path.append(self.resolved.as_str());
                ResolverAction::InspectPath(path)
            },
            ResolverState::Last => {
                let mut path = root_path(self.pid);
                path.append(self.resolved.as_str());
                ResolverAction::InspectPath(path)
            },
            ResolverState::Ended(resolution) => ResolverAction::Done(resolution.copy()),
        }
    }

    fn on_walk(&mut self, entry: &FileEntry)
        requires
            old(self).hops < MAX_SYMLINK_HOPS,
        ensures
            final(self)@ == walked(old(self)@, entry@),
    {
        match entry {
            FileEntry::Failed(kind) => {
                if !same(self.resolved.as_str(), self.policy_path.as_str()) {
                    self.state = ResolverState::Ended(BinaryResolution::ChainBroken(*kind));
                } else if *kind == IoErrorKind::NotFound {
                    self.state = ResolverState::Recheck;
                } else {
                    self.state =
                    ResolverState::Ended(BinaryResolution::classify_first_probe_error(*kind));
                }
            },
            FileEntry::Target => {
                self.state =
                ResolverState::Ended(
                    final_resolution(self.policy_path.as_str(), self.resolved.as_str()),
                );
            },
            FileEntry::Link(Err(kind)) => {
                self.state = ResolverState::Ended(BinaryResolution::ChainBroken(*kind));
            },
            FileEntry::Link(Ok(target)) => match follow(self.resolved.as_str(), target.as_str()) {
                Some(path) => {
                    self.resolved = path;
                    self.hops = self.hops + 1;
                    self.state = if self.hops >= MAX_SYMLINK_HOPS {
                        ResolverState::Last
                    } else {
                        ResolverState::Walk
                    };
                },
                None => {
                    self.state =
                    ResolverState::Ended(
                        final_resolution(self.policy_path.as_str(), self.resolved.as_str()),
                    );
                },
            },
        }
    }

    /// Whether hops are left while the walk goes on.
    pub open spec fn valid(self) -> bool {
        self@.phase is Walk || self@.phase is Root ==> self.hops < MAX_SYMLINK_HOPS
    }

    /// Takes in what a look at the container's files showed.
    pub fn on(&mut self, event: &ResolverEvent)
        requires
            old(self).valid(),
        ensures
            final(self).valid(),
            final(self)@ == stepped(old(self)@, event@),
    {
        match event {
            ResolverEvent::Root(Ok(_)) => match &self.state {
                ResolverState::Root => {
                    self.state = ResolverState::Walk;
                },
                ResolverState::Recheck => {
                    self.state =
                    ResolverState::Ended(
                        BinaryResolution::classify_first_probe_error(IoErrorKind::NotFound),
                    );
                },
                _ => {},
            },
            ResolverEvent::Root(Err(kind)) => match &self.state {
                ResolverState::Root => {
                    self.state = ResolverState::Ended(BinaryResolution::Inaccessible(*kind));
                },
                ResolverState::Recheck => {
                    self.state = ResolverState::Ended(BinaryResolution::Inaccessible(*kind));
                },
                _ => {},
            },
            ResolverEvent::Path(entry) => match &self.state {
                ResolverState::Walk => {
                    self.on_walk(entry);
                },
                ResolverState::Last => {
                    self.state =
                    ResolverState::Ended(
                        match entry {
                            FileEntry::Target => final_resolution(
                                self.policy_path.as_str(),
                                self.resolved.as_str(),
                            ),
                            FileEntry::Link(_) => BinaryResolution::ChainBroken(
                                IoErrorKind::FilesystemLoop,
                            ),
                            FileEntry::Failed(kind) => BinaryResolution::ChainBroken(*kind),
                        },
                    );
                },
                _ => {},
            },
        }
    }
}

/// What the files of a container look like while they do not change.
#[derive(Debug)]
pub struct ContainerFiles {
    /// Whether the process root can be reached.
    pub root: Result<(), IoErrorKind>,
    /// Whether it still can once a candidate was found missing.
    pub root_later: Result<(), IoErrorKind>,
    /// What stands at each path of the container. Nothing stands elsewhere.
    pub entries: Vec<(String, FileEntry)>,
}

/// What a [`ContainerFiles`] denotes.
#[verifier::ext_equal]
pub struct Files {
    pub root: Result<(), IoErrorKind>,
    pub root_later: Result<(), IoErrorKind>,
    pub entries: Seq<(Seq<char>, Entry)>,
}

impl View for ContainerFiles {
    type V = Files;

    open spec fn view(&self) -> Files {
        Files {
            root: self.root,
            root_later: self.root_later,
            entries: self.entries@.map_values(|pair: (String, FileEntry)| (pair.0@, pair.1@)),
        }
    }
}

/// What stands at a path.
pub open spec fn entry_at(entries: Seq<(Seq<char>, Entry)>, path: Seq<char>) -> Entry
    decreases entries.len(),
{
    if entries.len() == 0 {
        Entry::Failed(IoErrorKind::NotFound)
    } else if entries[0].0 == path {
        entries[0].1
    } else {
        entry_at(entries.skip(1), path)
    }
}

/// Where the walk from a path ends after a number of hops.
pub open spec fn way(files: Files, policy_path: Seq<char>, path: Seq<char>, hops: int) -> Resolution
    decreases MAX_SYMLINK_HOPS - hops,
{
    let entry = entry_at(files.entries, path);
    if hops >= MAX_SYMLINK_HOPS {
        match entry {
            Entry::Target => outcome(policy_path, path),
            Entry::Link(_) => Resolution::ChainBroken(IoErrorKind::FilesystemLoop),
            Entry::Failed(kind) => Resolution::ChainBroken(kind),
        }
    } else {
        match entry {
            Entry::Target => outcome(policy_path, path),
            Entry::Link(Err(kind)) => Resolution::ChainBroken(kind),
            Entry::Link(Ok(target)) => match followed(path, target) {
                Some(next) => way(files, policy_path, next, hops + 1),
                None => outcome(policy_path, path),
            },
            Entry::Failed(kind) => if path != policy_path {
                Resolution::ChainBroken(kind)
            } else {
                match (kind, files.root_later) {
                    (IoErrorKind::NotFound, Err(later)) => Resolution::Inaccessible(later),
                    _ => candidate_failure(kind),
                }
            },
        }
    }
}

/// What a policy path resolves to in the container of a process.
pub open spec fn resolution(files: Files, policy_path: Seq<char>, pid: int) -> Resolution {
    if policy_path.contains('*') || pid == 0 {
        Resolution::Literal
    } else {
        match files.root {
            Err(kind) => Resolution::Inaccessible(kind),
            Ok(_) => way(files, policy_path, policy_path, 0),
        }
    }
}

/// What a resolution under way comes to.
pub open spec fn comes_to(files: Files, walk: Walk) -> Resolution {
    match walk.phase {
        Phase::Root => match files.root {
            Err(kind) => Resolution::Inaccessible(kind),
            Ok(_) => way(files, walk.policy_path, walk.resolved, walk.hops),
        },
        Phase::Walk => way(files, walk.policy_path, walk.resolved, walk.hops),
        Phase::Last => way(files, walk.policy_path, walk.resolved, MAX_SYMLINK_HOPS as int),
        Phase::Recheck => match files.root_later {
            Err(kind) => Resolution::Inaccessible(kind),
            Ok(_) => Resolution::Absent,
        },
        Phase::Ended(resolution) => resolution,
    }
}

/// How far a resolution is from its end.
pub open spec fn distance(walk: Walk) -> int {
    match walk.phase {
        Phase::Root => 2 * MAX_SYMLINK_HOPS + 3,
        Phase::Walk => 2 * (MAX_SYMLINK_HOPS - walk.hops) + 2,
        Phase::Last => 1,
        Phase::Recheck => 1,
        Phase::Ended(_) => 0,
    }
}

impl FileEntry {
    /// The same entry once more.
    pub fn copy(&self) -> (r: FileEntry)
        ensures
            r@ == self@,
    {
        match self {
            FileEntry::Target => FileEntry::Target,
            FileEntry::Link(Ok(target)) => FileEntry::Link(Ok(target.clone())),
            FileEntry::Link(Err(kind)) => FileEntry::Link(Err(*kind)),
            FileEntry::Failed(kind) => FileEntry::Failed(*kind),
        }
    }
}

impl ContainerFiles {
    /// Finds what stands at a path.
    pub fn entry(&self, path: &str) -> (r: FileEntry)
        ensures
            r@ == entry_at(self@.entries, path@),
    {
        let ghost all = self@.entries;
        let mut i: usize = 0;
        assert(all.skip(0) == all);
        while i < self.entries.len()
            invariant
                i <= self.entries@.len(),
                all == self@.entries,
                entry_at(all, path@) == entry_at(all.skip(i as int), path@),
            decreases self.entries@.len() - i,
        {
            let pair = &self.entries[i];
            assert(all.skip(i as int)[0] == (pair.0@, pair.1@));
            if same(pair.0.as_str(), path) {
                return pair.1.copy();
            }
            assert(all.skip(i as int).skip(1) == all.skip(i + 1));
            i += 1;
        }
        assert(all.skip(i as int).len() == 0);
        FileEntry::Failed(IoErrorKind::NotFound)
    }
}

/// Resolves a policy path in the container of a process whose files do not
/// change: each look that the resolution asks for is answered from `files`.
pub fn resolve_binary_in_container(
    policy_path: &str,
    entrypoint_pid: u32,
    files: &ContainerFiles,
) -> (r: BinaryResolution)
    ensures
        r@ == resolution(files@, policy_path@, entrypoint_pid as int),
{
    let mut resolver = BinaryResolver::start(policy_path, entrypoint_pid);
    loop
        invariant
            resolver.valid(),
            resolver@.hops <= MAX_SYMLINK_HOPS,
            resolver@.phase is Last ==> resolver@.hops == MAX_SYMLINK_HOPS,
            comes_to(files@, resolver@) == resolution(
                files@,
                policy_path@,
                entrypoint_pid as int,
            ),
        decreases distance(resolver@),
    {
        let event = match resolver.want() {
            ResolverAction::Done(resolution) => {
                return resolution;
            },
            ResolverAction::InspectRoot(_) => match &resolver.state {
                ResolverState::Root => ResolverEvent::Root(files.root),
                _ => ResolverEvent::Root(files.root_later),
            },
            ResolverAction::InspectPath(_) => ResolverEvent::Path(
                files.entry(resolver.resolved.as_str()),
            ),
        };
        resolver.on(&event);
    }
}

proof fn lemma_way_is_new(files: Files, policy_path: Seq<char>, path: Seq<char>, hops: int)
    ensures
        way(files, policy_path, path, hops) matches Resolution::Resolved(target) ==> target
            != policy_path,
    decreases MAX_SYMLINK_HOPS - hops,
{
    if hops < MAX_SYMLINK_HOPS {
        if let Entry::Link(Ok(target)) = entry_at(files.entries, path) {
            if let Some(next) = followed(path, target) {
                lemma_way_is_new(files, policy_path, next, hops + 1);
            }
        }
    }
}

/// A path that resolves does so to another path, which is no glob's doing, in
/// a container that has started and whose root can be reached.
pub proof fn resolved_path_is_new(files: Files, policy_path: Seq<char>, pid: int)
    ensures
        resolution(files, policy_path, pid) matches Resolution::Resolved(target) ==> {
            &&& target != policy_path
            &&& !policy_path.contains('*')
            &&& pid != 0
            &&& files.root is Ok
        },
{
    lemma_way_is_new(files, policy_path, policy_path, 0);
}

/// A path that cannot be inspected at all is never resolved.
pub proof fn missing_path_is_not_resolved(files: Files, policy_path: Seq<char>, pid: int)
    requires
        entry_at(files.entries, policy_path) is Failed,
    ensures
        !(resolution(files, policy_path, pid) is Resolved),
{
}

} // verus!
