//! What holds of every normalized path and of every resolution.

use crate::numeral;
use crate::numeral::Base;
use crate::opa::binaries;
use crate::opa::policy::IoErrorKind;
use crate::text;
use vstd::prelude::*;

verus! {

/// Whether a component is an ordinary name: not empty, without a separator,
/// and neither `.` nor `..`.
pub open spec fn is_name(part: Seq<char>) -> bool {
    &&& part.len() > 0
    &&& !part.contains('/')
    &&& part != "."@
    &&& part != ".."@
}

/// Whether all components are ordinary names.
pub open spec fn all_names(parts: Seq<Seq<char>>) -> bool {
    forall|i: int| 0 <= i < parts.len() ==> is_name(#[trigger] parts[i])
}

/// Whether no part is empty or has a separator.
pub open spec fn all_plain(parts: Seq<Seq<char>>) -> bool {
    forall|i: int|
        0 <= i < parts.len() ==> (#[trigger] parts[i]).len() > 0 && !parts[i].contains('/')
}

proof fn lemma_split_parts_plain(s: Seq<char>)
    ensures
        text::split(s, '/').len() > 0,
        forall|i: int|
            0 <= i < text::split(s, '/').len() ==> !(#[trigger] text::split(s, '/')[i]).contains(
                '/',
            ),
    decreases s.len(),
{
    let all = text::split(s, '/');
    if s.len() > 0 {
        lemma_split_parts_plain(s.drop_last());
        let before = text::split(s.drop_last(), '/');
        assert forall|i: int| 0 <= i < all.len() implies !(#[trigger] all[i]).contains('/') by {
            if s.last() == '/' {
                if i < before.len() {
                    assert(all[i] == before[i]);
                }
            } else if i < before.len() - 1 {
                assert(all[i] == before[i]);
            } else {
                assert(all[i] == before.last().push(s.last()));
                assert(before.last() == before[before.len() - 1]);
                if all[i].contains('/') {
                    let k = choose|k: int| 0 <= k < all[i].len() && all[i][k] == '/';
                    if k < before.last().len() {
                        assert(before.last()[k] == '/');
                    }
                }
            }
        }
    }
}

proof fn lemma_kept_plain(parts: Seq<Seq<char>>)
    requires
        forall|i: int| 0 <= i < parts.len() ==> !(#[trigger] parts[i]).contains('/'),
    ensures
        all_plain(binaries::kept_parts(parts)),
    decreases parts.len(),
{
    if parts.len() > 0 {
        let rest = parts.drop_last();
        assert forall|i: int| 0 <= i < rest.len() implies !(#[trigger] rest[i]).contains('/') by {
            assert(rest[i] == parts[i]);
        }
        lemma_kept_plain(rest);
        assert(parts.last() == parts[parts.len() - 1]);
    }
}

proof fn lemma_folded_names(parts: Seq<Seq<char>>)
    requires
        all_plain(parts),
    ensures
        all_names(binaries::folded(parts)),
    decreases parts.len(),
{
    if parts.len() > 0 {
        let rest = parts.drop_last();
        assert forall|i: int| 0 <= i < rest.len() implies (#[trigger] rest[i]).len() > 0
            && !rest[i].contains('/') by {
            assert(rest[i] == parts[i]);
        }
        lemma_folded_names(rest);
        assert(parts.last() == parts[parts.len() - 1]);
    }
}

proof fn lemma_names_stay(parts: Seq<Seq<char>>)
    requires
        all_names(parts),
    ensures
        binaries::kept_parts(parts) == parts,
        binaries::folded(parts) == parts,
    decreases parts.len(),
{
    if parts.len() > 0 {
        let rest = parts.drop_last();
        assert forall|i: int| 0 <= i < rest.len() implies is_name(#[trigger] rest[i]) by {
            assert(rest[i] == parts[i]);
        }
        lemma_names_stay(rest);
        assert(is_name(parts[parts.len() - 1]));
        assert(rest.push(parts.last()) == parts);
    }
}

proof fn lemma_kept_below_root(parts: Seq<Seq<char>>)
    requires
        all_names(parts),
    ensures
        binaries::kept_parts(seq![Seq::<char>::empty()] + parts) == parts,
    decreases parts.len(),
{
    let whole = seq![Seq::<char>::empty()] + parts;
    if parts.len() > 0 {
        let rest = parts.drop_last();
        assert forall|i: int| 0 <= i < rest.len() implies is_name(#[trigger] rest[i]) by {
            assert(rest[i] == parts[i]);
        }
        lemma_kept_below_root(rest);
        assert(whole.drop_last() == seq![Seq::<char>::empty()] + rest);
        assert(whole.last() == parts[parts.len() - 1]);
        assert(is_name(parts[parts.len() - 1]));
        assert(rest.push(parts.last()) == parts);
    } else {
        assert(whole.drop_last() == Seq::<Seq<char>>::empty());
        assert(whole.last() == Seq::<char>::empty());
        assert(binaries::kept_parts(whole.drop_last()) == parts);
    }
}

proof fn lemma_split_with_tail(s: Seq<char>, tail: Seq<char>)
    requires
        !tail.contains('/'),
    ensures
        text::split(s + tail, '/').len() > 0,
        text::split(s + tail, '/') == text::split(s, '/').drop_last().push(
            text::split(s, '/').last() + tail,
        ),
    decreases tail.len(),
{
    text::lemma_split_nonempty(s, '/');
    let parts = text::split(s, '/');
    if tail.len() == 0 {
        assert(s + tail == s);
        assert(parts.last() + tail == parts.last());
        assert(parts.drop_last().push(parts.last()) == parts);
    } else {
        let front = tail.drop_last();
        assert forall|k: int| 0 <= k < front.len() implies front[k] != '/' by {
            assert(tail[k] == front[k]);
            assert(tail.contains(tail[k]));
        }
        lemma_split_with_tail(s, front);
        assert((s + tail).drop_last() == s + front);
        assert((s + tail).last() == tail.last());
        assert(tail.contains(tail[tail.len() - 1]));
        let before = text::split(s + front, '/');
        assert(before.drop_last() == parts.drop_last());
        assert(before.last() == parts.last() + front);
        assert((parts.last() + front).push(tail.last()) == parts.last() + tail);
    }
}

proof fn lemma_split_joined(parts: Seq<Seq<char>>)
    requires
        all_names(parts),
        parts.len() > 0,
    ensures
        text::split(text::join(parts, "/"@), '/') == parts,
    decreases parts.len(),
{
    reveal_strlit("/");
    let last = parts.last();
    assert(is_name(parts[parts.len() - 1]));
    if parts.len() == 1 {
        let none = Seq::<char>::empty();
        lemma_split_with_tail(none, last);
        assert(none + last == last);
        assert(text::split(none, '/') == seq![none]);
        assert(seq![none].drop_last().push(none + last) == parts);
        assert(text::join(parts, "/"@) == last) by {
            assert(parts.drop_last() == Seq::<Seq<char>>::empty());
        }
    } else {
        let rest = parts.drop_last();
        assert forall|i: int| 0 <= i < rest.len() implies is_name(#[trigger] rest[i]) by {
            assert(rest[i] == parts[i]);
        }
        lemma_split_joined(rest);
        let front = text::join(rest, "/"@);
        let slashed = front.push('/');
        assert(slashed.drop_last() == front);
        assert(text::split(slashed, '/') == rest.push(Seq::empty()));
        lemma_split_with_tail(slashed, last);
        assert(rest.push(Seq::<char>::empty()).drop_last() == rest);
        assert(Seq::<char>::empty() + last == last);
        assert(slashed + last == front + "/"@ + last);
        assert(rest.push(last) == parts);
    }
}

proof fn lemma_split_below_root(s: Seq<char>)
    ensures
        text::split("/"@ + s, '/') == seq![Seq::<char>::empty()] + text::split(s, '/'),
    decreases s.len(),
{
    reveal_strlit("/");
    let none = Seq::<char>::empty();
    text::lemma_split_nonempty(s, '/');
    if s.len() == 0 {
        assert("/"@ + s == seq!['/']);
        assert(seq!['/'].drop_last() == none);
        assert(text::split(none, '/') == seq![none]);
        assert(text::split(seq!['/'], '/') == seq![none].push(none));
        assert(seq![none].push(none) == seq![none] + seq![none]);
    } else {
        let front = s.drop_last();
        lemma_split_below_root(front);
        text::lemma_split_nonempty(front, '/');
        assert(("/"@ + s).drop_last() == "/"@ + front);
        assert(("/"@ + s).last() == s.last());
        let before = text::split(front, '/');
        let whole = seq![none] + before;
        if s.last() == '/' {
            assert(whole.push(none) == seq![none] + before.push(none));
        } else {
            assert(whole.last() == before.last());
            assert(whole.drop_last().push(whole.last().push(s.last())) == seq![none]
                + before.drop_last().push(before.last().push(s.last())));
        }
    }
}

proof fn lemma_components_of_path(absolute: bool, parts: Seq<Seq<char>>)
    requires
        all_names(parts),
    ensures
        binaries::components(binaries::path_of(absolute, parts)) == parts,
        binaries::is_absolute(binaries::path_of(absolute, parts)) == absolute,
{
    reveal_strlit("/");
    let inner = text::join(parts, "/"@);
    let none = Seq::<char>::empty();
    if parts.len() == 0 {
        assert(inner == none);
        assert(text::split(none, '/') == seq![none]);
        assert(seq![none].drop_last() == Seq::<Seq<char>>::empty());
        assert(binaries::kept_parts(seq![none].drop_last()) == Seq::<Seq<char>>::empty());
        assert(binaries::kept_parts(seq![none]) == Seq::<Seq<char>>::empty());
        if absolute {
            lemma_split_below_root(none);
            let two = seq![none] + seq![none];
            assert(two.drop_last() == seq![none]);
            assert(two.last() == none);
            assert(binaries::kept_parts(two) == Seq::<Seq<char>>::empty());
        }
    } else {
        lemma_split_joined(parts);
        lemma_names_stay(parts);
        lemma_kept_below_root(parts);
        lemma_split_below_root(inner);
        assert(is_name(parts[0]));
        if inner.len() > 0 && inner[0] == '/' {
            lemma_first_char(parts);
        }
    }
}

proof fn lemma_first_char(parts: Seq<Seq<char>>)
    requires
        all_names(parts),
        parts.len() > 0,
    ensures
        text::join(parts, "/"@).len() > 0,
        text::join(parts, "/"@)[0] == parts[0][0],
        parts[0][0] != '/',
    decreases parts.len(),
{
    assert(is_name(parts[0]));
    assert(parts[0].contains(parts[0][0]));
    if parts.len() > 1 {
        let rest = parts.drop_last();
        assert forall|i: int| 0 <= i < rest.len() implies is_name(#[trigger] rest[i]) by {
            assert(rest[i] == parts[i]);
        }
        lemma_first_char(rest);
    } else {
        assert(parts.drop_last() == Seq::<Seq<char>>::empty());
    }
}

/// A normalized path has ordinary names for its components: neither `.` nor
/// `..` nor anything empty is left.
pub proof fn normalized_path_has_names_only(path: Seq<char>)
    ensures
        all_names(binaries::components(binaries::normalized(path))),
{
    lemma_split_parts_plain(path);
    lemma_kept_plain(text::split(path, '/'));
    lemma_folded_names(binaries::components(path));
    lemma_components_of_path(
        binaries::is_absolute(path),
        binaries::folded(binaries::components(path)),
    );
}

/// Normalizing a normalized path changes nothing.
pub proof fn normalized_path_is_stable(path: Seq<char>)
    ensures
        binaries::normalized(binaries::normalized(path)) == binaries::normalized(path),
        binaries::is_absolute(binaries::normalized(path)) == binaries::is_absolute(path),
{
    let names = binaries::folded(binaries::components(path));
    lemma_split_parts_plain(path);
    lemma_kept_plain(text::split(path, '/'));
    lemma_folded_names(binaries::components(path));
    lemma_components_of_path(binaries::is_absolute(path), names);
    lemma_names_stay(names);
}

/// A path made of names has those names, starts where it was made to start, and
/// is normalized already.
pub proof fn path_gives_its_names(absolute: bool, names: Seq<Seq<char>>)
    requires
        all_names(names),
    ensures
        ({
            let path = binaries::path_of(absolute, names);
            &&& binaries::components(path) == names
            &&& binaries::is_absolute(path) == absolute
            &&& binaries::normalized(path) == path
        }),
{
    lemma_components_of_path(absolute, names);
    lemma_names_stay(names);
}

/// What is put behind a separator at the end of a path is its last component.
pub proof fn last_component_is_read(path: Seq<char>, part: Seq<char>)
    requires
        part.len() > 0,
        !part.contains('/'),
        part != "."@,
    ensures
        binaries::components(path + seq!['/'] + part) == binaries::components(path).push(part),
{
    let whole = path + seq!['/'];
    assert(whole.drop_last() == path);
    text::lemma_split_nonempty(path, '/');
    let parts = text::split(path, '/');
    let none = Seq::<char>::empty();
    assert(text::split(whole, '/') == parts.push(none));
    lemma_split_with_tail(whole, part);
    assert(none + part == part);
    assert(parts.push(none).drop_last() == parts);
    assert(text::split(whole + part, '/') == parts.push(part));
    assert(parts.push(part).drop_last() == parts);
}

/// Going down by a name and up again changes nothing, nor does staying. Above the
/// root there is nothing.
pub proof fn going_up_undoes_going_down(path: Seq<char>, name: Seq<char>)
    requires
        path.len() > 0,
        is_name(name),
    ensures
        binaries::normalized(path + seq!['/'] + name + seq!['/'] + ".."@) == binaries::normalized(
            path,
        ),
        binaries::normalized(path + seq!['/'] + ".."@) == binaries::path_of(
            binaries::is_absolute(path),
            if binaries::components(binaries::normalized(path)).len() > 0 {
                binaries::components(binaries::normalized(path)).drop_last()
            } else {
                seq![]
            },
        ),
{
    reveal_strlit("..");
    reveal_strlit(".");
    assert(!".."@.contains('/'));
    assert(".."@.len() != "."@.len());
    let parts = binaries::components(path);
    last_component_is_read(path, name);
    let down = path + seq!['/'] + name;
    last_component_is_read(down, ".."@);
    last_component_is_read(path, ".."@);
    assert(parts.push(name).push(".."@).drop_last() == parts.push(name));
    assert(parts.push(name).drop_last() == parts);
    assert(parts.push(".."@).drop_last() == parts);
    assert(binaries::folded(parts).push(name).drop_last() == binaries::folded(parts));
    assert(binaries::folded(parts.push(name)) == binaries::folded(parts).push(name));
    assert(binaries::folded(parts.push(name).push(".."@)) == binaries::folded(parts));
    assert(binaries::is_absolute(down + seq!['/'] + ".."@) == binaries::is_absolute(path));
    assert(path + seq!['/'] + name + seq!['/'] + ".."@ == down + seq!['/'] + ".."@);
    lemma_split_parts_plain(path);
    lemma_kept_plain(text::split(path, '/'));
    lemma_folded_names(parts);
    lemma_components_of_path(binaries::is_absolute(path), binaries::folded(parts));
}

/// A symlink leads where it says if its target is absolute, and from its own
/// directory on if it is relative.
pub proof fn symlink_leads_from_its_directory(
    absolute: bool,
    directory: Seq<Seq<char>>,
    name: Seq<char>,
    names: Seq<Seq<char>>,
)
    requires
        all_names(directory),
        is_name(name),
        all_names(names),
        names.len() > 0,
    ensures
        ({
            let link = binaries::path_of(absolute, directory.push(name));
            &&& binaries::followed(link, binaries::path_of(true, names)) == Some(
                binaries::path_of(true, names),
            )
            &&& binaries::followed(link, binaries::path_of(false, names)) == Some(
                binaries::path_of(absolute, directory + names),
            )
        }),
{
    let parts = directory.push(name);
    assert(all_names(parts));
    assert(all_names(directory + names));
    lemma_components_of_path(absolute, parts);
    lemma_components_of_path(true, names);
    lemma_components_of_path(false, names);
    lemma_names_stay(directory + names);
    assert(parts.drop_last() == directory);
}

/// Whether each path but the last is a symlink that leads to the next one.
pub open spec fn is_trail(files: binaries::Files, trail: Seq<Seq<char>>) -> bool {
    &&& trail.len() > 0
    &&& forall|i: int| 0 <= i < trail.len() - 1 ==> #[trigger] leads_on(files, trail, i)
}

/// Whether a path of a trail is a symlink to the next one.
pub open spec fn leads_on(files: binaries::Files, trail: Seq<Seq<char>>, i: int) -> bool {
    binaries::entry_at(files.entries, trail[i]) matches binaries::Entry::Link(Ok(target))
        && binaries::followed(trail[i], target) == Some(trail[i + 1])
}

proof fn lemma_trail(
    files: binaries::Files,
    policy_path: Seq<char>,
    trail: Seq<Seq<char>>,
    at: int,
)
    requires
        is_trail(files, trail),
        trail.len() <= 41,
        0 <= at < trail.len(),
    ensures
        binaries::way(files, policy_path, trail[at], at) == binaries::way(
            files,
            policy_path,
            trail.last(),
            trail.len() - 1,
        ),
    decreases trail.len() - at,
{
    if at < trail.len() - 1 {
        assert(leads_on(files, trail, at));
        lemma_trail(files, policy_path, trail, at + 1);
    }
}

/// A trail of symlinks resolves to what stands at its end: to the path there, if
/// it is another than the policy names, and to nothing new otherwise.
pub proof fn trail_resolves_to_its_end(files: binaries::Files, trail: Seq<Seq<char>>, pid: int)
    requires
        is_trail(files, trail),
        trail.len() <= 41,
        !trail[0].contains('*'),
        pid != 0,
        files.root is Ok,
        binaries::entry_at(files.entries, trail.last()) is Target,
    ensures
        binaries::resolution(files, trail[0], pid) == if trail.last() == trail[0] {
            binaries::Resolution::Literal
        } else {
            binaries::Resolution::Resolved(trail.last())
        },
{
    lemma_trail(files, trail[0], trail, 0);
}

/// A trail that breaks behind its first path gives the error at the break.
pub proof fn broken_trail_gives_its_error(
    files: binaries::Files,
    trail: Seq<Seq<char>>,
    pid: int,
    kind: IoErrorKind,
)
    requires
        is_trail(files, trail),
        trail.len() <= 40,
        !trail[0].contains('*'),
        pid != 0,
        files.root is Ok,
        trail.last() != trail[0],
        binaries::entry_at(files.entries, trail.last()) == binaries::Entry::Failed(kind)
            || binaries::entry_at(files.entries, trail.last()) == binaries::Entry::Link(Err(kind)),
    ensures
        binaries::resolution(files, trail[0], pid) == binaries::Resolution::ChainBroken(kind),
{
    lemma_trail(files, trail[0], trail, 0);
}

/// Forty symlinks are followed; one more behind them is taken for a loop.
pub proof fn endless_trail_is_a_loop(files: binaries::Files, trail: Seq<Seq<char>>, pid: int)
    requires
        is_trail(files, trail),
        trail.len() == 41,
        !trail[0].contains('*'),
        pid != 0,
        files.root is Ok,
        binaries::entry_at(files.entries, trail.last()) is Link,
    ensures
        binaries::resolution(files, trail[0], pid) == binaries::Resolution::ChainBroken(
            IoErrorKind::FilesystemLoop,
        ),
{
    lemma_trail(files, trail[0], trail, 0);
}

/// A candidate that cannot be inspected is absent if it is missing under a root
/// that is still there, and a fault otherwise. A root that cannot be reached says
/// nothing of the candidate.
pub proof fn missing_candidate_is_absent(
    files: binaries::Files,
    path: Seq<char>,
    pid: int,
    kind: IoErrorKind,
)
    requires
        !path.contains('*'),
        pid != 0,
        binaries::entry_at(files.entries, path) == binaries::Entry::Failed(kind),
    ensures
        files.root matches Err(fault) ==> binaries::resolution(files, path, pid)
            == binaries::Resolution::Inaccessible(fault),
        files.root is Ok && kind != IoErrorKind::NotFound ==> binaries::resolution(files, path, pid)
            == binaries::Resolution::CandidateInaccessible(kind),
        files.root is Ok && kind == IoErrorKind::NotFound && files.root_later is Ok
            ==> binaries::resolution(files, path, pid) is Absent,
        files.root is Ok && kind == IoErrorKind::NotFound ==> (files.root_later matches Err(fault)
            ==> binaries::resolution(files, path, pid) == binaries::Resolution::Inaccessible(
            fault,
        )),
{
}

/// A glob, and any path of a container that has not started, stays as it is.
pub proof fn glob_stays_literal(files: binaries::Files, path: Seq<char>, pid: int)
    requires
        path.contains('*') || pid == 0,
    ensures
        binaries::resolution(files, path, pid) is Literal,
{
}

/// What stands at a path is what the first entry for the path says.
pub proof fn first_entry_stands_at_its_path(
    entries: Seq<(Seq<char>, binaries::Entry)>,
    path: Seq<char>,
    at: int,
)
    requires
        0 <= at < entries.len(),
        entries[at].0 == path,
        forall|i: int| 0 <= i < at ==> (#[trigger] entries[i]).0 != path,
    ensures
        binaries::entry_at(entries, path) == entries[at].1,
    decreases entries.len(),
{
    if at > 0 {
        assert(entries[0].0 != path);
        let rest = entries.skip(1);
        assert(rest[at - 1] == entries[at]);
        assert forall|i: int| 0 <= i < at - 1 implies (#[trigger] rest[i]).0 != path by {
            assert(rest[i] == entries[i + 1]);
        }
        first_entry_stands_at_its_path(rest, path, at - 1);
    }
}

/// What the files show to a look that a resolution asks for.
pub open spec fn shown(files: binaries::Files, walk: binaries::Walk) -> binaries::Event {
    match walk.phase {
        binaries::Phase::Root => binaries::Event::Root(files.root),
        binaries::Phase::Recheck => binaries::Event::Root(files.root_later),
        _ => binaries::Event::Path(binaries::entry_at(files.entries, walk.resolved)),
    }
}

/// Each look brings a resolution nearer to its end, and none changes what the
/// resolution comes to: what it comes to at its start is what it ends with.
pub proof fn looks_lead_to_the_resolution(files: binaries::Files, walk: binaries::Walk)
    requires
        0 <= walk.hops <= 40,
        walk.phase is Walk ==> walk.hops < 40,
        walk.phase is Last ==> walk.hops == 40,
        walk.phase is Root ==> walk.hops == 0,
        !(walk.phase is Ended),
        walk.phase is Recheck ==> walk.resolved == walk.policy_path,
    ensures
        ({
            let next = binaries::stepped(walk, shown(files, walk));
            &&& binaries::comes_to(files, next) == binaries::comes_to(files, walk)
            &&& binaries::distance(next) < binaries::distance(walk)
            &&& next.phase is Walk ==> next.hops < 40
            &&& next.phase is Last ==> next.hops == 40
            &&& next.phase is Recheck ==> next.resolved == next.policy_path
            &&& !(next.phase is Root)
        }),
{
}

/// A resolution starts out for what the files say of the path, and asks for the
/// process root and for paths below it.
pub proof fn resolution_looks_below_the_root(
    files: binaries::Files,
    path: Seq<char>,
    pid: int,
    walk: binaries::Walk,
)
    ensures
        binaries::comes_to(files, binaries::started(path, pid)) == binaries::resolution(
            files,
            path,
            pid,
        ),
        binaries::wanted(walk) matches binaries::Action::InspectPath(place) ==> place == "/proc/"@
            + numeral::numeral(walk.pid as nat, Base::Decimal) + "/root"@ + walk.resolved,
        binaries::wanted(walk) matches binaries::Action::InspectRoot(place) ==> place == "/proc/"@
            + numeral::numeral(walk.pid as nat, Base::Decimal) + "/root"@,
        binaries::wanted(walk) matches binaries::Action::Done(resolution) ==> walk.phase
            == binaries::Phase::Ended(resolution),
{
}

} // verus!
