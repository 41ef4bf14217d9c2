//! Which file events matter.

use crate::text::chars_of;
use crate::text::contains;
use crate::text::same_chars;
use vstd::prelude::*;

verus! {

/// Where the piece behind the last slash of a path starts.
pub open spec fn last_piece_start(path: Seq<char>) -> nat
    decreases path.len(),
{
    if path.len() == 0 || path.last() == '/' {
        path.len()
    } else {
        last_piece_start(path.drop_last())
    }
}

/// The last component of a path that is neither empty nor a single dot.
pub open spec fn last_component(path: Seq<char>) -> Option<Seq<char>>
    decreases path.len(),
    via last_component_shortens
{
    let start: int = last_piece_start(path) as int;
    let piece = path.skip(start);
    if piece.len() != 0 && piece != seq!['.'] {
        Some(piece)
    } else if start == 0 {
        None
    } else {
        last_component(path.take(start - 1))
    }
}

#[via_fn]
proof fn last_component_shortens(path: Seq<char>) {
    lemma_last_piece(path);
}

/// The last piece holds no slash, and what stands before it ends in one.
proof fn lemma_last_piece(path: Seq<char>)
    ensures
        last_piece_start(path) <= path.len(),
        last_piece_start(path) > 0 ==> path[last_piece_start(path) - 1] == '/',
        forall|i: int| last_piece_start(path) <= i < path.len() ==> path[i] != '/',
    decreases path.len(),
{
    if path.len() != 0 && path.last() != '/' {
        let shorter = path.drop_last();
        lemma_last_piece(shorter);
        assert forall|i: int| last_piece_start(path) <= i < path.len() implies path[i] != '/' by {
            if i < shorter.len() {
                assert(path[i] == shorter[i]);
            }
        }
    }
}

/// `n` is where the last piece starts, as soon as no slash stands behind it.
proof fn lemma_last_piece_unique(path: Seq<char>, n: int)
    requires
        0 <= n <= path.len(),
        n > 0 ==> path[n - 1] == '/',
        forall|i: int| n <= i < path.len() ==> path[i] != '/',
    ensures
        last_piece_start(path) == n,
{
    lemma_last_piece(path);
    let m: int = last_piece_start(path) as int;
    if m < n {
        assert(path[n - 1] != '/');
    } else if n < m {
        assert(path[m - 1] != '/');
    }
}

/// Whether a change of the file at `path` matters to the child server.
///
/// Every file does, but for installed packages, the state of the version control system, and
/// files named `swagger-initializer.js`. Components are separated by slashes.
pub open spec fn relevant(path: Seq<char>) -> bool {
    &&& last_component(path) != Some("swagger-initializer.js"@)
    &&& !crate::text::occurs(path, "/node_modules/"@)
    &&& !crate::text::occurs(path, "/.jj/repo/"@)
    &&& !crate::text::occurs(path, "/.jj/working_copy/"@)
}

/// Whether a dot stands in `name` anywhere but at its start.
pub open spec fn dot_inside(name: Seq<char>) -> bool {
    exists|i: int| 1 <= i < name.len() && name[i] == '.'
}

/// Whether the file name at the end of a path has an extension: a dot anywhere but at its start.
/// A path that ends in `..` names no file.
pub open spec fn has_extension(path: Seq<char>) -> bool {
    match last_component(path) {
        Some(name) => name != seq!['.', '.'] && dot_inside(name),
        None => false,
    }
}

/// Where the last component stands in a path.
fn find_last_component(path: &Vec<char>) -> (r: Option<(usize, usize)>)
    ensures
        match r {
            Some((start, end)) => start <= end <= path@.len() && last_component(path@) == Some(
                path@.subrange(start as int, end as int),
            ),
            None => last_component(path@) is None,
        },
{
    let mut end: usize = path.len();
    assert(path@.take(end as int) =~= path@);
    loop
        invariant
            end <= path@.len(),
            last_component(path@) == last_component(path@.take(end as int)),
        decreases end,
    {
        let ghost prefix = path@.take(end as int);
        let mut start: usize = end;
        while start > 0 && path[start - 1] != '/'
            invariant
                start <= end <= path@.len(),
                prefix == path@.take(end as int),
                forall|i: int| start <= i < end ==> prefix[i] != '/',
            decreases start,
        {
            start = start - 1;
        }
        proof {
            lemma_last_piece_unique(prefix, start as int);
            assert(prefix.skip(start as int) =~= path@.subrange(start as int, end as int));
        }
        let ghost piece = path@.subrange(start as int, end as int);
        let n: usize = end - start;
        if n != 0 && !(n == 1 && path[start] == '.') {
            assert(piece != seq!['.']) by {
                if piece == seq!['.'] {
                    assert(piece[0] == path@[start as int]);
                }
            }
            return Some((start, end));
        }
        assert(n == 1 ==> piece =~= seq!['.']);
        if start == 0 {
            return None;
        }
        assert(prefix.take(start - 1) =~= path@.take(start - 1));
        end = start - 1;
    }
}

/// Whether a change of the file at `path` matters to the child server.
pub fn is_relevant_path(path: &str) -> (r: bool)
    ensures
        r == relevant(path@),
{
    let chars: Vec<char> = chars_of(path);
    if let Some((start, end)) = find_last_component(&chars) {
        if same_chars(&chars, start, end, &chars_of("swagger-initializer.js")) {
            return false;
        }
    }
    !contains(&chars, &chars_of("/node_modules/")) && !contains(&chars, &chars_of("/.jj/repo/"))
        && !contains(&chars, &chars_of("/.jj/working_copy/"))
}

/// Whether the file name at the end of `path` has an extension.
pub fn path_has_extension(path: &str) -> (r: bool)
    ensures
        r == has_extension(path@),
{
    let chars: Vec<char> = chars_of(path);
    let (start, end) = match find_last_component(&chars) {
        Some(found) => found,
        None => {
            return false;
        },
    };
    let ghost name = path@.subrange(start as int, end as int);
    if start == end {
        return false;
    }
    if end - start == 2 && chars[start] == '.' && chars[start + 1] == '.' {
        assert(name =~= seq!['.', '.']);
        return false;
    }
    assert(name != seq!['.', '.']) by {
        if name == seq!['.', '.'] {
            assert(name[0] == chars@[start as int] && name[1] == chars@[start + 1]);
        }
    }
    let mut at: usize = start + 1;
    while at < end && chars[at] != '.'
        invariant
            start < at <= end <= chars@.len(),
            chars@ == path@,
            name == path@.subrange(start as int, end as int),
            forall|i: int| 1 <= i < at - start ==> name[i] != '.',
        decreases end - at,
    {
        at = at + 1;
    }
    if at < end {
        assert(name[at - start] == '.');
        assert(dot_inside(name));
        return true;
    }
    assert(!dot_inside(name));
    false
}

/// What an event tells.
#[derive(Debug, Clone, Copy, PartialEq, Eq, Structural)]
pub enum EventKind {
    /// Something happened, it is not known what.
    Any,
    /// Something was opened, read or closed.
    Access,
    /// Something was created.
    Create,
    /// Contents, a name or attributes changed.
    Modify,
    /// Something was removed.
    Remove,
    /// Something about the watching itself.
    Other,
}

/// A path that an event names.
#[derive(Debug, PartialEq, Eq)]
pub struct EventPath {
    /// The path, with a replacement character for whatever in it is no text.
    pub text: String,
    /// Whether it leads, or led, to a directory.
    pub directory: bool,
}

/// Whether an event of this kind can be one of a change.
pub open spec fn tells_of_change(kind: EventKind) -> bool {
    kind != EventKind::Access && kind != EventKind::Other
}

/// Whether what an event tells of `path` matters to the child server.
///
/// A change of a file does. Of what has no extension nothing else does: neither that a directory
/// was opened or changed, nor that a file was opened.
pub open spec fn relevant_change(kind: EventKind, path: EventPath) -> bool {
    relevant(path.text@) && (has_extension(path.text@) || (tells_of_change(kind)
        && !path.directory))
}

/// Whether an event matters to the child server: it does as soon as one of its paths does, and
/// where it names none.
pub open spec fn event_matters(kind: EventKind, paths: Seq<EventPath>) -> bool {
    paths.len() == 0 || exists|i: int|
        0 <= i < paths.len() && relevant_change(kind, #[trigger] paths[i])
}

/// Whether what an event tells of `path` matters to the child server.
pub fn is_relevant_change(kind: EventKind, path: &EventPath) -> (r: bool)
    ensures
        r == relevant_change(kind, *path),
{
    let change: bool = match kind {
        EventKind::Access | EventKind::Other => false,
        _ => true,
    };
    is_relevant_path(path.text.as_str()) && ((change && !path.directory) || path_has_extension(
        path.text.as_str(),
    ))
}

/// Whether an event matters to the child server.
pub fn is_relevant_event(kind: EventKind, paths: &Vec<EventPath>) -> (r: bool)
    ensures
        r == event_matters(kind, paths@),
{
    let mut i: usize = 0;
    while i < paths.len()
        invariant
            i <= paths@.len(),
            forall|j: int| 0 <= j < i ==> !relevant_change(kind, #[trigger] paths@[j]),
        decreases paths.len() - i,
    {
        if is_relevant_change(kind, &paths[i]) {
            assert(relevant_change(kind, paths@[i as int]));
            return true;
        }
        i = i + 1;
    }
    paths.len() == 0
}

/// A change of any file matters, but for the files that are left out by name, whatever else the
/// event names.
pub proof fn changed_files_matter(kind: EventKind, paths: Seq<EventPath>, i: int)
    requires
        0 <= i < paths.len(),
        tells_of_change(kind),
        !paths[i].directory,
        relevant(paths[i].text@),
    ensures
        event_matters(kind, paths),
{
    assert(relevant_change(kind, paths[i]));
}

/// An event that only tells of directories, or of no change, does not matter where nothing that it
/// names has an extension.
pub proof fn unchanged_files_do_not_matter(kind: EventKind, paths: Seq<EventPath>)
    requires
        paths.len() > 0,
        forall|i: int|
            0 <= i < paths.len() ==> !has_extension((#[trigger] paths[i]).text@) && (
            paths[i].directory || !tells_of_change(kind)),
    ensures
        !event_matters(kind, paths),
{
    assert forall|i: int| 0 <= i < paths.len() implies !relevant_change(
        kind,
        #[trigger] paths[i],
    ) by {
        assert(!has_extension(paths[i].text@));
    }
}

/// No change below an installed package matters, whatever stands before and behind.
pub proof fn packages_are_ignored(before: Seq<char>, behind: Seq<char>)
    ensures
        !relevant(before + "/node_modules/"@ + behind),
{
    lemma_occurs_between(before, "/node_modules/"@, behind);
}

/// No change of the version control system's own state matters.
pub proof fn version_control_is_ignored(before: Seq<char>, behind: Seq<char>)
    ensures
        !relevant(before + "/.jj/repo/"@ + behind),
        !relevant(before + "/.jj/working_copy/"@ + behind),
{
    lemma_occurs_between(before, "/.jj/repo/"@, behind);
    lemma_occurs_between(before, "/.jj/working_copy/"@, behind);
}

proof fn lemma_occurs_between(before: Seq<char>, needle: Seq<char>, behind: Seq<char>)
    ensures
        crate::text::occurs(before + needle + behind, needle),
{
    let hay = before + needle + behind;
    let at: int = before.len() as int;
    assert(hay.subrange(at, at + needle.len()) =~= needle);
    assert(crate::text::occurs_at(hay, needle, at));
}

/// The last component of a path is what stands behind its last slash. Slashes at the end do not
/// count, nor do components that are a single dot.
pub proof fn last_component_is_the_name(dir: Seq<char>, name: Seq<char>)
    requires
        name.len() > 0,
        name != seq!['.'],
        forall|i: int| 0 <= i < name.len() ==> name[i] != '/',
    ensures
        last_component(name) == Some(name),
        last_component(dir + seq!['/'] + name) == Some(name),
{
    assert(name.skip(0) =~= name);
    lemma_last_piece_unique(name, 0);
    let path = dir + seq!['/'] + name;
    let n: int = dir.len() as int + 1;
    assert forall|i: int| n <= i < path.len() implies path[i] != '/' by {
        assert(path[i] == name[i - n]);
    }
    lemma_last_piece_unique(path, n);
    assert(path.skip(n) =~= name);
}

/// A slash or a dot component at the end of a path changes nothing, and alone leads nowhere.
pub proof fn endings_do_not_count(path: Seq<char>)
    ensures
        last_component(path + seq!['/']) == last_component(path),
        last_component(path + seq!['/', '.']) == last_component(path),
        last_component(Seq::<char>::empty()) is None,
        last_component(seq!['.']) is None,
{
    let n: int = path.len() as int + 1;
    let slash = path + seq!['/'];
    lemma_last_piece_unique(slash, n);
    assert(slash.skip(n) =~= Seq::<char>::empty());
    assert(slash.take(n - 1) =~= path);
    let dot = path + seq!['/', '.'];
    lemma_last_piece_unique(dot, n);
    assert(dot.skip(n) =~= seq!['.']);
    assert(dot.take(n - 1) =~= path);
    lemma_last_piece_unique(Seq::<char>::empty(), 0);
    assert(Seq::<char>::empty().skip(0) =~= Seq::<char>::empty());
    lemma_last_piece_unique(seq!['.'], 0);
    assert(seq!['.'].skip(0) =~= seq!['.']);
}

/// A file name has an extension exactly where it is something, a dot, and something more, where
/// only the latter may be empty. The parent directory has none.
pub proof fn extensions_stand_behind_a_dot(path: Seq<char>)
    ensures
        has_extension(path) <==> exists|stem: Seq<char>, extension: Seq<char>|
            stem.len() > 0 && last_component(path) == Some(
                #[trigger] stem.add(seq!['.']).add(extension),
            ) && stem.add(seq!['.']).add(extension) != seq!['.', '.'],
{
    if has_extension(path) {
        let name = last_component(path)->0;
        assert(dot_inside(name));
        let i: int = choose|i: int| 1 <= i < name.len() && name[i] == '.';
        let stem = name.take(i);
        let extension = name.skip(i + 1);
        assert(name =~= stem.add(seq!['.']).add(extension));
    }
    if exists|stem: Seq<char>, extension: Seq<char>|
        stem.len() > 0 && last_component(path) == Some(
            #[trigger] stem.add(seq!['.']).add(extension),
        ) && stem.add(seq!['.']).add(extension) != seq!['.', '.'] {
        let (stem, extension) = choose|stem: Seq<char>, extension: Seq<char>|
            stem.len() > 0 && last_component(path) == Some(
                #[trigger] stem.add(seq!['.']).add(extension),
            ) && stem.add(seq!['.']).add(extension) != seq!['.', '.'];
        let name = stem.add(seq!['.']).add(extension);
        assert(name[stem.len() as int] == '.');
        assert(dot_inside(name));
    }
}

/// A path is left out for one of four reasons and for no other: what it is called, or one of the
/// three directories that it stands below.
pub proof fn paths_are_left_out_for_a_reason(path: Seq<char>)
    ensures
        !relevant(path) <==> {
            ||| last_component(path) == Some("swagger-initializer.js"@)
            ||| exists|before: Seq<char>, behind: Seq<char>|
                path == #[trigger] before.add("/node_modules/"@).add(behind)
            ||| exists|before: Seq<char>, behind: Seq<char>|
                path == #[trigger] before.add("/.jj/repo/"@).add(behind)
            ||| exists|before: Seq<char>, behind: Seq<char>|
                path == #[trigger] before.add("/.jj/working_copy/"@).add(behind)
        },
{
    crate::text::occurring_is_standing_between(path, "/node_modules/"@);
    crate::text::occurring_is_standing_between(path, "/.jj/repo/"@);
    crate::text::occurring_is_standing_between(path, "/.jj/working_copy/"@);
}

/// Whatever file is created, changed or removed, and whatever else the event names, the event
/// matters, unless the file stands below one of three directories or has one name.
pub proof fn every_other_file_matters(kind: EventKind, paths: Seq<EventPath>, i: int)
    requires
        0 <= i < paths.len(),
        kind == EventKind::Any || kind == EventKind::Create || kind == EventKind::Modify || kind
            == EventKind::Remove,
        !paths[i].directory,
        last_component(paths[i].text@) != Some("swagger-initializer.js"@),
        forall|before: Seq<char>, behind: Seq<char>|
            paths[i].text@ != #[trigger] before.add("/node_modules/"@).add(behind),
        forall|before: Seq<char>, behind: Seq<char>|
            paths[i].text@ != #[trigger] before.add("/.jj/repo/"@).add(behind),
        forall|before: Seq<char>, behind: Seq<char>|
            paths[i].text@ != #[trigger] before.add("/.jj/working_copy/"@).add(behind),
    ensures
        event_matters(kind, paths),
{
    paths_are_left_out_for_a_reason(paths[i].text@);
    assert(relevant_change(kind, paths[i]));
}

/// What has an extension matters whatever the event tells of it, with the same exceptions.
pub proof fn extensions_matter_always(
    kind: EventKind,
    paths: Seq<EventPath>,
    i: int,
    stem: Seq<char>,
    extension: Seq<char>,
)
    requires
        0 <= i < paths.len(),
        stem.len() > 0,
        last_component(paths[i].text@) == Some(stem.add(seq!['.']).add(extension)),
        stem.add(seq!['.']).add(extension) != seq!['.', '.'],
        last_component(paths[i].text@) != Some("swagger-initializer.js"@),
        forall|before: Seq<char>, behind: Seq<char>|
            paths[i].text@ != #[trigger] before.add("/node_modules/"@).add(behind),
        forall|before: Seq<char>, behind: Seq<char>|
            paths[i].text@ != #[trigger] before.add("/.jj/repo/"@).add(behind),
        forall|before: Seq<char>, behind: Seq<char>|
            paths[i].text@ != #[trigger] before.add("/.jj/working_copy/"@).add(behind),
    ensures
        event_matters(kind, paths),
{
    paths_are_left_out_for_a_reason(paths[i].text@);
    extensions_stand_behind_a_dot(paths[i].text@);
    assert(relevant_change(kind, paths[i]));
}

/// An event that names only what is left out does not matter, whatever it tells. One that names
/// nothing does.
pub proof fn left_out_paths_never_matter(kind: EventKind, paths: Seq<EventPath>)
    requires
        forall|i: int|
            0 <= i < paths.len() ==> {
                ||| last_component((#[trigger] paths[i]).text@) == Some(
                    "swagger-initializer.js"@,
                )
                ||| exists|before: Seq<char>, behind: Seq<char>|
                    paths[i].text@ == #[trigger] before.add("/node_modules/"@).add(behind)
                ||| exists|before: Seq<char>, behind: Seq<char>|
                    paths[i].text@ == #[trigger] before.add("/.jj/repo/"@).add(behind)
                ||| exists|before: Seq<char>, behind: Seq<char>|
                    paths[i].text@ == #[trigger] before.add("/.jj/working_copy/"@).add(behind)
            },
    ensures
        event_matters(kind, paths) <==> paths.len() == 0,
{
    assert forall|i: int| 0 <= i < paths.len() implies !relevant_change(
        kind,
        #[trigger] paths[i],
    ) by {
        paths_are_left_out_for_a_reason(paths[i].text@);
    }
}

/// Of what has no extension, openings and the events about the watching itself do not matter, and
/// of a directory nothing does.
pub proof fn mere_openings_do_not_matter(kind: EventKind, paths: Seq<EventPath>)
    requires
        paths.len() > 0,
        forall|i: int|
            0 <= i < paths.len() ==> (#[trigger] paths[i]).directory || kind == EventKind::Access
                || kind == EventKind::Other,
        forall|i: int| 0 <= i < paths.len() ==> !has_extension((#[trigger] paths[i]).text@),
    ensures
        !event_matters(kind, paths),
{
    assert forall|i: int| 0 <= i < paths.len() implies !relevant_change(
        kind,
        #[trigger] paths[i],
    ) by {
        assert(!has_extension(paths[i].text@));
    }
}

/// The paths of an event are judged one by one: it matters exactly where it names none, or where
/// an event of the same kind on one of its paths alone would.
pub proof fn paths_are_judged_one_by_one(kind: EventKind, paths: Seq<EventPath>)
    ensures
        event_matters(kind, paths) <==> paths.len() == 0 || exists|i: int|
            0 <= i < paths.len() && event_matters(kind, seq![#[trigger] paths[i]]),
        forall|i: int|
            0 <= i < paths.len() ==> relevant_change(kind, #[trigger] paths[i]) == event_matters(
                kind,
                seq![paths[i]],
            ),
{
    assert forall|i: int| 0 <= i < paths.len() implies relevant_change(kind, #[trigger] paths[i])
        == event_matters(kind, seq![paths[i]]) by {
        assert(seq![paths[i]][0] == paths[i]);
    }
}

} // verus!
