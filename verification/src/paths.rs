//! Paths as text, read as the operating system reads them. On Windows a path may
//! begin with a drive letter, with a server and a share, with a device, or with the
//! mark `\\?\` of a path that is taken word by word.
use crate::platform::Platform;
use crate::text::{
    cat, cat3, chars_of, filled_parts, join, join_texts, keep_filled, lemma_filled_parts,
    lemma_join_lacks, lemma_split_joined, lemma_split_lacks, lemma_split_none, push_text, split,
    split_text, string_of, texts,
};
use vstd::prelude::*;

verus! {

// ---------------------------------------------------------------------------
// Meaning
// ---------------------------------------------------------------------------
/// `c` separates the parts of a path.
pub open spec fn is_separator(c: char, platform: Platform) -> bool {
    c == '/' || (platform == Platform::Windows && c == '\\')
}

/// `c` separates the parts of a path. In a path that is taken word by word the
/// slash does not.
pub open spec fn divides(c: char, platform: Platform, verbatim: bool) -> bool {
    is_separator(c, platform) && !(verbatim && c == '/')
}

/// The separator that is written.
pub open spec fn separator(platform: Platform) -> Seq<char> {
    if platform == Platform::Windows {
        "\\"@
    } else {
        "/"@
    }
}

pub open spec fn is_letter(c: char) -> bool {
    'a' <= c <= 'z' || 'A' <= c <= 'Z'
}

/// The path begins with a drive letter and its colon.
pub open spec fn has_drive(path: Seq<char>) -> bool {
    path.len() >= 2 && is_letter(path[0]) && path[1] == ':'
}

/// The path begins with `\\?\`, in backslashes: it is taken word by word.
pub open spec fn is_verbatim(path: Seq<char>, platform: Platform) -> bool {
    &&& platform == Platform::Windows
    &&& path.len() >= 4
    &&& path[0] == '\\'
    &&& path[1] == '\\'
    &&& path[2] == '?'
    &&& path[3] == '\\'
}

/// How long the first part of a path on Windows is.
pub open spec fn part_len(path: Seq<char>, verbatim: bool) -> int
    decreases path.len(),
{
    if path.len() == 0 || divides(path[0], Platform::Windows, verbatim) {
        0
    } else {
        1 + part_len(path.drop_first(), verbatim)
    }
}

/// How long the second part of a path on Windows is.
pub open spec fn second_len(path: Seq<char>, verbatim: bool) -> int {
    let first = part_len(path, verbatim);
    if first < path.len() {
        part_len(path.skip(first + 1), verbatim)
    } else {
        0
    }
}

/// How long the names of a server and a share are.
pub open spec fn share_len(path: Seq<char>, verbatim: bool) -> int {
    let second = second_len(path, verbatim);
    part_len(path, verbatim) + if second > 0 {
        1 + second
    } else {
        0
    }
}

/// How long the prefix of a path is that follows `\\?\`: the word `UNC` with a
/// server and a share, a drive, or any first part.
pub open spec fn verbatim_len(path: Seq<char>) -> int {
    if path.len() >= 4 && path[0] == 'U' && path[1] == 'N' && path[2] == 'C' && is_separator(
        path[3],
        Platform::Windows,
    ) {
        4 + share_len(path.skip(4), true)
    } else if has_drive(path) && (path.len() == 2 || is_separator(path[2], Platform::Windows)) {
        2
    } else {
        part_len(path, true)
    }
}

/// How long that is with which a path on Windows may begin: `C:`,
/// `\\server\share`, `\\.\device`, or `\\?\` and what belongs to it. There is
/// no such thing on other systems.
pub open spec fn prefix_len(path: Seq<char>, platform: Platform) -> int {
    if platform != Platform::Windows {
        0
    } else if path.len() >= 2 && is_separator(path[0], platform) && is_separator(
        path[1],
        platform,
    ) {
        if is_verbatim(path, platform) {
            4 + verbatim_len(path.skip(4))
        } else if path.len() >= 4 && path[2] == '.' && is_separator(path[3], platform) {
            4 + part_len(path.skip(4), false)
        } else if part_len(path.skip(2), false) > 0 && second_len(path.skip(2), false) > 0 {
            2 + share_len(path.skip(2), false)
        } else {
            0
        }
    } else if has_drive(path) {
        2
    } else {
        0
    }
}

/// The path is nothing but a drive.
pub open spec fn is_drive(path: Seq<char>, platform: Platform) -> bool {
    platform == Platform::Windows && has_drive(path) && path.len() == 2
}

/// The path begins with a separator.
pub open spec fn is_rooted(path: Seq<char>, platform: Platform) -> bool {
    path.len() > 0 && is_separator(path[0], platform)
}

/// The parts of a path that is taken word by word, behind its prefix.
pub open spec fn verbatim_parts(path: Seq<char>) -> Seq<Seq<char>> {
    let k = prefix_len(path, Platform::Windows);
    if k < path.len() {
        filled_parts(split(path.skip(k + 1), '\\'))
    } else {
        Seq::empty()
    }
}

/// A text with its slashes turned into backslashes.
pub open spec fn backslashed(path: Seq<char>) -> Seq<char> {
    path.map_values(
        |c: char|
            if c == '/' {
                '\\'
            } else {
                c
            },
    )
}

/// The part stands for a directory by its place, not by a name.
pub open spec fn is_dots(part: Seq<char>) -> bool {
    part == seq!['.'] || part == seq!['.', '.']
}

/// One step from the directory that `parts` leads to.
pub open spec fn stepped(parts: Seq<Seq<char>>, step: Seq<char>) -> Seq<Seq<char>> {
    if step.len() == 0 || step == seq!['.'] {
        parts
    } else if step == seq!['.', '.'] {
        if parts.len() > 0 && !is_dots(parts.last()) {
            parts.drop_last()
        } else {
            parts
        }
    } else {
        parts.push(step)
    }
}

/// All steps, one after the other.
pub open spec fn walked(parts: Seq<Seq<char>>, steps: Seq<Seq<char>>) -> Seq<Seq<char>>
    decreases steps.len(),
{
    if steps.len() == 0 {
        parts
    } else {
        stepped(walked(parts, steps.drop_last()), steps.last())
    }
}

/// `name` inside `dir`, which is taken word by word: no dots of the name are left.
pub open spec fn verbatim_joined(dir: Seq<char>, name: Seq<char>) -> Seq<char> {
    let k = prefix_len(dir, Platform::Windows);
    let rooted = is_rooted(name, Platform::Windows);
    let start = if rooted {
        Seq::empty()
    } else {
        verbatim_parts(dir)
    };
    let parts = walked(start, split(backslashed(name), '\\'));
    if rooted || k < dir.len() || parts.len() > 0 {
        dir.take(k) + "\\"@ + join(parts, "\\"@)
    } else {
        dir.take(k)
    }
}

/// `name` inside `dir`. A name with a prefix, or with a root, does not depend on
/// `dir` beyond its prefix.
pub open spec fn joined(dir: Seq<char>, name: Seq<char>, platform: Platform) -> Seq<char> {
    if prefix_len(name, platform) > 0 {
        name
    } else if is_verbatim(dir, platform) && name.len() > 0 {
        verbatim_joined(dir, name)
    } else if is_rooted(name, platform) {
        dir.take(prefix_len(dir, platform)) + name
    } else if dir.len() == 0 || is_separator(dir.last(), platform) || is_drive(dir, platform) {
        dir + name
    } else {
        dir + separator(platform) + name
    }
}

/// A path without the separators at its end, and without the dots that stand
/// for the directory itself there, which no path has that is taken word by word.
pub open spec fn without_tail(path: Seq<char>, platform: Platform, verbatim: bool) -> Seq<char>
    decreases path.len(),
{
    if path.len() == 0 {
        path
    } else if divides(path.last(), platform, verbatim) {
        without_tail(path.drop_last(), platform, verbatim)
    } else if !verbatim && path.last() == '.' && path.len() >= 2 && is_separator(
        path[path.len() - 2],
        platform,
    ) {
        without_tail(path.drop_last(), platform, verbatim)
    } else {
        path
    }
}

/// What follows the last separator.
pub open spec fn last_part(path: Seq<char>, platform: Platform, verbatim: bool) -> Seq<char>
    decreases path.len(),
{
    if path.len() == 0 || divides(path.last(), platform, verbatim) {
        Seq::empty()
    } else {
        last_part(path.drop_last(), platform, verbatim).push(path.last())
    }
}

/// The path behind its prefix. The separator that a path begins with there, if it is
/// taken word by word, is read as a backslash.
pub open spec fn inside(path: Seq<char>, platform: Platform) -> Seq<char> {
    let rest = path.skip(prefix_len(path, platform));
    if is_verbatim(path, platform) && rest.len() > 0 {
        rest.update(0, '\\')
    } else {
        rest
    }
}

/// The path behind the prefix, without its tail.
pub open spec fn body(path: Seq<char>, platform: Platform) -> Seq<char> {
    without_tail(inside(path, platform), platform, is_verbatim(path, platform))
}

/// The name of the file, if the path ends in one.
pub open spec fn file_name_of(path: Seq<char>, platform: Platform) -> Option<Seq<char>> {
    let part = last_part(body(path, platform), platform, is_verbatim(path, platform));
    if part.len() == 0 || is_dots(part) {
        None
    } else {
        Some(part)
    }
}

/// The place of the last dot, or -1.
pub open spec fn last_dot(name: Seq<char>) -> int
    decreases name.len(),
{
    if name.len() == 0 {
        -1
    } else if name.last() == '.' {
        name.len() - 1
    } else {
        last_dot(name.drop_last())
    }
}

/// What stands before the last dot of the file's name, unless the name begins
/// with its only dot.
pub open spec fn stem_of(path: Seq<char>, platform: Platform) -> Seq<char> {
    match file_name_of(path, platform) {
        Some(name) => if last_dot(name) <= 0 {
            name
        } else {
            name.take(last_dot(name))
        },
        None => Seq::empty(),
    }
}

/// What stands behind the last dot of the file's name, unless the name begins
/// with its only dot.
pub open spec fn extension_of(path: Seq<char>, platform: Platform) -> Seq<char> {
    match file_name_of(path, platform) {
        Some(name) => if last_dot(name) <= 0 {
            Seq::empty()
        } else {
            name.skip(last_dot(name) + 1)
        },
        None => Seq::empty(),
    }
}

/// The directory of a file: the path without the file's name.
pub open spec fn directory_of(path: Seq<char>, platform: Platform) -> Seq<char> {
    let verbatim = is_verbatim(path, platform);
    let all = body(path, platform);
    let rest = all.take(all.len() - last_part(all, platform, verbatim).len());
    let dir = without_tail(rest, platform, verbatim);
    path.take(
        prefix_len(path, platform) + if dir.len() == 0 && rest.len() > 0 {
            1
        } else {
            dir.len() as int
        },
    )
}

/// The path with another file name.
pub open spec fn renamed(path: Seq<char>, name: Seq<char>, platform: Platform) -> Seq<char> {
    match file_name_of(path, platform) {
        Some(_) => joined(directory_of(path, platform), name, platform),
        None => joined(path, name, platform),
    }
}

/// The path of what is cut out of a file: `mark` stands behind the stem.
pub open spec fn marked(path: Seq<char>, mark: Seq<char>, platform: Platform) -> Seq<char> {
    renamed(
        path,
        stem_of(path, platform) + mark + "."@ + extension_of(path, platform),
        platform,
    )
}

// ---------------------------------------------------------------------------
// Laws
// ---------------------------------------------------------------------------
proof fn lemma_last_part(path: Seq<char>, name: Seq<char>, platform: Platform, verbatim: bool)
    requires
        forall|i: int| 0 <= i < name.len() ==> !divides(name[i], platform, verbatim),
        path.len() == 0 || divides(path.last(), platform, verbatim),
    ensures
        last_part(path + name, platform, verbatim) == name,
    decreases name.len(),
{
    if name.len() == 0 {
        assert(path + name == path);
    } else {
        assert((path + name).drop_last() == path + name.drop_last());
        lemma_last_part(path, name.drop_last(), platform, verbatim);
        assert(name == name.drop_last().push(name.last()));
    }
}

/// The first part ends at the first separator, or at the end.
proof fn lemma_part_len(path: Seq<char>, verbatim: bool)
    ensures
        0 <= part_len(path, verbatim) <= path.len(),
        forall|i: int|
            0 <= i < part_len(path, verbatim) ==> !divides(path[i], Platform::Windows, verbatim),
        part_len(path, verbatim) < path.len() ==> divides(
            path[part_len(path, verbatim)],
            Platform::Windows,
            verbatim,
        ),
    decreases path.len(),
{
    if path.len() > 0 && !divides(path[0], Platform::Windows, verbatim) {
        let rest = path.drop_first();
        lemma_part_len(rest, verbatim);
        assert forall|i: int| 0 <= i < part_len(path, verbatim) implies !divides(
            path[i],
            Platform::Windows,
            verbatim,
        ) by {
            if i > 0 {
                assert(path[i] == rest[i - 1]);
            }
        }
    }
}

/// Where there is a separator and none before it, the first part ends.
proof fn lemma_part_len_is(path: Seq<char>, verbatim: bool, n: int)
    requires
        0 <= n < path.len(),
        forall|i: int| 0 <= i < n ==> !divides(path[i], Platform::Windows, verbatim),
        divides(path[n], Platform::Windows, verbatim),
    ensures
        part_len(path, verbatim) == n,
{
    lemma_part_len(path, verbatim);
    let k = part_len(path, verbatim);
    if k < n {
        assert(!divides(path[k], Platform::Windows, verbatim));
    }
}

proof fn lemma_share_len(path: Seq<char>, verbatim: bool)
    ensures
        0 <= part_len(path, verbatim) <= share_len(path, verbatim) <= path.len(),
        share_len(path, verbatim) < path.len() ==> divides(
            path[share_len(path, verbatim)],
            Platform::Windows,
            verbatim,
        ),
{
    lemma_part_len(path, verbatim);
    let first = part_len(path, verbatim);
    if first < path.len() {
        let rest = path.skip(first + 1);
        lemma_part_len(rest, verbatim);
        let second = part_len(rest, verbatim);
        assert(second < rest.len() ==> rest[second] == path[first + 1 + second]);
    }
}

/// The prefix is a part of the path. One that is taken word by word has a prefix, and
/// a separator behind it.
proof fn lemma_prefix_len(path: Seq<char>, platform: Platform)
    ensures
        0 <= prefix_len(path, platform) <= path.len(),
        is_verbatim(path, platform) ==> {
            let k = prefix_len(path, platform);
            4 <= k && (k < path.len() ==> is_separator(path[k], platform))
        },
{
    if path.len() >= 2 {
        lemma_share_len(path.skip(2), false);
    }
    if path.len() >= 4 {
        let rest = path.skip(4);
        lemma_part_len(rest, false);
        lemma_part_len(rest, true);
        assert(forall|i: int| 0 <= i < rest.len() ==> rest[i] == path[i + 4]);
        if rest.len() >= 4 {
            lemma_share_len(rest.skip(4), true);
            assert(forall|i: int| 0 <= i < rest.len() - 4 ==> rest.skip(4)[i] == path[i + 8]);
        }
    }
}

/// The prefix of a path that is taken word by word does not depend on what follows
/// the separator behind it, if a name does.
proof fn lemma_prefix_stays(path: Seq<char>, other: Seq<char>)
    requires
        is_verbatim(path, Platform::Windows),
        prefix_len(path, Platform::Windows) + 1 < path.len(),
        prefix_len(path, Platform::Windows) < other.len(),
        path.take(prefix_len(path, Platform::Windows) + 1) == other.take(
            prefix_len(path, Platform::Windows) + 1,
        ),
        path[prefix_len(path, Platform::Windows)] == '\\',
        path[prefix_len(path, Platform::Windows) + 1] != '\\',
    ensures
        is_verbatim(other, Platform::Windows),
        prefix_len(other, Platform::Windows) == prefix_len(path, Platform::Windows),
{
    let k = prefix_len(path, Platform::Windows);
    lemma_prefix_len(path, Platform::Windows);
    assert forall|i: int| 0 <= i <= k implies #[trigger] path[i] == other[i] by {
        assert(path[i] == path.take(k + 1)[i]);
        assert(other[i] == other.take(k + 1)[i]);
    }
    let p = path.skip(4);
    let q = other.skip(4);
    let m = k - 4;
    assert forall|i: int| 0 <= i <= m implies #[trigger] p[i] == q[i] by {
        assert(path[i + 4] == other[i + 4]);
    }
    assert(p[m] == '\\');
    if p.len() >= 4 && p[0] == 'U' && p[1] == 'N' && p[2] == 'C' && is_separator(
        p[3],
        Platform::Windows,
    ) {
        let ps = p.skip(4);
        let qs = q.skip(4);
        lemma_share_len(ps, true);
        lemma_part_len(ps, true);
        let first = part_len(ps, true);
        assert(first < ps.len());
        let pn = ps.skip(first + 1);
        lemma_part_len(pn, true);
        let second = part_len(pn, true);
        if second == 0 {
            assert(m == 4 + first);
            assert(pn[0] == path[k + 1]);
        }
        assert(m == 4 + first + 1 + second);
        let qn = qs.skip(first + 1);
        assert forall|i: int| 0 <= i <= first implies ps[i] == qs[i] by {
            assert(p[i + 4] == q[i + 4]);
        }
        assert forall|i: int| 0 <= i <= second implies pn[i] == qn[i] by {
            assert(p[i + 5 + first] == q[i + 5 + first]);
        }
        lemma_part_len_is(qs, true, first);
        lemma_part_len_is(qn, true, second);
    } else if has_drive(p) && (p.len() == 2 || is_separator(p[2], Platform::Windows)) {
        assert(m == 2);
        assert(q[0] == p[0] && q[1] == p[1] && q[2] == p[2]);
    } else {
        lemma_part_len(p, true);
        assert forall|i: int| 0 <= i < m implies !divides(q[i], Platform::Windows, true) by {
            assert(p[i] == q[i]);
        }
        lemma_part_len_is(q, true, m);
        if q.len() >= 4 && q[0] == 'U' && q[1] == 'N' && q[2] == 'C' && is_separator(
            q[3],
            Platform::Windows,
        ) {
            assert(m >= 3);
            assert(p[0] == q[0] && p[1] == q[1] && p[2] == q[2] && p[3] == q[3]);
        }
        if has_drive(q) && (q.len() == 2 || is_separator(q[2], Platform::Windows)) {
            assert(m >= 2);
            assert(p[0] == q[0] && p[1] == q[1] && p[2] == q[2]);
        }
    }
}

proof fn lemma_last_dot(name: Seq<char>, stem: int)
    requires
        0 <= stem < name.len(),
        name[stem] == '.',
        forall|i: int| stem < i < name.len() ==> name[i] != '.',
    ensures
        last_dot(name) == stem,
    decreases name.len(),
{
    if stem < name.len() - 1 {
        lemma_last_dot(name.drop_last(), stem);
    }
}

/// `dir` names a directory, without a tail, and is no drive alone; or it is taken
/// word by word.
pub open spec fn is_plain_dir(dir: Seq<char>, platform: Platform) -> bool {
    ||| is_verbatim(dir, platform)
    ||| {
        &&& dir.len() > 0
        &&& !is_separator(dir.last(), platform)
        &&& dir.len() >= 2 && is_separator(dir[dir.len() - 2], platform) ==> dir.last() != '.'
        &&& !is_drive(dir, platform)
    }
}

/// `name` has no separator, does not end in a dot, and is no drive.
pub open spec fn is_plain_name(name: Seq<char>, platform: Platform) -> bool {
    &&& name.len() > 0
    &&& forall|i: int| 0 <= i < name.len() ==> !is_separator(name[i], platform)
    &&& name.last() != '.'
    &&& prefix_len(name, platform) == 0
}

/// `name` does not become a part of the prefix of `dir`, as a share would behind the
/// name of its server.
pub open spec fn is_beyond_prefix(dir: Seq<char>, name: Seq<char>, platform: Platform) -> bool {
    prefix_len(joined(dir, name, platform), platform) == prefix_len(dir, platform)
}

/// What stands before a plain name inside `dir`.
spec fn lead(dir: Seq<char>, platform: Platform) -> Seq<char> {
    if is_verbatim(dir, platform) {
        let parts = verbatim_parts(dir);
        dir.take(prefix_len(dir, platform)) + "\\"@ + if parts.len() == 0 {
            Seq::empty()
        } else {
            join(parts, "\\"@) + "\\"@
        }
    } else {
        dir + separator(platform)
    }
}

proof fn lemma_plain_join(dir: Seq<char>, name: Seq<char>, platform: Platform)
    requires
        is_plain_dir(dir, platform),
        is_plain_name(name, platform),
    ensures
        joined(dir, name, platform) == lead(dir, platform) + name,
{
    assert(!is_rooted(name, platform));
    if is_verbatim(dir, platform) {
        let parts = verbatim_parts(dir);
        assert forall|i: int| 0 <= i < name.len() implies name[i] != '/' && name[i] != '\\' by {
            assert(!is_separator(name[i], platform));
        }
        assert(backslashed(name) == name);
        lemma_split_none(name, '\\');
        let steps = seq![name];
        assert(steps.drop_last() == Seq::<Seq<char>>::empty());
        assert(steps.last() == name);
        assert(walked(parts, steps.drop_last()) == parts);
        assert(name != seq!['.']);
        assert(name != seq!['.', '.']);
        assert(walked(parts, steps) == parts.push(name));
        assert(parts.push(name).drop_last() == parts);
        assert(joined(dir, name, platform) == lead(dir, platform) + name);
    }
}

/// Joined parts begin as the first of them does and end as the last.
proof fn lemma_join_ends(parts: Seq<Seq<char>>, sep: Seq<char>)
    requires
        parts.len() > 0,
        parts[0].len() > 0,
        parts.last().len() > 0,
    ensures
        join(parts, sep).len() > 0,
        join(parts, sep)[0] == parts[0][0],
        join(parts, sep).last() == parts.last().last(),
    decreases parts.len(),
{
    if parts.len() >= 2 {
        lemma_join_starts(parts.drop_last(), sep);
    }
}

proof fn lemma_join_starts(parts: Seq<Seq<char>>, sep: Seq<char>)
    requires
        parts.len() > 0,
        parts[0].len() > 0,
    ensures
        join(parts, sep).len() > 0,
        join(parts, sep)[0] == parts[0][0],
    decreases parts.len(),
{
    if parts.len() >= 2 {
        lemma_join_starts(parts.drop_last(), sep);
    }
}

proof fn lemma_plain_path(
    dir: Seq<char>,
    name: Seq<char>,
    other: Seq<char>,
    platform: Platform,
)
    requires
        is_plain_dir(dir, platform),
        is_plain_name(name, platform),
        is_plain_name(other, platform),
        is_beyond_prefix(dir, name, platform),
    ensures
        file_name_of(joined(dir, name, platform), platform) == Some(name),
        renamed(joined(dir, name, platform), other, platform) == joined(dir, other, platform),
{
    reveal_strlit("/");
    reveal_strlit("\\");
    let verbatim = is_verbatim(dir, platform);
    let path = joined(dir, name, platform);
    let before = lead(dir, platform);
    let k = prefix_len(dir, platform);
    lemma_plain_join(dir, name, platform);
    lemma_plain_join(dir, other, platform);
    lemma_prefix_len(dir, platform);
    lemma_prefix_len(path, platform);
    assert(is_verbatim(path, platform) == verbatim) by {
        if verbatim {
            assert(forall|i: int| 0 <= i < 4 ==> path[i] == dir[i]);
        } else if is_verbatim(path, platform) {
            assert(4 <= k <= dir.len());
            assert(forall|i: int| 0 <= i < 4 ==> path[i] == dir[i]);
        }
    }
    let rest = before.skip(k);
    assert(before.len() > k);
    assert(rest.last() == before.last());
    assert(divides(rest.last(), platform, verbatim));
    let all = rest + name;
    assert(path.skip(k) == all);
    assert(verbatim ==> all[0] == '\\');
    assert(inside(path, platform) == all) by {
        if verbatim {
            assert(all.update(0, '\\') == all);
        }
    }
    assert(all.last() == name.last());
    assert(!is_separator(name[name.len() - 1], platform));
    assert(without_tail(all, platform, verbatim) == all);
    lemma_last_part(rest, name, platform, verbatim);
    assert(name != seq!['.'] && name != seq!['.', '.']);
    assert(file_name_of(path, platform) == Some(name));
    assert(all.take(all.len() - name.len()) == rest);
    if verbatim {
        lemma_plain_verbatim(dir, name, other, platform);
    } else {
        let inner = dir.skip(k);
        assert(rest == inner + separator(platform));
        assert(rest.drop_last() == inner);
        if inner.len() > 0 {
            assert(inner.last() == dir.last());
            assert(inner.len() >= 2 ==> inner[inner.len() - 2] == dir[dir.len() - 2]);
            assert(without_tail(inner, platform, false) == inner);
            assert(without_tail(rest, platform, false) == inner);
            assert(directory_of(path, platform) == path.take(dir.len() as int));
            assert(directory_of(path, platform) == dir);
        } else {
            assert(without_tail(inner, platform, false) == inner);
            assert(without_tail(rest, platform, false) == inner);
            let home = path.take(k + 1);
            assert(directory_of(path, platform) == home);
            assert(home == dir + separator(platform));
            assert(home.last() == separator(platform)[0]);
            assert(!is_verbatim(home, platform)) by {
                if is_verbatim(home, platform) {
                    assert(forall|i: int| 0 <= i < 4 ==> path[i] == home[i]);
                }
            }
            assert(joined(home, other, platform) == home + other);
        }
    }
}

/// The parts are filled, and no separator stands in them.
proof fn lemma_verbatim_parts(dir: Seq<char>)
    ensures
        forall|i: int|
            0 <= i < verbatim_parts(dir).len() ==> (#[trigger] verbatim_parts(dir)[i]).len() > 0
                && !verbatim_parts(dir)[i].contains('\\'),
{
    let k = prefix_len(dir, Platform::Windows);
    let parts = verbatim_parts(dir);
    if k < dir.len() {
        let pieces = split(dir.skip(k + 1), '\\');
        lemma_split_lacks(dir.skip(k + 1), '\\', '\\');
        lemma_filled_parts(pieces);
        assert forall|i: int| 0 <= i < parts.len() implies (#[trigger] parts[i]).len() > 0
            && !parts[i].contains('\\') by {
            let j = pieces.index_of(parts[i]);
            assert(!pieces[j].contains('\\'));
        }
    }
}

/// Where a file in a directory lies that is taken word by word.
proof fn lemma_verbatim_home(dir: Seq<char>, name: Seq<char>, platform: Platform)
    requires
        is_verbatim(dir, platform),
        is_plain_name(name, platform),
        is_beyond_prefix(dir, name, platform),
        ({
            let k = prefix_len(dir, platform);
            let path = joined(dir, name, platform);
            let rest = lead(dir, platform).skip(k);
            &&& is_verbatim(path, platform)
            &&& body(path, platform) == rest + name
            &&& last_part(rest + name, platform, true) == name
        }),
    ensures
        ({
            let k = prefix_len(dir, platform);
            let path = joined(dir, name, platform);
            let parts = verbatim_parts(dir);
            &&& directory_of(path, platform) == dir.take(k) + "\\"@ + join(parts, "\\"@)
            &&& k + 1 < path.len()
            &&& path.take(k + 1) == dir.take(k) + "\\"@
            &&& path[k + 1] != '\\'
        }),
{
    reveal_strlit("\\");
    let k = prefix_len(dir, platform);
    let path = joined(dir, name, platform);
    let rest = lead(dir, platform).skip(k);
    let parts = verbatim_parts(dir);
    let sep = "\\"@;
    lemma_plain_join(dir, name, platform);
    lemma_prefix_len(dir, platform);
    lemma_verbatim_parts(dir);
    let home = dir.take(k) + sep + join(parts, sep);
    assert((rest + name).take((rest + name).len() - name.len()) == rest);
    if parts.len() == 0 {
        assert(rest == sep);
        assert(rest.drop_last() == Seq::<char>::empty());
        assert(without_tail(rest.drop_last(), platform, true) == rest.drop_last());
        assert(without_tail(rest, platform, true) == Seq::<char>::empty());
        assert(directory_of(path, platform) == path.take(k + 1));
        assert(path.take(k + 1) == home);
        assert(path[k + 1] == name[0]);
        assert(!is_separator(name[0], platform));
    } else {
        let inner = join(parts, sep);
        assert(parts.last() == parts[parts.len() - 1]);
        lemma_join_ends(parts, sep);
        assert(rest == sep + inner + sep);
        assert(rest.drop_last() == sep + inner);
        assert((sep + inner).last() == parts.last().last());
        assert(parts.last().contains(parts.last().last()));
        assert(without_tail(sep + inner, platform, true) == sep + inner);
        assert(without_tail(rest, platform, true) == sep + inner);
        assert(directory_of(path, platform) == path.take(k + 1 + inner.len()));
        assert(path.take(k + 1 + inner.len()) == home);
        assert(path[k + 1] == inner[0]);
        assert(parts[0].contains(parts[0][0]));
    }
    assert(path.take(k + 1) == dir.take(k) + sep);
}

/// A file in a directory that is taken word by word is renamed within it.
proof fn lemma_plain_verbatim(
    dir: Seq<char>,
    name: Seq<char>,
    other: Seq<char>,
    platform: Platform,
)
    requires
        is_verbatim(dir, platform),
        is_plain_name(name, platform),
        is_plain_name(other, platform),
        is_beyond_prefix(dir, name, platform),
        ({
            let k = prefix_len(dir, platform);
            let path = joined(dir, name, platform);
            let rest = lead(dir, platform).skip(k);
            &&& is_verbatim(path, platform)
            &&& body(path, platform) == rest + name
            &&& last_part(rest + name, platform, true) == name
        }),
    ensures
        joined(directory_of(joined(dir, name, platform), platform), other, platform) == joined(
            dir,
            other,
            platform,
        ),
{
    reveal_strlit("\\");
    let k = prefix_len(dir, platform);
    let path = joined(dir, name, platform);
    let parts = verbatim_parts(dir);
    let sep = "\\"@;
    assert(sep == seq!['\\']);
    lemma_plain_join(dir, name, platform);
    lemma_plain_join(dir, other, platform);
    lemma_prefix_len(dir, platform);
    lemma_verbatim_parts(dir);
    lemma_split_joined(parts, '\\');
    let home = dir.take(k) + sep + join(parts, sep);
    lemma_verbatim_home(dir, name, platform);
    assert(path.take(k + 1)[k] == '\\');
    assert(path.take(k + 1) == home.take(k + 1));
    lemma_prefix_stays(path, home);
    assert(home.skip(k + 1) == join(parts, sep));
    assert(verbatim_parts(home) == parts);
    assert(home.take(k) == dir.take(k));
    assert(lead(home, platform) == lead(dir, platform));
    lemma_plain_join(home, other, platform);
}

/// A file in a plain directory has the name, the stem and the extension that it was put
/// there under.
pub proof fn lemma_named_file(
    dir: Seq<char>,
    stem: Seq<char>,
    ext: Seq<char>,
    other: Seq<char>,
    platform: Platform,
)
    requires
        is_plain_dir(dir, platform),
        stem.len() > 0,
        ext.len() > 0,
        !ext.contains('.'),
        is_plain_name(stem + seq!['.'] + ext, platform),
        is_plain_name(other, platform),
        is_beyond_prefix(dir, stem + seq!['.'] + ext, platform),
    ensures
        ({
            let path = joined(dir, stem + seq!['.'] + ext, platform);
            &&& file_name_of(path, platform) == Some(stem + seq!['.'] + ext)
            &&& stem_of(path, platform) == stem
            &&& extension_of(path, platform) == ext
            &&& renamed(path, other, platform) == joined(dir, other, platform)
        }),
{
    let name = stem + seq!['.'] + ext;
    lemma_plain_path(dir, name, other, platform);
    assert(name[stem.len() as int] == '.');
    assert forall|i: int| stem.len() < i < name.len() implies name[i] != '.' by {
        assert(name[i] == ext[i - stem.len() - 1]);
        assert(ext.contains(ext[i - stem.len() - 1]));
    }
    lemma_last_dot(name, stem.len() as int);
    assert(name.take(stem.len() as int) == stem);
    assert(name.skip(stem.len() as int + 1) == ext);
}

/// What is cut out of a file in a directory lies beside it, under another name:
/// the mark stands between the stem and the extension.
pub proof fn law_cut_lies_beside(
    dir: Seq<char>,
    stem: Seq<char>,
    ext: Seq<char>,
    mark: Seq<char>,
    platform: Platform,
)
    requires
        is_plain_dir(dir, platform),
        stem.len() > 0,
        ext.len() > 0,
        forall|i: int| 0 <= i < ext.len() ==> ext[i] != '.',
        is_plain_name(stem + "."@ + ext, platform),
        is_plain_name(stem + mark + "."@ + ext, platform),
        is_beyond_prefix(dir, stem + "."@ + ext, platform),
        mark.len() > 0,
    ensures
        marked(joined(dir, stem + "."@ + ext, platform), mark, platform) == joined(
            dir,
            stem + mark + "."@ + ext,
            platform,
        ),
        marked(joined(dir, stem + "."@ + ext, platform), mark, platform) != joined(
            dir,
            stem + "."@ + ext,
            platform,
        ),
{
    reveal_strlit(".");
    let name = stem + "."@ + ext;
    let other = stem + mark + "."@ + ext;
    lemma_plain_path(dir, name, other, platform);
    assert(name[stem.len() as int] == '.');
    assert forall|i: int| stem.len() < i < name.len() implies name[i] != '.' by {
        assert(name[i] == ext[i - stem.len() - 1]);
    }
    lemma_last_dot(name, stem.len() as int);
    assert(name.take(stem.len() as int) == stem);
    assert(name.skip(stem.len() as int + 1) == ext);
    lemma_plain_join(dir, name, platform);
    lemma_plain_join(dir, other, platform);
    assert(other.len() > name.len());
}

/// On Windows the names of a server and a share are no file.
pub proof fn law_shares_are_no_files(server: Seq<char>, share: Seq<char>)
    requires
        server.len() > 1,
        share.len() > 0,
        !server.contains('/') && !server.contains('\\'),
        !share.contains('/') && !share.contains('\\'),
    ensures
        ({
            let path = seq!['\\', '\\'] + server + seq!['\\'] + share;
            &&& prefix_len(path, Platform::Windows) == path.len()
            &&& file_name_of(path, Platform::Windows) is None
        }),
{
    let path = seq!['\\', '\\'] + server + seq!['\\'] + share;
    let rest = path.skip(2);
    let n = server.len() as int;
    assert(rest == server + seq!['\\'] + share);
    assert forall|i: int| 0 <= i < n implies !divides(rest[i], Platform::Windows, false) by {
        assert(server.contains(server[i]));
    }
    assert(rest[n] == '\\');
    lemma_part_len_is(rest, false, n);
    let last = rest.skip(n + 1);
    assert(last == share);
    lemma_whole_part(share);
    assert(path[2] == server[0] && path[3] == server[1]);
    assert(server.contains(server[0]) && server.contains(server[1]));
    assert(!is_verbatim(path, Platform::Windows));
    assert(path.skip(path.len() as int) == Seq::<char>::empty());
}

proof fn lemma_whole_part(part: Seq<char>)
    requires
        !part.contains('/') && !part.contains('\\'),
    ensures
        part_len(part, false) == part.len(),
    decreases part.len(),
{
    if part.len() > 0 {
        assert(part.contains(part[0]));
        let rest = part.drop_first();
        assert forall|i: int| 0 <= i < rest.len() implies rest[i] != '/' && rest[i] != '\\' by {
            assert(part.contains(part[i + 1]));
        }
        lemma_whole_part(rest);
    }
}

proof fn lemma_walked_lacks(parts: Seq<Seq<char>>, steps: Seq<Seq<char>>, d: char)
    requires
        forall|i: int| 0 <= i < parts.len() ==> !(#[trigger] parts[i]).contains(d),
        forall|i: int| 0 <= i < steps.len() ==> !(#[trigger] steps[i]).contains(d),
    ensures
        forall|i: int|
            0 <= i < walked(parts, steps).len() ==> !(#[trigger] walked(parts, steps)[i]).contains(
                d,
            ),
    decreases steps.len(),
{
    if steps.len() > 0 {
        let init = steps.drop_last();
        assert forall|i: int| 0 <= i < init.len() implies !(#[trigger] init[i]).contains(d) by {
            assert(init[i] == steps[i]);
        }
        lemma_walked_lacks(parts, init, d);
        assert(steps.last() == steps[steps.len() - 1]);
        let before = walked(parts, init);
        assert forall|i: int| 0 <= i < walked(parts, steps).len() implies !(#[trigger] walked(
            parts,
            steps,
        )[i]).contains(d) by {
            if i < before.len() {
                assert(!before[i].contains(d));
            }
        }
    }
}

/// On Windows, a path joined out of texts without a slash has none.
pub proof fn law_no_slash_is_added(dir: Seq<char>, name: Seq<char>)
    requires
        !dir.contains('/'),
        !name.contains('/'),
    ensures
        !joined(dir, name, Platform::Windows).contains('/'),
{
    reveal_strlit("\\");
    let path = joined(dir, name, Platform::Windows);
    let k = prefix_len(dir, Platform::Windows);
    lemma_prefix_len(dir, Platform::Windows);
    lemma_prefix_len(name, Platform::Windows);
    assert(forall|i: int| 0 <= i < dir.len() ==> dir.contains(dir[i]));
    assert(forall|i: int| 0 <= i < name.len() ==> name.contains(name[i]));
    if is_verbatim(dir, Platform::Windows) && name.len() > 0 && prefix_len(
        name,
        Platform::Windows,
    ) == 0 {
        let start = if is_rooted(name, Platform::Windows) {
            Seq::empty()
        } else {
            verbatim_parts(dir)
        };
        if k < dir.len() {
            let inner = dir.skip(k + 1);
            assert(!inner.contains('/'));
            let pieces = split(inner, '\\');
            lemma_split_lacks(inner, '\\', '/');
            lemma_filled_parts(pieces);
            assert forall|i: int| 0 <= i < start.len() implies !(#[trigger] start[i]).contains(
                '/',
            ) by {
                let j = pieces.index_of(start[i]);
                assert(!pieces[j].contains('/'));
            }
        }
        assert(backslashed(name) == name);
        let steps = split(name, '\\');
        lemma_split_lacks(name, '\\', '/');
        lemma_walked_lacks(start, steps, '/');
        let parts = walked(start, steps);
        lemma_join_lacks(parts, "\\"@, '/');
        let inner = join(parts, "\\"@);
        let before = dir.take(k) + "\\"@;
        assert forall|i: int| 0 <= i < (before + inner).len() implies (before + inner)[i] != '/' by {
            if i >= before.len() {
                assert(inner.contains(inner[i - before.len()]));
            }
        }
        assert(path == before + inner || path == dir.take(k));
    }
}

// ---------------------------------------------------------------------------
// Computing
// ---------------------------------------------------------------------------
/// Whether `c` separates the parts of a path.
fn separates(c: char, platform: Platform) -> (r: bool)
    ensures
        r == is_separator(c, platform),
{
    c == '/' || (platform == Platform::Windows && c == '\\')
}

/// Whether `c` separates the parts of a path that may be taken word by word.
fn parts_at(c: char, platform: Platform, verbatim: bool) -> (r: bool)
    ensures
        r == divides(c, platform, verbatim),
{
    separates(c, platform) && !(verbatim && c == '/')
}

fn letter(c: char) -> (r: bool)
    ensures
        r == is_letter(c),
{
    ('a' <= c && c <= 'z') || ('A' <= c && c <= 'Z')
}

/// Whether the path is taken word by word.
fn is_word_by_word(cs: &Vec<char>, platform: Platform) -> (r: bool)
    ensures
        r == is_verbatim(cs@, platform),
{
    platform == Platform::Windows && cs.len() >= 4 && cs[0] == '\\' && cs[1] == '\\' && cs[2] == '?'
        && cs[3] == '\\'
}

/// Where the part that begins at `from` ends.
fn part_end(cs: &Vec<char>, from: usize, verbatim: bool) -> (r: usize)
    requires
        from <= cs@.len(),
    ensures
        from <= r <= cs@.len(),
        r == from + part_len(cs@.skip(from as int), verbatim),
{
    let mut i: usize = from;
    while i < cs.len() && !parts_at(cs[i], Platform::Windows, verbatim)
        invariant
            from <= i <= cs@.len(),
            part_len(cs@.skip(from as int), verbatim) == i - from + part_len(
                cs@.skip(i as int),
                verbatim,
            ),
        decreases cs@.len() - i,
    {
        assert(cs@.skip(i as int)[0] == cs@[i as int]);
        assert(cs@.skip(i as int).drop_first() == cs@.skip(i + 1));
        i = i + 1;
    }
    assert(i < cs@.len() ==> cs@.skip(i as int)[0] == cs@[i as int]);
    i
}

/// Where the names of a server and a share end that begin at `from`.
fn share_end(cs: &Vec<char>, from: usize, verbatim: bool) -> (r: usize)
    requires
        from <= cs@.len(),
    ensures
        from <= r <= cs@.len(),
        r == from + share_len(cs@.skip(from as int), verbatim),
{
    let end: usize = part_end(cs, from, verbatim);
    if end < cs.len() {
        assert(cs@.skip(from as int).skip(end - from + 1) == cs@.skip(end + 1));
        let next: usize = part_end(cs, end + 1, verbatim);
        if next > end + 1 {
            return next;
        }
    }
    end
}

/// Whether a drive letter and its colon stand at `from`.
fn drive_at(cs: &Vec<char>, from: usize) -> (r: bool)
    requires
        from <= cs@.len(),
    ensures
        r == has_drive(cs@.skip(from as int)),
{
    cs.len() - from >= 2 && letter(cs[from]) && cs[from + 1] == ':'
}

/// How long the prefix of a path is.
fn prefix_length(cs: &Vec<char>, platform: Platform) -> (r: usize)
    ensures
        r == prefix_len(cs@, platform),
        r <= cs@.len(),
{
    proof {
        lemma_prefix_len(cs@, platform);
    }
    if platform != Platform::Windows {
        return 0;
    }
    let len: usize = cs.len();
    if len >= 2 && separates(cs[0], platform) && separates(cs[1], platform) {
        let ghost rest = cs@.skip(4);
        if is_word_by_word(cs, platform) {
            if len >= 8 && cs[4] == 'U' && cs[5] == 'N' && cs[6] == 'C' && separates(
                cs[7],
                platform,
            ) {
                assert(rest.skip(4) == cs@.skip(8));
                share_end(cs, 8, true)
            } else if drive_at(cs, 4) && (len == 6 || separates(cs[6], platform)) {
                6
            } else {
                part_end(cs, 4, true)
            }
        } else if len >= 4 && cs[2] == '.' && separates(cs[3], platform) {
            part_end(cs, 4, false)
        } else {
            let end: usize = part_end(cs, 2, false);
            let stop: usize = share_end(cs, 2, false);
            if end > 2 && stop > end {
                stop
            } else {
                0
            }
        }
    } else {
        assert(cs@.skip(0) == cs@);
        if drive_at(cs, 0) {
            2
        } else {
            0
        }
    }
}

/// The text with its slashes turned into backslashes.
fn to_backslashes(s: &str) -> (r: String)
    ensures
        r@ == backslashed(s@),
{
    let cs = chars_of(s);
    let mut out: Vec<char> = Vec::new();
    let mut i: usize = 0;
    while i < cs.len()
        invariant
            i <= cs@.len(),
            cs@ == s@,
            out@ == backslashed(s@.take(i as int)),
        decreases cs@.len() - i,
    {
        let c = if cs[i] == '/' {
            '\\'
        } else {
            cs[i]
        };
        out.push(c);
        i = i + 1;
        assert(out@ == backslashed(s@.take(i as int)));
    }
    assert(s@.take(i as int) == s@);
    let len: usize = out.len();
    let r = string_of(&out, 0, len);
    assert(out@.subrange(0, len as int) == out@);
    r
}

/// Whether the part is made of one dot, or of two.
fn dots(part: &str, two: bool) -> (r: bool)
    ensures
        r == (part@ == if two {
            seq!['.', '.']
        } else {
            seq!['.']
        }),
{
    let cs = chars_of(part);
    if two {
        let r = cs.len() == 2 && cs[0] == '.' && cs[1] == '.';
        assert(r ==> cs@ == seq!['.', '.']);
        r
    } else {
        let r = cs.len() == 1 && cs[0] == '.';
        assert(r ==> cs@ == seq!['.']);
        r
    }
}

/// Steps from the directory that `start` leads to.
fn walk(start: Vec<String>, steps: &Vec<String>) -> (r: Vec<String>)
    ensures
        texts(r@) == walked(texts(start@), texts(steps@)),
{
    let mut parts = start;
    let mut i: usize = 0;
    let ghost first = texts(start@);
    let ghost all = texts(steps@);
    assert(all.take(0) == Seq::<Seq<char>>::empty());
    while i < steps.len()
        invariant
            i <= steps@.len(),
            all == texts(steps@),
            texts(parts@) == walked(first, all.take(i as int)),
        decreases steps@.len() - i,
    {
        let ghost before = texts(parts@);
        let ghost next = all.take(i + 1);
        assert(next.drop_last() == all.take(i as int));
        assert(next.last() == steps@[i as int]@);
        let step = steps[i].as_str();
        if dots(step, true) {
            let n: usize = parts.len();
            if n > 0 {
                let last = parts[n - 1].as_str();
                let placed = dots(last, false) || dots(last, true);
                assert(before.last() == parts@[n - 1]@);
                if !placed {
                    let _ = parts.pop();
                    assert(texts(parts@) == before.drop_last());
                }
            }
        } else if !step.is_empty() && !dots(step, false) {
            push_text(&mut parts, step);
        }
        i = i + 1;
    }
    assert(all.take(i as int) == all);
    parts
}

/// `name` inside `dir`, which is taken word by word.
fn join_word_by_word(dir: &str, name: &str) -> (r: String)
    ensures
        r@ == verbatim_joined(dir@, name@),
{
    let d = chars_of(dir);
    let n = chars_of(name);
    let k: usize = prefix_length(&d, Platform::Windows);
    let len: usize = d.len();
    let rooted = n.len() > 0 && separates(n[0], Platform::Windows);
    let mut start: Vec<String> = Vec::new();
    assert(texts(start@) == Seq::<Seq<char>>::empty());
    if !rooted && k < len {
        let inner = string_of(&d, k + 1, len);
        assert(inner@ == dir@.skip(k + 1));
        start = keep_filled(&split_text(inner.as_str(), '\\'));
    }
    let steps = split_text(to_backslashes(name).as_str(), '\\');
    let parts = walk(start, &steps);
    let prefix = string_of(&d, 0, k);
    assert(prefix@ == dir@.take(k as int));
    assert(texts(parts@).len() == parts@.len());
    if rooted || k < len || parts.len() > 0 {
        cat3(prefix.as_str(), "\\", join_texts(&parts, "\\").as_str())
    } else {
        prefix
    }
}

/// `name` inside `dir`.
pub fn join_path(dir: &str, name: &str, platform: Platform) -> (r: String)
    ensures
        r@ == joined(dir@, name@, platform),
{
    let d = chars_of(dir);
    let n = chars_of(name);
    if prefix_length(&n, platform) > 0 {
        return name.to_owned();
    }
    if is_word_by_word(&d, platform) && n.len() > 0 {
        return join_word_by_word(dir, name);
    }
    if n.len() > 0 && separates(n[0], platform) {
        let prefix = string_of(&d, 0, prefix_length(&d, platform));
        assert(prefix@ == dir@.take(prefix_len(dir@, platform)));
        return cat(prefix.as_str(), name);
    }
    assert(d@.skip(0) == d@);
    if d.len() == 0 || separates(d[d.len() - 1], platform) || (platform == Platform::Windows
        && d.len() == 2 && drive_at(&d, 0)) {
        return cat(dir, name);
    }
    if platform == Platform::Windows {
        cat3(dir, "\\", name)
    } else {
        cat3(dir, "/", name)
    }
}

/// Where the tail of `cs[from..to]` begins.
fn tail_start(
    cs: &Vec<char>,
    from: usize,
    to: usize,
    platform: Platform,
    verbatim: bool,
) -> (r: usize)
    requires
        from <= to <= cs@.len(),
    ensures
        from <= r <= to,
        cs@.subrange(from as int, r as int) == without_tail(
            cs@.subrange(from as int, to as int),
            platform,
            verbatim,
        ),
{
    let mut end: usize = to;
    while end > from
        invariant_except_break
            from <= end <= to <= cs@.len(),
            without_tail(cs@.subrange(from as int, end as int), platform, verbatim) == without_tail(
                cs@.subrange(from as int, to as int),
                platform,
                verbatim,
            ),
        ensures
            from <= end <= to,
            cs@.subrange(from as int, end as int) == without_tail(
                cs@.subrange(from as int, to as int),
                platform,
                verbatim,
            ),
        decreases end - from,
    {
        let ghost seen = cs@.subrange(from as int, end as int);
        assert(seen.drop_last() == cs@.subrange(from as int, end - 1));
        assert(seen.last() == cs@[end - 1]);
        let last = cs[end - 1];
        if parts_at(last, platform, verbatim) {
            end = end - 1;
        } else if !verbatim && last == '.' && end - from >= 2 && separates(cs[end - 2], platform) {
            assert(seen[seen.len() - 2] == cs@[end - 2]);
            end = end - 1;
        } else {
            assert(end - from >= 2 ==> seen[seen.len() - 2] == cs@[end - 2]);
            assert(without_tail(seen, platform, verbatim) == seen);
            break;
        }
    }
    end
}

/// Where the last part of `cs[from..to]` begins.
fn part_start(
    cs: &Vec<char>,
    from: usize,
    to: usize,
    platform: Platform,
    verbatim: bool,
) -> (r: usize)
    requires
        from <= to <= cs@.len(),
    ensures
        from <= r <= to,
        cs@.subrange(r as int, to as int) == last_part(
            cs@.subrange(from as int, to as int),
            platform,
            verbatim,
        ),
{
    let mut start: usize = to;
    let ghost all = cs@.subrange(from as int, to as int);
    assert(cs@.subrange(to as int, to as int) == Seq::<char>::empty());
    assert(last_part(all, platform, verbatim) == last_part(all, platform, verbatim) + Seq::<char>::empty());
    while start > from && !parts_at(cs[start - 1], platform, verbatim)
        invariant
            from <= start <= to <= cs@.len(),
            all == cs@.subrange(from as int, to as int),
            last_part(all, platform, verbatim) == last_part(
                cs@.subrange(from as int, start as int),
                platform,
                verbatim,
            ) + cs@.subrange(start as int, to as int),
        decreases start,
    {
        let ghost seen = cs@.subrange(from as int, start as int);
        assert(seen.drop_last() == cs@.subrange(from as int, start - 1));
        assert(seen.last() == cs@[start - 1]);
        assert(last_part(seen.drop_last(), platform, verbatim).push(cs@[start - 1]) + cs@.subrange(
            start as int,
            to as int,
        ) == last_part(seen.drop_last(), platform, verbatim) + cs@.subrange(start - 1, to as int));
        start = start - 1;
    }
    proof {
        let seen = cs@.subrange(from as int, start as int);
        if start > from {
            assert(seen.last() == cs@[start - 1]);
        }
        assert(last_part(seen, platform, verbatim) == Seq::<char>::empty());
        assert(last_part(all, platform, verbatim) == cs@.subrange(start as int, to as int));
    }
    start
}

/// The place of the last dot in `cs`.
fn find_last_dot(cs: &Vec<char>) -> (r: Option<usize>)
    ensures
        match r {
            Some(i) => i < cs@.len() && last_dot(cs@) == i,
            None => last_dot(cs@) == -1,
        },
{
    let mut i: usize = cs.len();
    assert(cs@.take(i as int) == cs@);
    while i > 0
        invariant
            i <= cs@.len(),
            last_dot(cs@) == last_dot(cs@.take(i as int)),
        decreases i,
    {
        assert(cs@.take(i as int).last() == cs@[i - 1]);
        assert(cs@.take(i as int).drop_last() == cs@.take(i - 1));
        if cs[i - 1] == '.' {
            return Some(i - 1);
        }
        i = i - 1;
    }
    None
}

/// The characters of a path, read so that those behind the prefix are `inside`.
fn read_path(path: &str, platform: Platform) -> (r: Vec<char>)
    ensures
        r@.len() == path@.len(),
        r@.skip(prefix_len(path@, platform)) == inside(path@, platform),
{
    let mut cs = chars_of(path);
    let from: usize = prefix_length(&cs, platform);
    if is_word_by_word(&cs, platform) && from < cs.len() {
        cs.set(from, '\\');
        assert(cs@.skip(from as int) == path@.skip(from as int).update(0, '\\'));
    }
    cs
}

/// The name of the file, if the path ends in one.
pub fn file_name(path: &str, platform: Platform) -> (r: Option<String>)
    ensures
        match r {
            Some(n) => file_name_of(path@, platform) == Some(n@),
            None => file_name_of(path@, platform) is None,
        },
{
    let cs = chars_of(path);
    let from: usize = prefix_length(&cs, platform);
    let verbatim = is_word_by_word(&cs, platform);
    let cs = read_path(path, platform);
    let len: usize = cs.len();
    assert(cs@.subrange(from as int, len as int) == cs@.skip(from as int));
    let end: usize = tail_start(&cs, from, len, platform, verbatim);
    let start: usize = part_start(&cs, from, end, platform, verbatim);
    let ghost part = cs@.subrange(start as int, end as int);
    if start == end {
        return None;
    }
    let name = string_of(&cs, start, end);
    if dots(name.as_str(), false) || dots(name.as_str(), true) {
        return None;
    }
    assert(part.len() > 0);
    Some(name)
}

/// What stands before the last dot of the file's name.
pub fn file_stem(path: &str, platform: Platform) -> (r: String)
    ensures
        r@ == stem_of(path@, platform),
{
    match file_name(path, platform) {
        Some(name) => {
            let cs = chars_of(name.as_str());
            match find_last_dot(&cs) {
                Some(i) if i > 0 => {
                    assert(cs@.subrange(0, i as int) == cs@.take(i as int));
                    string_of(&cs, 0, i)
                },
                _ => name,
            }
        },
        None => String::new(),
    }
}

/// What stands behind the last dot of the file's name.
pub fn extension(path: &str, platform: Platform) -> (r: String)
    ensures
        r@ == extension_of(path@, platform),
{
    match file_name(path, platform) {
        Some(name) => {
            let cs = chars_of(name.as_str());
            let len: usize = cs.len();
            match find_last_dot(&cs) {
                Some(i) if i > 0 => {
                    assert(i < len);
                    assert(cs@.subrange(i + 1, cs@.len() as int) == cs@.skip(i + 1));
                    string_of(&cs, i + 1, len)
                },
                _ => String::new(),
            }
        },
        None => String::new(),
    }
}

/// The directory of a file.
fn directory(path: &str, platform: Platform) -> (r: String)
    ensures
        r@ == directory_of(path@, platform),
{
    let own = chars_of(path);
    let from: usize = prefix_length(&own, platform);
    let verbatim = is_word_by_word(&own, platform);
    let cs = read_path(path, platform);
    let len: usize = cs.len();
    assert(cs@.subrange(from as int, len as int) == cs@.skip(from as int));
    let end: usize = tail_start(&cs, from, len, platform, verbatim);
    let start: usize = part_start(&cs, from, end, platform, verbatim);
    let ghost all = body(path@, platform);
    let ghost rest = all.take(all.len() - last_part(all, platform, verbatim).len());
    assert(all == cs@.subrange(from as int, end as int));
    assert(rest == cs@.subrange(from as int, start as int));
    let stop: usize = tail_start(&cs, from, start, platform, verbatim);
    if stop == from && start > from {
        assert(own@.subrange(0, from + 1) == path@.take(from + 1));
        string_of(&own, 0, from + 1)
    } else {
        assert(own@.subrange(0, stop as int) == path@.take(stop as int));
        string_of(&own, 0, stop)
    }
}

/// The path with another file name.
pub fn with_file_name(path: &str, name: &str, platform: Platform) -> (r: String)
    ensures
        r@ == renamed(path@, name@, platform),
{
    if file_name(path, platform).is_some() {
        join_path(directory(path, platform).as_str(), name, platform)
    } else {
        join_path(path, name, platform)
    }
}

/// The path of what is cut out of a file.
pub fn marked_path(path: &str, mark: &str, platform: Platform) -> (r: String)
    ensures
        r@ == marked(path@, mark@, platform),
{
    let stem = file_stem(path, platform);
    let ext = extension(path, platform);
    let start = cat3(stem.as_str(), mark, ".");
    let name = cat(start.as_str(), ext.as_str());
    with_file_name(path, name.as_str(), platform)
}

} // verus!
