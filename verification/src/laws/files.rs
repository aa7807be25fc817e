//! Paths and file names.
use crate::functions::preview::{
    char_bytes, file_title, is_unsafe, law_ordinary_title_is_kept, replaced, text_bytes,
};
use crate::paths::{
    extension_of, file_name_of, is_beyond_prefix, is_plain_dir, is_plain_name, joined, prefix_len,
    renamed, stem_of, stepped,
};
use crate::platform::Platform;
use crate::text::{is_white, trim};
use vstd::prelude::*;
use vstd::utf8::{encode_scalar, encode_utf8};

verus! {

// ---------------------------------------------------------------------------
// Paths
// ---------------------------------------------------------------------------
/// Where a slash separates, a name is put behind a directory with one slash between
/// them, whether or not the directory ends in one; a name that begins with a slash
/// stands for itself, and so does a name without a directory.
pub proof fn law_slash_between_directory_and_name(
    dir: Seq<char>,
    name: Seq<char>,
    platform: Platform,
)
    requires
        platform != Platform::Windows,
    ensures
        name.len() > 0 && name[0] == '/' ==> joined(dir, name, platform) == name,
        dir.len() == 0 ==> joined(dir, name, platform) == name,
        dir.len() > 0 && (name.len() == 0 || name[0] != '/') ==> joined(dir, name, platform) == (
        if dir.last() == '/' {
            dir
        } else {
            dir.push('/')
        }) + name,
{
    reveal_strlit("/");
    assert(dir.take(0) + name == name);
    assert(Seq::<char>::empty() + name == name);
    assert(dir + "/"@ == dir.push('/'));
}

/// On Windows a backslash is put between a directory on a drive and a name.
pub proof fn law_backslash_between_directory_and_name(dir: Seq<char>, name: Seq<char>)
    requires
        dir.len() > 2,
        dir[1] == ':',
        'a' <= dir[0] <= 'z' || 'A' <= dir[0] <= 'Z',
        dir.last() != '/' && dir.last() != '\\',
        name.len() > 0,
        name[0] != '/' && name[0] != '\\',
        name.len() > 1 ==> name[1] != ':',
    ensures
        joined(dir, name, Platform::Windows) == dir.push('\\') + name,
{
    reveal_strlit("\\");
    assert(prefix_len(name, Platform::Windows) == 0);
    assert(dir + "\\"@ == dir.push('\\'));
}

/// A file in a plain directory has the name that it was put there under; what stands
/// before the last dot is its stem, what stands behind it is its extension. Under
/// another name it lies in the same directory.
pub proof fn law_names_are_found_again(
    dir: Seq<char>,
    stem: Seq<char>,
    ext: Seq<char>,
    other: Seq<char>,
    platform: Platform,
)
    requires
        is_plain_dir(dir, platform),
        stem.len() > 0,
        ext.len() > 0,
        !ext.contains('.'),
        is_plain_name(stem + seq!['.'] + ext, platform),
        is_plain_name(other, platform),
        is_beyond_prefix(dir, stem + seq!['.'] + ext, platform),
    ensures
        ({
            let path = joined(dir, stem + seq!['.'] + ext, platform);
            &&& file_name_of(path, platform) == Some(stem + seq!['.'] + ext)
            &&& stem_of(path, platform) == stem
            &&& extension_of(path, platform) == ext
            &&& renamed(path, other, platform) == joined(dir, other, platform)
        }),
{
    crate::paths::lemma_named_file(dir, stem, ext, other, platform);
}

/// In a directory that is taken word by word, one dot and nothing are no step, two dots
/// lead back from a name, and a name leads to itself.
pub proof fn law_steps_of_a_path(parts: Seq<Seq<char>>, step: Seq<char>)
    ensures
        stepped(parts, Seq::empty()) == parts,
        stepped(parts, seq!['.']) == parts,
        parts.len() > 0 && parts.last() != seq!['.'] && parts.last() != seq!['.', '.'] ==> stepped(
            parts,
            seq!['.', '.'],
        ) == parts.drop_last(),
        parts.len() == 0 || parts.last() == seq!['.'] || parts.last() == seq!['.', '.'] ==> stepped(
            parts,
            seq!['.', '.'],
        ) == parts,
        step.len() > 0 && step != seq!['.'] && step != seq!['.', '.'] ==> stepped(parts, step)
            == parts.push(step),
{
    assert(seq!['.', '.'].len() == 2);
    assert(seq!['.'].len() == 1);
}

// ---------------------------------------------------------------------------
// File names for titles
// ---------------------------------------------------------------------------
/// In a file name for a title there is no control character and none of
/// `/ \ : * ? " < > |`; each is replaced by an underscore where it stood, and every
/// other character stays.
pub proof fn law_bad_characters_are_replaced(title: Seq<char>, i: int)
    requires
        title.len() > 0,
        title.len() <= 62,
        !is_white(title[0]),
        !is_white(title.last()),
        title.last() != '.',
        0 <= i < title.len(),
    ensures
        ({
            let c = title[i];
            let bad = c == '/' || c == '\\' || c == ':' || c == '*' || c == '?' || c == '"' || c
                == '<' || c == '>' || c == '|' || c <= '\u{1f}' || '\u{7f}' <= c <= '\u{9f}';
            &&& file_title(title).len() == title.len()
            &&& file_title(title)[i] == if bad {
                '_'
            } else {
                c
            }
        }),
{
    let name = replaced(title);
    lemma_bytes(name);
    assert(name.last() == title.last() || name.last() == '_');
    assert(name[0] == title[0] || name[0] == '_');
    assert(replaced(name) == name);
    law_ordinary_title_is_kept(name);
    assert(trim(name) == name);
}

proof fn lemma_bytes(s: Seq<char>)
    ensures
        text_bytes(s) <= 4 * s.len(),
    decreases s.len(),
{
    if s.len() > 0 {
        lemma_bytes(s.drop_last());
    }
}

/// No file name for a title holds a control character or one of `/ \ : * ? " < > |`,
/// ends in a dot or a space, is empty, or takes more than 250 bytes in UTF-8.
pub proof fn law_file_names_are_sound(title: Seq<char>, i: int)
    requires
        0 <= i < file_title(title).len(),
    ensures
        ({
            let c = file_title(title)[i];
            &&& c != '/' && c != '\\' && c != ':' && c != '*' && c != '?' && c != '"' && c != '<'
                && c != '>' && c != '|'
            &&& !(c <= '\u{1f}') && !('\u{7f}' <= c <= '\u{9f}')
            &&& i == file_title(title).len() - 1 ==> c != '.' && c != ' '
            &&& encode_utf8(file_title(title)).len() <= 250
        }),
{
    crate::functions::preview::law_file_title_is_safe(title);
    crate::functions::preview::law_no_dot_at_the_end(title);
    law_bytes_are_those_of_utf8(file_title(title));
}

/// Of a long title in ASCII the first 200 characters are kept.
pub proof fn law_long_titles_keep_their_beginning(title: Seq<char>)
    requires
        title.len() > 200,
        forall|i: int|
            0 <= i < title.len() ==> '!' <= #[trigger] title[i] <= '~' && !is_unsafe(title[i])
                && title[i] != '.',
    ensures
        file_title(title) == title.take(200),
{
    assert(replaced(title) == title);
    assert('!' <= title[0] <= '~');
    assert('!' <= title[title.len() - 1] <= '~');
    assert(trim(title) == title);
    let start = title.take(200);
    assert(start.last() == title[199]);
    lemma_ascii_bytes(start);
}

proof fn lemma_ascii_bytes(s: Seq<char>)
    requires
        forall|i: int| 0 <= i < s.len() ==> #[trigger] s[i] <= '~',
    ensures
        text_bytes(s) == s.len(),
    decreases s.len(),
{
    if s.len() > 0 {
        assert(s[s.len() - 1] <= '~');
        lemma_ascii_bytes(s.drop_last());
    }
}

/// A blank title, or one of dots, gives the name `thumbnail`.
pub proof fn law_blank_titles_have_a_name(title: Seq<char>)
    requires
        forall|i: int| 0 <= i < title.len() ==> title[i] == ' ' || title[i] == '.',
    ensures
        file_title(title) == "thumbnail"@,
{
    let all = replaced(title);
    assert(forall|i: int| 0 <= i < all.len() ==> all[i] == title[i]);
    lemma_trimmed_dots(all);
    lemma_only_dots(trim(all));
    reveal_with_fuel(crate::functions::preview::capped, 2);
    reveal_with_fuel(text_bytes, 2);
}

spec fn is_dotted(s: Seq<char>) -> bool {
    forall|i: int| 0 <= i < s.len() ==> #[trigger] s[i] == ' ' || s[i] == '.'
}

proof fn lemma_trimmed_dots(s: Seq<char>)
    requires
        is_dotted(s),
    ensures
        is_dotted(trim(s)),
{
    lemma_trim_start_dots(s);
    lemma_trim_end_dots(crate::text::trim_start(s));
}

proof fn lemma_trim_start_dots(s: Seq<char>)
    requires
        is_dotted(s),
    ensures
        is_dotted(crate::text::trim_start(s)),
    decreases s.len(),
{
    if s.len() > 0 && is_white(s[0]) {
        assert(forall|i: int| 0 <= i < s.len() - 1 ==> #[trigger] s.drop_first()[i] == s[i + 1]);
        lemma_trim_start_dots(s.drop_first());
    }
}

proof fn lemma_trim_end_dots(s: Seq<char>)
    requires
        is_dotted(s),
    ensures
        is_dotted(crate::text::trim_end(s)),
    decreases s.len(),
{
    if s.len() > 0 && is_white(s.last()) {
        lemma_trim_end_dots(s.drop_last());
    }
}

proof fn lemma_only_dots(s: Seq<char>)
    requires
        is_dotted(s),
    ensures
        crate::functions::preview::without_dots(s).len() == 0,
    decreases s.len(),
{
    if s.len() > 0 {
        lemma_only_dots(s.drop_last());
    }
}

/// The bytes that are counted are those of UTF-8.
pub proof fn law_bytes_are_those_of_utf8(s: Seq<char>)
    ensures
        text_bytes(s) == encode_utf8(s).len(),
    decreases s.len(),
{
    if s.len() > 0 {
        let init = s.drop_last();
        law_bytes_are_those_of_utf8(init);
        lemma_one_more_scalar(init, s.last());
        assert(init.push(s.last()) == s);
    }
}

proof fn lemma_one_more_scalar(s: Seq<char>, c: char)
    ensures
        encode_utf8(s.push(c)).len() == encode_utf8(s).len() + char_bytes(c),
    decreases s.len(),
{
    if s.len() == 0 {
        assert(s.push(c).drop_first() == s);
        assert(encode_utf8(s).len() == 0);
        assert(encode_scalar(c as u32).len() == char_bytes(c));
    } else {
        lemma_one_more_scalar(s.drop_first(), c);
        assert(s.push(c).drop_first() == s.drop_first().push(c));
    }
}

} // verus!
