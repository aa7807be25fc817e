//! Which addresses are taken for what.
use crate::classes::{is_digit, is_word};
use crate::functions::cache::{
    keeps, kept_pairs, key_of, query_of, url_base, url_pairs, url_rendered,
};
use crate::functions::playlist::{is_channel_videos, is_youtube_list};
use crate::functions::valid::{
    channel_video, digit_run, name_run, page_of, twitch_address, twitch_host, twitch_page,
    twitch_path, youtube_address, youtube_host, youtube_page,
};
use crate::text::{
    after_first, contains, filled_parts, join, lemma_split_first, lemma_split_none, occurs_at,
    split, starts_with, trim,
};
use vstd::prelude::*;

verus! {

// ---------------------------------------------------------------------------
// YouTube
// ---------------------------------------------------------------------------
proof fn lemma_stripped(p: Seq<char>, rest: Seq<char>)
    ensures
        starts_with(p + rest, p),
        (p + rest).skip(p.len() as int) == rest,
{
    assert((p + rest).take(p.len() as int) == p);
    assert((p + rest).skip(p.len() as int) == rest);
}

proof fn lemma_put_back(s: Seq<char>, p: Seq<char>)
    requires
        starts_with(s, p),
    ensures
        s == p + s.skip(p.len() as int),
{
    assert(s == s.take(p.len() as int) + s.skip(p.len() as int));
}

/// A page of `youtube.com` or `youtu.be` is accepted, with or without `www.` and with
/// or without `http://` or `https://`.
pub proof fn law_youtube_pages_are_accepted(
    scheme: Seq<char>,
    www: Seq<char>,
    host: Seq<char>,
    page: Seq<char>,
)
    requires
        scheme.len() == 0 || scheme == "http://"@ || scheme == "https://"@,
        www.len() == 0 || www == "www."@,
        host == "youtube.com/"@ || host == "youtu.be/"@,
        page.len() > 0,
        !page.contains('\n'),
    ensures
        youtube_address(scheme + www + host + page),
{
    let inner = host + page;
    let named = www + inner;
    let s = scheme + named;
    assert(scheme + www + host + page == s);
    lemma_stripped(host, page);
    lemma_stripped(www, inner);
    lemma_stripped(scheme, named);
    assert forall|i: int| host.len() <= i < inner.len() implies inner[i] != '\n' by {
        assert(page.contains(page[i - host.len()]));
    }
    assert(page_of(inner, host));
    assert(youtube_host(inner));
    if www.len() == 0 {
        assert(named == inner);
    }
    assert(youtube_page(named));
    if scheme.len() == 0 {
        assert(s == named);
    }
}

/// Nothing else is accepted.
pub proof fn law_only_youtube_pages_are_accepted(s: Seq<char>)
    requires
        youtube_address(s),
    ensures
        exists|scheme: Seq<char>, www: Seq<char>, host: Seq<char>, page: Seq<char>|
            {
                &&& s == #[trigger] (scheme + www + host + page)
                &&& scheme.len() == 0 || scheme == "http://"@ || scheme == "https://"@
                &&& www.len() == 0 || www == "www."@
                &&& host == "youtube.com/"@ || host == "youtu.be/"@
                &&& page.len() > 0
            },
{
    let none = Seq::<char>::empty();
    let scheme = if youtube_page(s) {
        none
    } else if starts_with(s, "http://"@) && youtube_page(s.skip("http://"@.len() as int)) {
        "http://"@
    } else {
        "https://"@
    };
    let named = s.skip(scheme.len() as int);
    if youtube_page(s) {
        assert(named == s);
    }
    lemma_put_back_if(s, scheme);
    let www = if youtube_host(named) {
        none
    } else {
        "www."@
    };
    let inner = named.skip(www.len() as int);
    if youtube_host(named) {
        assert(inner == named);
    }
    lemma_put_back_if(named, www);
    let host = if page_of(inner, "youtube.com/"@) {
        "youtube.com/"@
    } else {
        "youtu.be/"@
    };
    lemma_put_back(inner, host);
    let page = inner.skip(host.len() as int);
    assert(s == scheme + www + host + page);
}

proof fn lemma_put_back_if(s: Seq<char>, p: Seq<char>)
    requires
        p.len() == 0 || starts_with(s, p),
    ensures
        s == p + s.skip(p.len() as int),
{
    if p.len() == 0 {
        assert(s == p + s.skip(0));
    } else {
        lemma_put_back(s, p);
    }
}

// ---------------------------------------------------------------------------
// Twitch
// ---------------------------------------------------------------------------
/// Of ASCII, the digits are `0` to `9`, and the characters of words are these, the
/// letters and the underscore.
pub proof fn law_ascii_classes(c: char)
    requires
        c <= '\u{7f}',
    ensures
        is_digit(c) <==> '0' <= c <= '9',
        is_word(c) <==> '0' <= c <= '9' || 'a' <= c <= 'z' || 'A' <= c <= 'Z' || c == '_',
{
}

/// A recording `videos/` with a number, a recording `/v/` with a number behind the name
/// of a channel, and a clip `clips/` with a name are accepted on `twitch.tv`, and a clip
/// on `clips.twitch.tv`, with or without `www.`; the scheme is needed.
pub proof fn law_twitch_recordings_are_accepted(
    scheme: Seq<char>,
    www: Seq<char>,
    name: Seq<char>,
    number: Seq<char>,
)
    requires
        scheme == "http://"@ || scheme == "https://"@,
        www.len() == 0 || www == "www."@,
        name.len() > 0,
        forall|i: int|
            0 <= i < name.len() ==> '0' <= #[trigger] name[i] <= '9' || 'a' <= name[i] <= 'z' || 'A'
                <= name[i] <= 'Z' || name[i] == '_' || name[i] == '-',
        number.len() > 0,
        forall|i: int| 0 <= i < number.len() ==> '0' <= #[trigger] number[i] <= '9',
    ensures
        twitch_address(scheme + (www + ("twitch.tv/"@ + ("videos/"@ + number)))),
        twitch_address(scheme + (www + ("twitch.tv/"@ + (name + ("/v/"@ + number))))),
        twitch_address(scheme + (www + ("twitch.tv/"@ + ("clips/"@ + name)))),
        twitch_address(scheme + (www + ("clips.twitch.tv/"@ + name))),
{
    assert(name_run(name));
    assert(digit_run(number));
    lemma_stripped("videos/"@, number);
    lemma_twitch_path(scheme, www, "videos/"@ + number);
    let tail = "/v/"@ + number;
    let path = name + tail;
    let k = name.len() as int;
    lemma_stripped("/v/"@, number);
    assert(path.take(k) == name);
    assert(path.skip(k) == tail);
    assert(path.skip(k + "/v/"@.len()) == number);
    assert(channel_video(path, k));
    lemma_twitch_path(scheme, www, path);
    lemma_stripped("clips/"@, name);
    lemma_twitch_path(scheme, www, "clips/"@ + name);
    lemma_stripped("clips.twitch.tv/"@, name);
    lemma_twitch_host(scheme, www, "clips.twitch.tv/"@ + name);
}

proof fn lemma_twitch_path(scheme: Seq<char>, www: Seq<char>, path: Seq<char>)
    requires
        scheme == "http://"@ || scheme == "https://"@,
        www.len() == 0 || www == "www."@,
        twitch_path(path),
    ensures
        twitch_address(scheme + (www + ("twitch.tv/"@ + path))),
{
    lemma_stripped("twitch.tv/"@, path);
    lemma_twitch_host(scheme, www, "twitch.tv/"@ + path);
}

proof fn lemma_twitch_host(scheme: Seq<char>, www: Seq<char>, rest: Seq<char>)
    requires
        scheme == "http://"@ || scheme == "https://"@,
        www.len() == 0 || www == "www."@,
        twitch_host(rest),
    ensures
        twitch_address(scheme + (www + rest)),
{
    lemma_stripped(www, rest);
    lemma_stripped(scheme, www + rest);
    if www.len() == 0 {
        assert(www + rest == rest);
    }
}

/// Nothing else is accepted.
pub proof fn law_only_twitch_recordings_are_accepted(s: Seq<char>)
    requires
        twitch_address(s),
    ensures
        exists|scheme: Seq<char>, www: Seq<char>, rest: Seq<char>|
            {
                &&& s == #[trigger] (scheme + www + rest)
                &&& scheme == "http://"@ || scheme == "https://"@
                &&& www.len() == 0 || www == "www."@
                &&& {
                    ||| starts_with(rest, "clips.twitch.tv/"@) && name_run(
                        rest.skip("clips.twitch.tv/"@.len() as int),
                    )
                    ||| starts_with(rest, "twitch.tv/videos/"@) && digit_run(
                        rest.skip("twitch.tv/videos/"@.len() as int),
                    )
                    ||| starts_with(rest, "twitch.tv/clips/"@) && name_run(
                        rest.skip("twitch.tv/clips/"@.len() as int),
                    )
                    ||| starts_with(rest, "twitch.tv/"@) && exists|k: int|
                        #[trigger] channel_video(rest.skip("twitch.tv/"@.len() as int), k)
                }
            },
{
    let scheme = if starts_with(s, "http://"@) && twitch_page(s.skip("http://"@.len() as int)) {
        "http://"@
    } else {
        "https://"@
    };
    lemma_put_back(s, scheme);
    let named = s.skip(scheme.len() as int);
    let www = if twitch_host(named) {
        Seq::<char>::empty()
    } else {
        "www."@
    };
    lemma_put_back_if(named, www);
    let rest = named.skip(www.len() as int);
    if twitch_host(named) {
        assert(rest == named);
    }
    assert(s == scheme + www + rest);
    if starts_with(rest, "twitch.tv/"@) {
        reveal_strlit("twitch.tv/");
        reveal_strlit("videos/");
        reveal_strlit("clips/");
        reveal_strlit("twitch.tv/videos/");
        reveal_strlit("twitch.tv/clips/");
        assert("twitch.tv/videos/"@ == "twitch.tv/"@ + "videos/"@);
        assert("twitch.tv/clips/"@ == "twitch.tv/"@ + "clips/"@);
        lemma_two_steps(rest, "twitch.tv/"@, "videos/"@);
        lemma_two_steps(rest, "twitch.tv/"@, "clips/"@);
    }
}

proof fn lemma_two_steps(s: Seq<char>, a: Seq<char>, b: Seq<char>)
    requires
        starts_with(s, a),
    ensures
        starts_with(s.skip(a.len() as int), b) ==> starts_with(s, a + b) && s.skip(
            a.len() as int,
        ).skip(b.len() as int) == s.skip((a + b).len() as int),
{
    let rest = s.skip(a.len() as int);
    if starts_with(rest, b) {
        lemma_put_back(s, a);
        lemma_put_back(rest, b);
        assert(s == a + b + rest.skip(b.len() as int));
        assert(s.take((a + b).len() as int) == a + b);
        assert(rest.skip(b.len() as int) == s.skip((a + b).len() as int));
    }
}

// ---------------------------------------------------------------------------
// Playlists
// ---------------------------------------------------------------------------
/// A list on `youtube.com` is a playlist, unless the address shows a video: by `watch`
/// with `v=`, or by `youtu.be`.
pub proof fn law_what_a_youtube_list_is(u: Seq<char>)
    ensures
        is_youtube_list(u) <==> contains(u, "youtube.com"@) && contains(u, "list="@) && !(contains(
            u,
            "watch"@,
        ) && contains(u, "v="@)) && !contains(u, "youtu.be"@),
{
}

/// The page `videos` of a channel on Twitch is a playlist, whatever query follows; a
/// single recording and the channel itself are not.
pub proof fn law_channel_pages_are_playlists(channel: Seq<char>, query: Seq<char>)
    requires
        channel.len() > 0,
        !channel.contains('/') && !channel.contains('?') && !channel.contains('#'),
        query.len() > 0 ==> query[0] == '?' || query[0] == '#',
    ensures
        channel != "videos"@ ==> is_channel_videos(
            "https://www.twitch.tv/"@ + (channel + "/videos"@ + query),
        ),
        !is_channel_videos("https://www.twitch.tv/"@ + ("videos/"@ + channel + query)),
        !is_channel_videos("https://www.twitch.tv/"@ + (channel + query)),
{
    reveal_strlit("/videos");
    reveal_strlit("videos/");
    reveal_strlit("videos");
    let videos = "videos"@;
    let s = seq!['/'];
    assert("/videos"@ == s + videos);
    assert("videos/"@ == videos + s);
    lemma_behind_twitch(channel + "/videos"@ + query);
    lemma_behind_twitch("videos/"@ + channel + query);
    lemma_behind_twitch(channel + query);
    assert(channel + "/videos"@ == channel + s + videos);
    assert("videos/"@ + channel == videos + s + channel);
    lemma_apart(channel, videos, '?');
    lemma_apart(channel, videos, '#');
    lemma_apart(videos, channel, '?');
    lemma_apart(videos, channel, '#');
    lemma_base(channel + s + videos, query);
    lemma_base(videos + s + channel, query);
    lemma_base(channel, query);
    lemma_two_parts(channel, videos);
    lemma_two_parts(videos, channel);
    lemma_one_part(channel);
}

proof fn lemma_apart(a: Seq<char>, b: Seq<char>, c: char)
    requires
        !a.contains(c),
        !b.contains(c),
        c != '/',
    ensures
        !(a + seq!['/'] + b).contains(c),
{
    let s = a + seq!['/'] + b;
    assert forall|i: int| 0 <= i < s.len() implies s[i] != c by {
        if i < a.len() {
            assert(a.contains(a[i]));
        } else if i > a.len() {
            assert(b.contains(b[i - a.len() - 1]));
        }
    }
}

/// What follows Twitch's host is found.
proof fn lemma_behind_twitch(rest: Seq<char>)
    ensures
        after_first("https://www.twitch.tv/"@ + rest, "twitch.tv/"@) == Some(rest),
{
    reveal_strlit("https://www.twitch.tv/");
    reveal_strlit("twitch.tv/");
    reveal_strlit("https://www.");
    let left = "https://www."@;
    let p = "twitch.tv/"@;
    assert("https://www.twitch.tv/"@ == left + p);
    assert(left + p + rest == left + (p + rest));
    lemma_after(left, p, rest, 12);
}

proof fn lemma_after(left: Seq<char>, p: Seq<char>, rest: Seq<char>, n: nat)
    requires
        p.len() >= 2,
        p[0] == 't',
        p[1] == 'w',
        left.len() == n,
        forall|i: int|
            0 <= i < left.len() ==> #[trigger] left[i] != 't' || i + 1 < left.len() && left[i + 1]
                != 'w',
    ensures
        after_first(left + (p + rest), p) == Some(rest),
    decreases n,
{
    let s = left + (p + rest);
    if left.len() == 0 {
        assert(s == p + rest);
        assert(s.subrange(0, p.len() as int) == p);
        assert(s.skip(p.len() as int) == rest);
    } else {
        if occurs_at(s, p, 0) {
            assert(s.subrange(0, p.len() as int)[0] == 't');
            assert(s.subrange(0, p.len() as int)[1] == 'w');
            assert(s[0] == left[0]);
            assert(s[1] == 'w');
            if left.len() > 1 {
                assert(s[1] == left[1]);
            }
        }
        let tail = left.drop_first();
        assert(s.drop_first() == tail + (p + rest));
        assert forall|i: int| 0 <= i < tail.len() implies #[trigger] tail[i] != 't' || i + 1 < tail.len()
            && tail[i + 1] != 'w' by {
            assert(tail[i] == left[i + 1]);
            if i + 1 < tail.len() {
                assert(tail[i + 1] == left[i + 2]);
            }
        }
        lemma_after(tail, p, rest, (n - 1) as nat);
    }
}

proof fn lemma_base(path: Seq<char>, query: Seq<char>)
    requires
        !path.contains('?'),
        !path.contains('#'),
        query.len() > 0 ==> query[0] == '?' || query[0] == '#',
    ensures
        url_base(path + query) == path,
    decreases path.len(),
{
    if path.len() == 0 {
        assert(path + query == query);
        assert(url_base(query) == path);
    } else {
        assert(path.contains(path[0]));
        let tail = path.drop_first();
        assert forall|i: int| 0 <= i < tail.len() implies tail[i] != '?' && tail[i] != '#' by {
            assert(path.contains(path[i + 1]));
        }
        assert((path + query).drop_first() == tail + query);
        lemma_base(tail, query);
        assert(seq![path[0]] + tail == path);
    }
}

proof fn lemma_two_parts(a: Seq<char>, b: Seq<char>)
    requires
        a.len() > 0,
        b.len() > 0,
        !a.contains('/'),
        !b.contains('/'),
    ensures
        filled_parts(split(a + seq!['/'] + b, '/')) == seq![a, b],
{
    assert forall|j: int| 0 <= j < a.len() implies a[j] != '/' by {
        assert(a.contains(a[j]));
    }
    assert forall|j: int| 0 <= j < b.len() implies b[j] != '/' by {
        assert(b.contains(b[j]));
    }
    lemma_split_first(a, '/', b);
    lemma_split_none(b, '/');
    let parts = seq![a] + seq![b];
    reveal_with_fuel(filled_parts, 3);
    assert(parts.drop_last() == seq![a]);
    assert(seq![a].drop_last() == Seq::<Seq<char>>::empty());
    assert(filled_parts(parts) == seq![a, b]);
}

proof fn lemma_one_part(a: Seq<char>)
    requires
        !a.contains('/'),
    ensures
        filled_parts(split(a, '/')).len() <= 1,
{
    assert forall|j: int| 0 <= j < a.len() implies a[j] != '/' by {
        assert(a.contains(a[j]));
    }
    lemma_split_none(a, '/');
    reveal_with_fuel(filled_parts, 2);
    assert(seq![a].drop_last() == Seq::<Seq<char>>::empty());
}

// ---------------------------------------------------------------------------
// Keys
// ---------------------------------------------------------------------------
/// The key of an address is the address without the spaces around it, and if that is a
/// URL, with nothing in its query but the kept pairs.
pub proof fn law_key_is_the_address_with_the_kept_pairs(url: Seq<char>, keep: Seq<&str>)
    ensures
        url_pairs(trim(url)) is None ==> key_of(url, keep) == trim(url),
        url_pairs(trim(url)) is Some ==> key_of(url, keep) == url_rendered(
            trim(url),
            query_of(kept_pairs(url_pairs(trim(url))->0, keep)),
        )->0,
{
}

/// A pair is kept exactly if its name is one that is kept, behind those before it.
pub proof fn law_named_pairs_are_kept(
    pairs: Seq<(Seq<char>, Seq<char>)>,
    name: Seq<char>,
    value: Seq<char>,
    keep: Seq<&str>,
    i: int,
)
    ensures
        0 <= i < keep.len() && keep[i]@ == name ==> kept_pairs(pairs.push((name, value)), keep)
            == kept_pairs(pairs, keep).push((name, value)),
        (forall|j: int| 0 <= j < keep.len() ==> keep[j]@ != name) ==> kept_pairs(
            pairs.push((name, value)),
            keep,
        ) == kept_pairs(pairs, keep),
        kept_pairs(Seq::empty(), keep) == Seq::<(Seq<char>, Seq<char>)>::empty(),
{
    assert(pairs.push((name, value)).drop_last() == pairs);
    if 0 <= i < keep.len() && keep[i]@ == name {
        assert(keeps(keep, name));
    }
}

/// The kept pairs are written with an equals sign between name and value, and with an
/// ampersand between each two.
pub proof fn law_pairs_are_written_as_a_query(
    pairs: Seq<(Seq<char>, Seq<char>)>,
    name: Seq<char>,
    value: Seq<char>,
)
    ensures
        query_of(Seq::empty()) is None,
        query_of(pairs.push((name, value))) == Some(
            match query_of(pairs) {
                Some(q) => q + "&"@ + name + "="@ + value,
                None => name + "="@ + value,
            },
        ),
{
    let written = |p: (Seq<char>, Seq<char>)| p.0 + "="@ + p.1;
    let all = pairs.push((name, value));
    let parts = all.map_values(written);
    assert(parts.drop_last() == pairs.map_values(written));
    assert(parts.last() == name + "="@ + value);
    if pairs.len() > 0 {
        let q = join(pairs.map_values(written), "&"@);
        assert(join(parts, "&"@) == q + "&"@ + (name + "="@ + value));
        assert(q + "&"@ + (name + "="@ + value) == q + "&"@ + name + "="@ + value);
    }
}

} // verus!
