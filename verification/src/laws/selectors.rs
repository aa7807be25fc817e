//! Which streams are asked for: how good, how high, in which codec and language.
use crate::functions::formats::{
    acodec_filter_of, audio_base, audio_cap, audio_file_format, audio_format, audio_format_of,
    audio_prefs, canon_acodec_of, canon_vcodec_of, container_of, format_of, height_cap,
    lang_filter, pair, vcodec_filter_of, video_base, video_format, video_prefs, Quality,
};
use crate::functions::twitch::{twitch_audio_selector, twitch_video_selector, TwitchQuality};
use crate::numbers::decimal_text;
use crate::text::{
    contains, dedup, ends_with, first_of, join, lemma_dedup_first, lemma_dedup_last,
    lemma_first_of_is, lemma_replaced_at, lemma_replaced_none, lemma_split_first, lemma_split_none,
    occurs_at, replaced_once, split, starts_with,
};
use vstd::prelude::*;

verus! {

/// Whatever `w` says of the height is the filter `filter`, and it says it.
pub open spec fn only_height(w: Seq<char>, filter: Seq<char>) -> bool {
    &&& contains(w, filter)
    &&& forall|i: int| #[trigger] occurs_at(w, "height"@, i) ==> occurs_at(w, filter, i - 1)
}

/// `w` says nothing of the height.
pub open spec fn no_height(w: Seq<char>) -> bool {
    !contains(w, "height"@)
}

// ---------------------------------------------------------------------------
// By quality alone
// ---------------------------------------------------------------------------
/// The selectors of all qualities but the worst are alike but for the height: H.264
/// and AAC first, then mp4, then anything, each within 1080, 720 or 480 lines, or
/// any number of them for the best; at last anything at all. The worst asks for the
/// worst throughout.
pub proof fn law_qualities_differ_in_the_height(q: Quality)
    ensures
        ({
            let h = match q {
                Quality::High => "[height<=1080]"@,
                Quality::Medium => "[height<=720]"@,
                Quality::Low => "[height<=480]"@,
                _ => ""@,
            };
            &&& q != Quality::Worst ==> format_of(q) == "bv*"@ + h
                + "[vcodec^=avc1]+ba[acodec^=mp4a]/bv*"@ + h + "[ext=mp4]+ba[ext=m4a]/bv*"@ + h
                + "+ba/b"@ + (if q == Quality::Best {
                ""@
            } else {
                h + "/b"@
            })
            &&& q == Quality::Worst ==> format_of(q)
                == "wv*[vcodec^=avc1]+wa[acodec^=mp4a]/wv*+wa/w"@
        }),
{
    reveal_strlit("");
    reveal_strlit("bv*");
    reveal_strlit("[vcodec^=avc1]+ba[acodec^=mp4a]/bv*");
    reveal_strlit("[ext=mp4]+ba[ext=m4a]/bv*");
    reveal_strlit("+ba/b");
    reveal_strlit("/b");
    match q {
        Quality::Best => {
            reveal_strlit("bv*[vcodec^=avc1]+ba[acodec^=mp4a]/bv*[ext=mp4]+ba[ext=m4a]/bv*+ba/b");
            let h = ""@;
            assert(format_of(q) == "bv*"@ + h + "[vcodec^=avc1]+ba[acodec^=mp4a]/bv*"@ + h
                + "[ext=mp4]+ba[ext=m4a]/bv*"@ + h + "+ba/b"@ + ""@);
        },
        Quality::High => {
            reveal_strlit("[height<=1080]");
            reveal_strlit(
                "bv*[height<=1080][vcodec^=avc1]+ba[acodec^=mp4a]/bv*[height<=1080][ext=mp4]+ba[ext=m4a]/bv*[height<=1080]+ba/b[height<=1080]/b",
            );
            let h = "[height<=1080]"@;
            assert(format_of(q) == "bv*"@ + h + "[vcodec^=avc1]+ba[acodec^=mp4a]/bv*"@ + h
                + "[ext=mp4]+ba[ext=m4a]/bv*"@ + h + "+ba/b"@ + (h + "/b"@));
        },
        Quality::Medium => {
            reveal_strlit("[height<=720]");
            reveal_strlit(
                "bv*[height<=720][vcodec^=avc1]+ba[acodec^=mp4a]/bv*[height<=720][ext=mp4]+ba[ext=m4a]/bv*[height<=720]+ba/b[height<=720]/b",
            );
            let h = "[height<=720]"@;
            assert(format_of(q) == "bv*"@ + h + "[vcodec^=avc1]+ba[acodec^=mp4a]/bv*"@ + h
                + "[ext=mp4]+ba[ext=m4a]/bv*"@ + h + "+ba/b"@ + (h + "/b"@));
        },
        Quality::Low => {
            reveal_strlit("[height<=480]");
            reveal_strlit(
                "bv*[height<=480][vcodec^=avc1]+ba[acodec^=mp4a]/bv*[height<=480][ext=mp4]+ba[ext=m4a]/bv*[height<=480]+ba/b[height<=480]/b",
            );
            let h = "[height<=480]"@;
            assert(format_of(q) == "bv*"@ + h + "[vcodec^=avc1]+ba[acodec^=mp4a]/bv*"@ + h
                + "[ext=mp4]+ba[ext=m4a]/bv*"@ + h + "+ba/b"@ + (h + "/b"@));
        },
        Quality::Worst => {},
    }
}

/// `h` is a filter on the height and on nothing else.
spec fn is_height_filter(h: Seq<char>) -> bool {
    &&& h.len() > 8
    &&& h.take(8) == seq!['[', 'h', 'e', 'i', 'g', 'h', 't', '<']
    &&& forall|i: int| 6 <= i < h.len() ==> h[i] != 'h'
    &&& !h.contains('/')
}

proof fn lemma_height_filters()
    ensures
        is_height_filter("[height<=1080]"@),
        is_height_filter("[height<=720]"@),
        is_height_filter("[height<=480]"@),
{
    reveal_strlit("[height<=1080]");
    reveal_strlit("[height<=720]");
    reveal_strlit("[height<=480]");
    let s = seq!['[', 'h', 'e', 'i', 'g', 'h', 't', '<'];
    assert("[height<=1080]"@.take(8) == s);
    assert("[height<=720]"@.take(8) == s);
    assert("[height<=480]"@.take(8) == s);
}

proof fn lemma_lacks(a: Seq<char>, b: Seq<char>, c: char)
    requires
        !a.contains(c),
        !b.contains(c),
    ensures
        !(a + b).contains(c),
{
    assert forall|i: int| 0 <= i < (a + b).len() implies (a + b)[i] != c by {
        if i < a.len() {
            assert(a.contains(a[i]));
        } else {
            assert(b.contains(b[i - a.len()]));
        }
    }
}

/// Neither a slash nor an `h` stands in `s`.
spec fn is_apart(s: Seq<char>) -> bool {
    !s.contains('/') && !s.contains('h')
}

/// All wishes but the last keep to the height `h`.
proof fn lemma_heights(
    w: Seq<Seq<char>>,
    h: Seq<char>,
    v: Seq<char>,
    x: Seq<char>,
    y: Seq<char>,
    z: Seq<char>,
    e: Seq<char>,
)
    requires
        is_height_filter(h),
        is_apart(v) && is_apart(x) && is_apart(y) && is_apart(z) && is_apart(e),
        w.len() == 5,
        w[0] == v + h + x,
        w[1] == v + h + y,
        w[2] == v + h + z,
        w[3] == e + h + Seq::<char>::empty(),
        w[4] == e,
    ensures
        forall|i: int| 0 <= i < 4 ==> only_height(#[trigger] w[i], h),
        no_height(w[4]),
{
    assert forall|i: int| 0 <= i < 4 implies only_height(#[trigger] w[i], h) by {
        if i == 0 {
            lemma_one_height(v, h, x);
        } else if i == 1 {
            lemma_one_height(v, h, y);
        } else if i == 2 {
            lemma_one_height(v, h, z);
        } else {
            lemma_one_height(e, h, Seq::empty());
        }
    }
    lemma_no_h(e);
}

/// The wishes of a selector with a height `h` in all of them but the last.
proof fn lemma_parts(
    all: Seq<char>,
    h: Seq<char>,
    v: Seq<char>,
    x: Seq<char>,
    y: Seq<char>,
    z: Seq<char>,
    e: Seq<char>,
)
    requires
        !h.contains('/'),
        is_apart(v) && is_apart(x) && is_apart(y) && is_apart(z) && is_apart(e),
        all == v + h + (x + seq!['/'] + v) + h + (y + seq!['/'] + v) + h + (z + seq!['/'] + e) + (h
            + (seq!['/'] + e)),
    ensures
        split(all, '/').len() == 5,
        split(all, '/')[0] == v + h + x,
        split(all, '/')[1] == v + h + y,
        split(all, '/')[2] == v + h + z,
        split(all, '/')[3] == e + h + Seq::<char>::empty(),
        split(all, '/')[4] == e,
{
    let none = Seq::<char>::empty();
    let a = v + h + x;
    let b = v + h + y;
    let c = v + h + z;
    let d = e + h + none;
    assert(!a.contains('/') && !b.contains('/') && !c.contains('/') && !d.contains('/')) by {
        lemma_lacks(v, h, '/');
        lemma_lacks(v + h, x, '/');
        lemma_lacks(v + h, y, '/');
        lemma_lacks(v + h, z, '/');
        lemma_lacks(e, h, '/');
        lemma_lacks(e + h, none, '/');
    }
    lemma_regroup(h, v, x, y, z, e, seq!['/']);
    lemma_five_parts(a, b, c, d, e);
}

proof fn lemma_five_parts(a: Seq<char>, b: Seq<char>, c: Seq<char>, d: Seq<char>, e: Seq<char>)
    requires
        !a.contains('/') && !b.contains('/') && !c.contains('/') && !d.contains('/')
            && !e.contains('/'),
    ensures
        ({
            let s = seq!['/'];
            let w = split(a + s + (b + s + (c + s + (d + s + e))), '/');
            w.len() == 5 && w[0] == a && w[1] == b && w[2] == c && w[3] == d && w[4] == e
        }),
{
    let s = seq!['/'];
    let four = d + s + e;
    let three = c + s + four;
    let two = b + s + three;
    lemma_cut(a, two);
    lemma_cut(b, three);
    lemma_cut(c, four);
    lemma_cut(d, e);
    assert forall|j: int| 0 <= j < e.len() implies e[j] != '/' by {
        assert(e.contains(e[j]));
    }
    lemma_split_none(e, '/');
    let w = split(a + s + two, '/');
    assert(w == seq![a] + (seq![b] + (seq![c] + (seq![d] + seq![e]))));
}

proof fn lemma_regroup(
    h: Seq<char>,
    v: Seq<char>,
    x: Seq<char>,
    y: Seq<char>,
    z: Seq<char>,
    e: Seq<char>,
    s: Seq<char>,
)
    ensures
        v + h + (x + s + v) + h + (y + s + v) + h + (z + s + e) + (h + (s + e)) == (v + h + x) + s
            + ((v + h + y) + s + ((v + h + z) + s + ((e + h + Seq::<char>::empty()) + s + e))),
{
    let none = Seq::<char>::empty();
    let tail = (e + h + none) + s + e;
    assert(e + (h + (s + e)) == tail);
    let third = (v + h + z) + s + tail;
    assert(v + (h + ((z + s + e) + (h + (s + e)))) == third);
    let second = (v + h + y) + s + third;
    assert(v + (h + ((y + s + v) + (h + ((z + s + e) + (h + (s + e)))))) == second);
    assert((v + h + x) + s + second == v + (h + ((x + s + v) + (h + ((y + s + v) + (h + ((z + s + e)
        + (h + (s + e)))))))));
    assert(v + h + (x + s + v) + h + (y + s + v) + h + (z + s + e) + (h + (s + e)) == v + (h + ((x
        + s + v) + (h + ((y + s + v) + (h + ((z + s + e) + (h + (s + e)))))))));
}

/// The words that the selectors by quality are made of.
proof fn lemma_words()
    ensures
        is_apart("bv*"@),
        is_apart("[vcodec^=avc1]+ba[acodec^=mp4a]"@),
        is_apart("[ext=mp4]+ba[ext=m4a]"@),
        is_apart("+ba"@),
        is_apart("b"@),
        "[vcodec^=avc1]+ba[acodec^=mp4a]/bv*"@ == "[vcodec^=avc1]+ba[acodec^=mp4a]"@ + seq!['/']
            + "bv*"@,
        "[ext=mp4]+ba[ext=m4a]/bv*"@ == "[ext=mp4]+ba[ext=m4a]"@ + seq!['/'] + "bv*"@,
        "+ba/b"@ == "+ba"@ + seq!['/'] + "b"@,
        "/b"@ == seq!['/'] + "b"@,
{
    reveal_strlit("bv*");
    reveal_strlit("b");
    reveal_strlit("/b");
    reveal_strlit("+ba");
    reveal_strlit("+ba/b");
    reveal_strlit("[vcodec^=avc1]+ba[acodec^=mp4a]");
    reveal_strlit("[ext=mp4]+ba[ext=m4a]");
    reveal_strlit("[vcodec^=avc1]+ba[acodec^=mp4a]/bv*");
    reveal_strlit("[ext=mp4]+ba[ext=m4a]/bv*");
    let s = seq!['/'];
    assert("[vcodec^=avc1]+ba[acodec^=mp4a]/bv*"@ == "[vcodec^=avc1]+ba[acodec^=mp4a]"@ + s
        + "bv*"@);
    assert("[ext=mp4]+ba[ext=m4a]/bv*"@ == "[ext=mp4]+ba[ext=m4a]"@ + s + "bv*"@);
    assert("+ba/b"@ == "+ba"@ + s + "b"@);
    assert("/b"@ == s + "b"@);
}

proof fn lemma_cut(a: Seq<char>, rest: Seq<char>)
    requires
        !a.contains('/'),
    ensures
        split(a + seq!['/'] + rest, '/') == seq![a] + split(rest, '/'),
{
    assert forall|j: int| 0 <= j < a.len() implies a[j] != '/' by {
        assert(a.contains(a[j]));
    }
    lemma_split_first(a, '/', rest);
}

/// Where no `h` stands before or behind the filter, and one in it, the filter is all
/// that is said of the height.
proof fn lemma_one_height(left: Seq<char>, filter: Seq<char>, right: Seq<char>)
    requires
        !left.contains('h'),
        !right.contains('h'),
        is_height_filter(filter),
    ensures
        only_height(left + filter + right, filter),
{
    reveal_strlit("height");
    let w = left + filter + right;
    let n = left.len() as int;
    assert(w.subrange(n, n + filter.len()) == filter);
    assert(occurs_at(w, filter, n));
    assert forall|i: int| #[trigger] occurs_at(w, "height"@, i) implies occurs_at(
        w,
        filter,
        i - 1,
    ) by {
        let sub = w.subrange(i, i + 6);
        assert(sub[0] == 'h' && sub[1] == 'e' && w[i] == sub[0] && w[i + 1] == sub[1]);
        assert(forall|j: int| 0 <= j < 8 ==> filter[j] == filter.take(8)[j]);
        if i < n {
            assert(left.contains(left[i]));
        } else if i >= n + filter.len() {
            assert(right.contains(right[i - n - filter.len()]));
        } else {
            assert(filter[i - n] == 'h');
            assert(i - n == 1 || i - n == 5);
            if i - n == 5 {
                assert(w[i + 1] == filter[6]);
                assert(filter[6] == 't');
            }
        }
    }
}

/// By its quality alone a video is limited to 1080, 720 or 480 lines if the quality
/// is high, medium or low, in every wish but the last, and not limited in height if
/// it is the best or the worst.
pub proof fn law_height_follows_the_quality(q: Quality)
    ensures
        ({
            let w = split(format_of(q), '/');
            &&& w.len() >= 3
            &&& no_height(w.last())
            &&& forall|i: int|
                0 <= i < w.len() - 1 ==> match q {
                    Quality::High => only_height(#[trigger] w[i], "[height<=1080]"@),
                    Quality::Medium => only_height(w[i], "[height<=720]"@),
                    Quality::Low => only_height(w[i], "[height<=480]"@),
                    Quality::Best | Quality::Worst => no_height(w[i]),
                }
            &&& format_of(q).contains('w') <==> q == Quality::Worst
            &&& format_of(q).contains('b') <==> q != Quality::Worst
        }),
{
    match q {
        Quality::Best => {
            lemma_best_wishes();
        },
        Quality::Worst => {
            lemma_worst_wishes();
        },
        _ => {
            let h = match q {
                Quality::High => "[height<=1080]"@,
                Quality::Medium => "[height<=720]"@,
                _ => "[height<=480]"@,
            };
            law_qualities_differ_in_the_height(q);
            lemma_height_filters();
            lemma_words();
            lemma_parts(
                format_of(q),
                h,
                "bv*"@,
                "[vcodec^=avc1]+ba[acodec^=mp4a]"@,
                "[ext=mp4]+ba[ext=m4a]"@,
                "+ba"@,
                "b"@,
            );
            lemma_heights(
                split(format_of(q), '/'),
                h,
                "bv*"@,
                "[vcodec^=avc1]+ba[acodec^=mp4a]"@,
                "[ext=mp4]+ba[ext=m4a]"@,
                "+ba"@,
                "b"@,
            );
            lemma_middle_is_best(q);
        },
    }
}

proof fn lemma_best_wishes()
    ensures
        ({
            let all = format_of(Quality::Best);
            let w = split(all, '/');
            &&& w.len() == 4
            &&& forall|i: int| 0 <= i < 4 ==> no_height(#[trigger] w[i])
            &&& all.contains('b')
            &&& !all.contains('w')
        }),
{
    reveal_strlit("bv*[vcodec^=avc1]+ba[acodec^=mp4a]/bv*[ext=mp4]+ba[ext=m4a]/bv*+ba/b");
    reveal_strlit("bv*[vcodec^=avc1]+ba[acodec^=mp4a]");
    reveal_strlit("bv*[ext=mp4]+ba[ext=m4a]");
    reveal_strlit("bv*+ba");
    reveal_strlit("b");
    let all = format_of(Quality::Best);
    let (a, b, c, d) = (
        "bv*[vcodec^=avc1]+ba[acodec^=mp4a]"@,
        "bv*[ext=mp4]+ba[ext=m4a]"@,
        "bv*+ba"@,
        "b"@,
    );
    let s = seq!['/'];
    assert(all == a + s + (b + s + (c + s + d)));
    lemma_split_first(a, '/', b + s + (c + s + d));
    lemma_split_first(b, '/', c + s + d);
    lemma_split_first(c, '/', d);
    lemma_split_none(d, '/');
    assert(split(all, '/') == seq![a, b, c, d]);
    lemma_no_h(a);
    lemma_no_h(b);
    lemma_no_h(c);
    lemma_no_h(d);
    assert(all[0] == 'b');
}

proof fn lemma_worst_wishes()
    ensures
        ({
            let all = format_of(Quality::Worst);
            let w = split(all, '/');
            &&& w.len() == 3
            &&& forall|i: int| 0 <= i < 3 ==> no_height(#[trigger] w[i])
            &&& all.contains('w')
            &&& !all.contains('b')
        }),
{
    reveal_strlit("wv*[vcodec^=avc1]+wa[acodec^=mp4a]/wv*+wa/w");
    reveal_strlit("wv*[vcodec^=avc1]+wa[acodec^=mp4a]");
    reveal_strlit("wv*+wa");
    reveal_strlit("w");
    let all = format_of(Quality::Worst);
    let (a, b, c) = ("wv*[vcodec^=avc1]+wa[acodec^=mp4a]"@, "wv*+wa"@, "w"@);
    let s = seq!['/'];
    assert(all == a + s + (b + s + c));
    lemma_split_first(a, '/', b + s + c);
    lemma_split_first(b, '/', c);
    lemma_split_none(c, '/');
    assert(split(all, '/') == seq![a, b, c]);
    lemma_no_h(a);
    lemma_no_h(b);
    lemma_no_h(c);
    assert(all[0] == 'w');
}

proof fn lemma_middle_is_best(q: Quality)
    requires
        q != Quality::Worst && q != Quality::Best,
    ensures
        format_of(q).contains('b'),
        !format_of(q).contains('w'),
{
    match q {
        Quality::High => {
            reveal_strlit(
                "bv*[height<=1080][vcodec^=avc1]+ba[acodec^=mp4a]/bv*[height<=1080][ext=mp4]+ba[ext=m4a]/bv*[height<=1080]+ba/b[height<=1080]/b",
            );
        },
        Quality::Medium => {
            reveal_strlit(
                "bv*[height<=720][vcodec^=avc1]+ba[acodec^=mp4a]/bv*[height<=720][ext=mp4]+ba[ext=m4a]/bv*[height<=720]+ba/b[height<=720]/b",
            );
        },
        _ => {
            reveal_strlit(
                "bv*[height<=480][vcodec^=avc1]+ba[acodec^=mp4a]/bv*[height<=480][ext=mp4]+ba[ext=m4a]/bv*[height<=480]+ba/b[height<=480]/b",
            );
        },
    }
    assert(format_of(q)[0] == 'b');
}

proof fn lemma_no_h(w: Seq<char>)
    requires
        !w.contains('h'),
    ensures
        no_height(w),
{
    reveal_strlit("height");
    if contains(w, "height"@) {
        let i = choose|i: int| #[trigger] occurs_at(w, "height"@, i);
        assert(w.subrange(i, i + 6)[0] == 'h');
        assert(w.contains(w[i]));
    }
}

// ---------------------------------------------------------------------------
// Sound alone
// ---------------------------------------------------------------------------
/// Sound is limited to 160, 80 or 50 kbit/s if the quality is high, medium or low,
/// and failing that taken without the limit; the best and the worst have none, and
/// only the worst asks for the worst.
pub proof fn law_bitrate_follows_the_quality(q: Quality)
    ensures
        audio_format_of(q) == match q {
            Quality::Best => "ba"@,
            Quality::High => "ba[abr<=160]/ba"@,
            Quality::Medium => "ba[abr<=80]/ba"@,
            Quality::Low => "ba[abr<=50]/ba"@,
            Quality::Worst => "wa"@,
        },
{
    reveal_strlit("");
    reveal_strlit("ba");
    reveal_strlit("/");
    reveal_strlit("[abr<=160]");
    reveal_strlit("[abr<=80]");
    reveal_strlit("[abr<=50]");
    reveal_strlit("ba[abr<=160]/ba");
    reveal_strlit("ba[abr<=80]/ba");
    reveal_strlit("ba[abr<=50]/ba");
    assert("ba"@ + "[abr<=160]"@ + "/"@ + "ba"@ == "ba[abr<=160]/ba"@);
    assert("ba"@ + "[abr<=80]"@ + "/"@ + "ba"@ == "ba[abr<=80]/ba"@);
    assert("ba"@ + "[abr<=50]"@ + "/"@ + "ba"@ == "ba[abr<=50]/ba"@);
}

/// In audio mode the codec that was named, aac or opus, is asked for in the language
/// that was named, within 160, 80 or 50 kbit/s; then the codec, the language and
/// the limit are given up, in this order, but for the codec without the language.
pub proof fn law_audio_wishes(
    q: Quality,
    audio_codec: Option<Seq<char>>,
    audio_lang: Option<Seq<char>>,
)
    ensures
        ({
            let s = if q == Quality::Worst {
                "wa"@
            } else {
                "ba"@
            };
            let c = match q {
                Quality::High => "[abr<=160]"@,
                Quality::Medium => "[abr<=80]"@,
                Quality::Low => "[abr<=50]"@,
                _ => Seq::empty(),
            };
            let l = match audio_lang {
                Some(lang) if lang.len() > 0 => "[language="@ + lang + "]"@,
                _ => Seq::empty(),
            };
            let f = if audio_codec == Some("aac"@) {
                "[acodec^=mp4a]"@
            } else if audio_codec == Some("opus"@) {
                "[acodec^=opus]"@
            } else {
                Seq::empty()
            };
            let with_codec = if f.len() > 0 {
                seq![s + l + c + f]
            } else {
                seq![]
            };
            let without_language = if f.len() > 0 && l.len() > 0 {
                seq![s + c + f, s + c]
            } else {
                seq![s + c]
            };
            let without_limit = if c.len() > 0 {
                seq![s + l, s]
            } else {
                seq![]
            };
            audio_format(q, audio_codec, audio_lang) == join(
                dedup(with_codec + seq![s + l + c] + without_language + without_limit),
                "/"@,
            )
        }),
{
    reveal_strlit("");
    reveal_strlit("aac");
    reveal_strlit("opus");
    reveal_strlit("]");
    reveal_strlit("[acodec^=mp4a]");
    reveal_strlit("[acodec^=opus]");
    reveal_strlit("[abr<=160]");
    reveal_strlit("[abr<=80]");
    reveal_strlit("[abr<=50]");
    assert(""@ == Seq::<char>::empty());
    let s = audio_base(q);
    let c = audio_cap(q);
    let l = lang_filter(audio_lang);
    let f = match acodec_filter_of(audio_codec) {
        Some(f) => f,
        None => Seq::empty(),
    };
    let none = Seq::<Seq<char>>::empty();
    let with_codec = if f.len() > 0 {
        seq![s + l + c + f]
    } else {
        none
    };
    let without_limit = if c.len() > 0 {
        seq![s + l, s]
    } else {
        none
    };
    if f.len() > 0 && l.len() > 0 {
        assert(audio_prefs(q, audio_codec, audio_lang) == with_codec + seq![s + l + c] + seq![
            s + c + f,
            s + c,
        ] + without_limit);
    } else {
        assert(audio_prefs(q, audio_codec, audio_lang) == with_codec + seq![s + l + c] + seq![s + c]
            + without_limit);
    }
}

// ---------------------------------------------------------------------------
// Video
// ---------------------------------------------------------------------------
/// What a wish says of the picture.
pub open spec fn picture(w: Seq<char>) -> Seq<char> {
    w.take(first_of(w, '+'))
}

proof fn lemma_picture(p: Seq<char>, sound: Seq<char>)
    requires
        !p.contains('+'),
    ensures
        picture(p) == p,
        picture(pair(p, sound)) == p,
{
    reveal_strlit("+");
    let w = pair(p, sound);
    assert forall|j: int| 0 <= j < p.len() implies p[j] != '+' by {
        assert(p.contains(p[j]));
    }
    lemma_first_of_is(p, '+', p.len() as int);
    assert(p.take(p.len() as int) == p);
    assert(w[p.len() as int] == '+');
    assert forall|j: int| 0 <= j < p.len() implies w[j] != '+' by {
        assert(w[j] == p[j]);
    }
    lemma_first_of_is(w, '+', p.len() as int);
    assert(w.take(p.len() as int) == p);
}

/// All but the last of the parts that are left are among all but the last part.
proof fn lemma_dedup_among(parts: Seq<Seq<char>>, i: int) -> (j: int)
    requires
        0 <= i < dedup(parts).len() - 1,
    ensures
        0 <= j < parts.len() - 1,
        dedup(parts)[i] == parts[j],
    decreases parts.len(),
{
    if parts.len() < 2 {
        i
    } else {
        lemma_dedup_within(parts.drop_last(), i)
    }
}

proof fn lemma_dedup_within(parts: Seq<Seq<char>>, i: int) -> (j: int)
    requires
        0 <= i < dedup(parts).len(),
    ensures
        0 <= j < parts.len(),
        dedup(parts)[i] == parts[j],
    decreases parts.len(),
{
    if parts.len() < 2 {
        i
    } else if i < dedup(parts.drop_last()).len() {
        lemma_dedup_within(parts.drop_last(), i)
    } else {
        parts.len() - 1
    }
}

/// `w` keeps to the height of the quality, as far as it is about the picture.
spec fn fits_height(q: Quality, w: Seq<char>) -> bool {
    match q {
        Quality::High => only_height(picture(w), "[height<=1080]"@),
        Quality::Medium => only_height(picture(w), "[height<=720]"@),
        Quality::Low => only_height(picture(w), "[height<=480]"@),
        Quality::Best | Quality::Worst => no_height(picture(w)),
    }
}

proof fn lemma_picture_height(q: Quality, base: Seq<char>, filter: Seq<char>, sound: Seq<char>)
    requires
        !base.contains('h') && !base.contains('+'),
        !filter.contains('h') && !filter.contains('+'),
    ensures
        fits_height(q, pair(base + height_cap(q) + filter, sound)),
        fits_height(q, base + height_cap(q) + filter),
{
    reveal_strlit("");
    reveal_strlit("[height<=1080]");
    reveal_strlit("[height<=720]");
    reveal_strlit("[height<=480]");
    let cap = height_cap(q);
    let p = base + cap + filter;
    lemma_height_filters();
    lemma_lacks(base, cap, '+');
    lemma_lacks(base + cap, filter, '+');
    lemma_picture(p, sound);
    if cap.len() > 0 {
        lemma_one_height(base, cap, filter);
    } else {
        lemma_lacks(base, cap, 'h');
        lemma_lacks(base + cap, filter, 'h');
        lemma_no_h(p);
    }
}

/// In video mode the height is limited to 1080, 720 or 480 lines if the quality is
/// high, medium or low, in every wish but the last, whatever the codecs and the
/// language; the best and the worst are not limited in height. At last any stream
/// at all is taken.
pub proof fn law_height_in_video_mode(
    q: Quality,
    video_codec: Option<Seq<char>>,
    audio_codec: Option<Seq<char>>,
    audio_lang: Option<Seq<char>>,
)
    ensures
        exists|w: Seq<Seq<char>>|
            #![trigger join(w, "/"@)]
            {
                &&& video_format(q, video_codec, audio_codec, audio_lang) == join(w, "/"@)
                &&& w.len() >= 2
                &&& w.last() == "b"@
                &&& forall|i: int|
                    0 <= i < w.len() - 1 ==> match q {
                        Quality::High => only_height(picture(#[trigger] w[i]), "[height<=1080]"@),
                        Quality::Medium => only_height(picture(w[i]), "[height<=720]"@),
                        Quality::Low => only_height(picture(w[i]), "[height<=480]"@),
                        Quality::Best | Quality::Worst => no_height(picture(w[i])),
                    }
            },
{
    reveal_strlit("b");
    reveal_strlit("bv*");
    reveal_strlit("wv*");
    reveal_strlit("+");
    reveal_strlit("[vcodec^=avc1]");
    reveal_strlit("[vcodec~='^vp0?9']");
    reveal_strlit("[vcodec^=av01]");
    let prefs = video_prefs(q, video_codec, audio_codec, audio_lang);
    let w = dedup(prefs);
    let v = video_base(q) + height_cap(q);
    let vf = match vcodec_filter_of(video_codec) {
        Some(f) => f,
        None => "[vcodec^=avc1]"@,
    };
    let none = Seq::<char>::empty();
    lemma_dedup_last(prefs);
    lemma_dedup_first(prefs);
    assert(prefs[0].len() >= 2);
    if w.len() == 1 {
        assert(w[0] == w.last());
    }
    assert forall|j: int| 0 <= j < prefs.len() - 1 implies fits_height(q, #[trigger] prefs[j]) by {
        if j == prefs.len() - 2 {
            lemma_picture_height(q, "b"@, none, none);
            assert("b"@ + height_cap(q) + none == prefs[j]);
        } else {
            assert(v + none == v);
            let s = audio_base(q);
            let l = lang_filter(audio_lang);
            let af = match acodec_filter_of(audio_codec) {
                Some(f) => f,
                None => "[acodec^=mp4a]"@,
            };
            lemma_picture_height(q, video_base(q), vf, s + l + af);
            lemma_picture_height(q, video_base(q), vf, s + l);
            lemma_picture_height(q, video_base(q), vf, s);
            lemma_picture_height(q, video_base(q), none, s + l + af);
            lemma_picture_height(q, video_base(q), none, s + l);
            lemma_picture_height(q, video_base(q), none, s);
        }
    }
    assert forall|i: int| 0 <= i < w.len() - 1 implies fits_height(q, #[trigger] w[i]) by {
        let j = lemma_dedup_among(prefs, i);
        assert(fits_height(q, prefs[j]));
    }
    assert(video_format(q, video_codec, audio_codec, audio_lang) == join(w, "/"@));
}

/// In video mode the codecs that were named, h264 and aac if none were, are asked for
/// in the language that was named; then the codec of the sound is given up, then that
/// of the picture, then the language, then the parting of picture and sound, and at
/// last the height. The worst quality asks for the worst, all others for the best.
pub proof fn law_video_wishes(
    q: Quality,
    video_codec: Option<Seq<char>>,
    audio_codec: Option<Seq<char>>,
    audio_lang: Option<Seq<char>>,
)
    ensures
        ({
            let h = match q {
                Quality::High => "[height<=1080]"@,
                Quality::Medium => "[height<=720]"@,
                Quality::Low => "[height<=480]"@,
                _ => Seq::empty(),
            };
            let v = if q == Quality::Worst {
                "wv*"@ + h
            } else {
                "bv*"@ + h
            };
            let s = if q == Quality::Worst {
                "+wa"@
            } else {
                "+ba"@
            };
            let l = match audio_lang {
                Some(lang) if lang.len() > 0 => "[language="@ + lang + "]"@,
                _ => Seq::empty(),
            };
            let vf = if video_codec == Some("vp9"@) {
                "[vcodec~='^vp0?9']"@
            } else if video_codec == Some("av1"@) {
                "[vcodec^=av01]"@
            } else {
                "[vcodec^=avc1]"@
            };
            let af = if audio_codec == Some("opus"@) {
                "[acodec^=opus]"@
            } else {
                "[acodec^=mp4a]"@
            };
            let named = audio_codec == Some("aac"@) || audio_codec == Some("opus"@);
            let sound_codec_alone = if named {
                seq![v + s + l + af]
            } else {
                seq![]
            };
            let without_language = if l.len() > 0 {
                seq![v + vf + s, v + s]
            } else {
                seq![]
            };
            video_format(q, video_codec, audio_codec, audio_lang) == join(
                dedup(
                    seq![v + vf + s + l + af, v + vf + s + l] + sound_codec_alone + seq![v + s + l]
                        + without_language + seq!["b"@ + h, "b"@],
                ),
                "/"@,
            )
        }),
{
    lemma_short_names(video_codec, audio_codec);
    let v = video_base(q) + height_cap(q);
    let l = lang_filter(audio_lang);
    let b = audio_base(q);
    let s = "+"@ + b;
    let vf = match vcodec_filter_of(video_codec) {
        Some(f) => f,
        None => "[vcodec^=avc1]"@,
    };
    let af = match acodec_filter_of(audio_codec) {
        Some(f) => f,
        None => "[acodec^=mp4a]"@,
    };
    lemma_pairs(v, vf, b, l, af);
    assert("]"@.len() == 1) by {
        reveal_strlit("]");
    }
    let none = Seq::<Seq<char>>::empty();
    let sound_codec_alone = if acodec_filter_of(audio_codec) is Some {
        seq![v + s + l + af]
    } else {
        none
    };
    let without_language = if l.len() > 0 {
        seq![v + vf + s, v + s]
    } else {
        none
    };
    assert(video_prefs(q, video_codec, audio_codec, audio_lang) == seq![
        v + vf + s + l + af,
        v + vf + s + l,
    ] + sound_codec_alone + seq![v + s + l] + without_language + seq![
        "b"@ + height_cap(q),
        "b"@,
    ]);
}

proof fn lemma_pairs(v: Seq<char>, vf: Seq<char>, b: Seq<char>, l: Seq<char>, af: Seq<char>)
    ensures
        pair(v + vf, b + l + af) == v + vf + ("+"@ + b) + l + af,
        pair(v + vf, b + l) == v + vf + ("+"@ + b) + l,
        pair(v, b + l + af) == v + ("+"@ + b) + l + af,
        pair(v, b + l) == v + ("+"@ + b) + l,
        pair(v + vf, b) == v + vf + ("+"@ + b),
        pair(v, b) == v + ("+"@ + b),
{
    let s = "+"@ + b;
    assert(pair(v + vf, b + l + af) == v + vf + s + l + af);
    assert(pair(v + vf, b + l) == v + vf + s + l);
    assert(pair(v, b + l + af) == v + s + l + af);
    assert(pair(v, b + l) == v + s + l);
    assert(pair(v + vf, b) == v + vf + s);
    assert(pair(v, b) == v + s);
}

/// The short names of codecs, and the words for sound.
proof fn lemma_short_names(video_codec: Option<Seq<char>>, audio_codec: Option<Seq<char>>)
    ensures
        ""@ == Seq::<char>::empty(),
        "+ba"@ == "+"@ + "ba"@,
        "+wa"@ == "+"@ + "wa"@,
        vcodec_filter_of(video_codec) is Some ==> vcodec_filter_of(video_codec)->0 == (
        if video_codec == Some("vp9"@) {
            "[vcodec~='^vp0?9']"@
        } else if video_codec == Some("av1"@) {
            "[vcodec^=av01]"@
        } else {
            "[vcodec^=avc1]"@
        }),
        vcodec_filter_of(video_codec) is None ==> video_codec != Some("vp9"@) && video_codec
            != Some("av1"@),
        acodec_filter_of(audio_codec) is Some <==> audio_codec == Some("aac"@) || audio_codec
            == Some("opus"@),
        acodec_filter_of(audio_codec) is Some ==> acodec_filter_of(audio_codec)->0 == (
        if audio_codec == Some("opus"@) {
            "[acodec^=opus]"@
        } else {
            "[acodec^=mp4a]"@
        }),
{
    reveal_strlit("");
    reveal_strlit("aac");
    reveal_strlit("opus");
    reveal_strlit("h264");
    reveal_strlit("vp9");
    reveal_strlit("av1");
    reveal_strlit("+");
    reveal_strlit("ba");
    reveal_strlit("wa");
    reveal_strlit("+ba");
    reveal_strlit("+wa");
    assert(""@ == Seq::<char>::empty());
    assert("+ba"@ == "+"@ + "ba"@);
    assert("+wa"@ == "+"@ + "wa"@);
    assert("vp9"@.len() == 3 && "av1"@.len() == 3 && "h264"@.len() == 4 && "vp9"@[0] != "av1"@[0]);
    assert("aac"@.len() != "opus"@.len());
}

/// A better quality is never limited to fewer lines, nor to a lower bitrate: the limit of
/// the high quality is above that of the medium one, and that above the limit of the low.
pub proof fn law_better_is_never_lower()
    ensures
        exists|high: nat, medium: nat, low: nat|
            {
                &&& high > medium > low > 0
                &&& height_cap(Quality::High) == #[trigger] within("height"@, high)
                &&& height_cap(Quality::Medium) == #[trigger] within("height"@, medium)
                &&& height_cap(Quality::Low) == #[trigger] within("height"@, low)
            },
        exists|high: nat, medium: nat, low: nat|
            {
                &&& high > medium > low > 0
                &&& audio_cap(Quality::High) == #[trigger] within("abr"@, high)
                &&& audio_cap(Quality::Medium) == #[trigger] within("abr"@, medium)
                &&& audio_cap(Quality::Low) == #[trigger] within("abr"@, low)
            },
        height_cap(Quality::Best).len() == 0,
        height_cap(Quality::Worst).len() == 0,
        audio_cap(Quality::Best).len() == 0,
        audio_cap(Quality::Worst).len() == 0,
{
    reveal_strlit("");
    reveal_strlit("height");
    reveal_strlit("abr");
    reveal_strlit("<=");
    reveal_strlit("[");
    reveal_strlit("]");
    reveal_strlit("[height<=1080]");
    reveal_strlit("[height<=720]");
    reveal_strlit("[height<=480]");
    reveal_strlit("[abr<=160]");
    reveal_strlit("[abr<=80]");
    reveal_strlit("[abr<=50]");
    reveal_with_fuel(decimal_text, 5);
    assert(decimal_text(1080) == seq!['1', '0', '8', '0']);
    assert(decimal_text(720) == seq!['7', '2', '0']);
    assert(decimal_text(480) == seq!['4', '8', '0']);
    assert(decimal_text(160) == seq!['1', '6', '0']);
    assert(decimal_text(80) == seq!['8', '0']);
    assert(decimal_text(50) == seq!['5', '0']);
    assert("[height<=1080]"@ == within("height"@, 1080));
    assert("[height<=720]"@ == within("height"@, 720));
    assert("[height<=480]"@ == within("height"@, 480));
    assert("[abr<=160]"@ == within("abr"@, 160));
    assert("[abr<=80]"@ == within("abr"@, 80));
    assert("[abr<=50]"@ == within("abr"@, 50));
}

/// The filter that keeps `what` to `limit`.
pub open spec fn within(what: Seq<char>, limit: nat) -> Seq<char> {
    "["@ + what + "<="@ + decimal_text(limit) + "]"@
}

// ---------------------------------------------------------------------------
// Codecs and containers
// ---------------------------------------------------------------------------
/// The filter for a codec's short name selects streams that are shown under this very
/// name, as far as it goes by the beginning of yt-dlp's name for the codec.
pub proof fn law_filters_select_what_is_shown(rest: Seq<char>)
    ensures
        vcodec_filter_of(Some("h264"@)) == Some("[vcodec^="@ + "avc1"@ + "]"@),
        canon_vcodec_of("avc1"@ + rest) == Some("h264"@),
        vcodec_filter_of(Some("av1"@)) == Some("[vcodec^="@ + "av01"@ + "]"@),
        canon_vcodec_of("av01"@ + rest) == Some("av1"@),
        vcodec_filter_of(Some("vp9"@)) == Some("[vcodec~='^vp0?9']"@),
        canon_vcodec_of("vp9"@ + rest) == Some("vp9"@),
        canon_vcodec_of("vp09"@ + rest) == Some("vp9"@),
        acodec_filter_of(Some("aac"@)) == Some("[acodec^="@ + "mp4a"@ + "]"@),
        canon_acodec_of("mp4a"@ + rest) == Some("aac"@),
        acodec_filter_of(Some("opus"@)) == Some("[acodec^="@ + "opus"@ + "]"@),
        canon_acodec_of("opus"@ + rest) == Some("opus"@),
{
    reveal_strlit("h264");
    reveal_strlit("vp9");
    reveal_strlit("vp09");
    reveal_strlit("av1");
    reveal_strlit("av01");
    reveal_strlit("avc1");
    reveal_strlit("avc3");
    reveal_strlit("aac");
    reveal_strlit("mp4a");
    reveal_strlit("opus");
    reveal_strlit("]");
    reveal_strlit("[vcodec^=");
    reveal_strlit("[acodec^=");
    reveal_strlit("[vcodec^=avc1]");
    reveal_strlit("[vcodec^=av01]");
    reveal_strlit("[acodec^=mp4a]");
    reveal_strlit("[acodec^=opus]");
    assert("[vcodec^=avc1]"@ == "[vcodec^="@ + "avc1"@ + "]"@);
    assert("[vcodec^=av01]"@ == "[vcodec^="@ + "av01"@ + "]"@);
    assert("[acodec^=mp4a]"@ == "[acodec^="@ + "mp4a"@ + "]"@);
    assert("[acodec^=opus]"@ == "[acodec^="@ + "opus"@ + "]"@);
    assert("vp9"@[0] == 'v' && "av1"@[0] == 'a' && "h264"@.len() == 4 && "av1"@.len() == 3);
    assert("aac"@.len() != "opus"@.len());
    assert(("avc1"@ + rest).take(4) == "avc1"@);
    lemma_other_beginning("av01"@, rest, "avc1"@, 2);
    lemma_other_beginning("av01"@, rest, "avc3"@, 2);
    lemma_other_beginning("av01"@, rest, "h264"@, 0);
    lemma_other_beginning("av01"@, rest, "vp9"@, 0);
    lemma_other_beginning("av01"@, rest, "vp09"@, 0);
    assert(("av01"@ + rest).take(4) == "av01"@);
    lemma_other_beginning("vp9"@, rest, "avc1"@, 0);
    lemma_other_beginning("vp9"@, rest, "avc3"@, 0);
    lemma_other_beginning("vp9"@, rest, "h264"@, 0);
    assert(("vp9"@ + rest).take(3) == "vp9"@);
    lemma_other_beginning("vp09"@, rest, "avc1"@, 0);
    lemma_other_beginning("vp09"@, rest, "avc3"@, 0);
    lemma_other_beginning("vp09"@, rest, "h264"@, 0);
    assert(("vp09"@ + rest).take(4) == "vp09"@);
    assert(("mp4a"@ + rest).take(4) == "mp4a"@);
    lemma_other_beginning("opus"@, rest, "mp4a"@, 0);
    lemma_other_beginning("opus"@, rest, "aac"@, 0);
    assert(("opus"@ + rest).take(4) == "opus"@);
}

proof fn lemma_other_beginning(word: Seq<char>, rest: Seq<char>, other: Seq<char>, i: int)
    requires
        0 <= i < word.len(),
        i < other.len(),
        word[i] != other[i],
    ensures
        !starts_with(word + rest, other),
{
    let s = word + rest;
    if starts_with(s, other) {
        assert(s.take(other.len() as int)[i] == other[i]);
        assert(s[i] == word[i]);
    }
}

/// A codec that is named neither h264, vp9, av1, aac nor opus has no filter, and what
/// begins like none of yt-dlp's names for them is not shown.
pub proof fn law_other_codecs_are_not_known(codec: Seq<char>)
    ensures
        codec != "h264"@ && codec != "vp9"@ && codec != "av1"@ ==> vcodec_filter_of(Some(codec))
            is None,
        codec != "aac"@ && codec != "opus"@ ==> acodec_filter_of(Some(codec)) is None,
        canon_vcodec_of(codec) is Some <==> (starts_with(codec, "avc1"@) || starts_with(
            codec,
            "avc3"@,
        ) || starts_with(codec, "h264"@) || starts_with(codec, "vp9"@) || starts_with(
            codec,
            "vp09"@,
        ) || starts_with(codec, "av01"@)),
        canon_acodec_of(codec) is Some <==> (starts_with(codec, "mp4a"@) || starts_with(
            codec,
            "aac"@,
        ) || starts_with(codec, "opus"@)),
{
}

/// Opus sound goes into mkv with a picture and into an opus file without one; aac
/// goes into mp4 and m4a, anything else into mp4 and mp3.
pub proof fn law_containers_follow_the_sound(codec: Option<Seq<char>>)
    ensures
        codec == Some("opus"@) ==> container_of(codec) == "mkv"@ && audio_file_format(codec)
            == "opus"@,
        codec == Some("aac"@) ==> container_of(codec) == "mp4"@ && audio_file_format(codec)
            == "m4a"@,
        codec != Some("opus"@) && codec != Some("aac"@) ==> container_of(codec) == "mp4"@
            && audio_file_format(codec) == "mp3"@,
{
    reveal_strlit("aac");
    reveal_strlit("opus");
    assert("aac"@.len() != "opus"@.len());
}

// ---------------------------------------------------------------------------
// Twitch
// ---------------------------------------------------------------------------
/// From Twitch all qualities but the worst ask for the best picture and the best
/// sound, within 1080, 720 or 480 lines if the quality is high, medium or low, and
/// only the worst asks for the worst. A language concerns the sound of the first wish
/// alone; the selector without it follows.
pub proof fn law_twitch_quality(q: TwitchQuality, lang: Option<Seq<char>>)
    ensures
        ({
            let h = match q {
                TwitchQuality::High => "[height<=1080]"@,
                TwitchQuality::Medium => "[height<=720]"@,
                TwitchQuality::Low => "[height<=480]"@,
                _ => Seq::empty(),
            };
            let plain = if q == TwitchQuality::Worst {
                "worstvideo+worstaudio/worst"@
            } else {
                "bestvideo"@ + h + "+bestaudio/best"@ + h
            };
            &&& lang is None || lang->0.len() == 0 ==> twitch_video_selector(q, lang) == plain
            &&& lang is Some && lang->0.len() > 0 && q != TwitchQuality::Worst
                ==> twitch_video_selector(q, lang) == "bestvideo"@ + h + "+bestaudio[language="@
                + lang->0 + "]"@ + "/best"@ + h + "/"@ + plain
            &&& lang is Some && lang->0.len() > 0 && q == TwitchQuality::Worst
                ==> twitch_video_selector(q, lang) == plain + "/"@ + plain
        }),
{
    reveal_strlit("bestvideo");
    reveal_strlit("+bestaudio/best");
    reveal_strlit("+bestaudio");
    reveal_strlit("/best");
    let h = match q {
        TwitchQuality::High => "[height<=1080]"@,
        TwitchQuality::Medium => "[height<=720]"@,
        TwitchQuality::Low => "[height<=480]"@,
        _ => Seq::empty(),
    };
    lemma_twitch_words(q);
    if q != TwitchQuality::Worst {
        if let Some(l) = lang {
            let w = "+bestaudio[language="@ + l + "]"@;
            lemma_height_has_no_plus(h);
            assert("+bestaudio/best"@ == "+bestaudio"@ + "/best"@);
            lemma_replaced_between("bestvideo"@ + h, "+bestaudio"@, "/best"@ + h, w);
            assert("bestvideo"@ + h + "+bestaudio/best"@ + h == ("bestvideo"@ + h) + "+bestaudio"@
                + ("/best"@ + h));
            assert(replaced_once(q.selector(), "+bestaudio"@, w) == ("bestvideo"@ + h) + w + (
            "/best"@ + h));
            if l.len() > 0 {
                assert(twitch_video_selector(q, lang) == "bestvideo"@ + h
                    + "+bestaudio[language="@ + l + "]"@ + "/best"@ + h + "/"@ + q.selector());
            }
        }
    } else {
        if let Some(l) = lang {
            lemma_worst_names_no_best(l);
        }
    }
}

proof fn lemma_twitch_words(q: TwitchQuality)
    ensures
        q == TwitchQuality::Worst ==> q.selector() == "worstvideo+worstaudio/worst"@,
        q != TwitchQuality::Worst ==> q.selector() == "bestvideo"@ + (match q {
            TwitchQuality::High => "[height<=1080]"@,
            TwitchQuality::Medium => "[height<=720]"@,
            TwitchQuality::Low => "[height<=480]"@,
            _ => Seq::empty(),
        }) + "+bestaudio/best"@ + (match q {
            TwitchQuality::High => "[height<=1080]"@,
            TwitchQuality::Medium => "[height<=720]"@,
            TwitchQuality::Low => "[height<=480]"@,
            _ => Seq::empty(),
        }),
{
    reveal_strlit("bestvideo");
    reveal_strlit("+bestaudio/best");
    reveal_strlit("[height<=1080]");
    reveal_strlit("[height<=720]");
    reveal_strlit("[height<=480]");
    reveal_strlit("bestvideo+bestaudio/best");
    reveal_strlit("bestvideo[height<=1080]+bestaudio/best[height<=1080]");
    reveal_strlit("bestvideo[height<=720]+bestaudio/best[height<=720]");
    reveal_strlit("bestvideo[height<=480]+bestaudio/best[height<=480]");
    let none = Seq::<char>::empty();
    match q {
        TwitchQuality::Best => {
            assert(q.selector() == "bestvideo"@ + none + "+bestaudio/best"@ + none);
        },
        TwitchQuality::High => {
            let h = "[height<=1080]"@;
            assert(q.selector() == "bestvideo"@ + h + "+bestaudio/best"@ + h);
        },
        TwitchQuality::Medium => {
            let h = "[height<=720]"@;
            assert(q.selector() == "bestvideo"@ + h + "+bestaudio/best"@ + h);
        },
        TwitchQuality::Low => {
            let h = "[height<=480]"@;
            assert(q.selector() == "bestvideo"@ + h + "+bestaudio/best"@ + h);
        },
        TwitchQuality::Worst => {},
    }
}

proof fn lemma_height_has_no_plus(h: Seq<char>)
    requires
        h == "[height<=1080]"@ || h == "[height<=720]"@ || h == "[height<=480]"@ || h.len() == 0,
    ensures
        !("bestvideo"@ + h).contains('+'),
{
    reveal_strlit("bestvideo");
    reveal_strlit("[height<=1080]");
    reveal_strlit("[height<=720]");
    reveal_strlit("[height<=480]");
    lemma_lacks("bestvideo"@, h, '+');
}

/// What begins with a plus sign is replaced where the first one stands.
proof fn lemma_replaced_between(left: Seq<char>, p: Seq<char>, right: Seq<char>, w: Seq<char>)
    requires
        !left.contains('+'),
        p.len() > 0,
        p[0] == '+',
    ensures
        replaced_once(left + p + right, p, w) == left + w + right,
{
    let s = left + p + right;
    let n = left.len() as int;
    assert(s.subrange(n, n + p.len()) == p);
    assert forall|j: int| 0 <= j < n implies !occurs_at(s, p, j) by {
        if occurs_at(s, p, j) {
            assert(s.subrange(j, j + p.len())[0] == '+');
            assert(left.contains(left[j]));
        }
    }
    lemma_replaced_at(s, p, w, n);
    assert(s.take(n) == left);
    assert(s.skip(n + p.len()) == right);
}

proof fn lemma_worst_names_no_best(l: Seq<char>)
    ensures
        replaced_once(
            "worstvideo+worstaudio/worst"@,
            "+bestaudio"@,
            "+bestaudio[language="@ + l + "]"@,
        ) == "worstvideo+worstaudio/worst"@,
{
    reveal_strlit("worstvideo+worstaudio/worst");
    reveal_strlit("+bestaudio");
    let s = "worstvideo+worstaudio/worst"@;
    if contains(s, "+bestaudio"@) {
        let i = choose|i: int| #[trigger] occurs_at(s, "+bestaudio"@, i);
        assert(s.subrange(i, i + 10)[1] == 'b');
        assert(s.contains('b'));
    }
    lemma_replaced_none(s, "+bestaudio"@, "+bestaudio[language="@ + l + "]"@);
}

/// From Twitch every wish keeps to the height of the quality: 1080, 720 or 480 lines
/// if it is high, medium or low, and any height otherwise. Only the worst quality
/// asks for the worst.
pub proof fn law_twitch_height(q: TwitchQuality)
    ensures
        ({
            let w = split(q.selector(), '/');
            &&& w.len() == 2
            &&& forall|i: int|
                0 <= i < 2 ==> match q {
                    TwitchQuality::High => only_height(#[trigger] w[i], "[height<=1080]"@),
                    TwitchQuality::Medium => only_height(w[i], "[height<=720]"@),
                    TwitchQuality::Low => only_height(w[i], "[height<=480]"@),
                    TwitchQuality::Best | TwitchQuality::Worst => no_height(w[i]),
                }
            &&& q == TwitchQuality::Worst ==> starts_with(w[0], "worstvideo"@) && ends_with(
                w[0],
                "+worstaudio"@,
            ) && starts_with(w[1], "worst"@)
            &&& q != TwitchQuality::Worst ==> starts_with(w[0], "bestvideo"@) && ends_with(
                w[0],
                "+bestaudio"@,
            ) && starts_with(w[1], "best"@)
        }),
{
    if q == TwitchQuality::Worst {
        lemma_twitch_worst();
    } else {
        lemma_twitch_words(q);
        lemma_height_filters();
        let h = match q {
            TwitchQuality::High => "[height<=1080]"@,
            TwitchQuality::Medium => "[height<=720]"@,
            TwitchQuality::Low => "[height<=480]"@,
            _ => Seq::empty(),
        };
        lemma_twitch_best(q.selector(), h);
    }
}

proof fn lemma_twitch_worst()
    ensures
        ({
            let w = split("worstvideo+worstaudio/worst"@, '/');
            &&& w.len() == 2
            &&& no_height(w[0])
            &&& no_height(w[1])
            &&& starts_with(w[0], "worstvideo"@)
            &&& ends_with(w[0], "+worstaudio"@)
            &&& starts_with(w[1], "worst"@)
        }),
{
    reveal_strlit("worstvideo");
    reveal_strlit("+worstaudio");
    reveal_strlit("worst");
    reveal_strlit("worstvideo+worstaudio/worst");
    let a = "worstvideo"@ + "+worstaudio"@;
    assert("worstvideo+worstaudio/worst"@ == a + seq!['/'] + "worst"@);
    lemma_lacks("worstvideo"@, "+worstaudio"@, '/');
    lemma_lacks("worstvideo"@, "+worstaudio"@, 'h');
    lemma_cut(a, "worst"@);
    lemma_split_none("worst"@, '/');
    assert(split("worstvideo+worstaudio/worst"@, '/') == seq![a, "worst"@]);
    lemma_no_h(a);
    lemma_no_h("worst"@);
    assert(a.take("worstvideo"@.len() as int) == "worstvideo"@);
    assert(a.skip(a.len() - "+worstaudio"@.len()) == "+worstaudio"@);
    assert("worst"@.take("worst"@.len() as int) == "worst"@);
}

proof fn lemma_twitch_best(all: Seq<char>, h: Seq<char>)
    requires
        is_height_filter(h) || h.len() == 0,
        all == "bestvideo"@ + h + "+bestaudio/best"@ + h,
    ensures
        ({
            let w = split(all, '/');
            &&& w.len() == 2
            &&& h.len() > 0 ==> only_height(w[0], h) && only_height(w[1], h)
            &&& h.len() == 0 ==> no_height(w[0]) && no_height(w[1])
            &&& starts_with(w[0], "bestvideo"@)
            &&& ends_with(w[0], "+bestaudio"@)
            &&& starts_with(w[1], "best"@)
        }),
{
    let none = Seq::<char>::empty();
    reveal_strlit("bestvideo");
    reveal_strlit("+bestaudio");
    reveal_strlit("best");
    let (v, z, e) = ("bestvideo"@, "+bestaudio"@, "best"@);
    assert("+bestaudio/best"@ == z + seq!['/'] + e) by {
        reveal_strlit("+bestaudio/best");
    }
    assert(is_apart(v) && is_apart(z) && is_apart(e));
    lemma_two_wishes(all, h, v, z, e);
}

proof fn lemma_two_wishes(
    all: Seq<char>,
    h: Seq<char>,
    v: Seq<char>,
    z: Seq<char>,
    e: Seq<char>,
)
    requires
        is_height_filter(h) || h.len() == 0,
        is_apart(v) && is_apart(z) && is_apart(e),
        all == v + h + (z + seq!['/'] + e) + h,
    ensures
        ({
            let w = split(all, '/');
            &&& w.len() == 2
            &&& h.len() > 0 ==> only_height(w[0], h) && only_height(w[1], h)
            &&& h.len() == 0 ==> no_height(w[0]) && no_height(w[1])
            &&& starts_with(w[0], v)
            &&& ends_with(w[0], z)
            &&& starts_with(w[1], e)
        }),
{
    let s = seq!['/'];
    let none = Seq::<char>::empty();
    let a = v + h + z;
    let b = e + h + none;
    assert(all == a + s + b);
    lemma_lacks(v, h, '/');
    lemma_lacks(v + h, z, '/');
    lemma_lacks(e, h, '/');
    lemma_lacks(e + h, none, '/');
    lemma_cut(a, b);
    assert forall|j: int| 0 <= j < b.len() implies b[j] != '/' by {
        assert(b.contains(b[j]));
    }
    lemma_split_none(b, '/');
    let w = split(all, '/');
    assert(w == seq![a] + seq![b]);
    assert(w.len() == 2 && w[0] == a && w[1] == b);
    if h.len() == 0 {
        lemma_lacks(v, h, 'h');
        lemma_lacks(v + h, z, 'h');
        lemma_lacks(e, h, 'h');
        lemma_lacks(e + h, none, 'h');
        lemma_no_h(a);
        lemma_no_h(b);
    } else {
        lemma_one_height(v, h, z);
        lemma_one_height(e, h, none);
    }
    assert(a.take(v.len() as int) == v);
    assert(a.skip(a.len() - z.len()) == z);
    assert(b.take(e.len() as int) == e);
}

/// Sound alone from Twitch is the best there is, in the language that was named if
/// there is such a track.
pub proof fn law_twitch_sound(lang: Option<Seq<char>>)
    ensures
        lang is None || lang->0.len() == 0 ==> twitch_audio_selector(lang) == "bestaudio"@,
        lang is Some && lang->0.len() > 0 ==> twitch_audio_selector(lang)
            == "bestaudio[language="@ + lang->0 + "]/bestaudio"@,
{
}

} // verus!
