//! What has been learned of videos and playlists, kept for a while under their
//! addresses. Only what was learned in full is kept: a failure is not.
use crate::text::{
    cat3, first_of, is_white, join, join_texts, lemma_trim_around, opt_str, opt_text, push_text,
    same_text, starts_with, texts, trim, trim_text,
};
use vstd::prelude::*;

verus! {

// ---------------------------------------------------------------------------
// The cache
// ---------------------------------------------------------------------------
/// How long something is kept, in nanoseconds: five minutes.
pub const TTL: u64 = 300_000_000_000;

/// What is kept: under each key a value, and when it was put there.
pub struct TtlCache<T: Clone> {
    entries: Vec<(String, u64, T)>,
}

/// `i` is the entry of `key`.
spec fn is_entry<T>(entries: Seq<(String, u64, T)>, key: Seq<char>, i: int) -> bool {
    0 <= i < entries.len() && entries[i].0@ == key
}

impl<T: Clone> View for TtlCache<T> {
    type V = Map<Seq<char>, (u64, T)>;

    closed spec fn view(&self) -> Map<Seq<char>, (u64, T)> {
        Map::new(
            |key: Seq<char>| exists|i: int| is_entry(self.entries@, key, i),
            |key: Seq<char>|
                {
                    let i = choose|i: int| is_entry(self.entries@, key, i);
                    (self.entries@[i].1, self.entries@[i].2)
                },
        )
    }
}

/// What was put there at `inserted` is too old at `now`.
pub open spec fn expired(inserted: u64, now: u64) -> bool {
    now - inserted >= TTL
}

impl<T: Clone> TtlCache<T> {
    /// No key occurs twice.
    pub closed spec fn wf(self) -> bool {
        forall|i: int, j: int|
            0 <= i < j < self.entries@.len() ==> self.entries@[i].0@ != self.entries@[j].0@
    }

    proof fn lemma_entry(self, i: int)
        requires
            self.wf(),
            0 <= i < self.entries@.len(),
        ensures
            self@.dom().contains(self.entries@[i].0@),
            self@[self.entries@[i].0@] == (self.entries@[i].1, self.entries@[i].2),
    {
        let key = self.entries@[i].0@;
        assert(is_entry(self.entries@, key, i));
        let k = choose|k: int| is_entry(self.entries@, key, k);
        assert(k == i);
    }

    /// Nothing is kept yet.
    pub fn new() -> (r: TtlCache<T>)
        ensures
            r.wf(),
            r@ == Map::<Seq<char>, (u64, T)>::empty(),
    {
        let r = TtlCache { entries: Vec::new() };
        assert(r@ =~= Map::<Seq<char>, (u64, T)>::empty());
        r
    }

    /// Where the entry of `key` is.
    fn find(&self, key: &str) -> (r: Option<usize>)
        ensures
            match r {
                Some(i) => is_entry(self.entries@, key@, i as int),
                None => forall|i: int| !is_entry(self.entries@, key@, i),
            },
    {
        let mut i: usize = 0;
        while i < self.entries.len()
            invariant
                i <= self.entries@.len(),
                forall|j: int| 0 <= j < i ==> !is_entry(self.entries@, key@, j),
            decreases self.entries@.len() - i,
        {
            if same_text(self.entries[i].0.as_str(), key) {
                return Some(i);
            }
            i = i + 1;
        }
        None
    }

    /// The value under `key`, if it is there and not too old. What is too old is
    /// removed.
    pub fn get(&mut self, key: &str, now: u64) -> (r: Option<T>)
        requires
            old(self).wf(),
        ensures
            final(self).wf(),
            match r {
                Some(v) => old(self)@.dom().contains(key@) && !expired(old(self)@[key@].0, now)
                    && cloned(old(self)@[key@].1, v) && final(self)@ == old(self)@,
                None => !old(self)@.dom().contains(key@) && final(self)@ == old(self)@ || old(
                    self,
                )@.dom().contains(key@) && expired(old(self)@[key@].0, now) && final(self)@ == old(
                    self,
                )@.remove(key@),
            },
    {
        match self.find(key) {
            Some(i) => {
                proof {
                    self.lemma_entry(i as int);
                }
                let inserted: u64 = self.entries[i].1;
                let age: u64 = if now >= inserted {
                    now - inserted
                } else {
                    0
                };
                if age < TTL {
                    return Some(self.entries[i].2.clone());
                }
                self.entries.remove(i);
                proof {
                    self.lemma_removed(*old(self), i as int, key@);
                }
                None
            },
            None => {
                assert(!self@.dom().contains(key@));
                None
            },
        }
    }

    proof fn lemma_removed(self, before: TtlCache<T>, i: int, key: Seq<char>)
        requires
            before.wf(),
            is_entry(before.entries@, key, i),
            self.entries@ == before.entries@.remove(i),
        ensures
            self.wf(),
            self@ == before@.remove(key),
    {
        let old_entries = before.entries@;
        let new_entries = self.entries@;
        assert forall|a: int, b: int| 0 <= a < b < new_entries.len() implies new_entries[a].0@
            != new_entries[b].0@ by {
            let a2 = if a < i {
                a
            } else {
                a + 1
            };
            let b2 = if b < i {
                b
            } else {
                b + 1
            };
            assert(new_entries[a] == old_entries[a2]);
            assert(new_entries[b] == old_entries[b2]);
        }
        assert forall|k: Seq<char>| self@.dom().contains(k) == before@.remove(key).dom().contains(
            k,
        ) by {
            if self@.dom().contains(k) {
                let j = choose|j: int| is_entry(new_entries, k, j);
                let j2 = if j < i {
                    j
                } else {
                    j + 1
                };
                assert(is_entry(old_entries, k, j2));
            }
            if before@.remove(key).dom().contains(k) {
                let j = choose|j: int| is_entry(old_entries, k, j);
                assert(j != i);
                let j2 = if j < i {
                    j
                } else {
                    j - 1
                };
                assert(is_entry(new_entries, k, j2));
            }
        }
        assert forall|k: Seq<char>| self@.dom().contains(k) implies self@[k] == before@[k] by {
            let j = choose|j: int| is_entry(new_entries, k, j);
            let j2 = if j < i {
                j
            } else {
                j + 1
            };
            self.lemma_entry(j);
            before.lemma_entry(j2);
        }
        assert(self@ =~= before@.remove(key));
    }

    /// Puts a value under `key`, in the place of what was there.
    pub fn insert(&mut self, key: String, value: T, now: u64)
        requires
            old(self).wf(),
        ensures
            final(self).wf(),
            final(self)@ == old(self)@.insert(key@, (now, value)),
    {
        let ghost k = key@;
        match self.find(key.as_str()) {
            Some(i) => {
                self.entries.set(i, (key, now, value));
                proof {
                    self.lemma_inserted(*old(self), i as int, k);
                }
            },
            None => {
                let i: usize = self.entries.len();
                self.entries.push((key, now, value));
                proof {
                    self.lemma_inserted(*old(self), i as int, k);
                }
            },
        }
    }

    proof fn lemma_inserted(self, before: TtlCache<T>, i: int, key: Seq<char>)
        requires
            before.wf(),
            is_entry(self.entries@, key, i),
            is_entry(before.entries@, key, i) && self.entries@.len() == before.entries@.len() || (
            i == before.entries@.len() && self.entries@.len() == i + 1 && forall|j: int|
                !is_entry(before.entries@, key, j)),
            forall|j: int|
                0 <= j < before.entries@.len() && j != i ==> self.entries@[j]
                    == before.entries@[j],
        ensures
            self.wf(),
            self@ == before@.insert(key, (self.entries@[i].1, self.entries@[i].2)),
    {
        let old_entries = before.entries@;
        let new_entries = self.entries@;
        let value = (new_entries[i].1, new_entries[i].2);
        assert forall|a: int, b: int| 0 <= a < b < new_entries.len() implies new_entries[a].0@
            != new_entries[b].0@ by {
            if a == i {
                assert(new_entries[b] == old_entries[b]);
                assert(!is_entry(old_entries, key, b));
            } else if b == i {
                assert(new_entries[a] == old_entries[a]);
                assert(!is_entry(old_entries, key, a));
            } else {
                assert(new_entries[a] == old_entries[a]);
                assert(new_entries[b] == old_entries[b]);
            }
        }
        assert forall|k: Seq<char>|
            self@.dom().contains(k) == before@.insert(key, value).dom().contains(k) by {
            if self@.dom().contains(k) && k != key {
                let j = choose|j: int| is_entry(new_entries, k, j);
                assert(is_entry(old_entries, k, j));
            }
            if k == key {
                assert(is_entry(new_entries, k, i));
            } else if before@.dom().contains(k) {
                let j = choose|j: int| is_entry(old_entries, k, j);
                assert(is_entry(new_entries, k, j));
            }
        }
        assert forall|k: Seq<char>| self@.dom().contains(k) implies self@[k] == before@.insert(
            key,
            value,
        )[k] by {
            let j = choose|j: int| is_entry(new_entries, k, j);
            self.lemma_entry(j);
            if k == key {
                assert(j == i);
            } else {
                before.lemma_entry(j);
            }
        }
        assert(self@ =~= before@.insert(key, value));
    }
}

/// What was put under a key is found under it for five minutes, and no longer.
/// What is under other keys does not change.
pub proof fn law_kept_for_five_minutes<T>(
    before: Map<Seq<char>, (u64, T)>,
    key: Seq<char>,
    value: T,
    inserted: u64,
    now: u64,
)
    requires
        now >= inserted,
    ensures
        ({
            let after = before.insert(key, (inserted, value));
            &&& after.dom().contains(key)
            &&& after[key].1 == value
            &&& now - inserted < 300_000_000_000 <==> !expired(after[key].0, now)
            &&& forall|other: Seq<char>|
                other != key ==> after.dom().contains(other) == before.dom().contains(other)
                    && after[other] == before[other]
        }),
{
}

// ---------------------------------------------------------------------------
// Addresses
// ---------------------------------------------------------------------------
/// The names and values in the query of a URL, decoded. None if the text is no URL.
pub uninterp spec fn url_pairs(text: Seq<char>) -> Option<Seq<(Seq<char>, Seq<char>)>>;

/// A URL with another query and no fragment. None if the text is no URL.
pub uninterp spec fn url_rendered(text: Seq<char>, query: Option<Seq<char>>) -> Option<Seq<char>>;

/// What the pairs hold.
pub open spec fn pair_texts(pairs: Seq<(String, String)>) -> Seq<(Seq<char>, Seq<char>)> {
    Seq::new(pairs.len(), |i: int| (pairs[i].0@, pairs[i].1@))
}

/// `c` begins the query or the fragment.
pub open spec fn ends_base(c: char) -> bool {
    c == '?' || c == '#'
}

/// What precedes the query and the fragment.
pub open spec fn url_base(text: Seq<char>) -> Seq<char>
    decreases text.len(),
{
    if text.len() == 0 || ends_base(text[0]) {
        Seq::empty()
    } else {
        seq![text[0]] + url_base(text.drop_first())
    }
}

/// `c` is the letter or sign `w`, or the capital of it.
pub open spec fn is_spelled(c: char, w: char) -> bool {
    c == w || ('A' <= c <= 'Z' && c as u32 + 32 == w as u32)
}

/// `text` begins with `word`, in small letters or capitals, whatever tabs and line
/// breaks stand in between.
pub open spec fn spells(text: Seq<char>, word: Seq<char>) -> bool
    decreases text.len(),
{
    if word.len() == 0 {
        true
    } else if text.len() == 0 {
        false
    } else if text[0] == '\t' || text[0] == '\n' || text[0] == '\r' {
        spells(text.drop_first(), word)
    } else {
        is_spelled(text[0], word[0]) && spells(text.drop_first(), word.drop_first())
    }
}

/// `text` is written as an address on the web: behind control characters and spaces
/// it begins with the scheme.
pub open spec fn is_web_address(text: Seq<char>) -> bool
    decreases text.len(),
{
    if text.len() > 0 && text[0] <= ' ' {
        is_web_address(text.drop_first())
    } else {
        spells(text, "http:"@) || spells(text, "https:"@)
    }
}

/// `text` is short enough for all its parts to be counted in 32 bits, however they
/// are encoded.
pub open spec fn is_short(text: Seq<char>) -> bool {
    text.len() <= 0x0400_0000
}

/// What precedes the query and the fragment of `text` is read to its end: control
/// characters and spaces at the end of an address are not.
pub open spec fn has_whole_base(text: Seq<char>) -> bool {
    text.len() > url_base(text).len() || text.last() > ' '
}

/// A letter, digit, underscore or hyphen of ASCII, which stands for itself in a
/// query.
pub open spec fn is_plain(c: char) -> bool {
    'a' <= c <= 'z' || 'A' <= c <= 'Z' || '0' <= c <= '9' || c == '_' || c == '-'
}

/// All characters stand for themselves in a query.
pub open spec fn is_plain_word(s: Seq<char>) -> bool {
    forall|i: int| 0 <= i < s.len() ==> is_plain(#[trigger] s[i])
}

/// All names and values stand for themselves in a query.
pub open spec fn are_plain(pairs: Seq<(Seq<char>, Seq<char>)>) -> bool {
    forall|i: int|
        0 <= i < pairs.len() ==> is_plain_word((#[trigger] pairs[i]).0) && is_plain_word(pairs[i].1)
}

/// `longer` is the web address `url`, which has a query and no fragment, with one
/// more pair.
pub open spec fn adds_pair(
    longer: Seq<char>,
    url: Seq<char>,
    key: Seq<char>,
    value: Seq<char>,
) -> bool {
    &&& longer == url + "&"@ + key + "="@ + value
    &&& is_web_address(url)
    &&& url.contains('?')
    &&& !url.contains('#')
    &&& url.last() > ' '
    &&& is_plain_word(key)
    &&& is_plain_word(value)
    &&& is_short(longer)
}

/// `longer` is the web address `url`, which has no fragment, with a fragment.
pub open spec fn adds_fragment(longer: Seq<char>, url: Seq<char>, fragment: Seq<char>) -> bool {
    &&& longer == url + "#"@ + fragment
    &&& is_web_address(url)
    &&& !url.contains('#')
    &&& url.last() > ' '
    &&& is_short(longer)
}

/// The pairs as a query: each as name, equals sign and value. None if there are none.
pub open spec fn query_of(pairs: Seq<(Seq<char>, Seq<char>)>) -> Option<Seq<char>> {
    if pairs.len() == 0 {
        None
    } else {
        Some(join(pairs.map_values(|p: (Seq<char>, Seq<char>)| p.0 + "="@ + p.1), "&"@))
    }
}

/// `base` with a query behind it, if there is one.
pub open spec fn with_query(base: Seq<char>, query: Option<Seq<char>>) -> Seq<char> {
    match query {
        Some(q) => base + "?"@ + q,
        None => base,
    }
}

/// `rest` is a host of small letters and dots, and a path of plain words and slashes.
pub open spec fn is_ordinary_place(rest: Seq<char>) -> bool {
    let slash = first_of(rest, '/');
    &&& 0 < slash < rest.len()
    &&& forall|i: int| 0 <= i < slash ==> 'a' <= #[trigger] rest[i] <= 'z' || rest[i] == '.'
    &&& forall|i: int| slash < i < rest.len() ==> is_plain(#[trigger] rest[i]) || rest[i] == '/'
}

/// `base` is that of an ordinary address: the scheme and an ordinary place.
pub open spec fn is_ordinary(base: Seq<char>) -> bool {
    ||| starts_with(base, "https://"@) && is_ordinary_place(base.skip(8))
    ||| starts_with(base, "http://"@) && is_ordinary_place(base.skip(7))
}

/// Every character is a visible one of ASCII.
pub open spec fn is_visible(s: Seq<char>) -> bool {
    forall|i: int| 0 <= i < s.len() ==> '!' <= #[trigger] s[i] <= '~'
}

/// `reqwest::Url::parse` and `Url::query_pairs`: the decoded names and values in
/// the query, by the name `url_pairs`. The text alone decides. A pair of plain
/// words at the end of a web address comes after the pairs of the address without
/// it; a fragment adds none. A query that is written out of plain pairs holds these.
/// An ordinary address is a URL, whatever its query and its fragment.
#[verifier::external_body]
fn query_pairs(text: &str) -> (r: Option<Vec<(String, String)>>)
    ensures
        match r {
            Some(pairs) => url_pairs(text@) == Some(pair_texts(pairs@)),
            None => url_pairs(text@) is None,
        },
        forall|url: Seq<char>, key: Seq<char>, value: Seq<char>|
            #[trigger] adds_pair(text@, url, key, value) ==> match r {
                Some(pairs) => url_pairs(url) is Some && pair_texts(pairs@) == url_pairs(
                    url,
                )->0.push((key, value)),
                None => url_pairs(url) is None,
            },
        forall|url: Seq<char>, fragment: Seq<char>|
            #[trigger] adds_fragment(text@, url, fragment) ==> match r {
                Some(pairs) => url_pairs(url) == Some(pair_texts(pairs@)),
                None => url_pairs(url) is None,
            },
        forall|pairs: Seq<(Seq<char>, Seq<char>)>|
            is_web_address(text@) && r is Some && are_plain(pairs) && text@ == with_query(
                url_base(text@),
                #[trigger] query_of(pairs),
            ) ==> pair_texts(r->0@) == pairs,
        is_ordinary(url_base(text@)) && is_short(text@) ==> r is Some,
{
    let url = reqwest::Url::parse(text).ok()?;
    Some(url.query_pairs().map(|(k, v)| (k.into_owned(), v.into_owned())).collect())
}

/// `reqwest::Url::parse`, `Url::set_fragment` with none, `Url::set_query` and its
/// text, by the name `url_rendered`. There is a result exactly if the text is a
/// URL. Of a web address, the query and the fragment that it had do not matter; and
/// with a query of plain pairs, or none, the result is visible ASCII, has those
/// pairs, and stays as it is when it is rendered so again. An ordinary address stays
/// as it is before its query. `set_query` panics where it has to put a query behind
/// more than four gigabytes; behind a URL that has a query already there are never
/// as many.
#[verifier::external_body]
fn render_url(text: &str, query: Option<&str>) -> (r: Option<String>)
    requires
        query is Some ==> url_pairs(text@) is Some && url_pairs(text@)->0.len() > 0,
    ensures
        opt_text(r) == url_rendered(text@, opt_str(query)),
        r is Some == url_pairs(text@) is Some,
        forall|url: Seq<char>|
            is_web_address(text@) && has_whole_base(text@) && is_short(text@) && has_whole_base(url)
                && is_short(url) && url_base(url) == url_base(text@) ==> opt_text(r)
                == #[trigger] url_rendered(url, opt_str(query)),
        forall|pairs: Seq<(Seq<char>, Seq<char>)>|
            is_web_address(text@) && r is Some && are_plain(pairs) && opt_str(query)
                == #[trigger] query_of(pairs) ==> {
                &&& is_visible(r->0@)
                &&& url_pairs(r->0@) == Some(pairs)
                &&& url_rendered(r->0@, opt_str(query)) == Some(r->0@)
                &&& is_ordinary(url_base(text@)) ==> r->0@ == with_query(
                    url_base(text@),
                    opt_str(query),
                )
            },
{
    let mut url = reqwest::Url::parse(text).ok()?;
    url.set_fragment(None);
    url.set_query(query);
    Some(url.to_string())
}

/// `keep` holds `key`.
pub open spec fn keeps(keep: Seq<&str>, key: Seq<char>) -> bool {
    exists|i: int| 0 <= i < keep.len() && (#[trigger] keep[i])@ == key
}

/// The pairs whose names are in `keep`.
pub open spec fn kept_pairs(
    pairs: Seq<(Seq<char>, Seq<char>)>,
    keep: Seq<&str>,
) -> Seq<(Seq<char>, Seq<char>)>
    decreases pairs.len(),
{
    if pairs.len() == 0 {
        Seq::empty()
    } else {
        let before = kept_pairs(pairs.drop_last(), keep);
        if keeps(keep, pairs.last().0) {
            before.push(pairs.last())
        } else {
            before
        }
    }
}

/// The query of the kept pairs: none if none is kept.
pub open spec fn kept_query_of(
    pairs: Seq<(Seq<char>, Seq<char>)>,
    keep: Seq<&str>,
) -> Option<Seq<char>> {
    query_of(kept_pairs(pairs, keep))
}

/// The key of an address: the URL with nothing but the kept pairs in its query, or
/// the address as it is, without white space around it, if it is no URL.
pub open spec fn key_of(url: Seq<char>, keep: Seq<&str>) -> Seq<char> {
    let text = trim(url);
    match url_pairs(text) {
        Some(pairs) => url_rendered(text, kept_query_of(pairs, keep))->0,
        None => text,
    }
}

/// `text` is read pair by pair: a further pair comes last, a fragment adds none, and a
/// query that is written out of plain pairs holds these. An ordinary address is a URL.
pub open spec fn is_read_by_pairs(text: Seq<char>) -> bool {
    &&& forall|url: Seq<char>, name: Seq<char>, value: Seq<char>|
        #[trigger] adds_pair(text, url, name, value) ==> url_pairs(text) == match url_pairs(url) {
            Some(pairs) => Some(pairs.push((name, value))),
            None => None,
        }
    &&& forall|url: Seq<char>, fragment: Seq<char>|
        #[trigger] adds_fragment(text, url, fragment) ==> url_pairs(text) == url_pairs(url)
    &&& forall|pairs: Seq<(Seq<char>, Seq<char>)>|
        is_web_address(text) && url_pairs(text) is Some && are_plain(pairs) && text == with_query(
            url_base(text),
            #[trigger] query_of(pairs),
        ) ==> url_pairs(text) == Some(pairs)
    &&& is_ordinary(url_base(text)) && is_short(text) ==> url_pairs(text) is Some
}

/// `key`, the key of the URL `text`, is also that of the address without its last
/// pair, if that is not kept, and without its fragment. If the kept pairs are plain,
/// it is its own key and has these pairs, and that of an ordinary address is the
/// address with nothing but these.
pub open spec fn is_settled_key(key: Seq<char>, text: Seq<char>, keep: Seq<&str>) -> bool {
    &&& forall|url: Seq<char>, name: Seq<char>, value: Seq<char>|
        #[trigger] adds_pair(text, url, name, value) && trim(url) == url && !keeps(keep, name)
            ==> key == key_of(url, keep)
    &&& forall|url: Seq<char>, fragment: Seq<char>|
        #[trigger] adds_fragment(text, url, fragment) && trim(url) == url ==> key == key_of(
            url,
            keep,
        )
    &&& is_web_address(text) && are_plain(kept_pairs(url_pairs(text)->0, keep)) ==> {
        let kept = kept_pairs(url_pairs(text)->0, keep);
        &&& key_of(key, keep) == key
        &&& url_pairs(key) == Some(kept)
        &&& is_ordinary(url_base(text)) ==> key == with_query(url_base(text), query_of(kept))
    }
}

/// Two web addresses with one key keep the same pairs, and ordinary ones lie at the
/// same place, if the pairs are plain: different videos, and different playlists,
/// have different keys.
pub proof fn law_one_key_means_one_place(
    key: Seq<char>,
    a: Seq<char>,
    b: Seq<char>,
    keep: Seq<&str>,
)
    requires
        is_settled_key(key, a, keep),
        is_settled_key(key, b, keep),
        url_pairs(a) is Some,
        url_pairs(b) is Some,
        is_web_address(a),
        is_web_address(b),
        are_plain(kept_pairs(url_pairs(a)->0, keep)),
        are_plain(kept_pairs(url_pairs(b)->0, keep)),
    ensures
        kept_pairs(url_pairs(a)->0, keep) == kept_pairs(url_pairs(b)->0, keep),
        is_ordinary(url_base(a)) && is_ordinary(url_base(b)) ==> url_base(a) == url_base(b),
{
    if is_ordinary(url_base(a)) && is_ordinary(url_base(b)) {
        let query = query_of(kept_pairs(url_pairs(a)->0, keep));
        let n = url_base(a).len() as int;
        let m = url_base(b).len() as int;
        assert(with_query(url_base(a), query).len() - n == with_query(url_base(b), query).len()
            - m);
        assert(with_query(url_base(a), query).take(n) == url_base(a));
        assert(with_query(url_base(b), query).take(m) == url_base(b));
    }
}

/// What is not kept does not matter.
pub proof fn law_other_pairs_do_not_matter(
    before: Seq<(Seq<char>, Seq<char>)>,
    pair: (Seq<char>, Seq<char>),
    after: Seq<(Seq<char>, Seq<char>)>,
    keep: Seq<&str>,
)
    requires
        !keeps(keep, pair.0),
    ensures
        kept_query_of(before + seq![pair] + after, keep) == kept_query_of(before + after, keep),
{
    lemma_other_pairs(before, pair, after, keep);
}

proof fn lemma_other_pairs(
    before: Seq<(Seq<char>, Seq<char>)>,
    pair: (Seq<char>, Seq<char>),
    after: Seq<(Seq<char>, Seq<char>)>,
    keep: Seq<&str>,
)
    requires
        !keeps(keep, pair.0),
    ensures
        kept_pairs(before + seq![pair] + after, keep) == kept_pairs(before + after, keep),
    decreases after.len(),
{
    let all = before + seq![pair] + after;
    if after.len() == 0 {
        assert(all.drop_last() == before);
        assert(all.last() == pair);
        assert(before + after == before);
    } else {
        let init = after.drop_last();
        assert(all.drop_last() == before + seq![pair] + init);
        assert((before + after).drop_last() == before + init);
        assert(all.last() == after.last());
        assert((before + after).last() == after.last());
        lemma_other_pairs(before, pair, init, keep);
    }
}

proof fn lemma_kept_are_kept(pairs: Seq<(Seq<char>, Seq<char>)>, keep: Seq<&str>)
    ensures
        kept_pairs(kept_pairs(pairs, keep), keep) == kept_pairs(pairs, keep),
        kept_pairs(pairs, keep).len() <= pairs.len(),
    decreases pairs.len(),
{
    if pairs.len() > 0 {
        let before = kept_pairs(pairs.drop_last(), keep);
        lemma_kept_are_kept(pairs.drop_last(), keep);
        if keeps(keep, pairs.last().0) {
            assert(before.push(pairs.last()).drop_last() == before);
        }
    }
}

/// White space around an address does not matter.
pub proof fn law_space_around_does_not_matter(
    left: Seq<char>,
    url: Seq<char>,
    right: Seq<char>,
    keep: Seq<&str>,
)
    requires
        forall|i: int| 0 <= i < left.len() ==> is_white(left[i]),
        forall|i: int| 0 <= i < right.len() ==> is_white(right[i]),
    ensures
        key_of(left + url + right, keep) == key_of(url, keep),
{
    lemma_trim_around(left, url, right);
}

proof fn lemma_base_ends(url: Seq<char>, more: Seq<char>)
    requires
        url.contains('?') || url.contains('#') || (more.len() > 0 && ends_base(more[0])),
    ensures
        url_base(url + more) == url_base(url),
    decreases url.len(),
{
    if url.len() == 0 {
        assert(url + more == more);
    } else {
        assert((url + more)[0] == url[0]);
        if !ends_base(url[0]) {
            let rest = url.drop_first();
            assert((url + more).drop_first() == rest + more);
            if url.contains('?') {
                let i = choose|i: int| 0 <= i < url.len() && url[i] == '?';
                assert(rest[i - 1] == '?');
            } else if url.contains('#') {
                let i = choose|i: int| 0 <= i < url.len() && url[i] == '#';
                assert(rest[i - 1] == '#');
            }
            lemma_base_ends(rest, more);
        }
    }
}

proof fn lemma_base_is_shorter(url: Seq<char>)
    ensures
        url_base(url).len() <= url.len(),
    decreases url.len(),
{
    if url.len() > 0 && !ends_base(url[0]) {
        lemma_base_is_shorter(url.drop_first());
    }
}

proof fn lemma_spelled_on(url: Seq<char>, more: Seq<char>, word: Seq<char>)
    requires
        spells(url, word),
    ensures
        spells(url + more, word),
    decreases url.len(),
{
    if word.len() > 0 {
        assert((url + more)[0] == url[0]);
        assert((url + more).drop_first() == url.drop_first() + more);
        if url[0] == '\t' || url[0] == '\n' || url[0] == '\r' {
            lemma_spelled_on(url.drop_first(), more, word);
        } else {
            lemma_spelled_on(url.drop_first(), more, word.drop_first());
        }
    }
}

/// A web address stays one, whatever follows it.
proof fn lemma_web_address_grows(url: Seq<char>, more: Seq<char>)
    requires
        is_web_address(url),
    ensures
        is_web_address(url + more),
    decreases url.len(),
{
    reveal_strlit("http:");
    reveal_strlit("https:");
    assert((url + more)[0] == url[0]);
    if url[0] <= ' ' {
        assert((url + more).drop_first() == url.drop_first() + more);
        lemma_web_address_grows(url.drop_first(), more);
    } else if spells(url, "http:"@) {
        lemma_spelled_on(url, more, "http:"@);
    } else {
        lemma_spelled_on(url, more, "https:"@);
    }
}

proof fn lemma_spelled_out(text: Seq<char>, word: Seq<char>)
    requires
        starts_with(text, word),
        forall|i: int| 0 <= i < word.len() ==> word[i] > ' ',
    ensures
        spells(text, word),
    decreases word.len(),
{
    if word.len() > 0 {
        assert(text[0] == word[0]);
        assert(text.drop_first().take(word.len() - 1) == word.drop_first()) by {
            assert(text.take(word.len() as int).drop_first() == word.drop_first());
            assert(text.take(word.len() as int).drop_first() == text.drop_first().take(
                word.len() - 1,
            ));
        }
        lemma_spelled_out(text.drop_first(), word.drop_first());
    }
}

/// An address with the usual beginning is a web address.
pub proof fn law_usual_address_is_on_the_web(text: Seq<char>)
    requires
        starts_with(text, "https:"@) || starts_with(text, "http:"@),
    ensures
        is_web_address(text),
{
    reveal_strlit("http:");
    reveal_strlit("https:");
    if starts_with(text, "https:"@) {
        assert(text[0] == text.take(6)[0]);
        lemma_spelled_out(text, "https:"@);
    } else {
        assert(text[0] == text.take(5)[0]);
        lemma_spelled_out(text, "http:"@);
    }
}

proof fn lemma_visible_is_trimmed(s: Seq<char>)
    requires
        is_visible(s),
    ensures
        trim(s) == s,
{
    if s.len() > 0 {
        assert('!' <= s[0] <= '~');
        assert('!' <= s[s.len() - 1] <= '~');
    }
}

/// Whether `keep` holds `key`.
fn is_kept(keep: &[&str], key: &str) -> (r: bool)
    ensures
        r == keeps(keep@, key@),
{
    let mut i: usize = 0;
    while i < keep.len()
        invariant
            i <= keep@.len(),
            forall|j: int| 0 <= j < i ==> (#[trigger] keep@[j])@ != key@,
        decreases keep@.len() - i,
    {
        if same_text(keep[i], key) {
            assert(keep@[i as int]@ == key@);
            return true;
        }
        i = i + 1;
    }
    false
}

/// The query of the pairs whose names are in `keep`.
pub fn kept_query(pairs: &Vec<(String, String)>, keep: &[&str]) -> (r: Option<String>)
    ensures
        opt_text(r) == kept_query_of(pair_texts(pairs@), keep@),
{
    let mut kept: Vec<String> = Vec::new();
    let ghost all = pair_texts(pairs@);
    let ghost written = |p: (Seq<char>, Seq<char>)| p.0 + "="@ + p.1;
    assert(texts(kept@) == kept_pairs(all.take(0), keep@).map_values(written));
    let mut i: usize = 0;
    while i < pairs.len()
        invariant
            i <= pairs@.len(),
            all == pair_texts(pairs@),
            written == (|p: (Seq<char>, Seq<char>)| p.0 + "="@ + p.1),
            texts(kept@) == kept_pairs(all.take(i as int), keep@).map_values(written),
        decreases pairs@.len() - i,
    {
        let ghost before = kept_pairs(all.take(i as int), keep@);
        proof {
            let next = all.take(i + 1);
            assert(next.drop_last() == all.take(i as int));
            assert(next.last() == (pairs@[i as int].0@, pairs@[i as int].1@));
            assert(before.push(next.last()).map_values(written) == before.map_values(written).push(
                written(next.last()),
            ));
        }
        let key = pairs[i].0.as_str();
        if is_kept(keep, key) {
            push_text(&mut kept, cat3(key, "=", pairs[i].1.as_str()).as_str());
        }
        i = i + 1;
    }
    assert(all.take(all.len() as int) == all);
    assert(texts(kept@).len() == kept@.len());
    if kept.len() == 0 {
        None
    } else {
        Some(join_texts(&kept, "&"))
    }
}

/// The key of an address.
pub fn normalize(url: &str, keep: &[&str]) -> (r: String)
    ensures
        r@ == key_of(url@, keep@),
        is_read_by_pairs(trim(url@)),
        url_pairs(trim(url@)) is Some ==> is_settled_key(r@, trim(url@), keep@),
{
    let text = trim_text(url);
    let ghost t = text@;
    let pairs = match query_pairs(text.as_str()) {
        Some(pairs) => pairs,
        None => return text,
    };
    let ghost all = pair_texts(pairs@);
    let query = kept_query(&pairs, keep);
    proof {
        lemma_kept_are_kept(all, keep@);
    }
    let rendered = match &query {
        Some(q) => render_url(text.as_str(), Some(q.as_str())),
        None => render_url(text.as_str(), None),
    };
    let ghost kept = kept_query_of(all, keep@);
    match rendered {
        Some(key) => {
            proof {
                assert(url_rendered(t, kept) == Some(key@));
                assert forall|url: Seq<char>, name: Seq<char>, value: Seq<char>|
                    #[trigger] adds_pair(t, url, name, value) && trim(url) == url && !keeps(
                        keep@,
                        name,
                    ) implies key@ == key_of(url, keep@) by {
                    let p = url_pairs(url)->0;
                    let more = "&"@ + name + "="@ + value;
                    reveal_strlit("&");
                    assert(t == url + more);
                    lemma_base_ends(url, more);
                    lemma_web_address_grows(url, more);
                    lemma_base_is_shorter(url);
                    assert(p.push((name, value)).drop_last() == p);
                    assert(kept_query_of(p, keep@) == kept);
                    assert(url_rendered(url, kept) == Some(key@));
                }
                assert forall|url: Seq<char>, fragment: Seq<char>|
                    #[trigger] adds_fragment(t, url, fragment) && trim(url) == url implies key@
                    == key_of(url, keep@) by {
                    let more = "#"@ + fragment;
                    reveal_strlit("#");
                    assert(t == url + more);
                    lemma_base_ends(url, more);
                    lemma_web_address_grows(url, more);
                    lemma_base_is_shorter(url);
                    assert(url_rendered(url, kept) == Some(key@));
                }
                if is_web_address(t) && are_plain(kept_pairs(all, keep@)) {
                    assert(kept == query_of(kept_pairs(all, keep@)));
                    lemma_visible_is_trimmed(key@);
                }
            }
            key
        },
        None => text,
    }
}

/// The key of a video: of the query, only which video it is.
pub fn video_key(url: &str) -> (r: String)
    ensures
        r@ == key_of(url@, seq!["v"]),
        is_read_by_pairs(trim(url@)),
        url_pairs(trim(url@)) is Some ==> is_settled_key(r@, trim(url@), seq!["v"]),
{
    let keep = ["v"];
    assert(keep@ == seq!["v"]);
    normalize(url, &keep)
}

/// The key of a playlist: of the query, only which playlist it is.
pub fn playlist_key(url: &str) -> (r: String)
    ensures
        r@ == key_of(url@, seq!["list"]),
        is_read_by_pairs(trim(url@)),
        url_pairs(trim(url@)) is Some ==> is_settled_key(r@, trim(url@), seq!["list"]),
{
    let keep = ["list"];
    assert(keep@ == seq!["list"]);
    normalize(url, &keep)
}

} // verus!
