//! The header map: an ordered sequence of key/value pairs with unique
//! keys, insertion order kept, and overwrite-on-duplicate semantics, plus
//! its rendering as a block of `key: value` lines.

use vstd::prelude::*;

use crate::text::{
    lemma_not_contains_concat, lemma_split_on_append, lemma_split_on_no_sep, split_on,
};

verus! {

/// The entries of a header map, as mathematical values in order.
pub type HeaderEntries = Seq<(Seq<char>, Seq<char>)>;

/// Whether all keys of the entries are distinct.
pub open spec fn keys_unique(s: HeaderEntries) -> bool {
    forall|i: int, j: int| 0 <= i < j < s.len() ==> (#[trigger] s[i]).0 != (#[trigger] s[j]).0
}

/// Whether some entry has the given key.
pub open spec fn key_in(s: HeaderEntries, k: Seq<char>) -> bool {
    exists|i: int| 0 <= i < s.len() && (#[trigger] s[i]).0 == k
}

/// Inserting overwrites the value of the first entry with the key, in
/// place, or appends a new entry at the end.
pub open spec fn spec_insert(s: HeaderEntries, k: Seq<char>, v: Seq<char>) -> HeaderEntries
    decreases s.len(),
{
    if s.len() == 0 {
        seq![(k, v)]
    } else if s[0].0 == k {
        seq![(k, v)] + s.drop_first()
    } else {
        seq![s[0]] + spec_insert(s.drop_first(), k, v)
    }
}

/// Removing drops the first entry with the key, if any.
pub open spec fn spec_remove(s: HeaderEntries, k: Seq<char>) -> HeaderEntries
    decreases s.len(),
{
    if s.len() == 0 {
        s
    } else if s[0].0 == k {
        s.drop_first()
    } else {
        seq![s[0]] + spec_remove(s.drop_first(), k)
    }
}

/// The value of the first entry with the key, if any.
pub open spec fn spec_get(s: HeaderEntries, k: Seq<char>) -> Option<Seq<char>>
    decreases s.len(),
{
    if s.len() == 0 {
        None
    } else if s[0].0 == k {
        Some(s[0].1)
    } else {
        spec_get(s.drop_first(), k)
    }
}

/// One rendered header line, without its terminating newline.
pub open spec fn spec_header_line(e: (Seq<char>, Seq<char>)) -> Seq<char> {
    e.0 + seq![':', ' '] + e.1
}

/// The rendered header block: each entry as `key: value` followed by a
/// newline.
pub open spec fn spec_render_headers(s: HeaderEntries) -> Seq<char>
    decreases s.len(),
{
    if s.len() == 0 {
        Seq::empty()
    } else {
        spec_header_line(s[0]) + seq!['\n'] + spec_render_headers(s.drop_first())
    }
}

/// When the first entry with key `k` stands at `j`, inserting updates
/// exactly that entry.
pub proof fn lemma_spec_insert_update(s: HeaderEntries, k: Seq<char>, v: Seq<char>, j: int)
    requires
        0 <= j < s.len(),
        s[j].0 == k,
        forall|i: int| 0 <= i < j ==> (#[trigger] s[i]).0 != k,
    ensures
        spec_insert(s, k, v) =~~= s.update(j, (k, v)),
    decreases j,
{
    if j == 0 {
        assert(spec_insert(s, k, v) =~~= s.update(0, (k, v)));
    } else {
        assert(s[0].0 != k);
        lemma_spec_insert_update(s.drop_first(), k, v, j - 1);
        assert(spec_insert(s, k, v) =~~= seq![s[0]] + s.drop_first().update(j - 1, (k, v)));
        assert(seq![s[0]] + s.drop_first().update(j - 1, (k, v)) =~~= s.update(j, (k, v)));
    }
}

/// When no entry has key `k`, inserting appends a new entry.
pub proof fn lemma_spec_insert_push(s: HeaderEntries, k: Seq<char>, v: Seq<char>)
    requires
        forall|i: int| 0 <= i < s.len() ==> (#[trigger] s[i]).0 != k,
    ensures
        spec_insert(s, k, v) =~~= s.push((k, v)),
    decreases s.len(),
{
    if s.len() == 0 {
    } else {
        lemma_spec_insert_push(s.drop_first(), k, v);
        assert(spec_insert(s, k, v) =~~= seq![s[0]] + s.drop_first().push((k, v)));
        assert(seq![s[0]] + s.drop_first().push((k, v)) =~~= s.push((k, v)));
    }
}

/// When the first entry with key `k` stands at `j`, removing drops exactly
/// that entry.
pub proof fn lemma_spec_remove_at(s: HeaderEntries, k: Seq<char>, j: int)
    requires
        0 <= j < s.len(),
        s[j].0 == k,
        forall|i: int| 0 <= i < j ==> (#[trigger] s[i]).0 != k,
    ensures
        spec_remove(s, k) =~~= s.remove(j),
    decreases j,
{
    if j == 0 {
        assert(spec_remove(s, k) =~~= s.remove(0));
    } else {
        assert(s[0].0 != k);
        lemma_spec_remove_at(s.drop_first(), k, j - 1);
        assert(spec_remove(s, k) =~~= seq![s[0]] + s.drop_first().remove(j - 1));
        assert(seq![s[0]] + s.drop_first().remove(j - 1) =~~= s.remove(j));
    }
}

/// When no entry has key `k`, removing changes nothing.
pub proof fn lemma_spec_remove_absent(s: HeaderEntries, k: Seq<char>)
    requires
        forall|i: int| 0 <= i < s.len() ==> (#[trigger] s[i]).0 != k,
    ensures
        spec_remove(s, k) =~~= s,
    decreases s.len(),
{
    if s.len() == 0 {
    } else {
        lemma_spec_remove_absent(s.drop_first(), k);
        assert(spec_remove(s, k) =~~= seq![s[0]] + s.drop_first());
        assert(seq![s[0]] + s.drop_first() =~~= s);
    }
}

/// When the first entry with key `k` stands at `j`, lookup returns its
/// value.
pub proof fn lemma_spec_get_at(s: HeaderEntries, k: Seq<char>, j: int)
    requires
        0 <= j < s.len(),
        s[j].0 == k,
        forall|i: int| 0 <= i < j ==> (#[trigger] s[i]).0 != k,
    ensures
        spec_get(s, k) == Some(s[j].1),
    decreases j,
{
    if j == 0 {
    } else {
        assert(s[0].0 != k);
        lemma_spec_get_at(s.drop_first(), k, j - 1);
    }
}

/// When no entry has key `k`, lookup returns nothing.
pub proof fn lemma_spec_get_absent(s: HeaderEntries, k: Seq<char>)
    requires
        forall|i: int| 0 <= i < s.len() ==> (#[trigger] s[i]).0 != k,
    ensures
        spec_get(s, k) is None,
    decreases s.len(),
{
    if s.len() == 0 {
    } else {
        lemma_spec_get_absent(s.drop_first(), k);
    }
}

/// An entry of the inserted map has key `k` or a key the map already had.
pub proof fn lemma_spec_insert_keys(s: HeaderEntries, k: Seq<char>, v: Seq<char>, x: Seq<char>)
    ensures
        key_in(spec_insert(s, k, v), x) <==> (x == k || key_in(s, x)),
    decreases s.len(),
{
    if s.len() == 0 {
        assert(spec_insert(s, k, v)[0] == (k, v));
        if key_in(s, x) {
            let i = choose|i: int| 0 <= i < s.len() && (#[trigger] s[i]).0 == x;
            assert(false);
        }
    } else if s[0].0 == k {
        let t = seq![(k, v)] + s.drop_first();
        assert(t[0] == (k, v));
        if key_in(t, x) {
            let i = choose|i: int| 0 <= i < t.len() && (#[trigger] t[i]).0 == x;
            if i == 0 {
            } else {
                assert(s[i] == t[i]);
            }
        }
        if x == k {
            assert(t[0].0 == x);
        }
        if key_in(s, x) {
            let i = choose|i: int| 0 <= i < s.len() && (#[trigger] s[i]).0 == x;
            if i == 0 {
                assert(t[0].0 == k);
            } else {
                assert(t[i] == s[i]);
            }
        }
    } else {
        lemma_spec_insert_keys(s.drop_first(), k, v, x);
        let t = seq![s[0]] + spec_insert(s.drop_first(), k, v);
        assert(spec_insert(s, k, v) == t);
        if key_in(t, x) {
            let i = choose|i: int| 0 <= i < t.len() && (#[trigger] t[i]).0 == x;
            if i == 0 {
                assert(s[0].0 == x);
            } else {
                assert(t[i] == spec_insert(s.drop_first(), k, v)[i - 1]);
                assert(key_in(spec_insert(s.drop_first(), k, v), x));
                if x != k {
                    let m = choose|m: int|
                        0 <= m < s.drop_first().len() && (#[trigger] s.drop_first()[m]).0 == x;
                    assert(s[m + 1].0 == x);
                }
            }
        }
        if x == k {
            assert(key_in(spec_insert(s.drop_first(), k, v), x));
            let i = choose|i: int|
                0 <= i < spec_insert(s.drop_first(), k, v).len() && (#[trigger] spec_insert(
                    s.drop_first(),
                    k,
                    v,
                )[i]).0 == x;
            assert(t[i + 1].0 == x);
        }
        if key_in(s, x) {
            let i = choose|i: int| 0 <= i < s.len() && (#[trigger] s[i]).0 == x;
            if i == 0 {
                assert(t[0].0 == x);
            } else {
                assert(s.drop_first()[i - 1].0 == x);
                assert(key_in(spec_insert(s.drop_first(), k, v), x));
                let m = choose|m: int|
                    0 <= m < spec_insert(s.drop_first(), k, v).len() && (#[trigger] spec_insert(
                        s.drop_first(),
                        k,
                        v,
                    )[m]).0 == x;
                assert(t[m + 1].0 == x);
            }
        }
    }
}

/// Law: inserting keeps keys unique.
pub proof fn lemma_spec_insert_keys_unique(s: HeaderEntries, k: Seq<char>, v: Seq<char>)
    requires
        keys_unique(s),
    ensures
        keys_unique(spec_insert(s, k, v)),
    decreases s.len(),
{
    if s.len() == 0 {
    } else if s[0].0 == k {
        let t = seq![(k, v)] + s.drop_first();
        assert forall|i: int, j: int| 0 <= i < j < t.len() implies (#[trigger] t[i]).0 != (
        #[trigger] t[j]).0 by {
            if i == 0 {
                assert(t[j] == s[j]);
                assert(s[0].0 != s[j].0);
            } else {
                assert(t[i] == s[i]);
                assert(t[j] == s[j]);
            }
        }
    } else {
        assert(keys_unique(s.drop_first())) by {
            assert(forall|i: int, j: int|
                0 <= i < j < s.drop_first().len() ==> s.drop_first()[i] == #[trigger] s[i + 1]
                    && s.drop_first()[j] == #[trigger] s[j + 1]);
        }
        lemma_spec_insert_keys_unique(s.drop_first(), k, v);
        let rest = spec_insert(s.drop_first(), k, v);
        let t = seq![s[0]] + rest;
        assert forall|i: int, j: int| 0 <= i < j < t.len() implies (#[trigger] t[i]).0 != (
        #[trigger] t[j]).0 by {
            if i == 0 {
                assert(t[j] == rest[j - 1]);
                assert(key_in(rest, rest[j - 1].0));
                lemma_spec_insert_keys(s.drop_first(), k, v, rest[j - 1].0);
                if rest[j - 1].0 == s[0].0 {
                    if rest[j - 1].0 == k {
                        assert(false);
                    } else {
                        let m = choose|m: int|
                            0 <= m < s.drop_first().len() && (#[trigger] s.drop_first()[m]).0
                                == rest[j - 1].0;
                        assert(s[m + 1].0 == s[0].0);
                        assert(false);
                    }
                }
            } else {
                assert(t[i] == rest[i - 1]);
                assert(t[j] == rest[j - 1]);
            }
        }
    }
}

/// Law: removing keeps keys unique.
pub proof fn lemma_spec_remove_keys_unique(s: HeaderEntries, k: Seq<char>)
    requires
        keys_unique(s),
    ensures
        keys_unique(spec_remove(s, k)),
    decreases s.len(),
{
    if s.len() == 0 {
    } else if s[0].0 == k {
        assert forall|i: int, j: int| 0 <= i < j < s.drop_first().len() implies (
        #[trigger] s.drop_first()[i]).0 != (#[trigger] s.drop_first()[j]).0 by {
            assert(s.drop_first()[i] == s[i + 1]);
            assert(s.drop_first()[j] == s[j + 1]);
        }
    } else {
        assert(keys_unique(s.drop_first())) by {
            assert(forall|i: int, j: int|
                0 <= i < j < s.drop_first().len() ==> s.drop_first()[i] == #[trigger] s[i + 1]
                    && s.drop_first()[j] == #[trigger] s[j + 1]);
        }
        lemma_spec_remove_keys_unique(s.drop_first(), k);
        let rest = spec_remove(s.drop_first(), k);
        let t = seq![s[0]] + rest;
        assert(rest.len() <= s.drop_first().len()) by {
            lemma_spec_remove_len(s.drop_first(), k);
        }
        assert forall|i: int, j: int| 0 <= i < j < t.len() implies (#[trigger] t[i]).0 != (
        #[trigger] t[j]).0 by {
            if i == 0 {
                assert(t[j] == rest[j - 1]);
                lemma_spec_remove_keys_in(s.drop_first(), k, j - 1);
            } else {
                assert(t[i] == rest[i - 1]);
                assert(t[j] == rest[j - 1]);
            }
        }
    }
}

/// Removing never grows the entries.
pub proof fn lemma_spec_remove_len(s: HeaderEntries, k: Seq<char>)
    ensures
        spec_remove(s, k).len() <= s.len(),
    decreases s.len(),
{
    if s.len() == 0 {
    } else if s[0].0 == k {
    } else {
        lemma_spec_remove_len(s.drop_first(), k);
    }
}

/// Every entry left after a removal was an entry before it.
pub proof fn lemma_spec_remove_keys_in(s: HeaderEntries, k: Seq<char>, m: int)
    requires
        0 <= m < spec_remove(s, k).len(),
    ensures
        key_in(s, spec_remove(s, k)[m].0),
    decreases s.len(),
{
    if s.len() == 0 {
    } else if s[0].0 == k {
        assert(s.drop_first()[m] == s[m + 1]);
        assert(s[m + 1].0 == spec_remove(s, k)[m].0);
    } else {
        let t = seq![s[0]] + spec_remove(s.drop_first(), k);
        if m == 0 {
            assert(s[0].0 == t[0].0);
        } else {
            assert(t[m] == spec_remove(s.drop_first(), k)[m - 1]);
            lemma_spec_remove_keys_in(s.drop_first(), k, m - 1);
            let i = choose|i: int|
                0 <= i < s.drop_first().len() && (#[trigger] s.drop_first()[i]).0 == spec_remove(
                    s.drop_first(),
                    k,
                )[m - 1].0;
            assert(s[i + 1].0 == t[m].0);
        }
    }
}

/// Law: after an insert, looking the key up yields the inserted value —
/// the last write wins.
pub proof fn lemma_spec_get_insert(s: HeaderEntries, k: Seq<char>, v: Seq<char>)
    ensures
        spec_get(spec_insert(s, k, v), k) == Some(v),
    decreases s.len(),
{
    if s.len() == 0 {
    } else if s[0].0 == k {
        assert(spec_insert(s, k, v)[0] == (k, v));
    } else {
        lemma_spec_get_insert(s.drop_first(), k, v);
        let t = seq![s[0]] + spec_insert(s.drop_first(), k, v);
        assert(t[0] == s[0]);
        assert(t.drop_first() =~~= spec_insert(s.drop_first(), k, v));
    }
}

/// Law: after a removal, the key is gone — when keys were unique, looking
/// it up yields nothing.
pub proof fn lemma_spec_get_remove(s: HeaderEntries, k: Seq<char>)
    requires
        keys_unique(s),
    ensures
        spec_get(spec_remove(s, k), k) is None,
    decreases s.len(),
{
    if s.len() == 0 {
    } else if s[0].0 == k {
        assert forall|i: int| 0 <= i < s.drop_first().len() implies (
        #[trigger] s.drop_first()[i]).0 != k by {
            assert(s.drop_first()[i] == s[i + 1]);
        }
        lemma_spec_get_absent(s.drop_first(), k);
    } else {
        assert(keys_unique(s.drop_first())) by {
            assert(forall|i: int, j: int|
                0 <= i < j < s.drop_first().len() ==> s.drop_first()[i] == #[trigger] s[i + 1]
                    && s.drop_first()[j] == #[trigger] s[j + 1]);
        }
        lemma_spec_get_remove(s.drop_first(), k);
        let t = seq![s[0]] + spec_remove(s.drop_first(), k);
        assert(t[0] == s[0]);
        assert(t.drop_first() =~~= spec_remove(s.drop_first(), k));
    }
}

/// An ordered map from header keys to values. Keys stay unique, entries
/// keep their insertion order, and inserting an existing key overwrites
/// its value in place.
#[derive(Clone, Debug, PartialEq, Eq, Hash)]
pub struct HeaderMap {
    entries: Vec<(String, String)>,
}

impl View for HeaderMap {
    type V = HeaderEntries;

    closed spec fn view(&self) -> HeaderEntries {
        Seq::new(self.entries@.len(), |i: int| (self.entries@[i].0@, self.entries@[i].1@))
    }
}

impl HeaderMap {
    /// Constructs an empty map.
    pub fn new() -> (r: Self)
        ensures
            r@ =~~= Seq::<(Seq<char>, Seq<char>)>::empty(),
    {
        HeaderMap { entries: Vec::new() }
    }

    /// The number of entries.
    pub fn len(&self) -> (r: usize)
        ensures
            r == self@.len(),
    {
        self.entries.len()
    }

    /// Whether the map has no entries.
    pub fn is_empty(&self) -> (r: bool)
        ensures
            r == (self@.len() == 0),
    {
        self.entries.is_empty()
    }

    /// The entry at a position, in insertion order.
    pub fn entry_at(&self, i: usize) -> (kv: &(String, String))
        requires
            i < self@.len(),
        ensures
            kv.0@ == self@[i as int].0,
            kv.1@ == self@[i as int].1,
    {
        &self.entries[i]
    }

    /// The position of the first entry with the given key, if any.
    fn find_index(&self, key: &String) -> (r: Option<usize>)
        ensures
            match r {
                Some(j) => j < self@.len() && self@[j as int].0 == key@ && (forall|i: int|
                    0 <= i < j ==> (#[trigger] self@[i]).0 != key@),
                None => forall|i: int| 0 <= i < self@.len() ==> (#[trigger] self@[i]).0 != key@,
            },
    {
        let n = self.entries.len();
        let mut j: usize = 0;
        while j < n
            invariant
                n == self@.len(),
                0 <= j <= n,
                forall|i: int| 0 <= i < j ==> (#[trigger] self@[i]).0 != key@,
            decreases n - j,
        {
            if self.entries[j].0 == *key {
                return Some(j);
            }
            j = j + 1;
        }
        None
    }

    /// Inserts a key/value pair. An existing entry with the key keeps its
    /// position and gets the new value; otherwise the entry is appended.
    pub fn insert(&mut self, key: String, value: String)
        ensures
            final(self)@ =~~= spec_insert(old(self)@, key@, value@),
    {
        let idx = self.find_index(&key);
        match idx {
            Some(j) => {
                proof {
                    lemma_spec_insert_update(self@, key@, value@, j as int);
                }
                self.entries[j] = (key, value);
            },
            None => {
                proof {
                    lemma_spec_insert_push(self@, key@, value@);
                }
                self.entries.push((key, value));
            },
        }
    }

    /// Removes the entry with the given key. Removing an absent key is not
    /// an error and leaves the map unchanged.
    pub fn remove(&mut self, key: &String)
        ensures
            final(self)@ =~~= spec_remove(old(self)@, key@),
    {
        let idx = self.find_index(key);
        match idx {
            Some(j) => {
                proof {
                    lemma_spec_remove_at(self@, key@, j as int);
                }
                self.entries.remove(j);
            },
            None => {
                proof {
                    lemma_spec_remove_absent(self@, key@);
                }
            },
        }
    }

    /// The value stored under the given key, if any.
    pub fn get(&self, key: &String) -> (r: Option<&String>)
        ensures
            match r {
                Some(v) => spec_get(self@, key@) == Some(v@),
                None => spec_get(self@, key@) is None,
            },
    {
        let idx = self.find_index(key);
        match idx {
            Some(j) => {
                proof {
                    lemma_spec_get_at(self@, key@, j as int);
                }
                Some(&self.entries[j].1)
            },
            None => {
                proof {
                    lemma_spec_get_absent(self@, key@);
                }
                None
            },
        }
    }

    /// Renders the entries as a block of `key: value` lines, each followed
    /// by a newline.
    pub fn render(&self) -> (r: String)
        ensures
            r@ =~= spec_render_headers(self@),
    {
        let mut r = String::new();
        let n = self.entries.len();
        let mut i: usize = 0;
        proof {
            assert(self@.take(0) =~~= Seq::<(Seq<char>, Seq<char>)>::empty());
        }
        while i < n
            invariant
                n == self@.len(),
                0 <= i <= n,
                r@ =~= spec_render_headers(self@.take(i as int)),
            decreases n - i,
        {
            let ghost done = self@.take(i as int);
            let kv = &self.entries[i];
            r.append(kv.0.as_str());
            let delim = ": ";
            proof {
                reveal_strlit(": ");
                assert(delim@ =~= seq![':', ' ']);
            }
            r.append(delim);
            r.append(kv.1.as_str());
            let nl = "\n";
            proof {
                reveal_strlit("\n");
                assert(nl@ =~= seq!['\n']);
            }
            r.append(nl);
            proof {
                lemma_spec_render_headers_push(done, self@[i as int]);
                assert(done.push(self@[i as int]) =~~= self@.take(i + 1));
            }
            i = i + 1;
        }
        proof {
            assert(self@.take(n as int) =~~= self@);
        }
        r
    }
}

/// How the rendered block grows when one entry is appended.
pub proof fn lemma_spec_render_headers_push(s: HeaderEntries, e: (Seq<char>, Seq<char>))
    ensures
        spec_render_headers(s.push(e)) =~= spec_render_headers(s) + spec_header_line(e)
            + seq!['\n'],
    decreases s.len(),
{
    if s.len() == 0 {
        let t = s.push(e);
        assert(t.len() == 1);
        assert(t[0] == e);
        assert(t.drop_first() =~~= Seq::<(Seq<char>, Seq<char>)>::empty());
        assert(spec_render_headers(t.drop_first()) =~= Seq::<char>::empty());
        assert(spec_render_headers(t) == spec_header_line(t[0]) + seq!['\n'] + spec_render_headers(
            t.drop_first(),
        ));
        assert(spec_render_headers(s) =~= Seq::<char>::empty());
        assert(spec_render_headers(t) =~= spec_render_headers(s) + spec_header_line(e)
            + seq!['\n']);
    } else {
        let t = s.push(e);
        assert(t[0] == s[0]);
        assert(t.drop_first() =~~= s.drop_first().push(e));
        lemma_spec_render_headers_push(s.drop_first(), e);
    }
}

/// One rendered header line is free of newlines when its key and value
/// are.
pub proof fn lemma_header_line_clean(e: (Seq<char>, Seq<char>))
    requires
        !e.0.contains('\n'),
        !e.1.contains('\n'),
    ensures
        !spec_header_line(e).contains('\n'),
{
    assert(!seq![':', ' '].contains('\n')) by {
        if seq![':', ' '].contains('\n') {
            let i = choose|i: int| 0 <= i < 2 && seq![':', ' '][i] == '\n';
        }
    }
    lemma_not_contains_concat(e.0, seq![':', ' '], '\n');
    lemma_not_contains_concat(e.0 + seq![':', ' '], e.1, '\n');
}

/// Splitting a rendered header block followed by any tail on newlines
/// yields one line per entry, then the split of the tail.
pub proof fn lemma_split_render_headers(s: HeaderEntries, tail: Seq<char>)
    requires
        forall|j: int|
            0 <= j < s.len() ==> !(#[trigger] s[j]).0.contains('\n') && !s[j].1.contains('\n'),
    ensures
        split_on(spec_render_headers(s) + tail, '\n') =~~= s.map_values(
            |e: (Seq<char>, Seq<char>)| spec_header_line(e),
        ) + split_on(tail, '\n'),
    decreases s.len(),
{
    if s.len() == 0 {
        assert(spec_render_headers(s) + tail =~= tail);
        assert(s.map_values(|e: (Seq<char>, Seq<char>)| spec_header_line(e)) =~~= Seq::<
            Seq<char>,
        >::empty());
    } else {
        let line = spec_header_line(s[0]);
        let rest = s.drop_first();
        assert(forall|j: int|
            0 <= j < rest.len() ==> rest[j] == #[trigger] s[j + 1]);
        lemma_split_render_headers(rest, tail);
        assert(spec_render_headers(s) + tail =~= line + seq!['\n'] + (spec_render_headers(rest)
            + tail));
        lemma_split_on_append(line, spec_render_headers(rest) + tail, '\n');
        lemma_header_line_clean(s[0]);
        lemma_split_on_no_sep(line, '\n');
        assert(split_on(spec_render_headers(s) + tail, '\n') =~~= seq![line] + (s.drop_first().map_values(
            |e: (Seq<char>, Seq<char>)| spec_header_line(e),
        ) + split_on(tail, '\n')));
        assert(seq![line] + s.drop_first().map_values(
            |e: (Seq<char>, Seq<char>)| spec_header_line(e),
        ) =~~= s.map_values(|e: (Seq<char>, Seq<char>)| spec_header_line(e)));
    }
}

impl Default for HeaderMap {
    /// The default map is empty.
    fn default() -> (r: Self)
        ensures
            r@ =~~= Seq::<(Seq<char>, Seq<char>)>::empty(),
    {
        HeaderMap::new()
    }
}

} // verus!
