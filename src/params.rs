//! Named command parameters: a set of `key:value` pairs with unique keys,
//! kept in insertion order.
use vstd::prelude::*;
use crate::text::chars_of;
use crate::text::string_from_chars;

verus! {

/// Whether `c` separates parameter tokens on the wire.
pub open spec fn is_space(c: char) -> bool {
    c == ' ' || c == '\t' || c == '\n' || c == '\r'
}

/// Whether `c` separates parameter tokens on the wire.
pub fn space_char(c: char) -> (r: bool)
    ensures
        r == is_space(c),
{
    c == ' ' || c == '\t' || c == '\n' || c == '\r'
}

/// No two entries share a key.
pub open spec fn unique_keys(s: Seq<(Seq<char>, Seq<char>)>) -> bool {
    forall|i: int, j: int|
        0 <= i < s.len() && 0 <= j < s.len() && i != j ==> #[trigger] s[i].0 != #[trigger] s[j].0
}

/// The mapping that a list of entries denotes; a later entry for a key wins.
pub open spec fn to_map(s: Seq<(Seq<char>, Seq<char>)>) -> Map<Seq<char>, Seq<char>>
    decreases s.len(),
{
    if s.len() == 0 {
        Map::empty()
    } else {
        to_map(s.drop_last()).insert(s.last().0, s.last().1)
    }
}

/// How one value is written on the wire: in double quotes when it holds a colon.
pub open spec fn value_text(v: Seq<char>) -> Seq<char> {
    if v.contains(':') {
        seq!['"'] + v + seq!['"']
    } else {
        v
    }
}

/// How one parameter is written on the wire, with its leading space.
pub open spec fn param_text(k: Seq<char>, v: Seq<char>) -> Seq<char> {
    seq![' '] + k + seq![':'] + value_text(v)
}

/// The wire text of a list of entries, in order.
pub open spec fn entries_text(s: Seq<(Seq<char>, Seq<char>)>) -> Seq<char>
    decreases s.len(),
{
    if s.len() == 0 {
        Seq::empty()
    } else {
        entries_text(s.drop_last()) + param_text(s.last().0, s.last().1)
    }
}

/// With unique keys, the mapping holds each entry.
pub proof fn lemma_map_at(s: Seq<(Seq<char>, Seq<char>)>, j: int)
    requires
        unique_keys(s),
        0 <= j < s.len(),
    ensures
        to_map(s).dom().contains(s[j].0),
        to_map(s)[s[j].0] == s[j].1,
    decreases s.len(),
{
    if j < s.len() - 1 {
        let d = s.drop_last();
        assert(unique_keys(d)) by {
            assert forall|a: int, b: int|
                0 <= a < d.len() && 0 <= b < d.len() && a != b implies #[trigger] d[a].0 != #[trigger] d[b].0 by {
                assert(d[a] == s[a] && d[b] == s[b]);
            }
        }
        lemma_map_at(d, j);
        assert(s.last() == s[s.len() - 1]);
        assert(d[j] == s[j]);
    }
}

/// A key that no entry has is not in the mapping.
pub proof fn lemma_map_absent(s: Seq<(Seq<char>, Seq<char>)>, k: Seq<char>)
    requires
        forall|j: int| 0 <= j < s.len() ==> #[trigger] s[j].0 != k,
    ensures
        !to_map(s).dom().contains(k),
    decreases s.len(),
{
    if s.len() > 0 {
        let d = s.drop_last();
        assert forall|j: int| 0 <= j < d.len() implies #[trigger] d[j].0 != k by {
            assert(d[j] == s[j]);
        }
        lemma_map_absent(d, k);
        assert(s.last() == s[s.len() - 1]);
    }
}

/// Replacing the value of an existing key changes the mapping at that key alone.
pub proof fn lemma_update_entry(s: Seq<(Seq<char>, Seq<char>)>, i: int, v: Seq<char>)
    requires
        unique_keys(s),
        0 <= i < s.len(),
    ensures
        to_map(s.update(i, (s[i].0, v))) == to_map(s).insert(s[i].0, v),
        unique_keys(s.update(i, (s[i].0, v))),
    decreases s.len(),
{
    let t = s.update(i, (s[i].0, v));
    assert(unique_keys(t)) by {
        assert forall|a: int, b: int|
            0 <= a < t.len() && 0 <= b < t.len() && a != b implies #[trigger] t[a].0 != #[trigger] t[b].0 by {
            assert(t[a].0 == s[a].0 && t[b].0 == s[b].0);
        }
    }
    if i == s.len() - 1 {
        assert(t.drop_last() =~= s.drop_last());
        assert(to_map(t) =~= to_map(s).insert(s[i].0, v));
    } else {
        let d = s.drop_last();
        assert(unique_keys(d)) by {
            assert forall|a: int, b: int|
                0 <= a < d.len() && 0 <= b < d.len() && a != b implies #[trigger] d[a].0 != #[trigger] d[b].0 by {
                assert(d[a] == s[a] && d[b] == s[b]);
            }
        }
        lemma_update_entry(d, i, v);
        assert(t.drop_last() =~= d.update(i, (d[i].0, v)));
        assert(s.last().0 != s[i].0) by {
            assert(s.last() == s[s.len() - 1]);
        }
        assert(to_map(t) =~= to_map(s).insert(s[i].0, v));
    }
}

/// A key in the mapping is the key of some entry.
pub proof fn lemma_map_dom(s: Seq<(Seq<char>, Seq<char>)>, k: Seq<char>)
    requires
        to_map(s).dom().contains(k),
    ensures
        exists|j: int| 0 <= j < s.len() && #[trigger] s[j].0 == k,
    decreases s.len(),
{
    if s.last().0 == k {
        assert(s[s.len() - 1].0 == k);
    } else {
        let d = s.drop_last();
        lemma_map_dom(d, k);
        let j = choose|j: int| 0 <= j < d.len() && #[trigger] d[j].0 == k;
        assert(s[j] == d[j]);
    }
}

/// Whether `c` occurs in `s`.
pub fn has_char(s: &String, c: char) -> (r: bool)
    ensures
        r == s@.contains(c),
{
    let cs = chars_of(s.as_str());
    let mut i: usize = 0;
    while i < cs.len()
        invariant
            cs@ == s@,
            i <= cs@.len(),
            forall|j: int| 0 <= j < i ==> cs@[j] != c,
        decreases cs@.len() - i,
    {
        if cs[i] == c {
            return true;
        }
        i = i + 1;
    }
    false
}

/// Appends the wire form of one value to `out`.
pub fn write_value(out: &mut String, v: &String)
    ensures
        final(out)@ == old(out)@ + value_text(v@),
{
    if has_char(v, ':') {
        let quote = string_from_chars(&['"']);
        out.append(quote.as_str());
        out.append(v.as_str());
        out.append(quote.as_str());
        assert(final(out)@ =~= old(out)@ + value_text(v@));
    } else {
        out.append(v.as_str());
    }
}

/// The entries of a vector of string pairs, as sequences of characters.
pub open spec fn entries_of(v: Seq<(String, String)>) -> Seq<(Seq<char>, Seq<char>)> {
    v.map_values(|e: (String, String)| (e.0@, e.1@))
}

/// Two optional parameter sets with the same entries in the same order.
pub open spec fn same_entries(a: Option<Params>, b: Option<Params>) -> bool {
    match (a, b) {
        (Some(x), Some(y)) => x.entries() == y.entries(),
        (None, None) => true,
        _ => false,
    }
}

/// A set of named parameters: keys are unique, order of insertion is kept.
#[derive(Debug)]
pub struct Params {
    entries: Vec<(String, String)>,
}

impl Params {
    /// The entries as sequences of characters, in insertion order.
    pub closed spec fn entries(&self) -> Seq<(Seq<char>, Seq<char>)> {
        entries_of(self.entries@)
    }

    #[verifier::type_invariant]
    closed spec fn inv(&self) -> bool {
        unique_keys(self.entries())
    }

    /// An empty parameter set.
    pub fn new() -> (r: Params)
        ensures
            r.entries() == Seq::<(Seq<char>, Seq<char>)>::empty(),
    {
        let r = Params { entries: Vec::new() };
        assert(r.entries() =~= Seq::<(Seq<char>, Seq<char>)>::empty());
        r
    }

    /// The number of parameters.
    pub fn len(&self) -> (r: usize)
        ensures
            r == self.entries().len(),
    {
        self.entries.len()
    }

    /// Whether there are no parameters.
    pub fn is_empty(&self) -> (r: bool)
        ensures
            r == (self.entries().len() == 0),
    {
        self.entries.len() == 0
    }

    /// The position of `key` among the entries, if present.
    fn position(&self, key: &String) -> (r: Option<usize>)
        ensures
            r is Some ==> r->0 < self.entries().len() && self.entries()[r->0 as int].0 == key@,
            r is None ==> forall|j: int| 0 <= j < self.entries().len() ==> #[trigger] self.entries()[j].0 != key@,
    {
        let mut i: usize = 0;
        while i < self.entries.len()
            invariant
                i <= self.entries@.len(),
                forall|j: int| 0 <= j < i ==> #[trigger] self.entries()[j].0 != key@,
            decreases self.entries@.len() - i,
        {
            if self.entries[i].0 == *key {
                return Some(i);
            }
            i = i + 1;
        }
        None
    }

    /// Appends the wire form of every parameter to `out`, in insertion order.
    pub fn write_to(&self, out: &mut String)
        ensures
            final(out)@ == old(out)@ + entries_text(self.entries()),
    {
        let space = string_from_chars(&[' ']);
        let colon = string_from_chars(&[':']);
        let mut i: usize = 0;
        while i < self.entries.len()
            invariant
                i <= self.entries@.len(),
                space@ == seq![' '],
                colon@ == seq![':'],
                out@ == old(out)@ + entries_text(self.entries().take(i as int)),
            decreases self.entries@.len() - i,
        {
            let ghost prefix = out@;
            out.append(space.as_str());
            out.append(self.entries[i].0.as_str());
            out.append(colon.as_str());
            write_value(out, &self.entries[i].1);
            proof {
                let t = self.entries().take(i + 1);
                assert(t.drop_last() =~= self.entries().take(i as int));
                assert(t.last() == self.entries()[i as int]);
                assert(out@ =~= prefix + param_text(t.last().0, t.last().1));
            }
            i = i + 1;
        }
        assert(self.entries().take(i as int) =~= self.entries());
    }

    /// Whether every parameter of `self` is in `other` with the same value.
    pub fn included_in(&self, other: &Params) -> (r: bool)
        ensures
            r == self@.submap_of(other@),
    {
        proof {
            use_type_invariant(self);
        }
        let mut i: usize = 0;
        while i < self.entries.len()
            invariant
                unique_keys(self.entries()),
                i <= self.entries@.len(),
                forall|j: int| 0 <= j < i ==> other@.dom().contains(#[trigger] self.entries()[j].0)
                    && other@[self.entries()[j].0] == self.entries()[j].1,
            decreases self.entries@.len() - i,
        {
            proof {
                lemma_map_at(self.entries(), i as int);
            }
            match other.get(&self.entries[i].0) {
                Some(v) => {
                    if !(v == self.entries[i].1) {
                        return false;
                    }
                },
                None => {
                    return false;
                },
            }
            i = i + 1;
        }
        assert forall|k: Seq<char>| #[trigger] self@.dom().contains(k) implies other@.dom().contains(k)
            && self@[k] == other@[k] by {
            lemma_map_dom(self.entries(), k);
            let j = choose|j: int| 0 <= j < self.entries().len() && #[trigger] self.entries()[j].0 == k;
            lemma_map_at(self.entries(), j);
        }
        true
    }

    /// The value of `key`, if present.
    pub fn get(&self, key: &String) -> (r: Option<String>)
        ensures
            r is Some <==> self@.dom().contains(key@),
            r is Some ==> r->0@ == self@[key@],
    {
        proof {
            use_type_invariant(self);
        }
        match self.position(key) {
            Some(i) => {
                proof {
                    lemma_map_at(self.entries(), i as int);
                }
                Some(self.entries[i].1.clone())
            },
            None => {
                proof {
                    lemma_map_absent(self.entries(), key@);
                }
                None
            },
        }
    }

    /// Whether `key` is present.
    pub fn contains_key(&self, key: &String) -> (r: bool)
        ensures
            r == self@.dom().contains(key@),
    {
        self.get(key).is_some()
    }

    /// Sets `key` to `value`: an existing entry keeps its place, a new one goes last.
    pub fn insert(&mut self, key: String, value: String)
        ensures
            final(self)@ == old(self)@.insert(key@, value@),
            old(self)@.dom().contains(key@) ==> final(self).entries().len() == old(self).entries().len(),
            !old(self)@.dom().contains(key@) ==> final(self).entries() == old(self).entries().push((key@, value@)),
    {
        proof {
            use_type_invariant(&*self);
        }
        match self.position(&key) {
            Some(i) => {
                proof {
                    lemma_update_entry(self.entries(), i as int, value@);
                    lemma_map_at(self.entries(), i as int);
                }
                let ghost before = self.entries();
                let mut entries: Vec<(String, String)> = Vec::new();
                std::mem::swap(&mut self.entries, &mut entries);
                entries.set(i, (key, value));
                assert(entries_of(entries@)
                    =~= before.update(i as int, (before[i as int].0, value@)));
                self.entries = entries;
                assert(self.entries() =~= before.update(i as int, (before[i as int].0, value@)));
            },
            None => {
                proof {
                    lemma_map_absent(self.entries(), key@);
                }
                let ghost before = self.entries();
                let mut entries: Vec<(String, String)> = Vec::new();
                std::mem::swap(&mut self.entries, &mut entries);
                entries.push((key, value));
                assert(entries_of(entries@) =~= before.push((key@, value@)));
                self.entries = entries;
                assert(self.entries() =~= before.push((key@, value@)));
                assert(self.entries().drop_last() =~= before);
                assert(unique_keys(self.entries())) by {
                    assert forall|a: int, b: int|
                        0 <= a < self.entries().len() && 0 <= b < self.entries().len() && a != b
                        implies #[trigger] self.entries()[a].0 != #[trigger] self.entries()[b].0 by {
                        if a < before.len() && b < before.len() {
                            assert(self.entries()[a] == before[a] && self.entries()[b] == before[b]);
                        } else if a < before.len() {
                            assert(self.entries()[a] == before[a]);
                        } else if b < before.len() {
                            assert(self.entries()[b] == before[b]);
                        }
                    }
                }
            },
        }
    }
}

impl Clone for Params {
    fn clone(&self) -> (r: Params)
        ensures
            r.entries() == self.entries(),
    {
        proof {
            use_type_invariant(self);
        }
        let mut entries: Vec<(String, String)> = Vec::new();
        let mut i: usize = 0;
        while i < self.entries.len()
            invariant
                unique_keys(self.entries()),
                i <= self.entries@.len(),
                entries@.len() == i,
                entries_of(entries@) == self.entries().take(i as int),
            decreases self.entries@.len() - i,
        {
            let k = self.entries[i].0.clone();
            let v = self.entries[i].1.clone();
            let ghost kv = (k@, v@);
            let ghost prev = entries@;
            assert(self.entries()[i as int] == kv);
            entries.push((k, v));
            assert forall|j: int| 0 <= j < i + 1 implies #[trigger] entries_of(entries@)[j]
                == self.entries().take(i + 1)[j] by {
                if j < i {
                    assert(entries@[j] == prev[j]);
                    assert(entries_of(prev)[j] == self.entries().take(i as int)[j]);
                }
            }
            assert(entries_of(entries@) =~= self.entries().take(i + 1));
            i = i + 1;
        }
        assert(self.entries().take(i as int) =~= self.entries());
        Params { entries }
    }
}

impl View for Params {
    type V = Map<Seq<char>, Seq<char>>;

    open spec fn view(&self) -> Map<Seq<char>, Seq<char>> {
        to_map(self.entries())
    }
}

} // verus!
