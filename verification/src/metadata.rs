//! The metadata map carried beside a request or response: an ordered list of
//! key/value pairs in which one key may appear several times, its values kept
//! in insertion order. Header names are case-insensitive ASCII: lookups fold
//! ASCII case on both sides, so entries keep the spelling they arrived with.

use vstd::prelude::*;

verus! {

/// `c` with an ASCII capital folded to its small letter; any other
/// character is kept.
pub open spec fn spec_lower_char(c: char) -> char {
    if 65 <= c as u32 <= 90 {
        (((c as u32) + 32) as u8) as char
    } else {
        c
    }
}

/// `s` with ASCII capitals folded to small letters.
pub open spec fn spec_lower(s: Seq<char>) -> Seq<char> {
    s.map_values(|c: char| spec_lower_char(c))
}

/// `c` with an ASCII capital folded to its small letter.
fn lower_char(c: char) -> (r: char)
    ensures
        r == spec_lower_char(c),
{
    let u = c as u32;
    if 65 <= u && u <= 90 {
        ((u + 32) as u8) as char
    } else {
        c
    }
}

/// String equality up to ASCII case.
pub fn str_eq_ignore_ascii_case(a: &str, b: &str) -> (r: bool)
    ensures
        r == (spec_lower(a@) == spec_lower(b@)),
{
    let an = a.unicode_len();
    let bn = b.unicode_len();
    if an != bn {
        proof {
            assert(spec_lower(a@).len() != spec_lower(b@).len());
        }
        return false;
    }
    let mut i: usize = 0;
    while i < an
        invariant
            i <= an,
            an == a@.len(),
            an == b@.len(),
            forall|j: int| 0 <= j < i ==> spec_lower(a@)[j] == spec_lower(b@)[j],
        decreases an - i,
    {
        if lower_char(a.get_char(i)) != lower_char(b.get_char(i)) {
            proof {
                assert(spec_lower(a@)[i as int] != spec_lower(b@)[i as int]);
            }
            return false;
        }
        i = i + 1;
    }
    proof {
        assert(spec_lower(a@) =~= spec_lower(b@));
    }
    true
}

/// One metadata entry: a header name and its value.
pub type MetadataEntry = (String, String);

/// An ordered metadata map. The view is the sequence of (key, value) pairs
/// in insertion order.
#[derive(Clone, Debug)]
pub struct MetadataMap {
    pub entries: Vec<MetadataEntry>,
}

impl View for MetadataMap {
    type V = Seq<(Seq<char>, Seq<char>)>;

    open spec fn view(&self) -> Seq<(Seq<char>, Seq<char>)> {
        self.entries@.map_values(|p: MetadataEntry| (p.0@, p.1@))
    }
}

/// The values that `entries` holds under `key`, in insertion order. Keys
/// compare case-insensitively, folding ASCII capitals.
pub open spec fn values_of(entries: Seq<(Seq<char>, Seq<char>)>, key: Seq<char>) -> Seq<Seq<char>>
    decreases entries.len(),
{
    if entries.len() == 0 {
        Seq::empty()
    } else {
        let rest = values_of(entries.drop_first(), key);
        if spec_lower(entries[0].0) == spec_lower(key) {
            seq![entries[0].1] + rest
        } else {
            rest
        }
    }
}

/// The first value that `entries` holds under `key`, if any. Keys compare
/// case-insensitively, folding ASCII capitals.
pub open spec fn first_value_of(entries: Seq<(Seq<char>, Seq<char>)>, key: Seq<char>) -> Option<
    Seq<char>,
>
    decreases entries.len(),
{
    if entries.len() == 0 {
        None
    } else if spec_lower(entries[0].0) == spec_lower(key) {
        Some(entries[0].1)
    } else {
        first_value_of(entries.drop_first(), key)
    }
}

/// Per-key values distribute over concatenation of entry lists: the values
/// of `a + b` under any key are the values of `a` followed by those of `b`.
pub proof fn lemma_values_of_add(
    a: Seq<(Seq<char>, Seq<char>)>,
    b: Seq<(Seq<char>, Seq<char>)>,
    key: Seq<char>,
)
    ensures
        values_of(a + b, key) == values_of(a, key) + values_of(b, key),
    decreases a.len(),
{
    if a.len() == 0 {
        assert(a + b =~= b);
        assert(values_of(a, key) + values_of(b, key) =~= values_of(b, key));
    } else {
        assert((a + b).drop_first() =~= a.drop_first() + b);
        lemma_values_of_add(a.drop_first(), b, key);
        if spec_lower(a[0].0) == spec_lower(key) {
            assert(seq![a[0].1] + (values_of(a.drop_first(), key) + values_of(b, key)) =~= (
            seq![a[0].1] + values_of(a.drop_first(), key)) + values_of(b, key));
        }
    }
}

impl MetadataMap {
    /// The empty metadata map.
    pub fn new() -> (r: MetadataMap)
        ensures
            r@ == Seq::<(Seq<char>, Seq<char>)>::empty(),
    {
        let r = MetadataMap { entries: Vec::new() };
        proof {
            assert(r@ =~= Seq::<(Seq<char>, Seq<char>)>::empty());
        }
        r
    }

    pub fn len(&self) -> (r: usize)
        ensures
            r == self@.len(),
    {
        self.entries.len()
    }

    /// Append one entry at the end.
    pub fn append_entry(&mut self, key: String, value: String)
        ensures
            final(self)@ == old(self)@.push((key@, value@)),
    {
        self.entries.push((key, value));
        proof {
            assert(self@ =~= old(self)@.push((key@, value@)));
        }
    }

    /// The first value under `key`, comparing keys up to ASCII case, if
    /// any.
    pub fn get(&self, key: &str) -> (r: Option<&String>)
        ensures
            match r {
                Some(v) => first_value_of(self@, key@) == Some(v@),
                None => first_value_of(self@, key@) is None,
            },
    {
        let n = self.entries.len();
        proof {
            assert(self@.subrange(0, n as int) =~= self@);
        }
        let mut i: usize = 0;
        while i < n
            invariant
                i <= n,
                n == self.entries.len(),
                first_value_of(self@, key@) == first_value_of(
                    self@.subrange(i as int, n as int),
                    key@,
                ),
            decreases n - i,
        {
            let entry = &self.entries[i];
            proof {
                assert(self@[i as int] == (entry.0@, entry.1@));
                assert(self@.subrange(i as int, n as int)[0] == self@[i as int]);
            }
            if str_eq_ignore_ascii_case(entry.0.as_str(), key) {
                return Some(&self.entries[i].1);
            }
            proof {
                assert(self@.subrange(i as int, n as int).drop_first() =~= self@.subrange(
                    i as int + 1,
                    n as int,
                ));
            }
            i = i + 1;
        }
        proof {
            assert(self@.subrange(n as int, n as int) =~= Seq::<(Seq<char>, Seq<char>)>::empty());
        }
        None
    }

    /// All the values under `key`, comparing keys up to ASCII case, in
    /// insertion order.
    pub fn get_all(&self, key: &str) -> (r: Vec<String>)
        ensures
            r@.map_values(|v: String| v@) == values_of(self@, key@),
    {
        let n = self.entries.len();
        let mut out: Vec<String> = Vec::new();
        let mut i: usize = 0;
        while i < n
            invariant
                i <= n,
                n == self.entries.len(),
                out@.map_values(|v: String| v@) == values_of(self@.subrange(0, i as int), key@),
            decreases n - i,
        {
            let ghost prefix = self@.subrange(0, i as int);
            let entry = &self.entries[i];
            if str_eq_ignore_ascii_case(entry.0.as_str(), key) {
                out.push(entry.1.clone());
            }
            proof {
                let next = self@.subrange(0, i as int + 1);
                assert(self@[i as int] == (entry.0@, entry.1@));
                assert(next =~= prefix + seq![(entry.0@, entry.1@)]);
                lemma_values_of_add(prefix, seq![(entry.0@, entry.1@)], key@);
                let single = seq![(entry.0@, entry.1@)];
                assert(single.drop_first() =~= Seq::<(Seq<char>, Seq<char>)>::empty());
                assert(values_of(Seq::<(Seq<char>, Seq<char>)>::empty(), key@)
                    == Seq::<Seq<char>>::empty());
                assert(values_of(single, key@) == if spec_lower(entry.0@) == spec_lower(key@) {
                    seq![entry.1@] + Seq::<Seq<char>>::empty()
                } else {
                    Seq::<Seq<char>>::empty()
                });
                if spec_lower(entry.0@) == spec_lower(key@) {
                    assert(seq![entry.1@] + Seq::<Seq<char>>::empty() =~= seq![entry.1@]);
                }
                assert(out@.map_values(|v: String| v@) =~= values_of(next, key@));
            }
            i = i + 1;
        }
        proof {
            assert(self@.subrange(0, n as int) =~= self@);
        }
        out
    }

    /// Merge `other` into `self`: every entry of `other` is appended after
    /// the entries already present, in its order. Under any one key, the
    /// merged values are the old values followed by `other`'s values.
    pub fn merge(&mut self, other: &MetadataMap)
        ensures
            final(self)@ == old(self)@ + other@,
    {
        let n = other.entries.len();
        proof {
            assert(other@.subrange(0, 0) =~= Seq::<(Seq<char>, Seq<char>)>::empty());
            assert(old(self)@ + other@.subrange(0, 0) =~= old(self)@);
        }
        let mut i: usize = 0;
        while i < n
            invariant
                i <= n,
                n == other.entries.len(),
                self@ == old(self)@ + other@.subrange(0, i as int),
            decreases n - i,
        {
            let entry = &other.entries[i];
            let key = entry.0.clone();
            let value = entry.1.clone();
            let ghost kv = (key@, value@);
            let ghost prev_view = self@;
            proof {
                assert(other@[i as int] == (entry.0@, entry.1@));
                assert(kv == other@[i as int]);
            }
            self.entries.push((key, value));
            proof {
                assert(self@ =~= prev_view.push(kv));
                assert(other@.subrange(0, i as int + 1) =~= other@.subrange(0, i as int).push(
                    other@[i as int],
                ));
                assert(prev_view.push(kv) =~= old(self)@ + other@.subrange(0, i as int + 1));
            }
            i = i + 1;
        }
        proof {
            assert(old(self)@ + other@.subrange(0, n as int) =~= old(self)@ + other@);
        }
    }
}

/// Relies on `String::push`: appends one character at the end.
#[verifier::external_body]
pub(crate) fn push_char(s: &mut String, c: char)
    ensures
        final(s)@ == old(s)@.push(c),
{
    s.push(c);
}

/// Character-for-character string equality.
pub fn str_eq_str(a: &str, b: &str) -> (r: bool)
    ensures
        r == (a@ == b@),
{
    let an = a.unicode_len();
    let bn = b.unicode_len();
    if an != bn {
        return false;
    }
    let mut i: usize = 0;
    while i < an
        invariant
            i <= an,
            an == a@.len(),
            an == b@.len(),
            forall|j: int| 0 <= j < i ==> a@[j] == b@[j],
        decreases an - i,
    {
        if a.get_char(i) != b.get_char(i) {
            return false;
        }
        i = i + 1;
    }
    proof {
        assert(a@ =~= b@);
    }
    true
}

/// Metadata merge, stated per key: after `merge`, a key present only in the
/// trailers appears in the merged map, and for a key present in both the
/// trailer values follow the header values in per-key insertion order.
pub proof fn lemma_merge_per_key(
    headers: Seq<(Seq<char>, Seq<char>)>,
    trailers: Seq<(Seq<char>, Seq<char>)>,
    key: Seq<char>,
)
    ensures
        values_of(headers + trailers, key) == values_of(headers, key) + values_of(trailers, key),
        values_of(headers, key).len() == 0 ==> values_of(headers + trailers, key) == values_of(
            trailers,
            key,
        ),
{
    lemma_values_of_add(headers, trailers, key);
    if values_of(headers, key).len() == 0 {
        assert(values_of(headers, key) + values_of(trailers, key) =~= values_of(trailers, key));
    }
}

} // verus!
