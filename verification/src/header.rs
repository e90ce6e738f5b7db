use vstd::prelude::*;
use crate::text::str_eq;

verus! {

/// Header lists are modelled as sequences of (name, value) pairs; reading
/// takes the first entry with the wanted name.
pub type HeaderSeq = Seq<(Seq<char>, Seq<char>)>;

/// The name of the one header the codec machinery reads and writes.
pub open spec fn content_type_key() -> Seq<char> {
    "Content-Type"@
}

/// The value of the first entry named `name`, if any.
pub open spec fn lookup(hs: HeaderSeq, name: Seq<char>) -> Option<Seq<char>>
    decreases hs.len(),
{
    if hs.len() == 0 {
        None
    } else if hs.first().0 == name {
        Some(hs.first().1)
    } else {
        lookup(hs.drop_first(), name)
    }
}

pub proof fn lemma_lookup_skip_step(hs: HeaderSeq, name: Seq<char>, i: int)
    requires
        0 <= i < hs.len(),
        hs[i].0 != name,
    ensures
        lookup(hs.skip(i), name) == lookup(hs.skip(i + 1), name),
{
    assert(hs.skip(i).first() == hs[i]);
    assert(hs.skip(i).drop_first() =~= hs.skip(i + 1));
}

pub proof fn lemma_lookup_skip_found(hs: HeaderSeq, name: Seq<char>, i: int)
    requires
        0 <= i < hs.len(),
        hs[i].0 == name,
    ensures
        lookup(hs.skip(i), name) == Some(hs[i].1),
{
    assert(hs.skip(i).first() == hs[i]);
}

/// Replacing the first entry named `name` changes what `name` reads and
/// nothing else.
pub proof fn lemma_lookup_update(hs: HeaderSeq, name: Seq<char>, value: Seq<char>, i: int)
    requires
        0 <= i < hs.len(),
        hs[i].0 == name,
        forall|k: int| 0 <= k < i ==> (#[trigger] hs[k]).0 != name,
    ensures
        lookup(hs.update(i, (name, value)), name) == Some(value),
        forall|m: Seq<char>|
            m != name ==> lookup(hs.update(i, (name, value)), m) == lookup(hs, m),
    decreases i,
{
    let hs2 = hs.update(i, (name, value));
    if i == 0 {
        assert(hs2.first() == (name, value));
        assert(hs2.drop_first() =~= hs.drop_first());
        assert forall|m: Seq<char>| m != name implies lookup(hs2, m) == lookup(hs, m) by {
            assert(lookup(hs2, m) == lookup(hs2.drop_first(), m));
            assert(lookup(hs, m) == lookup(hs.drop_first(), m));
        }
    } else {
        assert(hs2.first() == hs.first());
        assert(hs[0] == hs.first());
        assert(hs.first().0 != name);
        assert(hs2.drop_first() =~= hs.drop_first().update(i - 1, (name, value)));
        assert(forall|k: int|
            0 <= k < i - 1 ==> (#[trigger] hs.drop_first()[k]).0 != name);
        lemma_lookup_update(hs.drop_first(), name, value, i - 1);
        assert(lookup(hs2, name) == lookup(hs2.drop_first(), name));
        assert forall|m: Seq<char>| m != name implies lookup(hs2, m) == lookup(hs, m) by {
            if hs.first().0 != m {
                assert(lookup(hs2, m) == lookup(hs2.drop_first(), m));
                assert(lookup(hs, m) == lookup(hs.drop_first(), m));
            }
        }
    }
}

/// Appending an entry for a name no entry has yet changes what `name`
/// reads and nothing else.
pub proof fn lemma_lookup_push(hs: HeaderSeq, name: Seq<char>, value: Seq<char>)
    requires
        lookup(hs, name) is None,
    ensures
        lookup(hs.push((name, value)), name) == Some(value),
        forall|m: Seq<char>| m != name ==> lookup(hs.push((name, value)), m) == lookup(hs, m),
    decreases hs.len(),
{
    let hs2 = hs.push((name, value));
    if hs.len() == 0 {
        assert(hs2.first() == (name, value));
        assert(hs2.drop_first() =~= Seq::<(Seq<char>, Seq<char>)>::empty());
        assert forall|m: Seq<char>| m != name implies lookup(hs2, m) == lookup(hs, m) by {
            assert(lookup(hs2, m) == lookup(hs2.drop_first(), m));
        }
    } else {
        assert(hs2.first() == hs.first());
        assert(hs.first().0 != name);
        assert(hs2.drop_first() =~= hs.drop_first().push((name, value)));
        lemma_lookup_push(hs.drop_first(), name, value);
        assert(lookup(hs2, name) == lookup(hs2.drop_first(), name));
        assert forall|m: Seq<char>| m != name implies lookup(hs2, m) == lookup(hs, m) by {
            if hs.first().0 != m {
                assert(lookup(hs2, m) == lookup(hs2.drop_first(), m));
                assert(lookup(hs, m) == lookup(hs.drop_first(), m));
            }
        }
    }
}

/// An insertion-ordered list of headers, read first-match, written
/// replace-first-match.  Names are matched verbatim.
#[derive(Debug)]
pub struct HeaderMap {
    entries: Vec<(String, String)>,
}

impl View for HeaderMap {
    type V = HeaderSeq;

    closed spec fn view(&self) -> HeaderSeq {
        Seq::new(self.entries@.len() as nat, |i: int| (self.entries@[i].0@, self.entries@[i].1@))
    }
}

impl HeaderMap {
    pub fn new() -> (r: HeaderMap)
        ensures
            r@ == Seq::<(Seq<char>, Seq<char>)>::empty(),
    {
        let r = HeaderMap { entries: Vec::new() };
        proof {
            assert(r@ =~= Seq::<(Seq<char>, Seq<char>)>::empty());
        }
        r
    }

    /// The value of the first header named `name`, if any.
    pub fn get<'a>(&'a self, name: &str) -> (r: Option<&'a String>)
        ensures
            (match r {
                Some(v) => lookup(self@, name@) == Some(v@),
                None => lookup(self@, name@) is None,
            }),
    {
        let n = self.entries.len();
        let mut i: usize = 0;
        proof {
            assert(self@.skip(0) =~= self@);
        }
        while i < n
            invariant
                i <= n,
                n == self.entries@.len(),
                lookup(self@, name@) == lookup(self@.skip(i as int), name@),
            decreases n - i,
        {
            let entry = &self.entries[i];
            if str_eq(entry.0.as_str(), name) {
                proof {
                    lemma_lookup_skip_found(self@, name@, i as int);
                }
                return Some(&entry.1);
            }
            proof {
                lemma_lookup_skip_step(self@, name@, i as int);
            }
            i = i + 1;
        }
        proof {
            assert(self@.skip(n as int) =~= Seq::<(Seq<char>, Seq<char>)>::empty());
        }
        None
    }

    /// Set `name` to `value`: replace the first entry with that name, or
    /// append one.  Reads of every other name are unchanged.
    pub fn set(&mut self, name: &str, value: String)
        ensures
            lookup(final(self)@, name@) == Some(value@),
            forall|m: Seq<char>|
                m != name@ ==> lookup(final(self)@, m) == lookup(old(self)@, m),
    {
        let n = self.entries.len();
        let mut i: usize = 0;
        while i < n
            invariant
                i <= n,
                n == self.entries@.len(),
                *self == *old(self),
                forall|k: int| 0 <= k < i ==> (#[trigger] self@[k]).0 != name@,
            decreases n - i,
        {
            let found = str_eq(self.entries[i].0.as_str(), name);
            if found {
                let ghost pre = self@;
                let ghost idx = i as int;
                self.entries.remove(i);
                self.entries.insert(i, (name.to_owned(), value));
                proof {
                    assert(self@ =~= pre.update(idx, (name@, value@)));
                    lemma_lookup_update(pre, name@, value@, idx);
                }
                return ;
            }
            i = i + 1;
        }
        let ghost pre = self@;
        proof {
            // no entry is named `name`, so the whole lookup fails
            lemma_lookup_none(pre, name@, 0);
        }
        self.entries.push((name.to_owned(), value));
        proof {
            assert(self@ =~= pre.push((name@, value@)));
            lemma_lookup_push(pre, name@, value@);
        }
    }

    /// Whether the first header named `name` reads exactly `value`.
    pub fn is(&self, name: &str, value: &str) -> (r: bool)
        ensures
            r == (lookup(self@, name@) == Some(value@)),
    {
        match self.get(name) {
            Some(v) => str_eq(v.as_str(), value),
            None => false,
        }
    }
}

/// A lookup over entries none of which carries `name` fails.
pub proof fn lemma_lookup_none(hs: HeaderSeq, name: Seq<char>, i: int)
    requires
        0 <= i <= hs.len(),
        forall|k: int| 0 <= k < hs.len() ==> (#[trigger] hs[k]).0 != name,
    ensures
        lookup(hs.skip(i), name) is None,
        i == 0 ==> lookup(hs, name) is None,
    decreases hs.len() - i,
{
    if i < hs.len() {
        lemma_lookup_skip_step(hs, name, i);
        lemma_lookup_none(hs, name, i + 1);
    } else {
        assert(hs.skip(i) =~= Seq::<(Seq<char>, Seq<char>)>::empty());
    }
    if i == 0 {
        assert(hs.skip(0) =~= hs);
    }
}

/// Read access to the headers of a message.
pub trait ReadHeader {
    spec fn hdrs(&self) -> HeaderSeq;

    fn get_headers<'a>(&'a self) -> (r: &'a HeaderMap)
        ensures
            r@ == self.hdrs(),
    ;

    fn is_header(&self, name: &str, value: &str) -> (r: bool)
        ensures
            r == (lookup(self.hdrs(), name@) == Some(value@)),
    ;

    fn get_header<'a>(&'a self, name: &str) -> (r: Option<&'a String>)
        ensures
            (match r {
                Some(v) => lookup(self.hdrs(), name@) == Some(v@),
                None => lookup(self.hdrs(), name@) is None,
            }),
    ;

    fn get_header_str<'a>(&'a self, name: &str) -> (r: Option<&'a str>)
        ensures
            (match r {
                Some(v) => lookup(self.hdrs(), name@) == Some(v@),
                None => lookup(self.hdrs(), name@) is None,
            }),
    ;

    fn get_header_bin(&self, name: &str) -> (r: Option<Vec<u8>>)
        ensures
            (match r {
                Some(b) => (lookup(self.hdrs(), name@) matches Some(v) && b@
                    == vstd::utf8::encode_utf8(v)),
                None => lookup(self.hdrs(), name@) is None,
            }),
    ;
}

/// Write access to the headers of a message; everything else about the
/// message stays as it was.
pub trait WriteHeader: ReadHeader {
    /// The two values agree on everything but their headers.
    spec fn same_apart_from_headers(&self, other: &Self) -> bool;

    fn set_header(&mut self, name: &str, value: String)
        ensures
            lookup(final(self).hdrs(), name@) == Some(value@),
            forall|m: Seq<char>|
                m != name@ ==> lookup(final(self).hdrs(), m) == lookup(old(self).hdrs(), m),
            final(self).same_apart_from_headers(old(self)),
    ;
}

} // verus!
