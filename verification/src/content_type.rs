use vstd::prelude::*;
use vstd::string::StrSliceExecFns;
use vstd::string::StringExecFns;
use crate::text::find_from;
use crate::text::find_char;
use crate::text::lemma_find_from;
use crate::text::lemma_find_from_is;
use crate::text::lemma_find_from_none;
use crate::text::str_eq;

verus! {

// ---------------------------------------------------------------------------
// The chain model: a full text plus the end offset of every chain segment.
// ---------------------------------------------------------------------------

/// A chain state is well formed when there is at least one offset, the
/// offsets are strictly increasing, and they all lie inside the text.
pub open spec fn chain_wf(t: Seq<char>, offs: Seq<int>) -> bool {
    &&& offs.len() >= 1
    &&& 0 <= offs[0]
    &&& (forall|i: int, j: int| 0 <= i < j < offs.len() ==> offs[i] < offs[j])
    &&& offs.last() <= t.len()
}

/// The last offset reaches the end of the text.  Freshly parsed chains are
/// tight; popping a tag leaves the backing text longer than the chain.
pub open spec fn chain_tight(t: Seq<char>, offs: Seq<int>) -> bool {
    offs.last() == t.len()
}

/// Number of chain tags described by the offsets.
pub open spec fn chain_num(offs: Seq<int>) -> int {
    offs.len() - 1
}

/// The base type: everything before the first boundary.
pub open spec fn chain_base(t: Seq<char>, offs: Seq<int>) -> Seq<char> {
    t.subrange(0, offs[0])
}

/// Tag `i`: the text strictly between boundary `i` and boundary `i + 1`,
/// excluding the delimiter at boundary `i`.
pub open spec fn chain_subtype(t: Seq<char>, offs: Seq<int>, i: int) -> Seq<char> {
    t.subrange(offs[i] + 1, offs[i + 1])
}

/// The rendered string: the text truncated at the last offset.
pub open spec fn chain_render(t: Seq<char>, offs: Seq<int>) -> Seq<char> {
    t.subrange(0, offs.last())
}

/// Appending a tag: extend the text with `+tag` (or `/tag` on a chain with
/// no tags yet) and record the new end of the text as a new offset.
pub open spec fn chain_push(t: Seq<char>, offs: Seq<int>, tag: Seq<char>) -> (Seq<char>, Seq<int>) {
    let sep: char = if chain_num(offs) > 0 { '+' } else { '/' };
    let t2 = t + seq![sep] + tag;
    (t2, offs.push(t2.len() as int))
}

/// Removing the last tag: drop the last offset if a tag remains, else do
/// nothing.  The backing text is never rewritten.
pub open spec fn chain_pop(t: Seq<char>, offs: Seq<int>) -> (Seq<char>, Seq<int>) {
    if chain_num(offs) > 0 {
        (t, offs.drop_last())
    } else {
        (t, offs)
    }
}

// ---------------------------------------------------------------------------
// Parsing a source string into offsets.
// ---------------------------------------------------------------------------

/// Offsets of the `+`-delimited boundaries of `s` from `from` on, closed by
/// `s.len()`.
pub open spec fn tail_offsets(s: Seq<char>, from: int) -> Seq<int>
    decreases s.len() - from,
{
    let j = find_from(s, '+', from);
    if j < from || j >= s.len() {
        seq![s.len() as int]
    } else {
        seq![j] + tail_offsets(s, j + 1)
    }
}

/// The offsets a scan of `s` produces: the first `/` if any, then every
/// later `+`, then `s.len()` closing the chain.
pub open spec fn parse_offsets(s: Seq<char>) -> Seq<int> {
    let j = find_from(s, '/', 0);
    if j >= s.len() {
        seq![s.len() as int]
    } else {
        seq![j] + tail_offsets(s, j + 1)
    }
}

pub proof fn lemma_tail_offsets_wf(s: Seq<char>, from: int)
    requires
        0 <= from <= s.len(),
    ensures
        tail_offsets(s, from).len() >= 1,
        tail_offsets(s, from).last() == s.len(),
        forall|i: int| 0 <= i < tail_offsets(s, from).len() ==> from <= #[trigger] tail_offsets(s, from)[i] <= s.len(),
        forall|i: int, j: int| 0 <= i < j < tail_offsets(s, from).len()
            ==> tail_offsets(s, from)[i] < tail_offsets(s, from)[j],
    decreases s.len() - from,
{
    lemma_find_from(s, '+', from);
    let j = find_from(s, '+', from);
    if !(j < from || j >= s.len()) {
        lemma_tail_offsets_wf(s, j + 1);
        let rest = tail_offsets(s, j + 1);
        let whole = tail_offsets(s, from);
        assert(whole == seq![j] + rest);
        assert(forall|i: int| 0 <= i < rest.len() ==> whole[i + 1] == rest[i]);
    }
}

pub proof fn lemma_parse_offsets_wf(s: Seq<char>)
    ensures
        parse_offsets(s).len() >= 1,
        parse_offsets(s).last() == s.len(),
        forall|i: int| 0 <= i < parse_offsets(s).len() ==> 0 <= #[trigger] parse_offsets(s)[i] <= s.len(),
        forall|i: int, j: int| 0 <= i < j < parse_offsets(s).len()
            ==> parse_offsets(s)[i] < parse_offsets(s)[j],
        chain_wf(s, parse_offsets(s)),
        chain_tight(s, parse_offsets(s)),
{
    lemma_find_from(s, '/', 0);
    let j = find_from(s, '/', 0);
    if j < s.len() {
        lemma_tail_offsets_wf(s, j + 1);
        let rest = tail_offsets(s, j + 1);
        let whole = parse_offsets(s);
        assert(whole == seq![j] + rest);
        assert(forall|i: int| 0 <= i < rest.len() ==> whole[i + 1] == rest[i]);
    }
}

/// Parsing the extension `s + "+" + tag` (no `+` inside `tag`) keeps the
/// old boundaries, replacing the closing boundary by the position of the
/// new `+` followed by a new closing boundary.
pub proof fn lemma_tail_offsets_extend(s: Seq<char>, tag: Seq<char>, from: int)
    requires
        0 <= from <= s.len(),
        find_from(tag, '+', 0) == tag.len(),
    ensures
        ({
            let w = s + seq!['+'] + tag;
            tail_offsets(w, from) == tail_offsets(s, from).drop_last() + seq![
                s.len() as int,
                w.len() as int,
            ]
        }),
    decreases s.len() - from,
{
    let w = s + seq!['+'] + tag;
    lemma_find_from(s, '+', from);
    lemma_find_from(tag, '+', 0);
    let j = find_from(s, '+', from);
    if j < s.len() {
        assert(w[j] == s[j]);
        assert forall|k: int| from <= k < j implies w[k] != '+' by {
            assert(w[k] == s[k]);
        }
        lemma_find_from_is(w, '+', from, j);
        lemma_tail_offsets_extend(s, tag, j + 1);
        assert(tail_offsets(w, from) == seq![j] + tail_offsets(w, j + 1));
        assert(tail_offsets(s, from) == seq![j] + tail_offsets(s, j + 1));
        assert((seq![j] + tail_offsets(s, j + 1)).drop_last() =~= seq![j] + tail_offsets(
            s,
            j + 1,
        ).drop_last());
        assert(seq![j] + (tail_offsets(s, j + 1).drop_last() + seq![
            s.len() as int,
            w.len() as int,
        ]) =~= (seq![j] + tail_offsets(s, j + 1).drop_last()) + seq![
            s.len() as int,
            w.len() as int,
        ]);
    } else {
        assert(w[s.len() as int] == '+');
        assert forall|k: int| from <= k < s.len() implies w[k] != '+' by {
            assert(w[k] == s[k]);
        }
        lemma_find_from_is(w, '+', from, s.len() as int);
        assert(tail_offsets(w, from) == seq![s.len() as int] + tail_offsets(w, s.len() as int + 1));
        assert forall|k: int| s.len() as int + 1 <= k < w.len() implies w[k] != '+' by {
            assert(w[k] == tag[k - s.len() - 1]);
        }
        lemma_find_from_none(w, '+', s.len() as int + 1);
        assert(tail_offsets(w, s.len() as int + 1) == seq![w.len() as int]);
        assert(tail_offsets(s, from) == seq![s.len() as int]);
        assert(tail_offsets(w, from) =~= tail_offsets(s, from).drop_last() + seq![
            s.len() as int,
            w.len() as int,
        ]);
    }
}

/// The type half of the auto-type round trip: push a tag that holds no
/// `+` onto a freshly parsed type and render; parsing that rendering again
/// shows the tag as the last one, and popping it renders the original
/// string.
pub proof fn lemma_wrap_unwrap_render(ct: Seq<char>, tag: Seq<char>)
    requires
        find_from(tag, '+', 0) == tag.len(),
    ensures
        ({
            let offs = parse_offsets(ct);
            let s1 = chain_push(ct, offs, tag);
            let w = chain_render(s1.0, s1.1);
            let offs2 = parse_offsets(w);
            &&& w == s1.0
            &&& chain_num(offs2) == chain_num(offs) + 1
            &&& chain_subtype(w, offs2, chain_num(offs2) - 1) == tag
            &&& chain_render(chain_pop(w, offs2).0, chain_pop(w, offs2).1) == ct
        }),
{
    lemma_parse_offsets_wf(ct);
    lemma_find_from(ct, '/', 0);
    lemma_find_from(tag, '+', 0);
    let offs = parse_offsets(ct);
    let s1 = chain_push(ct, offs, tag);
    assert(chain_render(s1.0, s1.1) =~= s1.0);
    let w = s1.0;
    let j = find_from(ct, '/', 0);
    if j < ct.len() {
        // a slash is present, so the chain already has a tag: separator '+'
        assert(offs == seq![j] + tail_offsets(ct, j + 1));
        lemma_tail_offsets_wf(ct, j + 1);
        assert(chain_num(offs) > 0);
        assert(w =~= ct + seq!['+'] + tag);
        assert(w[j] == ct[j]);
        assert forall|k: int| 0 <= k < j implies w[k] != '/' by {
            assert(w[k] == ct[k]);
        }
        lemma_find_from_is(w, '/', 0, j);
        lemma_tail_offsets_extend(ct, tag, j + 1);
        let offs2 = parse_offsets(w);
        assert(offs2 == seq![j] + tail_offsets(w, j + 1));
        assert(offs2 =~= offs.drop_last() + seq![ct.len() as int, w.len() as int]);
        assert(offs2[offs2.len() - 2] == ct.len());
        assert(offs2.last() == w.len());
        assert(chain_subtype(w, offs2, chain_num(offs2) - 1) =~= tag);
        assert(chain_pop(w, offs2).1 == offs2.drop_last());
        assert(offs2.drop_last() =~= offs.drop_last() + seq![ct.len() as int]);
        assert(offs2.drop_last().last() == ct.len());
        assert(chain_render(w, offs2.drop_last()) =~= ct);
    } else {
        // no slash: a zero-tag chain, separator '/'
        assert(offs =~= seq![ct.len() as int]);
        assert(chain_num(offs) == 0);
        assert(w =~= ct + seq!['/'] + tag);
        assert(w[ct.len() as int] == '/');
        assert forall|k: int| 0 <= k < ct.len() implies w[k] != '/' by {
            assert(w[k] == ct[k]);
        }
        lemma_find_from_is(w, '/', 0, ct.len() as int);
        let offs2 = parse_offsets(w);
        assert(offs2 == seq![ct.len() as int] + tail_offsets(w, ct.len() as int + 1));
        assert forall|k: int| ct.len() as int + 1 <= k < w.len() implies w[k] != '+' by {
            assert(w[k] == tag[k - ct.len() - 1]);
        }
        lemma_find_from_none(w, '+', ct.len() as int + 1);
        assert(tail_offsets(w, ct.len() as int + 1) == seq![w.len() as int]);
        assert(offs2 =~= seq![ct.len() as int, w.len() as int]);
        assert(chain_subtype(w, offs2, 0) =~= tag);
        assert(chain_render(w, offs2.drop_last()) =~= ct);
    }
}

// ---------------------------------------------------------------------------
// Laws of push and pop.
// ---------------------------------------------------------------------------

pub proof fn lemma_push_preserves_wf(t: Seq<char>, offs: Seq<int>, tag: Seq<char>)
    requires
        chain_wf(t, offs),
    ensures
        chain_wf(chain_push(t, offs, tag).0, chain_push(t, offs, tag).1),
        chain_tight(chain_push(t, offs, tag).0, chain_push(t, offs, tag).1),
        chain_num(chain_push(t, offs, tag).1) == chain_num(offs) + 1,
{
    let s1 = chain_push(t, offs, tag);
    assert forall|i: int, j: int| 0 <= i < j < s1.1.len() implies s1.1[i] < s1.1[j] by {
        if j == s1.1.len() - 1 {
            assert(s1.1[j] == s1.0.len());
            if i < offs.len() - 1 {
                assert(offs[i] < offs.last());
            }
        }
    }
}

/// Law: `push_tag` then `pop_tag` is an identity on the rendered string,
/// for any starting chain.
pub proof fn lemma_push_then_pop_render(t: Seq<char>, offs: Seq<int>, tag: Seq<char>)
    requires
        chain_wf(t, offs),
    ensures
        ({
            let s1 = chain_push(t, offs, tag);
            let s2 = chain_pop(s1.0, s1.1);
            chain_render(s2.0, s2.1) == chain_render(t, offs)
        }),
{
    let s1 = chain_push(t, offs, tag);
    lemma_push_preserves_wf(t, offs, tag);
    assert(s1.1.drop_last() =~= offs);
    assert(s1.0.subrange(0, offs.last()) =~= t.subrange(0, offs.last()));
}

/// Law: `pop_tag` on a zero-tag chain is a no-op, so `render()` is
/// unchanged.
pub proof fn lemma_pop_zero_tags(t: Seq<char>, offs: Seq<int>)
    requires
        chain_wf(t, offs),
        chain_num(offs) == 0,
    ensures
        chain_pop(t, offs) == (t, offs),
        chain_render(chain_pop(t, offs).0, chain_pop(t, offs).1) == chain_render(t, offs),
{
}

/// Pushing a whole sequence of tags, first tag first.
pub open spec fn chain_push_all(t: Seq<char>, offs: Seq<int>, tags: Seq<Seq<char>>) -> (
    Seq<char>,
    Seq<int>,
)
    decreases tags.len(),
{
    if tags.len() == 0 {
        (t, offs)
    } else {
        let s1 = chain_push(t, offs, tags.first());
        chain_push_all(s1.0, s1.1, tags.drop_first())
    }
}

/// Popping `n` times in a row.
pub open spec fn chain_pop_n(t: Seq<char>, offs: Seq<int>, n: nat) -> (Seq<char>, Seq<int>)
    decreases n,
{
    if n == 0 {
        (t, offs)
    } else {
        let s1 = chain_pop(t, offs);
        chain_pop_n(s1.0, s1.1, (n - 1) as nat)
    }
}

pub proof fn lemma_pop_n_drops(t: Seq<char>, offs: Seq<int>, n: nat)
    requires
        offs.len() > n,
    ensures
        chain_pop_n(t, offs, n) == (t, offs.subrange(0, offs.len() - n)),
    decreases n,
{
    if n == 0 {
        assert(offs.subrange(0, offs.len() as int) =~= offs);
    } else {
        assert(offs.drop_last() =~= offs.subrange(0, offs.len() - 1));
        lemma_pop_n_drops(t, offs.drop_last(), (n - 1) as nat);
        assert(offs.drop_last().subrange(0, offs.drop_last().len() - (n - 1))
            =~= offs.subrange(0, offs.len() - n));
    }
}

pub proof fn lemma_push_all_shape(t: Seq<char>, offs: Seq<int>, tags: Seq<Seq<char>>)
    requires
        chain_wf(t, offs),
        chain_tight(t, offs),
    ensures
        ({
            let s2 = chain_push_all(t, offs, tags);
            &&& chain_wf(s2.0, s2.1)
            &&& chain_tight(s2.0, s2.1)
            &&& s2.1.len() == offs.len() + tags.len()
            &&& s2.0.len() >= t.len()
            &&& s2.0.subrange(0, t.len() as int) == t
            &&& s2.1.subrange(0, offs.len() as int) == offs
            &&& (forall|i: int|
                0 <= i < tags.len() ==> chain_subtype(s2.0, s2.1, chain_num(offs) + i) == tags[i])
            &&& (forall|i: int|
                0 <= i < chain_num(offs) ==> chain_subtype(s2.0, s2.1, i) == chain_subtype(
                    t,
                    offs,
                    i,
                ))
        }),
    decreases tags.len(),
{
    let s2 = chain_push_all(t, offs, tags);
    if tags.len() == 0 {
        assert(s2.0.subrange(0, t.len() as int) =~= t);
        assert(s2.1.subrange(0, offs.len() as int) =~= offs);
    } else {
        let tag0 = tags.first();
        let s1 = chain_push(t, offs, tag0);
        lemma_push_preserves_wf(t, offs, tag0);
        lemma_push_all_shape(s1.0, s1.1, tags.drop_first());
        assert(s2 == chain_push_all(s1.0, s1.1, tags.drop_first()));
        // the prefixes of text and offsets carry over
        assert forall|k: int| 0 <= k < s1.0.len() implies s2.0[k] == s1.0[k] by {
            assert(s2.0.subrange(0, s1.0.len() as int)[k] == s2.0[k]);
        }
        assert forall|k: int| 0 <= k < s1.1.len() implies s2.1[k] == s1.1[k] by {
            assert(s2.1.subrange(0, s1.1.len() as int)[k] == s2.1[k]);
        }
        assert(s2.0.subrange(0, t.len() as int) =~= t);
        assert(s2.1.subrange(0, offs.len() as int) =~= offs);
        // the tag pushed first sits right after the old end of the text
        assert(chain_subtype(s2.0, s2.1, chain_num(offs)) =~= tag0);
        // the remaining tags sit after it, by induction
        assert forall|i: int|
            1 <= i < tags.len() implies chain_subtype(s2.0, s2.1, chain_num(offs) + i)
            == tags[i] by {
            assert(chain_subtype(s2.0, s2.1, chain_num(s1.1) + (i - 1)) == tags.drop_first()[i
                - 1]);
        }
        // tags of the starting chain are untouched
        assert forall|i: int|
            0 <= i < chain_num(offs) implies chain_subtype(s2.0, s2.1, i) == chain_subtype(
            t,
            offs,
            i,
        ) by {
            assert(chain_subtype(s2.0, s2.1, i) == chain_subtype(s1.0, s1.1, i));
            assert(offs[i + 1] <= offs.last());
            assert(chain_subtype(s1.0, s1.1, i) =~= chain_subtype(t, offs, i));
        }
    }
}

/// Law: pushing tags `t1..tn` in order onto a chain adds `n` tags,
/// `tag(i)` then returns each pushed tag in order, and popping `n` times
/// restores the rendered string and the base type.  On a freshly parsed
/// zero-tag base the tag count afterwards is exactly `n`.
pub proof fn lemma_push_sequence(t: Seq<char>, offs: Seq<int>, tags: Seq<Seq<char>>)
    requires
        chain_wf(t, offs),
        chain_tight(t, offs),
    ensures
        ({
            let s2 = chain_push_all(t, offs, tags);
            let p = chain_pop_n(s2.0, s2.1, tags.len() as nat);
            &&& chain_num(s2.1) == chain_num(offs) + tags.len()
            &&& (forall|i: int|
                0 <= i < tags.len() ==> chain_subtype(s2.0, s2.1, chain_num(offs) + i) == tags[i])
            &&& chain_base(s2.0, s2.1) == chain_base(t, offs)
            &&& chain_num(p.1) == chain_num(offs)
            &&& chain_render(p.0, p.1) == chain_render(t, offs)
        }),
{
    lemma_push_all_shape(t, offs, tags);
    let s2 = chain_push_all(t, offs, tags);
    let p = chain_pop_n(s2.0, s2.1, tags.len() as nat);
    lemma_pop_n_drops(s2.0, s2.1, tags.len() as nat);
    assert forall|k: int| 0 <= k < t.len() implies s2.0[k] == t[k] by {
        assert(s2.0.subrange(0, t.len() as int)[k] == s2.0[k]);
    }
    assert forall|k: int| 0 <= k < offs.len() implies s2.1[k] == offs[k] by {
        assert(s2.1.subrange(0, offs.len() as int)[k] == s2.1[k]);
    }
    assert(s2.1.subrange(0, s2.1.len() - tags.len()) =~= offs);
    assert(chain_base(s2.0, s2.1) =~= chain_base(t, offs));
    assert(chain_render(p.0, p.1) =~= chain_render(t, offs));
}

// ---------------------------------------------------------------------------
// The executable type.
// ---------------------------------------------------------------------------

/// The text behind a chain: borrowed from the source until the first
/// structural mutation, then an owned buffer.
#[derive(Debug, Clone)]
enum TypeBacking<'ct> {
    Borrowed(&'ct str),
    Owned(String),
}

/// A MIME type string of the shape `maintype/subtype(+tag)*`, together with
/// the character offsets that close each chain segment.  The text stays
/// borrowed until the first `push_subtype`, which materializes an owned
/// copy.
#[derive(Debug, Clone)]
pub struct ContentType<'ct> {
    fulltype: TypeBacking<'ct>,
    typeoffs: Vec<usize>,
}

impl<'ct> ContentType<'ct> {
    /// The backing text.  After pops it may extend past the rendered chain.
    pub closed spec fn text(&self) -> Seq<char> {
        match self.fulltype {
            TypeBacking::Borrowed(s) => s@,
            TypeBacking::Owned(s) => s@,
        }
    }

    /// Exec access to the backing text.
    fn text_str(&self) -> (r: &str)
        ensures
            r@ == self.text(),
    {
        match &self.fulltype {
            TypeBacking::Borrowed(s) => s,
            TypeBacking::Owned(s) => s.as_str(),
        }
    }

    /// The chain offsets, as mathematical integers.
    pub closed spec fn offsets(&self) -> Seq<int> {
        Seq::new(self.typeoffs@.len() as nat, |i: int| self.typeoffs@[i] as int)
    }

    pub open spec fn wf(&self) -> bool {
        chain_wf(self.text(), self.offsets())
    }

    pub open spec fn spec_num_subtypes(&self) -> int {
        chain_num(self.offsets())
    }

    pub open spec fn spec_get_type(&self) -> Seq<char> {
        chain_base(self.text(), self.offsets())
    }

    pub open spec fn spec_subtype(&self, i: int) -> Seq<char> {
        chain_subtype(self.text(), self.offsets(), i)
    }

    pub open spec fn spec_render(&self) -> Seq<char> {
        chain_render(self.text(), self.offsets())
    }

    /// Scan `src` once: the first `/` opens the chain, every later `+`
    /// closes one tag, and the end of the string closes the chain.  A source
    /// without `/` has zero tags.
    pub fn new(src: &'ct str) -> (ct: ContentType<'ct>)
        ensures
            ct.wf(),
            ct.text() == src@,
            ct.offsets() == parse_offsets(src@),
            chain_tight(ct.text(), ct.offsets()),
    {
        let n = src.unicode_len();
        let mut typeoffs: Vec<usize> = Vec::new();
        let slash = find_char(src, '/', 0);
        proof {
            lemma_find_from(src@, '/', 0);
        }
        if slash < n {
            typeoffs.push(slash);
            proof {
                assert(Seq::new(typeoffs@.len() as nat, |i: int| typeoffs@[i] as int)
                    =~= seq![slash as int]);
            }
            let mut off = slash + 1;
            loop
                invariant_except_break
                    off <= n,
                    n == src@.len(),
                    typeoffs@.len() >= 1,
                    Seq::new(typeoffs@.len() as nat, |i: int| typeoffs@[i] as int)
                        + tail_offsets(src@, off as int) == parse_offsets(src@),
                ensures
                    Seq::new(typeoffs@.len() as nat, |i: int| typeoffs@[i] as int)
                        == parse_offsets(src@),
                decreases n - off,
            {
                let ghost prefix = Seq::new(typeoffs@.len() as nat, |i: int| typeoffs@[i] as int);
                let plus = find_char(src, '+', off);
                proof {
                    lemma_find_from(src@, '+', off as int);
                }
                if plus < n {
                    typeoffs.push(plus);
                    proof {
                        assert(tail_offsets(src@, off as int)
                            == seq![plus as int] + tail_offsets(src@, plus + 1));
                        assert(Seq::new(typeoffs@.len() as nat, |i: int| typeoffs@[i] as int)
                            =~= prefix + seq![plus as int]);
                        assert((prefix + seq![plus as int]) + tail_offsets(src@, plus + 1)
                            =~= prefix + (seq![plus as int] + tail_offsets(src@, plus + 1)));
                    }
                    off = plus + 1;
                } else {
                    typeoffs.push(n);
                    proof {
                        assert(tail_offsets(src@, off as int) =~= seq![n as int]);
                        assert(Seq::new(typeoffs@.len() as nat, |i: int| typeoffs@[i] as int)
                            =~= prefix + seq![n as int]);
                        assert(Seq::new(typeoffs@.len() as nat, |i: int| typeoffs@[i] as int)
                            == parse_offsets(src@));
                    }
                    break;
                }
            }
        } else {
            typeoffs.push(n);
            proof {
                assert(Seq::new(typeoffs@.len() as nat, |i: int| typeoffs@[i] as int)
                    =~= seq![n as int]);
                assert(parse_offsets(src@) =~= seq![n as int]);
            }
        }
        let ct = ContentType { fulltype: TypeBacking::Borrowed(src), typeoffs };
        proof {
            lemma_parse_offsets_wf(src@);
        }
        ct
    }

    /// The base type `maintype/subtype` (or the whole string when it holds
    /// no `/`).
    pub fn get_type(&self) -> (r: &str)
        requires
            self.wf(),
        ensures
            r@ == self.spec_get_type(),
    {
        proof {
            assert(self.offsets()[0] == self.typeoffs@[0] as int);
            assert(self.offsets()[0] <= self.offsets().last());
        }
        self.text_str().substring_char(0, self.typeoffs[0])
    }

    pub fn num_subtypes(&self) -> (r: usize)
        requires
            self.wf(),
        ensures
            r as int == self.spec_num_subtypes(),
    {
        self.typeoffs.len() - 1
    }

    /// Tag `index`, or `None` when the chain has no such tag.  Never panics.
    pub fn get_subtype(&self, index: usize) -> (r: Option<&str>)
        requires
            self.wf(),
        ensures
            index < self.spec_num_subtypes() ==> (r matches Some(t) && t@ == self.spec_subtype(
                index as int,
            )),
            index >= self.spec_num_subtypes() ==> r is None,
    {
        let len = self.num_subtypes();
        if index < len {
            proof {
                let i = index as int;
                assert(self.offsets()[i] == self.typeoffs@[i] as int);
                assert(self.offsets()[i + 1] == self.typeoffs@[i + 1] as int);
                assert(self.offsets()[i] < self.offsets()[i + 1]);
                assert(self.offsets()[i + 1] <= self.offsets().last());
            }
            let lo = self.typeoffs[index] + 1;
            let hi = self.typeoffs[index + 1];
            Some(self.text_str().substring_char(lo, hi))
        } else {
            None
        }
    }

    /// The most recently appended tag, or `None` on a zero-tag chain.
    pub fn last_subtype(&self) -> (r: Option<&str>)
        requires
            self.wf(),
        ensures
            self.spec_num_subtypes() > 0 ==> (r matches Some(t) && t@ == self.spec_subtype(
                self.spec_num_subtypes() - 1,
            )),
            self.spec_num_subtypes() == 0 ==> r is None,
    {
        let n = self.num_subtypes();
        if n == 0 {
            None
        } else {
            self.get_subtype(n - 1)
        }
    }

    /// Remove the most recently appended tag; a no-op on a zero-tag chain.
    pub fn pop_subtype(&mut self)
        requires
            old(self).wf(),
        ensures
            final(self).wf(),
            (final(self).text(), final(self).offsets()) == chain_pop(
                old(self).text(),
                old(self).offsets(),
            ),
    {
        if self.num_subtypes() > 0 {
            self.typeoffs.pop();
            proof {
                assert(self.offsets() =~= old(self).offsets().drop_last());
            }
        }
    }

    /// Append a tag: `+tag`, or `/tag` when the chain has no tags yet.
    pub fn push_subtype(&mut self, subtype: &str)
        requires
            old(self).wf(),
        ensures
            final(self).wf(),
            (final(self).text(), final(self).offsets()) == chain_push(
                old(self).text(),
                old(self).offsets(),
                subtype@,
            ),
    {
        let has_subtypes = self.num_subtypes() > 0;
        let mut backing = TypeBacking::Owned(String::new());
        core::mem::swap(&mut self.fulltype, &mut backing);
        let mut fulltype: String = match backing {
            TypeBacking::Borrowed(s) => s.to_owned(),
            TypeBacking::Owned(s) => s,
        };
        if has_subtypes {
            fulltype.append("+");
        } else {
            fulltype.append("/");
        }
        fulltype.append(subtype);
        let end = fulltype.as_str().unicode_len();
        self.fulltype = TypeBacking::Owned(fulltype);
        self.typeoffs.push(end);
        proof {
            reveal_strlit("+");
            reveal_strlit("/");
            let sep: char = if chain_num(old(self).offsets()) > 0 {
                '+'
            } else {
                '/'
            };
            assert(self.text() =~= old(self).text() + seq![sep] + subtype@);
            assert(self.offsets() =~= old(self).offsets().push(self.text().len() as int));
        }
    }

    /// The rendered chain: the backing text truncated at the current chain
    /// length.
    pub fn as_ref(&self) -> (r: &str)
        requires
            self.wf(),
        ensures
            r@ == self.spec_render(),
    {
        proof {
            let last = self.offsets().len() - 1;
            assert(self.offsets()[last] == self.typeoffs@[last] as int);
            assert(self.offsets()[last] <= self.text().len());
        }
        self.text_str().substring_char(0, self.typeoffs[self.typeoffs.len() - 1])
    }

    /// Two chains are the same content type when they render to the same
    /// string, whatever their backing representation.
    pub fn eq(&self, other: &ContentType) -> (r: bool)
        requires
            self.wf(),
            other.wf(),
        ensures
            r == (self.spec_render() == other.spec_render()),
    {
        str_eq(self.as_ref(), other.as_ref())
    }

    /// A fresh, lazy, finite iterator over the tags in order.
    pub fn iter_subtypes(&'ct self) -> (it: ContentTypeSubtypesIterator<'ct>)
        requires
            self.wf(),
        ensures
            it.source() == *self,
            it.index() == 0,
    {
        ContentTypeSubtypesIterator { content_type: self, subtype_index: 0 }
    }
}

/// Iterator over the tags of a [`ContentType`], in order; it never mutates
/// the chain it reads.
pub struct ContentTypeSubtypesIterator<'ct> {
    content_type: &'ct ContentType<'ct>,
    subtype_index: usize,
}

impl<'ct> ContentTypeSubtypesIterator<'ct> {
    pub closed spec fn source(&self) -> ContentType<'ct> {
        *self.content_type
    }

    pub closed spec fn index(&self) -> int {
        self.subtype_index as int
    }

    /// The next tag, or `None` once every tag has been produced.
    pub fn next(&mut self) -> (r: Option<&'ct str>)
        requires
            old(self).source().wf(),
        ensures
            final(self).source() == old(self).source(),
            old(self).index() < old(self).source().spec_num_subtypes() ==> {
                &&& final(self).index() == old(self).index() + 1
                &&& r matches Some(t) && t@ == old(self).source().spec_subtype(old(self).index())
            },
            old(self).index() >= old(self).source().spec_num_subtypes() ==> {
                &&& final(self).index() == old(self).index()
                &&& r is None
            },
    {
        if self.subtype_index < self.content_type.num_subtypes() {
            let subtype_index = self.subtype_index;
            self.subtype_index = self.subtype_index + 1;
            self.content_type.get_subtype(subtype_index)
        } else {
            None
        }
    }
}

} // verus!
