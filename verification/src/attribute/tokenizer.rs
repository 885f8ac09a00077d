//! Splitting an attribute list into its `NAME=VALUE` pairs.
//!
//! A comma ends a pair unless it stands between double quotes. Within a
//! pair, the first `=` outside quotes parts the name from the value, and
//! the value is everything after it, quotes included.

use vstd::prelude::*;
use crate::attribute::laws::lemma_tokenized_is_clean;
use crate::attribute::scan::all_pairs_clean;
use crate::error::TokenizeError;
use crate::text::{chars_of, string_of};

verus! {

/// A raw attribute list: names with their values, still as text.
pub type RawModel = Seq<(Seq<char>, Seq<char>)>;

/// Whether `c` may stand in an attribute name: `A`-`Z`, `0`-`9` and `-`.
pub open spec fn is_name_char(c: char) -> bool {
    ('A' <= c <= 'Z') || ('0' <= c <= '9') || c == '-'
}

/// Whether `s` is an attribute name: one or more name characters.
pub open spec fn is_name(s: Seq<char>) -> bool {
    s.len() > 0 && forall|i: int| 0 <= i < s.len() ==> is_name_char(#[trigger] s[i])
}

/// The first position at or after `from` where `s` holds `c` outside
/// quotes, or the length of `s` where there is none. `quoted` says whether
/// `from` itself lies between quotes.
pub open spec fn unquoted_index(s: Seq<char>, c: char, from: int, quoted: bool) -> int
    decreases s.len() - from,
{
    if from >= s.len() {
        s.len() as int
    } else if !quoted && s[from] == c {
        from
    } else {
        unquoted_index(s, c, from + 1, quoted != (s[from] == '"'))
    }
}

/// Whether the end of `s` lies between quotes, when `from` does or does not,
/// as `quoted` says.
pub open spec fn ends_quoted(s: Seq<char>, from: int, quoted: bool) -> bool
    decreases s.len() - from,
{
    if from >= s.len() {
        quoted
    } else {
        ends_quoted(s, from + 1, quoted != (s[from] == '"'))
    }
}

/// Whether `v` can stand as a value in an attribute list: every comma in it
/// stands between quotes, and every quote it opens is closed.
pub open spec fn is_value(v: Seq<char>) -> bool {
    unquoted_index(v, ',', 0, false) >= v.len() && !ends_quoted(v, 0, false)
}

/// Where `unquoted_index` stops short of the end, it stops at the character
/// it looks for.
pub proof fn lemma_unquoted_index_hit(s: Seq<char>, c: char, from: int, quoted: bool)
    requires
        0 <= from <= s.len(),
    ensures
        unquoted_index(s, c, from, quoted) < s.len() ==> s[unquoted_index(s, c, from, quoted)] == c,
    decreases s.len() - from,
{
    if from < s.len() && !(!quoted && s[from] == c) {
        lemma_unquoted_index_hit(s, c, from + 1, quoted != (s[from] == '"'));
    }
}

/// `unquoted_index` lies between `from` and the end.
pub proof fn lemma_unquoted_index_bounds(s: Seq<char>, c: char, from: int, quoted: bool)
    requires
        0 <= from <= s.len(),
    ensures
        from <= unquoted_index(s, c, from, quoted) <= s.len(),
    decreases s.len() - from,
{
    if from < s.len() && !(!quoted && s[from] == c) {
        lemma_unquoted_index_bounds(s, c, from + 1, quoted != (s[from] == '"'));
    }
}

/// The name and the value of one pair, or why `segment` is none.
pub open spec fn spec_pair(segment: Seq<char>) -> Result<(Seq<char>, Seq<char>), TokenizeError> {
    let e = unquoted_index(segment, '=', 0, false);
    if e >= segment.len() {
        Err(TokenizeError::MissingEquals)
    } else if !is_name(segment.take(e)) {
        Err(TokenizeError::EmptyName)
    } else if ends_quoted(segment.skip(e + 1), 0, false) {
        Err(TokenizeError::UnterminatedQuote)
    } else {
        Ok((segment.take(e), segment.skip(e + 1)))
    }
}

/// The pairs of the attribute list `s`, in the order of the input, or the
/// failure of the first segment that is no pair. The list is cut at each
/// comma outside quotes; an empty list is one empty segment.
pub open spec fn spec_pairs(s: Seq<char>) -> Result<RawModel, TokenizeError>
    decreases s.len(),
{
    let k = unquoted_index(s, ',', 0, false);
    match spec_pair(s.take(k)) {
        Err(e) => Err(e),
        Ok(p) => if k >= s.len() {
            Ok(seq![p])
        } else {
            proof {
                lemma_unquoted_index_bounds(s, ',', 0, false);
            }
            match spec_pairs(s.skip(k + 1)) {
                Err(e) => Err(e),
                Ok(rest) => Ok(seq![p] + rest),
            }
        },
    }
}

/// The first position at or after `from` whose entry is named `name`, or
/// the length of `list`.
pub open spec fn index_of_name(list: RawModel, name: Seq<char>, from: int) -> int
    decreases list.len() - from,
{
    if from >= list.len() {
        list.len() as int
    } else if list[from].0 == name {
        from
    } else {
        index_of_name(list, name, from + 1)
    }
}

/// The value of the entry named `name`, if there is one.
pub open spec fn lookup(list: RawModel, name: Seq<char>) -> Option<Seq<char>> {
    let i = index_of_name(list, name, 0);
    if 0 <= i < list.len() {
        Some(list[i].1)
    } else {
        None
    }
}

/// `list` with `name` set to `value`: in place where the name is there
/// already, at the end where it is new.
pub open spec fn upsert(list: RawModel, name: Seq<char>, value: Seq<char>) -> RawModel {
    let i = index_of_name(list, name, 0);
    if 0 <= i < list.len() {
        list.update(i, (name, value))
    } else {
        list.push((name, value))
    }
}

/// The pairs with each name once: at its first position, with its last value.
pub open spec fn collapse(pairs: RawModel) -> RawModel
    decreases pairs.len(),
{
    if pairs.len() == 0 {
        Seq::empty()
    } else {
        upsert(collapse(pairs.drop_last()), pairs.last().0, pairs.last().1)
    }
}

/// Whether no two entries of `list` have the same name.
pub open spec fn unique_names(list: RawModel) -> bool {
    forall|i: int, j: int| 0 <= i < j < list.len() ==> (#[trigger] list[i]).0 != (#[trigger] list[j]).0
}

/// What the attribute list `s` holds. An empty text is the empty list.
/// Where a name occurs twice, the last value counts.
pub open spec fn spec_tokenize(s: Seq<char>) -> Result<RawModel, TokenizeError> {
    if s.len() == 0 {
        Ok(Seq::empty())
    } else {
        match spec_pairs(s) {
            Ok(pairs) => Ok(collapse(pairs)),
            Err(e) => Err(e),
        }
    }
}

/// `index_of_name` points at an entry of that name, past every earlier entry
/// of another name.
pub proof fn lemma_index_of_name(list: RawModel, name: Seq<char>, from: int)
    requires
        0 <= from <= list.len(),
    ensures
        from <= index_of_name(list, name, from) <= list.len(),
        index_of_name(list, name, from) < list.len() ==> list[index_of_name(list, name, from)].0
            == name,
        forall|j: int| from <= j < index_of_name(list, name, from) ==> (#[trigger] list[j]).0 != name,
    decreases list.len() - from,
{
    if from < list.len() && list[from].0 != name {
        lemma_index_of_name(list, name, from + 1);
    }
}

/// An entry of that name after a run of other names is where
/// `index_of_name` points.
pub proof fn lemma_index_of_name_is(list: RawModel, name: Seq<char>, from: int, at: int)
    requires
        0 <= from <= at <= list.len(),
        forall|j: int| from <= j < at ==> (#[trigger] list[j]).0 != name,
        at < list.len() ==> list[at].0 == name,
    ensures
        index_of_name(list, name, from) == at,
    decreases at - from,
{
    if from < at {
        lemma_index_of_name_is(list, name, from + 1, at);
    }
}

/// Setting a name keeps the names unique.
pub proof fn lemma_upsert_unique(list: RawModel, name: Seq<char>, value: Seq<char>)
    requires
        unique_names(list),
    ensures
        unique_names(upsert(list, name, value)),
{
    lemma_index_of_name(list, name, 0);
    let next = upsert(list, name, value);
    let at = index_of_name(list, name, 0);
    assert forall|i: int, j: int| 0 <= i < j < next.len() implies (#[trigger] next[i]).0 != (
    #[trigger] next[j]).0 by {
        if at < list.len() {
            assert(next[i].0 == list[i].0);
            assert(next[j].0 == list[j].0);
        } else if j < list.len() {
            assert(next[i] == list[i] && next[j] == list[j]);
        } else {
            assert(next[i] == list[i]);
        }
    }
}

/// What the tokenizer gives has each name once.
pub proof fn lemma_collapse_unique(pairs: RawModel)
    ensures
        unique_names(collapse(pairs)),
    decreases pairs.len(),
{
    if pairs.len() > 0 {
        lemma_collapse_unique(pairs.drop_last());
        lemma_upsert_unique(collapse(pairs.drop_last()), pairs.last().0, pairs.last().1);
    }
}

/// One attribute as it stands in the input: its name and its value, both
/// still text.
#[derive(Debug, Clone, PartialEq, Eq)]
pub struct RawAttribute {
    pub name: String,
    pub value: String,
}

/// The attributes of one line, in the order in which their names first
/// occurred. A name is looked up by its first entry; a list that was made by
/// [`tokenize`] or by [`RawAttributeList::insert`] alone has each name once.
#[derive(Debug, Clone, PartialEq, Eq)]
pub struct RawAttributeList {
    entries: Vec<RawAttribute>,
}

impl View for RawAttributeList {
    type V = RawModel;

    closed spec fn view(&self) -> RawModel {
        Seq::new(self.entries@.len(), |i: int| (self.entries@[i].name@, self.entries@[i].value@))
    }
}

impl RawAttributeList {
    /// The empty list.
    pub fn new() -> (r: RawAttributeList)
        ensures
            r@ == RawModel::empty(),
    {
        let r = RawAttributeList { entries: Vec::new() };
        assert(r@ =~= RawModel::empty());
        r
    }

    /// The number of attributes.
    pub fn len(&self) -> (n: usize)
        ensures
            n == self@.len(),
    {
        self.entries.len()
    }

    /// The name and the value of the attribute at position `i`, if the list
    /// is that long.
    pub fn entry(&self, i: usize) -> (r: Option<(&str, &str)>)
        ensures
            r matches Some(e) ==> i < self@.len() && e.0@ == self@[i as int].0 && e.1@
                == self@[i as int].1,
            r is None ==> i >= self@.len(),
    {
        if i < self.entries.len() {
            Some((self.entries[i].name.as_str(), self.entries[i].value.as_str()))
        } else {
            None
        }
    }

    /// The position of the attribute named `name`, or the length of the list.
    fn position(&self, name: &String) -> (i: usize)
        ensures
            i == index_of_name(self@, name@, 0),
            i <= self@.len(),
    {
        let mut i: usize = 0;
        while i < self.entries.len()
            invariant
                i <= self.entries.len(),
                self.entries@.len() == self@.len(),
                forall|j: int| 0 <= j < i ==> (#[trigger] self@[j]).0 != name@,
            decreases self.entries.len() - i,
        {
            if self.entries[i].name == *name {
                proof {
                    assert(self@[i as int].0 == name@);
                    lemma_index_of_name_is(self@, name@, 0, i as int);
                }
                return i;
            }
            i += 1;
        }
        proof {
            lemma_index_of_name_is(self@, name@, 0, i as int);
        }
        i
    }

    /// The value of the attribute named `name`, if the list has one.
    pub fn get(&self, name: &str) -> (r: Option<&str>)
        ensures
            r matches Some(v) ==> lookup(self@, name@) == Some(v@),
            r is None ==> lookup(self@, name@) is None,
    {
        let owned = name.to_owned();
        let i = self.position(&owned);
        if i < self.entries.len() {
            Some(self.entries[i].value.as_str())
        } else {
            None
        }
    }

    /// Sets the attribute `name` to `value`. A name that the list has already
    /// keeps its place and takes the new value.
    pub fn insert(&mut self, name: String, value: String)
        ensures
            final(self)@ == upsert(old(self)@, name@, value@),
    {
        let i = self.position(&name);
        if i < self.entries.len() {
            self.entries.set(i, RawAttribute { name, value });
        } else {
            self.entries.push(RawAttribute { name, value });
        }
        assert(self@ =~= upsert(old(self)@, name@, value@));
    }
}

/// The first position in `s[from..to]` that holds `c` outside quotes, or `to`.
pub(crate) fn find_unquoted(s: &Vec<char>, c: char, from: usize, to: usize) -> (r: usize)
    requires
        from <= to <= s.len(),
    ensures
        from <= r <= to,
        r - from == unquoted_index(s@.subrange(from as int, to as int), c, 0, false),
{
    let ghost t = s@.subrange(from as int, to as int);
    let mut quoted = false;
    let mut i: usize = from;
    while i < to && (quoted || s[i] != c)
        invariant
            from <= i <= to <= s.len(),
            t == s@.subrange(from as int, to as int),
            unquoted_index(t, c, 0, false) == unquoted_index(t, c, i - from, quoted),
        decreases to - i,
    {
        if s[i] == '"' {
            quoted = !quoted;
        }
        i += 1;
    }
    i
}

/// Whether `s[from..to]` opens a quote that it does not close.
pub(crate) fn ends_in_quote(s: &Vec<char>, from: usize, to: usize) -> (r: bool)
    requires
        from <= to <= s.len(),
    ensures
        r == ends_quoted(s@.subrange(from as int, to as int), 0, false),
{
    let ghost t = s@.subrange(from as int, to as int);
    let mut quoted = false;
    let mut i: usize = from;
    while i < to
        invariant
            from <= i <= to <= s.len(),
            t == s@.subrange(from as int, to as int),
            ends_quoted(t, 0, false) == ends_quoted(t, i - from, quoted),
        decreases to - i,
    {
        if s[i] == '"' {
            quoted = !quoted;
        }
        i += 1;
    }
    quoted
}

/// Whether `s[from..to]` is an attribute name.
pub(crate) fn is_name_run(s: &Vec<char>, from: usize, to: usize) -> (r: bool)
    requires
        from <= to <= s.len(),
    ensures
        r == is_name(s@.subrange(from as int, to as int)),
{
    let ghost t = s@.subrange(from as int, to as int);
    if from == to {
        return false;
    }
    let mut i: usize = from;
    while i < to
        invariant
            from <= i <= to <= s.len(),
            t == s@.subrange(from as int, to as int),
            forall|j: int| 0 <= j < i - from ==> is_name_char(#[trigger] t[j]),
        decreases to - i,
    {
        let c = s[i];
        if !((c >= 'A' && c <= 'Z') || (c >= '0' && c <= '9') || c == '-') {
            assert(!is_name_char(t[i - from]));
            return false;
        }
        i += 1;
    }
    true
}

/// Where the `=` of the pair `s[from..to]` stands, or why it is no pair.
pub(crate) fn split_pair(s: &Vec<char>, from: usize, to: usize) -> (r: Result<usize, TokenizeError>)
    requires
        from <= to <= s.len(),
    ensures
        r matches Ok(e) ==> from <= e < to && spec_pair(s@.subrange(from as int, to as int)) == Ok::<
            (Seq<char>, Seq<char>),
            TokenizeError,
        >((s@.subrange(from as int, e as int), s@.subrange(e + 1, to as int))),
        r matches Err(e) ==> spec_pair(s@.subrange(from as int, to as int)) == Err::<
            (Seq<char>, Seq<char>),
            TokenizeError,
        >(e),
{
    let ghost t = s@.subrange(from as int, to as int);
    let e = find_unquoted(s, '=', from, to);
    if e >= to {
        return Err(TokenizeError::MissingEquals);
    }
    assert(t.take(e - from) =~= s@.subrange(from as int, e as int));
    assert(t.skip(e - from + 1) =~= s@.subrange(e + 1, to as int));
    if !is_name_run(s, from, e) {
        return Err(TokenizeError::EmptyName);
    }
    if ends_in_quote(s, e + 1, to) {
        return Err(TokenizeError::UnterminatedQuote);
    }
    Ok(e)
}

/// The pairs `head`, followed by what `rest` holds where that is a list.
pub open spec fn followed_by(head: RawModel, rest: Result<RawModel, TokenizeError>) -> Result<
    RawModel,
    TokenizeError,
> {
    match rest {
        Ok(tail) => Ok(head + tail),
        Err(e) => Err(e),
    }
}

/// Splits an attribute list into its attributes.
///
/// The empty text is the empty list. Otherwise every segment between commas
/// outside quotes must be a pair: it fails with `MissingEquals` where a
/// segment has no `=` outside quotes, with `EmptyName` where the text before
/// that `=` is no name, and with `UnterminatedQuote` where the value opens a
/// quote and the input ends before it is closed. The first segment that
/// fails decides. A name that occurs again replaces the value it had.
///
/// What comes out has each name once, each name is an attribute name, and
/// no value holds a comma outside quotes or a quote that is not closed.
pub fn tokenize(input: &str) -> (r: Result<RawAttributeList, TokenizeError>)
    ensures
        r matches Ok(list) ==> spec_tokenize(input@) == Ok::<RawModel, TokenizeError>(list@)
            && unique_names(list@) && all_pairs_clean(list@),
        r matches Err(e) ==> spec_tokenize(input@) == Err::<RawModel, TokenizeError>(e),
{
    let chars = chars_of(input);
    let n = chars.len();
    let mut list = RawAttributeList::new();
    if n == 0 {
        proof {
            lemma_tokenized_is_clean(input@);
        }
        return Ok(list);
    }
    let mut start: usize = 0;
    let ghost mut pairs: RawModel = Seq::empty();
    assert(chars@.skip(0) =~= chars@);
    assert(followed_by(pairs, spec_pairs(chars@)) == spec_pairs(chars@)) by {
        if let Ok(tail) = spec_pairs(chars@) {
            assert(pairs + tail =~= tail);
        }
    }
    loop
        invariant
            n == chars.len(),
            n > 0,
            chars@ == input@,
            start <= n,
            list@ == collapse(pairs),
            unique_names(list@),
            spec_pairs(chars@) == followed_by(pairs, spec_pairs(chars@.skip(start as int))),
        decreases n - start,
    {
        let ghost rest = chars@.skip(start as int);
        let end = find_unquoted(&chars, ',', start, n);
        assert(chars@.subrange(start as int, n as int) =~= rest);
        assert(rest.take(end - start) =~= chars@.subrange(start as int, end as int));
        let e = match split_pair(&chars, start, end) {
            Ok(e) => e,
            Err(e) => {
                return Err(e);
            },
        };
        let ghost p = (chars@.subrange(start as int, e as int), chars@.subrange(e + 1, end as int));
        list.insert(string_of(&chars, start, e), string_of(&chars, e + 1, end));
        proof {
            lemma_collapse_unique(pairs.push(p));
            assert(pairs.push(p).drop_last() =~= pairs);
            assert(pairs + seq![p] =~= pairs.push(p));
        }
        if end >= n {
            proof {
                lemma_tokenized_is_clean(input@);
            }
            return Ok(list);
        }
        proof {
            assert(rest.skip(end - start + 1) =~= chars@.skip(end + 1));
            if let Ok(tail) = spec_pairs(chars@.skip(end + 1)) {
                assert(pairs + (seq![p] + tail) =~= pairs.push(p) + tail);
            }
            pairs = pairs.push(p);
        }
        start = end + 1;
    }
}

} // verus!
