//! Wire-format adapter types: a list of strings carried as one
//! space-separated string, and a duration carried as a number of whole
//! seconds.

use vstd::prelude::*;
use vstd::slice::*;
use vstd::string::*;

use crate::text::{chars_string, push_char, str_chars};

verus! {

/// A duration carried on the wire as a number of whole seconds.
#[derive(Clone, Copy, Debug, PartialEq, Eq, Structural, PartialOrd, Ord, Hash)]
pub struct Seconds(pub u64);

impl From<u64> for Seconds {
    fn from(secs: u64) -> Self {
        Seconds(secs)
    }
}

impl vstd::std_specs::convert::FromSpecImpl<u64> for Seconds {
    open spec fn obeys_from_spec() -> bool {
        true
    }

    open spec fn from_spec(secs: u64) -> Self {
        Seconds(secs)
    }
}

impl From<Seconds> for u64 {
    fn from(v: Seconds) -> Self {
        v.0
    }
}

impl vstd::std_specs::convert::FromSpecImpl<Seconds> for u64 {
    open spec fn obeys_from_spec() -> bool {
        true
    }

    open spec fn from_spec(v: Seconds) -> Self {
        v.0
    }
}

impl Seconds {
    /// The wire value: the number of whole seconds.
    pub fn serialize(&self) -> (r: u64)
        ensures
            r == self.0,
    {
        self.0
    }

    /// Reads the wire value back.
    pub fn deserialize(secs: u64) -> (r: Seconds)
        ensures
            r == Seconds(secs),
    {
        Seconds(secs)
    }
}

/// The views of a vector of strings.
pub open spec fn strings_view(v: Seq<String>) -> Seq<Seq<char>> {
    v.map_values(|s: String| s@)
}

/// The items joined with single spaces.
pub open spec fn joined(items: Seq<Seq<char>>) -> Seq<char>
    decreases items.len(),
{
    if items.len() == 0 {
        Seq::empty()
    } else if items.len() == 1 {
        items[0]
    } else {
        items[0] + seq![' '] + joined(items.skip(1))
    }
}

/// An ASCII whitespace character.
pub open spec fn is_space(c: char) -> bool {
    c == ' ' || c == '\t' || c == '\n' || c == '\r' || c == '\u{c}'
}

/// Index of the first ASCII whitespace character, if any.
pub open spec fn first_space(s: Seq<char>) -> Option<int>
    decreases s.len(),
{
    if s.len() == 0 {
        Option::None
    } else if is_space(s[0]) {
        Option::Some(0)
    } else {
        match first_space(s.skip(1)) {
            Option::None => Option::None,
            Option::Some(i) => Option::Some(i + 1),
        }
    }
}

proof fn lemma_first_space(s: Seq<char>)
    ensures
        match first_space(s) {
            Option::Some(i) => 0 <= i < s.len() && is_space(s[i]) && (forall|j: int|
                0 <= j < i ==> !is_space(s[j])),
            Option::None => forall|j: int| 0 <= j < s.len() ==> !is_space(s[j]),
        },
    decreases s.len(),
{
    if s.len() > 0 && !is_space(s[0]) {
        lemma_first_space(s.skip(1));
        match first_space(s.skip(1)) {
            Option::Some(i) => {
                assert(s[i + 1] == s.skip(1)[i]);
                assert forall|j: int| 0 <= j < i + 1 implies !is_space(s[j]) by {
                    if j > 0 {
                        assert(s[j] == s.skip(1)[j - 1]);
                    }
                }
            },
            Option::None => {
                assert forall|j: int| 0 <= j < s.len() implies !is_space(s[j]) by {
                    if j > 0 {
                        assert(s[j] == s.skip(1)[j - 1]);
                    }
                }
            },
        }
    }
}

proof fn lemma_first_space_at(s: Seq<char>, i: int)
    requires
        0 <= i < s.len(),
        is_space(s[i]),
        forall|j: int| 0 <= j < i ==> !is_space(s[j]),
    ensures
        first_space(s) == Option::Some(i),
    decreases s.len(),
{
    if i > 0 {
        lemma_first_space_at(s.skip(1), i - 1);
    }
}

/// The maximal runs of non-whitespace characters, in order.
pub open spec fn split_spaces(s: Seq<char>) -> Seq<Seq<char>>
    decreases s.len(),
    when true
    via split_spaces_decreases
{
    if s.len() == 0 {
        Seq::empty()
    } else if is_space(s[0]) {
        split_spaces(s.skip(1))
    } else {
        match first_space(s) {
            Option::None => seq![s],
            Option::Some(i) => seq![s.take(i)] + split_spaces(s.skip(i)),
        }
    }
}

#[via_fn]
proof fn split_spaces_decreases(s: Seq<char>) {
    lemma_first_space(s);
}

fn is_space_exec(c: char) -> (r: bool)
    ensures
        r == is_space(c),
{
    c == ' ' || c == '\t' || c == '\n' || c == '\r' || c == '\u{c}'
}

fn find_space(v: &[char]) -> (r: Option<usize>)
    ensures
        match r {
            Option::Some(i) => first_space(v@) == Option::Some(i as int),
            Option::None => first_space(v@) is None,
        },
{
    let n = v.len();
    let mut i: usize = 0;
    while i < n
        invariant
            n == v@.len(),
            i <= n,
            forall|j: int| 0 <= j < i ==> !is_space(v@[j]),
        decreases n - i,
    {
        if is_space_exec(*slice_index_get(v, i)) {
            proof {
                lemma_first_space_at(v@, i as int);
            }
            return Some(i);
        }
        i += 1;
    }
    proof {
        lemma_first_space(v@);
    }
    None
}

fn split_spaces_exec(v: &[char]) -> (r: Vec<String>)
    ensures
        strings_view(r@) == split_spaces(v@),
    decreases v@.len(),
{
    if v.len() == 0 {
        let r: Vec<String> = Vec::new();
        proof {
            assert(strings_view(r@) =~= split_spaces(v@));
        }
        return r;
    }
    let n = v.len();
    let c0 = *slice_index_get(v, 0);
    if is_space_exec(c0) {
        let r = split_spaces_exec(slice_subrange(v, 1, n));
        proof {
            assert(v@.subrange(1, n as int) =~= v@.skip(1));
        }
        r
    } else {
        match find_space(v) {
            None => {
                let w = chars_string(v);
                let mut r: Vec<String> = Vec::new();
                r.push(w);
                proof {
                    assert(strings_view(r@) =~= split_spaces(v@));
                }
                r
            },
            Some(i) => {
                proof {
                    lemma_first_space(v@);
                    assert((i as int) < v@.len());
                }
                let w = chars_string(slice_subrange(v, 0, i));
                let mut rest = split_spaces_exec(slice_subrange(v, i, n));
                let mut r: Vec<String> = Vec::new();
                r.push(w);
                r.append(&mut rest);
                proof {
                    assert(v@.subrange(0, i as int) =~= v@.take(i as int));
                    assert(v@.subrange(i as int, n as int) =~= v@.skip(i as int));
                    assert(strings_view(r@) =~= split_spaces(v@));
                }
                r
            },
        }
    }
}

fn join_from(items: &Vec<String>, i: usize) -> (r: String)
    requires
        i <= items@.len(),
    ensures
        r@ == joined(strings_view(items@).skip(i as int)),
    decreases items@.len() - i,
{
    let ghost s = strings_view(items@).skip(i as int);
    let n = items.len();
    if i == n {
        let r = String::new();
        proof {
            assert(s.len() == 0);
            assert(r@ =~= joined(s));
        }
        return r;
    }
    proof {
        assert(s[0] == items@[i as int]@);
    }
    if i + 1 == n {
        let r = items[i].clone();
        proof {
            assert(s.len() == 1);
            assert(r@ =~= joined(s));
        }
        r
    } else {
        let mut out = items[i].clone();
        push_char(&mut out, ' ');
        let rest = join_from(items, i + 1);
        out.append(rest.as_str());
        proof {
            assert(s.skip(1) =~= strings_view(items@).skip(i as int + 1));
            assert(out@ =~= joined(s));
        }
        out
    }
}

/// Whether `a` comes strictly before `b` in lexicographic order by code
/// points.
pub open spec fn lex_lt(a: Seq<char>, b: Seq<char>) -> bool
    decreases a.len(),
{
    if b.len() == 0 {
        false
    } else if a.len() == 0 {
        true
    } else if a[0] != b[0] {
        a[0] < b[0]
    } else {
        lex_lt(a.skip(1), b.skip(1))
    }
}

/// Lexicographic order is connex: two strings are ordered one way or the
/// other, or equal.
proof fn lemma_lex_connex(a: Seq<char>, b: Seq<char>)
    ensures
        lex_lt(a, b) || lex_lt(b, a) || a == b,
    decreases a.len(),
{
    if a.len() == 0 && b.len() == 0 {
        assert(a =~= b);
    } else if a.len() > 0 && b.len() > 0 && a[0] == b[0] {
        lemma_lex_connex(a.skip(1), b.skip(1));
        if !lex_lt(a, b) && !lex_lt(b, a) {
            assert(a.skip(1) == b.skip(1));
            assert forall|i: int| 0 <= i < a.len() implies a[i] == b[i] by {
                if i > 0 {
                    assert(a[i] == a.skip(1)[i - 1]);
                    assert(b[i] == b.skip(1)[i - 1]);
                }
            }
            assert(a =~= b);
        }
    }
}

fn lex_lt_exec(a: &[char], b: &[char]) -> (r: bool)
    ensures
        r == lex_lt(a@, b@),
    decreases a@.len(),
{
    if b.len() == 0 {
        false
    } else if a.len() == 0 {
        true
    } else {
        let ca = *slice_index_get(a, 0);
        let cb = *slice_index_get(b, 0);
        if ca != cb {
            ca < cb
        } else {
            let r = lex_lt_exec(
                slice_subrange(a, 1, a.len()),
                slice_subrange(b, 1, b.len()),
            );
            proof {
                assert(a@.subrange(1, a@.len() as int) =~= a@.skip(1));
                assert(b@.subrange(1, b@.len() as int) =~= b@.skip(1));
            }
            r
        }
    }
}

/// Each item comes strictly before the next: sorted ascending, without
/// duplicates among neighbours.
pub open spec fn strictly_ascending(items: Seq<Seq<char>>) -> bool {
    forall|i: int| 0 <= i < items.len() - 1 ==> lex_lt(#[trigger] items[i], items[i + 1])
}

/// Whether some item of `items` is `x`.
pub open spec fn seq_has(items: Seq<Seq<char>>, x: Seq<char>) -> bool {
    exists|i: int| 0 <= i < items.len() && items[i] == x
}

/// The first position whose item does not come before `item`, in an
/// ascending vector.
fn find_insert_pos(v: &Vec<String>, item: &Vec<char>) -> (i: usize)
    ensures
        i <= v@.len(),
        forall|j: int| 0 <= j < i ==> lex_lt(strings_view(v@)[j], item@),
        (i as int) < v@.len() ==> !lex_lt(strings_view(v@)[i as int], item@),
{
    let n = v.len();
    let mut i: usize = 0;
    while i < n
        invariant
            n == v@.len(),
            i <= n,
            forall|j: int| 0 <= j < i ==> lex_lt(strings_view(v@)[j], item@),
        decreases n - i,
    {
        let vi_chars = str_chars(v[i].as_str());
        if !lex_lt_exec(vi_chars.as_slice(), item.as_slice()) {
            return i;
        }
        i += 1;
    }
    i
}

/// Puts `item` at its place in an ascending vector, keeping the order and
/// adding nothing but `item`; an item already present is not duplicated.
fn insert_sorted(v: &mut Vec<String>, item: String)
    requires
        strictly_ascending(strings_view(old(v)@)),
    ensures
        strictly_ascending(strings_view(final(v)@)),
        forall|x: Seq<char>|
            #[trigger] seq_has(strings_view(final(v)@), x) <==> (seq_has(
                strings_view(old(v)@),
                x,
            ) || x == item@),
{
    let ghost olds = strings_view(old(v)@);
    let item_chars = str_chars(item.as_str());
    let n = v.len();
    let i = find_insert_pos(v, &item_chars);
    if i < n && v[i] == item {
        proof {
            assert(seq_has(olds, item@)) by {
                assert(olds[i as int] == item@);
            }
            assert forall|x: Seq<char>| #[trigger] seq_has(strings_view(v@), x) <==> (seq_has(
                olds,
                x,
            ) || x == item@) by {}
        }
        return ;
    }
    proof {
        if i < n {
            lemma_lex_connex(item@, olds[i as int]);
        }
    }
    let ghost gitem = item;
    v.insert(i, item);
    proof {
        old(v)@.insert_ensures(i as int, gitem);
        let news = strings_view(v@);
        assert(news.len() == olds.len() + 1);
        assert forall|j: int| 0 <= j < news.len() implies news[j] == (if j < i {
            olds[j]
        } else if j == i {
            item_chars@
        } else {
            olds[j - 1]
        }) by {
            assert(news[j] == v@[j]@);
        }
        assert forall|j: int| 0 <= j < news.len() - 1 implies lex_lt(
            #[trigger] news[j],
            news[j + 1],
        ) by {
            if j + 1 < i as int {
                assert(lex_lt(olds[j], olds[j + 1]));
            } else if j + 1 == i as int {
                assert(lex_lt(olds[j], item_chars@));
            } else if j == i as int {
                assert(news[j + 1] == olds[j]);
                assert(lex_lt(item_chars@, olds[j]));
            } else {
                assert(lex_lt(olds[j - 1], olds[j]));
            }
        }
        assert forall|x: Seq<char>| #[trigger] seq_has(news, x) implies (seq_has(olds, x) || x
            == item_chars@) by {
            let k = choose|k: int| 0 <= k < news.len() && news[k] == x;
            if k < i {
                assert(olds[k] == x);
            } else if k > i {
                assert(olds[k - 1] == x);
            }
        }
        assert forall|x: Seq<char>| (seq_has(olds, x) || x == item_chars@) implies #[trigger]
            seq_has(news, x) by {
            if seq_has(olds, x) {
                let k = choose|k: int| 0 <= k < olds.len() && olds[k] == x;
                if k < i {
                    assert(news[k] == x);
                } else {
                    assert(news[k + 1] == x);
                }
            } else {
                assert(news[i as int] == x);
            }
        }
    }
}

/// A set of strings carried on the wire as one space-separated string in
/// ascending lexicographic order.
#[derive(Debug)]
pub struct StringHashSet(pub Vec<String>);

impl From<Vec<String>> for StringHashSet {
    fn from(items: Vec<String>) -> Self {
        StringHashSet::build(items)
    }
}

impl vstd::std_specs::convert::FromSpecImpl<Vec<String>> for StringHashSet {
    open spec fn obeys_from_spec() -> bool {
        false
    }

    open spec fn from_spec(items: Vec<String>) -> Self {
        StringHashSet(items)
    }
}

impl From<StringHashSet> for Vec<String> {
    fn from(v: StringHashSet) -> Self {
        v.0
    }
}

impl vstd::std_specs::convert::FromSpecImpl<StringHashSet> for Vec<String> {
    open spec fn obeys_from_spec() -> bool {
        true
    }

    open spec fn from_spec(v: StringHashSet) -> Self {
        v.0
    }
}

impl StringHashSet {
    /// Collects the items into ascending order, dropping duplicates: the
    /// result holds exactly the given strings, each once.
    pub fn build(items: Vec<String>) -> (r: StringHashSet)
        ensures
            strictly_ascending(strings_view(r.0@)),
            forall|x: Seq<char>|
                #[trigger] seq_has(strings_view(r.0@), x) <==> seq_has(strings_view(items@), x),
    {
        let mut out: Vec<String> = Vec::new();
        let n = items.len();
        let mut i: usize = 0;
        proof {
            assert(strings_view(out@).len() == 0);
        }
        while i < n
            invariant
                n == items@.len(),
                i <= n,
                strictly_ascending(strings_view(out@)),
                forall|x: Seq<char>|
                    #[trigger] seq_has(strings_view(out@), x) <==> seq_has(
                        strings_view(items@).take(i as int),
                        x,
                    ),
            decreases n - i,
        {
            let item = items[i].clone();
            proof {
                assert(item@ == strings_view(items@)[i as int]);
            }
            insert_sorted(&mut out, item);
            i += 1;
            proof {
                let pre = strings_view(items@).take(i as int - 1);
                let now = strings_view(items@).take(i as int);
                assert forall|x: Seq<char>| #[trigger] seq_has(now, x) implies (seq_has(pre, x)
                    || x == strings_view(items@)[i as int - 1]) by {
                    let k = choose|k: int| 0 <= k < now.len() && now[k] == x;
                    if k < i as int - 1 {
                        assert(pre[k] == x);
                    }
                }
                assert forall|x: Seq<char>| (seq_has(pre, x) || x == strings_view(
                    items@,
                )[i as int - 1]) implies #[trigger] seq_has(now, x) by {
                    if seq_has(pre, x) {
                        let k = choose|k: int| 0 <= k < pre.len() && pre[k] == x;
                        assert(now[k] == x);
                    } else {
                        assert(now[i as int - 1] == x);
                    }
                }
            }
        }
        proof {
            assert(strings_view(items@).take(n as int) =~= strings_view(items@));
        }
        StringHashSet(out)
    }

    /// The wire value: the items in ascending order, joined with single
    /// spaces.
    pub fn serialize(&self) -> (r: String)
        ensures
            r@ == joined(strings_view(self.0@)),
    {
        proof {
            assert(strings_view(self.0@).skip(0) =~= strings_view(self.0@));
        }
        join_from(&self.0, 0)
    }

    /// Reads a wire value back: the whitespace-separated items, collected
    /// into ascending order without duplicates.
    pub fn deserialize(s: &str) -> (r: StringHashSet)
        ensures
            strictly_ascending(strings_view(r.0@)),
            forall|x: Seq<char>|
                #[trigger] seq_has(strings_view(r.0@), x) <==> seq_has(split_spaces(s@), x),
    {
        let v = str_chars(s);
        let items = split_spaces_exec(v.as_slice());
        StringHashSet::build(items)
    }
}

/// A list of strings carried on the wire as one space-separated string.
#[derive(Debug)]
pub struct StringVec(pub Vec<String>);

impl From<Vec<String>> for StringVec {
    fn from(items: Vec<String>) -> Self {
        StringVec(items)
    }
}

impl vstd::std_specs::convert::FromSpecImpl<Vec<String>> for StringVec {
    open spec fn obeys_from_spec() -> bool {
        true
    }

    open spec fn from_spec(items: Vec<String>) -> Self {
        StringVec(items)
    }
}

impl From<StringVec> for Vec<String> {
    fn from(v: StringVec) -> Self {
        v.0
    }
}

impl vstd::std_specs::convert::FromSpecImpl<StringVec> for Vec<String> {
    open spec fn obeys_from_spec() -> bool {
        true
    }

    open spec fn from_spec(v: StringVec) -> Self {
        v.0
    }
}

impl StringVec {
    /// The wire value: the items joined with single spaces.
    pub fn serialize(&self) -> (r: String)
        ensures
            r@ == joined(strings_view(self.0@)),
    {
        proof {
            assert(strings_view(self.0@).skip(0) =~= strings_view(self.0@));
        }
        join_from(&self.0, 0)
    }

    /// Reads a wire value back: the maximal runs of non-whitespace
    /// characters, in order.
    pub fn deserialize(s: &str) -> (r: StringVec)
        ensures
            strings_view(r.0@) == split_spaces(s@),
    {
        let v = str_chars(s);
        StringVec(split_spaces_exec(v.as_slice()))
    }
}

} // verus!
