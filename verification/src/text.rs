//! Text as sequences of characters: comparison, search, joining and decimal
//! numerals. Every contract is stated over the `Seq<char>` view of a string.

use vstd::prelude::*;
use vstd::string::*;

verus! {

/// The characters of `s`, in order.
pub fn chars_of(s: &str) -> (v: Vec<char>)
    ensures
        v@ == s@,
{
    let mut v: Vec<char> = Vec::new();
    for c in it: s.chars()
        invariant
            it.seq() == s@,
            v@ == it.seq().take(it.index() as int),
    {
        v.push(c);
    }
    v
}

/// Whether two character vectors hold the same text.
pub fn same_chars(a: &Vec<char>, b: &Vec<char>) -> (r: bool)
    ensures
        r == (a@ == b@),
{
    if a.len() != b.len() {
        return false;
    }
    let mut i: usize = 0;
    while i < a.len()
        invariant
            a.len() == b.len(),
            i <= a.len(),
            forall|k: int| 0 <= k < i ==> a[k] == b[k],
        decreases a.len() - i,
    {
        if a[i] != b[i] {
            return false;
        }
        i = i + 1;
    }
    assert(a@ =~= b@);
    true
}

/// Whether two strings hold the same text.
pub fn same_text(a: &str, b: &str) -> (r: bool)
    ensures
        r == (a@ == b@),
{
    let x = chars_of(a);
    let y = chars_of(b);
    same_chars(&x, &y)
}

/// The position of the first `c` in `s`, or the length of `s` where `s`
/// holds no `c`.
pub open spec fn first_index_of(s: Seq<char>, c: char) -> int
    decreases s.len(),
{
    if s.len() == 0 {
        0
    } else if s[0] == c {
        0
    } else {
        1 + first_index_of(s.drop_first(), c)
    }
}

/// `first_index_of` is the one position before which no `c` stands and at
/// which, if it lies inside `s`, a `c` stands.
pub proof fn lemma_first_index_of(s: Seq<char>, c: char)
    ensures
        0 <= first_index_of(s, c) <= s.len(),
        forall|k: int| 0 <= k < first_index_of(s, c) ==> s[k] != c,
        first_index_of(s, c) < s.len() ==> s[first_index_of(s, c)] == c,
    decreases s.len(),
{
    if s.len() != 0 && s[0] != c {
        let rest = s.drop_first();
        lemma_first_index_of(rest, c);
        assert forall|k: int| 0 <= k < first_index_of(s, c) implies s[k] != c by {
            if k > 0 {
                assert(s[k] == rest[k - 1]);
            }
        }
    }
}

/// A position that meets the description of `first_index_of` is that
/// position.
pub proof fn lemma_first_index_unique(s: Seq<char>, c: char, i: int)
    requires
        0 <= i <= s.len(),
        forall|k: int| 0 <= k < i ==> s[k] != c,
        i < s.len() ==> s[i] == c,
    ensures
        first_index_of(s, c) == i,
{
    lemma_first_index_of(s, c);
}

/// The position of the first `c` in `v`, or the length of `v`.
pub fn find_first(v: &Vec<char>, c: char) -> (i: usize)
    ensures
        i == first_index_of(v@, c),
{
    let mut i: usize = 0;
    while i < v.len() && v[i] != c
        invariant
            i <= v.len(),
            forall|k: int| 0 <= k < i ==> v[k] != c,
        decreases v.len() - i,
    {
        i = i + 1;
    }
    proof {
        lemma_first_index_unique(v@, c, i as int);
    }
    i
}

/// The texts that the strings of `v` hold, in order.
pub open spec fn views(v: Seq<String>) -> Seq<Seq<char>> {
    v.map_values(|s: String| s@)
}

/// Whether one of the strings of `items` holds the text of `x`.
pub fn contains_text(items: &Vec<String>, x: &str) -> (r: bool)
    ensures
        r == views(items@).contains(x@),
{
    let xs = chars_of(x);
    let mut i: usize = 0;
    while i < items.len()
        invariant
            i <= items.len(),
            xs@ == x@,
            forall|k: int| 0 <= k < i ==> views(items@)[k] != x@,
        decreases items.len() - i,
    {
        let item = chars_of(items[i].as_str());
        if same_chars(&item, &xs) {
            assert(views(items@)[i as int] == x@);
            return true;
        }
        i = i + 1;
    }
    false
}

/// The parts written one after the other with `sep` between each two.
pub open spec fn join(parts: Seq<Seq<char>>, sep: Seq<char>) -> Seq<char>
    decreases parts.len(),
{
    if parts.len() == 0 {
        Seq::empty()
    } else if parts.len() == 1 {
        parts[0]
    } else {
        join(parts.drop_last(), sep) + sep + parts.last()
    }
}

/// Writes the strings of `parts` one after the other with `sep` between
/// each two.
pub fn join_with(parts: &Vec<String>, sep: &str) -> (s: String)
    ensures
        s@ == join(views(parts@), sep@),
{
    let mut s = String::new();
    let mut i: usize = 0;
    while i < parts.len()
        invariant
            i <= parts.len(),
            s@ == join(views(parts@).take(i as int), sep@),
        decreases parts.len() - i,
    {
        proof {
            let next = views(parts@).take(i + 1);
            assert(next.drop_last() == views(parts@).take(i as int));
            assert(next.last() == parts@[i as int]@);
        }
        if i > 0 {
            s.append(sep);
        }
        s.append(parts[i].as_str());
        i = i + 1;
    }
    assert(views(parts@).take(i as int) == views(parts@));
    s
}

/// The order of texts: character by character, a character before the
/// characters with a greater code, and a text before the texts that it
/// begins.
pub open spec fn lex_lt(a: Seq<char>, b: Seq<char>) -> bool
    decreases a.len(),
{
    if b.len() == 0 {
        false
    } else if a.len() == 0 {
        true
    } else if a[0] != b[0] {
        a[0] < b[0]
    } else {
        lex_lt(a.drop_first(), b.drop_first())
    }
}

/// No text stands before itself.
pub proof fn lemma_lex_irreflexive(a: Seq<char>)
    ensures
        !lex_lt(a, a),
    decreases a.len(),
{
    if a.len() > 0 {
        lemma_lex_irreflexive(a.drop_first());
    }
}

/// Of two different texts one stands before the other.
pub proof fn lemma_lex_total(a: Seq<char>, b: Seq<char>)
    ensures
        a == b || lex_lt(a, b) || lex_lt(b, a),
    decreases a.len(),
{
    if a.len() > 0 && b.len() > 0 && a[0] == b[0] {
        lemma_lex_total(a.drop_first(), b.drop_first());
        if a.drop_first() == b.drop_first() {
            assert(a =~= seq![a[0]] + a.drop_first());
            assert(b =~= seq![b[0]] + b.drop_first());
        }
    } else if a.len() == 0 && b.len() == 0 {
        assert(a =~= b);
    }
}

/// The order of texts is transitive.
pub proof fn lemma_lex_transitive(a: Seq<char>, b: Seq<char>, c: Seq<char>)
    requires
        lex_lt(a, b),
        lex_lt(b, c),
    ensures
        lex_lt(a, c),
    decreases a.len(),
{
    if a.len() > 0 && b.len() > 0 && c.len() > 0 && a[0] == b[0] && b[0] == c[0] {
        lemma_lex_transitive(a.drop_first(), b.drop_first(), c.drop_first());
    }
}

/// Two texts do not stand before each other.
pub proof fn lemma_lex_asymmetric(a: Seq<char>, b: Seq<char>)
    requires
        lex_lt(a, b),
    ensures
        !lex_lt(b, a),
{
    if lex_lt(b, a) {
        lemma_lex_transitive(a, b, a);
        lemma_lex_irreflexive(a);
    }
}

/// Two texts that agree on their first `n` characters are ordered as what
/// follows those characters.
proof fn lemma_lex_common_prefix(a: Seq<char>, b: Seq<char>, n: int)
    requires
        0 <= n <= a.len(),
        n <= b.len(),
        forall|k: int| 0 <= k < n ==> a[k] == b[k],
    ensures
        lex_lt(a, b) == lex_lt(a.skip(n), b.skip(n)),
    decreases n,
{
    if n == 0 {
        assert(a.skip(0) =~= a);
        assert(b.skip(0) =~= b);
    } else {
        assert(a[0] == b[0]);
        lemma_lex_common_prefix(a.drop_first(), b.drop_first(), n - 1);
        assert(a.drop_first().skip(n - 1) =~= a.skip(n));
        assert(b.drop_first().skip(n - 1) =~= b.skip(n));
    }
}

/// Whether the text of `a` stands before the text of `b`.
pub fn text_precedes(a: &Vec<char>, b: &Vec<char>) -> (r: bool)
    ensures
        r == lex_lt(a@, b@),
{
    let mut i: usize = 0;
    while i < a.len() && i < b.len() && a[i] == b[i]
        invariant
            i <= a.len(),
            i <= b.len(),
            forall|k: int| 0 <= k < i ==> a[k] == b[k],
        decreases a.len() - i,
    {
        i = i + 1;
    }
    proof {
        lemma_lex_common_prefix(a@, b@, i as int);
    }
    if i == b.len() {
        false
    } else if i == a.len() {
        true
    } else {
        a[i] < b[i]
    }
}

/// Each text of `s` stands before those that follow it.
pub open spec fn strictly_sorted(s: Seq<Seq<char>>) -> bool {
    forall|i: int, j: int| 0 <= i < j < s.len() ==> lex_lt(#[trigger] s[i], #[trigger] s[j])
}

/// `k` lists the texts of the set `s` in order, each of them once.
pub open spec fn is_sorted_list_of(k: Seq<Seq<char>>, s: Set<Seq<char>>) -> bool {
    strictly_sorted(k) && k.to_set() == s
}

/// The texts of the set `s` in order, each of them once. A set has at most
/// one such list (`lemma_sorted_list_is_unique`).
pub open spec fn sorted_list(s: Set<Seq<char>>) -> Seq<Seq<char>> {
    choose|k: Seq<Seq<char>>| is_sorted_list_of(k, s)
}

/// The last text of a sorted list is none of the texts before it.
proof fn lemma_last_is_greatest(k: Seq<Seq<char>>, a: Seq<char>)
    requires
        strictly_sorted(k),
        k.len() > 0,
        k.drop_last().contains(a),
    ensures
        lex_lt(a, k.last()),
        a != k.last(),
{
    let i = choose|i: int| 0 <= i < k.drop_last().len() && k.drop_last()[i] == a;
    assert(k[i] == a);
    assert(lex_lt(k[i], k[k.len() - 1]));
    lemma_lex_irreflexive(a);
}

/// Two sorted lists of the same texts end in the same text.
proof fn lemma_same_last(k1: Seq<Seq<char>>, k2: Seq<Seq<char>>)
    requires
        strictly_sorted(k1),
        strictly_sorted(k2),
        k1.to_set() == k2.to_set(),
        k1.len() > 0,
    ensures
        k2.len() > 0,
        k1.last() == k2.last(),
{
    assert(k1.contains(k1[k1.len() - 1]));
    assert(k1.to_set().contains(k1.last()));
    assert(k2.contains(k1.last()));
    assert(k2.contains(k2[k2.len() - 1]));
    assert(k2.to_set().contains(k2.last()));
    assert(k1.contains(k2.last()));
    if k1.last() != k2.last() {
        let m = choose|m: int| 0 <= m < k2.len() && k2[m] == k1.last();
        assert(k2.drop_last()[m] == k1.last());
        lemma_last_is_greatest(k2, k1.last());
        let n = choose|n: int| 0 <= n < k1.len() && k1[n] == k2.last();
        assert(k1.drop_last()[n] == k2.last());
        lemma_last_is_greatest(k1, k2.last());
        lemma_lex_asymmetric(k1.last(), k2.last());
    }
}

/// Without its last text a sorted list holds the other texts, and only
/// those.
proof fn lemma_drop_last_set(k: Seq<Seq<char>>, a: Seq<char>)
    requires
        strictly_sorted(k),
        k.len() > 0,
    ensures
        k.drop_last().contains(a) <==> (k.contains(a) && a != k.last()),
        strictly_sorted(k.drop_last()),
{
    if k.drop_last().contains(a) {
        lemma_last_is_greatest(k, a);
        let i = choose|i: int| 0 <= i < k.drop_last().len() && k.drop_last()[i] == a;
        assert(k[i] == a);
    }
    if k.contains(a) && a != k.last() {
        let i = choose|i: int| 0 <= i < k.len() && k[i] == a;
        assert(k.drop_last()[i] == a);
    }
    assert forall|i: int, j: int| 0 <= i < j < k.drop_last().len() implies lex_lt(
        #[trigger] k.drop_last()[i],
        #[trigger] k.drop_last()[j],
    ) by {
        assert(lex_lt(k[i], k[j]));
    }
}

/// A set of texts has one sorted list: two sorted lists of the same texts
/// are the same list.
pub proof fn lemma_sorted_list_is_unique(k1: Seq<Seq<char>>, k2: Seq<Seq<char>>)
    requires
        strictly_sorted(k1),
        strictly_sorted(k2),
        k1.to_set() == k2.to_set(),
    ensures
        k1 == k2,
    decreases k1.len(),
{
    if k1.len() == 0 {
        if k2.len() > 0 {
            assert(k2.contains(k2[0]));
            assert(k2.to_set().contains(k2[0]));
            assert(k1.contains(k2[0]));
        }
        assert(k1 =~= k2);
    } else {
        lemma_same_last(k1, k2);
        assert forall|a: Seq<char>|
            k1.drop_last().to_set().contains(a) == k2.drop_last().to_set().contains(a) by {
            lemma_drop_last_set(k1, a);
            lemma_drop_last_set(k2, a);
            assert(k1.contains(a) == k1.to_set().contains(a));
            assert(k2.contains(a) == k2.to_set().contains(a));
        }
        assert(k1.drop_last().to_set() =~= k2.drop_last().to_set());
        lemma_drop_last_set(k1, k1.last());
        lemma_drop_last_set(k2, k2.last());
        lemma_sorted_list_is_unique(k1.drop_last(), k2.drop_last());
        assert(k1 =~= k1.drop_last().push(k1.last()));
        assert(k2 =~= k2.drop_last().push(k2.last()));
    }
}

/// Whether the text of `a` stands before the text `b`.
fn string_precedes(a: &String, b: &Vec<char>) -> (r: bool)
    ensures
        r == lex_lt(a@, b@),
{
    let item = chars_of(a.as_str());
    text_precedes(&item, b)
}

/// A text put into a sorted list behind the texts that stand before it and
/// in front of those that it stands before leaves the list sorted, and adds
/// itself to the texts of the list.
proof fn lemma_insert_keeps_sorted(o: Seq<Seq<char>>, p: int, x: Seq<char>)
    requires
        strictly_sorted(o),
        0 <= p <= o.len(),
        forall|q: int| 0 <= q < p ==> lex_lt(#[trigger] o[q], x),
        p < o.len() ==> lex_lt(x, o[p]),
    ensures
        strictly_sorted(o.insert(p, x)),
        o.insert(p, x).to_set() == o.to_set().insert(x),
{
    let n = o.insert(p, x);
    assert forall|i: int, j: int| 0 <= i < j < n.len() implies lex_lt(
        #[trigger] n[i],
        #[trigger] n[j],
    ) by {
        if i < p && j > p {
            assert(lex_lt(o[i], o[j - 1]));
        } else if i < p && j < p {
            assert(lex_lt(o[i], o[j]));
        } else if i == p {
            if j - 1 > p {
                assert(lex_lt(o[p], o[j - 1]));
                lemma_lex_transitive(x, o[p], o[j - 1]);
            }
        } else if i > p {
            assert(lex_lt(o[i - 1], o[j - 1]));
        }
    }
    assert forall|a: Seq<char>| n.to_set().contains(a) == o.to_set().insert(x).contains(a) by {
        if n.contains(a) {
            let i = choose|i: int| 0 <= i < n.len() && n[i] == a;
            if i < p {
                assert(o[i] == a);
            } else if i > p {
                assert(o[i - 1] == a);
            }
        }
        if o.contains(a) {
            let i = choose|i: int| 0 <= i < o.len() && o[i] == a;
            if i < p {
                assert(n[i] == a);
            } else {
                assert(n[i + 1] == a);
            }
        }
        if a == x {
            assert(n[p] == a);
        }
    }
    assert(n.to_set() =~= o.to_set().insert(x));
}

/// The place of `x` in the sorted list `k`: behind the texts that stand
/// before it.
spec fn insertion_point(k: Seq<Seq<char>>, x: Seq<char>) -> int
    decreases k.len(),
{
    if k.len() == 0 || !lex_lt(k[0], x) {
        0
    } else {
        1 + insertion_point(k.drop_first(), x)
    }
}

/// Every text before the insertion point stands before `x`, and the text
/// at the insertion point does not.
proof fn lemma_insertion_point(k: Seq<Seq<char>>, x: Seq<char>)
    ensures
        0 <= insertion_point(k, x) <= k.len(),
        forall|q: int| 0 <= q < insertion_point(k, x) ==> lex_lt(#[trigger] k[q], x),
        insertion_point(k, x) < k.len() ==> !lex_lt(k[insertion_point(k, x)], x),
    decreases k.len(),
{
    if k.len() != 0 && lex_lt(k[0], x) {
        let rest = k.drop_first();
        lemma_insertion_point(rest, x);
        assert forall|q: int| 0 <= q < insertion_point(k, x) implies lex_lt(#[trigger] k[q], x) by {
            if q > 0 {
                assert(k[q] == rest[q - 1]);
            }
        }
    }
}

/// Every finite collection of texts has a sorted list, so `sorted_list` is
/// what its name says: it is sorted and holds the texts of the collection,
/// each of them once.
pub proof fn lemma_sorted_list_exists(items: Seq<Seq<char>>)
    ensures
        is_sorted_list_of(sorted_list(items.to_set()), items.to_set()),
    decreases items.len(),
{
    if items.len() == 0 {
        let k = Seq::<Seq<char>>::empty();
        assert(k.to_set() =~= items.to_set());
        assert(is_sorted_list_of(k, items.to_set()));
    } else {
        let rest = items.drop_last();
        let x = items.last();
        lemma_sorted_list_exists(rest);
        let o = sorted_list(rest.to_set());
        assert(items =~= rest.push(x));
        rest.lemma_push_to_set_commute(x);
        if o.contains(x) {
            assert(o.to_set().insert(x) =~= o.to_set());
            assert(is_sorted_list_of(o, items.to_set()));
        } else {
            lemma_insertion_point(o, x);
            let p = insertion_point(o, x);
            if p < o.len() {
                lemma_lex_total(o[p], x);
            }
            lemma_insert_keeps_sorted(o, p, x);
            assert(is_sorted_list_of(o.insert(p, x), items.to_set()));
        }
    }
}

/// Puts `x` at its place in the sorted list `k`, unless `k` holds its text
/// already.
fn insert_sorted(k: &mut Vec<String>, x: String)
    requires
        strictly_sorted(views(old(k)@)),
    ensures
        strictly_sorted(views(final(k)@)),
        views(final(k)@).to_set() == views(old(k)@).to_set().insert(x@),
{
    let xs = chars_of(x.as_str());
    let ghost o = views(k@);
    let mut p: usize = 0;
    while p < k.len() && string_precedes(&k[p], &xs)
        invariant
            p <= k.len(),
            xs@ == x@,
            k@ == old(k)@,
            forall|q: int| 0 <= q < p ==> lex_lt(#[trigger] views(k@)[q], x@),
        decreases k.len() - p,
    {
        p = p + 1;
    }
    if p < k.len() {
        let item = chars_of(k[p].as_str());
        if same_chars(&item, &xs) {
            assert(o[p as int] == x@);
            assert(o.contains(x@));
            assert(o.to_set().insert(x@) =~= o.to_set());
            return;
        }
    }
    k.insert(p, x);
    proof {
        assert(views(k@) =~= o.insert(p as int, x@));
        if p < o.len() {
            lemma_lex_total(o[p as int], x@);
        }
        lemma_insert_keeps_sorted(o, p as int, x@);
    }
}

/// The texts of `items` in order, each of them once.
pub fn sorted_distinct(items: &Vec<String>) -> (k: Vec<String>)
    ensures
        views(k@) == sorted_list(views(items@).to_set()),
        is_sorted_list_of(views(k@), views(items@).to_set()),
{
    let mut k: Vec<String> = Vec::new();
    let mut i: usize = 0;
    assert(views(k@).to_set() =~= views(items@).take(0).to_set());
    while i < items.len()
        invariant
            i <= items.len(),
            strictly_sorted(views(k@)),
            views(k@).to_set() == views(items@).take(i as int).to_set(),
        decreases items.len() - i,
    {
        insert_sorted(&mut k, items[i].clone());
        proof {
            let prev = views(items@).take(i as int);
            assert(views(items@).take(i + 1) =~= prev.push(items@[i as int]@));
            prev.lemma_push_to_set_commute(items@[i as int]@);
        }
        i = i + 1;
    }
    proof {
        assert(views(items@).take(i as int) == views(items@));
        assert(is_sorted_list_of(views(k@), views(items@).to_set()));
        lemma_sorted_list_is_unique(views(k@), sorted_list(views(items@).to_set()));
    }
    k
}

/// The character of the digit `d`.
pub open spec fn digit_char(d: int) -> char {
    if d == 0 {
        '0'
    } else if d == 1 {
        '1'
    } else if d == 2 {
        '2'
    } else if d == 3 {
        '3'
    } else if d == 4 {
        '4'
    } else if d == 5 {
        '5'
    } else if d == 6 {
        '6'
    } else if d == 7 {
        '7'
    } else if d == 8 {
        '8'
    } else {
        '9'
    }
}

/// The decimal numeral of `n`, without leading zeros.
pub open spec fn decimal(n: nat) -> Seq<char>
    decreases n,
{
    if n < 10 {
        seq![digit_char(n as int)]
    } else {
        decimal(n / 10).push(digit_char((n % 10) as int))
    }
}

/// The digit `d` as a string.
fn digit_str(d: u32) -> (s: &'static str)
    requires
        d < 10,
    ensures
        s@ == seq![digit_char(d as int)],
{
    proof {
        reveal_strlit("0");
        reveal_strlit("1");
        reveal_strlit("2");
        reveal_strlit("3");
        reveal_strlit("4");
        reveal_strlit("5");
        reveal_strlit("6");
        reveal_strlit("7");
        reveal_strlit("8");
        reveal_strlit("9");
    }
    let s = if d == 0 {
        "0"
    } else if d == 1 {
        "1"
    } else if d == 2 {
        "2"
    } else if d == 3 {
        "3"
    } else if d == 4 {
        "4"
    } else if d == 5 {
        "5"
    } else if d == 6 {
        "6"
    } else if d == 7 {
        "7"
    } else if d == 8 {
        "8"
    } else {
        "9"
    };
    assert(s@ =~= seq![digit_char(d as int)]);
    s
}

/// The decimal numeral of `n`.
pub fn decimal_text(n: u32) -> (s: String)
    ensures
        s@ == decimal(n as nat),
    decreases n,
{
    if n < 10 {
        String::from_str(digit_str(n))
    } else {
        let mut s = decimal_text(n / 10);
        s.append(digit_str(n % 10));
        s
    }
}

} // verus!
