//! Character-level helpers shared by the parsers and renderers: whitespace
//! trimming, prefix tests, substring search, line splitting, lexicographic
//! ordering of names, and decimal rendering of counts.

use vstd::prelude::*;
use vstd::string::StrSliceExecFns;
use vstd::string::StringExecFns;

verus! {

/// The character sequences of a sequence of strings.
pub open spec fn views(s: Seq<String>) -> Seq<Seq<char>> {
    s.map_values(|x: String| x@)
}

pub proof fn lemma_views_push(s: Seq<String>, x: String)
    ensures
        views(s.push(x)) == views(s).push(x@),
{
    assert(views(s.push(x)) =~= views(s).push(x@));
}

/// The whitespace characters recognized when a line or a name is trimmed.
pub open spec fn is_space(c: char) -> bool {
    c == ' ' || c == '\t' || c == '\r' || c == '\n'
}

pub fn is_space_char(c: char) -> (r: bool)
    ensures
        r == is_space(c),
{
    c == ' ' || c == '\t' || c == '\r' || c == '\n'
}

/// The characters of `s` with leading whitespace removed.
pub open spec fn trim_start_spec(s: Seq<char>) -> Seq<char>
    decreases s.len(),
{
    if s.len() > 0 && is_space(s[0]) {
        trim_start_spec(s.drop_first())
    } else {
        s
    }
}

/// The characters of `s` with trailing whitespace removed.
pub open spec fn trim_end_spec(s: Seq<char>) -> Seq<char>
    decreases s.len(),
{
    if s.len() > 0 && is_space(s.last()) {
        trim_end_spec(s.drop_last())
    } else {
        s
    }
}

/// The characters of `s` with leading and trailing whitespace removed.
pub open spec fn trim_spec(s: Seq<char>) -> Seq<char> {
    trim_end_spec(trim_start_spec(s))
}

/// Removes leading and trailing whitespace, as the checklist reader does
/// before it inspects a line.
pub fn trim(s: &str) -> (r: &str)
    ensures
        r@ == trim_spec(s@),
{
    let n = s.unicode_len();
    let mut a: usize = 0;
    proof {
        assert(s@.skip(0) =~= s@);
    }
    while a < n && is_space_char(s.get_char(a))
        invariant
            a <= n,
            n == s@.len(),
            trim_start_spec(s@) == trim_start_spec(s@.skip(a as int)),
        decreases n - a,
    {
        proof {
            assert(s@.skip(a as int).drop_first() =~= s@.skip(a as int + 1));
        }
        a = a + 1;
    }
    proof {
        if a == n {
            assert(s@.skip(a as int) =~= s@.subrange(a as int, n as int));
        } else {
            assert(!is_space(s@.skip(a as int)[0]));
            assert(s@.skip(a as int) =~= s@.subrange(a as int, n as int));
        }
        assert(trim_start_spec(s@) == s@.subrange(a as int, n as int));
    }
    let mut b: usize = n;
    while b > a && is_space_char(s.get_char(b - 1))
        invariant
            a <= b <= n,
            n == s@.len(),
            trim_start_spec(s@) == s@.subrange(a as int, n as int),
            trim_end_spec(s@.subrange(a as int, n as int)) == trim_end_spec(
                s@.subrange(a as int, b as int),
            ),
        decreases b,
    {
        proof {
            assert(s@.subrange(a as int, b as int).last() == s@[b - 1]);
            assert(s@.subrange(a as int, b as int).drop_last() =~= s@.subrange(
                a as int,
                b as int - 1,
            ));
        }
        b = b - 1;
    }
    proof {
        if b > a {
            assert(s@.subrange(a as int, b as int).last() == s@[b - 1]);
        }
        assert(trim_end_spec(s@.subrange(a as int, b as int)) == s@.subrange(a as int, b as int));
    }
    s.substring_char(a, b)
}

pub proof fn lemma_trim_start_len(s: Seq<char>)
    ensures
        trim_start_spec(s).len() <= s.len(),
    decreases s.len(),
{
    if s.len() > 0 && is_space(s[0]) {
        lemma_trim_start_len(s.drop_first());
    }
}

pub proof fn lemma_trim_end_len(s: Seq<char>)
    ensures
        trim_end_spec(s).len() <= s.len(),
    decreases s.len(),
{
    if s.len() > 0 && is_space(s.last()) {
        lemma_trim_end_len(s.drop_last());
    }
}

/// Trimming changes nothing when neither end is whitespace.
pub proof fn lemma_trim_id(s: Seq<char>)
    requires
        s.len() == 0 || (!is_space(s[0]) && !is_space(s.last())),
    ensures
        trim_spec(s) == s,
{
}

/// A trim-invariant nonempty sequence has no whitespace at either end.
pub proof fn lemma_trim_id_ends(s: Seq<char>)
    requires
        trim_spec(s) == s,
        s.len() > 0,
    ensures
        !is_space(s[0]),
        !is_space(s.last()),
{
    if is_space(s[0]) {
        lemma_trim_start_len(s.drop_first());
        lemma_trim_end_len(trim_start_spec(s.drop_first()));
        assert(trim_spec(s).len() < s.len());
    }
    if is_space(s.last()) {
        assert(trim_start_spec(s) == s);
        lemma_trim_end_len(s.drop_last());
        assert(trim_spec(s).len() < s.len());
    }
}

/// True when `p` is a prefix of `s`.
pub open spec fn starts_with_spec(s: Seq<char>, p: Seq<char>) -> bool {
    p.len() <= s.len() && s.subrange(0, p.len() as int) == p
}

pub fn str_starts_with(s: &str, p: &str) -> (r: bool)
    ensures
        r == starts_with_spec(s@, p@),
{
    let sn = s.unicode_len();
    let pn = p.unicode_len();
    if pn > sn {
        return false;
    }
    let mut i: usize = 0;
    while i < pn
        invariant
            i <= pn <= sn,
            sn == s@.len(),
            pn == p@.len(),
            forall|j: int| 0 <= j < i ==> s@[j] == p@[j],
        decreases pn - i,
    {
        if s.get_char(i) != p.get_char(i) {
            proof {
                assert(s@.subrange(0, p@.len() as int)[i as int] == s@[i as int]);
            }
            return false;
        }
        i = i + 1;
    }
    proof {
        assert(s@.subrange(0, p@.len() as int) =~= p@);
    }
    true
}

/// True when the characters of `a` and `b` coincide.
pub fn str_eq(a: &str, b: &str) -> (r: bool)
    ensures
        r == (a@ == b@),
{
    let an = a.unicode_len();
    let bn = b.unicode_len();
    if an != bn {
        return false;
    }
    let mut i: usize = 0;
    while i < an
        invariant
            i <= an,
            an == a@.len(),
            an == b@.len(),
            forall|j: int| 0 <= j < i ==> a@[j] == b@[j],
        decreases an - i,
    {
        if a.get_char(i) != b.get_char(i) {
            return false;
        }
        i = i + 1;
    }
    proof {
        assert(a@ =~= b@);
    }
    true
}

/// True when `p` occurs in `s` at position `i`.
pub open spec fn match_at(s: Seq<char>, p: Seq<char>, i: int) -> bool {
    0 <= i && i + p.len() <= s.len() && s.subrange(i, i + p.len()) == p
}

/// The first position at or after `i` where `p` occurs in `s`, if any.
pub open spec fn find_from(s: Seq<char>, p: Seq<char>, i: int) -> Option<int>
    decreases s.len() - i + 1,
{
    if i < 0 || i + p.len() > s.len() {
        None
    } else if match_at(s, p, i) {
        Some(i)
    } else {
        find_from(s, p, i + 1)
    }
}

/// The first position where `p` occurs in `s`, if any.
pub open spec fn find_sub(s: Seq<char>, p: Seq<char>) -> Option<int> {
    find_from(s, p, 0)
}

pub open spec fn contains_sub(s: Seq<char>, p: Seq<char>) -> bool {
    exists|i: int| match_at(s, p, i)
}

/// A found position is the first one: nothing matches before it.
pub proof fn lemma_find_from_first(s: Seq<char>, p: Seq<char>, i: int, k: int)
    requires
        0 <= i <= k,
        match_at(s, p, k),
        forall|j: int| i <= j < k ==> !match_at(s, p, j),
    ensures
        find_from(s, p, i) == Some(k),
    decreases k - i,
{
    if i < k {
        lemma_find_from_first(s, p, i + 1, k);
    }
}

/// If nothing matches at or after `i`, the search fails.
pub proof fn lemma_find_from_none(s: Seq<char>, p: Seq<char>, i: int)
    requires
        0 <= i,
        forall|j: int| i <= j ==> !match_at(s, p, j),
    ensures
        find_from(s, p, i) is None,
    decreases s.len() + 1 - i,
{
    if i + p.len() <= s.len() {
        lemma_find_from_none(s, p, i + 1);
    }
}

fn substr_matches(s: &str, p: &str, i: usize) -> (r: bool)
    requires
        i + p@.len() <= s@.len(),
    ensures
        r == match_at(s@, p@, i as int),
{
    let pn = p.unicode_len();
    let sn = s.unicode_len();
    let mut j: usize = 0;
    while j < pn
        invariant
            j <= pn,
            pn == p@.len(),
            sn == s@.len(),
            i + pn <= s@.len(),
            forall|q: int| 0 <= q < j ==> s@[i + q] == p@[q],
        decreases pn - j,
    {
        if s.get_char(i + j) != p.get_char(j) {
            proof {
                assert(s@.subrange(i as int, i + p@.len())[j as int] == s@[i + j]);
            }
            return false;
        }
        j = j + 1;
    }
    proof {
        assert(s@.subrange(i as int, i + p@.len()) =~= p@);
    }
    true
}

/// Position of the first occurrence of `p` in `s`, scanning left to right.
pub fn find_substr(s: &str, p: &str) -> (r: Option<usize>)
    ensures
        match r {
            Some(i) => find_sub(s@, p@) == Some(i as int),
            None => find_sub(s@, p@) is None,
        },
{
    let sn = s.unicode_len();
    let pn = p.unicode_len();
    if pn > sn {
        return None;
    }
    let bound = sn - pn;
    let mut i: usize = 0;
    loop
        invariant
            i <= bound,
            bound == sn - pn,
            sn == s@.len(),
            pn == p@.len(),
            pn <= sn,
            forall|j: int| 0 <= j < i ==> !match_at(s@, p@, j),
        decreases bound - i,
    {
        if substr_matches(s, p, i) {
            proof {
                lemma_find_from_first(s@, p@, 0, i as int);
            }
            return Some(i);
        }
        if i == bound {
            proof {
                assert forall|j: int| 0 <= j implies !match_at(s@, p@, j) by {
                    if j > i {
                        assert(j + p@.len() > s@.len());
                    }
                }
                lemma_find_from_none(s@, p@, 0);
            }
            return None;
        }
        i = i + 1;
    }
}

/// True when `l` holds no line break.
pub open spec fn no_newline(l: Seq<char>) -> bool {
    forall|j: int| 0 <= j < l.len() ==> l[j] != '\n'
}

/// The lines of `s`, split at each line break. The break characters are not
/// part of any line, and text after the last break forms a final (possibly
/// empty) line, so the result is never empty.
pub open spec fn line_split(s: Seq<char>) -> Seq<Seq<char>>
    decreases s.len(),
{
    if s.len() == 0 {
        seq![Seq::<char>::empty()]
    } else if s[0] == '\n' {
        seq![Seq::<char>::empty()] + line_split(s.drop_first())
    } else {
        let rest = line_split(s.drop_first());
        seq![seq![s[0]] + rest[0]] + rest.drop_first()
    }
}

pub proof fn lemma_line_split_len(s: Seq<char>)
    ensures
        line_split(s).len() >= 1,
    decreases s.len(),
{
    if s.len() > 0 {
        lemma_line_split_len(s.drop_first());
    }
}

/// Splitting takes the text before the first line break as the first line.
pub proof fn lemma_line_split_at_newline(s: Seq<char>, k: int)
    requires
        0 <= k < s.len(),
        s[k] == '\n',
        forall|j: int| 0 <= j < k ==> s[j] != '\n',
    ensures
        line_split(s) == seq![s.take(k)] + line_split(s.skip(k + 1)),
    decreases k,
{
    if k == 0 {
        assert(s.take(0) =~= Seq::<char>::empty());
        assert(s.drop_first() =~= s.skip(1));
    } else {
        let d = s.drop_first();
        assert(forall|j: int| 0 <= j < k - 1 ==> d[j] != '\n');
        lemma_line_split_at_newline(d, k - 1);
        lemma_line_split_len(d.skip(k));
        let rest = line_split(d);
        assert(rest[0] == d.take(k - 1));
        assert(rest.drop_first() =~= line_split(d.skip(k)));
        assert(seq![s[0]] + d.take(k - 1) =~= s.take(k));
        assert(d.skip(k) =~= s.skip(k + 1));
        assert(line_split(s) =~= seq![s.take(k)] + line_split(s.skip(k + 1)));
    }
}

/// Text without line breaks splits into that one line.
pub proof fn lemma_line_split_no_newline(s: Seq<char>)
    requires
        no_newline(s),
    ensures
        line_split(s) == seq![s],
    decreases s.len(),
{
    if s.len() == 0 {
        assert(s =~= Seq::<char>::empty());
    } else {
        lemma_line_split_no_newline(s.drop_first());
        let rest = line_split(s.drop_first());
        assert(rest[0] == s.drop_first());
        assert(seq![s[0]] + s.drop_first() =~= s);
        assert(rest.drop_first() =~= Seq::<Seq<char>>::empty());
        assert(line_split(s) =~= seq![s]);
    }
}

/// The text formed by the given lines, each followed by one line break.
pub open spec fn terminate_all(ls: Seq<Seq<char>>) -> Seq<char>
    decreases ls.len(),
{
    if ls.len() == 0 {
        Seq::<char>::empty()
    } else {
        ls[0] + seq!['\n'] + terminate_all(ls.drop_first())
    }
}

pub proof fn lemma_terminate_all_concat(a: Seq<Seq<char>>, b: Seq<Seq<char>>)
    ensures
        terminate_all(a + b) == terminate_all(a) + terminate_all(b),
    decreases a.len(),
{
    if a.len() == 0 {
        assert(a + b =~= b);
        assert(terminate_all(a) + terminate_all(b) =~= terminate_all(b));
    } else {
        lemma_terminate_all_concat(a.drop_first(), b);
        assert((a + b).drop_first() =~= a.drop_first() + b);
        assert((a + b)[0] == a[0]);
        assert(terminate_all(a + b) =~= terminate_all(a) + terminate_all(b));
    }
}

pub proof fn lemma_terminate_all_single(l: Seq<char>)
    ensures
        terminate_all(seq![l]) == l + seq!['\n'],
{
    assert(seq![l].drop_first() =~= Seq::<Seq<char>>::empty());
    assert(terminate_all(Seq::<Seq<char>>::empty()) =~= Seq::<char>::empty());
    assert(terminate_all(seq![l]) =~= l + seq!['\n']);
}

/// Splitting undoes termination: the given break-free lines come back,
/// followed by the lines of the remaining text.
pub proof fn lemma_line_split_terminated(ls: Seq<Seq<char>>, rest: Seq<char>)
    requires
        forall|i: int| 0 <= i < ls.len() ==> no_newline(#[trigger] ls[i]),
    ensures
        line_split(terminate_all(ls) + rest) == ls + line_split(rest),
    decreases ls.len(),
{
    if ls.len() == 0 {
        assert(terminate_all(ls) + rest =~= rest);
        assert(ls + line_split(rest) =~= line_split(rest));
    } else {
        let s = terminate_all(ls) + rest;
        let k = ls[0].len() as int;
        assert(s =~= ls[0] + seq!['\n'] + (terminate_all(ls.drop_first()) + rest));
        assert(s[k] == '\n');
        assert(forall|j: int| 0 <= j < k ==> s[j] == ls[0][j] && s[j] != '\n');
        lemma_line_split_at_newline(s, k);
        assert(s.take(k) =~= ls[0]);
        assert(s.skip(k + 1) =~= terminate_all(ls.drop_first()) + rest);
        assert(forall|i: int| 0 <= i < ls.drop_first().len() ==> no_newline(
            #[trigger] ls.drop_first()[i],
        ));
        lemma_line_split_terminated(ls.drop_first(), rest);
        assert(line_split(s) =~= ls + line_split(rest));
    }
}

/// Splits text into its lines, one `String` per line.
pub fn split_lines(s: &str) -> (r: Vec<String>)
    ensures
        views(r@) == line_split(s@),
{
    let n = s.unicode_len();
    let mut r: Vec<String> = Vec::new();
    let mut start: usize = 0;
    let mut i: usize = 0;
    proof {
        assert(s@.skip(0) =~= s@);
        assert(views(r@) + line_split(s@) =~= line_split(s@));
    }
    while i < n
        invariant
            start <= i <= n,
            n == s@.len(),
            line_split(s@) == views(r@) + line_split(s@.skip(start as int)),
            forall|j: int| start <= j < i ==> s@[j] != '\n',
        decreases n - i,
    {
        if s.get_char(i) == '\n' {
            let ghost old_r = r@;
            let line = String::from_str(s.substring_char(start, i));
            r.push(line);
            proof {
                let tail = s@.skip(start as int);
                assert(forall|j: int| 0 <= j < i - start ==> tail[j] == s@[start + j]);
                lemma_line_split_at_newline(tail, i - start);
                assert(tail.take(i - start) =~= s@.subrange(start as int, i as int));
                assert(tail.skip(i - start + 1) =~= s@.skip(i as int + 1));
                lemma_views_push(old_r, line);
                assert(views(old_r).push(line@) =~= views(old_r) + seq![line@]);
                assert(views(old_r) + (seq![line@] + line_split(s@.skip(i as int + 1))) =~= (
                views(old_r) + seq![line@]) + line_split(s@.skip(i as int + 1)));
            }
            start = i + 1;
        }
        i = i + 1;
    }
    let ghost old_r = r@;
    let line = String::from_str(s.substring_char(start, n));
    r.push(line);
    proof {
        let tail = s@.skip(start as int);
        assert(forall|j: int| 0 <= j < tail.len() ==> tail[j] == s@[start + j]);
        lemma_line_split_no_newline(tail);
        assert(tail =~= s@.subrange(start as int, n as int));
        lemma_views_push(old_r, line);
        assert(views(old_r).push(line@) =~= views(old_r) + seq![line@]);
    }
    r
}

/// Lexicographic order on character sequences by code point, the order in
/// which checklist sections are rendered.
pub open spec fn str_leq(a: Seq<char>, b: Seq<char>) -> bool
    decreases a.len(),
{
    if a.len() == 0 {
        true
    } else if b.len() == 0 {
        false
    } else if a[0] != b[0] {
        (a[0] as int) < (b[0] as int)
    } else {
        str_leq(a.drop_first(), b.drop_first())
    }
}

/// The name order as a relation value, for use with `sort_by`.
pub open spec fn name_le() -> spec_fn(Seq<char>, Seq<char>) -> bool {
    |x: Seq<char>, y: Seq<char>| str_leq(x, y)
}

pub proof fn lemma_str_leq_reflexive(a: Seq<char>)
    ensures
        str_leq(a, a),
    decreases a.len(),
{
    if a.len() > 0 {
        lemma_str_leq_reflexive(a.drop_first());
    }
}

pub proof fn lemma_str_leq_total(a: Seq<char>, b: Seq<char>)
    ensures
        str_leq(a, b) || str_leq(b, a),
    decreases a.len(),
{
    if a.len() > 0 && b.len() > 0 && a[0] == b[0] {
        lemma_str_leq_total(a.drop_first(), b.drop_first());
    }
}

pub proof fn lemma_str_leq_antisymmetric(a: Seq<char>, b: Seq<char>)
    requires
        str_leq(a, b),
        str_leq(b, a),
    ensures
        a == b,
    decreases a.len(),
{
    if a.len() == 0 {
        assert(b.len() == 0);
        assert(a =~= b);
    } else {
        assert(b.len() > 0);
        assert(a[0] == b[0]);
        lemma_str_leq_antisymmetric(a.drop_first(), b.drop_first());
        assert(a.len() == b.len());
        assert forall|i: int| 0 <= i < a.len() implies a[i] == b[i] by {
            if i > 0 {
                assert(a.drop_first()[i - 1] == b.drop_first()[i - 1]);
            }
        }
        assert(a =~= b);
    }
}

pub proof fn lemma_str_leq_transitive(a: Seq<char>, b: Seq<char>, c: Seq<char>)
    requires
        str_leq(a, b),
        str_leq(b, c),
    ensures
        str_leq(a, c),
    decreases a.len(),
{
    if a.len() == 0 {
    } else {
        assert(b.len() > 0);
        assert(c.len() > 0);
        if a[0] == b[0] && b[0] == c[0] {
            lemma_str_leq_transitive(a.drop_first(), b.drop_first(), c.drop_first());
        } else {
            assert((a[0] as int) <= (b[0] as int));
            assert((b[0] as int) <= (c[0] as int));
            assert((a[0] as int) < (c[0] as int));
        }
    }
}

/// The name order is a total order, so a sorted rendering is unique.
pub proof fn lemma_name_le_total_ordering()
    ensures
        vstd::relations::total_ordering(name_le()),
{
    let f = name_le();
    assert forall|x: Seq<char>| #[trigger] f(x, x) by {
        lemma_str_leq_reflexive(x);
    }
    assert forall|x: Seq<char>, y: Seq<char>| #[trigger] f(x, y) && #[trigger] f(y, x) implies x
        == y by {
        lemma_str_leq_antisymmetric(x, y);
    }
    assert forall|x: Seq<char>, y: Seq<char>, z: Seq<char>|
        #[trigger] f(x, y) && #[trigger] f(y, z) implies f(x, z) by {
        lemma_str_leq_transitive(x, y, z);
    }
    assert forall|x: Seq<char>, y: Seq<char>| #[trigger] f(x, y) || #[trigger] f(y, x) by {
        lemma_str_leq_total(x, y);
    }
}

/// Compares two names in the rendering order.
pub fn str_le(a: &str, b: &str) -> (r: bool)
    ensures
        r == str_leq(a@, b@),
{
    let an = a.unicode_len();
    let bn = b.unicode_len();
    let mut i: usize = 0;
    proof {
        assert(a@.skip(0) =~= a@);
        assert(b@.skip(0) =~= b@);
    }
    while i < an && i < bn
        invariant
            i <= an,
            i <= bn,
            an == a@.len(),
            bn == b@.len(),
            str_leq(a@, b@) == str_leq(a@.skip(i as int), b@.skip(i as int)),
        decreases an - i,
    {
        let ca = a.get_char(i);
        let cb = b.get_char(i);
        if ca != cb {
            return (ca as u32) < (cb as u32);
        }
        proof {
            assert(a@.skip(i as int).drop_first() =~= a@.skip(i as int + 1));
            assert(b@.skip(i as int).drop_first() =~= b@.skip(i as int + 1));
        }
        i = i + 1;
    }
    an <= bn
}

pub proof fn lemma_views_insert(s: Seq<String>, p: int, x: String)
    requires
        0 <= p <= s.len(),
    ensures
        views(s.insert(p, x)) == views(s).insert(p, x@),
{
    s.insert_ensures(p, x);
    views(s).insert_ensures(p, x@);
    assert(views(s.insert(p, x)) =~= views(s).insert(p, x@));
}

/// Inserting into a sequence adds one occurrence to its multiset.
pub proof fn lemma_insert_to_multiset(s: Seq<Seq<char>>, p: int, x: Seq<char>)
    requires
        0 <= p <= s.len(),
    ensures
        s.insert(p, x).to_multiset() == s.to_multiset().insert(x),
{
    broadcast use vstd::seq_lib::group_to_multiset_ensures;
    broadcast use vstd::multiset::group_multiset_axioms;

    let t = s.insert(p, x);
    s.insert_ensures(p, x);
    assert(t.remove(p) =~= s);
    assert(t[p] == x);
    assert(s.to_multiset() =~= t.to_multiset().remove(x));
    assert(t.contains(x));
    assert(t.to_multiset().count(x) > 0);
    assert forall|y: Seq<char>|
        #[trigger] t.to_multiset().count(y) == s.to_multiset().insert(x).count(y) by {
        if y == x {
            assert(s.to_multiset().count(x) == t.to_multiset().count(x) - 1);
        } else {
            assert(s.to_multiset().count(y) == t.to_multiset().count(y));
        }
    }
    assert(t.to_multiset() =~= s.to_multiset().insert(x));
}

/// Sorts names into the rendering order.
pub fn sort_strings(v: &Vec<String>) -> (r: Vec<String>)
    ensures
        views(r@) == views(v@).sort_by(name_le()),
{
    broadcast use vstd::seq_lib::group_to_multiset_ensures;

    let mut out: Vec<String> = Vec::new();
    let mut idx: usize = 0;
    proof {
        assert(views(v@.take(0)) =~= Seq::<Seq<char>>::empty());
        assert(views(out@) =~= Seq::<Seq<char>>::empty());
    }
    while idx < v.len()
        invariant
            idx <= v@.len(),
            vstd::relations::sorted_by(views(out@), name_le()),
            views(out@).to_multiset() == views(v@.take(idx as int)).to_multiset(),
        decreases v@.len() - idx,
    {
        let x = (&v[idx]).clone();
        let ghost oseq = out@;
        let ghost ov = views(out@);
        let mut p: usize = 0;
        while p < out.len() && str_le(out[p].as_str(), x.as_str())
            invariant
                p <= out@.len(),
                oseq == out@,
                ov == views(out@),
                forall|q: int| 0 <= q < p ==> str_leq(ov[q], x@),
            decreases out@.len() - p,
        {
            p = p + 1;
        }
        let ghost stop_early = p < out@.len();
        proof {
            if stop_early {
                assert(!str_leq(ov[p as int], x@));
                lemma_str_leq_total(ov[p as int], x@);
            }
        }
        out.insert(p, x);
        proof {
            lemma_views_insert(oseq, p as int, x);
            let nv = views(out@);
            assert(nv == ov.insert(p as int, x@));
            ov.insert_ensures(p as int, x@);
            assert forall|i: int, j: int| 0 <= i < j < nv.len() implies name_le()(nv[i], nv[j]) by {
                if j < p {
                    assert(name_le()(ov[i], ov[j]));
                } else if j == p {
                    assert(nv[j] == x@);
                    assert(str_leq(ov[i], x@));
                } else if i == p {
                    assert(nv[i] == x@);
                    assert(stop_early);
                    assert(str_leq(x@, ov[p as int]));
                    if j - 1 > p {
                        assert(name_le()(ov[p as int], ov[j - 1]));
                        lemma_str_leq_transitive(x@, ov[p as int], ov[j - 1]);
                    }
                } else if i < p {
                    if j - 1 == i {
                        lemma_str_leq_reflexive(ov[i]);
                    } else {
                        assert(name_le()(ov[i], ov[j - 1]));
                    }
                } else {
                    assert(name_le()(ov[i - 1], ov[j - 1]));
                }
            }
            lemma_insert_to_multiset(ov, p as int, x@);
            assert(x@ == v@[idx as int]@);
            assert(views(v@.take(idx as int + 1)) =~= views(v@.take(idx as int)).push(x@));
            vstd::seq_lib::to_multiset_build(views(v@.take(idx as int)), x@);
        }
        idx = idx + 1;
    }
    proof {
        assert(v@.take(v@.len() as int) =~= v@);
        let sv = views(v@);
        lemma_name_le_total_ordering();
        sv.lemma_sort_by_ensures(name_le());
        vstd::seq_lib::lemma_sorted_unique(views(out@), sv.sort_by(name_le()), name_le());
    }
    out
}

/// The decimal digit character for `d`.
pub open spec fn dec_digit(d: nat) -> char {
    if d == 0 {
        '0'
    } else if d == 1 {
        '1'
    } else if d == 2 {
        '2'
    } else if d == 3 {
        '3'
    } else if d == 4 {
        '4'
    } else if d == 5 {
        '5'
    } else if d == 6 {
        '6'
    } else if d == 7 {
        '7'
    } else if d == 8 {
        '8'
    } else {
        '9'
    }
}

/// The decimal rendering of `n`, without sign or padding.
pub open spec fn dec_str(n: nat) -> Seq<char>
    decreases n,
{
    if n < 10 {
        seq![dec_digit(n)]
    } else {
        dec_str(n / 10) + seq![dec_digit(n % 10)]
    }
}

fn digit_str(d: u128) -> (r: &'static str)
    requires
        d < 10,
    ensures
        r@ == seq![dec_digit(d as nat)],
{
    proof {
        reveal_strlit("0");
        reveal_strlit("1");
        reveal_strlit("2");
        reveal_strlit("3");
        reveal_strlit("4");
        reveal_strlit("5");
        reveal_strlit("6");
        reveal_strlit("7");
        reveal_strlit("8");
        reveal_strlit("9");
    }
    if d == 0 {
        proof {
            assert("0"@ =~= seq![dec_digit(0)]);
        }
        "0"
    } else if d == 1 {
        proof {
            assert("1"@ =~= seq![dec_digit(1)]);
        }
        "1"
    } else if d == 2 {
        proof {
            assert("2"@ =~= seq![dec_digit(2)]);
        }
        "2"
    } else if d == 3 {
        proof {
            assert("3"@ =~= seq![dec_digit(3)]);
        }
        "3"
    } else if d == 4 {
        proof {
            assert("4"@ =~= seq![dec_digit(4)]);
        }
        "4"
    } else if d == 5 {
        proof {
            assert("5"@ =~= seq![dec_digit(5)]);
        }
        "5"
    } else if d == 6 {
        proof {
            assert("6"@ =~= seq![dec_digit(6)]);
        }
        "6"
    } else if d == 7 {
        proof {
            assert("7"@ =~= seq![dec_digit(7)]);
        }
        "7"
    } else if d == 8 {
        proof {
            assert("8"@ =~= seq![dec_digit(8)]);
        }
        "8"
    } else {
        proof {
            assert("9"@ =~= seq![dec_digit(9)]);
        }
        "9"
    }
}

/// Renders a count in decimal.
pub fn dec_string(n: u128) -> (r: String)
    ensures
        r@ == dec_str(n as nat),
    decreases n,
{
    if n < 10 {
        String::from_str(digit_str(n))
    } else {
        let mut s = dec_string(n / 10);
        s.append(digit_str(n % 10));
        s
    }
}

/// Whether some element of `v` has the characters of `x`.
pub fn contains_string(v: &Vec<String>, x: &String) -> (r: bool)
    ensures
        r == views(v@).contains(x@),
{
    let mut i: usize = 0;
    while i < v.len()
        invariant
            i <= v@.len(),
            forall|j: int| 0 <= j < i ==> views(v@)[j] != x@,
        decreases v@.len() - i,
    {
        if str_eq(v[i].as_str(), x.as_str()) {
            proof {
                assert(views(v@)[i as int] == x@);
            }
            return true;
        }
        i = i + 1;
    }
    proof {
        assert forall|j: int| 0 <= j < views(v@).len() implies views(v@)[j] != x@ by {}
    }
    false
}

/// Whether one of the first `k` elements of `v` has the characters of
/// `x`.
pub fn contains_string_upto(v: &Vec<String>, k: usize, x: &String) -> (r: bool)
    requires
        k <= v@.len(),
    ensures
        r == views(v@).take(k as int).contains(x@),
{
    let mut i: usize = 0;
    while i < k
        invariant
            i <= k <= v@.len(),
            forall|j: int| 0 <= j < i ==> views(v@)[j] != x@,
        decreases k - i,
    {
        if str_eq(v[i].as_str(), x.as_str()) {
            proof {
                assert(views(v@).take(k as int)[i as int] == x@);
            }
            return true;
        }
        i = i + 1;
    }
    proof {
        assert forall|j: int| 0 <= j < k implies views(v@).take(k as int)[j] != x@ by {
            assert(views(v@).take(k as int)[j] == views(v@)[j]);
        }
    }
    false
}

} // verus!
