//! Text as a sequence of characters: searching, trimming, splitting and
//! decimal printing.

use vstd::prelude::*;

verus! {

/// `String::push` appends one character at the end of the string.
pub assume_specification[ String::push ](s: &mut String, c: char)
    ensures
        final(s)@ == old(s)@.push(c),
;

// ---------------------------------------------------------------------------
// Characters and strings
// ---------------------------------------------------------------------------

/// The characters of `s`, in order.
pub fn chars_of(s: &str) -> (out: Vec<char>)
    ensures
        out@ == s@,
{
    let mut out: Vec<char> = Vec::new();
    for c in it: s.chars()
        invariant
            it.seq() == s@,
            out@ == s@.take(it.index()),
    {
        proof {
            assert(s@.take(it.index() + 1) =~= s@.take(it.index()).push(c));
        }
        out.push(c);
    }
    proof {
        assert(s@.take(s@.len() as int) =~= s@);
    }
    out
}

/// The characters of `v` from `from` up to, but not counting, `to`, as a string.
pub fn string_between(v: &Vec<char>, from: usize, to: usize) -> (out: String)
    requires
        from <= to <= v@.len(),
    ensures
        out@ == v@.subrange(from as int, to as int),
{
    let mut out = String::new();
    let mut i: usize = from;
    while i < to
        invariant
            from <= i <= to <= v@.len(),
            out@ == v@.subrange(from as int, i as int),
        decreases to - i,
    {
        out.push(v[i]);
        i = i + 1;
        proof {
            assert(v@.subrange(from as int, i as int) =~= v@.subrange(
                from as int,
                i - 1,
            ).push(v@[i - 1]));
        }
    }
    out
}

/// All of `v` as a string.
pub fn string_of(v: &Vec<char>) -> (out: String)
    ensures
        out@ == v@,
{
    let out = string_between(v, 0, v.len());
    proof {
        assert(v@.subrange(0, v@.len() as int) =~= v@);
    }
    out
}

/// Whether two texts are the same.
pub fn same_text(a: &str, b: &str) -> (same: bool)
    ensures
        same == (a@ == b@),
{
    let left = a.to_owned();
    let right = b.to_owned();
    left == right
}

/// The views of a list of strings.
pub open spec fn texts(v: Seq<String>) -> Seq<Seq<char>> {
    v.map_values(|s: String| s@)
}

/// The view of an optional string.
pub open spec fn opt_text(o: Option<String>) -> Option<Seq<char>> {
    match o {
        Some(s) => Some(s@),
        None => None,
    }
}

/// The text of an optional string, the empty text where there is none.
pub open spec fn text_or_empty(o: Option<String>) -> Seq<char> {
    match o {
        Some(s) => s@,
        None => Seq::empty(),
    }
}

/// A copy of an optional string.
pub fn copy_opt(o: &Option<String>) -> (out: Option<String>)
    ensures
        opt_text(out) == opt_text(*o),
{
    match o {
        Some(s) => Some(s.clone()),
        None => None,
    }
}

/// A copy of the text of an optional string, empty where there is none.
pub fn copy_or_empty(o: &Option<String>) -> (out: String)
    ensures
        out@ == text_or_empty(*o),
{
    match o {
        Some(s) => s.clone(),
        None => String::new(),
    }
}

/// A copy of a list of strings.
pub fn copy_strings(v: &Vec<String>) -> (out: Vec<String>)
    ensures
        texts(out@) == texts(v@),
{
    let mut out: Vec<String> = Vec::new();
    let mut i: usize = 0;
    while i < v.len()
        invariant
            i <= v@.len(),
            out@.len() == i,
            forall|j: int| 0 <= j < i ==> out@[j]@ == v@[j]@,
        decreases v@.len() - i,
    {
        out.push(v[i].clone());
        i = i + 1;
    }
    proof {
        assert(texts(out@) =~= texts(v@));
    }
    out
}

// ---------------------------------------------------------------------------
// Searching
// ---------------------------------------------------------------------------

/// `pat` stands in `s` at position `i`.
pub open spec fn occurs_at(s: Seq<char>, pat: Seq<char>, i: int) -> bool {
    &&& 0 <= i
    &&& i + pat.len() <= s.len()
    &&& s.subrange(i, i + pat.len()) == pat
}

/// `pat` stands somewhere in `s`.
pub open spec fn occurs(s: Seq<char>, pat: Seq<char>) -> bool {
    exists|i: int| occurs_at(s, pat, i)
}

/// `i` is the first position at which `pat` stands in `s`.
pub open spec fn first_at(s: Seq<char>, pat: Seq<char>, i: int) -> bool {
    &&& occurs_at(s, pat, i)
    &&& forall|j: int| 0 <= j < i ==> !occurs_at(s, pat, j)
}

/// The first position at which `pat` stands in `s`, if any.
pub open spec fn find(s: Seq<char>, pat: Seq<char>) -> Option<int> {
    if occurs(s, pat) {
        Some(choose|i: int| first_at(s, pat, i))
    } else {
        None
    }
}

/// Where `i` is the first position of `pat`, `find` gives `i`.
pub proof fn lemma_find_is(s: Seq<char>, pat: Seq<char>, i: int)
    requires
        first_at(s, pat, i),
    ensures
        find(s, pat) == Some(i),
{
    let k = choose|k: int| first_at(s, pat, k);
    assert(first_at(s, pat, k));
    if k < i {
        assert(!occurs_at(s, pat, k));
    } else if i < k {
        assert(!occurs_at(s, pat, i));
    }
}

/// What `find` gives is the first position of `pat`.
pub proof fn lemma_find_first(s: Seq<char>, pat: Seq<char>)
    ensures
        match find(s, pat) {
            Some(i) => first_at(s, pat, i),
            None => forall|i: int| !occurs_at(s, pat, i),
        },
{
    if occurs(s, pat) {
        let w = choose|i: int| occurs_at(s, pat, i);
        lemma_least(s, pat, w);
    }
}

/// What stands early in `s` stands in the beginning of `s` too.
pub proof fn lemma_occurs_at_take(s: Seq<char>, pat: Seq<char>, i: int, m: int)
    requires
        occurs_at(s, pat, i),
        i + pat.len() <= m <= s.len(),
    ensures
        occurs_at(s.take(m), pat, i),
        occurs(s.take(m), pat),
{
    assert(s.take(m).subrange(i, i + pat.len()) =~= s.subrange(i, i + pat.len()));
    assert(occurs_at(s.take(m), pat, i));
}

/// What stands in a part of a text stands in the text.
pub proof fn lemma_occurs_in_part(
    before: Seq<char>,
    part: Seq<char>,
    after: Seq<char>,
    pat: Seq<char>,
)
    requires
        occurs(part, pat),
    ensures
        occurs(before + part + after, pat),
{
    let i = choose|i: int| occurs_at(part, pat, i);
    let whole = before + part + after;
    let n = before.len() as int;
    assert(whole.subrange(n + i, n + i + pat.len()) =~= part.subrange(i, i + pat.len()));
    assert(occurs_at(whole, pat, n + i));
}

/// A text stands in itself.
pub proof fn lemma_occurs_self(s: Seq<char>)
    ensures
        occurs(s, s),
{
    assert(s.subrange(0, s.len() as int) =~= s);
    assert(occurs_at(s, s, 0));
}

proof fn lemma_least(s: Seq<char>, pat: Seq<char>, w: int)
    requires
        occurs_at(s, pat, w),
    ensures
        exists|i: int| first_at(s, pat, i),
    decreases w,
{
    if forall|j: int| 0 <= j < w ==> !occurs_at(s, pat, j) {
        assert(first_at(s, pat, w));
    } else {
        let j = choose|j: int| 0 <= j < w && occurs_at(s, pat, j);
        lemma_least(s, pat, j);
    }
}

/// Whether `pat` stands in `v` at `i`.
pub fn stands_at(v: &Vec<char>, pat: &Vec<char>, i: usize) -> (found: bool)
    ensures
        found == occurs_at(v@, pat@, i as int),
{
    if pat.len() > v.len() || i > v.len() - pat.len() {
        return false;
    }
    let mut k: usize = 0;
    while k < pat.len()
        invariant
            i + pat@.len() <= v@.len() <= usize::MAX,
            k <= pat@.len(),
            forall|j: int| 0 <= j < k ==> v@[i + j] == pat@[j],
        decreases pat@.len() - k,
    {
        if v[i + k] != pat[k] {
            proof {
                assert(v@.subrange(i as int, i + pat@.len())[k as int] != pat@[k as int]);
            }
            return false;
        }
        k = k + 1;
    }
    proof {
        assert(v@.subrange(i as int, i + pat@.len()) =~= pat@);
    }
    true
}

/// The first position at which `pat` stands in `v`.
pub fn find_in(v: &Vec<char>, pat: &Vec<char>) -> (at: Option<usize>)
    ensures
        match at {
            Some(i) => find(v@, pat@) == Some(i as int) && first_at(v@, pat@, i as int),
            None => find(v@, pat@) is None,
        },
{
    let mut i: usize = 0;
    while i <= v.len()
        invariant
            i <= v@.len() + 1,
            forall|j: int| 0 <= j < i ==> !occurs_at(v@, pat@, j),
        decreases v@.len() + 1 - i,
    {
        if stands_at(v, pat, i) {
            proof {
                lemma_find_is(v@, pat@, i as int);
            }
            return Some(i);
        }
        if i == v.len() {
            return None;
        }
        i = i + 1;
    }
    None
}

/// Whether `pat` stands somewhere in `s`.
pub fn contains_text(s: &str, pat: &str) -> (found: bool)
    ensures
        found == occurs(s@, pat@),
{
    let v = chars_of(s);
    let p = chars_of(pat);
    match find_in(&v, &p) {
        Some(i) => {
            proof {
                assert(occurs_at(s@, pat@, i as int));
            }
            true
        },
        None => false,
    }
}

/// Whether `s` begins with `pat`.
pub fn starts_with(s: &str, pat: &str) -> (yes: bool)
    ensures
        yes == pat@.is_prefix_of(s@),
{
    let v = chars_of(s);
    let p = chars_of(pat);
    let yes = stands_at(&v, &p, 0);
    yes
}

/// Whether the character `c` occurs in `s`.
pub fn contains_char(s: &str, c: char) -> (found: bool)
    ensures
        found == s@.contains(c),
{
    let v = chars_of(s);
    let mut i: usize = 0;
    while i < v.len()
        invariant
            v@ == s@,
            i <= v@.len(),
            forall|j: int| 0 <= j < i ==> v@[j] != c,
        decreases v@.len() - i,
    {
        if v[i] == c {
            proof {
                assert(s@[i as int] == c);
            }
            return true;
        }
        i = i + 1;
    }
    false
}

/// The first position of the character `c` in `s`, if any.
pub open spec fn find_char(s: Seq<char>, c: char) -> Option<int>
    decreases s.len(),
{
    if s.len() == 0 {
        None
    } else if s[0] == c {
        Some(0)
    } else {
        match find_char(s.drop_first(), c) {
            Some(i) => Some(i + 1),
            None => None,
        }
    }
}

/// `find_char` gives the first position that holds `c`.
pub proof fn lemma_find_char(s: Seq<char>, c: char)
    ensures
        match find_char(s, c) {
            Some(i) => {
                &&& 0 <= i < s.len()
                &&& s[i] == c
                &&& forall|j: int| 0 <= j < i ==> s[j] != c
            },
            None => !s.contains(c),
        },
    decreases s.len(),
{
    if s.len() > 0 && s[0] != c {
        lemma_find_char(s.drop_first(), c);
        match find_char(s.drop_first(), c) {
            Some(i) => {
                assert(s.drop_first()[i] == s[i + 1]);
                assert forall|j: int| 0 <= j < i + 1 implies s[j] != c by {
                    if j > 0 {
                        assert(s.drop_first()[j - 1] == s[j]);
                    }
                }
            },
            None => {
                if s.contains(c) {
                    let k = choose|k: int| 0 <= k < s.len() && s[k] == c;
                    assert(s.drop_first()[k - 1] == c);
                }
            },
        }
    }
}

/// Where `i` is the first position that holds `c`, `find_char` gives `i`.
pub proof fn lemma_find_char_is(s: Seq<char>, c: char, i: int)
    requires
        0 <= i < s.len(),
        s[i] == c,
        forall|j: int| 0 <= j < i ==> s[j] != c,
    ensures
        find_char(s, c) == Some(i),
{
    lemma_find_char(s, c);
}

/// Where no position holds `c`, `find_char` gives nothing.
pub proof fn lemma_find_char_none(s: Seq<char>, c: char)
    requires
        forall|j: int| 0 <= j < s.len() ==> s[j] != c,
    ensures
        find_char(s, c) is None,
{
    lemma_find_char(s, c);
}

/// The first position of `c` in `v`.
pub fn find_char_in(v: &Vec<char>, c: char) -> (at: Option<usize>)
    ensures
        match at {
            Some(i) => i < v@.len() && find_char(v@, c) == Some(i as int),
            None => find_char(v@, c) is None,
        },
{
    let mut i: usize = 0;
    while i < v.len()
        invariant
            i <= v@.len(),
            forall|j: int| 0 <= j < i ==> v@[j] != c,
        decreases v@.len() - i,
    {
        if v[i] == c {
            proof {
                lemma_find_char_is(v@, c, i as int);
            }
            return Some(i);
        }
        i = i + 1;
    }
    proof {
        lemma_find_char_none(v@, c);
    }
    None
}

/// What stands before and after the first `c` in `s`, if `c` occurs.
pub open spec fn split_once(s: Seq<char>, c: char) -> Option<(Seq<char>, Seq<char>)> {
    match find_char(s, c) {
        Some(i) => Some((s.take(i), s.skip(i + 1))),
        None => None,
    }
}

/// What stands before and after the first `c` in `s`, if `c` occurs.
pub fn split_once_of(s: &str, c: char) -> (out: Option<(String, String)>)
    ensures
        match out {
            Some(p) => split_once(s@, c) == Some((p.0@, p.1@)),
            None => split_once(s@, c) is None,
        },
{
    let v = chars_of(s);
    match find_char_in(&v, c) {
        Some(i) => {
            let end: usize = v.len();
            let before = string_between(&v, 0, i);
            let after = string_between(&v, i + 1, end);
            proof {
                assert(v@.subrange(0, i as int) =~= s@.take(i as int));
                assert(v@.subrange(i + 1, v@.len() as int) =~= s@.skip(i + 1));
            }
            Some((before, after))
        },
        None => None,
    }
}

// ---------------------------------------------------------------------------
// Trimming
// ---------------------------------------------------------------------------

/// The characters with the Unicode property White_Space.
pub open spec fn is_white(c: char) -> bool {
    let n = c as int;
    ||| 0x09 <= n <= 0x0d
    ||| n == 0x20
    ||| n == 0x85
    ||| n == 0xa0
    ||| n == 0x1680
    ||| 0x2000 <= n <= 0x200a
    ||| n == 0x2028
    ||| n == 0x2029
    ||| n == 0x202f
    ||| n == 0x205f
    ||| n == 0x3000
}

/// Which characters a trim takes off.
#[derive(Clone, Copy, PartialEq, Eq, Structural, Debug)]
pub enum Trim {
    /// Every white-space character.
    White,
    /// One given character.
    Just(char),
}

impl Trim {
    /// Whether the trim takes `c` off.
    pub open spec fn takes(self, c: char) -> bool {
        match self {
            Trim::White => is_white(c),
            Trim::Just(d) => c == d,
        }
    }

    /// Whether the trim takes `c` off.
    pub fn takes_off(self, c: char) -> (yes: bool)
        ensures
            yes == self.takes(c),
    {
        match self {
            Trim::White => {
                let n: u32 = c as u32;
                (0x09 <= n && n <= 0x0d) || n == 0x20 || n == 0x85 || n == 0xa0 || n == 0x1680 || (
                0x2000 <= n && n <= 0x200a) || n == 0x2028 || n == 0x2029 || n == 0x202f || n
                    == 0x205f || n == 0x3000
            },
            Trim::Just(d) => c == d,
        }
    }
}

/// `s` without the longest run of characters at its start that `t` takes off.
pub open spec fn trim_start(s: Seq<char>, t: Trim) -> Seq<char>
    decreases s.len(),
{
    if s.len() > 0 && t.takes(s[0]) {
        trim_start(s.drop_first(), t)
    } else {
        s
    }
}

/// `s` without the longest run of characters at its end that `t` takes off.
pub open spec fn trim_end(s: Seq<char>, t: Trim) -> Seq<char>
    decreases s.len(),
{
    if s.len() > 0 && t.takes(s.last()) {
        trim_end(s.drop_last(), t)
    } else {
        s
    }
}

/// `s` without the characters at both ends that `t` takes off.
pub open spec fn trim_both(s: Seq<char>, t: Trim) -> Seq<char> {
    trim_end(trim_start(s, t), t)
}

/// `s` without white space at both ends.
pub open spec fn trim(s: Seq<char>) -> Seq<char> {
    trim_both(s, Trim::White)
}

/// A trim never makes a text longer.
proof fn lemma_trim_len(s: Seq<char>, t: Trim)
    ensures
        trim_start(s, t).len() <= s.len(),
        trim_end(s, t).len() <= s.len(),
    decreases s.len(),
{
    if s.len() > 0 {
        lemma_trim_len(s.drop_first(), t);
        lemma_trim_len(s.drop_last(), t);
    }
}

/// A text that a trim leaves as it is does not begin with a character that the
/// trim takes off.
pub proof fn lemma_trimmed_start(s: Seq<char>, t: Trim)
    requires
        s.len() > 0,
        trim_both(s, t) == s,
    ensures
        !t.takes(s[0]),
{
    if t.takes(s[0]) {
        lemma_trim_len(s.drop_first(), t);
        lemma_trim_len(trim_start(s, t), t);
    }
}

/// A character at the start that the trim takes off makes no difference.
pub proof fn lemma_trim_leading(s: Seq<char>, c: char, t: Trim)
    requires
        t.takes(c),
    ensures
        trim_both(seq![c] + s, t) == trim_both(s, t),
{
    assert((seq![c] + s).drop_first() =~= s);
}

/// A character at the end that the trim takes off makes no difference.
pub proof fn lemma_trim_trailing(s: Seq<char>, c: char, t: Trim)
    requires
        t.takes(c),
    ensures
        trim_both(s.push(c), t) == trim_both(s, t),
{
    lemma_trim_start_push(s, c, t);
    let rest = trim_start(s, t);
    assert(rest.push(c).drop_last() =~= rest);
}

proof fn lemma_trim_start_push(s: Seq<char>, c: char, t: Trim)
    requires
        t.takes(c),
    ensures
        trim_start(s.push(c), t) == (if trim_start(s, t).len() == 0 {
            Seq::empty()
        } else {
            trim_start(s, t).push(c)
        }),
    decreases s.len(),
{
    if s.len() == 0 {
        assert(s.push(c).drop_first() =~= Seq::<char>::empty());
        assert(trim_start(Seq::<char>::empty(), t) == Seq::<char>::empty());
    } else {
        assert(s.push(c)[0] == s[0]);
        assert(s.push(c).drop_first() =~= s.drop_first().push(c));
        lemma_trim_start_push(s.drop_first(), c, t);
    }
}

/// `s` without the characters at both ends that `t` takes off.
pub fn trim_both_of(s: &str, t: Trim) -> (out: String)
    ensures
        out@ == trim_both(s@, t),
{
    let v = chars_of(s);
    let mut from: usize = 0;
    proof {
        assert(v@.skip(0) =~= v@);
    }
    while from < v.len() && t.takes_off(v[from])
        invariant
            from <= v@.len(),
            trim_start(v@, t) == trim_start(v@.skip(from as int), t),
        decreases v@.len() - from,
    {
        proof {
            assert(v@.skip(from as int).drop_first() =~= v@.skip(from + 1));
        }
        from = from + 1;
    }
    let mut to: usize = v.len();
    proof {
        assert(trim_start(v@, t) == v@.skip(from as int));
        assert(v@.subrange(from as int, to as int) =~= v@.skip(from as int));
    }
    while to > from && t.takes_off(v[to - 1])
        invariant
            from <= to <= v@.len(),
            trim_end(v@.skip(from as int), t) == trim_end(
                v@.subrange(from as int, to as int),
                t,
            ),
        decreases to,
    {
        proof {
            assert(v@.subrange(from as int, to as int).drop_last() =~= v@.subrange(
                from as int,
                to - 1,
            ));
        }
        to = to - 1;
    }
    string_between(&v, from, to)
}

/// `s` without white space at both ends.
pub fn trim_of(s: &str) -> (out: String)
    ensures
        out@ == trim(s@),
{
    trim_both_of(s, Trim::White)
}

// ---------------------------------------------------------------------------
// Lines
// ---------------------------------------------------------------------------

/// `s` with each carriage return that stands before a line feed left out.
pub open spec fn lf_only(s: Seq<char>) -> Seq<char>
    decreases s.len(),
{
    if s.len() == 0 {
        s
    } else if s.len() > 1 && s[0] == '\r' && s[1] == '\n' {
        seq!['\n'] + lf_only(s.skip(2))
    } else {
        seq![s[0]] + lf_only(s.skip(1))
    }
}

/// `s` with each carriage return that stands before a line feed left out.
pub fn lf_only_of(s: &str) -> (out: Vec<char>)
    ensures
        out@ == lf_only(s@),
{
    let v = chars_of(s);
    let mut out: Vec<char> = Vec::new();
    let mut i: usize = 0;
    proof {
        assert(v@.skip(0) =~= v@);
        assert(out@ + lf_only(v@) =~= lf_only(v@));
    }
    while i < v.len()
        invariant
            v@ == s@,
            i <= v@.len(),
            out@ + lf_only(v@.skip(i as int)) == lf_only(v@),
        decreases v@.len() - i,
    {
        let ghost rest = v@.skip(i as int);
        let ghost before = out@;
        if v.len() - i > 1 && v[i] == '\r' && v[i + 1] == '\n' {
            out.push('\n');
            proof {
                assert(rest.skip(2) =~= v@.skip(i + 2));
                assert(before + (seq!['\n'] + lf_only(rest.skip(2))) =~= out@ + lf_only(
                    v@.skip(i + 2),
                ));
            }
            i = i + 2;
        } else {
            out.push(v[i]);
            proof {
                assert(rest.skip(1) =~= v@.skip(i + 1));
                assert(before + (seq![rest[0]] + lf_only(rest.skip(1))) =~= out@ + lf_only(
                    v@.skip(i + 1),
                ));
            }
            i = i + 1;
        }
    }
    proof {
        assert(v@.skip(v@.len() as int) =~= Seq::<char>::empty());
        assert(out@ + Seq::<char>::empty() =~= out@);
    }
    out
}

/// A line that a line feed ended, without the carriage return before it.
pub open spec fn chomp(line: Seq<char>) -> Seq<char> {
    if line.len() > 0 && line.last() == '\r' {
        line.drop_last()
    } else {
        line
    }
}

/// The lines of `s`. A line ends with a line feed, or with a carriage return
/// and a line feed; what follows the last line feed is a line unless empty.
pub open spec fn lines(s: Seq<char>) -> Seq<Seq<char>>
    decreases s.len(),
    via lines_decreases
{
    if s.len() == 0 {
        Seq::empty()
    } else {
        match find_char(s, '\n') {
            Some(i) => seq![chomp(s.take(i))] + lines(s.skip(i + 1)),
            None => seq![s],
        }
    }
}

#[via_fn]
proof fn lines_decreases(s: Seq<char>) {
    lemma_find_char(s, '\n');
}

/// The lines of `s`.
pub fn lines_of(s: &str) -> (out: Vec<String>)
    ensures
        texts(out@) == lines(s@),
{
    let v = chars_of(s);
    let mut out: Vec<String> = Vec::new();
    let mut from: usize = 0;
    let mut i: usize = 0;
    proof {
        assert(v@.skip(0) =~= v@);
        assert(texts(out@) + lines(v@) =~= lines(v@));
    }
    while i < v.len()
        invariant
            v@ == s@,
            from <= i <= v@.len(),
            forall|j: int| from <= j < i ==> v@[j] != '\n',
            texts(out@) + lines(v@.skip(from as int)) == lines(v@),
        decreases v@.len() - i,
    {
        if v[i] == '\n' {
            let mut to: usize = i;
            if to > from && v[to - 1] == '\r' {
                to = to - 1;
            }
            let ghost before = out@;
            let ghost rest = v@.skip(from as int);
            out.push(string_between(&v, from, to));
            proof {
                lemma_find_char_is(rest, '\n', i - from);
                assert(rest.take(i - from) =~= v@.subrange(from as int, i as int));
                if to < i {
                    assert(v@.subrange(from as int, i as int).drop_last() =~= v@.subrange(
                        from as int,
                        to as int,
                    ));
                }
                assert(chomp(rest.take(i - from)) == v@.subrange(from as int, to as int));
                assert(rest.skip(i - from + 1) =~= v@.skip(i + 1));
                assert(texts(out@) =~= texts(before).push(v@.subrange(from as int, to as int)));
                assert(texts(before) + (seq![chomp(rest.take(i - from))] + lines(v@.skip(i + 1)))
                    =~= texts(out@) + lines(v@.skip(i + 1)));
            }
            from = i + 1;
        }
        i = i + 1;
    }
    let ghost before = out@;
    let ghost rest = v@.skip(from as int);
    if from < v.len() {
        out.push(string_between(&v, from, v.len()));
        proof {
            assert forall|j: int| 0 <= j < rest.len() implies rest[j] != '\n' by {
                assert(rest[j] == v@[from + j]);
            }
            lemma_find_char_none(rest, '\n');
            assert(v@.subrange(from as int, v@.len() as int) =~= rest);
            assert(texts(out@) =~= texts(before) + seq![rest]);
        }
    } else {
        proof {
            assert(rest =~= Seq::<char>::empty());
            assert(texts(out@) + Seq::<Seq<char>>::empty() =~= texts(out@));
        }
    }
    out
}

// ---------------------------------------------------------------------------
// Numbers
// ---------------------------------------------------------------------------

/// The character for a decimal digit.
pub open spec fn digit(d: nat) -> char {
    (48 + d) as char
}

/// `n` in decimal, without leading zeros.
pub open spec fn decimal(n: nat) -> Seq<char>
    decreases n,
{
    if n < 10 {
        seq![digit(n)]
    } else {
        decimal(n / 10).push(digit(n % 10))
    }
}

/// `n` in decimal, without leading zeros.
pub fn decimal_of(n: u64) -> (out: String)
    ensures
        out@ == decimal(n as nat),
    decreases n,
{
    let c: char = (48 + (n % 10) as u8) as char;
    if n < 10 {
        let mut out = String::new();
        out.push(c);
        proof {
            assert(out@ =~= seq![digit(n as nat)]);
        }
        out
    } else {
        let mut out = decimal_of(n / 10);
        out.push(c);
        out
    }
}

// ---------------------------------------------------------------------------
// Laws
// ---------------------------------------------------------------------------

/// What a trim leaves is a part of the text, before and behind which stands
/// nothing but what the trim takes off; it neither begins nor ends with that.
pub proof fn law_trim_leaves_the_middle(s: Seq<char>, t: Trim) -> (at: int)
    ensures
        ({
            let out = trim_both(s, t);
            &&& 0 <= at <= at + out.len() <= s.len()
            &&& out == s.subrange(at, at + out.len())
            &&& forall|i: int| 0 <= i < at ==> t.takes(#[trigger] s[i])
            &&& forall|i: int| at + out.len() <= i < s.len() ==> t.takes(#[trigger] s[i])
            &&& out.len() > 0 ==> !t.takes(out[0]) && !t.takes(out.last())
        }),
{
    let at = lemma_trim_start_is(s, t);
    let rest = trim_start(s, t);
    lemma_trim_end_is(rest, t);
    let out = trim_both(s, t);
    assert(out =~= s.subrange(at, at + out.len()));
    assert forall|i: int| at + out.len() <= i < s.len() implies t.takes(#[trigger] s[i]) by {
        assert(s[i] == rest[i - at]);
    }
    if out.len() > 0 {
        assert(out[0] == rest[0]);
    }
    at
}

proof fn lemma_trim_start_is(s: Seq<char>, t: Trim) -> (at: int)
    ensures
        0 <= at <= s.len(),
        trim_start(s, t) == s.skip(at),
        forall|i: int| 0 <= i < at ==> t.takes(#[trigger] s[i]),
        at < s.len() ==> !t.takes(s[at]),
    decreases s.len(),
{
    if s.len() > 0 && t.takes(s[0]) {
        let rest = s.drop_first();
        let k = lemma_trim_start_is(rest, t);
        assert(rest.skip(k) =~= s.skip(k + 1));
        assert forall|i: int| 0 <= i < k + 1 implies t.takes(#[trigger] s[i]) by {
            if i > 0 {
                assert(s[i] == rest[i - 1]);
            }
        }
        k + 1
    } else {
        assert(s.skip(0) =~= s);
        0
    }
}

proof fn lemma_trim_end_is(s: Seq<char>, t: Trim)
    ensures
        trim_end(s, t).len() <= s.len(),
        trim_end(s, t) == s.take(trim_end(s, t).len() as int),
        forall|i: int| trim_end(s, t).len() <= i < s.len() ==> t.takes(#[trigger] s[i]),
        trim_end(s, t).len() > 0 ==> !t.takes(trim_end(s, t).last()),
    decreases s.len(),
{
    if s.len() > 0 && t.takes(s.last()) {
        let rest = s.drop_last();
        lemma_trim_end_is(rest, t);
        let n = trim_end(rest, t).len() as int;
        assert(rest.take(n) =~= s.take(n));
        assert forall|i: int| n <= i < s.len() implies t.takes(#[trigger] s[i]) by {
            if i < rest.len() {
                assert(s[i] == rest[i]);
            }
        }
    } else {
        assert(s.take(s.len() as int) =~= s);
    }
}

/// Trimming takes off white space, of which ASCII has the space and the five
/// controls from tab to carriage return, and trimming one character takes off
/// no other.
pub proof fn law_trim_takes(c: char, d: char)
    ensures
        trim(seq![c]) == trim_both(seq![c], Trim::White),
        (c as int) < 128 ==> (Trim::White.takes(c) <==> c == ' ' || c == '\t' || c == '\n' || c
            == '\r' || c as int == 11 || c as int == 12),
        Trim::Just(d).takes(c) <==> c == d,
{
}

/// A text is split at the first place of a character: before it stands none of
/// them, and with it between them the two parts make up the text.
pub proof fn law_split_at_the_first(s: Seq<char>, c: char)
    ensures
        match split_once(s, c) {
            Some(p) => !p.0.contains(c) && s == p.0.push(c) + p.1,
            None => !s.contains(c),
        },
{
    lemma_find_char(s, c);
    if let Some(i) = find_char(s, c) {
        let p = split_once(s, c)->0;
        assert(s =~= p.0.push(c) + p.1);
        if p.0.contains(c) {
            let k = choose|k: int| 0 <= k < p.0.len() && p.0[k] == c;
            assert(s[k] == c);
        }
    }
}

/// The first line of a text is what stands before its first line feed, without
/// a carriage return at the end; the others are the lines of the rest.
pub proof fn law_lines_end_at_line_feeds(first: Seq<char>, rest: Seq<char>)
    requires
        !first.contains('\n'),
    ensures
        lines(first.push('\n') + rest).len() == 1 + lines(rest).len(),
        lines(first.push('\n') + rest).skip(1) == lines(rest),
        first.len() == 0 || first.last() != '\r' ==> lines(first.push('\n') + rest)[0] == first,
        first.len() > 0 && first.last() == '\r' ==> lines(first.push('\n') + rest)[0]
            == first.drop_last(),
        first.len() > 0 ==> lines(first) == seq![first],
        lines(Seq::empty()).len() == 0,
{
    let all = first.push('\n') + rest;
    let n = first.len() as int;
    assert forall|j: int| 0 <= j < n implies all[j] != '\n' by {
        assert(all[j] == first[j]);
        assert(first.contains(first[j]));
    }
    lemma_find_char_is(all, '\n', n);
    assert(all.take(n) =~= first);
    assert(all.skip(n + 1) =~= rest);
    assert(lines(all).skip(1) =~= lines(rest));
    assert forall|j: int| 0 <= j < n implies first[j] != '\n' by {
        assert(first.contains(first[j]));
    }
    lemma_find_char_none(first, '\n');
}

/// A carriage return before a line feed goes; every other character stays.
pub proof fn law_carriage_returns_go(s: Seq<char>, c: char)
    requires
        c != '\r' || s.len() == 0 || s[0] != '\n',
    ensures
        lf_only(seq!['\r', '\n'] + s) == seq!['\n'] + lf_only(s),
        lf_only(seq![c] + s) == seq![c] + lf_only(s),
        lf_only(Seq::empty()).len() == 0,
{
    assert((seq!['\r', '\n'] + s).skip(2) =~= s);
    assert((seq![c] + s).skip(1) =~= s);
    if s.len() > 0 {
        assert((seq![c] + s)[1] == s[0]);
    }
}

/// A number is written with its last digit behind the number of its tens.
pub proof fn law_decimal_is_written_by_digits(n: nat, d: nat)
    requires
        d < 10,
    ensures
        decimal(d).len() == 1,
        decimal(d)[0] as int == '0' as int + d,
        n > 0 ==> decimal(10 * n + d) == decimal(n).push((48 + d) as char),
{
    if n > 0 {
        assert((10 * n + d) / 10 == n);
        assert((10 * n + d) % 10 == d);
    }
}

/// A list of strings is seen text by text, an optional string as its text.
pub proof fn law_strings_are_seen_as_texts(v: Seq<String>, o: Option<String>, i: int)
    ensures
        texts(v).len() == v.len(),
        0 <= i < v.len() ==> texts(v)[i] == v[i]@,
        o is Some ==> opt_text(o) == Some(o->0@) && text_or_empty(o) == o->0@,
        o is None ==> opt_text(o) is None && text_or_empty(o).len() == 0,
{
}

} // verus!
