//! The front matter of a `SKILL.md`: top-level `key: value` lines between two
//! lines of three dashes.

use vstd::prelude::*;

use crate::text::{
    chars_of, find_in, lf_only_of, lines_of, same_text, split_once_of, stands_at, starts_with,
    string_between, trim_both_of, trim_of, Trim,
};
#[allow(unused_imports)]
use crate::text::{
    chomp, find, first_at, lemma_find_char_is, lemma_find_first, lemma_find_is,
    lemma_occurs_at_take, lemma_trim_leading, lemma_trim_trailing, lemma_trimmed_start, lf_only,
    lines, occurs, occurs_at, split_once, texts, trim, trim_both,
};

verus! {

/// What a document with front matter begins with.
pub open spec fn opening() -> Seq<char> {
    seq!['-', '-', '-', '\n']
}

/// What stands between the front matter and the body.
pub open spec fn divider() -> Seq<char> {
    seq!['\n', '-', '-', '-', '\n']
}

/// What ends a document that is front matter alone.
pub open spec fn closing() -> Seq<char> {
    seq!['\n', '-', '-', '-']
}

/// The front matter and the body of what follows the opening.
pub open spec fn divided(rest: Seq<char>) -> Option<(Seq<char>, Seq<char>)> {
    match find(rest, divider()) {
        Some(i) => Some((rest.take(i), rest.skip(i + 5))),
        None => if closing().is_suffix_of(rest) {
            Some((rest.take(rest.len() - 4), Seq::empty()))
        } else {
            None
        },
    }
}

/// The front matter and the body of a document whose lines may end with a
/// carriage return and a line feed.
pub open spec fn front_matter(content: Seq<char>) -> Option<(Seq<char>, Seq<char>)> {
    let text = lf_only(content);
    if opening().is_prefix_of(text) {
        divided(text.skip(4))
    } else {
        None
    }
}

/// The front matter and the body of `content`, where it has front matter.
pub fn split_front_matter(content: &str) -> (out: Option<(String, String)>)
    ensures
        match out {
            Some(p) => front_matter(content@) == Some((p.0@, p.1@)),
            None => front_matter(content@) is None,
        },
{
    let text = lf_only_of(content);
    let open = chars_of("---\n");
    let divide = chars_of("\n---\n");
    let close = chars_of("\n---");
    proof {
        reveal_strlit("---\n");
        reveal_strlit("\n---\n");
        reveal_strlit("\n---");
        assert(open@ =~= opening());
        assert(divide@ =~= divider());
        assert(close@ =~= closing());
    }
    let opened = stands_at(&text, &open, 0);
    proof {
        assert(opened == opening().is_prefix_of(text@)) by {
            if text@.len() >= 4 {
                assert(text@.subrange(0, 4) =~= text@.take(4));
            }
        }
    }
    if !opened {
        return None;
    }
    let rest_text = string_between(&text, 4, text.len());
    let rest = chars_of(rest_text.as_str());
    proof {
        assert(rest@ =~= text@.skip(4));
    }
    match find_in(&rest, &divide) {
        Some(i) => {
            let front = string_between(&rest, 0, i);
            let body = string_between(&rest, i + 5, rest.len());
            proof {
                assert(front@ =~= rest@.take(i as int));
                assert(body@ =~= rest@.skip(i + 5));
            }
            Some((front, body))
        },
        None => {
            if rest.len() < 4 {
                return None;
            }
            let end: usize = rest.len() - 4;
            let closed = stands_at(&rest, &close, end);
            proof {
                assert(rest@.subrange(end as int, end + 4) =~= rest@.skip(end as int));
                assert(closed == closing().is_suffix_of(rest@)) by {
                    assert(rest@.subrange(rest@.len() - 4, rest@.len() as int) =~= rest@.skip(
                        end as int,
                    ));
                }
            }
            if !closed {
                return None;
            }
            let front = string_between(&rest, 0, end);
            proof {
                assert(front@ =~= rest@.take(rest@.len() - 4));
            }
            Some((front, String::new()))
        },
    }
}

/// The key and the value of a top-level line. A line that begins with a
/// space or a tab belongs to the line above it, and has none.
pub open spec fn line_entry(line: Seq<char>) -> Option<(Seq<char>, Seq<char>)> {
    if line.len() > 0 && (line[0] == ' ' || line[0] == '\t') {
        None
    } else {
        match split_once(line, ':') {
            Some(p) => Some(
                (
                    trim(p.0),
                    trim_both(trim_both(trim(p.1), Trim::Just('"')), Trim::Just('\'')),
                ),
            ),
            None => None,
        }
    }
}

/// The value of the first of `rows` that has the key `key`.
pub open spec fn value_in(rows: Seq<Seq<char>>, key: Seq<char>) -> Option<Seq<char>>
    decreases rows.len(),
{
    if rows.len() == 0 {
        None
    } else {
        match line_entry(rows[0]) {
            Some(p) => if p.0 == key {
                Some(p.1)
            } else {
                value_in(rows.drop_first(), key)
            },
            None => value_in(rows.drop_first(), key),
        }
    }
}

/// The value that the front matter gives for `key`, without quotes around it.
pub open spec fn value_of(front: Seq<char>, key: Seq<char>) -> Option<Seq<char>> {
    value_in(lines(front), key)
}

/// The key and the value of a top-level line.
fn line_entry_of(line: &str) -> (out: Option<(String, String)>)
    ensures
        match out {
            Some(p) => line_entry(line@) == Some((p.0@, p.1@)),
            None => line_entry(line@) is None,
        },
{
    proof {
        reveal_strlit(" ");
        reveal_strlit("\t");
        if line@.len() > 0 {
            assert(line@.take(1) =~= seq![line@[0]]);
            assert(" "@ =~= seq![' ']);
            assert("\t"@ =~= seq!['\t']);
            assert(seq![line@[0]][0] == line@[0]);
            assert(seq![' '][0] == ' ');
            assert(seq!['\t'][0] == '\t');
        }
    }
    if starts_with(line, " ") || starts_with(line, "\t") {
        return None;
    }
    match split_once_of(line, ':') {
        Some((k, v)) => {
            let value = trim_of(v.as_str());
            let bare = trim_both_of(value.as_str(), Trim::Just('"'));
            Some((trim_of(k.as_str()), trim_both_of(bare.as_str(), Trim::Just('\''))))
        },
        None => None,
    }
}

/// The value that the front matter gives for `key`, without quotes around it.
pub fn front_value(front: &str, key: &str) -> (out: Option<String>)
    ensures
        match out {
            Some(v) => value_of(front@, key@) == Some(v@),
            None => value_of(front@, key@) is None,
        },
{
    let rows = lines_of(front);
    let ghost all = lines(front@);
    let mut i: usize = 0;
    proof {
        assert(all.skip(0) =~= all);
    }
    while i < rows.len()
        invariant
            i <= rows@.len(),
            texts(rows@) == all,
            all == lines(front@),
            value_in(all, key@) == value_in(all.skip(i as int), key@),
        decreases rows@.len() - i,
    {
        proof {
            assert(all[i as int] == rows@[i as int]@);
            assert(all.skip(i as int)[0] == all[i as int]);
            assert(all.skip(i as int).drop_first() =~= all.skip(i + 1));
        }
        if let Some((k, v)) = line_entry_of(rows[i].as_str()) {
            if same_text(k.as_str(), key) {
                return Some(v);
            }
        }
        i = i + 1;
    }
    proof {
        assert(all.skip(i as int).len() == 0);
    }
    None
}

// ---------------------------------------------------------------------------
// Laws
// ---------------------------------------------------------------------------

/// A document without carriage returns before line feeds reads as it stands.
proof fn lemma_lf_only_keeps(s: Seq<char>)
    requires
        !occurs(s, seq!['\r', '\n']),
    ensures
        lf_only(s) == s,
    decreases s.len(),
{
    if s.len() > 0 {
        let pair = seq!['\r', '\n'];
        if s.len() > 1 && s[0] == '\r' && s[1] == '\n' {
            assert(s.subrange(0, 2) =~= pair);
            assert(occurs_at(s, pair, 0));
        }
        let rest = s.skip(1);
        assert(!occurs(rest, pair)) by {
            if occurs(rest, pair) {
                let i = choose|i: int| occurs_at(rest, pair, i);
                assert(s.subrange(i + 1, i + 3) =~= rest.subrange(i, i + 2));
                assert(occurs_at(s, pair, i + 1));
            }
        }
        lemma_lf_only_keeps(rest);
        assert(seq![s[0]] + rest =~= s);
    }
}

/// The divider after front matter that holds none is the first one.
proof fn lemma_divider_is_first(front: Seq<char>, body: Seq<char>)
    requires
        !occurs(front + closing(), divider()),
    ensures
        first_at(front + divider() + body, divider(), front.len() as int),
{
    let rest = front + divider() + body;
    let short = front + closing();
    let n = front.len() as int;
    assert(rest.subrange(n, n + 5) =~= divider());
    assert(rest.take(n + 4) =~= short);
    assert forall|j: int| 0 <= j < n implies !occurs_at(rest, divider(), j) by {
        if occurs_at(rest, divider(), j) {
            lemma_occurs_at_take(rest, divider(), j, n + 4);
        }
    }
}

/// A document put together from front matter and a body comes apart into
/// them again. Left out are a document with a carriage return before a line
/// feed, and front matter that holds a divider of its own.
pub proof fn law_front_matter_reads_back(front: Seq<char>, body: Seq<char>)
    requires
        !occurs(opening() + front + divider() + body, seq!['\r', '\n']),
        !occurs(front + closing(), divider()),
    ensures
        front_matter(opening() + front + divider() + body) == Some((front, body)),
{
    let whole = opening() + front + divider() + body;
    let rest = front + divider() + body;
    let n = front.len() as int;
    lemma_lf_only_keeps(whole);
    lemma_divider_is_first(front, body);
    lemma_find_is(rest, divider(), n);
    assert(whole =~= opening() + rest);
    assert(whole.take(4) =~= opening());
    assert(whole.skip(4) =~= rest);
    assert(rest.take(n) =~= front);
    assert(rest.skip(n + 5) =~= body);
}

/// Where front matter was found, it and the body make up the document again,
/// up to carriage returns before line feeds; a document without a body may
/// lack the last line feed.
pub proof fn law_front_matter_loses_nothing(content: Seq<char>)
    ensures
        match front_matter(content) {
            Some(p) => {
                ||| lf_only(content) == opening() + p.0 + divider() + p.1
                ||| p.1 == Seq::<char>::empty() && lf_only(content) == opening() + p.0 + closing()
            },
            None => true,
        },
{
    let text = lf_only(content);
    if opening().is_prefix_of(text) {
        let rest = text.skip(4);
        assert(text =~= opening() + rest);
        lemma_find_first(rest, divider());
        match find(rest, divider()) {
            Some(i) => {
                assert(rest =~= rest.take(i) + divider() + rest.skip(i + 5)) by {
                    assert(rest.subrange(i, i + 5) == divider());
                    assert forall|k: int| i <= k < i + 5 implies rest[k] == divider()[k - i] by {
                        assert(rest.subrange(i, i + 5)[k - i] == rest[k]);
                    }
                }
                assert(text =~= opening() + rest.take(i) + divider() + rest.skip(i + 5));
            },
            None => {
                if closing().is_suffix_of(rest) {
                    let front = rest.take(rest.len() - 4);
                    assert(rest =~= front + closing());
                    assert(text =~= opening() + front + closing());
                }
            },
        }
    }
}

/// A value without white space and quotes around it.
pub open spec fn bare(value: Seq<char>) -> Seq<char> {
    trim_both(trim_both(trim(value), Trim::Just('"')), Trim::Just('\''))
}

/// The line for a key and a value.
pub open spec fn entry_line(key: Seq<char>, value: Seq<char>) -> Seq<char> {
    key + seq![':', ' '] + value
}

/// A text that can stand as a key.
pub open spec fn plain_key(key: Seq<char>) -> bool {
    &&& trim(key) == key
    &&& !key.contains(':')
    &&& !key.contains('\n')
}

proof fn lemma_entry_line(key: Seq<char>, value: Seq<char>)
    requires
        plain_key(key),
    ensures
        line_entry(entry_line(key, value)) == Some((key, bare(value))),
{
    let line = entry_line(key, value);
    let n = key.len() as int;
    if n > 0 {
        lemma_trimmed_start(key, Trim::White);
        assert(line[0] == key[0]);
    }
    assert forall|j: int| 0 <= j < n implies line[j] != ':' by {
        assert(line[j] == key[j]);
        assert(key.contains(key[j]));
    }
    lemma_find_char_is(line, ':', n);
    assert(line.take(n) =~= key);
    assert(line.skip(n + 1) =~= seq![' '] + value);
    lemma_trim_leading(value, ' ', Trim::White);
}

/// What front matter says on its first line is read back under its key,
/// without white space and quotes around it.
pub proof fn law_front_value_reads_back(key: Seq<char>, value: Seq<char>, rest: Seq<char>)
    requires
        plain_key(key),
        !value.contains('\n'),
    ensures
        value_of(entry_line(key, value).push('\n') + rest, key) == Some(bare(value)),
{
    let line = entry_line(key, value);
    let front = line.push('\n') + rest;
    let n = line.len() as int;
    assert forall|j: int| 0 <= j < n implies front[j] != '\n' by {
        let k = key.len() as int;
        if j < k {
            assert(front[j] == key[j]);
            assert(key.contains(key[j]));
        } else if j >= k + 2 {
            assert(front[j] == value[j - k - 2]);
            assert(value.contains(value[j - k - 2]));
        }
    }
    lemma_find_char_is(front, '\n', n);
    assert(front.take(n) =~= line);
    let rows = lines(front);
    assert(rows[0] == chomp(line));
    if value.len() > 0 && value.last() == '\r' {
        let less = value.drop_last();
        assert(value =~= less.push('\r'));
        assert(line.drop_last() =~= entry_line(key, less));
        lemma_trim_trailing(less, '\r', Trim::White);
        lemma_entry_line(key, less);
    } else {
        if value.len() == 0 {
            assert(line.last() == ' ');
        } else {
            assert(line.last() == value.last());
        }
        lemma_entry_line(key, value);
    }
}

/// The front matter of a document stands between a first line of three dashes
/// and the next such line; what follows is the body.
pub proof fn law_front_matter_stands_between_dashes(front: Seq<char>, body: Seq<char>)
    requires
        !occurs("---\n"@ + front + "\n---\n"@ + body, seq!['\r', '\n']),
        !occurs(front + "\n---"@, "\n---\n"@),
    ensures
        front_matter("---\n"@ + front + "\n---\n"@ + body) == Some((front, body)),
{
    reveal_strlit("---\n");
    reveal_strlit("\n---\n");
    reveal_strlit("\n---");
    assert("---\n"@ =~= opening());
    assert("\n---\n"@ =~= divider());
    assert("\n---"@ =~= closing());
    law_front_matter_reads_back(front, body);
}

/// A document whose first line is not three dashes has no front matter.
pub proof fn law_no_front_matter_without_dashes(content: Seq<char>)
    requires
        content.len() < 4 || content[0] != '-' || content[1] != '-' || content[2] != '-' || content[3]
            != '\n',
        !occurs(content, seq!['\r', '\n']),
    ensures
        front_matter(content) is None,
{
    lemma_lf_only_keeps(content);
    if opening().is_prefix_of(content) {
        assert(content.subrange(0, 4) == opening());
        assert(opening()[0] == content[0] && opening()[1] == content[1]);
        assert(opening()[2] == content[2] && opening()[3] == content[3]);
    }
}

/// A line that gives another key, none at all, or belongs to the line above it,
/// does not bear on what a key is given further down.
pub proof fn law_other_lines_are_passed_over(line: Seq<char>, rest: Seq<char>, key: Seq<char>)
    requires
        !line.contains('\n'),
        line.len() == 0 || line.last() != '\r',
        line.len() > 0 && (line[0] == ' ' || line[0] == '\t') || !line.contains(':') || ({
            let split = split_once(line, ':')->0;
            trim(split.0) != key
        }),
    ensures
        value_of(line.push('\n') + rest, key) == value_of(rest, key),
{
    crate::text::law_lines_end_at_line_feeds(line, rest);
    crate::text::law_split_at_the_first(line, ':');
    let rows = lines(line.push('\n') + rest);
    assert(rows[0] == line);
    assert(rows.drop_first() =~= rows.skip(1));
    if split_once(line, ':') is Some {
        let p = split_once(line, ':')->0;
        assert(line == p.0.push(':') + p.1);
        assert(line[p.0.len() as int] == ':');
        assert(line.contains(':'));
    }
}

/// The value of a key is what stands behind the colon on its line, without
/// white space around it, and without quotation marks around that.
pub proof fn law_front_value_is_what_stands_behind_the_colon(
    key: Seq<char>,
    value: Seq<char>,
    rest: Seq<char>,
)
    requires
        plain_key(key),
        !value.contains('\n'),
        value.len() > 0,
        trim(value) == value,
    ensures
        value[0] != '"' && value[0] != '\'' && value.last() != '"' && value.last() != '\''
            ==> value_of(key + seq![':', ' '] + value + seq!['\n'] + rest, key) == Some(value),
{
    law_front_value_reads_back(key, value, rest);
    assert(entry_line(key, value).push('\n') + rest =~= key + seq![':', ' '] + value + seq!['\n']
        + rest);
    if value[0] != '"' && value[0] != '\'' && value.last() != '"' && value.last() != '\'' {
        assert(trim_both(value, Trim::Just('"')) == value);
        assert(trim_both(value, Trim::Just('\'')) == value);
    }
}

/// Quotation marks around a value are no part of it.
pub proof fn law_front_value_loses_its_quotes(
    key: Seq<char>,
    value: Seq<char>,
    rest: Seq<char>,
)
    requires
        plain_key(key),
        !value.contains('\n'),
        value.len() > 0,
        value[0] != '"' && value[0] != '\'' && value.last() != '"' && value.last() != '\'',
        trim(seq!['"'] + value + seq!['"']) == seq!['"'] + value + seq!['"'],
    ensures
        value_of(key + seq![':', ' '] + (seq!['"'] + value + seq!['"']) + seq!['\n'] + rest, key)
            == Some(value),
{
    let q = seq!['"'] + value + seq!['"'];
    assert(!q.contains('\n')) by {
        if q.contains('\n') {
            let i = choose|i: int| 0 <= i < q.len() && q[i] == '\n';
            assert(value[i - 1] == '\n');
        }
    }
    law_front_value_reads_back(key, q, rest);
    assert(entry_line(key, q).push('\n') + rest =~= key + seq![':', ' '] + q + seq!['\n'] + rest);
    let t = Trim::Just('"');
    lemma_trim_leading(value.push('"'), '"', t);
    lemma_trim_trailing(value, '"', t);
    assert(q =~= seq!['"'] + value.push('"'));
    assert(trim_both(value, t) == value);
    assert(trim_both(value, Trim::Just('\'')) == value);
}

/// A document that is front matter alone need not end with a line feed.
pub proof fn law_front_matter_may_end_the_document(front: Seq<char>)
    requires
        !occurs("---\n"@ + front + "\n---"@, seq!['\r', '\n']),
        !occurs(front + "\n---"@, "\n---\n"@),
    ensures
        front_matter("---\n"@ + front + "\n---"@) == Some((front, Seq::<char>::empty())),
{
    reveal_strlit("---\n");
    reveal_strlit("\n---\n");
    reveal_strlit("\n---");
    assert("---\n"@ =~= opening());
    assert("\n---\n"@ =~= divider());
    assert("\n---"@ =~= closing());
    let whole = opening() + front + closing();
    let rest = front + closing();
    lemma_lf_only_keeps(whole);
    assert(whole.take(4) =~= opening());
    assert(whole.skip(4) =~= rest);
    assert(rest.subrange(rest.len() - 4, rest.len() as int) =~= closing());
    assert(rest.take(rest.len() - 4) =~= front);
}

/// A document that never closes its front matter has none.
pub proof fn law_open_front_matter_is_none(rest: Seq<char>)
    requires
        !occurs("---\n"@ + rest, seq!['\r', '\n']),
        !occurs(rest, "\n---\n"@),
        !"\n---"@.is_suffix_of(rest),
    ensures
        front_matter("---\n"@ + rest) is None,
{
    reveal_strlit("---\n");
    reveal_strlit("\n---\n");
    reveal_strlit("\n---");
    assert("---\n"@ =~= opening());
    assert("\n---\n"@ =~= divider());
    assert("\n---"@ =~= closing());
    lemma_lf_only_keeps(opening() + rest);
    assert((opening() + rest).skip(4) =~= rest);
}

/// Documents that differ only in carriage returns before line feeds have the
/// same front matter and the same body.
pub proof fn law_line_ends_make_no_difference(a: Seq<char>, b: Seq<char>)
    requires
        lf_only(a) == lf_only(b),
    ensures
        front_matter(a) == front_matter(b),
{
}

} // verus!
