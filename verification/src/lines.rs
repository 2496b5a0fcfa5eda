//! Lines and the fields of a line.

use vstd::prelude::*;
use vstd::string::*;

use crate::text;

verus! {

/// The character is one of those that Unicode counts as white space.
pub open spec fn is_white(c: char) -> bool {
    let n = c as int;
    9 <= n <= 13 || n == 0x20 || n == 0x85 || n == 0xa0 || n == 0x1680 || 0x2000 <= n <= 0x200a || n
        == 0x2028 || n == 0x2029 || n == 0x202f || n == 0x205f || n == 0x3000
}

/// Where the run of characters at the end of `s` begins that are no white space.
pub open spec fn word_start(s: Seq<char>) -> nat
    decreases s.len(),
{
    if s.len() == 0 || is_white(s.last()) {
        s.len()
    } else {
        word_start(s.drop_last())
    }
}

proof fn lemma_word_start_within(s: Seq<char>)
    ensures
        word_start(s) <= s.len(),
        s.len() > 0 && !is_white(s.last()) ==> word_start(s) < s.len(),
    decreases s.len(),
{
    if s.len() > 0 && !is_white(s.last()) {
        lemma_word_start_within(s.drop_last());
    }
}

/// The fields of a line: its longest runs of characters that are no white space.
pub open spec fn fields(s: Seq<char>) -> Seq<Seq<char>>
    decreases s.len(),
    via fields_shrink
{
    if s.len() == 0 {
        Seq::empty()
    } else if is_white(s.last()) {
        fields(s.drop_last())
    } else {
        fields(s.take(word_start(s) as int)).push(s.skip(word_start(s) as int))
    }
}

#[via_fn]
proof fn fields_shrink(s: Seq<char>) {
    lemma_word_start_within(s);
}

proof fn lemma_word_start_is(s: Seq<char>, n: int)
    requires
        0 <= n <= s.len(),
        n == 0 || is_white(s[n - 1]),
        forall|i: int| n <= i < s.len() ==> !is_white(#[trigger] s[i]),
    ensures
        word_start(s) == n,
    decreases s.len(),
{
    if s.len() > n {
        assert(!is_white(s[s.len() - 1]));
        lemma_word_start_is(s.drop_last(), n);
    } else if n > 0 {
        assert(is_white(s.last()));
    }
}

fn white(c: char) -> (r: bool)
    ensures
        r == is_white(c),
{
    let n: u32 = text::code_point(c);
    (9 <= n && n <= 13) || n == 0x20 || n == 0x85 || n == 0xa0 || n == 0x1680 || (0x2000 <= n && n
        <= 0x200a) || n == 0x2028 || n == 0x2029 || n == 0x202f || n == 0x205f || n == 0x3000
}

/// Splits a line into its fields.
pub fn split_fields(line: &str) -> (r: Vec<String>)
    ensures
        text::texts(r@) == fields(line@),
{
    let chars = text::char_vec(line);
    let ghost s = line@;
    let mut r: Vec<String> = Vec::new();
    let mut start: usize = 0;
    let mut i: usize = 0;
    assert(s.take(0) =~= Seq::empty());
    assert(text::texts(r@) =~= fields(s.take(0)));
    while i < chars.len()
        invariant
            chars@ == s,
            s == line@,
            start <= i <= s.len(),
            start == 0 || is_white(s[start - 1]),
            forall|k: int| start <= k < i ==> !is_white(#[trigger] s[k]),
            text::texts(r@) == fields(s.take(start as int)),
        decreases s.len() - i,
    {
        if white(chars[i]) {
            let ghost here = s.take(i as int);
            if start < i {
                let word = line.substring_char(start, i);
                let ghost held = r@;
                r.push(word.to_owned());
                proof {
                    text::lemma_texts_push(held, r@.last());
                    lemma_word_start_is(here, start as int);
                    assert(here.take(start as int) =~= s.take(start as int));
                    assert(here.skip(start as int) =~= s.subrange(start as int, i as int));
                    assert(!is_white(s[i - 1]));
                }
            }
            proof {
                let next = s.take(i + 1);
                assert(next.drop_last() =~= here);
                assert(is_white(next.last()));
                assert(text::texts(r@) == fields(here));
            }
            start = i + 1;
        }
        i += 1;
    }
    let ghost here = s.take(i as int);
    assert(here =~= s);
    if start < i {
        let word = line.substring_char(start, i);
        let ghost held = r@;
        r.push(word.to_owned());
        proof {
            text::lemma_texts_push(held, r@.last());
            lemma_word_start_is(here, start as int);
            assert(here.skip(start as int) =~= s.subrange(start as int, i as int));
            assert(!is_white(s[i - 1]));
        }
    }
    r
}

/// Fields are not empty and hold no white space.
pub proof fn law_fields_are_words(s: Seq<char>)
    ensures
        forall|i: int| 0 <= i < fields(s).len() ==> (#[trigger] fields(s)[i]).len() > 0,
        forall|i: int, j: int|
            0 <= i < fields(s).len() && 0 <= j < fields(s)[i].len() ==> !is_white(
                #[trigger] fields(s)[i][j],
            ),
    decreases s.len(),
{
    if s.len() > 0 {
        lemma_word_start_within(s);
        if is_white(s.last()) {
            law_fields_are_words(s.drop_last());
            assert(fields(s) == fields(s.drop_last()));
        } else {
            let n = word_start(s) as int;
            let head = s.take(n);
            let word = s.skip(n);
            law_fields_are_words(head);
            lemma_word_is_clean(s);
            assert(fields(s) == fields(head).push(word));
            assert forall|i: int, j: int|
                0 <= i < fields(s).len() && 0 <= j < fields(s)[i].len() implies !is_white(
                #[trigger] fields(s)[i][j],
            ) by {
                if i < fields(head).len() {
                    assert(fields(s)[i] == fields(head)[i]);
                    assert(!is_white(fields(head)[i][j]));
                } else {
                    assert(fields(s)[i] == word);
                    assert(word[j] == s[n + j]);
                }
            }
            assert forall|i: int| 0 <= i < fields(s).len() implies (#[trigger] fields(s)[i]).len()
                > 0 by {
                if i < fields(head).len() {
                    assert(fields(s)[i] == fields(head)[i]);
                }
            }
        }
    } else {
        assert(fields(s).len() == 0);
    }
}

proof fn lemma_word_is_clean(s: Seq<char>)
    ensures
        forall|i: int| word_start(s) <= i < s.len() ==> !is_white(#[trigger] s[i]),
    decreases s.len(),
{
    if s.len() > 0 && !is_white(s.last()) {
        let rest = s.drop_last();
        lemma_word_is_clean(rest);
        assert forall|i: int| word_start(s) <= i < s.len() implies !is_white(#[trigger] s[i]) by {
            if i < rest.len() {
                assert(rest[i] == s[i]);
            }
        }
    }
}

/// Where the last line of `s` begins: behind its last line feed.
pub open spec fn line_start(s: Seq<char>) -> nat
    decreases s.len(),
{
    if s.len() == 0 || s.last() == '\n' {
        s.len()
    } else {
        line_start(s.drop_last())
    }
}

proof fn lemma_line_start_within(s: Seq<char>)
    ensures
        line_start(s) <= s.len(),
        s.len() > 0 && s.last() != '\n' ==> line_start(s) < s.len(),
    decreases s.len(),
{
    if s.len() > 0 && s.last() != '\n' {
        lemma_line_start_within(s.drop_last());
    }
}

/// A line without the carriage return that stands before its line feed.
pub open spec fn without_return(s: Seq<char>) -> Seq<char> {
    if s.len() > 0 && s.last() == '\r' {
        s.drop_last()
    } else {
        s
    }
}

/// The lines of a text, without their ends: a line feed, or a carriage return
/// and a line feed. The last line may lack its end.
pub open spec fn lines(s: Seq<char>) -> Seq<Seq<char>>
    decreases s.len(),
    via lines_shrink
{
    if s.len() == 0 {
        Seq::empty()
    } else if s.last() == '\n' {
        let body = s.drop_last();
        lines(s.take(line_start(body) as int)).push(
            without_return(body.skip(line_start(body) as int)),
        )
    } else {
        lines(s.take(line_start(s) as int)).push(s.skip(line_start(s) as int))
    }
}

#[via_fn]
proof fn lines_shrink(s: Seq<char>) {
    lemma_line_start_within(s);
    if s.len() > 0 {
        lemma_line_start_within(s.drop_last());
    }
}

proof fn lemma_line_start_is(s: Seq<char>, n: int)
    requires
        0 <= n <= s.len(),
        n == 0 || s[n - 1] == '\n',
        forall|i: int| n <= i < s.len() ==> s[i] != '\n',
    ensures
        line_start(s) == n,
    decreases s.len(),
{
    if s.len() > n {
        assert(s[s.len() - 1] != '\n');
        lemma_line_start_is(s.drop_last(), n);
    } else if n > 0 {
        assert(s.last() == '\n');
    }
}

/// Splits a text into its lines.
pub fn split_lines(content: &str) -> (r: Vec<String>)
    ensures
        text::texts(r@) == lines(content@),
{
    let chars = text::char_vec(content);
    let ghost s = content@;
    let mut r: Vec<String> = Vec::new();
    let mut start: usize = 0;
    let mut i: usize = 0;
    assert(s.take(0) =~= Seq::empty());
    assert(text::texts(r@) =~= lines(s.take(0)));
    while i < chars.len()
        invariant
            chars@ == s,
            s == content@,
            start <= i <= s.len(),
            start == 0 || s[start - 1] == '\n',
            forall|k: int| start <= k < i ==> s[k] != '\n',
            text::texts(r@) == lines(s.take(start as int)),
        decreases s.len() - i,
    {
        if chars[i] == '\n' {
            let mut end: usize = i;
            if start < i && chars[i - 1] == '\r' {
                end = i - 1;
            }
            let line = content.substring_char(start, end);
            let ghost held = r@;
            r.push(line.to_owned());
            proof {
                let next = s.take(i + 1);
                let body = next.drop_last();
                text::lemma_texts_push(held, r@.last());
                assert(body =~= s.take(i as int));
                lemma_line_start_is(body, start as int);
                assert(next.take(start as int) =~= s.take(start as int));
                assert(next.last() == '\n');
                let whole = body.skip(start as int);
                if start < i {
                    assert(whole.last() == s[i - 1]);
                }
                assert(s.subrange(start as int, end as int) =~= without_return(whole));
            }
            start = i + 1;
        }
        i += 1;
    }
    let ghost here = s.take(i as int);
    assert(here =~= s);
    if start < i {
        let line = content.substring_char(start, i);
        let ghost held = r@;
        r.push(line.to_owned());
        proof {
            text::lemma_texts_push(held, r@.last());
            lemma_line_start_is(here, start as int);
            assert(here.skip(start as int) =~= s.subrange(start as int, i as int));
            assert(s[i - 1] != '\n');
        }
    }
    r
}

} // verus!
