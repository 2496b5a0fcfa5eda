//! What texts are split into, and which names the lines of a file give.

use vstd::prelude::*;

use crate::lines;
use crate::name_files;
use crate::text;

verus! {

proof fn lemma_word_start_behind(a: Seq<char>, w: char, b: Seq<char>)
    requires
        lines::is_white(w),
    ensures
        lines::word_start(a.push(w) + b) == a.len() + 1 + lines::word_start(b),
        lines::word_start(b) <= b.len(),
        b.len() > 0 && !lines::is_white(b.last()) ==> lines::word_start(b) < b.len(),
    decreases b.len(),
{
    let s = a.push(w) + b;
    if b.len() == 0 {
        assert(s =~= a.push(w));
    } else if !lines::is_white(b.last()) {
        assert(s.drop_last() =~= a.push(w) + b.drop_last());
        lemma_word_start_behind(a, w, b.drop_last());
    }
}

/// The fields of a line are those before a white space and those behind it.
pub proof fn law_fields_part_at_white_space(a: Seq<char>, w: char, b: Seq<char>)
    requires
        lines::is_white(w),
    ensures
        lines::fields(a.push(w) + b) == lines::fields(a) + lines::fields(b),
    decreases b.len(),
{
    let s = a.push(w) + b;
    if b.len() == 0 {
        assert(s =~= a.push(w));
        assert(s.drop_last() =~= a);
        assert(lines::fields(a) + lines::fields(b) =~= lines::fields(a));
    } else if lines::is_white(b.last()) {
        assert(s.drop_last() =~= a.push(w) + b.drop_last());
        law_fields_part_at_white_space(a, w, b.drop_last());
    } else {
        lemma_word_start_behind(a, w, b);
        let n = lines::word_start(b) as int;
        let at = lines::word_start(s) as int;
        assert(s.take(at) =~= a.push(w) + b.take(n));
        assert(s.skip(at) =~= b.skip(n));
        law_fields_part_at_white_space(a, w, b.take(n));
        assert(lines::fields(a) + lines::fields(b.take(n)).push(b.skip(n)) =~= (lines::fields(a)
            + lines::fields(b.take(n))).push(b.skip(n)));
    }
}

/// A word is the one field of itself.
pub proof fn law_word_is_one_field(word: Seq<char>)
    requires
        name_files::is_word(word),
    ensures
        lines::fields(word) == seq![word],
{
    lemma_no_white(word);
    assert(word.take(0) =~= Seq::empty());
    assert(word.skip(0) =~= word);
    assert(lines::fields(Seq::<char>::empty()) =~= Seq::empty());
    assert(lines::fields(word) =~= seq![word]);
}

proof fn lemma_no_white(word: Seq<char>)
    requires
        forall|i: int| 0 <= i < word.len() ==> !lines::is_white(#[trigger] word[i]),
    ensures
        lines::word_start(word) == 0,
    decreases word.len(),
{
    if word.len() > 0 {
        lemma_no_white(word.drop_last());
    }
}

/// A word, and behind it nothing or white space and more.
proof fn lemma_word_and_rest(word: Seq<char>, rest: Seq<char>)
    requires
        name_files::is_word(word),
        rest.len() == 0 || lines::is_white(rest[0]),
    ensures
        lines::fields(word + rest).len() >= 1,
        lines::fields(word + rest)[0] == word,
        rest.len() == 0 ==> lines::fields(word + rest).len() == 1,
{
    law_word_is_one_field(word);
    if rest.len() == 0 {
        assert(word + rest =~= word);
    } else {
        assert(word + rest =~= word.push(rest[0]) + rest.skip(1));
        law_fields_part_at_white_space(word, rest[0], rest.skip(1));
    }
}

/// A line of two words and more.
pub open spec fn two_words(a: Seq<char>, b: Seq<char>, rest: Seq<char>) -> Seq<char> {
    a.push(' ') + (b + rest)
}

/// A line of four words and more.
pub open spec fn four_words(
    a: Seq<char>,
    b: Seq<char>,
    c: Seq<char>,
    d: Seq<char>,
    rest: Seq<char>,
) -> Seq<char> {
    a.push(' ') + (b.push(' ') + (c.push(' ') + (d + rest)))
}

proof fn lemma_fields_of_two_words(a: Seq<char>, b: Seq<char>, rest: Seq<char>)
    requires
        name_files::is_word(a),
        name_files::is_word(b),
        rest.len() == 0 || lines::is_white(rest[0]),
    ensures
        ({
            let f = lines::fields(two_words(a, b, rest));
            f.len() >= 2 && f[0] == a && f[1] == b
        }),
{
    law_word_is_one_field(a);
    lemma_word_and_rest(b, rest);
    law_fields_part_at_white_space(a, ' ', b + rest);
}

proof fn lemma_fields_of_four_words(
    a: Seq<char>,
    b: Seq<char>,
    c: Seq<char>,
    d: Seq<char>,
    rest: Seq<char>,
)
    requires
        name_files::is_word(a),
        name_files::is_word(b),
        name_files::is_word(c),
        name_files::is_word(d),
        rest.len() == 0 || lines::is_white(rest[0]),
    ensures
        ({
            let f = lines::fields(four_words(a, b, c, d, rest));
            f.len() >= 4 && f[0] == a && f[1] == b && f[2] == c && f[3] == d
        }),
{
    law_word_is_one_field(a);
    law_word_is_one_field(b);
    law_word_is_one_field(c);
    lemma_word_and_rest(d, rest);
    law_fields_part_at_white_space(c, ' ', d + rest);
    law_fields_part_at_white_space(b, ' ', c.push(' ') + (d + rest));
    law_fields_part_at_white_space(a, ' ', b.push(' ') + (c.push(' ') + (d + rest)));
}

/// A line with an expiry, a hardware address, an address and a name is a lease
/// of that name, unless it is a comment, the name is a placeholder or the
/// address is none; what else is on the line does not matter.
pub proof fn law_lease_line(
    expiry: Seq<char>,
    mac: Seq<char>,
    ip: Seq<char>,
    hostname: Seq<char>,
    rest: Seq<char>,
)
    requires
        name_files::is_word(expiry),
        name_files::is_word(mac),
        name_files::is_word(ip),
        name_files::is_word(hostname),
        rest.len() == 0 || lines::is_white(rest[0]),
    ensures
        name_files::lease_of(four_words(expiry, mac, ip, hostname, rest)) == if expiry[0] != '#'
            && hostname != seq!['*'] && (ip.contains('.') || ip.contains(':')) {
            Some(name_files::Lease { mac, ip, hostname })
        } else {
            None
        },
        name_files::lease_of(two_words(expiry, mac, Seq::empty())) is None,
        name_files::lease_of(expiry.push(' ') + two_words(mac, ip, Seq::empty())) is None,
{
    lemma_fields_of_four_words(expiry, mac, ip, hostname, rest);
    reveal_strlit("*");
    assert("*"@ =~= seq!['*']);
    assert(name_files::holds(ip, '.') <==> ip.contains('.'));
    assert(name_files::holds(ip, ':') <==> ip.contains(':'));
    law_word_is_one_field(expiry);
    law_word_is_one_field(mac);
    law_word_is_one_field(ip);
    assert(mac + Seq::<char>::empty() =~= mac);
    assert(ip + Seq::<char>::empty() =~= ip);
    law_fields_part_at_white_space(expiry, ' ', mac);
    law_fields_part_at_white_space(mac, ' ', ip);
    law_fields_part_at_white_space(expiry, ' ', two_words(mac, ip, Seq::empty()));
}

/// A line with a key and a name is an entry of that name unless it is a comment;
/// what else is on the line does not matter. A key with a colon is a hardware
/// address.
pub proof fn law_manual_line(key: Seq<char>, name: Seq<char>, rest: Seq<char>)
    requires
        name_files::is_word(key),
        name_files::is_word(name),
        rest.len() == 0 || lines::is_white(rest[0]),
    ensures
        name_files::manual_of(two_words(key, name, rest)) == if key[0] != '#' {
            Some((key, name))
        } else {
            None
        },
        name_files::manual_of(key) is None,
        name_files::is_mac(key) <==> key.contains(':'),
{
    lemma_fields_of_two_words(key, name, rest);
    law_word_is_one_field(key);
}

proof fn lemma_line_start_behind(a: Seq<char>, b: Seq<char>)
    ensures
        lines::line_start(a.push('\n') + b) == a.len() + 1 + lines::line_start(b),
        lines::line_start(b) <= b.len(),
        b.len() > 0 && b.last() != '\n' ==> lines::line_start(b) < b.len(),
    decreases b.len(),
{
    let s = a.push('\n') + b;
    if b.len() == 0 {
        assert(s =~= a.push('\n'));
    } else if b.last() != '\n' {
        assert(s.drop_last() =~= a.push('\n') + b.drop_last());
        lemma_line_start_behind(a, b.drop_last());
    }
}

proof fn lemma_no_line_feed(a: Seq<char>)
    requires
        forall|i: int| 0 <= i < a.len() ==> a[i] != '\n',
    ensures
        lines::line_start(a) == 0,
    decreases a.len(),
{
    if a.len() > 0 {
        assert(a[a.len() - 1] != '\n');
        lemma_no_line_feed(a.drop_last());
    }
}

/// The first line of a text ends at its first line feed, without a carriage
/// return before it; the other lines are those of what is behind.
pub proof fn law_lines_part_at_line_feeds(a: Seq<char>, b: Seq<char>)
    requires
        forall|i: int| 0 <= i < a.len() ==> a[i] != '\n',
    ensures
        lines::lines(a.push('\n') + b) == seq![
            if a.len() > 0 && a.last() == '\r' {
                a.drop_last()
            } else {
                a
            },
        ] + lines::lines(b),
    decreases b.len(),
{
    let s = a.push('\n') + b;
    let first = if a.len() > 0 && a.last() == '\r' {
        a.drop_last()
    } else {
        a
    };
    if b.len() == 0 {
        assert(s =~= a.push('\n'));
        assert(s.drop_last() =~= a);
        lemma_no_line_feed(a);
        assert(s.take(0) =~= Seq::empty());
        assert(a.skip(0) =~= a);
        assert(lines::lines(Seq::<char>::empty()) =~= Seq::empty());
        assert(lines::lines(s) =~= seq![first] + lines::lines(b));
    } else if b.last() == '\n' {
        let body = b.drop_last();
        lemma_line_start_behind(a, body);
        let n = lines::line_start(body) as int;
        assert(s.drop_last() =~= a.push('\n') + body);
        let at = lines::line_start(s.drop_last()) as int;
        assert(s.take(at) =~= a.push('\n') + b.take(n));
        assert(s.drop_last().skip(at) =~= body.skip(n));
        law_lines_part_at_line_feeds(a, b.take(n));
        assert(lines::lines(s) =~= seq![first] + lines::lines(b));
    } else {
        lemma_line_start_behind(a, b);
        let n = lines::line_start(b) as int;
        let at = lines::line_start(s) as int;
        assert(s.take(at) =~= a.push('\n') + b.take(n));
        assert(s.skip(at) =~= b.skip(n));
        law_lines_part_at_line_feeds(a, b.take(n));
        assert(lines::lines(s) =~= seq![first] + lines::lines(b));
    }
}

/// A text without a line feed is one line as it stands, and an empty text none.
pub proof fn law_text_without_line_feed_is_one_line(a: Seq<char>)
    requires
        forall|i: int| 0 <= i < a.len() ==> a[i] != '\n',
    ensures
        a.len() > 0 ==> lines::lines(a) == seq![a],
        a.len() == 0 ==> lines::lines(a).len() == 0,
{
    if a.len() > 0 {
        assert(a[a.len() - 1] != '\n');
        lemma_no_line_feed(a);
        assert(a.take(0) =~= Seq::empty());
        assert(a.skip(0) =~= a);
        assert(lines::lines(Seq::<char>::empty()) =~= Seq::empty());
        assert(lines::lines(a) =~= seq![a]);
    }
}

/// The line is a lease of the address.
pub open spec fn leases_ip(line: Seq<char>, ip: Seq<char>) -> bool {
    name_files::lease_of(line) matches Some(lease) && lease.ip == ip
}

/// The line is a lease of the hardware address, which is in lower case.
pub open spec fn leases_mac(line: Seq<char>, mac: Seq<char>) -> bool {
    name_files::lease_of(line) matches Some(lease) && text::unicode_lowercase(lease.mac) == mac
}

/// The last line of the list with a property.
pub open spec fn is_last(l: Seq<Seq<char>>, j: int, with: spec_fn(Seq<char>) -> bool) -> bool {
    &&& 0 <= j < l.len()
    &&& with(l[j])
    &&& forall|k: int| j < k < l.len() ==> !with(#[trigger] l[k])
}

proof fn lemma_last_of_more(l: Seq<Seq<char>>, with: spec_fn(Seq<char>) -> bool, j: int)
    requires
        l.len() > 0,
    ensures
        !with(l.last()) ==> (is_last(l.drop_last(), j, with) ==> is_last(l, j, with)),
        with(l.last()) ==> is_last(l, l.len() - 1, with),
{
    let rest = l.drop_last();
    if !with(l.last()) && is_last(rest, j, with) {
        assert forall|k: int| j < k < l.len() implies !with(#[trigger] l[k]) by {
            if k < rest.len() {
                assert(!with(rest[k]));
            }
        }
    }
}

/// The names of a lease file: an address, or a hardware address in lower case,
/// has a name exactly where a line leases it, and that of the last such line.
pub proof fn law_leased_name_is_that_of_the_last_line(l: Seq<Seq<char>>, key: Seq<char>)
    ensures
        ({
            let n = name_files::lease_names(l);
            let of_ip = |line: Seq<char>| leases_ip(line, key);
            let of_mac = |line: Seq<char>| leases_mac(line, key);
            &&& n.by_ip.contains_key(key) <==> exists|j: int|
                0 <= j < l.len() && leases_ip(#[trigger] l[j], key)
            &&& n.by_ip.contains_key(key) ==> exists|j: int| #[trigger]
                is_last(l, j, of_ip) && n.by_ip[key] == name_files::lease_of(l[j])->0.hostname
            &&& n.by_mac.contains_key(key) <==> exists|j: int|
                0 <= j < l.len() && leases_mac(#[trigger] l[j], key)
            &&& n.by_mac.contains_key(key) ==> exists|j: int| #[trigger]
                is_last(l, j, of_mac) && n.by_mac[key] == name_files::lease_of(l[j])->0.hostname
        }),
    decreases l.len(),
{
    let of_ip = |line: Seq<char>| leases_ip(line, key);
    let of_mac = |line: Seq<char>| leases_mac(line, key);
    if l.len() > 0 {
        let rest = l.drop_last();
        let n = name_files::lease_names(l);
        let before = name_files::lease_names(rest);
        law_leased_name_is_that_of_the_last_line(rest, key);
        assert(l[l.len() - 1] == l.last());
        assert forall|j: int| 0 <= j < rest.len() implies #[trigger] rest[j] == l[j] by {
        }
        if before.by_ip.contains_key(key) {
            let j = choose|j: int| #[trigger]
                is_last(rest, j, of_ip) && before.by_ip[key] == name_files::lease_of(
                    rest[j],
                )->0.hostname;
            lemma_last_of_more(l, of_ip, j);
            assert(leases_ip(l[j], key));
        } else {
            lemma_last_of_more(l, of_ip, 0);
        }
        if before.by_mac.contains_key(key) {
            let j = choose|j: int| #[trigger]
                is_last(rest, j, of_mac) && before.by_mac[key] == name_files::lease_of(
                    rest[j],
                )->0.hostname;
            lemma_last_of_more(l, of_mac, j);
            assert(leases_mac(l[j], key));
        } else {
            lemma_last_of_more(l, of_mac, 0);
        }
        if exists|j: int| 0 <= j < l.len() && leases_ip(#[trigger] l[j], key) {
            let j = choose|j: int| 0 <= j < l.len() && leases_ip(#[trigger] l[j], key);
            if j < rest.len() {
                assert(leases_ip(rest[j], key));
            }
        }
        if exists|j: int| 0 <= j < l.len() && leases_mac(#[trigger] l[j], key) {
            let j = choose|j: int| 0 <= j < l.len() && leases_mac(#[trigger] l[j], key);
            if j < rest.len() {
                assert(leases_mac(rest[j], key));
            }
        }
    }
}

/// The line names the address by hand.
pub open spec fn names_ip(line: Seq<char>, ip: Seq<char>) -> bool {
    name_files::manual_of(line) matches Some(entry) && !entry.0.contains(':') && entry.0 == ip
}

/// The line names the hardware address, which is in lower case, by hand.
pub open spec fn names_mac(line: Seq<char>, mac: Seq<char>) -> bool {
    name_files::manual_of(line) matches Some(entry) && entry.0.contains(':')
        && text::unicode_lowercase(entry.0) == mac
}

/// The names of a map file: an address, or a hardware address in lower case,
/// has a name exactly where a line names it, and that of the last such line.
pub proof fn law_manual_name_is_that_of_the_last_line(l: Seq<Seq<char>>, key: Seq<char>)
    ensures
        ({
            let n = name_files::manual_names(l);
            let of_ip = |line: Seq<char>| names_ip(line, key);
            let of_mac = |line: Seq<char>| names_mac(line, key);
            &&& n.by_ip.contains_key(key) <==> exists|j: int|
                0 <= j < l.len() && names_ip(#[trigger] l[j], key)
            &&& n.by_ip.contains_key(key) ==> exists|j: int| #[trigger]
                is_last(l, j, of_ip) && n.by_ip[key] == (name_files::manual_of(l[j])->0).1
            &&& n.by_mac.contains_key(key) <==> exists|j: int|
                0 <= j < l.len() && names_mac(#[trigger] l[j], key)
            &&& n.by_mac.contains_key(key) ==> exists|j: int| #[trigger]
                is_last(l, j, of_mac) && n.by_mac[key] == (name_files::manual_of(l[j])->0).1
        }),
    decreases l.len(),
{
    let of_ip = |line: Seq<char>| names_ip(line, key);
    let of_mac = |line: Seq<char>| names_mac(line, key);
    if l.len() > 0 {
        let rest = l.drop_last();
        let n = name_files::manual_names(l);
        let before = name_files::manual_names(rest);
        law_manual_name_is_that_of_the_last_line(rest, key);
        assert(l[l.len() - 1] == l.last());
        if name_files::manual_of(l.last()) is Some {
            let k = (name_files::manual_of(l.last())->0).0;
            assert(name_files::holds(k, ':') <==> k.contains(':'));
        }
        assert forall|j: int| 0 <= j < rest.len() implies #[trigger] rest[j] == l[j] by {
        }
        if before.by_ip.contains_key(key) {
            let j = choose|j: int| #[trigger]
                is_last(rest, j, of_ip) && before.by_ip[key] == (name_files::manual_of(rest[j])->0).1;
            lemma_last_of_more(l, of_ip, j);
            assert(names_ip(l[j], key));
        } else {
            lemma_last_of_more(l, of_ip, 0);
        }
        if before.by_mac.contains_key(key) {
            let j = choose|j: int| #[trigger]
                is_last(rest, j, of_mac) && before.by_mac[key] == (name_files::manual_of(rest[j])->0).1;
            lemma_last_of_more(l, of_mac, j);
            assert(names_mac(l[j], key));
        } else {
            lemma_last_of_more(l, of_mac, 0);
        }
        if exists|j: int| 0 <= j < l.len() && names_ip(#[trigger] l[j], key) {
            let j = choose|j: int| 0 <= j < l.len() && names_ip(#[trigger] l[j], key);
            if j < rest.len() {
                assert(names_ip(rest[j], key));
            }
        }
        if exists|j: int| 0 <= j < l.len() && names_mac(#[trigger] l[j], key) {
            let j = choose|j: int| 0 <= j < l.len() && names_mac(#[trigger] l[j], key);
            if j < rest.len() {
                assert(names_mac(rest[j], key));
            }
        }
    }
}

} // verus!
