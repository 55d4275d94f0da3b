//! The on-disk format of the visited list: one URL per line.

use vstd::prelude::*;

verus! {

/// The visited list as text: each URL followed by a newline.
pub open spec fn encode_lines(urls: Seq<Seq<char>>) -> Seq<char>
    decreases urls.len(),
{
    if urls.len() == 0 {
        Seq::empty()
    } else {
        urls[0] + seq!['\n'] + encode_lines(urls.skip(1))
    }
}

/// The lines of `s`: what splitting at each newline yields; a final line
/// without a terminating newline is kept too.
pub open spec fn split_lines(s: Seq<char>) -> Seq<Seq<char>>
    decreases s.len(),
{
    if s.len() == 0 {
        Seq::empty()
    } else if s[0] == '\n' {
        seq![Seq::<char>::empty()] + split_lines(s.skip(1))
    } else {
        let rest = split_lines(s.skip(1));
        if rest.len() == 0 {
            seq![s]
        } else {
            seq![seq![s[0]] + rest[0]] + rest.skip(1)
        }
    }
}

/// Splitting non-empty text yields at least one line.
pub proof fn lemma_split_nonempty(s: Seq<char>)
    requires
        s.len() > 0,
    ensures
        split_lines(s).len() >= 1,
{
}

/// A line without a newline of its own, followed by a newline and arbitrary
/// text, splits off as the first line.
pub proof fn lemma_split_prepend_line(line: Seq<char>, rest: Seq<char>)
    requires
        !line.contains('\n'),
    ensures
        split_lines(line + seq!['\n'] + rest) == seq![line] + split_lines(rest),
    decreases line.len(),
{
    let s = line + seq!['\n'] + rest;
    if line.len() == 0 {
        assert(s =~= seq!['\n'] + rest);
        assert(s[0] == '\n');
        assert(s.skip(1) =~= rest);
        assert(seq![Seq::<char>::empty()] =~~= seq![line]);
        assert(split_lines(s) =~= seq![line] + split_lines(rest));
    } else {
        assert(line[0] != '\n');
        assert(s[0] == line[0]);
        assert(s.skip(1) =~= line.skip(1) + seq!['\n'] + rest);
        assert(!line.skip(1).contains('\n')) by {
            if line.skip(1).contains('\n') {
                let j = choose|j: int| 0 <= j < line.skip(1).len() && line.skip(1)[j] == '\n';
                assert(line[j + 1] == '\n');
            }
        }
        lemma_split_prepend_line(line.skip(1), rest);
        let tail = seq![line.skip(1)] + split_lines(rest);
        assert(split_lines(s.skip(1)) == tail);
        assert(tail.len() >= 1);
        assert(tail[0] == line.skip(1));
        assert(seq![s[0]] + line.skip(1) =~= line);
        assert(tail.skip(1) =~= split_lines(rest));
        assert(split_lines(s) =~= seq![line] + split_lines(rest));
    }
}

/// Appending one newline-terminated line to text that is empty or itself
/// newline-terminated appends exactly one line to the split.
pub proof fn lemma_split_append_line(a: Seq<char>, line: Seq<char>)
    requires
        a.len() == 0 || a.last() == '\n',
        !line.contains('\n'),
    ensures
        split_lines(a + line + seq!['\n']) == split_lines(a).push(line),
    decreases a.len(),
{
    let s = a + line + seq!['\n'];
    if a.len() == 0 {
        assert(s =~= line + seq!['\n'] + Seq::<char>::empty());
        lemma_split_prepend_line(line, Seq::empty());
        assert(split_lines(s) =~= split_lines(a).push(line));
    } else {
        assert(s[0] == a[0]);
        assert(a.skip(1).len() == 0 || a.skip(1).last() == '\n');
        lemma_split_append_line(a.skip(1), line);
        assert(s.skip(1) =~= a.skip(1) + line + seq!['\n']);
        if a[0] == '\n' {
            assert(split_lines(s) =~= split_lines(a).push(line));
        } else {
            assert(a.skip(1).len() > 0);
            lemma_split_nonempty(a.skip(1));
            let r1 = split_lines(a.skip(1));
            assert(split_lines(s.skip(1)) == r1.push(line));
            assert(r1.push(line).len() > 0);
            assert(r1.push(line)[0] == r1[0]);
            assert(r1.push(line).skip(1) =~= r1.skip(1).push(line));
            assert(split_lines(s) =~= split_lines(a).push(line));
        }
    }
}

/// A non-empty line without a newline splits as itself alone.
pub proof fn lemma_split_no_newline(line: Seq<char>)
    requires
        !line.contains('\n'),
        line.len() > 0,
    ensures
        split_lines(line) == seq![line],
    decreases line.len(),
{
    assert(line[0] != '\n');
    if line.len() == 1 {
        assert(line.skip(1) =~= Seq::<char>::empty());
        assert(split_lines(line.skip(1)) =~= Seq::<Seq<char>>::empty());
        assert(split_lines(line) =~= seq![line]);
    } else {
        assert(!line.skip(1).contains('\n')) by {
            if line.skip(1).contains('\n') {
                let j = choose|j: int| 0 <= j < line.skip(1).len() && line.skip(1)[j] == '\n';
                assert(line[j + 1] == '\n');
            }
        }
        lemma_split_no_newline(line.skip(1));
        let rest = split_lines(line.skip(1));
        assert(rest.len() == 1);
        assert(rest[0] == line.skip(1));
        assert(rest.skip(1) =~= Seq::<Seq<char>>::empty());
        assert(split_lines(line) == seq![seq![line[0]] + rest[0]] + rest.skip(1));
        assert(seq![line[0]] + rest[0] =~= line);
        assert(split_lines(line) =~= seq![line]);
    }
}

/// Appending an unterminated final line to text that is empty or
/// newline-terminated appends exactly one line to the split.
pub proof fn lemma_split_append_last(a: Seq<char>, line: Seq<char>)
    requires
        a.len() == 0 || a.last() == '\n',
        !line.contains('\n'),
        line.len() > 0,
    ensures
        split_lines(a + line) == split_lines(a).push(line),
    decreases a.len(),
{
    let s = a + line;
    if a.len() == 0 {
        assert(s =~= line);
        lemma_split_no_newline(line);
        assert(split_lines(s) =~= split_lines(a).push(line));
    } else {
        assert(s[0] == a[0]);
        assert(a.skip(1).len() == 0 || a.skip(1).last() == '\n');
        lemma_split_append_last(a.skip(1), line);
        assert(s.skip(1) =~= a.skip(1) + line);
        if a[0] == '\n' {
            assert(split_lines(s) =~= split_lines(a).push(line));
        } else {
            assert(a.skip(1).len() > 0);
            lemma_split_nonempty(a.skip(1));
            let r1 = split_lines(a.skip(1));
            assert(split_lines(s.skip(1)) == r1.push(line));
            assert(r1.push(line)[0] == r1[0]);
            assert(r1.push(line).skip(1) =~= r1.skip(1).push(line));
            assert(split_lines(s) =~= split_lines(a).push(line));
        }
    }
}

/// Appending one line adds exactly that line to the set of lines.
pub proof fn lemma_push_to_set(s: Seq<Seq<char>>, x: Seq<char>)
    ensures
        s.push(x).to_set() == s.to_set().insert(x),
{
    broadcast use vstd::set::group_set_axioms;

    assert(s.push(x)[s.len() as int] == x);
    assert forall|a: Seq<char>|
        s.push(x).to_set().contains(a) == s.to_set().insert(x).contains(a) by {
        if s.push(x).contains(a) {
            let k = choose|k: int| 0 <= k < s.push(x).len() && s.push(x)[k] == a;
            if k < s.len() {
                assert(s[k] == a);
            }
        }
        if s.contains(a) {
            let k = choose|k: int| 0 <= k < s.len() && s[k] == a;
            assert(s.push(x)[k] == a);
        }
    }
    assert(s.push(x).to_set() =~= s.to_set().insert(x));
}

/// Encoding one more URL appends that URL and a newline to the text.
pub proof fn lemma_encode_push(urls: Seq<Seq<char>>, x: Seq<char>)
    ensures
        encode_lines(urls.push(x)) == encode_lines(urls) + x + seq!['\n'],
    decreases urls.len(),
{
    if urls.len() == 0 {
        assert(urls.push(x).skip(1) =~= Seq::<Seq<char>>::empty());
        assert(encode_lines(urls.push(x).skip(1)) =~= Seq::<char>::empty());
        assert(encode_lines(urls.push(x)) == urls.push(x)[0] + seq!['\n'] + encode_lines(
            urls.push(x).skip(1),
        ));
        assert(encode_lines(urls.push(x)) =~= encode_lines(urls) + x + seq!['\n']);
    } else {
        assert(urls.push(x).skip(1) =~= urls.skip(1).push(x));
        lemma_encode_push(urls.skip(1), x);
        assert(urls.push(x)[0] == urls[0]);
        let e0 = encode_lines(urls.skip(1));
        assert(encode_lines(urls.push(x)) == urls[0] + seq!['\n'] + encode_lines(
            urls.skip(1).push(x),
        ));
        assert(encode_lines(urls.push(x)) == urls[0] + seq!['\n'] + (e0 + x + seq!['\n']));
        assert(encode_lines(urls) == urls[0] + seq!['\n'] + e0);
        assert(urls[0] + seq!['\n'] + (e0 + x + seq!['\n']) =~= (urls[0] + seq!['\n'] + e0) + x
            + seq!['\n']);
        assert(encode_lines(urls.push(x)) == encode_lines(urls) + x + seq!['\n']);
    }
}

/// Persistence round trip, line by line: splitting the encoding of a list
/// of URLs, none of which holds a newline, yields exactly that list.
pub proof fn lemma_lines_round_trip(urls: Seq<Seq<char>>)
    requires
        forall|i: int| 0 <= i < urls.len() ==> !(#[trigger] urls[i]).contains('\n'),
    ensures
        split_lines(encode_lines(urls)) == urls,
    decreases urls.len(),
{
    if urls.len() > 0 {
        assert(forall|i: int|
            0 <= i < urls.skip(1).len() ==> !(#[trigger] urls.skip(1)[i]).contains('\n'));
        lemma_lines_round_trip(urls.skip(1));
        lemma_split_prepend_line(urls[0], encode_lines(urls.skip(1)));
        assert(seq![urls[0]] + urls.skip(1) =~= urls);
    }
}

/// Persistence round trip, as sets: saving the visited list and reloading
/// it yields exactly the same set of URLs, order-independent.  (A URL that
/// holds a newline of its own cannot survive a line-based format and is
/// excluded.)
pub proof fn lemma_round_trip_set(urls: Seq<Seq<char>>)
    requires
        forall|i: int| 0 <= i < urls.len() ==> !(#[trigger] urls[i]).contains('\n'),
    ensures
        split_lines(encode_lines(urls)).to_set() == urls.to_set(),
{
    lemma_lines_round_trip(urls);
}

} // verus!
