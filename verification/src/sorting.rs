use crate::paths::ascii_lower;
use crate::text::{append_chars, chars_of, skip, string_of, take, trim, trim_ws};
use vstd::prelude::*;

verus! {

/// `a` and `b` are equal when ASCII letters are compared without case.
pub open spec fn eq_ignore_ascii_case(a: Seq<char>, b: Seq<char>) -> bool {
    a.len() == b.len() && forall|i: int| 0 <= i < a.len() ==> ascii_lower(#[trigger] a[i])
        == ascii_lower(b[i])
}

/// `s` starts with `prefix`, ASCII letters compared without case.
pub open spec fn starts_with_ci(s: Seq<char>, prefix: Seq<char>) -> bool {
    s.len() >= prefix.len() && eq_ignore_ascii_case(s.take(prefix.len() as int), prefix)
}

/// `rest` followed by `, ` and `word`.
pub open spec fn moved_to_end(rest: Seq<char>, word: Seq<char>) -> Seq<char> {
    rest + seq![',', ' '] + word
}

/// Calibre-compatible conservative English title sort: a leading `the `,
/// `an ` or `a ` (any case) moves to the end as `, the`, `, an` or `, a`.
pub open spec fn title_sort_spec(title: Seq<char>) -> Seq<char> {
    let t = trim_ws(title);
    if starts_with_ci(t, seq!['t', 'h', 'e', ' ']) {
        moved_to_end(t.skip(4), seq!['t', 'h', 'e'])
    } else if starts_with_ci(t, seq!['a', 'n', ' ']) {
        moved_to_end(t.skip(3), seq!['a', 'n'])
    } else if starts_with_ci(t, seq!['a', ' ']) {
        moved_to_end(t.skip(2), seq!['a'])
    } else {
        t
    }
}

/// A character is the letter `lower` in either case.
pub open spec fn letter_either_case(c: char, lower: char, upper: char) -> bool {
    c == lower || c == upper
}

proof fn lemma_lower_is(c: char, lower: char, upper: char)
    requires
        'a' <= lower <= 'z',
        (upper as u32) + 32 == lower as u32,
    ensures
        (ascii_lower(c) == lower) <==> letter_either_case(c, lower, upper),
        (ascii_lower(c) == ' ') <==> c == ' ',
{
    if 'A' <= c <= 'Z' {
        assert(((c as u32) + 32) as char as u32 == (c as u32) + 32);
    }
}

/// The title sort of a title moves a leading English article, in any case,
/// to its end: once the title is trimmed, `a ` followed by a rest gives the
/// rest then `, a`; `an ` gives the rest then `, an`; `the ` gives the rest
/// then `, the`; a title with none of these prefixes is only trimmed.
pub proof fn lemma_title_sort_moves_leading_article(title: Seq<char>)
    ensures
        ({
            let t = trim_ws(title);
            let the = t.len() >= 4 && letter_either_case(t[0], 't', 'T') && letter_either_case(
                t[1],
                'h',
                'H',
            ) && letter_either_case(t[2], 'e', 'E') && t[3] == ' ';
            let an = t.len() >= 3 && letter_either_case(t[0], 'a', 'A') && letter_either_case(
                t[1],
                'n',
                'N',
            ) && t[2] == ' ';
            let a = t.len() >= 2 && letter_either_case(t[0], 'a', 'A') && t[1] == ' ';
            &&& the ==> title_sort_spec(title) == t.subrange(4, t.len() as int) + ", the"@
            &&& an ==> title_sort_spec(title) == t.subrange(3, t.len() as int) + ", an"@
            &&& a ==> title_sort_spec(title) == t.subrange(2, t.len() as int) + ", a"@
            &&& !the && !an && !a ==> title_sort_spec(title) == t
        }),
{
    reveal_strlit(", the");
    reveal_strlit(", an");
    reveal_strlit(", a");
    let t = trim_ws(title);
    if t.len() >= 1 {
        lemma_lower_is(t[0], 't', 'T');
        lemma_lower_is(t[0], 'a', 'A');
    }
    if t.len() >= 2 {
        lemma_lower_is(t[1], 'h', 'H');
        lemma_lower_is(t[1], 'n', 'N');
    }
    if t.len() >= 3 {
        lemma_lower_is(t[2], 'e', 'E');
        lemma_lower_is(t[2], 'e', 'E');
    }
    if t.len() >= 4 {
        lemma_lower_is(t[3], 'e', 'E');
    }
    let the_p = seq!['t', 'h', 'e', ' '];
    let an_p = seq!['a', 'n', ' '];
    let a_p = seq!['a', ' '];
    if t.len() >= 4 {
        let w = t.take(4);
        assert(w[0] == t[0] && w[1] == t[1] && w[2] == t[2] && w[3] == t[3]);
        assert(starts_with_ci(t, the_p) <==> (letter_either_case(t[0], 't', 'T')
            && letter_either_case(t[1], 'h', 'H') && letter_either_case(t[2], 'e', 'E') && t[3]
            == ' ')) by {
            if letter_either_case(t[0], 't', 'T') && letter_either_case(t[1], 'h', 'H')
                && letter_either_case(t[2], 'e', 'E') && t[3] == ' ' {
                assert forall|i: int| 0 <= i < 4 implies ascii_lower(#[trigger] w[i]) == ascii_lower(
                    the_p[i],
                ) by {
                    if i == 3 {
                        lemma_lower_is(t[3], 'e', 'E');
                    }
                }
            }
            if starts_with_ci(t, the_p) {
                assert(ascii_lower(w[0]) == ascii_lower(the_p[0]));
                assert(ascii_lower(w[1]) == ascii_lower(the_p[1]));
                assert(ascii_lower(w[2]) == ascii_lower(the_p[2]));
                assert(ascii_lower(w[3]) == ascii_lower(the_p[3]));
                lemma_lower_is(t[3], 'e', 'E');
            }
        }
    }
    if t.len() >= 3 {
        let w = t.take(3);
        assert(w[0] == t[0] && w[1] == t[1] && w[2] == t[2]);
        assert(starts_with_ci(t, an_p) <==> (letter_either_case(t[0], 'a', 'A')
            && letter_either_case(t[1], 'n', 'N') && t[2] == ' ')) by {
            if letter_either_case(t[0], 'a', 'A') && letter_either_case(t[1], 'n', 'N') && t[2]
                == ' ' {
                assert forall|i: int| 0 <= i < 3 implies ascii_lower(#[trigger] w[i]) == ascii_lower(
                    an_p[i],
                ) by {}
            }
            if starts_with_ci(t, an_p) {
                assert(ascii_lower(w[0]) == ascii_lower(an_p[0]));
                assert(ascii_lower(w[1]) == ascii_lower(an_p[1]));
                assert(ascii_lower(w[2]) == ascii_lower(an_p[2]));
            }
        }
    }
    if t.len() >= 2 {
        let w = t.take(2);
        assert(w[0] == t[0] && w[1] == t[1]);
        lemma_lower_is(t[1], 'a', 'A');
        assert(starts_with_ci(t, a_p) <==> (letter_either_case(t[0], 'a', 'A') && t[1] == ' ')) by {
            if letter_either_case(t[0], 'a', 'A') && t[1] == ' ' {
                assert forall|i: int| 0 <= i < 2 implies ascii_lower(#[trigger] w[i]) == ascii_lower(
                    a_p[i],
                ) by {}
            }
            if starts_with_ci(t, a_p) {
                assert(ascii_lower(w[0]) == ascii_lower(a_p[0]));
                assert(ascii_lower(w[1]) == ascii_lower(a_p[1]));
            }
        }
    }
    assert(t.skip(4) =~= t.subrange(4, t.len() as int));
    assert(t.skip(3) =~= t.subrange(3, t.len() as int));
    assert(t.skip(2) =~= t.subrange(2, t.len() as int));
    assert(moved_to_end(t.skip(4), seq!['t', 'h', 'e']) =~= t.subrange(4, t.len() as int) + ", the"@);
    assert(moved_to_end(t.skip(3), seq!['a', 'n']) =~= t.subrange(3, t.len() as int) + ", an"@);
    assert(moved_to_end(t.skip(2), seq!['a']) =~= t.subrange(2, t.len() as int) + ", a"@);
}

fn lower_ascii_char(c: char) -> (r: char)
    ensures
        r == ascii_lower(c),
{
    if 'A' <= c && c <= 'Z' {
        let v = vec![c];
        let l = crate::paths::to_ascii_lower(&v);
        assert(l@[0] == ascii_lower(v@[0]));
        l[0]
    } else {
        c
    }
}

/// Whether `s` starts with the lower-case `prefix`, ignoring ASCII case.
fn starts_with_ignore_case(s: &Vec<char>, prefix: &str) -> (r: bool)
    ensures
        r == starts_with_ci(s@, prefix@),
{
    let p = chars_of(prefix);
    if s.len() < p.len() {
        return false;
    }
    let mut i: usize = 0;
    while i < p.len()
        invariant
            p@ == prefix@,
            p.len() <= s.len(),
            i <= p.len(),
            forall|j: int| 0 <= j < i ==> ascii_lower(#[trigger] s@[j]) == ascii_lower(p@[j]),
        decreases p.len() - i,
    {
        if lower_ascii_char(s[i]) != lower_ascii_char(p[i]) {
            assert(!eq_ignore_ascii_case(s@.take(p.len() as int), p@)) by {
                assert(s@.take(p.len() as int)[i as int] == s@[i as int]);
            }
            return false;
        }
        i = i + 1;
    }
    assert(eq_ignore_ascii_case(s@.take(p.len() as int), p@)) by {
        assert forall|j: int| 0 <= j < p.len() implies ascii_lower(
            #[trigger] s@.take(p.len() as int)[j],
        ) == ascii_lower(p@[j]) by {
            assert(s@.take(p.len() as int)[j] == s@[j]);
        }
    }
    true
}

fn move_to_end(t: &Vec<char>, n: usize, word: &str) -> (r: String)
    requires
        n <= t.len(),
    ensures
        r@ == moved_to_end(t@.skip(n as int), word@),
{
    let mut out = skip(t, n);
    out.push(',');
    out.push(' ');
    append_chars(&mut out, &chars_of(word));
    string_of(&out)
}

/// Conservative English title sort (see [`title_sort_spec`]).
pub fn conservative_title_sort(title: &str) -> (r: String)
    ensures
        r@ == title_sort_spec(title@),
{
    let t = trim(&chars_of(title));
    proof {
        reveal_strlit("the ");
        reveal_strlit("an ");
        reveal_strlit("a ");
        reveal_strlit("the");
        reveal_strlit("an");
        reveal_strlit("a");
        assert("the "@ =~= seq!['t', 'h', 'e', ' ']);
        assert("an "@ =~= seq!['a', 'n', ' ']);
        assert("a "@ =~= seq!['a', ' ']);
        assert("the"@ =~= seq!['t', 'h', 'e']);
        assert("an"@ =~= seq!['a', 'n']);
        assert("a"@ =~= seq!['a']);
    }
    if starts_with_ignore_case(&t, "the ") {
        move_to_end(&t, 4, "the")
    } else if starts_with_ignore_case(&t, "an ") {
        move_to_end(&t, 3, "an")
    } else if starts_with_ignore_case(&t, "a ") {
        move_to_end(&t, 2, "a")
    } else {
        string_of(&t)
    }
}

/// The position just after the last space of `s` (0 when it has none).
pub open spec fn space_end(s: Seq<char>) -> int
    decreases s.len(),
{
    if s.len() == 0 {
        0
    } else if s.last() == ' ' {
        s.len() as int
    } else {
        space_end(s.drop_last())
    }
}

proof fn lemma_space_end_bounds(s: Seq<char>)
    ensures
        0 <= space_end(s) <= s.len(),
        space_end(s) > 0 ==> s[space_end(s) - 1] == ' ',
    decreases s.len(),
{
    if s.len() > 0 && s.last() != ' ' {
        lemma_space_end_bounds(s.drop_last());
        if space_end(s) > 0 {
            assert(s.drop_last()[space_end(s) - 1] == s[space_end(s) - 1]);
        }
    }
}

/// Conservative author sort: the words after the last space come first,
/// followed by `, ` and the words before it (`First Last` becomes
/// `Last, First`). A name without a space is kept as it is.
pub open spec fn author_sort_spec(author: Seq<char>) -> Seq<char> {
    let t = trim_ws(author);
    let j = space_end(t);
    if j == 0 {
        t
    } else {
        moved_to_end(t.skip(j), t.take(j - 1))
    }
}

proof fn lemma_space_end_unspaced_tail(s: Seq<char>, t: Seq<char>)
    requires
        forall|j: int| 0 <= j < t.len() ==> #[trigger] t[j] != ' ',
    ensures
        space_end(s + t) == space_end(s),
    decreases t.len(),
{
    if t.len() == 0 {
        assert(s + t =~= s);
    } else {
        assert((s + t).drop_last() =~= s + t.drop_last());
        assert((s + t).last() == t[t.len() - 1]);
        lemma_space_end_unspaced_tail(s, t.drop_last());
    }
}

/// An author name splits at its last space: once trimmed, a name made of
/// words `first`, a space and a last word without a space is sorted as
/// the last word, `, ` and `first`.
pub proof fn lemma_author_sort_splits_at_last_space(
    author: Seq<char>,
    first: Seq<char>,
    last: Seq<char>,
)
    requires
        trim_ws(author) == first + seq![' '] + last,
        forall|j: int| 0 <= j < last.len() ==> #[trigger] last[j] != ' ',
    ensures
        author_sort_spec(author) == last + ", "@ + first,
{
    reveal_strlit(", ");
    let t = trim_ws(author);
    let head = first + seq![' '];
    assert(t == head + last);
    lemma_space_end_unspaced_tail(head, last);
    assert(head.last() == ' ');
    assert(space_end(head) == head.len());
    assert(t.skip(head.len() as int) =~= last);
    assert(t.take(first.len() as int) =~= first);
    assert(author_sort_spec(author) =~= last + ", "@ + first);
}

/// A name without a space, once trimmed, is its own sort.
pub proof fn lemma_author_sort_single_word(author: Seq<char>)
    requires
        forall|j: int| 0 <= j < trim_ws(author).len() ==> #[trigger] trim_ws(author)[j] != ' ',
    ensures
        author_sort_spec(author) == trim_ws(author),
{
    let t = trim_ws(author);
    lemma_space_end_unspaced_tail(Seq::empty(), t);
    assert(Seq::<char>::empty() + t =~= t);
}

/// Conservative author sort (see [`author_sort_spec`]).
pub fn conservative_author_sort(author: &str) -> (r: String)
    ensures
        r@ == author_sort_spec(author@),
{
    let t = trim(&chars_of(author));
    let mut j: usize = t.len();
    assert(t@.take(j as int) =~= t@);
    while j > 0 && t[j - 1] != ' '
        invariant
            j <= t.len(),
            space_end(t@) == space_end(t@.take(j as int)),
        decreases j,
    {
        assert(t@.take(j as int).drop_last() =~= t@.take(j - 1));
        j = j - 1;
    }
    if j == 0 {
        return string_of(&t);
    }
    let mut out = skip(&t, j);
    out.push(',');
    out.push(' ');
    append_chars(&mut out, &take(&t, j - 1));
    string_of(&out)
}

/// Author sorts joined with ` & `, as Calibre stores a book's author sort.
pub open spec fn joined_author_sort(authors: Seq<Seq<char>>) -> Seq<char>
    decreases authors.len(),
{
    if authors.len() == 0 {
        Seq::empty()
    } else if authors.len() == 1 {
        author_sort_spec(authors[0])
    } else {
        joined_author_sort(authors.drop_last()) + seq![' ', '&', ' '] + author_sort_spec(
            authors.last(),
        )
    }
}

/// The author sort of one author is that author's own sort.
pub proof fn lemma_joined_author_sort_one(author: Seq<char>)
    ensures
        joined_author_sort(seq![author]) == author_sort_spec(author),
{
    assert(seq![author][0] == author);
}

/// The author sort of two runs of authors one after the other is the sort
/// of the first run, ` & `, and the sort of the second: every author is
/// kept, in order.
pub proof fn lemma_joined_author_sort_append(a: Seq<Seq<char>>, b: Seq<Seq<char>>)
    requires
        a.len() > 0,
        b.len() > 0,
    ensures
        joined_author_sort(a + b) == joined_author_sort(a) + " & "@ + joined_author_sort(b),
    decreases b.len(),
{
    reveal_strlit(" & ");
    assert((a + b).drop_last() =~= a + b.drop_last());
    assert((a + b).last() == b.last());
    if b.len() == 1 {
        assert(a + b.drop_last() =~= a);
        assert(b[0] == b.last());
        assert(joined_author_sort(a + b) =~= joined_author_sort(a) + " & "@ + joined_author_sort(b));
    } else {
        lemma_joined_author_sort_append(a, b.drop_last());
        assert(joined_author_sort(a + b) =~= joined_author_sort(a) + " & "@ + joined_author_sort(b));
    }
}

/// The author sort of a book: each author's sort, joined with ` & `.
pub fn book_author_sort(authors: &Vec<String>) -> (r: String)
    ensures
        r@ == joined_author_sort(authors@.map_values(|a: String| a@)),
{
    let ghost names = authors@.map_values(|a: String| a@);
    let mut out: Vec<char> = Vec::new();
    let mut i: usize = 0;
    while i < authors.len()
        invariant
            i <= authors.len(),
            names == authors@.map_values(|a: String| a@),
            out@ == joined_author_sort(names.take(i as int)),
        decreases authors.len() - i,
    {
        let sort = conservative_author_sort(authors[i].as_str());
        if i > 0 {
            out.push(' ');
            out.push('&');
            out.push(' ');
        }
        append_chars(&mut out, &chars_of(sort.as_str()));
        i = i + 1;
        assert(names.take(i as int).drop_last() =~= names.take(i - 1));
        assert(names.take(i as int).last() == authors@[i - 1]@);
        if i == 1 {
            assert(names.take(1)[0] == authors@[0]@);
        }
    }
    assert(names.take(authors.len() as int) =~= names);
    string_of(&out)
}

/// Whether two strings are equal with ASCII letters compared without case.
pub fn equal_ignore_ascii_case(a: &str, b: &str) -> (r: bool)
    ensures
        r == eq_ignore_ascii_case(a@, b@),
{
    let x = crate::paths::to_ascii_lower(&chars_of(a));
    let y = crate::paths::to_ascii_lower(&chars_of(b));
    if x.len() != y.len() {
        return false;
    }
    let mut i: usize = 0;
    while i < x.len()
        invariant
            x@ == a@.map_values(|c: char| ascii_lower(c)),
            y@ == b@.map_values(|c: char| ascii_lower(c)),
            x.len() == y.len(),
            i <= x.len(),
            forall|j: int| 0 <= j < i ==> ascii_lower(#[trigger] a@[j]) == ascii_lower(b@[j]),
        decreases x.len() - i,
    {
        if x[i] != y[i] {
            assert(x@[i as int] == ascii_lower(a@[i as int]));
            return false;
        }
        i = i + 1;
    }
    true
}

} // verus!
