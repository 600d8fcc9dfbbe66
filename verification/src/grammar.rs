//! The coordinate grammar, as mathematics: which character sequences form a
//! valid coordinate, how a coordinate decomposes into segments, and why that
//! decomposition is unique.
//!
//! A coordinate is the join, by single colons, of three to five segments:
//! `groupId:artifactId[:packaging[:classifier]]:version`. Each segment is a
//! non-empty run of word characters (ASCII letters, digits, `.`, `-`, `_`),
//! so a segment can never contain a colon, and the colon positions of a
//! valid coordinate determine its decomposition uniquely.

use vstd::prelude::*;

verus! {

/// The characters a segment may contain: ASCII letters, digits, `.`, `-`, `_`.
pub open spec fn is_word_char(c: char) -> bool {
    ('a' <= c && c <= 'z') || ('A' <= c && c <= 'Z') || ('0' <= c && c <= '9') || c == '.'
        || c == '-' || c == '_'
}

/// A segment is a non-empty run of word characters.
pub open spec fn valid_segment(s: Seq<char>) -> bool {
    s.len() > 0 && forall|i: int| 0 <= i < s.len() ==> is_word_char(#[trigger] s[i])
}

/// How many colons a character sequence contains.
pub open spec fn colon_count(s: Seq<char>) -> nat
    decreases s.len(),
{
    if s.len() == 0 {
        0
    } else {
        colon_count(s.drop_last()) + if s.last() == ':' {
            1nat
        } else {
            0nat
        }
    }
}

/// The text contributed by an optional trailing field: `:field`, or nothing.
pub open spec fn opt_tail(o: Option<Seq<char>>) -> Seq<char> {
    match o {
        Some(f) => seq![':'] + f,
        None => Seq::empty(),
    }
}

/// The full text of a coordinate with the given fields.
pub open spec fn coordinate_text(
    g: Seq<char>,
    a: Seq<char>,
    p: Option<Seq<char>>,
    c: Option<Seq<char>>,
    v: Seq<char>,
) -> Seq<char> {
    g + seq![':'] + a + opt_tail(p) + opt_tail(c) + seq![':'] + v
}

/// An optional field is either absent or a valid segment.
pub open spec fn opt_segment(o: Option<Seq<char>>) -> bool {
    match o {
        Some(f) => valid_segment(f),
        None => true,
    }
}

/// The string `s` decomposes into exactly these coordinate fields.
pub open spec fn parses_to(
    s: Seq<char>,
    g: Seq<char>,
    a: Seq<char>,
    p: Option<Seq<char>>,
    c: Option<Seq<char>>,
    v: Seq<char>,
) -> bool {
    &&& valid_segment(g)
    &&& valid_segment(a)
    &&& opt_segment(p)
    &&& opt_segment(c)
    &&& valid_segment(v)
    &&& (c is Some ==> p is Some)
    &&& s == coordinate_text(g, a, p, c, v)
}

/// The string `s` is a well-formed coordinate: some choice of fields
/// yields exactly `s`.
pub open spec fn valid_coordinate(s: Seq<char>) -> bool {
    exists|g: Seq<char>, a: Seq<char>, p: Option<Seq<char>>, c: Option<Seq<char>>, v: Seq<char>|
        parses_to(s, g, a, p, c, v)
}

/// One for a colon, zero for any other single character.
pub proof fn lemma_colon_count_single(c: char)
    ensures
        colon_count(seq![c]) == if c == ':' {
            1nat
        } else {
            0nat
        },
{
    assert(colon_count(Seq::<char>::empty()) == 0);
    assert(seq![c].drop_last() =~= Seq::<char>::empty());
}

/// Colon counting distributes over concatenation.
pub proof fn lemma_colon_count_concat(x: Seq<char>, y: Seq<char>)
    ensures
        colon_count(x + y) == colon_count(x) + colon_count(y),
    decreases y.len(),
{
    if y.len() == 0 {
        assert(x + y =~= x);
    } else {
        assert((x + y).drop_last() =~= x + y.drop_last());
        assert((x + y).last() == y.last());
        lemma_colon_count_concat(x, y.drop_last());
    }
}

/// A run of word characters contains no colon at all.
pub proof fn lemma_word_chars_no_colon(s: Seq<char>)
    requires
        forall|i: int| 0 <= i < s.len() ==> is_word_char(#[trigger] s[i]),
    ensures
        colon_count(s) == 0,
    decreases s.len(),
{
    if s.len() > 0 {
        lemma_word_chars_no_colon(s.drop_last());
    }
}

/// Whether an optional field is present, as a count.
pub open spec fn present(o: Option<Seq<char>>) -> nat {
    if o is Some {
        1nat
    } else {
        0nat
    }
}

/// A valid coordinate has one colon per boundary: two for three segments,
/// three for four, four for five.
pub proof fn lemma_parses_to_colon_count(
    s: Seq<char>,
    g: Seq<char>,
    a: Seq<char>,
    p: Option<Seq<char>>,
    c: Option<Seq<char>>,
    v: Seq<char>,
)
    requires
        parses_to(s, g, a, p, c, v),
    ensures
        colon_count(s) == 2 + present(p) + present(c),
{
    let col = seq![':'];
    lemma_colon_count_single(':');
    lemma_word_chars_no_colon(g);
    lemma_word_chars_no_colon(a);
    lemma_word_chars_no_colon(v);
    lemma_colon_count_concat(g, col);
    lemma_colon_count_concat(g + col, a);
    lemma_colon_count_concat(g + col + a, opt_tail(p));
    lemma_colon_count_concat(g + col + a + opt_tail(p), opt_tail(c));
    lemma_colon_count_concat(g + col + a + opt_tail(p) + opt_tail(c), col);
    lemma_colon_count_concat(g + col + a + opt_tail(p) + opt_tail(c) + col, v);
    match p {
        Some(f) => {
            lemma_colon_count_concat(col, f);
            lemma_word_chars_no_colon(f);
        },
        None => {},
    }
    match c {
        Some(f) => {
            lemma_colon_count_concat(col, f);
            lemma_word_chars_no_colon(f);
        },
        None => {},
    }
}

/// In a three-segment coordinate the colons stand exactly at the two
/// boundaries, and the fields are the stretches between them.
pub proof fn lemma_decompose3(s: Seq<char>, g: Seq<char>, a: Seq<char>, v: Seq<char>)
    requires
        parses_to(s, g, a, None, None, v),
    ensures
        s.len() == g.len() + a.len() + v.len() + 2,
        forall|j: int|
            0 <= j < s.len() ==> ((#[trigger] s[j] == ':') <==> (j == g.len() || j == g.len()
                + a.len() + 1)),
        forall|j: int| 0 <= j < s.len() ==> (#[trigger] s[j] == ':' || is_word_char(s[j])),
        g == s.subrange(0, g.len() as int),
        a == s.subrange((g.len() + 1) as int, (g.len() + a.len() + 1) as int),
        v == s.subrange((g.len() + a.len() + 2) as int, s.len() as int),
{
    let col = seq![':'];
    let gl = g.len() as int;
    let al = a.len() as int;
    assert(s =~= g + col + a + col + v);
    assert forall|j: int| 0 <= j < s.len() implies ((#[trigger] s[j] == ':') <==> (j == gl || j
        == gl + al + 1)) && (s[j] == ':' || is_word_char(s[j])) by {
        if j < gl {
            assert(s[j] == g[j]);
        } else if j == gl {
            assert(s[j] == ':');
        } else if j < gl + 1 + al {
            assert(s[j] == a[j - gl - 1]);
        } else if j == gl + 1 + al {
            assert(s[j] == ':');
        } else {
            assert(s[j] == v[j - gl - al - 2]);
        }
    }
    assert(g =~= s.subrange(0, gl));
    assert(a =~= s.subrange(gl + 1, gl + al + 1));
    assert(v =~= s.subrange(gl + al + 2, s.len() as int));
}

/// In a four-segment coordinate the colons stand exactly at the three
/// boundaries, and the fields are the stretches between them.
pub proof fn lemma_decompose4(s: Seq<char>, g: Seq<char>, a: Seq<char>, p: Seq<char>, v: Seq<char>)
    requires
        parses_to(s, g, a, Some(p), None, v),
    ensures
        s.len() == g.len() + a.len() + p.len() + v.len() + 3,
        forall|j: int|
            0 <= j < s.len() ==> ((#[trigger] s[j] == ':') <==> (j == g.len() || j == g.len()
                + a.len() + 1 || j == g.len() + a.len() + p.len() + 2)),
        forall|j: int| 0 <= j < s.len() ==> (#[trigger] s[j] == ':' || is_word_char(s[j])),
        g == s.subrange(0, g.len() as int),
        a == s.subrange((g.len() + 1) as int, (g.len() + a.len() + 1) as int),
        p == s.subrange((g.len() + a.len() + 2) as int, (g.len() + a.len() + p.len() + 2) as int),
        v == s.subrange((g.len() + a.len() + p.len() + 3) as int, s.len() as int),
{
    let col = seq![':'];
    let gl = g.len() as int;
    let al = a.len() as int;
    let pl = p.len() as int;
    assert(s =~= g + col + a + col + p + col + v);
    assert forall|j: int| 0 <= j < s.len() implies ((#[trigger] s[j] == ':') <==> (j == gl || j
        == gl + al + 1 || j == gl + al + pl + 2)) && (s[j] == ':' || is_word_char(s[j])) by {
        if j < gl {
            assert(s[j] == g[j]);
        } else if j == gl {
            assert(s[j] == ':');
        } else if j < gl + 1 + al {
            assert(s[j] == a[j - gl - 1]);
        } else if j == gl + 1 + al {
            assert(s[j] == ':');
        } else if j < gl + 2 + al + pl {
            assert(s[j] == p[j - gl - al - 2]);
        } else if j == gl + 2 + al + pl {
            assert(s[j] == ':');
        } else {
            assert(s[j] == v[j - gl - al - pl - 3]);
        }
    }
    assert(g =~= s.subrange(0, gl));
    assert(a =~= s.subrange(gl + 1, gl + al + 1));
    assert(p =~= s.subrange(gl + al + 2, gl + al + pl + 2));
    assert(v =~= s.subrange(gl + al + pl + 3, s.len() as int));
}

/// In a five-segment coordinate the colons stand exactly at the four
/// boundaries, and the fields are the stretches between them.
pub proof fn lemma_decompose5(
    s: Seq<char>,
    g: Seq<char>,
    a: Seq<char>,
    p: Seq<char>,
    c: Seq<char>,
    v: Seq<char>,
)
    requires
        parses_to(s, g, a, Some(p), Some(c), v),
    ensures
        s.len() == g.len() + a.len() + p.len() + c.len() + v.len() + 4,
        forall|j: int|
            0 <= j < s.len() ==> ((#[trigger] s[j] == ':') <==> (j == g.len() || j == g.len()
                + a.len() + 1 || j == g.len() + a.len() + p.len() + 2 || j == g.len() + a.len()
                + p.len() + c.len() + 3)),
        forall|j: int| 0 <= j < s.len() ==> (#[trigger] s[j] == ':' || is_word_char(s[j])),
        g == s.subrange(0, g.len() as int),
        a == s.subrange((g.len() + 1) as int, (g.len() + a.len() + 1) as int),
        p == s.subrange((g.len() + a.len() + 2) as int, (g.len() + a.len() + p.len() + 2) as int),
        c == s.subrange(
            (g.len() + a.len() + p.len() + 3) as int,
            (g.len() + a.len() + p.len() + c.len() + 3) as int,
        ),
        v == s.subrange((g.len() + a.len() + p.len() + c.len() + 4) as int, s.len() as int),
{
    let col = seq![':'];
    let gl = g.len() as int;
    let al = a.len() as int;
    let pl = p.len() as int;
    let cl = c.len() as int;
    assert(s =~= g + col + a + col + p + col + c + col + v);
    assert forall|j: int| 0 <= j < s.len() implies ((#[trigger] s[j] == ':') <==> (j == gl || j
        == gl + al + 1 || j == gl + al + pl + 2 || j == gl + al + pl + cl + 3)) && (s[j] == ':'
        || is_word_char(s[j])) by {
        if j < gl {
            assert(s[j] == g[j]);
        } else if j == gl {
            assert(s[j] == ':');
        } else if j < gl + 1 + al {
            assert(s[j] == a[j - gl - 1]);
        } else if j == gl + 1 + al {
            assert(s[j] == ':');
        } else if j < gl + 2 + al + pl {
            assert(s[j] == p[j - gl - al - 2]);
        } else if j == gl + 2 + al + pl {
            assert(s[j] == ':');
        } else if j < gl + 3 + al + pl + cl {
            assert(s[j] == c[j - gl - al - pl - 3]);
        } else if j == gl + 3 + al + pl + cl {
            assert(s[j] == ':');
        } else {
            assert(s[j] == v[j - gl - al - pl - cl - 4]);
        }
    }
    assert(g =~= s.subrange(0, gl));
    assert(a =~= s.subrange(gl + 1, gl + al + 1));
    assert(p =~= s.subrange(gl + al + 2, gl + al + pl + 2));
    assert(c =~= s.subrange(gl + al + pl + 3, gl + al + pl + cl + 3));
    assert(v =~= s.subrange(gl + al + pl + cl + 4, s.len() as int));
}

/// Every character of a valid coordinate is a colon or a word character.
pub proof fn lemma_coordinate_chars(
    s: Seq<char>,
    g: Seq<char>,
    a: Seq<char>,
    p: Option<Seq<char>>,
    c: Option<Seq<char>>,
    v: Seq<char>,
)
    requires
        parses_to(s, g, a, p, c, v),
    ensures
        forall|j: int| 0 <= j < s.len() ==> (#[trigger] s[j] == ':' || is_word_char(s[j])),
{
    match (p, c) {
        (None, None) => lemma_decompose3(s, g, a, v),
        (Some(pk), None) => lemma_decompose4(s, g, a, pk, v),
        (Some(pk), Some(cf)) => lemma_decompose5(s, g, a, pk, cf, v),
        (None, Some(_)) => {},
    }
}

/// A string holding a character that is neither a colon nor a word
/// character is no coordinate.
pub proof fn lemma_rejects_bad_char(s: Seq<char>, j: int)
    requires
        0 <= j < s.len(),
        s[j] != ':',
        !is_word_char(s[j]),
    ensures
        !valid_coordinate(s),
{
    if valid_coordinate(s) {
        let (g, a, p, c, v) = choose|
            g: Seq<char>,
            a: Seq<char>,
            p: Option<Seq<char>>,
            c: Option<Seq<char>>,
            v: Seq<char>,
        | parses_to(s, g, a, p, c, v);
        lemma_coordinate_chars(s, g, a, p, c, v);
    }
}

/// A string with fewer than two or more than four colons is no coordinate.
pub proof fn lemma_rejects_colon_count(s: Seq<char>)
    requires
        colon_count(s) < 2 || colon_count(s) > 4,
    ensures
        !valid_coordinate(s),
{
    if valid_coordinate(s) {
        let (g, a, p, c, v) = choose|
            g: Seq<char>,
            a: Seq<char>,
            p: Option<Seq<char>>,
            c: Option<Seq<char>>,
            v: Seq<char>,
        | parses_to(s, g, a, p, c, v);
        lemma_parses_to_colon_count(s, g, a, p, c, v);
    }
}

/// The segment count decides the optional fields: three segments mean
/// neither is present, four mean packaging alone, five mean both.
pub proof fn lemma_segment_count_fields(
    s: Seq<char>,
    g: Seq<char>,
    a: Seq<char>,
    p: Option<Seq<char>>,
    c: Option<Seq<char>>,
    v: Seq<char>,
)
    requires
        parses_to(s, g, a, p, c, v),
    ensures
        colon_count(s) == 2 <==> (p is None && c is None),
        colon_count(s) == 3 <==> (p is Some && c is None),
        colon_count(s) == 4 <==> (p is Some && c is Some),
{
    lemma_parses_to_colon_count(s, g, a, p, c, v);
}

/// No valid parse carries a classifier without a packaging.
pub proof fn lemma_classifier_needs_packaging(
    s: Seq<char>,
    g: Seq<char>,
    a: Seq<char>,
    p: Option<Seq<char>>,
    c: Option<Seq<char>>,
    v: Seq<char>,
)
    requires
        parses_to(s, g, a, p, c, v),
        c is Some,
    ensures
        p is Some,
{
}

/// The grammar is unambiguous: a string decomposes into coordinate fields
/// in at most one way. Parsing is therefore a function of the input text.
pub proof fn lemma_parse_unambiguous(
    s: Seq<char>,
    g1: Seq<char>,
    a1: Seq<char>,
    p1: Option<Seq<char>>,
    c1: Option<Seq<char>>,
    v1: Seq<char>,
    g2: Seq<char>,
    a2: Seq<char>,
    p2: Option<Seq<char>>,
    c2: Option<Seq<char>>,
    v2: Seq<char>,
)
    requires
        parses_to(s, g1, a1, p1, c1, v1),
        parses_to(s, g2, a2, p2, c2, v2),
    ensures
        g1 == g2,
        a1 == a2,
        p1 == p2,
        c1 == c2,
        v1 == v2,
{
    lemma_parses_to_colon_count(s, g1, a1, p1, c1, v1);
    lemma_parses_to_colon_count(s, g2, a2, p2, c2, v2);
    match (p1, c1, p2, c2) {
        (None, None, None, None) => {
            lemma_decompose3(s, g1, a1, v1);
            lemma_decompose3(s, g2, a2, v2);
            assert(s[g2.len() as int] == ':');
            assert(s[g1.len() as int] == ':');
            assert(g1.len() == g2.len());
            assert(s[(g2.len() + a2.len() + 1) as int] == ':');
            assert(a1.len() == a2.len());
        },
        (Some(pk1), None, Some(pk2), None) => {
            lemma_decompose4(s, g1, a1, pk1, v1);
            lemma_decompose4(s, g2, a2, pk2, v2);
            assert(s[g2.len() as int] == ':');
            assert(s[g1.len() as int] == ':');
            assert(g1.len() == g2.len());
            assert(s[(g2.len() + a2.len() + 1) as int] == ':');
            assert(s[(g1.len() + a1.len() + 1) as int] == ':');
            assert(a1.len() == a2.len());
            assert(s[(g2.len() + a2.len() + pk2.len() + 2) as int] == ':');
            assert(pk1.len() == pk2.len());
        },
        (Some(pk1), Some(cf1), Some(pk2), Some(cf2)) => {
            lemma_decompose5(s, g1, a1, pk1, cf1, v1);
            lemma_decompose5(s, g2, a2, pk2, cf2, v2);
            assert(s[g2.len() as int] == ':');
            assert(s[g1.len() as int] == ':');
            assert(g1.len() == g2.len());
            assert(s[(g2.len() + a2.len() + 1) as int] == ':');
            assert(s[(g1.len() + a1.len() + 1) as int] == ':');
            assert(a1.len() == a2.len());
            assert(s[(g2.len() + a2.len() + pk2.len() + 2) as int] == ':');
            assert(s[(g1.len() + a1.len() + pk1.len() + 2) as int] == ':');
            assert(pk1.len() == pk2.len());
            assert(s[(g2.len() + a2.len() + pk2.len() + cf2.len() + 3) as int] == ':');
            assert(cf1.len() == cf2.len());
        },
        _ => {},
    }
}

} // verus!
