//! Maven artifact coordinates: parsing and checksum-file URL derivation.
//!
//! A coordinate string has the anchored form
//! `groupId:artifactId[:packaging[:classifier]]:version`, where each field
//! is a non-empty run of word characters, dots, hyphens and underscores.
//! The segment count decides which optional fields are present: three
//! segments leave packaging and classifier out, four add a packaging,
//! five add a classifier as well.

use vstd::prelude::*;

pub mod checksum;
pub mod fetch;
pub mod grammar;

verus! {

use crate::grammar::{
    colon_count,
    coordinate_text,
    is_word_char,
    lemma_decompose3,
    lemma_decompose4,
    lemma_decompose5,
    lemma_parses_to_colon_count,
    lemma_rejects_bad_char,
    lemma_rejects_colon_count,
    opt_segment,
    parses_to,
    valid_coordinate,
    valid_segment,
};

/// A parsed Maven coordinates record.
#[derive(Clone, Debug)]
pub struct MavenCoordinates {
    pub group_id: String,
    pub artifact_id: String,
    pub packaging: Option<String>,
    pub classifier: Option<String>,
    pub version: String,
}

/// Why a coordinate string was rejected.
#[derive(Clone, Copy, Debug, PartialEq, Eq, Structural)]
pub enum ParseError {
    /// The string does not match the coordinate grammar: wrong segment
    /// count, an empty segment, or a disallowed character.
    Malformed,
}

/// The field views of an optional owned field.
pub open spec fn opt_view(o: Option<String>) -> Option<Seq<char>> {
    match o {
        Some(s) => Some(s@),
        None => None,
    }
}

/// The field views of an optional borrowed field.
pub open spec fn opt_str_view(o: Option<&str>) -> Option<Seq<char>> {
    match o {
        Some(s) => Some(s@),
        None => None,
    }
}

impl MavenCoordinates {
    /// The record's fields are well formed: every present field is a valid
    /// segment, and a classifier never appears without a packaging.
    pub open spec fn wf(self) -> bool {
        &&& valid_segment(self.group_id@)
        &&& valid_segment(self.artifact_id@)
        &&& opt_segment(opt_view(self.packaging))
        &&& opt_segment(opt_view(self.classifier))
        &&& valid_segment(self.version@)
        &&& (self.classifier is Some ==> self.packaging is Some)
    }

    /// The coordinate string this record renders to.
    pub open spec fn text(self) -> Seq<char> {
        coordinate_text(
            self.group_id@,
            self.artifact_id@,
            opt_view(self.packaging),
            opt_view(self.classifier),
            self.version@,
        )
    }

    /// This record is the (unique) decomposition of the string `s`.
    pub open spec fn parsed_from(self, s: Seq<char>) -> bool {
        parses_to(
            s,
            self.group_id@,
            self.artifact_id@,
            opt_view(self.packaging),
            opt_view(self.classifier),
            self.version@,
        )
    }

    /// Constructs a `MavenCoordinates` record from its five fields.
    pub fn new(
        group_id: &str,
        artifact_id: &str,
        packaging: Option<&str>,
        classifier: Option<&str>,
        version: &str,
    ) -> (r: MavenCoordinates)
        ensures
            r.group_id@ == group_id@,
            r.artifact_id@ == artifact_id@,
            opt_view(r.packaging) == opt_str_view(packaging),
            opt_view(r.classifier) == opt_str_view(classifier),
            r.version@ == version@,
    {
        MavenCoordinates {
            group_id: group_id.to_owned(),
            artifact_id: artifact_id.to_owned(),
            packaging: match packaging {
                Some(p) => Some(p.to_owned()),
                None => None,
            },
            classifier: match classifier {
                Some(c) => Some(c.to_owned()),
                None => None,
            },
            version: version.to_owned(),
        }
    }

    /// Parses a coordinate string.
    ///
    /// The grammar, matched against the whole string, is
    /// `groupId:artifactId[:packaging[:classifier]]:version`, each field a
    /// non-empty run of word characters, dots, hyphens and underscores.
    /// On success the returned record is the unique decomposition of the
    /// input; every string that the grammar accepts is parsed, and every
    /// other string is rejected as malformed.
    pub fn parse(maven_coordinates: &str) -> (r: Result<MavenCoordinates, ParseError>)
        ensures
            match r {
                Ok(coord) => coord.parsed_from(maven_coordinates@),
                Err(e) => !valid_coordinate(maven_coordinates@) && e == ParseError::Malformed,
            },
    {
        let s = maven_coordinates;
        let n = s.unicode_len();
        let mut colons: Vec<usize> = Vec::new();
        let mut i: usize = 0;
        while i < n
            invariant
                s@ == maven_coordinates@,
                n == s@.len(),
                0 <= i <= n,
                colon_count(s@.subrange(0, i as int)) == colons@.len(),
                forall|k: int| 0 <= k < colons@.len() ==> #[trigger] colons@[k] < i,
                forall|k: int| 0 <= k < colons@.len() ==> s@[#[trigger] colons@[k] as int] == ':',
                forall|k1: int, k2: int|
                    0 <= k1 < k2 < colons@.len() ==> #[trigger] colons@[k1] < #[trigger] colons@[k2],
                forall|j: int|
                    0 <= j < i && #[trigger] s@[j] == ':' ==> exists|k: int|
                        0 <= k < colons@.len() && #[trigger] colons@[k] == j,
                forall|j: int| 0 <= j < i ==> (#[trigger] s@[j] == ':' || is_word_char(s@[j])),
            decreases n - i,
        {
            let ch = s.get_char(i);
            if ch == ':' {
                let ghost before = colons@;
                colons.push(i);
                proof {
                    assert forall|j: int| 0 <= j <= i && #[trigger] s@[j] == ':' implies exists|
                        k: int,
                    | 0 <= k < colons@.len() && #[trigger] colons@[k] == j by {
                        if j == i {
                            assert(colons@[colons@.len() - 1] == j);
                        } else {
                            let k = choose|k: int| 0 <= k < before.len() && before[k] == j;
                            assert(colons@[k] == j);
                        }
                    }
                }
            } else if !word_char(ch) {
                proof {
                    assert(s@[i as int] == ch);
                    assert(!is_word_char(s@[i as int]));
                    lemma_rejects_bad_char(s@, i as int);
                    assert(!valid_coordinate(maven_coordinates@));
                }
                return Err(ParseError::Malformed);
            }
            proof {
                assert(s@.subrange(0, i + 1).drop_last() =~= s@.subrange(0, i as int));
            }
            i = i + 1;
        }
        proof {
            assert(s@.subrange(0, n as int) =~= s@);
        }
        if colons.len() == 2 {
            let p0 = colons[0];
            let p1 = colons[1];
            proof {
                assert forall|j: int| 0 <= j < n && #[trigger] s@[j] == ':' implies (j == p0 || j
                    == p1) by {
                    let k = choose|k: int| 0 <= k < colons@.len() && colons@[k] == j;
                    assert(k == 0 || k == 1);
                }
            }
            finish3(s, n, p0, p1)
        } else if colons.len() == 3 {
            let p0 = colons[0];
            let p1 = colons[1];
            let p2 = colons[2];
            proof {
                assert forall|j: int| 0 <= j < n && #[trigger] s@[j] == ':' implies (j == p0 || j
                    == p1 || j == p2) by {
                    let k = choose|k: int| 0 <= k < colons@.len() && colons@[k] == j;
                    assert(k == 0 || k == 1 || k == 2);
                }
            }
            finish4(s, n, p0, p1, p2)
        } else if colons.len() == 4 {
            let p0 = colons[0];
            let p1 = colons[1];
            let p2 = colons[2];
            let p3 = colons[3];
            proof {
                assert forall|j: int| 0 <= j < n && #[trigger] s@[j] == ':' implies (j == p0 || j
                    == p1 || j == p2 || j == p3) by {
                    let k = choose|k: int| 0 <= k < colons@.len() && colons@[k] == j;
                    assert(k == 0 || k == 1 || k == 2 || k == 3);
                }
            }
            finish5(s, n, p0, p1, p2, p3)
        } else {
            proof {
                lemma_rejects_colon_count(s@);
            }
            Err(ParseError::Malformed)
        }
    }

    /// Renders the record back to its coordinate string,
    /// `groupId:artifactId[:packaging[:classifier]]:version`.
    pub fn render(&self) -> (r: String)
        ensures
            r@ == self.text(),
    {
        proof {
            reveal_strlit(":");
        }
        let mut r = String::new();
        r.append(self.group_id.as_str());
        r.append(":");
        r.append(self.artifact_id.as_str());
        match &self.packaging {
            Some(p) => {
                r.append(":");
                r.append(p.as_str());
            },
            None => {},
        }
        match &self.classifier {
            Some(c) => {
                r.append(":");
                r.append(c.as_str());
            },
            None => {},
        }
        r.append(":");
        r.append(self.version.as_str());
        proof {
            assert(r@ =~= self.text());
        }
        r
    }
}

/// Completes a parse whose input holds exactly two colons, at `p0` and
/// `p1`: three segments, so packaging and classifier are absent.
fn finish3(s: &str, n: usize, p0: usize, p1: usize) -> (r: Result<MavenCoordinates, ParseError>)
    requires
        n == s@.len(),
        p0 < p1 < n,
        s@[p0 as int] == ':',
        s@[p1 as int] == ':',
        forall|j: int| 0 <= j < n && #[trigger] s@[j] == ':' ==> (j == p0 || j == p1),
        forall|j: int| 0 <= j < n ==> (#[trigger] s@[j] == ':' || is_word_char(s@[j])),
        colon_count(s@) == 2,
    ensures
        match r {
            Ok(coord) => coord.parsed_from(s@),
            Err(e) => !valid_coordinate(s@) && e == ParseError::Malformed,
        },
{
    if p0 >= 1 && p1 - p0 >= 2 && n - p1 >= 2 {
        let coord = MavenCoordinates {
            group_id: s.substring_char(0, p0).to_owned(),
            artifact_id: s.substring_char(p0 + 1, p1).to_owned(),
            packaging: None,
            classifier: None,
            version: s.substring_char(p1 + 1, n).to_owned(),
        };
        proof {
            let sv = s@;
            let gv = coord.group_id@;
            let av = coord.artifact_id@;
            let vv = coord.version@;
            assert forall|j: int| 0 <= j < gv.len() implies is_word_char(#[trigger] gv[j]) by {
                assert(gv[j] == sv[j]);
            }
            assert forall|j: int| 0 <= j < av.len() implies is_word_char(#[trigger] av[j]) by {
                assert(av[j] == sv[p0 + 1 + j]);
            }
            assert forall|j: int| 0 <= j < vv.len() implies is_word_char(#[trigger] vv[j]) by {
                assert(vv[j] == sv[p1 + 1 + j]);
            }
            let t = coordinate_text(gv, av, None, None, vv);
            assert forall|j: int| 0 <= j < sv.len() implies #[trigger] t[j] == sv[j] by {
                if j < p0 {
                    assert(t[j] == gv[j]);
                } else if j == p0 {
                    assert(t[j] == ':');
                } else if j < p1 {
                    assert(t[j] == av[j - p0 - 1]);
                } else if j == p1 {
                    assert(t[j] == ':');
                } else {
                    assert(t[j] == vv[j - p1 - 1]);
                }
            }
            assert(t =~= sv);
        }
        Ok(coord)
    } else {
        proof {
            if valid_coordinate(s@) {
                let (g, a, p, c, v) = choose|
                    g: Seq<char>,
                    a: Seq<char>,
                    p: Option<Seq<char>>,
                    c: Option<Seq<char>>,
                    v: Seq<char>,
                | parses_to(s@, g, a, p, c, v);
                lemma_parses_to_colon_count(s@, g, a, p, c, v);
                assert(p is None && c is None);
                lemma_decompose3(s@, g, a, v);
                let q0 = g.len() as int;
                let q1 = (g.len() + a.len() + 1) as int;
                assert(s@[q0] == ':');
                assert(s@[q1] == ':');
                assert(q0 == p0 && q1 == p1);
                assert(v.len() == n - p1 - 1);
                assert(false);
            }
        }
        Err(ParseError::Malformed)
    }
}

/// Completes a parse whose input holds exactly three colons, at `p0`,
/// `p1` and `p2`: four segments, so a packaging is present and the
/// classifier is absent.
fn finish4(s: &str, n: usize, p0: usize, p1: usize, p2: usize) -> (r: Result<
    MavenCoordinates,
    ParseError,
>)
    requires
        n == s@.len(),
        p0 < p1 < p2 < n,
        s@[p0 as int] == ':',
        s@[p1 as int] == ':',
        s@[p2 as int] == ':',
        forall|j: int| 0 <= j < n && #[trigger] s@[j] == ':' ==> (j == p0 || j == p1 || j == p2),
        forall|j: int| 0 <= j < n ==> (#[trigger] s@[j] == ':' || is_word_char(s@[j])),
        colon_count(s@) == 3,
    ensures
        match r {
            Ok(coord) => coord.parsed_from(s@),
            Err(e) => !valid_coordinate(s@) && e == ParseError::Malformed,
        },
{
    if p0 >= 1 && p1 - p0 >= 2 && p2 - p1 >= 2 && n - p2 >= 2 {
        let coord = MavenCoordinates {
            group_id: s.substring_char(0, p0).to_owned(),
            artifact_id: s.substring_char(p0 + 1, p1).to_owned(),
            packaging: Some(s.substring_char(p1 + 1, p2).to_owned()),
            classifier: None,
            version: s.substring_char(p2 + 1, n).to_owned(),
        };
        proof {
            let sv = s@;
            let gv = coord.group_id@;
            let av = coord.artifact_id@;
            let pv = coord.packaging.unwrap()@;
            let vv = coord.version@;
            assert forall|j: int| 0 <= j < gv.len() implies is_word_char(#[trigger] gv[j]) by {
                assert(gv[j] == sv[j]);
            }
            assert forall|j: int| 0 <= j < av.len() implies is_word_char(#[trigger] av[j]) by {
                assert(av[j] == sv[p0 + 1 + j]);
            }
            assert forall|j: int| 0 <= j < pv.len() implies is_word_char(#[trigger] pv[j]) by {
                assert(pv[j] == sv[p1 + 1 + j]);
            }
            assert forall|j: int| 0 <= j < vv.len() implies is_word_char(#[trigger] vv[j]) by {
                assert(vv[j] == sv[p2 + 1 + j]);
            }
            let t = coordinate_text(gv, av, Some(pv), None, vv);
            assert forall|j: int| 0 <= j < sv.len() implies #[trigger] t[j] == sv[j] by {
                if j < p0 {
                    assert(t[j] == gv[j]);
                } else if j == p0 {
                    assert(t[j] == ':');
                } else if j < p1 {
                    assert(t[j] == av[j - p0 - 1]);
                } else if j == p1 {
                    assert(t[j] == ':');
                } else if j < p2 {
                    assert(t[j] == pv[j - p1 - 1]);
                } else if j == p2 {
                    assert(t[j] == ':');
                } else {
                    assert(t[j] == vv[j - p2 - 1]);
                }
            }
            assert(t =~= sv);
        }
        Ok(coord)
    } else {
        proof {
            if valid_coordinate(s@) {
                let (g, a, p, c, v) = choose|
                    g: Seq<char>,
                    a: Seq<char>,
                    p: Option<Seq<char>>,
                    c: Option<Seq<char>>,
                    v: Seq<char>,
                | parses_to(s@, g, a, p, c, v);
                lemma_parses_to_colon_count(s@, g, a, p, c, v);
                assert(p is Some && c is None);
                match p {
                    Some(pk) => {
                        lemma_decompose4(s@, g, a, pk, v);
                        let q0 = g.len() as int;
                        let q1 = (g.len() + a.len() + 1) as int;
                        let q2 = (g.len() + a.len() + pk.len() + 2) as int;
                        assert(s@[q0] == ':');
                        assert(s@[q1] == ':');
                        assert(s@[q2] == ':');
                        assert(q0 == p0 && q1 == p1 && q2 == p2);
                        assert(v.len() == n - p2 - 1);
                        assert(false);
                    },
                    None => {},
                }
            }
        }
        Err(ParseError::Malformed)
    }
}

/// Completes a parse whose input holds exactly four colons, at `p0`
/// through `p3`: five segments, so packaging and classifier are both
/// present.
#[verifier::rlimit(50)]
fn finish5(s: &str, n: usize, p0: usize, p1: usize, p2: usize, p3: usize) -> (r: Result<
    MavenCoordinates,
    ParseError,
>)
    requires
        n == s@.len(),
        p0 < p1 < p2 < p3 < n,
        s@[p0 as int] == ':',
        s@[p1 as int] == ':',
        s@[p2 as int] == ':',
        s@[p3 as int] == ':',
        forall|j: int|
            0 <= j < n && #[trigger] s@[j] == ':' ==> (j == p0 || j == p1 || j == p2 || j == p3),
        forall|j: int| 0 <= j < n ==> (#[trigger] s@[j] == ':' || is_word_char(s@[j])),
        colon_count(s@) == 4,
    ensures
        match r {
            Ok(coord) => coord.parsed_from(s@),
            Err(e) => !valid_coordinate(s@) && e == ParseError::Malformed,
        },
{
    if p0 >= 1 && p1 - p0 >= 2 && p2 - p1 >= 2 && p3 - p2 >= 2 && n - p3 >= 2 {
        let coord = MavenCoordinates {
            group_id: s.substring_char(0, p0).to_owned(),
            artifact_id: s.substring_char(p0 + 1, p1).to_owned(),
            packaging: Some(s.substring_char(p1 + 1, p2).to_owned()),
            classifier: Some(s.substring_char(p2 + 1, p3).to_owned()),
            version: s.substring_char(p3 + 1, n).to_owned(),
        };
        proof {
            let sv = s@;
            let gv = coord.group_id@;
            let av = coord.artifact_id@;
            let pv = coord.packaging.unwrap()@;
            let cv = coord.classifier.unwrap()@;
            let vv = coord.version@;
            assert forall|j: int| 0 <= j < gv.len() implies is_word_char(#[trigger] gv[j]) by {
                assert(gv[j] == sv[j]);
            }
            assert forall|j: int| 0 <= j < av.len() implies is_word_char(#[trigger] av[j]) by {
                assert(av[j] == sv[p0 + 1 + j]);
            }
            assert forall|j: int| 0 <= j < pv.len() implies is_word_char(#[trigger] pv[j]) by {
                assert(pv[j] == sv[p1 + 1 + j]);
            }
            assert forall|j: int| 0 <= j < cv.len() implies is_word_char(#[trigger] cv[j]) by {
                assert(cv[j] == sv[p2 + 1 + j]);
            }
            assert forall|j: int| 0 <= j < vv.len() implies is_word_char(#[trigger] vv[j]) by {
                assert(vv[j] == sv[p3 + 1 + j]);
            }
            let t = coordinate_text(gv, av, Some(pv), Some(cv), vv);
            assert forall|j: int| 0 <= j < sv.len() implies #[trigger] t[j] == sv[j] by {
                if j < p0 {
                    assert(t[j] == gv[j]);
                } else if j == p0 {
                    assert(t[j] == ':');
                } else if j < p1 {
                    assert(t[j] == av[j - p0 - 1]);
                } else if j == p1 {
                    assert(t[j] == ':');
                } else if j < p2 {
                    assert(t[j] == pv[j - p1 - 1]);
                } else if j == p2 {
                    assert(t[j] == ':');
                } else if j < p3 {
                    assert(t[j] == cv[j - p2 - 1]);
                } else if j == p3 {
                    assert(t[j] == ':');
                } else {
                    assert(t[j] == vv[j - p3 - 1]);
                }
            }
            assert(t =~= sv);
        }
        Ok(coord)
    } else {
        proof {
            if valid_coordinate(s@) {
                let (g, a, p, c, v) = choose|
                    g: Seq<char>,
                    a: Seq<char>,
                    p: Option<Seq<char>>,
                    c: Option<Seq<char>>,
                    v: Seq<char>,
                | parses_to(s@, g, a, p, c, v);
                lemma_parses_to_colon_count(s@, g, a, p, c, v);
                assert(p is Some && c is Some);
                match (p, c) {
                    (Some(pk), Some(cf)) => {
                        lemma_decompose5(s@, g, a, pk, cf, v);
                        let q0 = g.len() as int;
                        let q1 = (g.len() + a.len() + 1) as int;
                        let q2 = (g.len() + a.len() + pk.len() + 2) as int;
                        let q3 = (g.len() + a.len() + pk.len() + cf.len() + 3) as int;
                        assert(s@[q0] == ':');
                        assert(s@[q1] == ':');
                        assert(s@[q2] == ':');
                        assert(s@[q3] == ':');
                        assert(q0 == p0 && q1 == p1 && q2 == p2 && q3 == p3);
                        assert(v.len() == n - p3 - 1);
                        assert(false);
                    },
                    _ => {},
                }
            }
        }
        Err(ParseError::Malformed)
    }
}

/// True exactly when `c` may appear inside a coordinate segment.
fn word_char(c: char) -> (b: bool)
    ensures
        b == is_word_char(c),
{
    ('a' <= c && c <= 'z') || ('A' <= c && c <= 'Z') || ('0' <= c && c <= '9') || c == '.'
        || c == '-' || c == '_'
}

impl PartialEq for MavenCoordinates {
    /// Two records are equal when all five fields hold the same text.
    fn eq(&self, other: &Self) -> (r: bool) {
        let packaging_eq = match (&self.packaging, &other.packaging) {
            (Some(x), Some(y)) => *x == *y,
            (None, None) => true,
            _ => false,
        };
        let classifier_eq = match (&self.classifier, &other.classifier) {
            (Some(x), Some(y)) => *x == *y,
            (None, None) => true,
            _ => false,
        };
        self.group_id == other.group_id && self.artifact_id == other.artifact_id && packaging_eq
            && classifier_eq && self.version == other.version
    }
}

impl vstd::std_specs::cmp::PartialEqSpecImpl for MavenCoordinates {
    open spec fn obeys_eq_spec() -> bool {
        true
    }

    open spec fn eq_spec(&self, other: &Self) -> bool {
        &&& self.group_id@ == other.group_id@
        &&& self.artifact_id@ == other.artifact_id@
        &&& opt_view(self.packaging) == opt_view(other.packaging)
        &&& opt_view(self.classifier) == opt_view(other.classifier)
        &&& self.version@ == other.version@
    }
}

} // verus!
