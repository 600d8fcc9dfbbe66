//! Deriving the checksum file's request URL from a coordinate, and
//! classifying the repository's answer.
//!
//! The request URL is
//! `{repository}/{groupPath}/{artifactId}/{version}/{stem}.{extension}`:
//! the group path is the group id with every dot replaced by a slash, the
//! stem is `{artifactId}-{version}` with `-{classifier}` appended when a
//! classifier is present, and the extension is `{packaging or jar}.{algorithm}`.
//! Segments are joined by exactly one slash, whatever trailing slashes the
//! repository value carries.

use vstd::prelude::*;

verus! {

use crate::checksum::Algorithm;
use crate::{opt_view, MavenCoordinates};

/// The group id as a path: every dot becomes a slash.
pub open spec fn dots_to_slashes(s: Seq<char>) -> Seq<char> {
    s.map_values(
        |c: char|
            if c == '.' {
                '/'
            } else {
                c
            },
    )
}

/// The input without its trailing slashes.
pub open spec fn strip_trailing_slashes(s: Seq<char>) -> Seq<char>
    decreases s.len(),
{
    if s.len() > 0 && s.last() == '/' {
        strip_trailing_slashes(s.drop_last())
    } else {
        s
    }
}

/// The artifact file stem: `artifactId-version`, with `-classifier`
/// appended when a classifier is present.
pub open spec fn stem_text(coord: MavenCoordinates) -> Seq<char> {
    coord.artifact_id@ + seq!['-'] + coord.version@ + match opt_view(coord.classifier) {
        Some(cl) => seq!['-'] + cl,
        None => Seq::empty(),
    }
}

/// The checksum file's extension: the packaging (`jar` when absent),
/// a dot, then the algorithm's name.
pub open spec fn extension_text(coord: MavenCoordinates, algorithm: Algorithm) -> Seq<char> {
    (match opt_view(coord.packaging) {
        Some(p) => p,
        None => seq!['j', 'a', 'r'],
    }) + seq!['.'] + algorithm.spec_name()
}

/// The checksum file's path below the repository root:
/// `groupPath/artifactId/version/stem.extension`.
pub open spec fn artifact_path_text(coord: MavenCoordinates, algorithm: Algorithm) -> Seq<char> {
    dots_to_slashes(coord.group_id@) + seq!['/'] + coord.artifact_id@ + seq!['/'] + coord.version@
        + seq!['/'] + stem_text(coord) + seq!['.'] + extension_text(coord, algorithm)
}

/// The full request URL: the repository base, stripped of trailing
/// slashes, one slash, then the artifact path.
pub open spec fn checksum_url_text(
    repository: Seq<char>,
    coord: MavenCoordinates,
    algorithm: Algorithm,
) -> Seq<char> {
    strip_trailing_slashes(repository) + seq!['/'] + artifact_path_text(coord, algorithm)
}

/// Why no checksum came back from the repository.
#[derive(Clone, Copy, Debug, PartialEq, Eq, Structural)]
pub enum FetchError {
    /// The server answered with a status outside the 2xx range.
    HttpStatus(u16),
}

/// Builds the group path by replacing every dot with a slash: stretches
/// between dots are copied whole, each dot becomes a slash.
fn group_path(group_id: &str) -> (r: String)
    ensures
        r@ == dots_to_slashes(group_id@),
{
    proof {
        reveal_strlit("/");
    }
    let g = group_id;
    let n = g.unicode_len();
    let mut r = String::new();
    let mut start: usize = 0;
    let mut i: usize = 0;
    while i < n
        invariant
            g@ == group_id@,
            n == g@.len(),
            0 <= start <= i <= n,
            "/"@ == seq!['/'],
            r@ == dots_to_slashes(g@.subrange(0, start as int)),
            forall|j: int| start <= j < i ==> #[trigger] g@[j] != '.',
        decreases n - i,
    {
        let ch = g.get_char(i);
        if ch == '.' {
            r.append(g.substring_char(start, i));
            r.append("/");
            proof {
                assert(r@ =~= dots_to_slashes(g@.subrange(0, i + 1)));
            }
            start = i + 1;
        }
        i = i + 1;
    }
    r.append(g.substring_char(start, n));
    proof {
        assert(r@ =~= dots_to_slashes(g@));
    }
    r
}

/// Copies the repository base without its trailing slashes.
fn strip_slashes(repository: &str) -> (r: String)
    ensures
        r@ == strip_trailing_slashes(repository@),
{
    let n = repository.unicode_len();
    let mut end: usize = n;
    proof {
        assert(repository@.subrange(0, n as int) =~= repository@);
    }
    while end > 0 && repository.get_char(end - 1) == '/'
        invariant
            n == repository@.len(),
            0 <= end <= n,
            strip_trailing_slashes(repository@.subrange(0, end as int)) == strip_trailing_slashes(
                repository@,
            ),
        decreases end,
    {
        proof {
            assert(repository@.subrange(0, end as int).drop_last() =~= repository@.subrange(
                0,
                end - 1,
            ));
        }
        end = end - 1;
    }
    repository.substring_char(0, end).to_owned()
}

impl MavenCoordinates {
    /// Composes the URL of the artifact's checksum file under the given
    /// repository base, for the given algorithm.
    #[verifier::rlimit(50)]
    pub fn checksum_url(&self, repository: &str, algorithm: &Algorithm) -> (r: String)
        ensures
            r@ == checksum_url_text(repository@, *self, *algorithm),
    {
        proof {
            reveal_strlit("/");
            reveal_strlit("-");
            reveal_strlit(".");
            reveal_strlit("jar");
        }
        let mut r = strip_slashes(repository);
        r.append("/");
        let gp = group_path(self.group_id.as_str());
        r.append(gp.as_str());
        r.append("/");
        r.append(self.artifact_id.as_str());
        r.append("/");
        r.append(self.version.as_str());
        r.append("/");
        r.append(self.artifact_id.as_str());
        r.append("-");
        r.append(self.version.as_str());
        match &self.classifier {
            Some(cl) => {
                r.append("-");
                r.append(cl.as_str());
            },
            None => {},
        }
        r.append(".");
        match &self.packaging {
            Some(p) => r.append(p.as_str()),
            None => r.append("jar"),
        }
        r.append(".");
        r.append(algorithm.name());
        proof {
            assert(r@ =~= checksum_url_text(repository@, *self, *algorithm));
        }
        r
    }

    /// The diagnostic for an artifact the repository does not have: it
    /// names the coordinate string that was asked for.
    pub fn not_found_message(&self) -> (r: String)
        ensures
            r@ == "Couldn't find artifact: "@ + self.text(),
    {
        let mut r = String::new();
        r.append("Couldn't find artifact: ");
        let rendered = self.render();
        r.append(rendered.as_str());
        proof {
            assert(r@ =~= "Couldn't find artifact: "@ + self.text());
        }
        r
    }
}

/// The character for one decimal digit.
pub open spec fn digit_char(d: nat) -> char {
    if d == 0 {
        '0'
    } else if d == 1 {
        '1'
    } else if d == 2 {
        '2'
    } else if d == 3 {
        '3'
    } else if d == 4 {
        '4'
    } else if d == 5 {
        '5'
    } else if d == 6 {
        '6'
    } else if d == 7 {
        '7'
    } else if d == 8 {
        '8'
    } else {
        '9'
    }
}

/// The decimal rendering of a number, most significant digit first.
pub open spec fn decimal_text(n: nat) -> Seq<char>
    decreases n,
{
    if n < 10 {
        seq![digit_char(n)]
    } else {
        decimal_text(n / 10).push(digit_char(n % 10))
    }
}

/// Renders one decimal digit.
fn digit(d: u16) -> (r: &'static str)
    requires
        d < 10,
    ensures
        r@ == seq![digit_char(d as nat)],
{
    proof {
        reveal_strlit("0");
        reveal_strlit("1");
        reveal_strlit("2");
        reveal_strlit("3");
        reveal_strlit("4");
        reveal_strlit("5");
        reveal_strlit("6");
        reveal_strlit("7");
        reveal_strlit("8");
        reveal_strlit("9");
        assert("0"@ =~= seq!['0']);
        assert("1"@ =~= seq!['1']);
        assert("2"@ =~= seq!['2']);
        assert("3"@ =~= seq!['3']);
        assert("4"@ =~= seq!['4']);
        assert("5"@ =~= seq!['5']);
        assert("6"@ =~= seq!['6']);
        assert("7"@ =~= seq!['7']);
        assert("8"@ =~= seq!['8']);
        assert("9"@ =~= seq!['9']);
    }
    match d {
        0 => "0",
        1 => "1",
        2 => "2",
        3 => "3",
        4 => "4",
        5 => "5",
        6 => "6",
        7 => "7",
        8 => "8",
        _ => "9",
    }
}

/// Renders a number in decimal.
fn decimal_string(x: u16) -> (r: String)
    ensures
        r@ == decimal_text(x as nat),
    decreases x,
{
    if x < 10 {
        let mut r = String::new();
        r.append(digit(x));
        proof {
            assert(r@ =~= decimal_text(x as nat));
        }
        r
    } else {
        let mut r = decimal_string(x / 10);
        r.append(digit(x % 10));
        proof {
            assert(r@ =~= decimal_text(x as nat));
        }
        r
    }
}

/// The single diagnostic line for a fetch failure: an artifact the server
/// does not have (status 404) names the coordinate that was asked for,
/// any other rejected status is reported with its code.
pub open spec fn fetch_error_text(error: FetchError, coord: MavenCoordinates) -> Seq<char> {
    match error {
        FetchError::HttpStatus(code) => if code == 404 {
            "Couldn't find artifact: "@ + coord.text()
        } else {
            "Server rejected request with HTTP status "@ + decimal_text(code as nat)
        },
    }
}

impl FetchError {
    /// Renders the failure's diagnostic line for the coordinate that was
    /// being resolved.
    pub fn message(&self, coordinates: &MavenCoordinates) -> (r: String)
        ensures
            r@ == fetch_error_text(*self, *coordinates),
    {
        match self {
            FetchError::HttpStatus(code) => {
                if *code == 404 {
                    coordinates.not_found_message()
                } else {
                    let mut r = String::new();
                    r.append("Server rejected request with HTTP status ");
                    let digits = decimal_string(*code);
                    r.append(digits.as_str());
                    proof {
                        assert(r@ =~= fetch_error_text(*self, *coordinates));
                    }
                    r
                }
            },
        }
    }
}

/// Decides what a response means: a 2xx status hands the body through as
/// the published checksum text, any other status is a remote rejection
/// carrying that status code.
pub fn classify_response(status: u16, body: String) -> (r: Result<String, FetchError>)
    ensures
        200 <= status < 300 ==> r == Ok::<String, FetchError>(body),
        !(200 <= status < 300) ==> r == Err::<String, FetchError>(FetchError::HttpStatus(status)),
{
    if 200 <= status && status < 300 {
        Ok(body)
    } else {
        Err(FetchError::HttpStatus(status))
    }
}

} // verus!
