//! Checksum values and the closed set of hash algorithms a repository
//! publishes checksum files for.

use vstd::prelude::*;

verus! {

/// The recognized hash algorithms. Each serializes to its lowercase name,
/// used both for command-line selection and as the checksum file's
/// extension in the request URL.
#[derive(Clone, Copy, Debug, PartialEq, Eq, Structural)]
pub enum Algorithm {
    Md5,
    Sha1,
    Sha256,
    Sha384,
    Sha512,
}

impl Algorithm {
    /// The algorithm's lowercase textual name.
    pub open spec fn spec_name(self) -> Seq<char> {
        match self {
            Algorithm::Md5 => seq!['m', 'd', '5'],
            Algorithm::Sha1 => seq!['s', 'h', 'a', '1'],
            Algorithm::Sha256 => seq!['s', 'h', 'a', '2', '5', '6'],
            Algorithm::Sha384 => seq!['s', 'h', 'a', '3', '8', '4'],
            Algorithm::Sha512 => seq!['s', 'h', 'a', '5', '1', '2'],
        }
    }

    /// Serializes the algorithm to its lowercase name.
    pub fn name(&self) -> (r: &'static str)
        ensures
            r@ == self.spec_name(),
    {
        proof {
            reveal_strlit("md5");
            reveal_strlit("sha1");
            reveal_strlit("sha256");
            reveal_strlit("sha384");
            reveal_strlit("sha512");
            assert("md5"@ =~= Algorithm::Md5.spec_name());
            assert("sha1"@ =~= Algorithm::Sha1.spec_name());
            assert("sha256"@ =~= Algorithm::Sha256.spec_name());
            assert("sha384"@ =~= Algorithm::Sha384.spec_name());
            assert("sha512"@ =~= Algorithm::Sha512.spec_name());
        }
        match self {
            Algorithm::Md5 => "md5",
            Algorithm::Sha1 => "sha1",
            Algorithm::Sha256 => "sha256",
            Algorithm::Sha384 => "sha384",
            Algorithm::Sha512 => "sha512",
        }
    }

    /// Reads an algorithm back from its lowercase name. Exactly the five
    /// recognized names are accepted.
    pub fn from_name(s: &str) -> (r: Option<Algorithm>)
        ensures
            match r {
                Some(alg) => s@ == alg.spec_name(),
                None => forall|alg: Algorithm| s@ != #[trigger] alg.spec_name(),
            },
    {
        proof {
            reveal_strlit("md5");
            reveal_strlit("sha1");
            reveal_strlit("sha256");
            reveal_strlit("sha384");
            reveal_strlit("sha512");
            assert("md5"@ =~= Algorithm::Md5.spec_name());
            assert("sha1"@ =~= Algorithm::Sha1.spec_name());
            assert("sha256"@ =~= Algorithm::Sha256.spec_name());
            assert("sha384"@ =~= Algorithm::Sha384.spec_name());
            assert("sha512"@ =~= Algorithm::Sha512.spec_name());
        }
        if str_eq(s, "md5") {
            Some(Algorithm::Md5)
        } else if str_eq(s, "sha1") {
            Some(Algorithm::Sha1)
        } else if str_eq(s, "sha256") {
            Some(Algorithm::Sha256)
        } else if str_eq(s, "sha384") {
            Some(Algorithm::Sha384)
        } else if str_eq(s, "sha512") {
            Some(Algorithm::Sha512)
        } else {
            None
        }
    }

    /// The five recognized algorithm names, in declaration order.
    pub fn variants() -> (r: Vec<&'static str>)
        ensures
            r@.len() == 5,
            r@[0]@ == Algorithm::Md5.spec_name(),
            r@[1]@ == Algorithm::Sha1.spec_name(),
            r@[2]@ == Algorithm::Sha256.spec_name(),
            r@[3]@ == Algorithm::Sha384.spec_name(),
            r@[4]@ == Algorithm::Sha512.spec_name(),
    {
        proof {
            reveal_strlit("md5");
            reveal_strlit("sha1");
            reveal_strlit("sha256");
            reveal_strlit("sha384");
            reveal_strlit("sha512");
            assert("md5"@ =~= Algorithm::Md5.spec_name());
            assert("sha1"@ =~= Algorithm::Sha1.spec_name());
            assert("sha256"@ =~= Algorithm::Sha256.spec_name());
            assert("sha384"@ =~= Algorithm::Sha384.spec_name());
            assert("sha512"@ =~= Algorithm::Sha512.spec_name());
        }
        let mut r: Vec<&'static str> = Vec::new();
        r.push("md5");
        r.push("sha1");
        r.push("sha256");
        r.push("sha384");
        r.push("sha512");
        r
    }
}

/// Character-for-character string comparison.
fn str_eq(a: &str, b: &str) -> (r: bool)
    ensures
        r == (a@ == b@),
{
    let an = a.unicode_len();
    let bn = b.unicode_len();
    if an != bn {
        return false;
    }
    let mut i: usize = 0;
    while i < an
        invariant
            an == a@.len(),
            an == b@.len(),
            0 <= i <= an,
            forall|j: int| 0 <= j < i ==> a@[j] == b@[j],
        decreases an - i,
    {
        if a.get_char(i) != b.get_char(i) {
            return false;
        }
        i += 1;
    }
    proof {
        assert(a@ =~= b@);
    }
    true
}

/// A checksum as published by a repository: the algorithm it was computed
/// with and its textual value.
#[derive(Clone, Debug)]
pub struct Checksum {
    pub algorithm: Algorithm,
    pub value: String,
}

impl Checksum {
    /// Constructs a `Checksum` from an algorithm and its textual value.
    pub fn new(algorithm: Algorithm, value: &str) -> (r: Checksum)
        ensures
            r.algorithm == algorithm,
            r.value@ == value@,
    {
        Checksum { algorithm, value: value.to_owned() }
    }

    /// Renders the checksum as `algorithm:value`.
    pub fn render(&self) -> (r: String)
        ensures
            r@ == self.algorithm.spec_name() + seq![':'] + self.value@,
    {
        proof {
            reveal_strlit(":");
        }
        let mut r = String::new();
        r.append(self.algorithm.name());
        r.append(":");
        r.append(self.value.as_str());
        proof {
            assert(r@ =~= self.algorithm.spec_name() + seq![':'] + self.value@);
        }
        r
    }
}

impl PartialEq for Checksum {
    /// Two checksums are equal when algorithm and value agree.
    fn eq(&self, other: &Self) -> (r: bool) {
        self.algorithm == other.algorithm && self.value == other.value
    }
}

impl vstd::std_specs::cmp::PartialEqSpecImpl for Checksum {
    open spec fn obeys_eq_spec() -> bool {
        true
    }

    open spec fn eq_spec(&self, other: &Self) -> bool {
        self.algorithm == other.algorithm && self.value@ == other.value@
    }
}

} // verus!
