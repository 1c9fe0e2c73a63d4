//! Lint of proposed WAL schema terms: no application nouns, no authority
//! leaks, and no record name that claims a commit.
use vstd::prelude::*;
use vstd::string::*;
use crate::order::bytes_eq;

verus! {

/// WAL schema lint errors.
#[derive(Clone, Debug, PartialEq, Eq)]
pub enum WalSchemaLintError {
    /// Forbidden app noun.
    ForbiddenAppNoun {
        /// Schema term.
        term: String,
        /// Forbidden noun.
        forbidden: String,
    },
    /// Forbidden authority leak.
    ForbiddenAuthorityLeak {
        /// Schema term.
        term: String,
        /// Forbidden authority leak term.
        forbidden: String,
    },
    /// Record kind name implies commit before transaction commit.
    RecordNameImpliesCommit {
        /// Schema term.
        term: String,
    },
}

/// `t` occurs in `s` as a contiguous run of bytes.
pub open spec fn contains_bytes(s: Seq<u8>, t: Seq<u8>) -> bool {
    exists|k: int| 0 <= k && k + t.len() <= s.len() && #[trigger] s.subrange(k, k + t.len()) == t
}

/// Whether `t` occurs in `s` as a contiguous run of bytes.
pub fn bytes_contain(s: &[u8], t: &[u8]) -> (r: bool)
    ensures
        r == contains_bytes(s@, t@),
{
    if t.len() > s.len() {
        return false;
    }
    let mut k: usize = 0;
    let last = s.len() - t.len();
    while k <= last
        invariant
            t@.len() <= s@.len(),
            last == s@.len() - t@.len(),
            forall|q: int| 0 <= q < k ==> #[trigger] s@.subrange(q, q + t@.len()) != t@,
        decreases s.len() - k,
    {
        let mut j: usize = 0;
        let mut same = true;
        while j < t.len()
            invariant
                k <= last,
                last == s@.len() - t@.len(),
                last + t@.len() == s.len(),
                t@.len() <= s@.len(),
                j <= t@.len(),
                same == (forall|x: int| 0 <= x < j ==> s@[k + x] == t@[x]),
            decreases t.len() - j,
        {
            if s[k + j] != t[j] {
                same = false;
            }
            j += 1;
        }
        if same {
            assert(s@.subrange(k as int, k + t@.len()) =~= t@);
            return true;
        }
        assert(s@.subrange(k as int, k + t@.len()) != t@) by {
            let x = choose|x: int| 0 <= x < t@.len() && s@[k + x] != t@[x];
            assert(s@.subrange(k as int, k + t@.len())[x] == s@[k + x]);
        }
        k += 1;
    }
    assert forall|q: int| 0 <= q && q + t@.len() <= s@.len() implies #[trigger] s@.subrange(q, q + t@.len()) != t@ by {
        assert(q < k);
    }
    false
}

/// Authority terms no schema term may contain.
pub open spec fn leak_terms() -> Seq<&'static str> {
    seq!["AppTick", "ApplicationReceipt", "ClientRuntimeControl", "DocumentStateDelta"]
}

fn leak_terms_exec() -> (r: Vec<&'static str>)
    ensures
        r@ == leak_terms(),
{
    vec!["AppTick", "ApplicationReceipt", "ClientRuntimeControl", "DocumentStateDelta"]
}

/// First entry of `list` from `j` occurring in the term.
pub open spec fn first_forbidden(term: &str, list: Seq<&'static str>, j: int) -> Option<&'static str>
    decreases list.len() - j,
{
    if j < 0 || j >= list.len() {
        None
    } else if contains_bytes(term.spec_bytes(), list[j].spec_bytes()) {
        Some(list[j])
    } else {
        first_forbidden(term, list, j + 1)
    }
}

/// What is wrong with one term, if anything: an application noun (`1`),
/// an authority leak (`2`), or a commit claim (`3`), with the offending word.
pub open spec fn term_finding(term: &str, forbidden: Seq<&'static str>) -> Option<(u8, Seq<char>)> {
    match first_forbidden(term, forbidden, 0) {
        Some(f) => Some((1u8, f@)),
        None => match first_forbidden(term, leak_terms(), 0) {
            Some(f) => Some((2u8, f@)),
            None => if contains_bytes(term.spec_bytes(), "Committed".spec_bytes()) && term.spec_bytes()
                != "WalTransactionCommit".spec_bytes() {
                Some((3u8, term@))
            } else {
                None
            },
        },
    }
}

/// First term, from `i`, with a finding, and the finding.
pub open spec fn lint_spec(terms: Seq<&str>, forbidden: Seq<&'static str>, i: int) -> Option<(int, u8, Seq<char>)>
    decreases terms.len() - i,
{
    if i < 0 || i >= terms.len() {
        None
    } else {
        match term_finding(terms[i], forbidden) {
            Some((c, w)) => Some((i, c, w)),
            None => lint_spec(terms, forbidden, i + 1),
        }
    }
}

fn find_forbidden(term: &str, list: &[&'static str]) -> (r: Option<&'static str>)
    ensures
        r == first_forbidden(term, list@, 0),
{
    let tb = term.as_bytes();
    let mut j: usize = 0;
    while j < list.len()
        invariant
            j <= list@.len(),
            tb@ == term.spec_bytes(),
            first_forbidden(term, list@, 0) == first_forbidden(term, list@, j as int),
        decreases list.len() - j,
    {
        if bytes_contain(tb, list[j].as_bytes()) {
            return Some(list[j]);
        }
        j += 1;
    }
    None
}

/// Lints proposed WAL schema terms: the first term with an application noun
/// from `forbidden_app_terms`, an authority leak, or a name that claims a
/// commit (other than the commit marker itself) is the error.
pub fn lint_wal_schema_terms(terms: &[&str], forbidden_app_terms: &[&'static str]) -> (r: Result<(), WalSchemaLintError>)
    ensures
        match lint_spec(terms@, forbidden_app_terms@, 0) {
            None => r is Ok,
            Some((i, c, w)) => match r {
                Ok(_) => false,
                Err(WalSchemaLintError::ForbiddenAppNoun { term, forbidden }) => c == 1 && term@ == terms@[i]@
                    && forbidden@ == w,
                Err(WalSchemaLintError::ForbiddenAuthorityLeak { term, forbidden }) => c == 2 && term@ == terms@[i]@
                    && forbidden@ == w,
                Err(WalSchemaLintError::RecordNameImpliesCommit { term }) => c == 3 && term@ == terms@[i]@ && w
                    == terms@[i]@,
            },
        },
{
    let leaks = leak_terms_exec();
    let mut i: usize = 0;
    while i < terms.len()
        invariant
            i <= terms@.len(),
            leaks@ == leak_terms(),
            lint_spec(terms@, forbidden_app_terms@, 0) == lint_spec(terms@, forbidden_app_terms@, i as int),
        decreases terms.len() - i,
    {
        let term = terms[i];
        match find_forbidden(term, forbidden_app_terms) {
            Some(f) => {
                return Err(WalSchemaLintError::ForbiddenAppNoun { term: term.to_owned(), forbidden: f.to_owned() });
            },
            None => {},
        }
        match find_forbidden(term, leaks.as_slice()) {
            Some(f) => {
                return Err(WalSchemaLintError::ForbiddenAuthorityLeak { term: term.to_owned(), forbidden: f.to_owned() });
            },
            None => {},
        }
        let tb = term.as_bytes();
        if bytes_contain(tb, "Committed".as_bytes()) && !bytes_eq(tb, "WalTransactionCommit".as_bytes()) {
            return Err(WalSchemaLintError::RecordNameImpliesCommit { term: term.to_owned() });
        }
        i += 1;
    }
    Ok(())
}

} // verus!
