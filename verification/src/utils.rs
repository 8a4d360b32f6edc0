//! The domain part of an email address.
//!
//! The domain of an address is the substring after the first `@`. An address
//! with no `@`, an empty local part or an empty domain has no domain and is
//! unsupported.

use vstd::prelude::*;

use crate::strutil::find_first;

verus! {

/// Index of the first occurrence of `c` in `s`, if any.
pub open spec fn spec_find(s: Seq<char>, c: char) -> Option<int>
    decreases s.len(),
{
    if s.len() == 0 {
        None
    } else if s[0] == c {
        Some(0)
    } else {
        match spec_find(s.drop_first(), c) {
            None => None,
            Some(i) => Some(i + 1),
        }
    }
}

/// `spec_find` returns the first index holding `c`, or `None` when `c` does
/// not occur.
pub proof fn lemma_spec_find(s: Seq<char>, c: char)
    ensures
        match spec_find(s, c) {
            Some(i) => 0 <= i < s.len() && s[i] == c && forall|j: int| 0 <= j < i ==> s[j] != c,
            None => forall|j: int| 0 <= j < s.len() ==> s[j] != c,
        },
    decreases s.len(),
{
    if s.len() > 0 && s[0] != c {
        let d = s.drop_first();
        lemma_spec_find(d, c);
        match spec_find(d, c) {
            Some(i) => {
                assert(s[i + 1] == d[i]);
                assert forall|j: int| 0 <= j < i + 1 implies s[j] != c by {
                    if j > 0 {
                        assert(d[j - 1] != c);
                        assert(s[j] == d[j - 1]);
                    }
                }
            },
            None => {
                assert forall|j: int| 0 <= j < s.len() implies s[j] != c by {
                    if j > 0 {
                        assert(d[j - 1] != c);
                        assert(s[j] == d[j - 1]);
                    }
                }
            },
        }
    }
}

/// The domain of an email address: what follows the first `@`, provided the
/// local part and the domain are both non-empty.
pub open spec fn spec_domain_of(email: Seq<char>) -> Option<Seq<char>> {
    match spec_find(email, '@') {
        None => None,
        Some(i) => if i == 0 || i + 1 == email.len() {
            None
        } else {
            Some(email.subrange(i + 1, email.len() as int))
        },
    }
}

/// Extract the domain of an email address, or `None` when the address has
/// none.
pub fn domain_of(email: &str) -> (r: Option<&str>)
    ensures
        r is Some <==> spec_domain_of(email@) is Some,
        r matches Some(d) ==> Some(d@) == spec_domain_of(email@),
{
    proof {
        lemma_spec_find(email@, '@');
    }
    let n = email.unicode_len();
    match find_first(email, '@') {
        None => {
            proof {
                match spec_find(email@, '@') {
                    Some(i) => {
                        assert(email@[i] == '@');
                    },
                    None => {},
                }
            }
            None
        },
        Some(i) => {
            proof {
                // the first occurrence is unique, so `i` is the index
                // `spec_find` names
                match spec_find(email@, '@') {
                    None => {
                        assert(email@[i as int] != '@');
                    },
                    Some(t) => {
                        if t < i {
                            assert(email@[t] == '@');
                        }
                        if i < t {
                            assert(email@[i as int] != '@');
                        }
                        assert(t == i);
                    },
                }
            }
            if i == 0 || i + 1 == n {
                None
            } else {
                Some(email.substring_char(i + 1, n))
            }
        },
    }
}

/// An email address is valid exactly when it has a domain: an `@` with at
/// least one character on each side.
pub fn validate_email(email: &str) -> (r: bool)
    ensures
        r == (spec_domain_of(email@) is Some),
{
    domain_of(email).is_some()
}

/// A domain submitted for registration must be non-empty and contain a dot.
pub open spec fn spec_domain_format_ok(domain: Seq<char>) -> bool {
    domain.len() > 0 && (exists|i: int| 0 <= i < domain.len() && domain[i] == '.')
}

/// Basic shape check for a domain handed to the registration endpoint:
/// non-empty and containing at least one `.` separator.
pub fn is_valid_domain_format(domain: &str) -> (r: bool)
    ensures
        r == spec_domain_format_ok(domain@),
{
    if domain.unicode_len() == 0 {
        return false;
    }
    match find_first(domain, '.') {
        Some(i) => {
            proof {
                assert(domain@[i as int] == '.');
            }
            true
        },
        None => false,
    }
}

} // verus!
