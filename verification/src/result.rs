//! The validation result: an ordered collection of issues.
//!
//! An empty result is the success sentinel; a non-empty one is the aggregate
//! failure value. Results support appending errors and issues, merging,
//! and prepending a path segment onto every contained issue when returning
//! from a nested scope.

use vstd::prelude::*;
use crate::error::{issues_view, lemma_issues_view, texts_view, SpecError, SpecIssue,
    ValidationError, ValidationIssue};

verus! {

broadcast use vstd::std_specs::vec::group_vec_axioms;

/// An issue with the given error at the root path.
pub open spec fn root_issue(e: SpecError) -> SpecIssue {
    SpecIssue { path: Seq::empty(), error: e }
}

/// Every issue of `s`, with `seg` prepended to its path.
pub open spec fn prefix_issues(s: Seq<SpecIssue>, seg: Seq<char>) -> Seq<SpecIssue> {
    Seq::new(s.len(), |i: int| SpecIssue { path: seq![seg] + s[i].path, error: s[i].error })
}

/// The ordered collection of issues produced by one validation pass;
/// empty exactly when validation succeeded.
#[derive(Debug)]
pub struct ValidationResult {
    pub issues: Vec<ValidationIssue>,
}

impl View for ValidationResult {
    type V = Seq<SpecIssue>;

    open spec fn view(&self) -> Seq<SpecIssue> {
        issues_view(self.issues@)
    }
}

impl ValidationResult {
    /// The empty result: success.
    pub fn new() -> (r: ValidationResult)
        ensures
            r@ == Seq::<SpecIssue>::empty(),
    {
        ValidationResult { issues: Vec::new() }
    }

    /// A result holding one error at the root path.
    pub fn with_error(error: ValidationError) -> (r: ValidationResult)
        ensures
            r@ == seq![root_issue(error@)],
    {
        let mut r = ValidationResult::new();
        r.add_error(error);
        proof {
            assert(r@ =~= seq![root_issue(error@)]);
        }
        r
    }

    /// A result holding one issue.
    pub fn with_issue(issue: ValidationIssue) -> (r: ValidationResult)
        ensures
            r@ == seq![issue@],
    {
        let mut r = ValidationResult::new();
        r.add_issue(issue);
        proof {
            assert(r@ =~= seq![issue@]);
        }
        r
    }

    /// Appends one error at the root path.
    pub fn add_error(&mut self, error: ValidationError)
        ensures
            final(self)@ == old(self)@.push(root_issue(error@)),
    {
        broadcast use lemma_issues_view;

        let ghost orig = self.issues@;
        let ghost ev = error@;
        self.issues.push(ValidationIssue { path: Vec::new(), error });
        proof {
            assert(texts_view(Seq::<String>::empty()) =~= Seq::<Seq<char>>::empty());
            assert(self.issues@.last()@ == root_issue(ev));
            assert(issues_view(self.issues@) =~= issues_view(orig).push(root_issue(ev)));
        }
    }

    /// Appends one issue.
    pub fn add_issue(&mut self, issue: ValidationIssue)
        ensures
            final(self)@ == old(self)@.push(issue@),
    {
        broadcast use lemma_issues_view;

        let ghost orig = self.issues@;
        let ghost iv = issue@;
        self.issues.push(issue);
        proof {
            assert(issues_view(self.issues@) =~= issues_view(orig).push(iv));
        }
    }

    /// Appends one error at the given path.
    pub fn add_error_at_path(&mut self, path: Vec<String>, error: ValidationError)
        ensures
            final(self)@ == old(self)@.push(
                SpecIssue { path: texts_view(path@), error: error@ },
            ),
    {
        self.add_issue(ValidationIssue { path, error });
    }

    /// Concatenates another result's issues onto this one.
    pub fn merge(&mut self, other: ValidationResult)
        ensures
            final(self)@ == old(self)@ + other@,
    {
        broadcast use lemma_issues_view;

        let ghost orig = self.issues@;
        let ghost other_issues = other.issues@;
        let mut more = other.issues;
        self.issues.append(&mut more);
        proof {
            assert(issues_view(self.issues@) =~= issues_view(orig) + issues_view(other_issues));
        }
    }

    /// True exactly when no issue was recorded: the success test.
    pub fn is_empty(&self) -> (r: bool)
        ensures
            r == (self@.len() == 0),
    {
        broadcast use lemma_issues_view;

        self.issues.len() == 0
    }

    /// How many issues were recorded.
    pub fn len(&self) -> (r: usize)
        ensures
            r == self@.len(),
    {
        broadcast use lemma_issues_view;

        self.issues.len()
    }

    /// Prepends one path segment onto every contained issue, as when a
    /// nested scope's issues are handed to the enclosing one.
    #[verifier::loop_isolation(false)]
    pub fn prefix_path(&mut self, prefix: String)
        ensures
            final(self)@ == prefix_issues(old(self)@, prefix@),
    {
        broadcast use lemma_issues_view;

        let ghost orig = self.issues@;
        let mut out: Vec<ValidationIssue> = Vec::new();
        while self.issues.len() > 0
            invariant
                out@.len() + self.issues@.len() == orig.len(),
                self.issues@ =~= orig.skip(out@.len() as int),
                forall|j: int|
                    0 <= j < out@.len() ==> out@[j]@ == (SpecIssue {
                        path: seq![prefix@] + orig[j]@.path,
                        error: orig[j]@.error,
                    }),
            decreases self.issues@.len(),
        {
            let mut issue = self.issues.remove(0);
            let ghost before = issue@;
            proof {
                assert(orig.skip(out@.len() as int)[0] == orig[out@.len() as int]);
            }
            issue.path.insert(0, prefix.clone());
            proof {
                assert(texts_view(issue.path@) =~= seq![prefix@] + before.path);
            }
            out.push(issue);
            proof {
                assert(self.issues@ =~= orig.skip(out@.len() as int));
            }
        }
        self.issues = out;
        proof {
            assert(issues_view(self.issues@) =~= prefix_issues(issues_view(orig), prefix@));
        }
    }

    /// `Ok` exactly when no issue was recorded, else the result itself as
    /// the error.
    pub fn into_result(self) -> (r: Result<(), ValidationResult>)
        ensures
            self@.len() == 0 ==> r == Ok::<(), ValidationResult>(()),
            self@.len() != 0 ==> r == Err::<(), ValidationResult>(self),
    {
        if self.is_empty() {
            Ok(())
        } else {
            Err(self)
        }
    }

    /// The result itself when it holds issues, else nothing.
    pub fn into_err(self) -> (r: Option<ValidationResult>)
        ensures
            self@.len() == 0 ==> r == None::<ValidationResult>,
            self@.len() != 0 ==> r == Some(self),
    {
        if self.is_empty() {
            None
        } else {
            Some(self)
        }
    }
}

impl Default for ValidationResult {
    /// The empty result.
    fn default() -> (r: ValidationResult)
        ensures
            r@ == Seq::<SpecIssue>::empty(),
    {
        ValidationResult::new()
    }
}

/// The outcome of a validation: the typed value, or the issues.
pub type ValidateResult<T> = Result<T, ValidationResult>;

} // verus!
