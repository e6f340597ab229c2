//! Per-record error classification.
//!
//! A failure while processing one record never halts the stream: it is
//! recorded with the record's line identifier and the record is skipped.
//! At the end of a run the collected errors are classified into the
//! statistics' `bad_lines` (unreadable, unparsable, or failing the query)
//! and `empty_lines` (query matched nothing).

use vstd::prelude::*;

verus! {

/// The kinds of failure one record can produce.
#[derive(Debug, Clone, Copy, PartialEq, Eq, Structural)]
pub enum NDJSONError {
    /// The line could not be read from the source.
    IOError,
    /// The line is not a structurally valid JSON document.
    JSONParsingError,
    /// The query matched nothing in the line's document.
    EmptyQuery,
    /// The query could not be evaluated against the line's document.
    QueryJsonPathError,
}

/// The marker for a line that could not be read from its source; the
/// library sees only that reading failed, not why.
#[derive(Debug, Clone, Copy, PartialEq, Eq)]
pub struct LineReadError;

/// A failure tagged with the line identifier it belongs to.
#[derive(Debug, PartialEq, Eq)]
pub struct IndexedNDJSONError {
    pub location: String,
    pub error: NDJSONError,
}

impl View for IndexedNDJSONError {
    type V = (Seq<char>, NDJSONError);

    open spec fn view(&self) -> (Seq<char>, NDJSONError) {
        (self.location@, self.error)
    }
}

impl DeepView for IndexedNDJSONError {
    type V = (Seq<char>, NDJSONError);

    open spec fn deep_view(&self) -> (Seq<char>, NDJSONError) {
        self.view()
    }
}

impl IndexedNDJSONError {
    /// Tags `error` with the identifier of the line that produced it.
    pub fn new(location: String, error: NDJSONError) -> (r: IndexedNDJSONError)
        ensures
            r.location == location,
            r.error == error,
    {
        IndexedNDJSONError { location, error }
    }
}

/// The collected errors of one run, in the order they were recorded.
#[derive(Debug, PartialEq, Eq)]
pub struct Errors<E> {
    pub container: Vec<E>,
}

impl<E> Errors<E> {
    /// An error collection over an existing container.
    pub fn new(container: Vec<E>) -> (r: Errors<E>)
        ensures
            r.container == container,
    {
        Errors { container }
    }

    /// Records one more error.
    pub fn push(&mut self, value: E)
        ensures
            final(self).container@ == old(self).container@.push(value),
    {
        self.container.push(value);
    }
}

impl<E> Default for Errors<E> {
    /// An empty error collection.
    fn default() -> (r: Errors<E>)
        ensures
            r.container@ == Seq::<E>::empty(),
    {
        Errors { container: Vec::new() }
    }
}

/// The identifiers of the errors that belong in `bad_lines`: every kind
/// except a query that matched nothing, in recording order.
pub open spec fn bad_locations(errs: Seq<(Seq<char>, NDJSONError)>) -> Seq<Seq<char>>
    decreases errs.len(),
{
    if errs.len() == 0 {
        Seq::empty()
    } else {
        let rest = bad_locations(errs.drop_last());
        if errs.last().1 is EmptyQuery {
            rest
        } else {
            rest.push(errs.last().0)
        }
    }
}

/// The identifiers of the errors that belong in `empty_lines`: queries
/// that matched nothing, in recording order.
pub open spec fn empty_locations(errs: Seq<(Seq<char>, NDJSONError)>) -> Seq<Seq<char>>
    decreases errs.len(),
{
    if errs.len() == 0 {
        Seq::empty()
    } else {
        let rest = empty_locations(errs.drop_last());
        if errs.last().1 is EmptyQuery {
            rest.push(errs.last().0)
        } else {
            rest
        }
    }
}

/// Appends each recorded error's identifier to `bad` or to `empty`: a
/// query that matched nothing is an empty line, everything else a bad one.
pub fn classify_errors(
    errs: &Vec<IndexedNDJSONError>,
    bad: &mut Vec<String>,
    empty: &mut Vec<String>,
)
    ensures
        final(bad).deep_view() == old(bad).deep_view() + bad_locations(errs.deep_view()),
        final(empty).deep_view() == old(empty).deep_view() + empty_locations(errs.deep_view()),
{
    let n = errs.len();
    for i in 0..n
        invariant
            n == errs.len(),
            bad.deep_view() == old(bad).deep_view() + bad_locations(errs.deep_view().take(i as int)),
            empty.deep_view() == old(empty).deep_view() + empty_locations(
                errs.deep_view().take(i as int),
            ),
    {
        proof {
            assert(errs.deep_view().take(i + 1).drop_last() =~= errs.deep_view().take(i as int));
            assert(errs.deep_view().take(i + 1).last() == errs.deep_view()[i as int]);
        }
        let location = errs[i].location.clone();
        let ghost bd = bad.deep_view();
        let ghost ed = empty.deep_view();
        match errs[i].error {
            NDJSONError::EmptyQuery => {
                empty.push(location);
                assert(empty.deep_view() =~= ed.push(errs.deep_view()[i as int].0));
            },
            _ => {
                bad.push(location);
                assert(bad.deep_view() =~= bd.push(errs.deep_view()[i as int].0));
            },
        }
        assert(bad.deep_view() =~= old(bad).deep_view() + bad_locations(
            errs.deep_view().take(i + 1),
        ));
        assert(empty.deep_view() =~= old(empty).deep_view() + empty_locations(
            errs.deep_view().take(i + 1),
        ));
    }
    proof {
        assert(errs.deep_view().take(n as int) =~= errs.deep_view());
    }
}

} // verus!
