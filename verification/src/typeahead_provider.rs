//! The asking side of a typeahead provider and the status its worker
//! publishes. The worker runs a source on its own thread; the caller sends
//! queries, hands this state whether each was delivered, and reads the
//! worker's latest status to answer the UI.

use vstd::prelude::*;

use crate::mentions::{opt_is, opt_view};
use crate::typeahead::{TypeaheadItem, TypeaheadQueryResult};
use crate::typeahead_state::clone_matches;

verus! {

/// What the worker has published: whether its source is ready, the query it
/// is working on, and the last query it answered with its matches.
pub struct ProviderStatus<T> {
    pub ready: bool,
    pub pending_query: Option<String>,
    pub latest_query: Option<String>,
    pub latest_matches: Vec<T>,
}

impl<T: TypeaheadItem> ProviderStatus<T> {
    /// The status before the source is ready.
    pub fn starting() -> (s: ProviderStatus<T>)
        ensures
            !s.ready,
            s.pending_query is None,
            s.latest_query is None,
            s.latest_matches.len() == 0,
    {
        ProviderStatus { ready: false, pending_query: None, latest_query: None, latest_matches: Vec::new() }
    }

    /// The status once the source is ready, with nothing asked yet.
    pub fn ready() -> (s: ProviderStatus<T>)
        ensures
            s.ready,
            s.pending_query is None,
            s.latest_query is None,
            s.latest_matches.len() == 0,
    {
        ProviderStatus { ready: true, pending_query: None, latest_query: None, latest_matches: Vec::new() }
    }

    /// The worker has taken up `query`.
    pub fn begin(&mut self, query: String)
        ensures
            final(self).pending_query == Some(query),
            final(self).ready == old(self).ready,
            final(self).latest_query == old(self).latest_query,
            final(self).latest_matches == old(self).latest_matches,
    {
        self.pending_query = Some(query);
    }

    /// The worker has answered `query` with `matches`.
    pub fn complete(&mut self, query: String, matches: Vec<T>)
        ensures
            final(self).pending_query is None,
            final(self).latest_query == Some(query),
            final(self).latest_matches == matches,
            final(self).ready == old(self).ready,
    {
        self.pending_query = None;
        self.latest_query = Some(query);
        self.latest_matches = matches;
    }
}

/// The next number of the update counter, wrapping at the top.
pub fn next_update_seq(seq: u64) -> (n: u64)
    ensures
        n == (if seq == u64::MAX {
            0
        } else {
            (seq + 1) as u64
        }),
{
    seq.wrapping_add(1)
}

/// Whether a provider answering `query` is still working toward it: its
/// source is not ready, it is busy with another query, or it has not yet
/// answered the query last asked for.
pub open spec fn still_loading<T>(status: ProviderStatus<T>, last_requested: Option<Seq<char>>, query: Seq<char>) -> bool {
    ||| !status.ready
    ||| (status.pending_query is Some && opt_view(status.latest_query) != Some(query))
    ||| (last_requested == Some(query) && opt_view(status.latest_query) != Some(query))
}

/// A query asked for is loading until the worker has answered it; once the
/// worker is ready, idle and has answered it, it is not.
pub proof fn law_loading_until_answered<T>(status: ProviderStatus<T>, query: Seq<char>)
    ensures
        opt_view(status.latest_query) != Some(query) ==> still_loading(status, Some(query), query),
        status.ready && status.pending_query is None && opt_view(status.latest_query) == Some(query) ==> !still_loading(
            status,
            Some(query),
            query,
        ),
{
}

/// The asking side of a provider: its leader character and the last query it
/// managed to send.
pub struct TypeaheadProvider {
    pub leader: char,
    pub last_requested_query: Option<String>,
}

impl TypeaheadProvider {
    /// A provider for `leader` that has asked nothing yet.
    pub fn new(leader: char) -> (p: TypeaheadProvider)
        ensures
            p.leader == leader,
            p.last_requested_query is None,
    {
        TypeaheadProvider { leader, last_requested_query: None }
    }

    /// The character that starts this provider's tokens.
    pub fn leader(&self) -> (c: char)
        ensures
            c == self.leader,
    {
        self.leader
    }

    /// Whether `query` still has to be sent to the worker.
    pub fn needs_request(&self, query: &str) -> (b: bool)
        ensures
            b == (opt_view(self.last_requested_query) != Some(query@)),
    {
        let q = query.to_owned();
        !opt_is(&self.last_requested_query, &q)
    }

    /// Records a send of `query`: when it reached the worker it is the last
    /// query asked for.
    pub fn request_sent(&mut self, query: &str, delivered: bool)
        ensures
            final(self).leader == old(self).leader,
            delivered ==> opt_view(final(self).last_requested_query) == Some(query@),
            !delivered ==> final(self).last_requested_query == old(self).last_requested_query,
    {
        if delivered {
            self.last_requested_query = Some(query.to_owned());
        }
    }

    /// What to show for `query` given the worker's status: its matches when
    /// they answer that query (else none), and whether it is still loading.
    pub fn query_result<T: TypeaheadItem>(&self, status: &ProviderStatus<T>, query: &str) -> (r: TypeaheadQueryResult<T>)
        ensures
            r.loading == still_loading(*status, opt_view(self.last_requested_query), query@),
            opt_view(status.latest_query) == Some(query@) ==> r.matches.len() == status.latest_matches.len()
                && forall|i: int| 0 <= i < r.matches.len() ==> cloned(status.latest_matches@[i], #[trigger] r.matches@[i]),
            opt_view(status.latest_query) != Some(query@) ==> r.matches.len() == 0,
    {
        let q = query.to_owned();
        let answered = opt_is(&status.latest_query, &q);
        let waiting_for_latest = opt_is(&self.last_requested_query, &q) && !answered;
        let loading = !status.ready || (status.pending_query.is_some() && !answered) || waiting_for_latest;
        let matches = if answered {
            clone_matches(&status.latest_matches)
        } else {
            Vec::new()
        };
        TypeaheadQueryResult { matches, loading }
    }
}

} // verus!
