//! The request queues that outrank the regular rotation.

use std::collections::VecDeque;

use vstd::prelude::*;

use crate::text::same_text;

verus! {

broadcast use vstd::string::group_string_axioms;

/// The name of the queue of ordinary requests.
pub const QUEUE_REQUESTS: &'static str = "requests";

/// The name of the queue whose entries outrank everything else.
pub const QUEUE_INTERRUPTING: &'static str = "interrupting_requests";

/// The two queues.
#[derive(Debug)]
pub struct TrackQueues {
    requests: VecDeque<String>,
    interrupting_requests: VecDeque<String>,
}

/// The queues as mathematical lists, the next entry first.
pub struct QueuesView {
    pub requests: Seq<Seq<char>>,
    pub interrupting: Seq<Seq<char>>,
}

impl View for TrackQueues {
    type V = QueuesView;

    closed spec fn view(&self) -> QueuesView {
        QueuesView {
            requests: crate::text::texts(self.requests@),
            interrupting: crate::text::texts(self.interrupting_requests@),
        }
    }
}

/// The two names differ.
proof fn lemma_names_differ()
    ensures
        QUEUE_REQUESTS@ != QUEUE_INTERRUPTING@,
{
    reveal_strlit("requests");
    reveal_strlit("interrupting_requests");
    assert(QUEUE_REQUESTS@.len() == 8);
    assert(QUEUE_INTERRUPTING@.len() == 21);
}

/// The queues after `uri` was pushed onto the queue of this name.
pub open spec fn pushed(queues: QueuesView, name: Seq<char>, uri: Seq<char>) -> QueuesView {
    if name == QUEUE_REQUESTS@ {
        QueuesView { requests: queues.requests.push(uri), interrupting: queues.interrupting }
    } else if name == QUEUE_INTERRUPTING@ {
        QueuesView { requests: queues.requests, interrupting: queues.interrupting.push(uri) }
    } else {
        queues
    }
}

/// Whether there is a queue of this name.
pub open spec fn is_queue(name: Seq<char>) -> bool {
    name == QUEUE_REQUESTS@ || name == QUEUE_INTERRUPTING@
}

/// The first entry of a list, and the list without it.
pub open spec fn popped(list: Seq<Seq<char>>) -> (Option<Seq<char>>, Seq<Seq<char>>) {
    if list.len() > 0 {
        (Some(list[0]), list.skip(1))
    } else {
        (None, list)
    }
}

/// Takes the first entry of a queue.
fn pop_front(queue: &mut VecDeque<String>) -> (uri: Option<String>)
    ensures
        (crate::text::opt_view(uri), crate::text::texts(final(queue)@)) == popped(
            crate::text::texts(old(queue)@),
        ),
{
    let uri = queue.pop_front();
    assert(crate::text::texts(queue@) =~= popped(crate::text::texts(old(queue)@)).1);
    uri
}

impl TrackQueues {
    /// Two empty queues.
    pub fn new() -> (queues: TrackQueues)
        ensures
            queues@.requests == Seq::<Seq<char>>::empty(),
            queues@.interrupting == Seq::<Seq<char>>::empty(),
    {
        TrackQueues { requests: VecDeque::new(), interrupting_requests: VecDeque::new() }
    }

    /// Pushes `uri` onto the queue of this name; an unknown name is refused,
    /// and nothing changes.
    pub fn push(&mut self, queue: &str, uri: String) -> (r: Result<(), String>)
        ensures
            final(self)@ == pushed(old(self)@, queue@, uri@),
            match r {
                Ok(_) => is_queue(queue@),
                Err(e) => !is_queue(queue@) && e@ == "unknown queue '"@ + queue@ + "'"@,
            },
    {
        proof {
            lemma_names_differ();
        }
        let ghost text = uri@;
        if same_text(queue, QUEUE_REQUESTS) {
            self.requests.push_back(uri);
            assert(self@.requests =~= old(self)@.requests.push(text));
            Ok(())
        } else if same_text(queue, QUEUE_INTERRUPTING) {
            self.interrupting_requests.push_back(uri);
            assert(self@.interrupting =~= old(self)@.interrupting.push(text));
            Ok(())
        } else {
            let mut e = "unknown queue '".to_owned();
            e.append(queue);
            e.append("'");
            Err(e)
        }
    }

    /// Whether the queue of this name has nothing pending; an unknown queue
    /// has not.
    pub fn is_empty(&self, queue: &str) -> (empty: bool)
        ensures
            empty == if queue@ == QUEUE_REQUESTS@ {
                self@.requests.len() == 0
            } else if queue@ == QUEUE_INTERRUPTING@ {
                self@.interrupting.len() == 0
            } else {
                true
            },
    {
        if same_text(queue, QUEUE_REQUESTS) {
            self.requests.len() == 0
        } else if same_text(queue, QUEUE_INTERRUPTING) {
            self.interrupting_requests.len() == 0
        } else {
            true
        }
    }

    /// Takes the next entry: interrupting requests go first.
    pub fn pop_next(&mut self) -> (uri: Option<String>)
        ensures
            ({
                let first = popped(old(self)@.interrupting);
                let second = popped(old(self)@.requests);
                if first.0 is Some {
                    &&& crate::text::opt_view(uri) == first.0
                    &&& final(self)@.interrupting == first.1
                    &&& final(self)@.requests == old(self)@.requests
                } else {
                    &&& crate::text::opt_view(uri) == second.0
                    &&& final(self)@.interrupting == old(self)@.interrupting
                    &&& final(self)@.requests == second.1
                }
            }),
    {
        let uri = self.pop_interrupting();
        if uri.is_some() {
            return uri;
        }
        self.pop_requests()
    }

    /// Takes the next interrupting request.
    pub fn pop_interrupting(&mut self) -> (uri: Option<String>)
        ensures
            (crate::text::opt_view(uri), final(self)@.interrupting) == popped(
                old(self)@.interrupting,
            ),
            final(self)@.requests == old(self)@.requests,
    {
        pop_front(&mut self.interrupting_requests)
    }

    /// Takes the next ordinary request.
    pub fn pop_requests(&mut self) -> (uri: Option<String>)
        ensures
            (crate::text::opt_view(uri), final(self)@.requests) == popped(old(self)@.requests),
            final(self)@.interrupting == old(self)@.interrupting,
    {
        pop_front(&mut self.requests)
    }
}

/// The entry that is played next from the two queues.
pub open spec fn next_entry(queues: QueuesView) -> Option<Seq<char>> {
    if queues.interrupting.len() > 0 {
        Some(queues.interrupting[0])
    } else if queues.requests.len() > 0 {
        Some(queues.requests[0])
    } else {
        None
    }
}

/// First in, first out: what was pushed last comes out of its queue after
/// everything that was in it before, and the order of those does not change.
pub proof fn law_queues_are_first_in_first_out(
    queues: QueuesView,
    name: Seq<char>,
    uri: Seq<char>,
    k: int,
)
    requires
        is_queue(name),
    ensures
        ({
            let after = pushed(queues, name, uri);
            let before_list = if name == QUEUE_REQUESTS@ {
                queues.requests
            } else {
                queues.interrupting
            };
            let after_list = if name == QUEUE_REQUESTS@ {
                after.requests
            } else {
                after.interrupting
            };
            &&& after_list.len() == before_list.len() + 1
            &&& after_list[before_list.len() as int] == uri
            &&& 0 <= k < before_list.len() ==> after_list[k] == before_list[k]
        }),
{
    lemma_names_differ();
}

/// An interrupting request is always played before any ordinary one, however
/// late it comes in.
pub proof fn law_interrupting_requests_go_first(queues: QueuesView, uri: Seq<char>)
    ensures
        next_entry(pushed(queues, QUEUE_INTERRUPTING@, uri)) == Some(
            if queues.interrupting.len() > 0 {
                queues.interrupting[0]
            } else {
                uri
            },
        ),
{
    lemma_names_differ();
}

} // verus!
