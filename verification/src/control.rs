//! Signals from the control API to the playback loop.
//!
//! The control API only ever sets them; the playback loop looks at them once
//! per round and takes what is there.

use vstd::prelude::*;

use crate::fields::TextMap;

verus! {

/// The pending signals.
#[derive(Debug)]
pub struct ControlSignals {
    skip_requested: bool,
    metadata_override: TextMap,
}

/// The pending signals as mathematical values.
pub struct SignalsView {
    pub skip: bool,
    pub overrides: Map<Seq<char>, Seq<char>>,
}

impl View for ControlSignals {
    type V = SignalsView;

    closed spec fn view(&self) -> SignalsView {
        SignalsView { skip: self.skip_requested, overrides: self.metadata_override@ }
    }
}

impl ControlSignals {
    /// Nothing is pending.
    pub fn new() -> (signals: ControlSignals)
        ensures
            !signals@.skip,
            signals@.overrides == Map::<Seq<char>, Seq<char>>::empty(),
    {
        ControlSignals { skip_requested: false, metadata_override: TextMap::new() }
    }

    /// Asks for the current track to be skipped.
    pub fn request_skip(&mut self)
        ensures
            final(self)@.skip,
            final(self)@.overrides == old(self)@.overrides,
    {
        self.skip_requested = true;
    }

    /// Adds to the pending metadata override; new values win, name by name.
    pub fn set_metadata_override(&mut self, meta: TextMap)
        ensures
            final(self)@.overrides == old(self)@.overrides.union_prefer_right(meta@),
            final(self)@.skip == old(self)@.skip,
    {
        self.metadata_override.merge(meta);
    }

    /// Whether a skip was asked for since this was last called.
    pub fn take_skip(&mut self) -> (skip: bool)
        ensures
            skip == old(self)@.skip,
            !final(self)@.skip,
            final(self)@.overrides == old(self)@.overrides,
    {
        let skip = self.skip_requested;
        self.skip_requested = false;
        skip
    }

    /// The metadata override that is pending, if any; it is not pending any
    /// more.
    pub fn take_metadata_override(&mut self) -> (meta: Option<TextMap>)
        ensures
            match meta {
                Some(m) => m@ == old(self)@.overrides && m@ != Map::<Seq<char>, Seq<char>>::empty(),
                None => old(self)@.overrides == Map::<Seq<char>, Seq<char>>::empty(),
            },
            final(self)@.overrides == Map::<Seq<char>, Seq<char>>::empty(),
            final(self)@.skip == old(self)@.skip,
    {
        if self.metadata_override.is_empty() {
            None
        } else {
            let mut taken = TextMap::new();
            std::mem::swap(&mut taken, &mut self.metadata_override);
            Some(taken)
        }
    }
}

/// Two overrides that arrive before the playback loop looks accumulate: every
/// name of either is there, and where both have a name the later value is.
pub proof fn law_overrides_accumulate(
    first: Map<Seq<char>, Seq<char>>,
    second: Map<Seq<char>, Seq<char>>,
    name: Seq<char>,
)
    ensures
        ({
            let none = Map::<Seq<char>, Seq<char>>::empty();
            let pending = none.union_prefer_right(first).union_prefer_right(second);
            &&& pending.dom().contains(name) <==> first.dom().contains(name)
                || second.dom().contains(name)
            &&& second.dom().contains(name) ==> pending[name] == second[name]
            &&& first.dom().contains(name) && !second.dom().contains(name) ==> pending[name]
                == first[name]
        }),
{
}

} // verus!
