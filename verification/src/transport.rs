//! The transport's delivery unit and the layer interface's data.
//!
//! A payload is an optional UTF-8 text with an optional context map; the
//! sole context key the core reads is the session id. Layers pass payloads
//! inbound (transport upward) and outbound (application downward); the
//! traversal itself is driven by the embedder.

use vstd::prelude::*;

use crate::session::assoc_lookup;

verus! {

/// The direction a layer result travels.
#[derive(Debug, Clone, Copy, PartialEq, Eq, Structural)]
pub enum Direction {
    Inbound,
    Outbound,
}

/// Transport-level metadata: a string-to-string map.
pub struct ChainContext {
    pub data: Vec<(String, String)>,
}

impl ChainContext {
    /// An empty context.
    pub fn new() -> (r: ChainContext)
        ensures
            r.data@ =~= Seq::<(String, String)>::empty(),
    {
        ChainContext { data: Vec::new() }
    }

    /// The value under `key`, if any.
    pub fn get(&self, key: &str) -> (r: Option<String>)
        ensures
            match (r, assoc_lookup(self.data@, key@)) {
                (Some(a), Some(b)) => a@ == b@,
                (None, None) => true,
                _ => false,
            },
    {
        let owned = key.to_owned();
        let mut i: usize = 0;
        while i < self.data.len()
            invariant
                i <= self.data@.len(),
                owned@ == key@,
                forall|j: int| 0 <= j < i ==> (#[trigger] self.data@[j].0)@ != key@,
            decreases self.data@.len() - i,
        {
            if self.data[i].0.eq(&owned) {
                proof {
                    crate::session::lemma_assoc_index(self.data@, key@, i as int);
                }
                return Some(self.data[i].1.clone());
            }
            i = i + 1;
        }
        proof {
            crate::session::lemma_assoc_none(self.data@, key@);
        }
        None
    }

    /// An owned copy that reads the same.
    pub fn dup(&self) -> (r: ChainContext)
        ensures
            r.data@.len() == self.data@.len(),
            forall|k: int|
                0 <= k < self.data@.len() ==> (#[trigger] r.data@[k]).0@ == self.data@[k].0@
                    && r.data@[k].1@ == self.data@[k].1@,
    {
        let mut data: Vec<(String, String)> = Vec::new();
        let mut i: usize = 0;
        while i < self.data.len()
            invariant
                i <= self.data@.len(),
                data@.len() == i,
                forall|k: int|
                    0 <= k < i ==> (#[trigger] data@[k]).0@ == self.data@[k].0@ && data@[k].1@
                        == self.data@[k].1@,
            decreases self.data@.len() - i,
        {
            let entry = &self.data[i];
            data.push((entry.0.clone(), entry.1.clone()));
            i = i + 1;
        }
        ChainContext { data }
    }
}

/// The transport's atomic delivery unit.
pub struct PayLoad {
    pub hdr: HeaderType,
    pub data: Option<String>,
    pub ctx: Option<ChainContext>,
}

impl PayLoad {
    /// The kind of the unit.
    pub fn type_(&self) -> (r: HeaderType)
        ensures
            r == self.hdr,
    {
        self.hdr
    }

    /// The carried text, if any.
    pub fn data(&self) -> (r: Option<String>)
        ensures
            match (r, self.data) {
                (Some(a), Some(b)) => a@ == b@,
                (None, None) => true,
                _ => false,
            },
    {
        match &self.data {
            Some(s) => Some(s.clone()),
            None => None,
        }
    }
}

/// What a layer hands back: the direction it ran, and the payload to pass
/// on, or nothing to stop the traversal.
pub struct LayerResult {
    pub direction: Direction,
    pub data: Option<PayLoad>,
}

/// The kind a framed transport unit carries.
#[derive(Debug, Clone, Copy, PartialEq, Eq, Structural)]
pub enum HeaderType {
    Data,
    Close,
}

impl HeaderType {
    /// A fresh header kind carries data.
    pub fn new() -> (r: HeaderType)
        ensures
            r == HeaderType::Data,
    {
        HeaderType::Data
    }
}

impl Default for HeaderType {
    /// The default header kind carries data.
    fn default() -> (r: HeaderType)
        ensures
            r == HeaderType::Data,
    {
        HeaderType::Data
    }
}

/// An observing layer: it logs what passes and hands it on unchanged. The
/// logging itself is the embedder's; the passing-through is this function.
pub struct Tracer {
}

impl Tracer {
    /// A tracer.
    pub fn new() -> (r: Tracer) {
        Tracer {  }
    }

    /// What the tracer does to a payload in either direction: nothing.
    pub fn pass_through(&self, payload: Option<PayLoad>, direction: Direction) -> (r: LayerResult)
        ensures
            r.direction == direction,
            r.data == payload,
    {
        LayerResult { direction, data: payload }
    }
}

/// The stop signal the control bus broadcasts; other values are advisory.
pub const STOP_SIGNAL: i32 = 1;

/// Whether a control-bus event asks the serve loop to stop.
pub fn should_stop(event: Option<i32>) -> (r: bool)
    ensures
        r == (event == Some(STOP_SIGNAL)),
{
    match event {
        Some(v) => v == STOP_SIGNAL,
        None => false,
    }
}

} // verus!
