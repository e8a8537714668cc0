//! The configured key bindings and the test of a binding against the keys
//! that are down.
use vstd::prelude::*;

verus! {

/// A binding is satisfied when it is not empty and each of its keys is down.
/// An empty binding is disabled: it never matches.
pub open spec fn binding_satisfied(required: Seq<i32>, down: Seq<i32>) -> bool {
    required.len() > 0 && forall|i: int| 0 <= i < required.len() ==> down.contains(#[trigger] required[i])
}

/// Whether every key of `required` is in `down` (false for an empty binding).
pub fn check_keys_pressed(required: &[i32], down: &[i32]) -> (r: bool)
    ensures
        r == binding_satisfied(required@, down@),
{
    if required.len() == 0 {
        return false;
    }
    let mut i: usize = 0;
    while i < required.len()
        invariant
            i <= required@.len(),
            forall|k: int| 0 <= k < i ==> down@.contains(#[trigger] required@[k]),
        decreases required.len() - i,
    {
        let vk = required[i];
        let mut j: usize = 0;
        let mut found = false;
        while j < down.len() && !found
            invariant
                j <= down@.len(),
                found ==> down@.contains(vk),
                !found ==> forall|w: int| 0 <= w < j ==> down@[w] != vk,
            decreases down.len() - j + (if found { 0int } else { 1int }),
        {
            if down[j] == vk {
                found = true;
            } else {
                j += 1;
            }
        }
        if !found {
            assert(!down@.contains(vk)) by {
                if down@.contains(vk) {
                    let w = choose|w: int| 0 <= w < down@.len() && down@[w] == vk;
                    assert(w >= j);
                }
            };
            return false;
        }
        i += 1;
    }
    true
}

/// The record binding currently configured.
pub struct RecordShortcutKeys {
    keys: Vec<i32>,
}

impl View for RecordShortcutKeys {
    type V = Seq<i32>;

    closed spec fn view(&self) -> Seq<i32> {
        self.keys@
    }
}

impl RecordShortcutKeys {
    pub fn new(keys: Vec<i32>) -> (r: Self)
        ensures
            r@ == keys@,
    {
        RecordShortcutKeys { keys }
    }

    pub fn get(&self) -> (r: Vec<i32>)
        ensures
            r@ == self@,
    {
        self.keys.clone()
    }

    /// Replaces the binding wholesale.
    pub fn set(&mut self, keys: Vec<i32>)
        ensures
            final(self)@ == keys@,
    {
        self.keys = keys;
    }
}

/// The binding that pastes the last transcription again.
pub struct LastTranscriptShortcutKeys {
    keys: Vec<i32>,
}

impl View for LastTranscriptShortcutKeys {
    type V = Seq<i32>;

    closed spec fn view(&self) -> Seq<i32> {
        self.keys@
    }
}

impl LastTranscriptShortcutKeys {
    pub fn new(keys: Vec<i32>) -> (r: Self)
        ensures
            r@ == keys@,
    {
        LastTranscriptShortcutKeys { keys }
    }

    pub fn get(&self) -> (r: Vec<i32>)
        ensures
            r@ == self@,
    {
        self.keys.clone()
    }

    /// Replaces the binding wholesale.
    pub fn set(&mut self, keys: Vec<i32>)
        ensures
            final(self)@ == keys@,
    {
        self.keys = keys;
    }
}

} // verus!
