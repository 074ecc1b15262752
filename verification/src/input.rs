//! The keys that are held down, as the event loop records them and the frame
//! loop reads them.

use vstd::prelude::*;

verus! {

/// A key of the keyboard. The keys that steer the camera or end the program
/// are named; every other key is told apart by its code.
#[derive(Clone, Copy, Debug, PartialEq, Eq, Structural)]
pub enum Key {
    A,
    D,
    S,
    W,
    Space,
    LShift,
    Left,
    Right,
    Down,
    Up,
    Escape,
    Other(u32),
}

/// The keys recorded after `key` goes down: a key that is already held is
/// not recorded a second time.
pub open spec fn spec_press(keys: Seq<Key>, key: Key) -> Seq<Key> {
    if keys.contains(key) {
        keys
    } else {
        keys.push(key)
    }
}

/// The keys recorded after `key` goes up: a key that is not held changes
/// nothing.
pub open spec fn spec_release(keys: Seq<Key>, key: Key) -> Seq<Key> {
    keys.remove_value(key)
}

/// Pressing a key that is already held changes nothing, so pressing a key
/// twice records the same keys as pressing it once; in particular their
/// number stays the same.
pub proof fn lemma_press_is_idempotent(keys: Seq<Key>, key: Key)
    ensures
        spec_press(keys, key).contains(key),
        spec_press(spec_press(keys, key), key) == spec_press(keys, key),
        spec_press(spec_press(keys, key), key).len() == spec_press(keys, key).len(),
{
    if !keys.contains(key) {
        assert(keys.push(key)[keys.len() as int] == key);
    }
}

/// Releasing a key that is not held changes nothing.
pub proof fn lemma_release_of_absent_key_is_noop(keys: Seq<Key>, key: Key)
    requires
        !keys.contains(key),
    ensures
        spec_release(keys, key) == keys,
{
    keys.index_of_first_ensures(key);
}

/// Among keys of which none is recorded twice, a released key is held no
/// longer, every other key is held as before, and none is recorded twice
/// afterwards.
pub proof fn lemma_release_removes_key(keys: Seq<Key>, key: Key)
    requires
        keys.no_duplicates(),
    ensures
        spec_release(keys, key).no_duplicates(),
        !spec_release(keys, key).contains(key),
        forall|other: Key|
            other != key ==> spec_release(keys, key).contains(other) == keys.contains(other),
{
    keys.index_of_first_ensures(key);
    match keys.index_of_first(key) {
        Some(at) => {
            let rest = keys.remove(at);
            assert forall|i: int, j: int|
                0 <= i < rest.len() && 0 <= j < rest.len() && i != j implies rest[i] != rest[j] by {
                let from_i = if i < at { i } else { i + 1 };
                let from_j = if j < at { j } else { j + 1 };
                assert(rest[i] == keys[from_i] && rest[j] == keys[from_j]);
            }
            assert forall|i: int| 0 <= i < rest.len() implies rest[i] != key by {
                let from_i = if i < at { i } else { i + 1 };
                assert(rest[i] == keys[from_i]);
            }
            assert forall|other: Key| other != key implies rest.contains(other) == keys.contains(
                other,
            ) by {
                if keys.contains(other) {
                    let i = choose|i: int| 0 <= i < keys.len() && keys[i] == other;
                    let to_i = if i < at { i } else { i - 1 };
                    assert(rest[to_i] == other);
                }
                if rest.contains(other) {
                    let i = choose|i: int| 0 <= i < rest.len() && rest[i] == other;
                    let from_i = if i < at { i } else { i + 1 };
                    assert(keys[from_i] == other);
                }
            }
        },
        None => {},
    }
}

/// The keys that are held down, in the order in which they went down. No
/// key is recorded twice.
pub struct PressedKeys {
    keys: Vec<Key>,
}

impl View for PressedKeys {
    type V = Seq<Key>;

    closed spec fn view(&self) -> Seq<Key> {
        self.keys@
    }
}

impl PressedKeys {
    #[verifier::type_invariant]
    spec fn no_key_twice(self) -> bool {
        self.keys@.no_duplicates()
    }

    /// No key is held.
    pub fn new() -> (keys: PressedKeys)
        ensures
            keys@ == Seq::<Key>::empty(),
    {
        PressedKeys { keys: Vec::new() }
    }

    /// The number of keys that are held. No key is counted twice.
    pub fn len(&self) -> (count: usize)
        ensures
            count == self@.len(),
            self@.no_duplicates(),
    {
        proof {
            use_type_invariant(self);
        }
        self.keys.len()
    }

    /// The key at position `index` in the order in which the keys went down.
    pub fn get(&self, index: usize) -> (key: Key)
        requires
            index < self@.len(),
        ensures
            key == self@[index as int],
    {
        self.keys[index]
    }

    /// Where `key` is recorded, if it is held.
    pub fn position(&self, key: Key) -> (at: Option<usize>)
        ensures
            at.is_some() == self@.contains(key),
            at matches Some(i) ==> i < self@.len() && self@[i as int] == key,
            match at {
                Some(i) => self@.index_of_first(key) == Some(i as int),
                None => self@.index_of_first(key).is_none(),
            },
    {
        let mut i: usize = 0;
        while i < self.keys.len()
            invariant
                i <= self.keys@.len(),
                forall|j: int| 0 <= j < i ==> self.keys@[j] != key,
            decreases self.keys@.len() - i,
        {
            if self.keys[i] == key {
                proof {
                    self.keys@.index_of_first_ensures(key);
                }
                return Some(i);
            }
            i += 1;
        }
        proof {
            self.keys@.index_of_first_ensures(key);
        }
        None
    }

    /// Whether `key` is held.
    pub fn contains(&self, key: Key) -> (held: bool)
        ensures
            held == self@.contains(key),
    {
        self.position(key).is_some()
    }

    /// Records that `key` went down.
    pub fn press(&mut self, key: Key)
        ensures
            final(self)@ == spec_press(old(self)@, key),
            final(self)@.contains(key),
            final(self)@.no_duplicates(),
    {
        proof {
            use_type_invariant(&*self);
            lemma_press_is_idempotent(self@, key);
        }
        if !self.contains(key) {
            let mut keys: Vec<Key> = Vec::new();
            core::mem::swap(&mut self.keys, &mut keys);
            keys.push(key);
            core::mem::swap(&mut self.keys, &mut keys);
        }
    }

    /// Records that `key` went up.
    pub fn release(&mut self, key: Key)
        ensures
            final(self)@ == spec_release(old(self)@, key),
            !final(self)@.contains(key),
            final(self)@.no_duplicates(),
    {
        proof {
            use_type_invariant(&*self);
            lemma_release_removes_key(self@, key);
        }
        match self.position(key) {
            Some(at) => {
                let mut keys: Vec<Key> = Vec::new();
                core::mem::swap(&mut self.keys, &mut keys);
                keys.remove(at);
                core::mem::swap(&mut self.keys, &mut keys);
            },
            None => {},
        }
    }
}

} // verus!
