//! Latest-value subscription channel: the single primitive that carries
//! snapshots from a producer task to any number of widget readers.
//!
//! One producer repeatedly publishes a full snapshot; the channel keeps only
//! the latest value. A reader subscribes at some point in time and from then
//! on observes every value published afterwards that it polls fast enough to
//! see; a slow reader skips intermediate values but always converges on the
//! latest one. The ghost `history` field records every value ever published,
//! so the contracts can say exactly which publish a reader observes.

use vstd::prelude::*;

verus! {

/// Latest-value broadcast cell. `version` counts publishes since creation;
/// the ghost log holds every published value, entry `i` being publish `i`
/// (entry 0 is the initial value the channel was created with).
pub struct Channel<T> {
    value: T,
    version: u64,
    history: Ghost<Seq<T>>,
}

/// A reader's subscription state: the number of the last publish it has
/// observed on its channel.
pub struct Reader {
    seen: u64,
}

impl Reader {
    /// The number of the last publish this reader has observed.
    pub closed spec fn spec_seen(self) -> u64 {
        self.seen
    }

    /// The same number as a plain value, so that a caller can test a
    /// reader's validity for a channel before polling it.
    pub fn seen(&self) -> (v: u64)
        ensures
            v == self.spec_seen(),
    {
        self.seen
    }

    /// A reader is valid for a channel when it has not observed more
    /// publishes than the channel has performed.
    pub open spec fn valid_for<T>(self, c: Channel<T>) -> bool {
        self.spec_seen() <= c.spec_version()
    }
}

impl<T> Channel<T> {
    /// Every version ever published, oldest first.
    pub closed spec fn log(self) -> Seq<T> {
        self.history@
    }

    /// How many times `publish` has been called on this channel.
    pub closed spec fn spec_version(self) -> u64 {
        self.version
    }

    /// The latest published value.
    pub closed spec fn spec_value(self) -> T {
        self.value
    }

    /// The channel's invariant: the log holds one entry per publish plus the
    /// initial value, and ends with the value the channel currently holds.
    pub open spec fn wf(self) -> bool {
        &&& self.log().len() == self.spec_version() + 1
        &&& self.log().last() == self.spec_value()
    }

    /// Creates a channel holding `initial` as its current value.
    pub fn new(initial: T) -> (c: Self)
        ensures
            c.wf(),
            c.spec_version() == 0,
            c.log() =~= seq![initial],
    {
        let ghost h: Seq<T> = seq![initial];
        Channel { value: initial, version: 0, history: Ghost(h) }
    }

    /// Replaces the current value. Never fails and does not depend on how
    /// many readers exist; the version bound is a machine limit, not a
    /// semantic one.
    pub fn publish(&mut self, v: T)
        requires
            old(self).wf(),
            old(self).spec_version() < u64::MAX,
        ensures
            final(self).wf(),
            final(self).spec_version() == old(self).spec_version() + 1,
            final(self).log() == old(self).log().push(v),
            final(self).spec_value() == v,
    {
        proof {
            assert(old(self).log().push(v).last() == v);
        }
        self.history = Ghost(self.history@.push(v));
        self.value = v;
        self.version = self.version + 1;
    }

    /// How many publishes the channel has performed, as a plain value, so
    /// that a caller can test `publish`'s version bound before calling it.
    pub fn version(&self) -> (v: u64)
        ensures
            v == self.spec_version(),
    {
        self.version
    }

    /// The latest published value; callable at any time, never blocks.
    pub fn current(&self) -> (r: &T)
        ensures
            *r == self.spec_value(),
    {
        &self.value
    }

    /// Starts observing the channel. The new reader has seen exactly the
    /// publishes made so far: it will be woken only by later ones.
    pub fn subscribe(&self) -> (r: Reader)
        ensures
            r.spec_seen() == self.spec_version(),
            r.valid_for(*self),
    {
        Reader { seen: self.version }
    }

    /// Yields the latest value if anything was published since the reader
    /// last looked, and nothing otherwise. A reader that skipped several
    /// publishes gets only the latest value: intermediate ones are dropped,
    /// never fabricated.
    pub fn poll<'a>(&'a self, r: &mut Reader) -> (out: Option<&'a T>)
        requires
            old(r).valid_for(*self),
        ensures
            final(r).spec_seen() == self.spec_version(),
            final(r).valid_for(*self),
            match out {
                Some(v) => {
                    &&& old(r).spec_seen() < self.spec_version()
                    &&& *v == self.spec_value()
                },
                None => old(r).spec_seen() == self.spec_version(),
            },
    {
        if r.seen < self.version {
            r.seen = self.version;
            Some(&self.value)
        } else {
            None
        }
    }
}

/// Law: monotonic delivery. Let a reader subscribe when the channel has
/// performed `N` publishes (so `r.spec_seen() == N`), and let `after` be the
/// channel state that `publish(v)` (publish `N + 1`) leaves behind, as its
/// contract describes it. Then the value the reader saw as `current` at
/// subscription time was exactly publish `N`, and the next value `poll`
/// yields on `after` is exactly publish `N + 1`, namely `v`: nothing is
/// fabricated, nothing already seen is delivered again.
pub proof fn lemma_monotonic_delivery<T>(before: Channel<T>, after: Channel<T>, r: Reader, v: T)
    requires
        before.wf(),
        r.spec_seen() == before.spec_version(),
        after.wf(),
        after.spec_version() == before.spec_version() + 1,
        after.log() == before.log().push(v),
        after.spec_value() == v,
    ensures
        before.spec_value() == before.log()[r.spec_seen() as int],
        r.spec_seen() < after.spec_version(),
        after.spec_value() == after.log()[r.spec_seen() + 1],
        after.log()[r.spec_seen() + 1] == v,
{
    assert(before.log().last() == before.log()[r.spec_seen() as int]);
    assert(after.log()[r.spec_seen() + 1] == after.log().last());
}

/// Law: publishing is independent of readers. A publish changes the channel
/// alone: every reader that was valid before it stays valid after it, and
/// the prefix of the log that any reader may refer to is unchanged. In
/// particular a publish on a channel with zero live readers is an ordinary
/// state change, not an error.
pub proof fn lemma_publish_ignores_readers<T>(
    before: Channel<T>,
    after: Channel<T>,
    r: Reader,
    v: T,
)
    requires
        before.wf(),
        r.valid_for(before),
        after.wf(),
        after.spec_version() == before.spec_version() + 1,
        after.log() == before.log().push(v),
        after.spec_value() == v,
    ensures
        r.valid_for(after),
        forall|i: int| 0 <= i < before.log().len() ==> after.log()[i] == before.log()[i],
{
}

} // verus!
