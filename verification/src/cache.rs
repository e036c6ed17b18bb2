//! The render target cache: the targets that draw commands have named so
//! far, found by the guest address that names them.

use vstd::prelude::*;

verus! {

/// Size of a texture or of the display surface, in pixels.
#[derive(Clone, Copy, Debug, PartialEq, Eq)]
pub struct TextureSize {
    pub width: u32,
    pub height: u32,
}

/// A render target: the guest address that names it and the size it was
/// created with.
#[derive(Clone, Copy, Debug, PartialEq, Eq)]
pub struct RenderTarget {
    pub address: u32,
    pub width: u32,
    pub height: u32,
}

/// Some entry is keyed by `address`.
pub open spec fn has_address(entries: Seq<RenderTarget>, address: u32) -> bool {
    exists|i: int| 0 <= i < entries.len() && (#[trigger] entries[i]).address == address
}

/// No two entries share an address.
pub open spec fn distinct_addresses(entries: Seq<RenderTarget>) -> bool {
    forall|i: int, j: int|
        0 <= i < j < entries.len() ==> (#[trigger] entries[i]).address != (
        #[trigger] entries[j]).address
}

/// Exactly one entry is keyed by `address`.
pub open spec fn holds_once(entries: Seq<RenderTarget>, address: u32) -> bool {
    exists|i: int|
        0 <= i < entries.len() && (#[trigger] entries[i]).address == address && forall|j: int|
            0 <= j < entries.len() && (#[trigger] entries[j]).address == address ==> j == i
}

/// The place of the entry keyed by `address`; meaningful where there is one.
pub open spec fn position_of(entries: Seq<RenderTarget>, address: u32) -> int {
    choose|i: int| 0 <= i < entries.len() && (#[trigger] entries[i]).address == address
}

/// The entries after `target` was asked for: unchanged where its address is
/// known, else with `target` added behind the others.
pub open spec fn with_target(entries: Seq<RenderTarget>, target: RenderTarget) -> Seq<
    RenderTarget,
> {
    if has_address(entries, target.address) {
        entries
    } else {
        entries.push(target)
    }
}

/// Among distinct addresses the place of an address is the only index that
/// holds it.
pub proof fn lemma_position_unique(entries: Seq<RenderTarget>, i: int)
    requires
        distinct_addresses(entries),
        0 <= i < entries.len(),
    ensures
        position_of(entries, entries[i].address) == i,
        holds_once(entries, entries[i].address),
{
    let p = position_of(entries, entries[i].address);
    assert(0 <= p < entries.len() && entries[p].address == entries[i].address);
    if p < i {
        assert(entries[p].address != entries[i].address);
    } else if i < p {
        assert(entries[i].address != entries[p].address);
    }
    assert forall|j: int|
        0 <= j < entries.len() && (#[trigger] entries[j]).address == entries[i].address implies j
        == i by {
        if j < i {
            assert(entries[j].address != entries[i].address);
        } else if i < j {
            assert(entries[i].address != entries[j].address);
        }
    }
}

/// Asking for a target keeps the addresses distinct, keeps every earlier
/// entry in its place, and leaves the address known.
pub proof fn lemma_with_target(entries: Seq<RenderTarget>, target: RenderTarget)
    requires
        distinct_addresses(entries),
    ensures
        distinct_addresses(with_target(entries, target)),
        has_address(with_target(entries, target), target.address),
        entries.len() <= with_target(entries, target).len(),
        forall|i: int| 0 <= i < entries.len() ==> with_target(entries, target)[i] == entries[i],
{
    let after = with_target(entries, target);
    if has_address(entries, target.address) {
    } else {
        assert forall|i: int, j: int| 0 <= i < j < after.len() implies (#[trigger] after[i]).address
            != (#[trigger] after[j]).address by {
            if j < entries.len() {
                assert(entries[i].address != entries[j].address);
            } else {
                assert(after[i] == entries[i]);
            }
        }
        assert(after[entries.len() as int].address == target.address);
    }
}

/// Asking for the same address twice creates one entry: the second request
/// changes nothing, whatever size it carries, and the address is held once.
pub proof fn lemma_define_idempotent(
    entries: Seq<RenderTarget>,
    first: RenderTarget,
    second: RenderTarget,
)
    requires
        distinct_addresses(entries),
        first.address == second.address,
    ensures
        with_target(with_target(entries, first), second) == with_target(entries, first),
        holds_once(with_target(entries, first), first.address),
{
    lemma_with_target(entries, first);
    let after = with_target(entries, first);
    let i = choose|i: int| 0 <= i < after.len() && (#[trigger] after[i]).address == first.address;
    lemma_position_unique(after, i);
}

/// Render targets in the order in which they were created. An entry is never
/// removed or changed, so an index stays valid and keeps its meaning.
pub struct TargetCache {
    entries: Vec<RenderTarget>,
}

impl View for TargetCache {
    type V = Seq<RenderTarget>;

    closed spec fn view(&self) -> Seq<RenderTarget> {
        self.entries@
    }
}

impl TargetCache {
    /// No address is cached twice.
    pub open spec fn wf(&self) -> bool {
        distinct_addresses(self@)
    }

    /// An empty cache.
    pub fn new() -> (cache: TargetCache)
        ensures
            cache.wf(),
            cache@ == Seq::<RenderTarget>::empty(),
    {
        TargetCache { entries: Vec::new() }
    }

    /// Number of cached targets.
    pub fn len(&self) -> (n: usize)
        ensures
            n == self@.len(),
    {
        self.entries.len()
    }

    /// The index of the target keyed by `address`, if it is cached.
    pub fn lookup(&self, address: u32) -> (found: Option<usize>)
        requires
            self.wf(),
        ensures
            found is Some <==> has_address(self@, address),
            found matches Some(i) ==> i < self@.len() && self@[i as int].address == address && i
                == position_of(self@, address),
    {
        let mut i: usize = 0;
        while i < self.entries.len()
            invariant
                self.wf(),
                i <= self.entries@.len(),
                forall|k: int| 0 <= k < i ==> (#[trigger] self.entries@[k]).address != address,
            decreases self.entries@.len() - i,
        {
            if self.entries[i].address == address {
                proof {
                    lemma_position_unique(self@, i as int);
                }
                return Some(i);
            }
            i += 1;
        }
        None
    }

    /// The target at `index` in creation order.
    pub fn get(&self, index: usize) -> (target: Option<RenderTarget>)
        ensures
            target == if index < self@.len() {
                Some(self@[index as int])
            } else {
                None
            },
    {
        if index < self.entries.len() {
            Some(self.entries[index])
        } else {
            None
        }
    }

    /// The index of the target keyed by `address`. If the address is new, a
    /// target of the given size is added behind the others first, and the
    /// flag is set.
    pub fn get_or_create(&mut self, address: u32, width: u32, height: u32) -> (found: (
        usize,
        bool,
    ))
        requires
            old(self).wf(),
        ensures
            final(self).wf(),
            final(self)@ == with_target(old(self)@, RenderTarget { address, width, height }),
            found.1 == !has_address(old(self)@, address),
            found.0 < final(self)@.len(),
            found.0 == position_of(final(self)@, address),
            final(self)@[found.0 as int].address == address,
    {
        proof {
            lemma_with_target(self@, RenderTarget { address, width, height });
        }
        match self.lookup(address) {
            Some(i) => (i, false),
            None => {
                let i = self.entries.len();
                self.entries.push(RenderTarget { address, width, height });
                proof {
                    lemma_position_unique(self@, i as int);
                }
                (i, true)
            },
        }
    }
}

} // verus!
