use vstd::prelude::*;

verus! {

/// The relay pin addresses that the host controller wires.
pub open spec fn relay_inventory() -> Set<u8> {
    set![4u8, 5u8, 6u8, 12u8, 13u8, 17u8, 18u8, 19u8, 20u8, 26u8]
}

/// Ownership of one relay pin. It is handed out by `GpioFacade::remove_pin`
/// and goes back through `GpioFacade::release`; it cannot be copied.
#[derive(Debug)]
pub struct Relay {
    address: u8,
}

impl View for Relay {
    type V = u8;

    open spec fn view(&self) -> u8 {
        self.spec_address()
    }
}

impl Relay {
    pub closed spec fn spec_address(&self) -> u8 {
        self.address
    }

    pub(crate) fn new(address: u8) -> (r: Relay)
        ensures
            r@ == address,
    {
        Relay { address }
    }

    /// The pin address of this relay.
    pub fn address(&self) -> (r: u8)
        ensures
            r == self@,
    {
        self.address
    }
}

/// The pool of relay pins that no driver holds.
#[derive(Debug)]
pub struct GpioFacade {
    unassigned_addresses: Vec<u8>,
}

impl View for GpioFacade {
    type V = Set<u8>;

    closed spec fn view(&self) -> Set<u8> {
        self.unassigned_addresses@.to_set()
    }
}

impl GpioFacade {
    /// Each address is listed once, and only wired addresses are listed.
    pub closed spec fn wf(&self) -> bool {
        &&& self.unassigned_addresses@.no_duplicates()
        &&& forall|i: int|
            0 <= i < self.unassigned_addresses@.len() ==> relay_inventory().contains(
                #[trigger] self.unassigned_addresses@[i],
            )
    }

    /// The addresses as they are listed, each once.
    pub closed spec fn listed(&self) -> Seq<u8> {
        self.unassigned_addresses@
    }

    /// Only wired addresses are in a well-formed pool.
    pub proof fn lemma_within_inventory(&self)
        requires
            self.wf(),
        ensures
            self@.subset_of(relay_inventory()),
    {
        assert forall|x: u8| self@.contains(x) implies relay_inventory().contains(x) by {
            let i = choose|i: int|
                0 <= i < self.unassigned_addresses@.len() && self.unassigned_addresses@[i] == x;
        }
    }

    /// A pool that holds every wired relay.
    pub fn new() -> (r: GpioFacade)
        ensures
            r.wf(),
            r@ == relay_inventory(),
    {
        let v: Vec<u8> = vec![4u8, 5u8, 6u8, 12u8, 13u8, 17u8, 18u8, 19u8, 20u8, 26u8];
        let r = GpioFacade { unassigned_addresses: v };
        assert(r@ =~= relay_inventory()) by {
            assert forall|x: u8| relay_inventory().contains(x) implies r@.contains(x) by {
                if x == 4 { assert(v@[0] == x); }
                else if x == 5 { assert(v@[1] == x); }
                else if x == 6 { assert(v@[2] == x); }
                else if x == 12 { assert(v@[3] == x); }
                else if x == 13 { assert(v@[4] == x); }
                else if x == 17 { assert(v@[5] == x); }
                else if x == 18 { assert(v@[6] == x); }
                else if x == 19 { assert(v@[7] == x); }
                else if x == 20 { assert(v@[8] == x); }
                else { assert(v@[9] == x); }
            }
        }
        r
    }

    /// Hands out the relay at `address` if no one holds it, and takes the
    /// address out of the pool; otherwise gives nothing and changes nothing.
    pub fn remove_pin(&mut self, address: u8) -> (r: Option<Relay>)
        requires
            old(self).wf(),
        ensures
            final(self).wf(),
            r is Some <==> old(self)@.contains(address),
            r matches Some(relay) ==> relay@ == address,
            final(self)@ == old(self)@.remove(address),
    {
        let ghost before = self.unassigned_addresses@;
        let mut kept: Vec<u8> = Vec::new();
        let mut found: bool = false;
        let mut i: usize = 0;
        while i < self.unassigned_addresses.len()
            invariant
                self.unassigned_addresses@ == before,
                before.no_duplicates(),
                i <= before.len(),
                kept@.no_duplicates(),
                forall|k: int| 0 <= k < kept@.len() ==> #[trigger] kept@[k] != address,
                forall|x: u8|
                    kept@.contains(x) <==> (before.subrange(0, i as int).contains(x) && x
                        != address),
                found == before.subrange(0, i as int).contains(address),
            decreases before.len() - i,
        {
            let b = self.unassigned_addresses[i];
            let ghost pre = before.subrange(0, i as int);
            let ghost post = before.subrange(0, i + 1);
            assert(post =~= pre.push(b));
            assert forall|x: u8| post.contains(x) <==> (pre.contains(x) || x == b) by {
                if pre.contains(x) {
                    let j = choose|j: int| 0 <= j < pre.len() && pre[j] == x;
                    assert(post[j] == x);
                }
                if x == b {
                    assert(post[i as int] == x);
                }
                if post.contains(x) && x != b {
                    let j = choose|j: int| 0 <= j < post.len() && post[j] == x;
                    assert(pre[j] == x);
                }
            }
            let ghost old_kept = kept@;
            if b == address {
                found = true;
            } else {
                assert(!kept@.contains(b)) by {
                    if pre.contains(b) {
                        let j = choose|j: int| 0 <= j < pre.len() && pre[j] == b;
                        assert(before[j] == before[i as int]);
                    }
                }
                let ghost old_kept = kept@;
                kept.push(b);
                assert forall|x: u8| kept@.contains(x) <==> (old_kept.contains(x) || x == b) by {
                    if old_kept.contains(x) {
                        let j = choose|j: int| 0 <= j < old_kept.len() && old_kept[j] == x;
                        assert(kept@[j] == x);
                    }
                    if x == b {
                        assert(kept@[old_kept.len() as int] == x);
                    }
                    if kept@.contains(x) && x != b {
                        let j = choose|j: int| 0 <= j < kept@.len() && kept@[j] == x;
                        assert(old_kept[j] == x);
                    }
                }
            }
            assert forall|x: u8| kept@.contains(x) <==> (post.contains(x) && x != address) by {
                assert(post.contains(x) <==> (pre.contains(x) || x == b));
                assert(old_kept.contains(x) <==> (pre.contains(x) && x != address));
            }
            i = i + 1;
        }
        assert(before.subrange(0, before.len() as int) =~= before);
        proof {
            assert forall|k: int| 0 <= k < kept@.len() implies relay_inventory().contains(
                #[trigger] kept@[k],
            ) by {
                assert(kept@.contains(kept@[k]));
                let j = choose|j: int| 0 <= j < before.len() && before[j] == kept@[k];
            }
        }
        self.unassigned_addresses = kept;
        assert(self@ =~= before.to_set().remove(address));
        if found {
            Some(Relay::new(address))
        } else {
            None
        }
    }

    /// Takes a relay back into the pool, so that its address can be handed out again.
    pub fn release(&mut self, relay: Relay)
        requires
            old(self).wf(),
            relay_inventory().contains(relay@),
        ensures
            final(self).wf(),
            final(self)@ == old(self)@.insert(relay@),
    {
        let a = relay.address;
        let ghost before = self.unassigned_addresses@;
        let mut present: bool = false;
        let mut i: usize = 0;
        while i < self.unassigned_addresses.len()
            invariant
                self.unassigned_addresses@ == before,
                i <= before.len(),
                present == exists|k: int| 0 <= k < i && before[k] == a,
            decreases before.len() - i,
        {
            if self.unassigned_addresses[i] == a {
                present = true;
            }
            i = i + 1;
        }
        if !present {
            self.unassigned_addresses.push(a);
            assert forall|x: u8| self@.contains(x) <==> (before.contains(x) || x == a) by {
                if before.contains(x) {
                    let j = choose|j: int| 0 <= j < before.len() && before[j] == x;
                    assert(self.unassigned_addresses@[j] == x);
                }
                if x == a {
                    assert(self.unassigned_addresses@[before.len() as int] == x);
                }
                if self@.contains(x) && x != a {
                    let j = choose|j: int|
                        0 <= j < self.unassigned_addresses@.len()
                            && self.unassigned_addresses@[j] == x;
                    assert(before[j] == x);
                }
            }
        }
        proof {
            if present {
                let k = choose|k: int| 0 <= k < before.len() && before[k] == a;
                assert(before.contains(a));
            }
        }
        assert forall|x: u8| self@.contains(x) <==> before.to_set().insert(a).contains(x) by {
            if !present {
                assert(self@.contains(x) <==> (before.contains(x) || x == a));
            }
        }
        assert(self@ =~= before.to_set().insert(a));
    }

    /// The addresses that no driver holds, each listed once.
    pub fn get_unassigned_addresses(&self) -> (r: &Vec<u8>)
        requires
            self.wf(),
        ensures
            r@ == self.listed(),
            r@.no_duplicates(),
            r@.to_set() == self@,
    {
        &self.unassigned_addresses
    }
}

/// While a relay is held its address is out of the pool, so a second request
/// for it gives nothing; releasing the relay puts the address back, and the
/// pool is then as it was before the relay was taken.
pub proof fn lemma_exclusive_ownership(pool: Set<u8>, a: u8)
    requires
        pool.contains(a),
    ensures
        !pool.remove(a).contains(a),
        pool.remove(a).insert(a) == pool,
        pool.remove(a).insert(a).contains(a),
{
    assert(pool.remove(a).insert(a) =~= pool);
}


} // verus!
