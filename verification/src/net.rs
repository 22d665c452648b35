//! Addresses of clients, sets of them, and who may connect.
use vstd::prelude::*;

verus! {

/// An IP address: the 32 bits of an IPv4 address or the 128 bits of an IPv6 address,
/// most significant octet first.
#[derive(Clone, Copy, Debug, PartialEq, Eq, Structural)]
pub enum IpAddr {
    V4(u32),
    V6(u128),
}

impl IpAddr {
    /// The address is in `127.0.0.0/8` or is `::1`.
    pub open spec fn loopback(self) -> bool {
        match self {
            IpAddr::V4(bits) => 127 * 0x100_0000 <= bits < 128 * 0x100_0000,
            IpAddr::V6(bits) => bits == 1,
        }
    }

    /// Whether this is a loopback address.
    pub fn is_loopback(&self) -> (yes: bool)
        ensures
            yes == self.loopback(),
            yes == (match *self {
                IpAddr::V4(bits) => 0x7f00_0000 <= bits <= 0x7fff_ffff,
                IpAddr::V6(bits) => bits == 1,
            }),
    {
        match *self {
            IpAddr::V4(bits) => bits / 0x100_0000 == 127,
            IpAddr::V6(bits) => bits == 1,
        }
    }
}

/// Loopback addresses are those whose first octet is 127, and `::1`.
pub proof fn law_loopback(v4: u32, v6: u128)
    ensures
        IpAddr::V4(v4).loopback() <==> v4 / 0x100_0000 == 127,
        IpAddr::V6(v6).loopback() <==> v6 == 1,
{
}

/// The first position of `ip` in `ips`.
fn position(ips: &Vec<IpAddr>, ip: IpAddr) -> (found: Option<usize>)
    ensures
        match found {
            Some(i) => i < ips@.len() && ips@[i as int] == ip && !ips@.take(i as int).contains(ip),
            None => !ips@.contains(ip),
        },
{
    let mut i: usize = 0;
    while i < ips.len()
        invariant
            i <= ips@.len(),
            forall|j: int| 0 <= j < i ==> ips@[j] != ip,
        decreases ips@.len() - i,
    {
        if ips[i] == ip {
            return Some(i);
        }
        i = i + 1;
    }
    None
}

/// A set of addresses.
pub struct IpSet {
    ips: Vec<IpAddr>,
}

impl View for IpSet {
    type V = Set<IpAddr>;

    closed spec fn view(&self) -> Set<IpAddr> {
        self.ips@.to_set()
    }
}

impl IpSet {
    /// No address is held twice.
    #[verifier::type_invariant]
    spec fn held_once(self) -> bool {
        self.ips@.no_duplicates()
    }

    /// The empty set.
    pub fn new() -> (set: IpSet)
        ensures
            set@ == Set::<IpAddr>::empty(),
    {
        let set = IpSet { ips: Vec::new() };
        proof {
            assert(set@ =~= Set::<IpAddr>::empty());
        }
        set
    }

    /// Whether `ip` is in the set.
    pub fn contains(&self, ip: IpAddr) -> (yes: bool)
        ensures
            yes == self@.contains(ip),
    {
        position(&self.ips, ip).is_some()
    }

    /// Puts `ip` into the set. Returns whether it is new there.
    pub fn insert(&mut self, ip: IpAddr) -> (added: bool)
        ensures
            final(self)@ == old(self)@.insert(ip),
            added == !old(self)@.contains(ip),
    {
        proof {
            use_type_invariant(&*self);
        }
        if position(&self.ips, ip).is_some() {
            proof {
                assert(self@ =~= self@.insert(ip));
            }
            return false;
        }
        let mut ips: Vec<IpAddr> = Vec::new();
        std::mem::swap(&mut ips, &mut self.ips);
        let ghost before = ips@;
        ips.push(ip);
        proof {
            assert(ips@.to_set() =~= before.to_set().insert(ip)) by {
                assert forall|x: IpAddr| before.to_set().insert(ip).contains(x) implies #[trigger] ips@.contains(
                    x,
                ) by {
                    if x == ip {
                        assert(ips@[before.len() as int] == ip);
                    } else {
                        let j = before.index_of(x);
                        assert(ips@[j] == x);
                    }
                }
            }
        }
        self.ips = ips;
        true
    }

    /// Takes `ip` out of the set. Returns whether it was there.
    pub fn remove(&mut self, ip: IpAddr) -> (removed: bool)
        ensures
            final(self)@ == old(self)@.remove(ip),
            removed == old(self)@.contains(ip),
    {
        proof {
            use_type_invariant(&*self);
        }
        match position(&self.ips, ip) {
            None => {
                proof {
                    assert(self@ =~= self@.remove(ip));
                }
                false
            },
            Some(i) => {
                let mut ips: Vec<IpAddr> = Vec::new();
                std::mem::swap(&mut ips, &mut self.ips);
                let ghost before = ips@;
                ips.remove(i);
                proof {
                    assert(before.contains(ip));
                    assert(ips@.to_set() =~= before.to_set().remove(ip)) by {
                        assert forall|x: IpAddr| before.to_set().remove(ip).contains(x) implies #[trigger] ips@.contains(
                            x,
                        ) by {
                            let j = before.index_of(x);
                            if j < i {
                                assert(ips@[j] == x);
                            } else {
                                assert(ips@[j - 1] == x);
                            }
                        }
                    }
                }
                self.ips = ips;
                true
            },
        }
    }

    /// The members of the set, each once.
    pub fn members(&self) -> (ips: Vec<IpAddr>)
        ensures
            ips@.no_duplicates(),
            ips@.to_set() == self@,
    {
        proof {
            use_type_invariant(self);
        }
        vstd::slice::slice_to_vec(self.ips.as_slice())
    }
}

/// The addresses that may connect: at least one.
pub struct Whitelist {
    ips: Vec<IpAddr>,
}

impl View for Whitelist {
    type V = Seq<IpAddr>;

    closed spec fn view(&self) -> Seq<IpAddr> {
        self.ips@
    }
}

/// The command line named no address.
#[derive(Clone, Copy, Debug, PartialEq, Eq, Structural)]
pub struct EmptyWhitelist;

impl Whitelist {
    /// There is at least one address.
    #[verifier::type_invariant]
    spec fn not_empty(self) -> bool {
        self.ips@.len() > 0
    }

    /// The whitelist of the given addresses, in the given order. An empty one is
    /// refused.
    pub fn new(ips: Vec<IpAddr>) -> (list: Result<Whitelist, EmptyWhitelist>)
        ensures
            match list {
                Ok(list) => ips@.len() > 0 && list@ == ips@,
                Err(_) => ips@.len() == 0,
            },
    {
        if ips.len() == 0 {
            Err(EmptyWhitelist)
        } else {
            Ok(Whitelist { ips })
        }
    }

    /// Whether `ip` may connect.
    pub fn contains(&self, ip: IpAddr) -> (yes: bool)
        ensures
            yes == self@.contains(ip),
    {
        position(&self.ips, ip).is_some()
    }

    /// The addresses in order.
    pub fn addresses(&self) -> (ips: Vec<IpAddr>)
        ensures
            ips@ == self@,
            ips@.len() > 0,
    {
        proof {
            use_type_invariant(self);
        }
        vstd::slice::slice_to_vec(self.ips.as_slice())
    }
}

/// What becomes of a request that arrived.
#[derive(Clone, Copy, Debug, PartialEq, Eq, Structural)]
pub enum Admission {
    /// It is answered with the status 403.
    Forbidden,
    /// It goes on to the handler of its route.
    Next,
}

/// Lets a request through if its sender is on the whitelist.
pub fn whitelist_middleware(whitelist: &Whitelist, addr: IpAddr) -> (admission: Admission)
    ensures
        admission == (if whitelist@.contains(addr) {
            Admission::Next
        } else {
            Admission::Forbidden
        }),
{
    if !whitelist.contains(addr) {
        return Admission::Forbidden;
    }
    Admission::Next
}

} // verus!
