//! The table of host names that resolution consults when a host is no literal address.

use vstd::prelude::*;
use vstd::string::StrSliceExecFns;
use crate::ip::{IpAddr, Ipv4Addr};

verus! {

/// The characters of `s`, in order.
pub fn chars_of(s: &str) -> (r: Vec<char>)
    ensures
        r@ == s@,
{
    let n = s.unicode_len();
    let mut r: Vec<char> = Vec::new();
    let mut i: usize = 0;
    while i < n
        invariant
            n == s@.len(),
            i <= n,
            r@ == s@.subrange(0, i as int),
        decreases n - i,
    {
        r.push(s.get_char(i));
        i = i + 1;
        assert(r@ =~= s@.subrange(0, i as int));
    }
    assert(s@.subrange(0, n as int) =~= s@);
    r
}

/// Whether two character sequences are equal.
pub fn chars_eq(a: &Vec<char>, b: &Vec<char>) -> (r: bool)
    ensures
        r == (a@ == b@),
{
    if a.len() != b.len() {
        return false;
    }
    let mut i: usize = 0;
    while i < a.len()
        invariant
            a@.len() == b@.len(),
            i <= a@.len(),
            forall|k: int| 0 <= k < i ==> a@[k] == b@[k],
        decreases a@.len() - i,
    {
        if a[i] != b[i] {
            return false;
        }
        i = i + 1;
    }
    assert(a@ =~= b@);
    true
}

/// A mapping from host names to IP addresses. At most one address stands for each name.
pub struct DnsTable {
    records: Vec<(Vec<char>, IpAddr)>,
    map: Ghost<Map<Seq<char>, IpAddr>>,
}

impl View for DnsTable {
    type V = Map<Seq<char>, IpAddr>;

    closed spec fn view(&self) -> Map<Seq<char>, IpAddr> {
        self.map@
    }
}

impl DnsTable {
    /// The records are the mapping, one record for each name.
    pub closed spec fn wf(&self) -> bool {
        &&& forall|i: int|
            0 <= i < self.records@.len() ==> #[trigger] self.map@.contains_key(
                self.records@[i].0@,
            ) && self.map@[self.records@[i].0@] == self.records@[i].1
        &&& forall|k: Seq<char>| #[trigger]
            self.map@.contains_key(k) ==> exists|i: int|
                0 <= i < self.records@.len() && #[trigger] self.records@[i].0@ == k
        &&& forall|i: int, j: int|
            0 <= i < j < self.records@.len() ==> #[trigger] self.records@[i].0@
                != #[trigger] self.records@[j].0@
    }

    /// A table with no names in it.
    pub fn empty() -> (r: DnsTable)
        ensures
            r.wf(),
            r@ == Map::<Seq<char>, IpAddr>::empty(),
    {
        DnsTable { records: Vec::new(), map: Ghost(Map::empty()) }
    }

    /// A table in which `localhost` stands for 127.0.0.1 and no other name is known. Loopback
    /// names get no special treatment in resolution: `localhost` resolves because it is here.
    pub fn new() -> (r: DnsTable)
        ensures
            r.wf(),
            r@ == Map::<Seq<char>, IpAddr>::empty().insert(
                "localhost"@,
                IpAddr::V4(Ipv4Addr { octets: [127u8, 0u8, 0u8, 1u8] }),
            ),
    {
        let mut t = DnsTable::empty();
        let ip = Ipv4Addr::localhost();
        assert(ip.octets@ =~= [127u8, 0u8, 0u8, 1u8]@);
        t.add_dns_record("localhost", IpAddr::V4(ip));
        proof {
            assert(ip.octets =~= [127u8, 0u8, 0u8, 1u8]);
        }
        t
    }

    /// The address that `host` stands for, if any.
    pub fn lookup_chars(&self, host: &Vec<char>) -> (r: Option<IpAddr>)
        requires
            self.wf(),
        ensures
            r == (if self@.contains_key(host@) {
                Some(self@[host@])
            } else {
                None
            }),
    {
        let mut i: usize = 0;
        while i < self.records.len()
            invariant
                self.wf(),
                i <= self.records@.len(),
                forall|j: int| 0 <= j < i ==> self.records@[j].0@ != host@,
            decreases self.records@.len() - i,
        {
            if chars_eq(&self.records[i].0, host) {
                assert(self.map@.contains_key(self.records@[i as int].0@));
                return Some(self.records[i].1);
            }
            i = i + 1;
        }
        None
    }

    /// The address that `host` stands for, if any.
    pub fn lookup_host_ip(&self, host: &str) -> (r: Option<IpAddr>)
        requires
            self.wf(),
        ensures
            r == (if self@.contains_key(host@) {
                Some(self@[host@])
            } else {
                None
            }),
    {
        let h = chars_of(host);
        self.lookup_chars(&h)
    }

    /// Lets `host` stand for `ip`, in place of whatever it stood for before.
    pub fn add_dns_record(&mut self, host: &str, ip: IpAddr)
        requires
            old(self).wf(),
        ensures
            final(self).wf(),
            final(self)@ == old(self)@.insert(host@, ip),
    {
        let h = chars_of(host);
        let ghost key = h@;
        let mut i: usize = 0;
        while i < self.records.len()
            invariant
                self.wf(),
                self@ == old(self)@,
                key == h@,
                key == host@,
                i <= self.records@.len(),
                forall|j: int| 0 <= j < i ==> self.records@[j].0@ != key,
            decreases self.records@.len() - i,
        {
            if chars_eq(&self.records[i].0, &h) {
                let ghost old_records = self.records@;
                self.records.set(i, (h, ip));
                self.map = Ghost(self.map@.insert(key, ip));

                proof {
                    assert forall|k: Seq<char>| #[trigger]
                        self.map@.contains_key(k) implies exists|j: int|
                            0 <= j < self.records@.len() && #[trigger] self.records@[j].0@ == k by {
                        if k != key {
                            let j = choose|j: int|
                                0 <= j < old_records.len() && #[trigger] old_records[j].0@ == k;
                            assert(self.records@[j].0@ == k);
                        } else {
                            assert(self.records@[i as int].0@ == k);
                        }
                    }
                }
                return;
            }
            i = i + 1;
        }
        let ghost old_records = self.records@;
        self.records.push((h, ip));
        self.map = Ghost(self.map@.insert(key, ip));
        proof {
            assert forall|k: Seq<char>| #[trigger]
                self.map@.contains_key(k) implies exists|j: int|
                    0 <= j < self.records@.len() && #[trigger] self.records@[j].0@ == k by {
                if k != key {
                    let j = choose|j: int|
                        0 <= j < old_records.len() && #[trigger] old_records[j].0@ == k;
                    assert(self.records@[j].0@ == k);
                } else {
                    assert(self.records@[old_records.len() as int].0@ == k);
                }
            }
        }
    }
}

} // verus!
