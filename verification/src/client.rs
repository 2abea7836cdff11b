use vstd::prelude::*;
use crate::clock::now_ts;
use crate::text::str_eq;

verus! {

/// What one session's record holds, as mathematical values.
#[verifier::ext_equal]
pub struct ClientRec {
    pub nick: Seq<char>,
    pub addr: u64,
    pub connected_at: i64,
    pub last_seen: Option<i64>,
}

/// One connected client: its nickname (empty until the handshake is done),
/// the identifier of its connection endpoint, the moment the connection was
/// accepted, and the moment of its last chat line (`None` until it sends one).
#[derive(Debug)]
pub struct Client {
    pub nick: String,
    pub addr: u64,
    pub connected_at: i64,
    pub last_seen: Option<i64>,
}

impl View for Client {
    type V = ClientRec;

    open spec fn view(&self) -> ClientRec {
        ClientRec {
            nick: self.nick@,
            addr: self.addr,
            connected_at: self.connected_at,
            last_seen: self.last_seen,
        }
    }
}

impl Clone for Client {
    /// A copy that reads the same.
    fn clone(&self) -> (r: Self)
        ensures
            r@ == self@,
    {
        Client {
            nick: self.nick.clone(),
            addr: self.addr,
            connected_at: self.connected_at,
            last_seen: self.last_seen,
        }
    }
}

impl Client {
    /// A record for a connection just accepted: nickname still empty, the
    /// connection moment taken from the clock, no chat line seen yet.
    pub fn new(addr: u64) -> (r: Client)
        ensures
            r.nick@ == Seq::<char>::empty(),
            r.addr == addr,
            r.last_seen is None,
    {
        let r = Client { nick: String::new(), addr, connected_at: now_ts(), last_seen: None };
        r
    }

    pub fn set_nick(&mut self, nick: &str)
        ensures
            final(self).nick@ == nick@,
            final(self).addr == old(self).addr,
            final(self).connected_at == old(self).connected_at,
            final(self).last_seen == old(self).last_seen,
    {
        self.nick = String::from_str(nick);
    }
}

/// Whether some record carries the nickname `n`.
pub open spec fn has_nick(s: Seq<ClientRec>, n: Seq<char>) -> bool {
    exists|i: int| 0 <= i < s.len() && s[i].nick == n
}

/// Whether some record carries the address `a`.
pub open spec fn has_addr(s: Seq<ClientRec>, a: u64) -> bool {
    exists|i: int| 0 <= i < s.len() && s[i].addr == a
}

/// The records whose address is not `a`, in order.
pub open spec fn without_addr(s: Seq<ClientRec>, a: u64) -> Seq<ClientRec>
    decreases s.len(),
{
    if s.len() == 0 {
        s
    } else if s.last().addr == a {
        without_addr(s.drop_last(), a)
    } else {
        without_addr(s.drop_last(), a).push(s.last())
    }
}

/// The records whose nickname is not `n`, in order.
pub open spec fn without_nick(s: Seq<ClientRec>, n: Seq<char>) -> Seq<ClientRec>
    decreases s.len(),
{
    if s.len() == 0 {
        s
    } else if s.last().nick == n {
        without_nick(s.drop_last(), n)
    } else {
        without_nick(s.drop_last(), n).push(s.last())
    }
}

/// The nicknames of the records, in registry order.
pub open spec fn nick_list(s: Seq<ClientRec>) -> Seq<Seq<char>> {
    s.map_values(|c: ClientRec| c.nick)
}

/// The first record carrying the nickname `n`, if any.
pub open spec fn first_with_nick(s: Seq<ClientRec>, n: Seq<char>) -> Option<ClientRec>
    decreases s.len(),
{
    if s.len() == 0 {
        None
    } else if s[0].nick == n {
        Some(s[0])
    } else {
        first_with_nick(s.drop_first(), n)
    }
}

/// The position of the first record carrying the address `a`, or `s.len()`
/// if there is none.
pub open spec fn first_addr_index(s: Seq<ClientRec>, a: u64) -> int
    decreases s.len(),
{
    if s.len() == 0 {
        0
    } else if s[0].addr == a {
        0
    } else {
        1 + first_addr_index(s.drop_first(), a)
    }
}

/// No two records carry the same non-empty nickname.
pub open spec fn nicks_unique(s: Seq<ClientRec>) -> bool {
    forall|i: int, j: int|
        0 <= i < j < s.len() && s[i].nick.len() > 0 ==> s[i].nick != s[j].nick
}

pub proof fn lemma_first_addr_index(s: Seq<ClientRec>, a: u64)
    ensures
        0 <= first_addr_index(s, a) <= s.len(),
        has_addr(s, a) == (first_addr_index(s, a) < s.len()),
        first_addr_index(s, a) < s.len() ==> s[first_addr_index(s, a)].addr == a,
        forall|j: int| 0 <= j < first_addr_index(s, a) ==> s[j].addr != a,
    decreases s.len(),
{
    if s.len() == 0 {
    } else if s[0].addr == a {
    } else {
        lemma_first_addr_index(s.drop_first(), a);
        let k = first_addr_index(s.drop_first(), a);
        if k < s.len() - 1 {
            assert(s[1 + k].addr == a);
        }
        assert forall|j: int| 0 <= j < first_addr_index(s, a) implies s[j].addr != a by {
            if j > 0 {
                assert(s.drop_first()[j - 1].addr != a);
            }
        }
        if has_addr(s, a) {
            let w = choose|i: int| 0 <= i < s.len() && s[i].addr == a;
            assert(s.drop_first()[w - 1].addr == a);
        }
        if has_addr(s.drop_first(), a) {
            let w = choose|i: int| 0 <= i < s.drop_first().len() && s.drop_first()[i].addr == a;
            assert(s[w + 1].addr == a);
        }
    }
}

pub proof fn lemma_first_with_nick(s: Seq<ClientRec>, n: Seq<char>)
    ensures
        (first_with_nick(s, n) is Some) == has_nick(s, n),
        first_with_nick(s, n) matches Some(c) ==> c.nick == n && s.contains(c),
    decreases s.len(),
{
    if s.len() == 0 {
    } else if s[0].nick == n {
    } else {
        lemma_first_with_nick(s.drop_first(), n);
        if has_nick(s, n) {
            let w = choose|i: int| 0 <= i < s.len() && s[i].nick == n;
            assert(s.drop_first()[w - 1].nick == n);
        }
        if has_nick(s.drop_first(), n) {
            let w = choose|i: int| 0 <= i < s.drop_first().len() && s.drop_first()[i].nick == n;
            assert(s[w + 1].nick == n);
        }
        if first_with_nick(s, n) is Some {
            let c = first_with_nick(s, n)->Some_0;
            assert(s.drop_first().contains(c));
            let w = choose|i: int| 0 <= i < s.drop_first().len() && s.drop_first()[i] == c;
            assert(s[w + 1] == c);
        }
    }
}

proof fn lemma_without_addr_push(s: Seq<ClientRec>, x: ClientRec, a: u64)
    ensures
        without_addr(s.push(x), a) == if x.addr != a {
            without_addr(s, a).push(x)
        } else {
            without_addr(s, a)
        },
{
    let t = s.push(x);
    assert(t.last() == x);
    assert(t.drop_last() =~= s);
}

proof fn lemma_without_nick_push(s: Seq<ClientRec>, x: ClientRec, n: Seq<char>)
    ensures
        without_nick(s.push(x), n) == if x.nick != n {
            without_nick(s, n).push(x)
        } else {
            without_nick(s, n)
        },
{
    let t = s.push(x);
    assert(t.last() == x);
    assert(t.drop_last() =~= s);
}

/// Every record that removal keeps stood in the registry before.
pub proof fn lemma_without_addr_contains(s: Seq<ClientRec>, a: u64)
    ensures
        forall|x: ClientRec| without_addr(s, a).contains(x) ==> s.contains(x),
        forall|x: ClientRec| #[trigger] without_addr(s, a).contains(x) ==> x.addr != a,
    decreases s.len(),
{
    if s.len() > 0 {
        lemma_without_addr_contains(s.drop_last(), a);
        assert forall|x: ClientRec| #[trigger] without_addr(s, a).contains(x) implies s.contains(x)
            && x.addr != a by {
            let out = without_addr(s, a);
            let w = choose|k: int| 0 <= k < out.len() && out[k] == x;
            let sub = without_addr(s.drop_last(), a);
            if s.last().addr != a && w == out.len() - 1 {
                assert(x == s.last());
                assert(s[s.len() - 1] == x);
            } else {
                assert(0 <= w < sub.len() && sub[w] == x);
                assert(sub.contains(x));
                assert(s.drop_last().contains(x));
                let u = choose|k: int| 0 <= k < s.drop_last().len() && s.drop_last()[k] == x;
                assert(s[u] == x);
            }
        }
    }
}

/// Every record that removal keeps stood in the registry before.
pub proof fn lemma_without_nick_contains(s: Seq<ClientRec>, n: Seq<char>)
    ensures
        forall|x: ClientRec| without_nick(s, n).contains(x) ==> s.contains(x),
        forall|x: ClientRec| #[trigger] without_nick(s, n).contains(x) ==> x.nick != n,
    decreases s.len(),
{
    if s.len() > 0 {
        lemma_without_nick_contains(s.drop_last(), n);
        assert forall|x: ClientRec| #[trigger] without_nick(s, n).contains(x) implies s.contains(x)
            && x.nick != n by {
            let out = without_nick(s, n);
            let w = choose|k: int| 0 <= k < out.len() && out[k] == x;
            let sub = without_nick(s.drop_last(), n);
            if s.last().nick != n && w == out.len() - 1 {
                assert(x == s.last());
                assert(s[s.len() - 1] == x);
            } else {
                assert(0 <= w < sub.len() && sub[w] == x);
                assert(sub.contains(x));
                assert(s.drop_last().contains(x));
                let u = choose|k: int| 0 <= k < s.drop_last().len() && s.drop_last()[k] == x;
                assert(s[u] == x);
            }
        }
    }
}

/// Uniqueness law: inserting a record whose nickname no present record
/// carries keeps the nicknames pairwise distinct.
pub proof fn lemma_unique_push(s: Seq<ClientRec>, c: ClientRec)
    requires
        nicks_unique(s),
        !has_nick(s, c.nick),
    ensures
        nicks_unique(s.push(c)),
{
    let t = s.push(c);
    assert forall|i: int, j: int|
        0 <= i < j < t.len() && t[i].nick.len() > 0 implies t[i].nick != t[j].nick by {
        if j == t.len() - 1 {
            assert(t[j] == c);
            if t[i].nick == c.nick {
                assert(has_nick(s, c.nick));
            }
        }
    }
}

/// Uniqueness law: removing every record under one nickname keeps the
/// remaining nicknames pairwise distinct.
pub proof fn lemma_unique_without_nick(s: Seq<ClientRec>, n: Seq<char>)
    requires
        nicks_unique(s),
    ensures
        nicks_unique(without_nick(s, n)),
    decreases s.len(),
{
    if s.len() > 0 {
        assert(nicks_unique(s.drop_last()));
        lemma_unique_without_nick(s.drop_last(), n);
        let sub = without_nick(s.drop_last(), n);
        if s.last().nick != n {
            let out = sub.push(s.last());
            assert forall|i: int, j: int|
                0 <= i < j < out.len() && out[i].nick.len() > 0 implies out[i].nick
                != out[j].nick by {
                if j == out.len() - 1 && out[i].nick == s.last().nick {
                    lemma_without_nick_contains(s.drop_last(), n);
                    assert(0 <= i < sub.len() && sub[i] == out[i]);
                    assert(sub.contains(out[i]));
                    assert(s.drop_last().contains(out[i]));
                    let u = choose|k: int|
                        0 <= k < s.drop_last().len() && s.drop_last()[k] == out[i];
                    assert(s[u].nick == s[s.len() - 1].nick);
                }
            }
        }
    }
}

/// Uniqueness law: removing every record under one address keeps the
/// remaining nicknames pairwise distinct.
pub proof fn lemma_unique_without_addr(s: Seq<ClientRec>, a: u64)
    requires
        nicks_unique(s),
    ensures
        nicks_unique(without_addr(s, a)),
    decreases s.len(),
{
    if s.len() > 0 {
        assert(nicks_unique(s.drop_last()));
        lemma_unique_without_addr(s.drop_last(), a);
        let sub = without_addr(s.drop_last(), a);
        if s.last().addr != a {
            let out = sub.push(s.last());
            assert forall|i: int, j: int|
                0 <= i < j < out.len() && out[i].nick.len() > 0 implies out[i].nick
                != out[j].nick by {
                if j == out.len() - 1 && out[i].nick == s.last().nick {
                    lemma_without_addr_contains(s.drop_last(), a);
                    assert(0 <= i < sub.len() && sub[i] == out[i]);
                    assert(sub.contains(out[i]));
                    assert(s.drop_last().contains(out[i]));
                    let u = choose|k: int|
                        0 <= k < s.drop_last().len() && s.drop_last()[k] == out[i];
                    assert(s[u].nick == s[s.len() - 1].nick);
                }
            }
        }
    }
}

/// The directory of connected sessions: pure data. Callers that share one
/// `Clients` value across tasks guard it with a single lock and hold that
/// lock exactly for the duration of one call.
#[derive(Debug)]
pub struct Clients {
    pub connections: Vec<Client>,
}

impl View for Clients {
    type V = Seq<ClientRec>;

    open spec fn view(&self) -> Seq<ClientRec> {
        self.connections@.map_values(|c: Client| c@)
    }
}

impl Clients {
    /// An empty registry, where the nicknames are trivially pairwise
    /// distinct.
    pub fn new() -> (r: Clients)
        ensures
            r@ == Seq::<ClientRec>::empty(),
            nicks_unique(r@),
    {
        let r = Clients { connections: Vec::new() };
        proof {
            assert(r@ =~= Seq::<ClientRec>::empty());
        }
        r
    }

    /// Appends the record. No uniqueness check happens here: callers check
    /// before they insert.
    pub fn add(&mut self, client: Client)
        ensures
            final(self)@ == old(self)@.push(client@),
    {
        let ghost orig = self@;
        let ghost rec = client@;
        self.connections.push(client);
        proof {
            assert(self@ =~= orig.push(rec));
        }
    }

    /// Removes every record carrying the address; a registry without one is
    /// left as it is.
    pub fn remove_by_addr(&mut self, addr: u64)
        ensures
            final(self)@ == without_addr(old(self)@, addr),
    {
        let ghost orig = self@;
        let mut kept: Vec<Client> = Vec::new();
        proof {
            assert(orig.take(0) =~= Seq::<ClientRec>::empty());
            assert(kept@.map_values(|c: Client| c@) =~= without_addr(orig.take(0), addr));
        }
        let n = self.connections.len();
        let mut i: usize = 0;
        while i < n
            invariant
                0 <= i <= n,
                n == self.connections.len(),
                self@ == orig,
                orig.len() == n,
                kept@.map_values(|c: Client| c@) == without_addr(orig.take(i as int), addr),
            decreases n - i,
        {
            let ghost prev = kept@.map_values(|c: Client| c@);
            if self.connections[i].addr != addr {
                let copied = self.connections[i].clone();
                kept.push(copied);
            }
            proof {
                lemma_without_addr_push(orig.take(i as int), orig[i as int], addr);
                assert(orig.take(i + 1) =~= orig.take(i as int).push(orig[i as int]));
                assert(orig[i as int] == self.connections@[i as int]@);
                if orig[i as int].addr != addr {
                    assert(kept@.map_values(|c: Client| c@) =~= prev.push(orig[i as int]));
                } else {
                    assert(kept@.map_values(|c: Client| c@) =~= prev);
                }
            }
            i += 1;
        }
        self.connections = kept;
        proof {
            assert(orig.take(n as int) =~= orig);
        }
    }

    /// Removes every record carrying the nickname; a registry without one is
    /// left as it is.
    pub fn remove_by_nick(&mut self, nick: &str)
        ensures
            final(self)@ == without_nick(old(self)@, nick@),
    {
        let ghost orig = self@;
        let mut kept: Vec<Client> = Vec::new();
        proof {
            assert(orig.take(0) =~= Seq::<ClientRec>::empty());
            assert(kept@.map_values(|c: Client| c@) =~= without_nick(orig.take(0), nick@));
        }
        let n = self.connections.len();
        let mut i: usize = 0;
        while i < n
            invariant
                0 <= i <= n,
                n == self.connections.len(),
                self@ == orig,
                orig.len() == n,
                kept@.map_values(|c: Client| c@) == without_nick(orig.take(i as int), nick@),
            decreases n - i,
        {
            let ghost prev = kept@.map_values(|c: Client| c@);
            if !str_eq(self.connections[i].nick.as_str(), nick) {
                let copied = self.connections[i].clone();
                kept.push(copied);
            }
            proof {
                lemma_without_nick_push(orig.take(i as int), orig[i as int], nick@);
                assert(orig.take(i + 1) =~= orig.take(i as int).push(orig[i as int]));
                assert(orig[i as int] == self.connections@[i as int]@);
                if orig[i as int].nick != nick@ {
                    assert(kept@.map_values(|c: Client| c@) =~= prev.push(orig[i as int]));
                } else {
                    assert(kept@.map_values(|c: Client| c@) =~= prev);
                }
            }
            i += 1;
        }
        self.connections = kept;
        proof {
            assert(orig.take(n as int) =~= orig);
        }
    }

    /// A copy of the first record carrying the nickname, if any.
    pub fn retrieve_by_nick(&self, target: &str) -> (r: Option<Client>)
        ensures
            (r is Some) == has_nick(self@, target@),
            r matches Some(c) ==> first_with_nick(self@, target@) == Some(c@),
    {
        let n = self.connections.len();
        let mut i: usize = 0;
        while i < n
            invariant
                0 <= i <= n,
                n == self.connections.len(),
                n == self@.len(),
                forall|k: int| 0 <= k < i ==> self@[k].nick != target@,
            decreases n - i,
        {
            if str_eq(self.connections[i].nick.as_str(), target) {
                let found = self.connections[i].clone();
                proof {
                    lemma_first_with_nick_skip(self@, target@, i as int);
                    assert(self@.skip(i as int)[0] == self@[i as int]);
                }
                return Some(found);
            }
            i += 1;
        }
        proof {
            lemma_first_with_nick_skip(self@, target@, n as int);
            assert(self@.skip(n as int).len() == 0);
            if has_nick(self@, target@) {
                let w = choose|k: int| 0 <= k < self@.len() && self@[k].nick == target@;
            }
        }
        None
    }

    /// The nicknames of all records, in registry order.
    pub fn list_clients(&self) -> (r: Vec<String>)
        ensures
            r.deep_view() == nick_list(self@),
    {
        let n = self.connections.len();
        let mut r: Vec<String> = Vec::new();
        let mut i: usize = 0;
        while i < n
            invariant
                0 <= i <= n,
                n == self.connections.len(),
                n == self@.len(),
                r.deep_view() == nick_list(self@).take(i as int),
            decreases n - i,
        {
            let ghost prev = r.deep_view();
            r.push(self.connections[i].nick.clone());
            proof {
                assert(r.deep_view() =~= prev.push(self@[i as int].nick));
                assert(nick_list(self@).take(i + 1) =~= nick_list(self@).take(i as int).push(
                    self@[i as int].nick,
                ));
            }
            i += 1;
        }
        proof {
            assert(nick_list(self@).take(n as int) =~= nick_list(self@));
        }
        r
    }

    /// Whether a record carries the address.
    pub fn check_by_addr(&self, addr: u64) -> (r: bool)
        ensures
            r == has_addr(self@, addr),
    {
        let n = self.connections.len();
        let mut i: usize = 0;
        while i < n
            invariant
                0 <= i <= n,
                n == self.connections.len(),
                n == self@.len(),
                forall|k: int| 0 <= k < i ==> self@[k].addr != addr,
            decreases n - i,
        {
            if self.connections[i].addr == addr {
                proof {
                    assert(0 <= i < self@.len() && self@[i as int].addr == addr);
                }
                return true;
            }
            i += 1;
        }
        proof {
            if has_addr(self@, addr) {
                let w = choose|k: int| 0 <= k < self@.len() && self@[k].addr == addr;
            }
        }
        false
    }

    /// Whether a record carries the nickname.
    pub fn check_by_nick(&self, nick: &str) -> (r: bool)
        ensures
            r == has_nick(self@, nick@),
    {
        let n = self.connections.len();
        let mut i: usize = 0;
        while i < n
            invariant
                0 <= i <= n,
                n == self.connections.len(),
                n == self@.len(),
                forall|k: int| 0 <= k < i ==> self@[k].nick != nick@,
            decreases n - i,
        {
            if str_eq(self.connections[i].nick.as_str(), nick) {
                proof {
                    assert(0 <= i < self@.len() && self@[i as int].nick == nick@);
                }
                return true;
            }
            i += 1;
        }
        proof {
            if has_nick(self@, nick@) {
                let w = choose|k: int| 0 <= k < self@.len() && self@[k].nick == nick@;
            }
        }
        false
    }

    /// Marks the first record carrying the address as active now, the moment
    /// taken from the clock; a registry without one is left as it is.
    pub fn set_last_seen(&mut self, addr: u64)
        ensures
            final(self)@.len() == old(self)@.len(),
            forall|i: int|
                0 <= i < old(self)@.len() && i != first_addr_index(old(self)@, addr)
                    ==> final(self)@[i] == old(self)@[i],
            has_addr(old(self)@, addr) ==> {
                &&& final(self)@[first_addr_index(old(self)@, addr)].nick == old(self)@[first_addr_index(
                    old(self)@,
                    addr,
                )].nick
                &&& final(self)@[first_addr_index(old(self)@, addr)].addr == addr
                &&& final(self)@[first_addr_index(old(self)@, addr)].connected_at == old(self)@[first_addr_index(
                    old(self)@,
                    addr,
                )].connected_at
                &&& final(self)@[first_addr_index(old(self)@, addr)].last_seen is Some
            },
            !has_addr(old(self)@, addr) ==> final(self)@ == old(self)@,
    {
        let ghost orig = self@;
        let t = now_ts();
        let n = self.connections.len();
        let mut i: usize = 0;
        while i < n
            invariant
                0 <= i <= n,
                n == self.connections.len(),
                self@ == orig,
                orig == old(self)@,
                orig.len() == n,
                forall|k: int| 0 <= k < i ==> orig[k].addr != addr,
            decreases n - i,
        {
            if self.connections[i].addr == addr {
                let mut updated = self.connections[i].clone();
                updated.last_seen = Some(t);
                let ghost urec = updated@;
                proof {
                    lemma_first_addr_index(orig, addr);
                    assert(orig[i as int].addr == addr);
                    assert(first_addr_index(orig, addr) == i as int);
                }
                self.connections.set(i, updated);
                proof {
                    assert(self@ =~= orig.update(i as int, urec));
                }
                return ;
            }
            i += 1;
        }
        proof {
            lemma_first_addr_index(orig, addr);
            if has_addr(orig, addr) {
                let w = choose|k: int| 0 <= k < orig.len() && orig[k].addr == addr;
            }
        }
    }
}

proof fn lemma_first_with_nick_skip(s: Seq<ClientRec>, n: Seq<char>, k: int)
    requires
        0 <= k <= s.len(),
        forall|j: int| 0 <= j < k ==> s[j].nick != n,
    ensures
        first_with_nick(s, n) == first_with_nick(s.skip(k), n),
    decreases k,
{
    if k == 0 {
        assert(s.skip(0) =~= s);
    } else {
        assert(s.drop_first() =~= s.skip(1));
        lemma_first_with_nick_skip(s.skip(1), n, k - 1);
        assert(s.skip(1).skip(k - 1) =~= s.skip(k));
    }
}

} // verus!
