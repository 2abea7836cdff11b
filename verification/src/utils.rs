use vstd::prelude::*;
use crate::bus::publish;
use crate::client::{
    Client, ClientRec, Clients, has_addr, has_nick, lemma_unique_push, lemma_unique_without_addr,
    lemma_unique_without_nick, lemma_without_addr_contains, nicks_unique, without_addr,
    without_nick,
};
use crate::text::{trim, trim_spec};

verus! {

/// How a nickname candidate fares against the handshake rules.
#[derive(Clone, Copy, Debug, PartialEq, Eq, Structural)]
pub enum NickCheck {
    /// Empty, not pure ASCII, or holding the command marker.
    Invalid,
    /// Shorter than three characters.
    TooShort,
    /// Longer than fifteen characters.
    TooLong,
    /// Fit to be taken, if nobody holds it.
    Fine,
}

/// Whether every character is plain ASCII.
pub open spec fn all_ascii(n: Seq<char>) -> bool {
    forall|i: int| 0 <= i < n.len() ==> (n[i] as u32) < 128
}

/// Which handshake rule a (already trimmed) candidate trips, if any: it
/// must be non-empty, pure ASCII, free of the command marker `/`, and
/// three to fifteen characters long.
pub open spec fn nick_check(n: Seq<char>) -> NickCheck {
    if !(n.len() > 0 && all_ascii(n) && !n.contains('/')) {
        NickCheck::Invalid
    } else if n.len() < 3 {
        NickCheck::TooShort
    } else if n.len() > 15 {
        NickCheck::TooLong
    } else {
        NickCheck::Fine
    }
}

fn classify_nick(s: &str) -> (r: NickCheck)
    ensures
        r == nick_check(s@),
{
    let len = s.unicode_len();
    let mut clean = true;
    let mut i: usize = 0;
    while i < len
        invariant
            0 <= i <= len,
            len == s@.len(),
            clean == (forall|k: int| 0 <= k < i ==> (s@[k] as u32) < 128 && s@[k] != '/'),
        decreases len - i,
    {
        let c = s.get_char(i);
        if c as u32 >= 128 || c == '/' {
            clean = false;
        }
        i += 1;
    }
    proof {
        if clean {
            assert(all_ascii(s@));
            if s@.contains('/') {
                let w = choose|k: int| 0 <= k < s@.len() && s@[k] == '/';
            }
        } else {
            let w = choose|k: int| !(0 <= k < len ==> (s@[k] as u32) < 128 && s@[k] != '/');
            if s@[w] == '/' {
                assert(s@.contains('/'));
            }
        }
    }
    if len == 0 || !clean {
        NickCheck::Invalid
    } else if len < 3 {
        NickCheck::TooShort
    } else if len > 15 {
        NickCheck::TooLong
    } else {
        NickCheck::Fine
    }
}

/// What nickname negotiation left behind.
pub struct SetNickOutcome {
    /// Whether the candidate was accepted and the session joined.
    pub accepted: bool,
    /// The line to write back to the candidate's own session.
    pub response: String,
    /// The join notice put on the bus, if the candidate was accepted.
    pub notice: Option<String>,
}

/// One handshake round: validates the candidate, and on success records the
/// session in the registry and announces the join on the bus. The response
/// goes back to the candidate's own session only.
///
/// The uniqueness check and the insertion happen inside this one call, so a
/// caller that holds the registry lock across it makes them atomic as a
/// unit: two sessions racing on one candidate cannot both get it.
pub fn set_nick(
    tx: &tokio::sync::broadcast::Sender<String>,
    clients: &mut Clients,
    client: &mut Client,
    nick: &str,
) -> (r: SetNickOutcome)
    ensures
        r.accepted == (nick_check(trim_spec(nick@)) is Fine && !has_nick(
            old(clients)@,
            trim_spec(nick@),
        )),
        nick_check(trim_spec(nick@)) is Invalid ==> r.response@ == "server: please enter a valid nick\n"@,
        nick_check(trim_spec(nick@)) is TooShort ==> r.response@ == "server: nick is too short\n"@,
        nick_check(trim_spec(nick@)) is TooLong ==> r.response@ == "server: nick is too long\n"@,
        nick_check(trim_spec(nick@)) is Fine && has_nick(old(clients)@, trim_spec(nick@))
            ==> r.response@ == "server: nick is already taken\n"@,
        r.accepted ==> {
            &&& r.response@ == "server: welcome to chat\n"@
            &&& final(client).nick@ == trim_spec(nick@)
            &&& final(clients)@ == old(clients)@.push(final(client)@)
            &&& r.notice matches Some(l) && l@ == "server: "@ + trim_spec(nick@)
                + " has joined\n"@
        },
        !r.accepted ==> {
            &&& final(clients)@ == old(clients)@
            &&& final(client)@ == old(client)@
            &&& r.notice is None
        },
        final(client).addr == old(client).addr,
        final(client).connected_at == old(client).connected_at,
        final(client).last_seen == old(client).last_seen,
        nicks_unique(old(clients)@) ==> nicks_unique(final(clients)@),
{
    let candidate = trim(nick);
    match classify_nick(candidate) {
        NickCheck::Invalid => SetNickOutcome {
            accepted: false,
            response: String::from_str("server: please enter a valid nick\n"),
            notice: None,
        },
        NickCheck::TooShort => SetNickOutcome {
            accepted: false,
            response: String::from_str("server: nick is too short\n"),
            notice: None,
        },
        NickCheck::TooLong => SetNickOutcome {
            accepted: false,
            response: String::from_str("server: nick is too long\n"),
            notice: None,
        },
        NickCheck::Fine => {
            if !clients.check_by_nick(candidate) {
                client.set_nick(candidate);
                clients.add(client.clone());
                let mut line = String::from_str("server: ");
                line.append(candidate);
                line.append(" has joined\n");
                let notice = Some(line);
                publish(tx, &notice);
                proof {
                    if nicks_unique(old(clients)@) {
                        lemma_unique_push(old(clients)@, client@);
                    }
                }
                SetNickOutcome {
                    accepted: true,
                    response: String::from_str("server: welcome to chat\n"),
                    notice,
                }
            } else {
                SetNickOutcome {
                    accepted: false,
                    response: String::from_str("server: nick is already taken\n"),
                    notice: None,
                }
            }
        },
    }
}

/// What a rename request left behind.
pub struct NickOutcome {
    /// The line to write back to the issuing session, absent exactly when
    /// the rename went through, which is silent except for the notice.
    pub response: Option<String>,
    /// The rename notice put on the bus, if the rename went through.
    pub notice: Option<String>,
}

/// A rename during the active phase: validates the candidate as the
/// handshake does, and on success re-registers the session under the new
/// nickname, frees the old one, and announces the change on the bus.
///
/// As with the handshake, check and re-registration sit inside one call, so
/// under the registry lock they are atomic as a unit.
pub fn change_nick(
    tx: &tokio::sync::broadcast::Sender<String>,
    clients: &mut Clients,
    client: &mut Client,
    nick: &str,
) -> (r: NickOutcome)
    ensures
        (r.response is None) == (nick_check(trim_spec(nick@)) is Fine && !has_nick(
            old(clients)@,
            trim_spec(nick@),
        )),
        nick_check(trim_spec(nick@)) is Invalid ==> (r.response
            matches Some(l) && l@ == "server: please enter a valid nick\n"@),
        nick_check(trim_spec(nick@)) is TooShort ==> (r.response
            matches Some(l) && l@ == "server: nick is too short\n"@),
        nick_check(trim_spec(nick@)) is TooLong ==> (r.response
            matches Some(l) && l@ == "server: nick is too long\n"@),
        nick_check(trim_spec(nick@)) is Fine && has_nick(old(clients)@, trim_spec(nick@))
            ==> (r.response matches Some(l) && l@ == "server: nick is already taken\n"@),
        r.response is None ==> {
            &&& final(client).nick@ == trim_spec(nick@)
            &&& final(clients)@ == without_nick(
                old(clients)@.push(final(client)@),
                old(client).nick@,
            )
            &&& r.notice matches Some(l) && l@ == "server: "@ + old(client).nick@ + " is now "@
                + trim_spec(nick@) + "\n"@
        },
        r.response is Some ==> {
            &&& final(clients)@ == old(clients)@
            &&& final(client)@ == old(client)@
            &&& r.notice is None
        },
        final(client).addr == old(client).addr,
        final(client).connected_at == old(client).connected_at,
        final(client).last_seen == old(client).last_seen,
        nicks_unique(old(clients)@) ==> nicks_unique(final(clients)@),
{
    let candidate = trim(nick);
    match classify_nick(candidate) {
        NickCheck::Invalid => NickOutcome {
            response: Some(String::from_str("server: please enter a valid nick\n")),
            notice: None,
        },
        NickCheck::TooShort => NickOutcome {
            response: Some(String::from_str("server: nick is too short\n")),
            notice: None,
        },
        NickCheck::TooLong => NickOutcome {
            response: Some(String::from_str("server: nick is too long\n")),
            notice: None,
        },
        NickCheck::Fine => {
            if !clients.check_by_nick(candidate) {
                let old_nick = client.nick.clone();
                client.set_nick(candidate);
                clients.add(client.clone());
                clients.remove_by_nick(old_nick.as_str());
                let mut line = String::from_str("server: ");
                line.append(old_nick.as_str());
                line.append(" is now ");
                line.append(candidate);
                line.append("\n");
                let notice = Some(line);
                publish(tx, &notice);
                proof {
                    if nicks_unique(old(clients)@) {
                        lemma_unique_push(old(clients)@, client@);
                        lemma_unique_without_nick(
                            old(clients)@.push(client@),
                            old(client).nick@,
                        );
                    }
                }
                NickOutcome { response: None, notice }
            } else {
                NickOutcome {
                    response: Some(String::from_str("server: nick is already taken\n")),
                    notice: None,
                }
            }
        },
    }
}

/// Termination: if the session is still registered, announces its departure
/// once, and in every case removes its record. Running it again for the
/// same session finds the membership check false and stays silent.
pub fn shutdown(
    tx: &tokio::sync::broadcast::Sender<String>,
    clients: &mut Clients,
    client: Client,
) -> (notice: Option<String>)
    ensures
        final(clients)@ == without_addr(old(clients)@, client.addr),
        (notice is Some) == has_addr(old(clients)@, client.addr),
        notice matches Some(l) ==> l@ == "server: "@ + client.nick@ + " has left\n"@,
        nicks_unique(old(clients)@) ==> nicks_unique(final(clients)@),
{
    let mut notice: Option<String> = None;
    if clients.check_by_addr(client.addr) {
        let mut line = String::from_str("server: ");
        line.append(client.nick.as_str());
        line.append(" has left\n");
        notice = Some(line);
        publish(tx, &notice);
    }
    clients.remove_by_addr(client.addr);
    proof {
        if nicks_unique(old(clients)@) {
            lemma_unique_without_addr(old(clients)@, client.addr);
        }
    }
    notice
}

/// Length-bound law: a candidate passes validation exactly when it is pure
/// ASCII, free of the command marker, and three to fifteen characters long;
/// every other candidate is turned away with the matching reason.
pub proof fn lemma_nick_bounds(n: Seq<char>)
    ensures
        (nick_check(n) is Fine) == (3 <= n.len() <= 15 && all_ascii(n) && !n.contains('/')),
        n.len() > 0 && all_ascii(n) && !n.contains('/') && n.len() < 3 ==> nick_check(n)
            is TooShort,
        all_ascii(n) && !n.contains('/') && n.len() > 15 ==> nick_check(n) is TooLong,
        !(n.len() > 0 && all_ascii(n) && !n.contains('/')) ==> nick_check(n) is Invalid,
{
}

/// Departure law: removing a session's record leaves no record under its
/// address, so the membership check that guards the "has left" notice fails
/// on a second run and at most one notice is ever published per departure.
pub proof fn lemma_departure_idempotent(s: Seq<ClientRec>, a: u64)
    ensures
        !has_addr(without_addr(s, a), a),
{
    lemma_without_addr_contains(s, a);
    if has_addr(without_addr(s, a), a) {
        let w = choose|i: int|
            0 <= i < without_addr(s, a).len() && without_addr(s, a)[i].addr == a;
        assert(without_addr(s, a).contains(without_addr(s, a)[w]));
    }
}

/// Uniqueness law: an operation that only changes activity stamps, leaving
/// every nickname in place, keeps the nicknames pairwise distinct.
pub proof fn lemma_unique_same_nicks(pre: Seq<ClientRec>, post: Seq<ClientRec>)
    requires
        nicks_unique(pre),
        post.len() == pre.len(),
        forall|i: int| 0 <= i < pre.len() ==> post[i].nick == pre[i].nick,
    ensures
        nicks_unique(post),
{
}

} // verus!
