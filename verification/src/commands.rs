use vstd::prelude::*;
use crate::client::{ClientRec, Clients, first_with_nick, nick_list};
use crate::clock::{fmt_minute, minute_display, now_ts};
use crate::text::{join_comma, join_sp};
use crate::utils::{NickOutcome, change_nick};

verus! {

/// The reply to `/time` for the moment `ts`.
pub open spec fn time_response_spec(ts: int) -> Seq<char> {
    "server: current time is "@ + minute_display(ts) + "\n"@
}

/// Builds the `/time` reply for the moment `ts`.
pub fn time_response(ts: i64) -> (r: String)
    ensures
        r@ == time_response_spec(ts as int),
{
    let mut r = String::from_str("server: current time is ");
    let stamp = fmt_minute(ts);
    r.append(stamp.as_str());
    r.append("\n");
    r
}

/// The `/time` command: the current server time at minute precision, for
/// the issuing session only.
pub fn time() -> (r: String)
    ensures
        exists|ts: int| r@ == time_response_spec(ts),
{
    let ts = now_ts();
    let r = time_response(ts);
    proof {
        assert(r@ == time_response_spec(ts as int));
    }
    r
}

/// The reply to `/users`: a comma-joined snapshot of the registry's
/// nicknames, in registry order.
pub open spec fn users_response_spec(s: Seq<ClientRec>) -> Seq<char> {
    "server: "@ + join_sp(nick_list(s), ", "@) + "\n"@
}

/// The `/users` command, for the issuing session only.
pub fn users(clients: &Clients) -> (r: String)
    ensures
        r@ == users_response_spec(clients@),
{
    let nicks = clients.list_clients();
    let joined = join_comma(&nicks);
    let mut r = String::from_str("server: ");
    r.append(joined.as_str());
    r.append("\n");
    r
}

/// The `/nick` command: with exactly one argument the rename of
/// `change_nick`, otherwise an arity complaint to the issuing session.
pub fn nick(
    tx: &tokio::sync::broadcast::Sender<String>,
    clients: &mut Clients,
    client: &mut crate::client::Client,
    tokens: &Vec<String>,
) -> (r: NickOutcome)
    ensures
        tokens@.len() == 2 ==> call_matches_change_nick(
            old(clients)@,
            final(clients)@,
            old(client)@,
            final(client)@,
            tokens.deep_view()[1],
            r,
        ),
        tokens@.len() == 1 ==> (r.response matches Some(l) && l@
            == "server: not enough arguments provided\n"@),
        tokens@.len() != 1 && tokens@.len() != 2 ==> (r.response matches Some(l) && l@
            == "server: too many arguments provided\n"@),
        tokens@.len() != 2 ==> {
            &&& final(clients)@ == old(clients)@
            &&& final(client)@ == old(client)@
            &&& r.notice is None
        },
        final(client).addr == old(client).addr,
        final(client).connected_at == old(client).connected_at,
        final(client).last_seen == old(client).last_seen,
        crate::client::nicks_unique(old(clients)@) ==> crate::client::nicks_unique(
            final(clients)@,
        ),
{
    if tokens.len() == 2 {
        let r = change_nick(tx, clients, client, tokens[1].as_str());
        proof {
            assert(tokens.deep_view()[1] == tokens@[1]@);
        }
        r
    } else if tokens.len() == 1 {
        NickOutcome {
            response: Some(String::from_str("server: not enough arguments provided\n")),
            notice: None,
        }
    } else {
        NickOutcome {
            response: Some(String::from_str("server: too many arguments provided\n")),
            notice: None,
        }
    }
}

/// What `change_nick` promises, restated over the registry and record
/// values before and after the call, so that callers can pass it on.
pub open spec fn call_matches_change_nick(
    pre: Seq<ClientRec>,
    post: Seq<ClientRec>,
    cpre: ClientRec,
    cpost: ClientRec,
    arg: Seq<char>,
    r: NickOutcome,
) -> bool {
    let n = crate::text::trim_spec(arg);
    &&& (r.response is None) == (crate::utils::nick_check(n) is Fine && !crate::client::has_nick(
        pre,
        n,
    ))
    &&& (crate::utils::nick_check(n) is Invalid ==> (r.response matches Some(l) && l@
        == "server: please enter a valid nick\n"@))
    &&& (crate::utils::nick_check(n) is TooShort ==> (r.response matches Some(l) && l@
        == "server: nick is too short\n"@))
    &&& (crate::utils::nick_check(n) is TooLong ==> (r.response matches Some(l) && l@
        == "server: nick is too long\n"@))
    &&& (crate::utils::nick_check(n) is Fine && crate::client::has_nick(pre, n) ==> (r.response
        matches Some(l) && l@ == "server: nick is already taken\n"@))
    &&& (r.response is None ==> {
        &&& cpost.nick == n
        &&& post == crate::client::without_nick(pre.push(cpost), cpre.nick)
        &&& (r.notice matches Some(l) && l@ == "server: "@ + cpre.nick + " is now "@ + n + "\n"@)
    })
    &&& (r.response is Some ==> post == pre && cpost == cpre && r.notice is None)
}

/// The reply to `/seen`: when the target is registered, its last activity
/// at minute precision, or that it was not seen yet; otherwise that the
/// nickname is unknown. With the wrong number of arguments, an arity
/// complaint.
pub open spec fn seen_response_spec(s: Seq<ClientRec>, toks: Seq<Seq<char>>) -> Seq<char> {
    if toks.len() == 2 {
        match first_with_nick(s, toks[1]) {
            Some(rec) => match rec.last_seen {
                Some(ts) => "server: "@ + rec.nick + " was seen at "@ + minute_display(ts as int)
                    + "\n"@,
                None => "server: "@ + rec.nick + " was not seen yet\n"@,
            },
            None => "server: nick not found\n"@,
        }
    } else if toks.len() == 1 {
        "server: not enough arguments provided\n"@
    } else {
        "server: too many arguments provided\n"@
    }
}

/// The `/seen` command, for the issuing session only.
pub fn seen(clients: &Clients, tokens: &Vec<String>) -> (r: String)
    ensures
        r@ == seen_response_spec(clients@, tokens.deep_view()),
{
    proof {
        assert(tokens.deep_view().len() == tokens@.len());
        if tokens@.len() > 1 {
            assert(tokens.deep_view()[1] == tokens@[1]@);
        }
    }
    if tokens.len() == 2 {
        match clients.retrieve_by_nick(tokens[1].as_str()) {
            Some(found) => {
                match found.last_seen {
                    Some(ts) => {
                        let mut r = String::from_str("server: ");
                        r.append(found.nick.as_str());
                        r.append(" was seen at ");
                        let stamp = fmt_minute(ts);
                        r.append(stamp.as_str());
                        r.append("\n");
                        proof {
                            assert(r@ =~= seen_response_spec(clients@, tokens.deep_view()));
                        }
                        r
                    },
                    None => {
                        let mut r = String::from_str("server: ");
                        r.append(found.nick.as_str());
                        r.append(" was not seen yet\n");
                        proof {
                            assert(r@ =~= seen_response_spec(clients@, tokens.deep_view()));
                        }
                        r
                    },
                }
            },
            None => {
                proof {
                    crate::client::lemma_first_with_nick(clients@, tokens.deep_view()[1]);
                }
                String::from_str("server: nick not found\n")
            },
        }
    } else if tokens.len() == 1 {
        String::from_str("server: not enough arguments provided\n")
    } else {
        String::from_str("server: too many arguments provided\n")
    }
}

} // verus!
