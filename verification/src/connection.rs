use vstd::prelude::*;
use crate::client::{
    Client, Clients, first_addr_index, has_addr, lemma_first_addr_index, nicks_unique,
};
use crate::commands::{
    call_matches_change_nick, nick, seen, seen_response_spec, time, time_response_spec, users,
    users_response_spec,
};
use crate::text::{eq_lowered, lower_char, lower_spec, split_sp, split_spaces, trim, trim_spec};
use crate::utils::{NickOutcome, lemma_unique_same_nicks};

verus! {

/// What the active loop should do with the line it just read.
pub enum LineResult {
    /// Relay this line to every subscriber of the bus.
    Broadcast(String),
    /// The session asked to leave: run termination.
    Shutdown,
    /// Nothing to relay.
    NoBroadcast,
}

/// What handling one line left behind.
pub struct LineOutcome {
    /// The line to write back to the issuing session, if any.
    pub response: Option<String>,
    /// The rename notice a successful `/nick` put on the bus.
    pub notice: Option<String>,
    /// What the active loop should do next.
    pub result: LineResult,
}

/// The whitespace-trimmed line, split at single spaces.
pub open spec fn line_tokens(line: Seq<char>) -> Seq<Seq<char>> {
    split_sp(trim_spec(line))
}

/// The first token, lowered; commands are recognized case-insensitively.
pub open spec fn first_token_lower(line: Seq<char>) -> Seq<char> {
    lower_spec(line_tokens(line)[0])
}

/// Whether the line is a command: its first token starts with the marker.
pub open spec fn is_command(line: Seq<char>) -> bool {
    first_token_lower(line).len() > 0 && first_token_lower(line)[0] == '/'
}

/// Whether the line is a chat line: not empty and no command.
pub open spec fn is_chat(line: Seq<char>) -> bool {
    first_token_lower(line).len() > 0 && first_token_lower(line)[0] != '/'
}

/// One step of the active phase: an empty line is ignored, a command line
/// is dispatched and answered to the issuing session alone, and a chat line
/// marks the session active and is offered for broadcast. Every command
/// yields at most one response line, and no command line is ever relayed.
pub fn handle_line(
    tx: &tokio::sync::broadcast::Sender<String>,
    clients: &mut Clients,
    client: &mut Client,
    line: &str,
) -> (out: LineOutcome)
    ensures
        first_token_lower(line@).len() == 0 ==> {
            &&& final(clients)@ == old(clients)@
            &&& final(client)@ == old(client)@
            &&& out.response is None
            &&& out.notice is None
            &&& out.result is NoBroadcast
        },
        first_token_lower(line@) == "/time"@ ==> {
            &&& final(clients)@ == old(clients)@
            &&& final(client)@ == old(client)@
            &&& (out.response matches Some(l) && exists|ts: int| l@ == time_response_spec(ts))
            &&& out.notice is None
            &&& out.result is NoBroadcast
        },
        first_token_lower(line@) == "/users"@ ==> {
            &&& final(clients)@ == old(clients)@
            &&& final(client)@ == old(client)@
            &&& (out.response matches Some(l) && l@ == users_response_spec(old(clients)@))
            &&& out.notice is None
            &&& out.result is NoBroadcast
        },
        first_token_lower(line@) == "/nick"@ ==> {
            &&& line_tokens(line@).len() == 2 ==> call_matches_change_nick(
                old(clients)@,
                final(clients)@,
                old(client)@,
                final(client)@,
                line_tokens(line@)[1],
                (NickOutcome { response: out.response, notice: out.notice }),
            )
            &&& line_tokens(line@).len() == 1 ==> (out.response matches Some(l) && l@
                == "server: not enough arguments provided\n"@ && final(clients)@ == old(clients)@
                && final(client)@ == old(client)@ && out.notice is None)
            &&& line_tokens(line@).len() > 2 ==> (out.response matches Some(l) && l@
                == "server: too many arguments provided\n"@ && final(clients)@ == old(clients)@
                && final(client)@ == old(client)@ && out.notice is None)
            &&& out.result is NoBroadcast
        },
        first_token_lower(line@) == "/seen"@ ==> {
            &&& final(clients)@ == old(clients)@
            &&& final(client)@ == old(client)@
            &&& (out.response matches Some(l) && l@ == seen_response_spec(
                old(clients)@,
                line_tokens(line@),
            ))
            &&& out.notice is None
            &&& out.result is NoBroadcast
        },
        first_token_lower(line@) == "/quit"@ ==> {
            &&& final(clients)@ == old(clients)@
            &&& final(client)@ == old(client)@
            &&& out.response is None
            &&& out.notice is None
            &&& out.result is Shutdown
        },
        is_command(line@) && first_token_lower(line@) != "/time"@ && first_token_lower(line@)
            != "/users"@ && first_token_lower(line@) != "/nick"@ && first_token_lower(line@)
            != "/seen"@ && first_token_lower(line@) != "/quit"@ ==> {
            &&& final(clients)@ == old(clients)@
            &&& final(client)@ == old(client)@
            &&& (out.response matches Some(l) && l@ == "server: invalid command\n"@)
            &&& out.notice is None
            &&& out.result is NoBroadcast
        },
        is_chat(line@) ==> {
            &&& (out.result matches LineResult::Broadcast(m) && m@ == old(client).nick@ + ": "@
                + line@)
            &&& out.response is None
            &&& out.notice is None
            &&& final(client)@ == old(client)@
            &&& final(clients)@.len() == old(clients)@.len()
            &&& forall|i: int|
                0 <= i < old(clients)@.len() && i != first_addr_index(
                    old(clients)@,
                    old(client).addr,
                ) ==> final(clients)@[i] == old(clients)@[i]
            &&& has_addr(old(clients)@, old(client).addr) ==> {
                &&& final(clients)@[first_addr_index(old(clients)@, old(client).addr)].nick
                    == old(clients)@[first_addr_index(old(clients)@, old(client).addr)].nick
                &&& final(clients)@[first_addr_index(old(clients)@, old(client).addr)].last_seen
                    is Some
            }
            &&& !has_addr(old(clients)@, old(client).addr) ==> final(clients)@ == old(clients)@
        },
        is_command(line@) ==> !(out.result is Broadcast),
        out.notice is Some ==> first_token_lower(line@) == "/nick"@,
        is_command(line@) && first_token_lower(line@) != "/quit"@ && !(first_token_lower(line@)
            == "/nick"@ && out.response is None) ==> out.response is Some,
        nicks_unique(old(clients)@) ==> nicks_unique(final(clients)@),
{
    proof {
        reveal_strlit("/time");
        reveal_strlit("/users");
        reveal_strlit("/nick");
        reveal_strlit("/seen");
        reveal_strlit("/quit");
        assert("/time"@.len() == 5 && "/users"@.len() == 6 && "/nick"@.len() == 5
            && "/seen"@.len() == 5 && "/quit"@.len() == 5);
        assert("/time"@[0] == '/' && "/users"@[0] == '/' && "/nick"@[0] == '/' && "/seen"@[0]
            == '/' && "/quit"@[0] == '/');
        assert("/time"@[1] == 't' && "/nick"@[1] == 'n' && "/seen"@[1] == 's' && "/quit"@[1]
            == 'q');
        assert("/time"@ != "/nick"@ && "/time"@ != "/seen"@ && "/time"@ != "/quit"@ && "/nick"@
            != "/seen"@ && "/nick"@ != "/quit"@ && "/seen"@ != "/quit"@);
        assert("/users"@ != "/time"@ && "/users"@ != "/nick"@ && "/users"@ != "/seen"@
            && "/users"@ != "/quit"@);
    }
    let trimmed = trim(line);
    let tokens = split_spaces(trimmed);
    proof {
        assert(tokens.deep_view().len() == tokens@.len());
        assert(tokens.deep_view()[0] == tokens@[0]@);
        assert(tokens.deep_view() == line_tokens(line@));
    }
    let t0_len = tokens[0].unicode_len();
    if t0_len == 0 {
        return LineOutcome { response: None, notice: None, result: LineResult::NoBroadcast };
    }
    let c0 = tokens[0].get_char(0);
    proof {
        assert(first_token_lower(line@)[0] == lower_char(c0));
        if 'A' <= c0 && c0 <= 'Z' {
            assert((c0 as u8) + 32 > 47);
        }
        assert((lower_char(c0) == '/') == (c0 == '/'));
    }
    if c0 == '/' {
        if eq_lowered(tokens[0].as_str(), "/time") {
            LineOutcome {
                response: Some(time()),
                notice: None,
                result: LineResult::NoBroadcast,
            }
        } else if eq_lowered(tokens[0].as_str(), "/users") {
            LineOutcome {
                response: Some(users(clients)),
                notice: None,
                result: LineResult::NoBroadcast,
            }
        } else if eq_lowered(tokens[0].as_str(), "/nick") {
            let r = nick(tx, clients, client, &tokens);
            LineOutcome { response: r.response, notice: r.notice, result: LineResult::NoBroadcast }
        } else if eq_lowered(tokens[0].as_str(), "/seen") {
            LineOutcome {
                response: Some(seen(clients, &tokens)),
                notice: None,
                result: LineResult::NoBroadcast,
            }
        } else if eq_lowered(tokens[0].as_str(), "/quit") {
            LineOutcome { response: None, notice: None, result: LineResult::Shutdown }
        } else {
            LineOutcome {
                response: Some(String::from_str("server: invalid command\n")),
                notice: None,
                result: LineResult::NoBroadcast,
            }
        }
    } else {
        clients.set_last_seen(client.addr);
        let mut msg = client.nick.clone();
        msg.append(": ");
        msg.append(line);
        proof {
            lemma_first_addr_index(old(clients)@, old(client).addr);
            if nicks_unique(old(clients)@) {
                assert forall|i: int| 0 <= i < old(clients)@.len() implies clients@[i].nick == old(
                    clients,
                )@[i].nick by {
                    if i != first_addr_index(old(clients)@, old(client).addr) {
                    }
                }
                lemma_unique_same_nicks(old(clients)@, clients@);
            }
        }
        LineOutcome { response: None, notice: None, result: LineResult::Broadcast(msg) }
    }
}

} // verus!
