//! The fixed naming convention: the three execution-context buckets, the name
//! tables that route a declared name to a bucket, and the prefix-stripping
//! rewrite applied to the name on the way.

use vstd::prelude::*;

verus! {

/// The three execution contexts a declared name can be routed to.
#[derive(Clone, Copy, Debug, PartialEq, Eq, Structural)]
pub enum Bucket {
    PageServer,
    Server,
    Client,
}

/// Names that route a declarator to the page-server bucket.
pub open spec fn page_server_names() -> Seq<Seq<char>> {
    seq!["server_load"@, "actions"@]
}

/// Names that route a declarator to the generic-server bucket by an explicit
/// table entry rather than by default.
pub open spec fn server_names() -> Seq<Seq<char>> {
    seq!["GET"@, "POST"@, "PUT"@, "PATCH"@, "DELETE"@]
}

/// Names that route a declarator to the client bucket.
pub open spec fn client_names() -> Seq<Seq<char>> {
    seq!["client_load"@]
}

/// `p` is a prefix of `s`.
pub open spec fn is_prefix_of(p: Seq<char>, s: Seq<char>) -> bool {
    p.len() <= s.len() && s.subrange(0, p.len() as int) == p
}

/// `s` with one leading occurrence of `p` removed; `s` itself when `p` is not
/// a prefix of it.
pub open spec fn strip_prefix(s: Seq<char>, p: Seq<char>) -> Seq<char> {
    if is_prefix_of(p, s) {
        s.subrange(p.len() as int, s.len() as int)
    } else {
        s
    }
}

/// The bucket a simple identifier is routed to.  The client list is consulted
/// first, then the page-server list; every other name — the fixed server
/// names included — lands in the server bucket.
pub open spec fn bucket_of(name: Seq<char>) -> Bucket {
    if client_names().contains(name) {
        Bucket::Client
    } else if page_server_names().contains(name) {
        Bucket::PageServer
    } else {
        Bucket::Server
    }
}

/// The rewritten spelling of a simple identifier: a client-table name loses a
/// leading `client_`, a page-server-table or server-table name loses a
/// leading `server_`, and any other name keeps its spelling.
pub open spec fn rewritten_name(name: Seq<char>) -> Seq<char> {
    if client_names().contains(name) {
        strip_prefix(name, "client_"@)
    } else if page_server_names().contains(name) || server_names().contains(name) {
        strip_prefix(name, "server_"@)
    } else {
        name
    }
}

/// Whether `name` spells the same characters as the literal `lit`.
fn name_is(name: &String, lit: &str) -> (r: bool)
    ensures
        r == (name@ == lit@),
{
    let other: String = String::from_str(lit);
    *name == other
}

/// Classify one simple identifier: the bucket its declarator is routed to,
/// paired with the rewritten spelling of the name.
pub fn classify_name(name: &String) -> (r: (Bucket, String))
    ensures
        r.0 == bucket_of(name@),
        r.1@ == rewritten_name(name@),
{
    if name_is(name, "client_load") {
        proof {
            reveal_strlit("client_load");
            reveal_strlit("client_");
            reveal_strlit("load");
            assert(client_names()[0] == "client_load"@);
            assert(client_names().contains(name@));
            assert("client_load"@.subrange(0, 7) =~= "client_"@);
            assert("client_load"@.subrange(7, 11) =~= "load"@);
        }
        (Bucket::Client, String::from_str("load"))
    } else if name_is(name, "server_load") {
        proof {
            reveal_strlit("client_load");
            reveal_strlit("server_load");
            reveal_strlit("server_");
            reveal_strlit("load");
            assert(client_names()[0] == "client_load"@);
            assert(!client_names().contains(name@));
            assert(page_server_names()[0] == "server_load"@);
            assert(page_server_names().contains(name@));
            assert("server_load"@.subrange(0, 7) =~= "server_"@);
            assert("server_load"@.subrange(7, 11) =~= "load"@);
        }
        (Bucket::PageServer, String::from_str("load"))
    } else if name_is(name, "actions") {
        proof {
            reveal_strlit("client_load");
            reveal_strlit("actions");
            reveal_strlit("server_");
            assert(client_names()[0] == "client_load"@);
            assert(!client_names().contains(name@));
            assert(page_server_names()[1] == "actions"@);
            assert(page_server_names().contains(name@));
            assert(!is_prefix_of("server_"@, "actions"@)) by {
                assert("actions"@.subrange(0, 7)[0] == 'a');
                assert("server_"@[0] == 's');
            }
        }
        (Bucket::PageServer, String::from_str("actions"))
    } else {
        // Both the fixed server names and every unlisted name land here: the
        // server table's `server_` strip never applies, since none of its
        // entries is long enough to carry that prefix.
        proof {
            reveal_strlit("client_load");
            reveal_strlit("server_load");
            reveal_strlit("actions");
            reveal_strlit("server_");
            assert(client_names()[0] == "client_load"@);
            assert(!client_names().contains(name@));
            assert(page_server_names()[0] == "server_load"@);
            assert(page_server_names()[1] == "actions"@);
            assert(!page_server_names().contains(name@));
            assert(server_names()[0] == "GET"@);
            assert(server_names()[1] == "POST"@);
            assert(server_names()[2] == "PUT"@);
            assert(server_names()[3] == "PATCH"@);
            assert(server_names()[4] == "DELETE"@);
            assert forall|k: int| 0 <= k < server_names().len() implies
                    (#[trigger] server_names()[k]).len() < "server_"@.len() by {
                reveal_strlit("GET");
                reveal_strlit("POST");
                reveal_strlit("PUT");
                reveal_strlit("PATCH");
                reveal_strlit("DELETE");
            }
            assert(rewritten_name(name@) == name@);
        }
        (Bucket::Server, name.clone())
    }
}

} // verus!
