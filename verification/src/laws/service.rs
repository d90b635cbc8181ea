//! What surrounds transactions: the arguments of a server, its connections and logs, and which
//! transactions a node knows.
use crate::buf;
use crate::cli::{self, ArgError, NodeAddress, ParsedUrl};
use crate::id::{NodeId, XactId};
use crate::local_log::{self, LocalLogManager, ReplicationEvent, ReplicationStep, XactLog};
use crate::manager::{Manager, Route};
use crate::message::XsMessage;
use crate::node::{Nodes, OutOfRange};
use crate::pg::error::{self, PgErrorFields};
use crate::pg::fake::{FakeClient, FakePostgresConnectionManager};
use crate::pg_dispatcher::PgDispatcher;
use crate::remote_logs::{
    self, RemoteLogsManager, SubscriptionAction, SubscriptionEvent,
};
use crate::text;
use crate::vote::RollbackReason;
use vstd::prelude::*;

verus! {

/// The address of a database must be a URL with the scheme `postgresql`, and is kept in its normal
/// form. Else the error says what is wrong with it.
pub proof fn law_pg_url(parsed: Result<ParsedUrl, String>, r: Result<String, ArgError>)
    requires
        call_ensures(cli::accept_pg_url, (parsed,), r),
    ensures
        match parsed {
            Err(error) => r matches Err(ArgError::PgUrl { error: told }) && told@ == error@,
            Ok(url) => {
                &&& url.scheme@ == "postgresql"@ ==> (r matches Ok(address) && address@
                    == url.text@)
                &&& url.scheme@ != "postgresql"@ ==> (r matches Err(ArgError::PgScheme { scheme })
                    && scheme@ == url.scheme@)
            },
        },
{
}

/// The address of the database is what the URL in an argument gives.
pub proof fn law_pg_address(connect_pg: &str, r: Result<String, ArgError>)
    requires
        call_ensures(cli::parse_pg_address, (connect_pg,), r),
    ensures
        match cli::url_parsed(connect_pg@) {
            Err(error) => r matches Err(ArgError::PgUrl { error: told }) && told@ == error,
            Ok(url) => {
                &&& url.0 == "postgresql"@ ==> (r matches Ok(address) && address@ == url.1)
                &&& url.0 != "postgresql"@ ==> (r matches Err(ArgError::PgScheme { scheme })
                    && scheme@ == url.0)
            },
        },
{
}

/// The address of a server must be a URL with the scheme `http` or `https`, and is kept in its
/// normal form. Else the error says what is wrong with it.
pub proof fn law_node_url(
    addr: &str,
    parsed: Result<ParsedUrl, String>,
    r: Result<NodeAddress, ArgError>,
)
    requires
        call_ensures(cli::accept_node_url, (addr, parsed), r),
    ensures
        match parsed {
            Err(error) => r matches Err(ArgError::NodeUrl { addr: which, error: told }) && which@
                == addr@ && told@ == error@,
            Ok(url) => {
                let web = url.scheme@ == "http"@ || url.scheme@ == "https"@;
                &&& web ==> (r matches Ok(NodeAddress::Url(text)) && text@ == url.text@)
                &&& !web ==> (r matches Err(ArgError::NodeScheme { scheme }) && scheme@
                    == url.scheme@)
            },
        },
{
}

/// Only `dummy` stands for a server that is not there.
pub proof fn law_is_dummy(lower: &str, b: bool)
    requires
        call_ensures(cli::is_dummy, (lower,), b),
    ensures
        b <==> lower@ == seq!['d', 'u', 'm', 'm', 'y'],
{
    reveal_strlit("dummy");
    assert("dummy"@ =~= seq!['d', 'u', 'm', 'm', 'y']);
}

/// Whether a part of a list of servers is accepted.
pub open spec fn acceptable(part: Seq<char>) -> bool {
    cli::lowercased(part) == "dummy"@ || (cli::url_parsed(part) matches Ok(url) && (url.0
        == "http"@ || url.0 == "https"@))
}

/// A list of servers has one address for each part between commas, in their order: that of no
/// server for `dummy`, in whatever case, and else the URL in the part. It is refused if and only if
/// some part is.
pub proof fn law_node_addresses(
    nodes: &str,
    r: Result<Vec<NodeAddress>, ArgError>,
    parts: Vec<String>,
)
    requires
        call_ensures(cli::parse_node_addresses, (nodes,), r),
        call_ensures(text::split, (nodes, ','), parts),
    ensures
        r is Ok <==> forall|i: int| 0 <= i < parts@.len() ==> acceptable((#[trigger] parts@[i])@),
        r matches Ok(addresses) ==> {
            &&& addresses@.len() == parts@.len()
            &&& forall|i: int|
                0 <= i < parts@.len() ==> match #[trigger] addresses@[i] {
                    NodeAddress::Dummy => cli::lowercased(parts@[i]@) == "dummy"@,
                    NodeAddress::Url(text) => cli::lowercased(parts@[i]@) != "dummy"@ && (
                    cli::url_parsed(parts@[i]@) matches Ok(url) && (url.0 == "http"@ || url.0
                        == "https"@) && text@ == url.1),
                }
        },
{
    let views = parts@.map_values(|part: String| part@);
    assert(views == text::parts(nodes@, ','));
    cli::law_node_numbers(views);
    match r {
        Ok(addresses) => {
            let all = cli::addresses_view(addresses@);
            assert(all.len() == addresses@.len());
            assert forall|i: int| 0 <= i < parts@.len() implies (match #[trigger] addresses@[i] {
                NodeAddress::Dummy => cli::lowercased(parts@[i]@) == "dummy"@,
                NodeAddress::Url(text) => cli::lowercased(parts@[i]@) != "dummy"@ && (
                cli::url_parsed(parts@[i]@) matches Ok(url) && (url.0 == "http"@ || url.0
                    == "https"@) && text@ == url.1),
            }) && acceptable(parts@[i]@) by {
                assert(views[i] == parts@[i]@);
                assert(all[i] == addresses@[i]@);
            }
            assert forall|i: int| 0 <= i < parts@.len() implies acceptable(
                (#[trigger] parts@[i])@,
            ) by {
                assert(views[i] == parts@[i]@);
                assert(all[i] == addresses@[i]@);
            }
        },
        Err(e) => {
            let i = choose|i: int|
                {
                    &&& 0 <= i < views.len()
                    &&& #[trigger] cli::part_address(views[i]) is Err
                };
            assert(views[i] == parts@[i]@);
            assert(!acceptable(parts@[i]@));
        },
    }
}

/// A list of servers is refused for the first part that is not accepted.
pub proof fn law_node_addresses_refused(
    nodes: &str,
    r: Result<Vec<NodeAddress>, ArgError>,
    parts: Vec<String>,
    k: int,
)
    requires
        call_ensures(cli::parse_node_addresses, (nodes,), r),
        call_ensures(text::split, (nodes, ','), parts),
        0 <= k < parts@.len(),
        !acceptable(parts@[k]@),
        forall|i: int| 0 <= i < k ==> acceptable((#[trigger] parts@[i])@),
    ensures
        match cli::url_parsed(parts@[k]@) {
            Err(error) => r matches Err(ArgError::NodeUrl { addr, error: told }) && addr@
                == parts@[k]@ && told@ == error,
            Ok(url) => r matches Err(ArgError::NodeScheme { scheme }) && scheme@ == url.0,
        },
{
    let views = parts@.map_values(|part: String| part@);
    assert(views == text::parts(nodes@, ','));
    cli::law_node_numbers(views);
    assert(views[k] == parts@[k]@);
    assert(cli::part_address(views[k]) is Err);
    if let Ok(all) = cli::node_addresses(views) {
        assert(all[k] == all[k]);
    }
    let i = choose|i: int|
        {
            &&& 0 <= i < views.len()
            &&& #[trigger] cli::part_address(views[i]) == Err::<
                cli::AddressView,
                cli::ArgErrorView,
            >(cli::node_addresses(views)->Err_0)
            &&& forall|j: int| 0 <= j < i ==> (#[trigger] cli::part_address(views[j])) is Ok
        };
    assert(views[i] == parts@[i]@);
    if i < k {
        assert(acceptable(parts@[i]@));
    }
    if k < i {
        assert(cli::part_address(views[k]) is Ok);
    }
}

/// A server that is not there has a URL that nobody can be reached under, any other has its own.
pub proof fn law_address_url(address: NodeAddress, url: String)
    requires
        call_ensures(NodeAddress::url, (&address,), url),
    ensures
        address is Dummy ==> url@ == "http://0.0.0.0/"@,
        address matches NodeAddress::Url(text) ==> url@ == text@,
{
}

/// What is wrong with an argument, in words.
pub proof fn law_argument_errors(e: ArgError, s: String)
    requires
        call_ensures(ArgError::to_string, (&e,), s),
    ensures
        match e {
            ArgError::PgUrl { error } => s@ == "unable to parse postgres url in '--connect-pg': "@
                + error@,
            ArgError::PgScheme { scheme } => s@ == "invalid scheme '"@ + scheme@
                + "' in '--connect-pg'. Must be 'postgresql'"@,
            ArgError::NodeUrl { addr, error } => s@ == "invalid value '"@ + addr@
                + "' in '--nodes': "@ + error@,
            ArgError::NodeScheme { scheme } => s@ == "invalid scheme '"@ + scheme@
                + "' in '--nodes'. Must be either http or https"@,
        },
{
}

/// The connections to a node are those at its number, if there are so many nodes. Else the error
/// says which node was asked for, and how many there are.
pub proof fn law_nodes<P>(nodes: Nodes<P>, id: NodeId, r: Result<&P, OutOfRange>, size: usize)
    requires
        call_ensures(Nodes::<P>::get, (&nodes, id), r),
        call_ensures(Nodes::<P>::size, (&nodes,), size),
    ensures
        size == nodes.conn_pools@.len(),
        r is Ok <==> id.0 < nodes.conn_pools@.len(),
        r matches Ok(pool) ==> *pool == nodes.conn_pools@[id.0 as int],
        r matches Err(e) ==> e.id == id && e.size == nodes.conn_pools@.len(),
{
}

/// That there is no such node, in words.
pub proof fn law_out_of_range(e: OutOfRange, s: String)
    requires
        call_ensures(OutOfRange::to_string, (&e,), s),
    ensures
        s@ == "Node id "@ + text::decimal(e.id.0 as nat) + " is out of range (1 - "@
            + text::decimal(e.size as nat) + ")"@,
{
}

/// A log begins empty, and its address is the one that it is offered under.
pub proof fn law_new_log(log: XactLog, addr: &str, manager: LocalLogManager)
    requires
        call_ensures(XactLog::new, (), log),
        call_ensures(LocalLogManager::new, (addr,), manager),
    ensures
        log.log@.len() == 0,
        manager.xact_log.log@.len() == 0,
        manager.addr@ == addr@,
{
    assert(log@.len() == log.log@.len());
    assert(manager.xact_log@.len() == manager.xact_log.log@.len());
}

/// An entry that is appended becomes the last one, and all others stay where they are.
pub proof fn law_append(
    before: XactLog,
    entry: Vec<u8>,
    after: XactLog,
    tail: Option<&Vec<u8>>,
    old_tail: Option<&Vec<u8>>,
)
    requires
        exists|log: &mut XactLog| #[trigger]
            call_ensures(XactLog::append, (log, entry), ()) && *log == before && *final(log)
                == after,
        call_ensures(XactLog::tail, (&after,), tail),
        call_ensures(XactLog::tail, (&before,), old_tail),
    ensures
        after.log@.len() == before.log@.len() + 1,
        forall|i: int|
            0 <= i < before.log@.len() ==> (#[trigger] after.log@[i])@ == before.log@[i]@,
        after.log@[before.log@.len() as int]@ == entry@,
        tail matches Some(last) && last@ == entry@,
        old_tail is None <==> before.log@.len() == 0,
        old_tail matches Some(last) ==> last@ == before.log@.last()@,
{
    assert(after@.len() == after.log@.len() && before@.len() == before.log@.len());
    assert forall|i: int| 0 <= i < before.log@.len() implies (#[trigger] after.log@[i])@
        == before.log@[i]@ by {
        assert(after@[i] == after.log@[i]@);
        assert(before@[i] == before.log@[i]@);
    }
    assert(after@[before.log@.len() as int] == after.log@[before.log@.len() as int]@);
    if before.log@.len() > 0 {
        assert(before@.last() == before.log@.last()@);
    }
}

/// A subscriber is sent the next entry whenever the log grew or the last one was sent, if there is
/// one, and is waited for if there is none. It is served until it goes away, sending fails or the
/// log is closed.
pub proof fn law_replicate(
    log: XactLog,
    sent: usize,
    event: ReplicationEvent,
    r: (usize, ReplicationStep),
)
    requires
        call_ensures(local_log::replicate, (&log, sent, event), r),
    ensures
        ({
            let goes_on = event is Appended || event == ReplicationEvent::Sent(true);
            let more = sent < log.log@.len();
            &&& goes_on && more ==> r.0 == sent + 1 && (r.1 matches ReplicationStep::Send(entry)
                && entry.data@ == log.log@[sent as int]@)
            &&& goes_on && !more ==> r.0 == sent && r.1 is Wait
            &&& !goes_on ==> r.0 == sent && r.1 is Stop
        }),
{
    assert(log@.len() == log.log@.len());
    if sent < log.log@.len() {
        assert(log@[sent as int] == log.log@[sent as int]@);
    }
}

/// A subscription to the logs of other servers is kept for each of them, in their order.
pub proof fn law_peers(peers: Vec<&str>, manager: RemoteLogsManager)
    requires
        call_ensures(RemoteLogsManager::new, (peers,), manager),
    ensures
        manager.peers@.len() == peers@.len(),
        forall|i: int| 0 <= i < peers@.len() ==> (#[trigger] manager.peers@[i])@ == peers@[i]@,
{
}

/// A subscription connects, subscribes and receives, and takes in every entry as it came. Whatever
/// fails, and when the log ends, it makes a pause and connects again.
pub proof fn law_subscription(event: SubscriptionEvent, action: SubscriptionAction)
    requires
        call_ensures(remote_logs::next_action, (event,), action),
    ensures
        action is Connect <==> event is Slept,
        action is Subscribe <==> event == SubscriptionEvent::Connected(true),
        action is Receive <==> event == SubscriptionEvent::Subscribed(true),
        action is Sleep <==> event == SubscriptionEvent::Connected(false) || event
            == SubscriptionEvent::Subscribed(false) || event == SubscriptionEvent::Received(None),
        event matches SubscriptionEvent::Received(Some(entry)) ==> (
        action matches SubscriptionAction::Take(data) && buf::unread(data) == entry.data@),
{
}

proof fn lemma_one_part(s: Seq<char>, separator: char)
    requires
        !s.contains(separator),
    ensures
        text::parts(s, separator) == seq![s],
    decreases s.len(),
{
    if s.len() > 0 {
        let front = s.drop_last();
        assert(s.contains(s.last()));
        assert forall|c: char| front.contains(c) implies s.contains(c) by {
            let i = choose|i: int| 0 <= i < front.len() && front[i] == c;
            assert(s[i] == c);
        }
        lemma_one_part(front, separator);
        assert(front.push(s.last()) == s);
        assert(text::parts(s, separator) =~= seq![s]);
    } else {
        assert(s == Seq::<char>::empty());
    }
}

proof fn lemma_two_parts(a: Seq<char>, b: Seq<char>, separator: char)
    requires
        !a.contains(separator),
        !b.contains(separator),
    ensures
        text::parts(a + seq![separator] + b, separator) == seq![a, b],
    decreases b.len(),
{
    let s = a + seq![separator] + b;
    if b.len() == 0 {
        assert(s.drop_last() == a);
        lemma_one_part(a, separator);
        assert(s.last() == separator);
        assert(b == Seq::<char>::empty());
        assert(text::parts(s, separator) =~= seq![a, b]);
    } else {
        let front = b.drop_last();
        assert(b.contains(b.last()));
        assert forall|c: char| front.contains(c) implies b.contains(c) by {
            let i = choose|i: int| 0 <= i < front.len() && front[i] == c;
            assert(b[i] == c);
        }
        lemma_two_parts(a, front, separator);
        assert(s.drop_last() == a + seq![separator] + front);
        assert(front.push(b.last()) == b);
        let rest = seq![a, front];
        assert(s.last() == b.last());
        assert(rest.update(1, rest.last().push(s.last())) == seq![a, b]);
    }
}

/// A database at a host and a port, with a colon between them, is connected to there.
pub proof fn law_dispatcher(
    addr: &str,
    dispatcher: PgDispatcher,
    s: String,
    host: Seq<char>,
    port: Seq<char>,
)
    requires
        call_ensures(PgDispatcher::new, (addr,), dispatcher),
        call_ensures(PgDispatcher::conn_str, (&dispatcher,), s),
        addr@ == host + seq![':'] + port,
        !host.contains(':'),
        !port.contains(':'),
    ensures
        s@ == "host="@ + host + " port="@ + port + " user=postgres application_name=#remotexact"@,
{
    lemma_two_parts(host, port, ':');
}

/// A new node knows no transaction, and has started none.
pub proof fn law_new_manager<S>(node_id: NodeId, m: Manager<S>)
    requires
        call_ensures(Manager::<S>::new, (node_id,), m),
    ensures
        m.node_id == node_id,
        m.xact_id_counter == 0,
        forall|id: u64| !m.xact_state_managers@.contains_key(id),
{
    assert(m@.xact_state_managers == Map::<u64, S>::empty());
}

/// A transaction of the local database gets an id that no earlier one of this node has: the next
/// counter above the number of the node. Messages of other nodes name theirs, and leave the counter
/// alone.
pub proof fn law_route<S, C>(
    before: Manager<S>,
    msg: XsMessage<C>,
    after: Manager<S>,
    route: Route,
)
    requires
        exists|m: &mut Manager<S>| #[trigger]
            call_ensures(Manager::<S>::process_message::<C>, (m, &msg), route) && *m == before
                && *final(m) == after,
        msg is LocalXact ==> before.xact_id_counter < u32::MAX,
    ensures
        msg is LocalXact ==> after.xact_id_counter == before.xact_id_counter + 1
            && route.xact_id.0 == after.xact_id_counter * 0x1_0000_0000 + before.node_id.0,
        msg matches XsMessage::Prepare(p) ==> after.xact_id_counter == before.xact_id_counter
            && route.xact_id.0 == p.xact_id,
        msg matches XsMessage::Vote(v) ==> after.xact_id_counter == before.xact_id_counter
            && route.xact_id.0 == v.xact_id,
        route.is_new <==> !before.xact_state_managers@.contains_key(route.xact_id.0),
        after.node_id == before.node_id,
        after.xact_state_managers@ == before.xact_state_managers@,
{
}

/// A transaction that was made known is found, where it was first said to be. No other one changes.
pub proof fn law_start<S>(
    before: Manager<S>,
    xact_id: XactId,
    tx: S,
    after: Manager<S>,
    other: XactId,
    known: Option<&S>,
    found: Option<&S>,
)
    requires
        exists|m: &mut Manager<S>| #[trigger]
            call_ensures(Manager::<S>::start, (m, xact_id, tx), ()) && *m == before && *final(m)
                == after,
        call_ensures(Manager::<S>::get, (&before, other), known),
        call_ensures(Manager::<S>::get, (&after, other), found),
    ensures
        known matches Some(k) ==> (found matches Some(f) && *f == *k),
        known is None && other == xact_id ==> (found matches Some(f) && *f == tx),
        known is None && other != xact_id ==> found is None,
        after.node_id == before.node_id,
        after.xact_id_counter == before.xact_id_counter,
{
}

/// An error that the database reported is a reason with what it said, where what it left out is
/// empty. Any other error is a reason in its own words.
pub proof fn law_reason_of_error(
    fields: Option<PgErrorFields>,
    words: String,
    reason: RollbackReason,
)
    requires
        call_ensures(error::rollback_reason, (fields, words), reason),
    ensures
        match fields {
            None => reason matches RollbackReason::Other(text) && text@ == words@,
            Some(said) => reason matches RollbackReason::Db(err) && err.code@
                == vstd::utf8::encode_utf8(said.code@) && err.severity@ == said.severity@
                && err.message@ == said.message@ && (match said.detail {
                Some(detail) => err.detail@ == detail@,
                None => err.detail@.len() == 0,
            }) && (match said.hint {
                Some(hint) => err.hint@ == hint@,
                None => err.hint@.len() == 0,
            }),
        },
{
    if let Some(said) = fields {
        if let RollbackReason::Db(err) = reason {
            assert(err@.detail == error::or_empty(error::text_view(said.detail)));
            assert(err@.hint == error::or_empty(error::text_view(said.hint)));
        }
    }
}

/// A database that does nothing is content with everything: it finds a row for every query, and no
/// statement changes any.
pub proof fn law_fake<Tls>(
    manager: FakePostgresConnectionManager<Tls>,
    client: Result<FakeClient, tokio_postgres::Error>,
    c: FakeClient,
    statement: &str,
    data: &[u8],
    changed: Result<u64, tokio_postgres::Error>,
    done: Result<(), tokio_postgres::Error>,
    row: Result<Option<()>, tokio_postgres::Error>,
)
    requires
        call_ensures(FakePostgresConnectionManager::<Tls>::connect, (&manager,), client),
        call_ensures(FakeClient::execute, (&c, statement, data), changed),
        call_ensures(FakeClient::batch_execute, (&c, statement), done),
        call_ensures(FakeClient::query_opt, (&c, statement), row),
    ensures
        client is Ok,
        changed == Ok::<u64, tokio_postgres::Error>(0),
        done is Ok,
        row matches Ok(Some(_)),
{
}

/// An error of the local database is a reason with what the database said of it, or else in its own
/// words.
pub proof fn law_reason_of_database_error(e: tokio_postgres::Error, reason: RollbackReason)
    requires
        call_ensures(<RollbackReason as From<&tokio_postgres::Error>>::from, (&e,), reason),
    ensures
        match error::fields_of(e) {
            None => reason matches RollbackReason::Other(text) && text@ == error::words_of(e),
            Some(said) => reason matches RollbackReason::Db(err) && err.code@
                == vstd::utf8::encode_utf8(said.code) && err.severity@ == said.severity
                && err.message@ == said.message && (match said.detail {
                Some(detail) => err.detail@ == detail,
                None => err.detail@.len() == 0,
            }) && (match said.hint {
                Some(hint) => err.hint@ == hint,
                None => err.hint@.len() == 0,
            }),
        },
{
    if let Some(said) = error::fields_of(e) {
        if let RollbackReason::Db(err) = reason {
            assert(err@.detail == error::or_empty(said.detail));
            assert(err@.hint == error::or_empty(said.hint));
        }
    }
}

} // verus!
