//! Which addresses a server accepts on its command line.
use crate::text;
use url::Url;
use vstd::prelude::*;

verus! {

/// A URL.
#[derive(Debug, PartialEq)]
pub struct ParsedUrl {
    pub scheme: String,
    /// The whole URL, in its normal form.
    pub text: String,
}

/// What a [`ParsedUrl`], or the reason why there is none, holds.
pub open spec fn parsed_view(parsed: Result<ParsedUrl, String>) -> Result<
    (Seq<char>, Seq<char>),
    Seq<char>,
> {
    match parsed {
        Ok(url) => Ok((url.scheme@, url.text@)),
        Err(error) => Err(error@),
    }
}

/// What `url::Url::parse` makes of a text: the scheme and the normal form of a URL, or the words
/// of an error.
pub uninterp spec fn url_parsed(input: Seq<char>) -> Result<(Seq<char>, Seq<char>), Seq<char>>;

/// `url::Url::parse`: the URL in a text. What it makes of a text depends on the text alone.
#[verifier::external_body]
fn parse_url(input: &str) -> (parsed: Result<ParsedUrl, String>)
    ensures
        parsed_view(parsed) == url_parsed(input@),
{
    match Url::parse(input) {
        Ok(url) => Ok(ParsedUrl { scheme: url.scheme().to_string(), text: url.to_string() }),
        Err(error) => Err(error.to_string()),
    }
}

/// What `str::to_lowercase` makes of a text.
pub uninterp spec fn lowercased(s: Seq<char>) -> Seq<char>;

/// `str::to_lowercase`: a text in lower case. It depends on the text alone.
#[verifier::external_body]
fn to_lowercase(s: &str) -> (lower: String)
    ensures
        lower@ == lowercased(s@),
{
    s.to_lowercase()
}

/// Where another server is found.
#[derive(Debug, PartialEq)]
pub enum NodeAddress {
    /// Nowhere: the place is kept for a server that is not there.
    Dummy,
    Url(String),
}

/// What a [`NodeAddress`] holds.
#[verifier::ext_equal]
pub enum AddressView {
    Dummy,
    Url(Seq<char>),
}

impl AddressView {
    /// The URL that the address stands for. That of no server is one that nobody can be reached
    /// under.
    pub open spec fn url(self) -> Seq<char> {
        match self {
            AddressView::Dummy => "http://0.0.0.0/"@,
            AddressView::Url(text) => text,
        }
    }
}

impl NodeAddress {
    /// The URL that the address stands for.
    pub fn url(&self) -> (s: String)
        ensures
            s@ == self@.url(),
    {
        match self {
            NodeAddress::Dummy => "http://0.0.0.0/".to_owned(),
            NodeAddress::Url(text) => text.clone(),
        }
    }
}

impl View for NodeAddress {
    type V = AddressView;

    open spec fn view(&self) -> AddressView {
        match self {
            NodeAddress::Dummy => AddressView::Dummy,
            NodeAddress::Url(text) => AddressView::Url(text@),
        }
    }
}

/// What a list of addresses holds.
pub open spec fn addresses_view(addresses: Seq<NodeAddress>) -> Seq<AddressView> {
    addresses.map_values(|address: NodeAddress| address@)
}

/// Why an argument is refused.
#[derive(Debug, PartialEq)]
pub enum ArgError {
    /// The address of the database is not a URL.
    PgUrl { error: String },
    /// The address of the database has another scheme than `postgresql`.
    PgScheme { scheme: String },
    /// The address of a server is not a URL.
    NodeUrl { addr: String, error: String },
    /// The address of a server has another scheme than `http` and `https`.
    NodeScheme { scheme: String },
}

/// What an [`ArgError`] holds.
#[verifier::ext_equal]
pub enum ArgErrorView {
    PgUrl { error: Seq<char> },
    PgScheme { scheme: Seq<char> },
    NodeUrl { addr: Seq<char>, error: Seq<char> },
    NodeScheme { scheme: Seq<char> },
}

impl View for ArgError {
    type V = ArgErrorView;

    open spec fn view(&self) -> ArgErrorView {
        match self {
            ArgError::PgUrl { error } => ArgErrorView::PgUrl { error: error@ },
            ArgError::PgScheme { scheme } => ArgErrorView::PgScheme { scheme: scheme@ },
            ArgError::NodeUrl { addr, error } => ArgErrorView::NodeUrl {
                addr: addr@,
                error: error@,
            },
            ArgError::NodeScheme { scheme } => ArgErrorView::NodeScheme { scheme: scheme@ },
        }
    }
}

impl ArgErrorView {
    /// What is wrong, in words.
    pub open spec fn text(self) -> Seq<char> {
        match self {
            ArgErrorView::PgUrl { error } => "unable to parse postgres url in '--connect-pg': "@
                + error,
            ArgErrorView::PgScheme { scheme } => "invalid scheme '"@ + scheme
                + "' in '--connect-pg'. Must be 'postgresql'"@,
            ArgErrorView::NodeUrl { addr, error } => "invalid value '"@ + addr
                + "' in '--nodes': "@ + error,
            ArgErrorView::NodeScheme { scheme } => "invalid scheme '"@ + scheme
                + "' in '--nodes'. Must be either http or https"@,
        }
    }
}

impl ArgError {
    /// What is wrong, in words.
    pub fn to_string(&self) -> (s: String)
        ensures
            s@ == self@.text(),
    {
        match self {
            ArgError::PgUrl { error } => {
                let mut out = "unable to parse postgres url in '--connect-pg': ".to_owned();
                out.append(error.as_str());
                out
            },
            ArgError::PgScheme { scheme } => {
                let mut out = "invalid scheme '".to_owned();
                out.append(scheme.as_str());
                out.append("' in '--connect-pg'. Must be 'postgresql'");
                out
            },
            ArgError::NodeUrl { addr, error } => {
                let mut out = "invalid value '".to_owned();
                out.append(addr.as_str());
                out.append("' in '--nodes': ");
                out.append(error.as_str());
                out
            },
            ArgError::NodeScheme { scheme } => {
                let mut out = "invalid scheme '".to_owned();
                out.append(scheme.as_str());
                out.append("' in '--nodes'. Must be either http or https");
                out
            },
        }
    }
}

/// The address of the database that a URL, or an error, leads to.
pub open spec fn pg_address(parsed: Result<(Seq<char>, Seq<char>), Seq<char>>) -> Result<
    Seq<char>,
    ArgErrorView,
> {
    match parsed {
        Err(error) => Err(ArgErrorView::PgUrl { error }),
        Ok((scheme, text)) => if scheme == "postgresql"@ {
            Ok(text)
        } else {
            Err(ArgErrorView::PgScheme { scheme })
        },
    }
}

/// The address of the database that a URL, or an error, leads to.
pub fn accept_pg_url(parsed: Result<ParsedUrl, String>) -> (r: Result<String, ArgError>)
    ensures
        match pg_address(parsed_view(parsed)) {
            Ok(text) => r matches Ok(v) && v@ == text,
            Err(error) => r matches Err(e) && e@ == error,
        },
{
    match parsed {
        Err(error) => Err(ArgError::PgUrl { error }),
        Ok(url) => {
            if text::equal(url.scheme.as_str(), "postgresql") {
                Ok(url.text)
            } else {
                Err(ArgError::PgScheme { scheme: url.scheme })
            }
        },
    }
}

/// The address of the database in an argument.
pub fn parse_pg_address(connect_pg: &str) -> (r: Result<String, ArgError>)
    ensures
        match pg_address(url_parsed(connect_pg@)) {
            Ok(text) => r matches Ok(v) && v@ == text,
            Err(error) => r matches Err(e) && e@ == error,
        },
{
    accept_pg_url(parse_url(connect_pg))
}

/// The address of a server that a URL, or an error, leads to.
pub open spec fn node_url(
    addr: Seq<char>,
    parsed: Result<(Seq<char>, Seq<char>), Seq<char>>,
) -> Result<AddressView, ArgErrorView> {
    match parsed {
        Err(error) => Err(ArgErrorView::NodeUrl { addr, error }),
        Ok((scheme, text)) => if scheme == "http"@ || scheme == "https"@ {
            Ok(AddressView::Url(text))
        } else {
            Err(ArgErrorView::NodeScheme { scheme })
        },
    }
}

/// The address of a server, given how it reads in lower case and what URL it is.
pub open spec fn node_address(
    addr: Seq<char>,
    lower: Seq<char>,
    parsed: Result<(Seq<char>, Seq<char>), Seq<char>>,
) -> Result<AddressView, ArgErrorView> {
    if lower == "dummy"@ {
        Ok(AddressView::Dummy)
    } else {
        node_url(addr, parsed)
    }
}

/// What a part of a list of addresses stands for.
pub open spec fn part_address(addr: Seq<char>) -> Result<AddressView, ArgErrorView> {
    node_address(addr, lowercased(addr), url_parsed(addr))
}

/// The address of a server that a URL, or an error, leads to.
pub fn accept_node_url(addr: &str, parsed: Result<ParsedUrl, String>) -> (r: Result<
    NodeAddress,
    ArgError,
>)
    ensures
        match node_url(addr@, parsed_view(parsed)) {
            Ok(address) => r matches Ok(v) && v@ == address,
            Err(error) => r matches Err(e) && e@ == error,
        },
{
    match parsed {
        Err(error) => Err(ArgError::NodeUrl { addr: addr.to_owned(), error }),
        Ok(url) => {
            if text::equal(url.scheme.as_str(), "http") || text::equal(url.scheme.as_str(), "https") {
                Ok(NodeAddress::Url(url.text))
            } else {
                Err(ArgError::NodeScheme { scheme: url.scheme })
            }
        },
    }
}

/// Whether an address that reads so in lower case is that of no server.
pub fn is_dummy(lower: &str) -> (b: bool)
    ensures
        b == (lower@ == "dummy"@),
{
    text::equal(lower, "dummy")
}

/// The address of a server in a part of an argument.
fn parse_node_address(addr: &str) -> (r: Result<NodeAddress, ArgError>)
    ensures
        match part_address(addr@) {
            Ok(address) => r matches Ok(v) && v@ == address,
            Err(error) => r matches Err(e) && e@ == error,
        },
{
    if is_dummy(to_lowercase(addr).as_str()) {
        Ok(NodeAddress::Dummy)
    } else {
        accept_node_url(addr, parse_url(addr))
    }
}

/// The addresses of all servers, or what is wrong with the first that is refused.
pub open spec fn node_addresses(parts: Seq<Seq<char>>) -> Result<Seq<AddressView>, ArgErrorView>
    decreases parts.len(),
{
    if parts.len() == 0 {
        Ok(Seq::empty())
    } else {
        let addr = parts.last();
        match node_addresses(parts.drop_last()) {
            Err(error) => Err(error),
            Ok(addresses) => match part_address(addr) {
                Ok(address) => Ok(addresses.push(address)),
                Err(error) => Err(error),
            },
        }
    }
}

/// What is refused in the first parts of a list is refused in the whole.
proof fn lemma_first_error(parts: Seq<Seq<char>>, n: int)
    requires
        0 <= n <= parts.len(),
        node_addresses(parts.take(n)) is Err,
    ensures
        node_addresses(parts) == node_addresses(parts.take(n)),
    decreases parts.len(),
{
    if n == parts.len() {
        assert(parts.take(n) == parts);
    } else {
        assert(parts.drop_last().take(n) == parts.take(n));
        lemma_first_error(parts.drop_last(), n);
    }
}

/// The addresses of all servers in an argument, with commas between them.
pub fn parse_node_addresses(nodes: &str) -> (r: Result<Vec<NodeAddress>, ArgError>)
    ensures
        match node_addresses(text::parts(nodes@, ',')) {
            Ok(addresses) => r matches Ok(v) && addresses_view(v@) == addresses,
            Err(error) => r matches Err(e) && e@ == error,
        },
{
    let addrs = text::split(nodes, ',');
    let ghost parts = text::parts(nodes@, ',');
    let mut addresses: Vec<NodeAddress> = Vec::new();
    let mut i: usize = 0;
    proof {
        assert(parts.take(0).len() == 0);
        assert(addresses_view(addresses@) == Seq::<AddressView>::empty());
    }
    while i < addrs.len()
        invariant
            i <= addrs.len(),
            parts == text::parts(nodes@, ','),
            addrs@.map_values(|part: String| part@) == parts,
            node_addresses(parts.take(i as int)) == Ok::<Seq<AddressView>, ArgErrorView>(
                addresses_view(addresses@),
            ),
        decreases addrs.len() - i,
    {
        let ghost done = addresses_view(addresses@);
        proof {
            assert(parts[i as int] == addrs@[i as int]@);
            assert(parts.take(i + 1).drop_last() == parts.take(i as int));
        }
        match parse_node_address(addrs[i].as_str()) {
            Ok(address) => {
                addresses.push(address);
                assert(addresses_view(addresses@) == done.push(address@));
            },
            Err(error) => {
                proof {
                    lemma_first_error(parts, i + 1);
                }
                return Err(error);
            },
        }
        i = i + 1;
    }
    assert(parts.take(parts.len() as int) == parts);
    Ok(addresses)
}

/// The position of an address in a list is the number of the node: all parts have an address, in
/// their order. A list is refused if and only if some part of it is, and for the first such part.
pub proof fn law_node_numbers(parts: Seq<Seq<char>>)
    ensures
        match node_addresses(parts) {
            Ok(addresses) => {
                &&& addresses.len() == parts.len()
                &&& forall|i: int|
                    0 <= i < parts.len() ==> part_address(parts[i]) == Ok::<
                        AddressView,
                        ArgErrorView,
                    >(#[trigger] addresses[i])
            },
            Err(error) => exists|i: int|
                {
                    &&& 0 <= i < parts.len()
                    &&& #[trigger] part_address(parts[i]) == Err::<AddressView, ArgErrorView>(error)
                    &&& forall|j: int| 0 <= j < i ==> (#[trigger] part_address(parts[j])) is Ok
                },
        },
    decreases parts.len(),
{
    if parts.len() > 0 {
        let rest = parts.drop_last();
        law_node_numbers(rest);
        match node_addresses(rest) {
            Ok(addresses) => {
                assert forall|i: int| 0 <= i < rest.len() implies (#[trigger] part_address(
                    parts[i],
                )) is Ok by {
                    assert(rest[i] == parts[i]);
                    assert(part_address(rest[i]) == Ok::<AddressView, ArgErrorView>(addresses[i]));
                }
                if let Ok(all) = node_addresses(parts) {
                    assert forall|i: int| 0 <= i < parts.len() implies part_address(parts[i])
                        == Ok::<AddressView, ArgErrorView>(#[trigger] all[i]) by {
                        if i < rest.len() {
                            assert(rest[i] == parts[i]);
                            assert(all[i] == addresses[i]);
                        }
                    }
                } else {
                    assert(part_address(parts[parts.len() - 1]) is Err);
                }
            },
            Err(error) => {
                let i = choose|i: int|
                    {
                        &&& 0 <= i < rest.len()
                        &&& #[trigger] part_address(rest[i]) == Err::<AddressView, ArgErrorView>(
                            error,
                        )
                        &&& forall|j: int| 0 <= j < i ==> (#[trigger] part_address(rest[j])) is Ok
                    };
                assert(parts[i] == rest[i]);
                assert forall|j: int| 0 <= j < i implies (#[trigger] part_address(
                    parts[j],
                )) is Ok by {
                    assert(parts[j] == rest[j]);
                    assert(part_address(rest[j]) is Ok);
                }
            },
        }
    }
}

/// The URL of each node in a list: that which nobody can be reached under where the part reads
/// `dummy` in lower case, and else the URL in the part, whose scheme is `http` or `https`.
pub proof fn law_node_urls(parts: Seq<Seq<char>>, i: int)
    requires
        node_addresses(parts) is Ok,
        0 <= i < parts.len(),
    ensures
        node_addresses(parts) matches Ok(addresses) && if lowercased(parts[i]) == "dummy"@ {
            addresses[i].url() == "http://0.0.0.0/"@
        } else {
            &&& url_parsed(parts[i]) matches Ok((scheme, text))
            &&& scheme == "http"@ || scheme == "https"@
            &&& addresses[i].url() == text
        },
{
    law_node_numbers(parts);
    assert(part_address(parts[i]) == Ok::<AddressView, ArgErrorView>(
        node_addresses(parts)->Ok_0[i],
    ));
}

} // verus!
