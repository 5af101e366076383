//! Which broker serves a topic.
use std::sync::Arc;

use crate::error::{ConnectionError, ServiceDiscoveryError};
use crate::text::{decimal_string, option_text_string, signed_decimal_string};
use vstd::prelude::*;

verus! {

/// Where a broker can be reached.
#[derive(Debug, PartialEq, Eq)]
pub struct BrokerAddress {
    /// The address to connect to.
    pub url: String,
    /// The address of the broker itself.
    pub broker_url: String,
    /// Whether the broker is reached through a proxy.
    pub proxy: bool,
}

#[verifier::ext_equal]
pub struct AddressView {
    pub url: Seq<char>,
    pub broker_url: Seq<char>,
    pub proxy: bool,
}

impl View for BrokerAddress {
    type V = AddressView;

    open spec fn view(&self) -> AddressView {
        AddressView { url: self.url@, broker_url: self.broker_url@, proxy: self.proxy }
    }
}

impl Clone for BrokerAddress {
    fn clone(&self) -> (r: BrokerAddress)
        ensures
            r@ == self@,
    {
        BrokerAddress {
            url: self.url.clone(),
            broker_url: self.broker_url.clone(),
            proxy: self.proxy,
        }
    }
}

/// The kind of a lookup response that names another broker to ask.
pub const LOOKUP_REDIRECT: i32 = 0;

/// The kind of a lookup response that names the broker to connect to.
pub const LOOKUP_CONNECT: i32 = 1;

/// The kind of a lookup response that refuses the request.
pub const LOOKUP_FAILED: i32 = 2;

/// The answer of a broker that was asked which broker serves a topic.
#[derive(Debug, PartialEq, Eq)]
pub struct CommandLookupTopicResponse {
    pub broker_service_url: Option<String>,
    pub broker_service_url_tls: Option<String>,
    pub response: Option<i32>,
    pub authoritative: Option<bool>,
    pub error: Option<i32>,
    pub message: Option<String>,
    pub proxy_through_service_url: Option<bool>,
}

/// The answer of a broker that was asked how many partitions a topic has.
#[derive(Debug, PartialEq, Eq)]
pub struct CommandPartitionedTopicMetadataResponse {
    pub partitions: Option<u32>,
    pub error: Option<i32>,
    pub message: Option<String>,
}

/// What a lookup response says, if it does not refuse the request.
#[derive(Debug, PartialEq, Eq)]
pub struct LookupResponse {
    pub broker_url: String,
    pub broker_url_tls: Option<String>,
    pub proxy: bool,
    pub redirect: bool,
    pub authoritative: bool,
}

impl CommandLookupTopicResponse {
    /// The broker refuses the request.
    pub open spec fn refused(&self) -> bool {
        self.response is None || self.response == Some(LOOKUP_FAILED)
    }

    /// The broker says why it refuses the request, if it does.
    pub open spec fn explained(&self) -> bool {
        self.refused() && self.message is None ==> self.error is Some
    }

    /// Why the broker refuses the request.
    pub open spec fn refusal(&self) -> Seq<char> {
        match self.message {
            Some(message) => message@,
            None => "server error: "@ + crate::text::signed_decimal(self.error->0 as int),
        }
    }

    /// The response names another broker to ask.
    pub open spec fn redirects(&self) -> bool {
        self.response == Some(LOOKUP_REDIRECT)
    }

    /// The broker's address, over TLS if it has such a one.
    pub open spec fn best_url(&self) -> Seq<char> {
        match self.broker_service_url_tls {
            Some(url) => url@,
            None => self.broker_service_url->0@,
        }
    }

    pub open spec fn through_proxy(&self) -> bool {
        self.proxy_through_service_url == Some(true)
    }

    pub open spec fn is_authoritative(&self) -> bool {
        self.authoritative == Some(true)
    }

    /// Whether the broker says why it refuses the request, if it does.
    pub fn is_explained(&self) -> (r: bool)
        ensures
            r == self.explained(),
    {
        let refused: bool = match self.response {
            None => true,
            Some(kind) => kind == LOOKUP_FAILED,
        };
        !refused || self.message.is_some() || self.error.is_some()
    }
}

/// What is stated as an optional flag; a flag that is left out is not set.
fn flag(stated: Option<bool>) -> (r: bool)
    ensures
        r == (stated == Some(true)),
{
    match stated {
        Some(set) => set,
        None => false,
    }
}

/// Takes a lookup response apart.
pub fn convert_lookup_response(response: &CommandLookupTopicResponse) -> (r: Result<
    LookupResponse,
    ServiceDiscoveryError,
>)
    requires
        response.explained(),
    ensures
        r is Ok <==> response.response is Some && response.response != Some(2i32)
            && response.broker_service_url is Some,
        match r {
            Ok(lookup) => {
                &&& lookup.broker_url@ == response.broker_service_url->0@
                &&& match (lookup.broker_url_tls, response.broker_service_url_tls) {
                    (Some(a), Some(b)) => a@ == b@,
                    (None, None) => true,
                    _ => false,
                }
                &&& lookup.proxy <==> response.proxy_through_service_url == Some(true)
                &&& lookup.redirect <==> response.response == Some(0i32)
                &&& lookup.authoritative <==> response.authoritative == Some(true)
            },
            Err(ServiceDiscoveryError::Query(text)) => {
                &&& response.response is None || response.response == Some(2i32)
                &&& text@ == response.refusal()
                &&& response.message matches Some(message) ==> text@ == message@
                &&& response.message is None && response.error is Some ==> text@
                    == "server error: "@ + crate::text::signed_decimal(response.error->0 as int)
            },
            Err(ServiceDiscoveryError::NotFound) => {
                &&& response.response is Some && response.response != Some(2i32)
                &&& response.broker_service_url is None
            },
            Err(ServiceDiscoveryError::Connection(_)) => false,
        },
{
    let kind: i32 = match response.response {
        Some(kind) => kind,
        None => LOOKUP_FAILED,
    };
    if kind == LOOKUP_FAILED {
        let text: String = match &response.message {
            Some(message) => message.clone(),
            None => {
                let error: i32 = response.error.unwrap();
                let text: String = "server error: ".to_owned();
                text.concat(signed_decimal_string(error).as_str())
            },
        };
        return Err(ServiceDiscoveryError::Query(text));
    }
    match &response.broker_service_url {
        Some(broker_url) => Ok(
            LookupResponse {
                broker_url: broker_url.clone(),
                broker_url_tls: response.broker_service_url_tls.clone(),
                proxy: flag(response.proxy_through_service_url),
                redirect: kind == LOOKUP_REDIRECT,
                authoritative: flag(response.authoritative),
            },
        ),
        None => Err(ServiceDiscoveryError::NotFound),
    }
}

/// The text of the error for a broker that cannot be connected to.
pub open spec fn unknown_broker_text() -> Seq<char> {
    "unknown broker URL"@
}

/// A lookup that is under way. `Conn` is a connection to the broker that is asked; the lookup
/// only carries it.
pub struct Lookup<Conn> {
    topic: String,
    base_url: String,
    proxied_query: bool,
    is_authoritative: bool,
    conn: Conn,
    found: Option<BrokerAddress>,
}

#[verifier::ext_equal]
pub struct LookupView<Conn> {
    pub topic: Seq<char>,
    pub base_url: Seq<char>,
    /// Whether the broker that is asked was reached through a proxy.
    pub proxied_query: bool,
    /// Whether the last response was authoritative.
    pub authoritative: bool,
    pub conn: Conn,
    /// The broker that serves the topic, once one said so.
    pub found: Option<AddressView>,
}

impl<Conn> LookupView<Conn> {
    /// The broker that a response names. Through a proxy, the base URL is connected to.
    pub open spec fn address(self, response: CommandLookupTopicResponse) -> AddressView {
        let proxy = self.proxied_query || response.through_proxy();
        AddressView {
            url: if proxy {
                self.base_url
            } else {
                response.best_url()
            },
            broker_url: response.best_url(),
            proxy,
        }
    }
}

impl<Conn> View for Lookup<Conn> {
    type V = LookupView<Conn>;

    closed spec fn view(&self) -> LookupView<Conn> {
        LookupView {
            topic: self.topic@,
            base_url: self.base_url@,
            proxied_query: self.proxied_query,
            authoritative: self.is_authoritative,
            conn: self.conn,
            found: match self.found {
                Some(address) => Some(address@),
                None => None,
            },
        }
    }
}

/// What happened to a lookup.
pub enum LookupEvent<Conn> {
    /// The broker was asked.
    Response(Result<CommandLookupTopicResponse, ConnectionError>),
    /// A connection to another broker was made, if there is one, and whether through a proxy.
    Connected(Option<(bool, Conn)>),
    /// A connection to the broker that serves the topic was tried.
    Verified(Result<(), ConnectionError>),
}

/// What a lookup wants done.
pub enum LookupAction {
    /// Ask the broker of the lookup's connection which broker serves a topic.
    Query { topic: String, authoritative: bool },
    /// Connect to the broker at this address, to ask it.
    Connect(String),
    /// Connect to the broker that serves the topic.
    Verify(BrokerAddress),
    /// Return this from the lookup.
    Return(Result<BrokerAddress, ServiceDiscoveryError>),
}

/// The lookup asks the broker of its connection.
pub open spec fn is_query<Conn>(lookup: LookupView<Conn>, action: LookupAction) -> bool {
    action matches LookupAction::Query { topic, authoritative } && topic@ == lookup.topic
        && authoritative == lookup.authoritative
}

/// The lookup ends because of a query with the given text.
pub open spec fn is_query_error(action: LookupAction, text: Seq<char>) -> bool {
    action matches LookupAction::Return(Err(ServiceDiscoveryError::Query(t))) && t@ == text
}

/// What a response does to a lookup, and what the lookup asks for then.
pub open spec fn response_step<Conn>(
    before: LookupView<Conn>,
    response: CommandLookupTopicResponse,
    after: LookupView<Conn>,
    action: LookupAction,
) -> bool {
    let noted = LookupView { authoritative: response.is_authoritative(), ..before };
    if response.refused() {
        after == before && is_query_error(action, response.refusal())
    } else if response.broker_service_url is None {
        after == before && action == LookupAction::Return(Err(ServiceDiscoveryError::NotFound))
    } else if response.redirects() {
        after == noted && (action matches LookupAction::Connect(url) && url@
            == response.best_url())
    } else {
        after == (LookupView { found: Some(before.address(response)), ..noted }) && (
        action matches LookupAction::Verify(address) && address@ == before.address(response))
    }
}

/// What one step of a lookup does to it, and what it asks for.
pub open spec fn lookup_step<Conn>(
    before: LookupView<Conn>,
    event: LookupEvent<Conn>,
    after: LookupView<Conn>,
    action: LookupAction,
) -> bool {
    match event {
        LookupEvent::Response(Ok(response)) => response_step(before, response, after, action),
        LookupEvent::Response(Err(e)) => after == before && action == LookupAction::Return(
            Err(ServiceDiscoveryError::Connection(e)),
        ),
        LookupEvent::Connected(Some((proxied, conn))) => after == (LookupView {
            proxied_query: proxied,
            conn,
            ..before
        }) && is_query(after, action),
        LookupEvent::Connected(None) => after == before && is_query_error(
            action,
            unknown_broker_text(),
        ),
        LookupEvent::Verified(Ok(_)) => after == before && (action matches LookupAction::Return(
            Ok(address),
        ) && Some(address@) == before.found),
        LookupEvent::Verified(Err(e)) => after == before && action == LookupAction::Return(
            Err(ServiceDiscoveryError::Connection(e)),
        ),
    }
}

impl<Conn> Lookup<Conn> {
    /// The connection to the broker that is asked.
    pub fn conn(&self) -> (r: &Conn)
        ensures
            *r == self@.conn,
    {
        &self.conn
    }

    fn query(&self) -> (r: LookupAction)
        ensures
            is_query(self@, r),
    {
        LookupAction::Query {
            topic: self.topic.clone(),
            authoritative: self.is_authoritative,
        }
    }

    fn unknown_broker() -> (r: ServiceDiscoveryError)
        ensures
            r matches ServiceDiscoveryError::Query(text) && text@ == unknown_broker_text(),
    {
        ServiceDiscoveryError::Query("unknown broker URL".to_owned())
    }

    fn on_response(&mut self, response: CommandLookupTopicResponse) -> (action: LookupAction)
        requires
            response.explained(),
        ensures
            response_step(old(self)@, response, final(self)@, action),
    {
        match convert_lookup_response(&response) {
            Err(e) => LookupAction::Return(Err(e)),
            Ok(lookup) => {
                let LookupResponse { broker_url, broker_url_tls, proxy, redirect, authoritative } =
                    lookup;
                self.is_authoritative = authoritative;
                let broker_url: String = match broker_url_tls {
                    Some(url) => url,
                    None => broker_url,
                };
                if redirect {
                    LookupAction::Connect(broker_url)
                } else {
                    let proxy: bool = self.proxied_query || proxy;
                    let url: String = if proxy {
                        self.base_url.clone()
                    } else {
                        broker_url.clone()
                    };
                    let address = BrokerAddress { url, broker_url, proxy };
                    self.found = Some(address.clone());
                    LookupAction::Verify(address)
                }
            },
        }
    }

    /// One step of a lookup: takes note of what happened and says what to do next. The answer
    /// `Return` ends the lookup; any other is followed by the next step.
    pub fn step(&mut self, event: LookupEvent<Conn>) -> (action: LookupAction)
        requires
            event matches LookupEvent::Response(Ok(response)) ==> response.explained(),
            event is Verified ==> old(self)@.found is Some,
        ensures
            lookup_step(old(self)@, event, final(self)@, action),
    {
        match event {
            LookupEvent::Response(Ok(response)) => self.on_response(response),
            LookupEvent::Response(Err(e)) => LookupAction::Return(
                Err(ServiceDiscoveryError::from(e)),
            ),
            LookupEvent::Connected(Some((proxied_query, conn))) => {
                self.proxied_query = proxied_query;
                self.conn = conn;
                self.query()
            },
            LookupEvent::Connected(None) => LookupAction::Return(Err(Self::unknown_broker())),
            LookupEvent::Verified(Ok(_)) => match &self.found {
                Some(address) => LookupAction::Return(Ok(address.clone())),
                None => {
                    assert(false);
                    LookupAction::Return(Err(Self::unknown_broker()))
                },
            },
            LookupEvent::Verified(Err(e)) => LookupAction::Return(
                Err(ServiceDiscoveryError::Connection(e)),
            ),
        }
    }
}

/// The name of a partition of a topic.
pub open spec fn partition_name(topic: Seq<char>, partition: nat) -> Seq<char> {
    topic + "-partition-"@ + crate::text::decimal(partition)
}

/// The names of the first partitions of a topic.
pub open spec fn partition_names(topic: Seq<char>, partitions: nat) -> Seq<Seq<char>> {
    Seq::new(partitions, |i: int| partition_name(topic, i as nat))
}

/// Looks up broker addresses for topics and partitioned topics.
///
/// It is the single interface to start interacting with a cluster: it follows redirects or uses a
/// proxy. `Manager` is what makes connections to brokers; the interface only carries it.
pub struct ServiceDiscovery<Manager> {
    manager: Arc<Manager>,
}

impl<Manager> Clone for ServiceDiscovery<Manager> {
    fn clone(&self) -> (r: Self)
        ensures
            r.managed() == self.managed(),
    {
        ServiceDiscovery { manager: self.manager.clone() }
    }
}

impl<Manager> ServiceDiscovery<Manager> {
    /// What makes connections to brokers.
    pub closed spec fn managed(&self) -> Arc<Manager> {
        self.manager
    }

    pub fn with_manager(manager: Arc<Manager>) -> (r: Self)
        ensures
            r.managed() == manager,
    {
        ServiceDiscovery { manager }
    }

    /// What makes connections to brokers.
    pub fn manager(&self) -> (r: &Arc<Manager>)
        ensures
            *r == self.managed(),
    {
        &self.manager
    }

    /// Begins to look up which broker serves a topic, by asking the broker of `conn`.
    pub fn lookup<Conn>(
        &self,
        topic: String,
        proxied_query: bool,
        conn: Conn,
        base_url: String,
        is_authoritative: bool,
    ) -> (r: (Lookup<Conn>, LookupAction))
        ensures
            r.0@ == (LookupView {
                topic: topic@,
                base_url: base_url@,
                proxied_query,
                authoritative: is_authoritative,
                conn,
                found: None,
            }),
            is_query(r.0@, r.1),
    {
        let lookup = Lookup {
            topic,
            base_url,
            proxied_query,
            is_authoritative,
            conn,
            found: None,
        };
        let action = lookup.query();
        (lookup, action)
    }

    /// Begins to look up which broker serves a topic, given the connection to the cluster, if there
    /// is one, whether it goes through a proxy, and the URL of the cluster.
    pub fn lookup_topic<S: Into<String>, Conn>(
        &self,
        topic: S,
        conn_info: Option<(bool, Conn)>,
        base_url: String,
    ) -> (r: Result<(Lookup<Conn>, LookupAction), ServiceDiscoveryError>)
        ensures
            match (conn_info, r) {
                (Some((proxied_query, conn)), Ok((lookup, action))) => exists|name: String|
                    {
                        &&& #[trigger] call_ensures(S::into, (topic,), name)
                        &&& lookup@ == (LookupView {
                            topic: name@,
                            base_url: base_url@,
                            proxied_query,
                            authoritative: false,
                            conn,
                            found: None,
                        })
                        &&& is_query(lookup@, action)
                    },
                (None, Err(ServiceDiscoveryError::Query(text))) => text@ == unknown_broker_text(),
                _ => false,
            },
    {
        let topic: String = topic.into();
        match conn_info {
            Some((proxied_query, conn)) => Ok(
                self.lookup(topic, proxied_query, conn, base_url, false),
            ),
            None => Err(Lookup::<Conn>::unknown_broker()),
        }
    }

    /// The number of partitions of a partitioned topic, as the broker answers it.
    pub fn lookup_partitioned_topic_number(
        &self,
        response: Result<CommandPartitionedTopicMetadataResponse, ConnectionError>,
    ) -> (r: Result<u32, ServiceDiscoveryError>)
        ensures
            match (response, r) {
                (Err(e), Err(ServiceDiscoveryError::Connection(error))) => error == e,
                (Ok(response), Ok(partitions)) => response.partitions == Some(partitions),
                (Ok(response), Err(ServiceDiscoveryError::Query(text))) => {
                    &&& response.partitions is None
                    &&& text@ == (match response.message {
                        Some(message) => message@,
                        None => "server error: "@ + crate::text::option_text(response.error),
                    })
                },
                _ => false,
            },
    {
        match response {
            Ok(response) => match response.partitions {
                Some(partitions) => Ok(partitions),
                None => match response.message {
                    Some(message) => Err(ServiceDiscoveryError::Query(message)),
                    None => {
                        let text: String = "server error: ".to_owned();
                        Err(
                            ServiceDiscoveryError::Query(
                                text.concat(option_text_string(response.error).as_str()),
                            ),
                        )
                    },
                },
            },
            Err(e) => Err(ServiceDiscoveryError::from(e)),
        }
    }

    /// The names of the partitions of a partitioned topic, each of which is to be looked up, given
    /// their number.
    pub fn lookup_partitioned_topic<S: Into<String>>(
        &self,
        topic: S,
        partitions: Result<u32, ServiceDiscoveryError>,
    ) -> (r: Result<Vec<String>, ServiceDiscoveryError>)
        ensures
            match (partitions, r) {
                (Ok(partitions), Ok(names)) => exists|name: String|
                    {
                        &&& #[trigger] call_ensures(S::into, (topic,), name)
                        &&& crate::text_list::texts(names@) == partition_names(
                            name@,
                            partitions as nat,
                        )
                    },
                (Err(e), Err(error)) => error == e,
                _ => false,
            },
    {
        let topic: String = topic.into();
        match partitions {
            Ok(partitions) => {
                let mut names: Vec<String> = Vec::new();
                let mut nb: u32 = 0;
                while nb < partitions
                    invariant
                        nb <= partitions,
                        crate::text_list::texts(names@) == partition_names(topic@, nb as nat),
                    decreases partitions - nb,
                {
                    let ghost was = names@;
                    let name: String = topic.clone();
                    let name: String = name.concat("-partition-").concat(
                        decimal_string(nb).as_str(),
                    );
                    names.push(name);
                    assert(crate::text_list::texts(names@) =~= crate::text_list::texts(was).push(
                        partition_name(topic@, nb as nat),
                    ));
                    nb = nb + 1;
                    assert(crate::text_list::texts(names@) =~= partition_names(
                        topic@,
                        nb as nat,
                    ));
                }
                Ok(names)
            },
            Err(e) => Err(e),
        }
    }
}

/// The name of a partition together with what its lookup found.
pub fn partition_address(
    name: String,
    found: Result<BrokerAddress, ServiceDiscoveryError>,
) -> (r: Result<(String, BrokerAddress), ServiceDiscoveryError>)
    ensures
        match (found, r) {
            (Ok(address), Ok(pair)) => pair == (name, address),
            (Err(e), Err(error)) => error == e,
            _ => false,
        },
{
    match found {
        Ok(address) => Ok((name, address)),
        Err(e) => Err(e),
    }
}

/// Different partitions of a topic have different names.
pub proof fn partition_names_are_distinct(topic: Seq<char>, a: nat, b: nat)
    requires
        partition_name(topic, a) == partition_name(topic, b),
    ensures
        a == b,
{
    let stem = topic + "-partition-"@;
    let x = crate::text::decimal(a);
    let y = crate::text::decimal(b);
    assert(x =~= (stem + x).skip(stem.len() as int));
    assert(y =~= (stem + y).skip(stem.len() as int));
    crate::text::decimal_is_injective(a, b);
}

/// A lookup never changes the topic that it looks up, nor the URL that it uses behind a proxy.
pub proof fn lookup_keeps_its_subject<Conn>(
    before: LookupView<Conn>,
    event: LookupEvent<Conn>,
    after: LookupView<Conn>,
    action: LookupAction,
)
    requires
        lookup_step(before, event, after, action),
    ensures
        after.topic == before.topic,
        after.base_url == before.base_url,
{
}

/// A redirect is followed: the broker that the response names is connected to and asked for the
/// same topic, as authoritatively as the response says.
pub proof fn redirects_are_followed<Conn>(
    before: LookupView<Conn>,
    response: CommandLookupTopicResponse,
    between: LookupView<Conn>,
    connect: LookupAction,
    proxied_query: bool,
    conn: Conn,
    after: LookupView<Conn>,
    query: LookupAction,
)
    requires
        lookup_step(before, LookupEvent::Response(Ok(response)), between, connect),
        lookup_step(between, LookupEvent::Connected(Some((proxied_query, conn))), after, query),
        response.redirects(),
        response.broker_service_url is Some,
    ensures
        connect matches LookupAction::Connect(url) && url@ == response.best_url(),
        query matches LookupAction::Query { topic, authoritative } && topic@ == before.topic
            && authoritative == response.is_authoritative(),
        after.conn == conn,
        after.proxied_query == proxied_query,
{
}

/// An address is only returned after a connection to it was made: the one that the last response
/// names.
pub proof fn returned_address_was_connected_to<Conn>(
    before: LookupView<Conn>,
    response: CommandLookupTopicResponse,
    between: LookupView<Conn>,
    verify: LookupAction,
    connected: Result<(), ConnectionError>,
    after: LookupView<Conn>,
    answer: LookupAction,
)
    requires
        lookup_step(before, LookupEvent::Response(Ok(response)), between, verify),
        verify is Verify,
        lookup_step(between, LookupEvent::Verified(connected), after, answer),
    ensures
        verify->Verify_0@ == before.address(response),
        match connected {
            Ok(_) => answer matches LookupAction::Return(Ok(address)) && address@
                == before.address(response),
            Err(e) => answer == LookupAction::Return(Err(ServiceDiscoveryError::Connection(e))),
        },
{
}

/// Behind a proxy the base URL is connected to; otherwise the broker itself is. A proxy is used
/// exactly if the broker that was asked is behind one, or the response says that one is to be used:
/// a response that says nothing of a proxy, or says that none is used, does not bring one in.
/// Either way the broker is named by its address over TLS if it has one.
pub proof fn proxied_brokers_use_the_base_url<Conn>(
    lookup: LookupView<Conn>,
    response: CommandLookupTopicResponse,
)
    ensures
        ({
            let address = lookup.address(response);
            &&& address.proxy <==> lookup.proxied_query || response.proxy_through_service_url
                == Some(true)
            &&& address.proxy ==> address.url == lookup.base_url
            &&& !address.proxy ==> address.url == address.broker_url
            &&& response.broker_service_url_tls matches Some(url) ==> address.broker_url == url@
            &&& response.broker_service_url_tls is None && response.broker_service_url is Some
                ==> address.broker_url == response.broker_service_url->0@
        }),
{
}

/// What a lookup makes of a response, in terms of what the response holds. A response of kind 2, or
/// of none, refuses the lookup with its message, or else its error number. Any other without a
/// broker finds nothing. One of kind 0 sends the lookup on to its broker, over TLS if it can. Any
/// other names the broker, which is reached directly unless the broker that was asked is behind a
/// proxy or the response says that one is used.
pub proof fn responses_are_obeyed<Conn>(
    before: LookupView<Conn>,
    response: CommandLookupTopicResponse,
    after: LookupView<Conn>,
    action: LookupAction,
)
    requires
        lookup_step(before, LookupEvent::Response(Ok(response)), after, action),
    ensures
        ({
            let refused = response.response is None || response.response == Some(2i32);
            let best = if response.broker_service_url_tls is Some {
                response.broker_service_url_tls->0@
            } else {
                response.broker_service_url->0@
            };
            let proxy = before.proxied_query || response.proxy_through_service_url == Some(true);
            &&& refused ==> {
                &&& after == before
                &&& action matches LookupAction::Return(Err(ServiceDiscoveryError::Query(text)))
                &&& response.message matches Some(message) ==> text@ == message@
                &&& response.message is None && response.error is Some ==> text@
                    == "server error: "@ + crate::text::signed_decimal(response.error->0 as int)
            }
            &&& !refused && response.broker_service_url is None ==> {
                &&& after == before
                &&& action == LookupAction::Return(Err(ServiceDiscoveryError::NotFound))
            }
            &&& !refused && response.broker_service_url is Some ==> {
                &&& after.authoritative <==> response.authoritative == Some(true)
                &&& after.proxied_query == before.proxied_query
                &&& after.conn == before.conn
            }
            &&& response.response == Some(0i32) && response.broker_service_url is Some ==> {
                &&& action matches LookupAction::Connect(url)
                &&& url@ == best
            }
            &&& !refused && response.response != Some(0i32) && response.broker_service_url is Some
                ==> {
                &&& action matches LookupAction::Verify(address)
                &&& address.broker_url@ == best
                &&& address.proxy == proxy
                &&& proxy ==> address.url@ == before.base_url
                &&& !proxy ==> address.url@ == best
                &&& after.found == Some(address@)
            }
        }),
{
}

/// A lookup asks again where it was sent, ends where it cannot be sent on, and answers with the
/// broker that was found once a connection to it was made. Every failure of a connection comes out
/// as it is.
pub proof fn lookups_go_on_as_connections_do<Conn>(
    before: LookupView<Conn>,
    event: LookupEvent<Conn>,
    after: LookupView<Conn>,
    action: LookupAction,
)
    requires
        lookup_step(before, event, after, action),
    ensures
        match event {
            LookupEvent::Connected(Some((proxied, conn))) => {
                &&& action matches LookupAction::Query { topic, authoritative }
                &&& topic@ == before.topic
                &&& authoritative == before.authoritative
                &&& after.conn == conn
                &&& after.proxied_query == proxied
                &&& after.authoritative == before.authoritative
            },
            LookupEvent::Connected(None) => {
                &&& action matches LookupAction::Return(Err(ServiceDiscoveryError::Query(text)))
                &&& text@ == "unknown broker URL"@
            },
            LookupEvent::Verified(Ok(_)) => {
                &&& action matches LookupAction::Return(Ok(address))
                &&& before.found == Some(address@)
            },
            LookupEvent::Verified(Err(e)) => action == LookupAction::Return(
                Err(ServiceDiscoveryError::Connection(e)),
            ),
            LookupEvent::Response(Err(e)) => action == LookupAction::Return(
                Err(ServiceDiscoveryError::Connection(e)),
            ),
            LookupEvent::Response(Ok(_)) => true,
        },
        after.topic == before.topic,
        after.base_url == before.base_url,
{
}

/// Two addresses that look the same are the same.
pub proof fn addresses_are_seen_in_full(a: BrokerAddress, b: BrokerAddress)
    requires
        a@ == b@,
    ensures
        a.url@ == b.url@,
        a.broker_url@ == b.broker_url@,
        a.proxy == b.proxy,
{
}

/// The name of partition `i` of a topic is the topic, the word `-partition-` and the number, and a
/// topic of `n` partitions has those of the numbers below `n`, in order.
pub proof fn partitions_are_numbered(topic: Seq<char>, n: nat, i: nat)
    requires
        i < n,
    ensures
        partition_names(topic, n).len() == n,
        partition_names(topic, n)[i as int] == topic + "-partition-"@ + crate::text::decimal(i),
{
}

} // verus!
