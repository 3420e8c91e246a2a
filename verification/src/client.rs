//! The client's side before the stream: which agent to ask, and under
//! which address.

use vstd::prelude::*;
use vstd::string::StrSliceExecFns;
use vstd::string::StringExecFns;
use crate::text::join2;

verus! {

/// The name of the query parameter that lists the tables to leave out.
pub const EXCLUDE_PARAMETER: &'static str = "exclude_table_data";

/// The longest address, and the longest list of tables, in characters,
/// that a dump address is built from.
pub const MAX_TEXT: usize = 0x100_0000;

/// An agent: where it listens, and the key it expects.
#[derive(Debug, Clone, PartialEq, Eq)]
pub struct Agent {
    /// The agent's base address, as the text of a URL.
    pub url: String,
    pub api_key: String,
}

/// An agent under its identifier.
#[derive(Debug, Clone, PartialEq, Eq)]
pub struct NamedAgent {
    pub id: String,
    pub agent: Agent,
}

/// The client's configuration.
#[derive(Debug, Clone, PartialEq, Eq)]
pub struct ClientSettings {
    pub agents: Vec<NamedAgent>,
}

/// Why the client could not ask an agent.
#[derive(Debug, Clone, Copy, PartialEq, Eq, Structural)]
pub enum ClientError {
    /// An agent was named and there is no configuration to find it in.
    NoConfiguration,
    /// The configuration holds no agent of the name given.
    UnknownAgent,
    /// Neither the command line nor the configuration gives an address.
    NoUrl,
    /// Neither the command line nor the configuration gives a key.
    NoApiKey,
    /// The agent's address and the request do not make a URL.
    InvalidUrl,
}

/// The mathematical value of an [`Agent`].
pub struct AgentView {
    pub url: Seq<char>,
    pub api_key: Seq<char>,
}

impl View for Agent {
    type V = AgentView;

    open spec fn view(&self) -> AgentView {
        AgentView { url: self.url@, api_key: self.api_key@ }
    }
}

/// The first agent with the given identifier, if there is one.
pub open spec fn find_agent(agents: Seq<NamedAgent>, id: Seq<char>) -> Option<AgentView>
    decreases agents.len(),
{
    if agents.len() == 0 {
        None
    } else if agents[0].id@ == id {
        Some(agents[0].agent@)
    } else {
        find_agent(agents.skip(1), id)
    }
}

/// The view of an optional text.
pub open spec fn text_of(text: Option<String>) -> Option<Seq<char>> {
    match text {
        Some(t) => Some(t@),
        None => None,
    }
}

/// The agents of a configuration; none where there is no configuration.
pub open spec fn agents_of(settings: Option<&ClientSettings>) -> Seq<NamedAgent> {
    match settings {
        Some(s) => s.agents@,
        None => Seq::empty(),
    }
}

/// The agent to ask. A named agent must be configured. Without a name the
/// agent configured under the connection's identifier is taken, if there
/// is one. An address and a key from the command line win over the
/// configured ones, and stand alone where no agent is configured.
pub open spec fn resolved_agent(
    settings: Option<&ClientSettings>,
    agent_id: Option<&str>,
    connection_id: Seq<char>,
    url: Option<Seq<char>>,
    api_key: Option<Seq<char>>,
) -> Result<AgentView, ClientError> {
    let wanted = match agent_id {
        Some(id) => id@,
        None => connection_id,
    };
    let found = find_agent(agents_of(settings), wanted);
    if agent_id.is_some() && settings.is_none() {
        Err(ClientError::NoConfiguration)
    } else if agent_id.is_some() && found.is_none() {
        Err(ClientError::UnknownAgent)
    } else {
        match found {
            Some(agent) => Ok(
                AgentView {
                    url: match url {
                        Some(u) => u,
                        None => agent.url,
                    },
                    api_key: match api_key {
                        Some(k) => k,
                        None => agent.api_key,
                    },
                },
            ),
            None => match url {
                None => Err(ClientError::NoUrl),
                Some(u) => match api_key {
                    None => Err(ClientError::NoApiKey),
                    Some(k) => Ok(AgentView { url: u, api_key: k }),
                },
            },
        }
    }
}

/// The path of a dump request below the agent's address.
pub open spec fn dump_path_of(connection_id: Seq<char>, dbname: Option<&str>) -> Seq<char> {
    "dump/"@ + connection_id + "/"@ + match dbname {
        Some(name) => name@,
        None => Seq::empty(),
    }
}

/// The text of the URL that `input` stands for when it is read relative to
/// the URL that `base` spells; `None` where `base` spells no URL or
/// `input` cannot be resolved against it.
pub uninterp spec fn url_joined(base: Seq<char>, input: Seq<char>) -> Option<Seq<char>>;

/// The text of the URL that `url` spells with one more name and value at
/// the end of its query; `None` where `url` spells no URL.
pub uninterp spec fn url_with_pair(url: Seq<char>, name: Seq<char>, value: Seq<char>) -> Option<
    Seq<char>,
>;

/// The error with which `surf::Url` turns a text down.
#[verifier::external_type_specification]
#[verifier::external_body]
pub struct ExParseError(surf::http::url::ParseError);

/// Calls `surf::Url::join` on the URL that `surf::Url::parse` reads from
/// `base`. Nothing is proved of it: the contract gives the result a name
/// and claims only that it depends on the two texts alone.
#[verifier::external_body]
fn join_url(base: &str, input: &str) -> (r: Result<String, surf::http::url::ParseError>)
    ensures
        match r {
            Ok(joined) => url_joined(base@, input@) == Some(joined@),
            Err(_) => url_joined(base@, input@).is_none(),
        },
{
    let joined = surf::Url::parse(base)?.join(input)?;
    Ok(joined.into())
}

/// Calls `append_pair` on what `surf::Url::query_pairs_mut` hands out for
/// the URL that `surf::Url::parse` reads from `url`. Nothing is proved of
/// it: the contract gives the result a name and claims only that it
/// depends on the three texts alone. Texts too long for the 32-bit
/// positions that a URL keeps are not accepted.
#[verifier::external_body]
fn append_query_pair(url: &str, name: &str, value: &str) -> (r: Result<
    String,
    surf::http::url::ParseError,
>)
    requires
        url@.len() <= MAX_TEXT,
        name@.len() <= MAX_TEXT,
        value@.len() <= MAX_TEXT,
    ensures
        match r {
            Ok(extended) => url_with_pair(url@, name@, value@) == Some(extended@),
            Err(_) => url_with_pair(url@, name@, value@).is_none(),
        },
{
    let mut parsed = surf::Url::parse(url)?;
    parsed.query_pairs_mut().append_pair(name, value);
    Ok(parsed.into())
}

/// The address of a dump request, from the joined address and the list of
/// tables to leave out.
pub open spec fn dump_url_of(joined: Option<Seq<char>>, exclude: Option<&str>) -> Result<
    Seq<char>,
    ClientError,
> {
    match joined {
        None => Err(ClientError::InvalidUrl),
        Some(address) => match exclude {
            None => Ok(address),
            Some(tables) => if address.len() > MAX_TEXT || tables@.len() > MAX_TEXT {
                Err(ClientError::InvalidUrl)
            } else {
                match url_with_pair(address, EXCLUDE_PARAMETER@, tables@) {
                    Some(extended) => Ok(extended),
                    None => Err(ClientError::InvalidUrl),
                }
            },
        },
    }
}

impl ClientSettings {
    /// The agent under an identifier: the first with this identifier, and
    /// `None` exactly where there is none.
    pub fn agent(&self, id: &str) -> (r: Option<&Agent>)
        ensures
            match find_agent(self.agents@, id@) {
                Some(agent) => r.is_some() && r.unwrap()@ == agent,
                None => r.is_none(),
            },
    {
        let wanted: String = String::from_str(id);
        let mut i: usize = 0;
        assert(self.agents@.skip(0) =~= self.agents@);
        while i < self.agents.len()
            invariant
                wanted@ == id@,
                i <= self.agents@.len(),
                find_agent(self.agents@, id@) == find_agent(self.agents@.skip(i as int), id@),
            decreases self.agents@.len() - i,
        {
            assert(self.agents@.skip(i as int).skip(1) =~= self.agents@.skip(i + 1));
            if self.agents[i].id == wanted {
                return Some(&self.agents[i].agent);
            }
            i += 1;
        }
        None
    }
}

impl ClientError {
    /// What the client reports for this error.
    pub fn message(&self, agent_id: &str) -> (text: String)
        ensures
            text@ == match *self {
                ClientError::NoConfiguration => "no configuration provided"@,
                ClientError::UnknownAgent => "no agent "@ + agent_id@,
                ClientError::NoUrl => "no URL provided"@,
                ClientError::NoApiKey => "no api key provided"@,
                ClientError::InvalidUrl => "invalid URL"@,
            },
    {
        match self {
            ClientError::NoConfiguration => String::from_str("no configuration provided"),
            ClientError::UnknownAgent => join2("no agent ", agent_id),
            ClientError::NoUrl => String::from_str("no URL provided"),
            ClientError::NoApiKey => String::from_str("no api key provided"),
            ClientError::InvalidUrl => String::from_str("invalid URL"),
        }
    }
}

/// Picks the agent to ask, from the configuration and the command line.
pub fn resolve_agent(
    settings: Option<&ClientSettings>,
    agent_id: Option<&str>,
    connection_id: &str,
    url: Option<String>,
    api_key: Option<String>,
) -> (r: Result<Agent, ClientError>)
    ensures
        match resolved_agent(settings, agent_id, connection_id@, text_of(url), text_of(api_key)) {
            Ok(agent) => r.is_ok() && r.unwrap()@ == agent,
            Err(e) => r == Err::<Agent, ClientError>(e),
        },
{
    let found: Option<&Agent> = match agent_id {
        Some(id) => {
            match settings {
                None => {
                    return Err(ClientError::NoConfiguration);
                },
                Some(s) => match s.agent(id) {
                    None => {
                        return Err(ClientError::UnknownAgent);
                    },
                    Some(agent) => Some(agent),
                },
            }
        },
        None => match settings {
            Some(s) => s.agent(connection_id),
            None => None,
        },
    };
    match found {
        Some(agent) => {
            let url: String = match url {
                Some(u) => u,
                None => agent.url.clone(),
            };
            let api_key: String = match api_key {
                Some(k) => k,
                None => agent.api_key.clone(),
            };
            Ok(Agent { url, api_key })
        },
        None => match url {
            None => Err(ClientError::NoUrl),
            Some(u) => match api_key {
                None => Err(ClientError::NoApiKey),
                Some(k) => Ok(Agent { url: u, api_key: k }),
            },
        },
    }
}

/// The path of a dump request below the agent's address.
pub fn dump_path(connection_id: &str, dbname: Option<&str>) -> (path: String)
    ensures
        path@ == dump_path_of(connection_id@, dbname),
{
    let mut path: String = String::from_str("dump/");
    path.append(connection_id);
    path.append("/");
    match dbname {
        Some(name) => {
            path.append(name);
        },
        None => {
            assert(path@ + Seq::<char>::empty() =~= path@);
        },
    }
    path
}

/// Finishes the address of a dump request: the joined address, with the
/// list of tables to leave out as a query parameter where there is one.
pub fn finish_dump_url(joined: Result<String, surf::http::url::ParseError>, exclude: Option<
    &str,
>) -> (r: Result<String, ClientError>)
    ensures
        match dump_url_of(
            match joined {
                Ok(address) => Some(address@),
                Err(_) => None,
            },
            exclude,
        ) {
            Ok(address) => r.is_ok() && r.unwrap()@ == address,
            Err(e) => r == Err::<String, ClientError>(e),
        },
{
    let address: String = match joined {
        Ok(address) => address,
        Err(_) => {
            return Err(ClientError::InvalidUrl);
        },
    };
    match exclude {
        None => Ok(address),
        Some(tables) => {
            if address.as_str().unicode_len() > MAX_TEXT || tables.unicode_len() > MAX_TEXT {
                return Err(ClientError::InvalidUrl);
            }
            proof {
                reveal_strlit("exclude_table_data");
            }
            match append_query_pair(address.as_str(), EXCLUDE_PARAMETER, tables) {
                Ok(extended) => Ok(extended),
                Err(_) => Err(ClientError::InvalidUrl),
            }
        },
    }
}

/// The address of a dump request: the path of the request, read relative
/// to the agent's address, with the list of tables to leave out as a
/// query parameter where there is one.
pub fn dump_url(base: &str, connection_id: &str, dbname: Option<&str>, exclude: Option<&str>) -> (r:
    Result<String, ClientError>)
    ensures
        match dump_url_of(url_joined(base@, dump_path_of(connection_id@, dbname)), exclude) {
            Ok(address) => r.is_ok() && r.unwrap()@ == address,
            Err(e) => r == Err::<String, ClientError>(e),
        },
{
    let path: String = dump_path(connection_id, dbname);
    finish_dump_url(join_url(base, path.as_str()), exclude)
}

} // verus!
