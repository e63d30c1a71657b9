//! Server identity: parsing server specs, telling local from remote, and the
//! registry that resolves names.

use crate::text::{
    contains_char,
    eq_ignore_case,
    from_chars,
    is_space,
    is_text_ignore_case,
    lemma_trimmed_is_tight,
    push_str,
    same,
    to_chars,
    trim,
    trim_end,
    trim_start,
    trimmed,
};
use crate::tokens::{lemma_split_on_pair, rows, split, split_on};
use vstd::prelude::*;

verus! {

/// Represents a server to check/monitor.
#[derive(Debug, Clone)]
pub struct Server {
    pub name: String,
    /// `None` = local, `Some` = `user@host`.
    pub ssh_host: Option<String>,
}

/// A server as the contracts speak of it.
pub struct ServerView {
    pub name: Seq<char>,
    pub ssh_host: Option<Seq<char>>,
}

impl View for Server {
    type V = ServerView;

    open spec fn view(&self) -> ServerView {
        ServerView {
            name: self.name@,
            ssh_host: match self.ssh_host {
                Some(h) => Some(h@),
                None => None,
            },
        }
    }
}

/// Errors related to server configuration and parsing.
#[derive(Debug, Clone)]
pub enum ServerConfigError {
    InvalidFormat { input: String },
    ServerNotFound { name: String },
    EmptyServerList,
    DuplicateServer { name: String },
}

/// The text of each error.
pub open spec fn server_error_text(e: ServerConfigError) -> Seq<char> {
    match e {
        ServerConfigError::InvalidFormat { input } => "invalid server format: '"@ + input@
            + "'. Expected 'name:user@host' or 'user@host'"@,
        ServerConfigError::ServerNotFound { name } => "server '"@ + name@
            + "' not found in configuration"@,
        ServerConfigError::EmptyServerList => "empty server list"@,
        ServerConfigError::DuplicateServer { name } => "duplicate server name: '"@ + name@ + "'"@,
    }
}

impl ServerConfigError {
    /// The error as a sentence for the user.
    pub fn message(&self) -> (r: String)
        ensures
            r@ == server_error_text(*self),
    {
        match self {
            ServerConfigError::InvalidFormat { input } => {
                let mut out = to_chars("invalid server format: '");
                push_str(&mut out, input.as_str());
                push_str(&mut out, "'. Expected 'name:user@host' or 'user@host'");
                from_chars(&out)
            },
            ServerConfigError::ServerNotFound { name } => {
                let mut out = to_chars("server '");
                push_str(&mut out, name.as_str());
                push_str(&mut out, "' not found in configuration");
                from_chars(&out)
            },
            ServerConfigError::EmptyServerList => {
                let out = to_chars("empty server list");
                from_chars(&out)
            },
            ServerConfigError::DuplicateServer { name } => {
                let mut out = to_chars("duplicate server name: '");
                push_str(&mut out, name.as_str());
                push_str(&mut out, "'");
                from_chars(&out)
            },
        }
    }
}

/// A host component that stands for the local machine: empty, or `local` or
/// `localhost` in any case.
pub open spec fn is_local_word(host: Seq<char>) -> bool {
    host.len() == 0 || eq_ignore_case(host, "local"@) || eq_ignore_case(host, "localhost"@)
}

/// The name that a bare `user@host` gets: what follows its last `@`.
pub open spec fn name_from_host(host: Seq<char>) -> Seq<char> {
    split_on(host, '@').last()
}

/// The host component of a server spec: what follows the `:` if there is
/// one, else the whole spec; blanks around it do not count.
pub open spec fn host_component(input: Seq<char>) -> Seq<char> {
    trimmed(split_on(trimmed(input), ':').last())
}

/// What a server spec denotes, or `None` when it holds more than one `:`.
///
/// `name:user@host` is a remote server with that name; `user@host` is one
/// named after its host; a host component that is a local word makes the
/// server local, named `name` if the spec gives one and `local_name` if not.
pub open spec fn parse_server(input: Seq<char>, local_name: Seq<char>) -> Option<ServerView> {
    let parts = split_on(trimmed(input), ':');
    if parts.len() == 1 {
        let host = trimmed(parts[0]);
        if is_local_word(host) {
            Some(ServerView { name: local_name, ssh_host: None })
        } else {
            Some(ServerView { name: name_from_host(host), ssh_host: Some(host) })
        }
    } else if parts.len() == 2 {
        let name = trimmed(parts[0]);
        let host = trimmed(parts[1]);
        if is_local_word(host) {
            Some(ServerView { name: name, ssh_host: None })
        } else {
            Some(ServerView { name: name, ssh_host: Some(host) })
        }
    } else {
        None
    }
}

/// The name of the local server where none is configured.
pub open spec fn default_local_name() -> Seq<char> {
    "localhost"@
}

/// The host text shown for a local server where none is configured.
pub open spec fn default_local_display() -> Seq<char> {
    "local"@
}

fn is_local_host(host: &Vec<char>) -> (r: bool)
    ensures
        r == is_local_word(host@),
{
    host.len() == 0 || is_text_ignore_case(host, "local") || is_text_ignore_case(
        host,
        "localhost",
    )
}

impl Server {
    /// Create a local server instance.
    pub fn local() -> (s: Self)
        ensures
            s@ == (ServerView { name: default_local_name(), ssh_host: None }),
    {
        Server { name: "localhost".to_string(), ssh_host: None }
    }

    /// Create a local server instance with a custom name.
    pub fn local_named(name: &str) -> (s: Self)
        ensures
            s@ == (ServerView { name: name@, ssh_host: None }),
    {
        Server { name: name.to_string(), ssh_host: None }
    }

    /// Parse server from string.
    /// Format: "name:user@host" or "user@host" (name derived from host).
    /// Special: "name:local" or "name:localhost" creates a localhost server
    /// with custom name.
    pub fn parse(input: &str) -> (r: Result<Self, ServerConfigError>)
        ensures
            match r {
                Ok(s) => parse_server(input@, default_local_name()) == Some(s@) && (s@.ssh_host
                    is None <==> is_local_word(host_component(input@))),
                Err(e) => parse_server(input@, default_local_name()) is None && (e
                    matches ServerConfigError::InvalidFormat { input: text } && text@ == trimmed(
                    input@,
                )),
            },
    {
        Server::parse_with_local_name(input, "localhost")
    }

    /// [`Server::parse`] with the name that a local server gets where the
    /// spec gives none.
    pub fn parse_with_local_name(input: &str, local_name: &str) -> (r: Result<
        Self,
        ServerConfigError,
    >)
        ensures
            match r {
                Ok(s) => parse_server(input@, local_name@) == Some(s@) && (s@.ssh_host is None
                    <==> is_local_word(host_component(input@))),
                Err(e) => parse_server(input@, local_name@) is None && (e
                    matches ServerConfigError::InvalidFormat { input: text } && text@ == trimmed(
                    input@,
                )),
            },
    {
        let raw = to_chars(input);
        let t = trim(&raw);
        let parts = split(&t, ':');
        assert(rows(parts@).len() == parts@.len());
        if parts.len() == 1 {
            let host = trim(&parts[0]);
            assert(rows(parts@)[0] == parts@[0]@);
            assert(rows(parts@).last() == parts@[0]@);
            if is_local_host(&host) {
                Ok(Server { name: local_name.to_string(), ssh_host: None })
            } else {
                let pieces = split(&host, '@');
                let last = &pieces[pieces.len() - 1];
                assert(rows(pieces@).last() == last@);
                Ok(Server { name: from_chars(last), ssh_host: Some(from_chars(&host)) })
            }
        } else if parts.len() == 2 {
            let name = trim(&parts[0]);
            let host = trim(&parts[1]);
            assert(rows(parts@)[0] == parts@[0]@);
            assert(rows(parts@)[1] == parts@[1]@);
            assert(rows(parts@).last() == parts@[1]@);
            if is_local_host(&host) {
                Ok(Server { name: from_chars(&name), ssh_host: None })
            } else {
                Ok(Server { name: from_chars(&name), ssh_host: Some(from_chars(&host)) })
            }
        } else {
            Err(ServerConfigError::InvalidFormat { input: from_chars(&t) })
        }
    }

    /// Is this the local system?
    pub fn is_local(&self) -> (r: bool)
        ensures
            r == (self@.ssh_host is None),
    {
        self.ssh_host.is_none()
    }

    /// Get display host string.
    pub fn display_host(&self) -> (r: String)
        ensures
            r@ == match self@.ssh_host {
                Some(h) => h,
                None => default_local_display(),
            },
    {
        self.display_host_or("local")
    }

    /// [`Server::display_host`] with the text shown for a local server.
    pub fn display_host_or(&self, local_display: &str) -> (r: String)
        ensures
            r@ == match self@.ssh_host {
                Some(h) => h,
                None => local_display@,
            },
    {
        match &self.ssh_host {
            Some(h) => h.clone(),
            None => local_display.to_string(),
        }
    }

    /// A copy of this server.
    pub fn duplicate(&self) -> (r: Self)
        ensures
            r@ == self@,
    {
        Server {
            name: self.name.clone(),
            ssh_host: match &self.ssh_host {
                Some(h) => Some(h.clone()),
                None => None,
            },
        }
    }
}

/// The views of a list of servers.
pub open spec fn server_views(v: Seq<Server>) -> Seq<ServerView> {
    Seq::new(v.len(), |i: int| v[i]@)
}

/// What a comma-separated list of server specs denotes: blank entries are
/// passed over, the others are parsed in order; the first entry that is no
/// server spec makes the whole list invalid, and is handed back trimmed.
pub open spec fn parse_server_list(pieces: Seq<Seq<char>>, local_name: Seq<char>) -> Result<
    Seq<ServerView>,
    Seq<char>,
>
    decreases pieces.len(),
{
    if pieces.len() == 0 {
        Ok(Seq::<ServerView>::empty())
    } else {
        match parse_server_list(pieces.drop_last(), local_name) {
            Err(bad) => Err(bad),
            Ok(init) => {
                let entry = trimmed(pieces.last());
                if entry.len() == 0 {
                    Ok(init)
                } else {
                    match parse_server(entry, local_name) {
                        Some(s) => Ok(init.push(s)),
                        None => Err(trimmed(entry)),
                    }
                }
            },
        }
    }
}

/// Parse comma-separated server list.
pub fn parse_servers(server_str: &str) -> (r: Result<Vec<Server>, ServerConfigError>)
    ensures
        match r {
            Ok(v) => parse_server_list(split_on(server_str@, ','), default_local_name()) == Ok::<
                Seq<ServerView>,
                Seq<char>,
            >(server_views(v@)),
            Err(e) => e matches ServerConfigError::InvalidFormat { input: text }
                && parse_server_list(split_on(server_str@, ','), default_local_name()) == Err::<
                Seq<ServerView>,
                Seq<char>,
            >(text@),
        },
{
    parse_servers_with_local_name(server_str, "localhost")
}

/// [`parse_servers`] with the name that a local server gets where its spec
/// gives none.
pub fn parse_servers_with_local_name(server_str: &str, local_name: &str) -> (r: Result<
    Vec<Server>,
    ServerConfigError,
>)
    ensures
        match r {
            Ok(v) => parse_server_list(split_on(server_str@, ','), local_name@) == Ok::<
                Seq<ServerView>,
                Seq<char>,
            >(server_views(v@)),
            Err(e) => e matches ServerConfigError::InvalidFormat { input: text }
                && parse_server_list(split_on(server_str@, ','), local_name@) == Err::<
                Seq<ServerView>,
                Seq<char>,
            >(text@),
        },
{
    let raw = to_chars(server_str);
    let pieces = split(&raw, ',');
    let mut out: Vec<Server> = Vec::new();
    let mut i: usize = 0;
    assert(rows(pieces@).subrange(0, 0) =~= Seq::<Seq<char>>::empty());
    assert(server_views(out@) =~= Seq::<ServerView>::empty());
    while i < pieces.len()
        invariant
            i <= pieces.len(),
            rows(pieces@) == split_on(server_str@, ','),
            parse_server_list(rows(pieces@).subrange(0, i as int), local_name@) == Ok::<
                Seq<ServerView>,
                Seq<char>,
            >(server_views(out@)),
        decreases pieces.len() - i,
    {
        let ghost before = rows(pieces@).subrange(0, i as int);
        let ghost after = rows(pieces@).subrange(0, i + 1);
        assert(after.drop_last() =~= before);
        assert(after.last() == pieces@[i as int]@);
        let entry = trim(&pieces[i]);
        if entry.len() > 0 {
            let text = from_chars(&entry);
            match Server::parse_with_local_name(text.as_str(), local_name) {
                Ok(s) => {
                    assert(server_views(out@.push(s)) =~= server_views(out@).push(s@));
                    out.push(s);
                },
                Err(e) => {
                    proof {
                        assert(parse_server_list(after, local_name@) == Err::<
                            Seq<ServerView>,
                            Seq<char>,
                        >(trimmed(entry@)));
                        lemma_split_prefix_fails(rows(pieces@), i + 1, local_name@);
                        assert(rows(pieces@).subrange(0, pieces@.len() as int) =~= rows(pieces@));
                    }
                    return Err(e);
                },
            }
        }
        i += 1;
    }
    assert(rows(pieces@).subrange(0, pieces@.len() as int) =~= rows(pieces@));
    Ok(out)
}

/// Once a beginning of the list is invalid, the whole list is, for the same
/// entry.
pub proof fn lemma_split_prefix_fails(pieces: Seq<Seq<char>>, i: int, local_name: Seq<char>)
    requires
        0 <= i <= pieces.len(),
        parse_server_list(pieces.subrange(0, i), local_name) is Err,
    ensures
        parse_server_list(pieces, local_name) == parse_server_list(
            pieces.subrange(0, i),
            local_name,
        ),
    decreases pieces.len() - i,
{
    if i == pieces.len() {
        assert(pieces.subrange(0, i) =~= pieces);
    } else {
        assert(pieces.drop_last().subrange(0, i) =~= pieces.subrange(0, i));
        lemma_split_prefix_fails(pieces.drop_last(), i, local_name);
    }
}

// ---------------------------------------------------------------------------
// The registry
// ---------------------------------------------------------------------------

/// The servers that are known by name. No two of them have one name.
pub struct ServerRegistry {
    pub servers: Vec<Server>,
}

/// The place of the first server with a name, if there is one.
pub open spec fn named_at(servers: Seq<ServerView>, name: Seq<char>, k: int) -> bool {
    &&& 0 <= k < servers.len()
    &&& servers[k].name == name
    &&& forall|j: int| 0 <= j < k ==> (#[trigger] servers[j]).name != name
}

pub open spec fn has_name(servers: Seq<ServerView>, name: Seq<char>) -> bool {
    exists|k: int| 0 <= k < servers.len() && (#[trigger] servers[k]).name == name
}

/// No two servers have one name.
pub open spec fn names_unique(servers: Seq<ServerView>) -> bool {
    forall|i: int, j: int|
        0 <= i < j < servers.len() ==> (#[trigger] servers[i]).name != (#[trigger] servers[j]).name
}

/// The first name that occurs twice, going through the servers in order:
/// the name of the first server that shares its name with an earlier one.
pub open spec fn first_duplicate(servers: Seq<ServerView>) -> Option<Seq<char>>
    decreases servers.len(),
{
    if servers.len() == 0 {
        None
    } else {
        match first_duplicate(servers.drop_last()) {
            Some(name) => Some(name),
            None => if has_name(servers.drop_last(), servers.last().name) {
                Some(servers.last().name)
            } else {
                None
            },
        }
    }
}

proof fn lemma_no_duplicate_means_unique(servers: Seq<ServerView>)
    requires
        first_duplicate(servers) is None,
    ensures
        names_unique(servers),
    decreases servers.len(),
{
    if servers.len() > 0 {
        let init = servers.drop_last();
        lemma_no_duplicate_means_unique(init);
        assert forall|i: int, j: int| 0 <= i < j < servers.len() implies (#[trigger] servers[i]).name
            != (#[trigger] servers[j]).name by {
            if j < init.len() {
                assert(init[i] == servers[i] && init[j] == servers[j]);
            } else {
                assert(init[i] == servers[i]);
                assert(servers[j] == servers.last());
            }
        }
    }
}

proof fn lemma_duplicate_stays(servers: Seq<ServerView>, i: int)
    requires
        0 <= i <= servers.len(),
        first_duplicate(servers.subrange(0, i)) is Some,
    ensures
        first_duplicate(servers) == first_duplicate(servers.subrange(0, i)),
    decreases servers.len() - i,
{
    if i == servers.len() {
        assert(servers.subrange(0, i) =~= servers);
    } else {
        assert(servers.drop_last().subrange(0, i) =~= servers.subrange(0, i));
        lemma_duplicate_stays(servers.drop_last(), i);
    }
}

fn find_named(servers: &Vec<Server>, limit: usize, name: &str) -> (r: Option<usize>)
    requires
        limit <= servers.len(),
    ensures
        match r {
            Some(k) => named_at(server_views(servers@).subrange(0, limit as int), name@, k as int),
            None => !has_name(server_views(servers@).subrange(0, limit as int), name@),
        },
{
    let ghost part = server_views(servers@).subrange(0, limit as int);
    let mut k: usize = 0;
    while k < limit
        invariant
            k <= limit <= servers.len(),
            part == server_views(servers@).subrange(0, limit as int),
            forall|j: int| 0 <= j < k ==> (#[trigger] part[j]).name != name@,
        decreases limit - k,
    {
        assert(part[k as int] == servers@[k as int]@);
        if crate::text::str_same(servers[k].name.as_str(), name) {
            return Some(k);
        }
        k += 1;
    }
    None
}

impl ServerRegistry {
    pub open spec fn views(&self) -> Seq<ServerView> {
        server_views(self.servers@)
    }

    /// The registry is well formed: no two servers have one name.
    pub open spec fn wf(&self) -> bool {
        names_unique(self.views())
    }

    /// The server registered under `name`.
    pub fn lookup(&self, name: &str) -> (r: Option<&Server>)
        ensures
            r is Some <==> has_name(self.views(), name@),
            r matches Some(s) ==> s@.name == name@ && exists|k: int|
                named_at(self.views(), name@, k) && self.views()[k] == s@,
    {
        assert(self.views().subrange(0, self.servers@.len() as int) =~= self.views());
        match find_named(&self.servers, self.servers.len(), name) {
            Some(k) => {
                assert(self.views()[k as int] == self.servers@[k as int]@);
                Some(&self.servers[k])
            },
            None => None,
        }
    }

    /// A copy of every registered server, in the order of the registry.
    pub fn all(&self) -> (r: Vec<Server>)
        ensures
            server_views(r@) == self.views(),
    {
        let mut out: Vec<Server> = Vec::new();
        let mut i: usize = 0;
        while i < self.servers.len()
            invariant
                i <= self.servers.len(),
                out@.len() == i,
                forall|k: int| 0 <= k < i ==> out@[k]@ == self.servers@[k]@,
            decreases self.servers.len() - i,
        {
            out.push(self.servers[i].duplicate());
            i += 1;
        }
        assert(server_views(out@) =~= self.views());
        out
    }

    /// How many servers are registered.
    pub fn len(&self) -> (r: usize)
        ensures
            r == self.views().len(),
    {
        self.servers.len()
    }
}

/// Builds the registry of the servers that a configuration names. The server
/// given as the local one is always part of it, and comes first. Two servers with one name
/// are an error that names it; an entry that is no server spec is one too.
pub fn build_server_registry(server_str: &str, local: Server) -> (r: Result<
    ServerRegistry,
    ServerConfigError,
>)
    ensures
        match r {
            Ok(reg) => reg.wf() && (parse_server_list(split_on(server_str@, ','), local@.name)
                matches Ok(parsed) && reg.views() == seq![local@] + parsed && first_duplicate(
                seq![local@] + parsed,
            ) is None),
            Err(ServerConfigError::InvalidFormat { input }) => parse_server_list(
                split_on(server_str@, ','),
                local@.name,
            ) == Err::<Seq<ServerView>, Seq<char>>(input@),
            Err(ServerConfigError::DuplicateServer { name }) => parse_server_list(
                split_on(server_str@, ','),
                local@.name,
            ) matches Ok(parsed) && first_duplicate(seq![local@] + parsed) == Some(name@),
            Err(_) => false,
        },
{
    let parsed = match parse_servers_with_local_name(server_str, local.name.as_str()) {
        Ok(v) => v,
        Err(e) => {
            return Err(e);
        },
    };
    let ghost local_view = local@;
    let ghost parsed_views = server_views(parsed@);
    let ghost want = seq![local@] + server_views(parsed@);
    let mut all: Vec<Server> = Vec::new();
    all.push(local);
    let mut tail = parsed;
    all.append(&mut tail);
    assert(server_views(all@) =~= want);
    let mut i: usize = 0;
    assert(want.subrange(0, 0) =~= Seq::<ServerView>::empty());
    while i < all.len()
        invariant
            i <= all.len(),
            server_views(all@) == want,
            want == seq![local_view] + parsed_views,
            local_view == local@,
            parse_server_list(split_on(server_str@, ','), local@.name) == Ok::<
                Seq<ServerView>,
                Seq<char>,
            >(parsed_views),
            first_duplicate(want.subrange(0, i as int)) is None,
        decreases all.len() - i,
    {
        assert(want.subrange(0, i + 1).drop_last() =~= want.subrange(0, i as int));
        assert(want.subrange(0, i + 1).last() == all@[i as int]@);
        match find_named(&all, i, all[i].name.as_str()) {
            Some(k) => {
                proof {
                    let part = want.subrange(0, i as int);
                    assert(part[k as int].name == all@[i as int]@.name);
                    assert(has_name(part, all@[i as int]@.name));
                    assert(first_duplicate(want.subrange(0, i + 1)) == Some(
                        all@[i as int]@.name,
                    ));
                    lemma_duplicate_stays(want, i + 1);
                }
                return Err(ServerConfigError::DuplicateServer { name: all[i].name.clone() });
            },
            None => {},
        }
        i += 1;
    }
    assert(want.subrange(0, all@.len() as int) =~= want);
    proof {
        lemma_no_duplicate_means_unique(want);
    }
    Ok(ServerRegistry { servers: all })
}

/// What an entry of a list of servers resolves to: the registered server of
/// that name, else what it denotes as a server spec if it looks like one,
/// that is, holds `@` or `:`; else nothing.
pub open spec fn resolve_entry(
    entry: Seq<char>,
    registry: Seq<ServerView>,
    local_name: Seq<char>,
) -> Option<ServerView> {
    let name = trimmed(entry);
    if has_name(registry, name) {
        Some(registry[choose|k: int| named_at(registry, name, k)])
    } else if name.contains('@') || name.contains(':') {
        parse_server(name, local_name)
    } else {
        None
    }
}

/// What a comma-separated list of names and specs resolves to, or the first
/// entry that resolves to nothing, trimmed.
pub open spec fn resolve_list(
    pieces: Seq<Seq<char>>,
    registry: Seq<ServerView>,
    local_name: Seq<char>,
) -> Result<Seq<ServerView>, Seq<char>>
    decreases pieces.len(),
{
    if pieces.len() == 0 {
        Ok(Seq::<ServerView>::empty())
    } else {
        match resolve_list(pieces.drop_last(), registry, local_name) {
            Err(bad) => Err(bad),
            Ok(init) => match resolve_entry(pieces.last(), registry, local_name) {
                Some(s) => Ok(init.push(s)),
                None => Err(trimmed(pieces.last())),
            },
        }
    }
}

proof fn lemma_resolve_prefix_fails(
    pieces: Seq<Seq<char>>,
    i: int,
    registry: Seq<ServerView>,
    local_name: Seq<char>,
)
    requires
        0 <= i <= pieces.len(),
        resolve_list(pieces.subrange(0, i), registry, local_name) is Err,
    ensures
        resolve_list(pieces, registry, local_name) == resolve_list(
            pieces.subrange(0, i),
            registry,
            local_name,
        ),
    decreases pieces.len() - i,
{
    if i == pieces.len() {
        assert(pieces.subrange(0, i) =~= pieces);
    } else {
        assert(pieces.drop_last().subrange(0, i) =~= pieces.subrange(0, i));
        lemma_resolve_prefix_fails(pieces.drop_last(), i, registry, local_name);
    }
}

/// Resolve comma-separated server names/specs using the registry.
///
/// A name that the registry knows gives the registered server; a spec such
/// as `myserver:user@host` is parsed; anything else is an unknown server, or,
/// where it looks like a spec and is none, an invalid one.
pub fn resolve_servers(input: &str, registry: &ServerRegistry, local_name: &str) -> (r: Result<
    Vec<Server>,
    ServerConfigError,
>)
    ensures
        match r {
            Ok(v) => resolve_list(split_on(input@, ','), registry.views(), local_name@) == Ok::<
                Seq<ServerView>,
                Seq<char>,
            >(server_views(v@)),
            Err(ServerConfigError::ServerNotFound { name }) => resolve_list(
                split_on(input@, ','),
                registry.views(),
                local_name@,
            ) == Err::<Seq<ServerView>, Seq<char>>(name@) && !name@.contains('@')
                && !name@.contains(':'),
            Err(ServerConfigError::InvalidFormat { input: text }) => resolve_list(
                split_on(input@, ','),
                registry.views(),
                local_name@,
            ) == Err::<Seq<ServerView>, Seq<char>>(text@) && (text@.contains('@')
                || text@.contains(':')),
            Err(_) => false,
        },
{
    let raw = to_chars(input);
    let pieces = split(&raw, ',');
    let mut out: Vec<Server> = Vec::new();
    let mut i: usize = 0;
    let ghost reg = registry.views();
    assert(rows(pieces@).subrange(0, 0) =~= Seq::<Seq<char>>::empty());
    assert(server_views(out@) =~= Seq::<ServerView>::empty());
    while i < pieces.len()
        invariant
            i <= pieces.len(),
            reg == registry.views(),
            rows(pieces@) == split_on(input@, ','),
            resolve_list(rows(pieces@).subrange(0, i as int), reg, local_name@) == Ok::<
                Seq<ServerView>,
                Seq<char>,
            >(server_views(out@)),
        decreases pieces.len() - i,
    {
        let ghost after = rows(pieces@).subrange(0, i + 1);
        assert(after.drop_last() =~= rows(pieces@).subrange(0, i as int));
        assert(after.last() == pieces@[i as int]@);
        let name = trim(&pieces[i]);
        let text = from_chars(&name);
        proof {
            lemma_trimmed_is_tight(pieces@[i as int]@);
        }
        match registry.lookup(text.as_str()) {
            Some(s) => {
                let copy = s.duplicate();
                proof {
                    let k = choose|k: int| named_at(reg, name@, k) && reg[k] == s@;
                    let c = choose|c: int| named_at(reg, name@, c);
                    assert(named_at(reg, name@, k));
                    assert(c == k);
                }
                assert(server_views(out@.push(copy)) =~= server_views(out@).push(copy@));
                out.push(copy);
            },
            None => {
                if contains_char(&name, '@') || contains_char(&name, ':') {
                    match Server::parse_with_local_name(text.as_str(), local_name) {
                        Ok(s) => {
                            assert(server_views(out@.push(s)) =~= server_views(out@).push(s@));
                            out.push(s);
                        },
                        Err(e) => {
                            proof {
                                assert(resolve_list(after, reg, local_name@) == Err::<
                                    Seq<ServerView>,
                                    Seq<char>,
                                >(name@));
                                lemma_resolve_prefix_fails(
                                    rows(pieces@),
                                    i + 1,
                                    reg,
                                    local_name@,
                                );
                            }
                            return Err(e);
                        },
                    }
                } else {
                    proof {
                        assert(resolve_list(after, reg, local_name@) == Err::<
                            Seq<ServerView>,
                            Seq<char>,
                        >(name@));
                        lemma_resolve_prefix_fails(rows(pieces@), i + 1, reg, local_name@);
                    }
                    return Err(ServerConfigError::ServerNotFound { name: text });
                }
            },
        }
        i += 1;
    }
    assert(rows(pieces@).subrange(0, pieces@.len() as int) =~= rows(pieces@));
    Ok(out)
}

// ---------------------------------------------------------------------------
// Laws
// ---------------------------------------------------------------------------

/// A server spec that parses gives a local server exactly when its host
/// component is empty, `local` or `localhost`, in any case.
pub proof fn lemma_local_iff_local_word(input: Seq<char>, local_name: Seq<char>)
    ensures
        parse_server(input, local_name) matches Some(s) ==> (s.ssh_host is None <==> is_local_word(
            host_component(input),
        )),
{
    let parts = split_on(trimmed(input), ':');
    if parts.len() == 1 {
        assert(parts.last() == parts[0]);
    } else if parts.len() == 2 {
        assert(parts.last() == parts[1]);
    }
}

/// A text that trimming leaves alone stays what it is with a text of the
/// same kind put after it, around a character that is no blank.
proof fn lemma_trimmed_around(a: Seq<char>, c: char, b: Seq<char>)
    requires
        trimmed(a) == a,
        trimmed(b) == b,
        !is_space(c),
    ensures
        trimmed(a + seq![c] + b) == a + seq![c] + b,
{
    let s = a + seq![c] + b;
    lemma_trimmed_is_tight(a);
    lemma_trimmed_is_tight(b);
    if a.len() > 0 {
        assert(s[0] == a[0]);
    } else {
        assert(s[0] == c);
    }
    assert(trim_start(s) == s);
    if b.len() > 0 {
        assert(s.last() == b.last());
    } else {
        assert(s.last() == c);
    }
    assert(trim_end(s) == s);
}

/// Writing a remote server as `name:host` and parsing it gives the same
/// name and the same host back: the pair survives the round trip.
pub proof fn lemma_spec_round_trip(name: Seq<char>, host: Seq<char>, local_name: Seq<char>)
    requires
        !name.contains(':'),
        !host.contains(':'),
        trimmed(name) == name,
        trimmed(host) == host,
        !is_local_word(host),
    ensures
        parse_server(name + seq![':'] + host, local_name) == Some(
            ServerView { name: name, ssh_host: Some(host) },
        ),
{
    lemma_trimmed_around(name, ':', host);
    lemma_split_on_pair(name, host, ':');
}

} // verus!
