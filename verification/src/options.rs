use vstd::prelude::*;

use crate::error::Error;

verus! {

/// Torrent client software.
#[derive(Clone, Copy, Debug, PartialEq, Eq, Structural)]
pub enum Software {
    Deluge,
    QBittorrent,
}

/// A torrent client as configured in the options file.
#[derive(Debug)]
pub struct Client {
    pub id: String,
    pub software: Software,
    pub host: String,
    pub username: Option<String>,
    pub password: String,
    /// Directory that holds the client's `.torrent` files.
    pub torrents: String,
    pub categories: Vec<String>,
}

/// What a [`Client`] holds, as plain mathematical values.
pub struct ClientView {
    pub id: Seq<char>,
    pub software: Software,
    pub host: Seq<char>,
    pub username: Option<Seq<char>>,
    pub password: Seq<char>,
    pub torrents: Seq<char>,
    pub categories: Seq<Seq<char>>,
}

impl View for Client {
    type V = ClientView;

    open spec fn view(&self) -> ClientView {
        ClientView {
            id: self.id@,
            software: self.software,
            host: self.host@,
            username: match self.username {
                Some(u) => Some(u@),
                None => None,
            },
            password: self.password@,
            torrents: self.torrents@,
            categories: self.categories@.map_values(|c: String| c@),
        }
    }
}

impl Clone for Client {
    fn clone(&self) -> (res: Self)
        ensures
            res@ == self@,
    {
        let username = match &self.username {
            Some(u) => Some(u.clone()),
            None => None,
        };
        let categories = self.categories.clone();
        proof {
            assert(categories@.map_values(|c: String| c@) =~= self.categories@.map_values(
                |c: String| c@,
            ));
        }
        Client {
            id: self.id.clone(),
            software: self.software,
            host: self.host.clone(),
            username,
            password: self.password.clone(),
            torrents: self.torrents.clone(),
            categories,
        }
    }
}

/// Options of the command line program.
#[derive(Debug)]
pub struct Options {
    pub clients: Vec<Client>,
    /// Directory that holds the database.
    pub cache: String,
}

impl Default for Options {
    fn default() -> (res: Options)
        ensures
            res.clients@.len() == 0,
            res.cache@.len() == 0,
    {
        Options { clients: Vec::new(), cache: String::new() }
    }
}

/// Index of the first client in `clients` whose id is `id`, if any.
pub open spec fn first_client_with_id(clients: Seq<Client>, id: Seq<char>) -> Option<int>
    decreases clients.len(),
{
    if clients.len() == 0 {
        None
    } else if clients[0].id@ == id {
        Some(0)
    } else {
        match first_client_with_id(clients.drop_first(), id) {
            Some(i) => Some(i + 1),
            None => None,
        }
    }
}

/// Position `i` of `clients` holds the first client whose id is `id`.
pub open spec fn is_first_with_id(clients: Seq<Client>, i: int, id: Seq<char>) -> bool {
    &&& 0 <= i < clients.len()
    &&& clients[i].id@ == id
    &&& forall|j: int| 0 <= j < i ==> (#[trigger] clients[j]).id@ != id
}

/// Looking up a client finds one with exactly the requested id, and the first
/// such: when some client has the id `id`, the index found holds a client
/// whose id equals `id` and no earlier client has that id; when none is found,
/// no client has the id.
pub proof fn lemma_first_client_with_id(clients: Seq<Client>, id: Seq<char>)
    ensures
        match first_client_with_id(clients, id) {
            Some(i) => {
                &&& 0 <= i < clients.len()
                &&& clients[i].id@ == id
                &&& forall|j: int| 0 <= j < i ==> (#[trigger] clients[j]).id@ != id
            },
            None => forall|j: int| 0 <= j < clients.len() ==> (#[trigger] clients[j]).id@ != id,
        },
    decreases clients.len(),
{
    if clients.len() > 0 {
        let rest = clients.drop_first();
        lemma_first_client_with_id(rest, id);
        if clients[0].id@ != id {
            match first_client_with_id(rest, id) {
                Some(i) => {
                    assert forall|j: int| 0 <= j < i + 1 implies (#[trigger] clients[j]).id@ != id by {
                        if j > 0 {
                            assert(clients[j] == rest[j - 1]);
                        }
                    }
                },
                None => {
                    assert forall|j: int| 0 <= j < clients.len() implies (#[trigger] clients[j]).id@ != id by {
                        if j > 0 {
                            assert(clients[j] == rest[j - 1]);
                        }
                    }
                },
            }
        }
    }
}

/// `found` moved `offset` places to the right.
pub open spec fn shift_index(found: Option<int>, offset: int) -> Option<int> {
    match found {
        Some(i) => Some(i + offset),
        None => None,
    }
}

/// Where the program reads its options.
pub const CONFIG_PATH: &'static str = "config.yml";

/// What reading and deserializing the options file gave.
#[derive(Debug)]
pub enum ConfigFile {
    /// The file held these options.
    Parsed(Options),
    /// The file could not be opened or read, for the reason given.
    Unreadable { message: String },
    /// The file is not a valid options document, for the reason given.
    Malformed { message: String },
}

/// The options of the program, from what reading [`CONFIG_PATH`] gave.
///
/// A file that cannot be read gives [`Error::OpenOptionsFile`]; one that is no
/// valid options document gives [`Error::DeserializeOptionsFile`].
pub fn get_config(file: ConfigFile) -> (res: Result<Options, Error>)
    ensures
        match file {
            ConfigFile::Parsed(options) => res == Ok::<Options, Error>(options),
            ConfigFile::Unreadable { message } => res == Err::<Options, Error>(
                Error::OpenOptionsFile { message },
            ),
            ConfigFile::Malformed { message } => res == Err::<Options, Error>(
                Error::DeserializeOptionsFile { message },
            ),
        },
{
    match file {
        ConfigFile::Parsed(options) => Ok(options),
        ConfigFile::Unreadable { message } => Err(Error::OpenOptionsFile { message }),
        ConfigFile::Malformed { message } => Err(Error::DeserializeOptionsFile { message }),
    }
}

/// What a torrent client is logged in with.
#[derive(Debug, PartialEq, Eq)]
pub struct Credentials {
    /// Web API host, with port but without protocol.
    pub host: String,
    /// User name; Deluge's Web API takes none.
    pub username: Option<String>,
    pub password: String,
}

impl Clone for Credentials {
    fn clone(&self) -> (res: Credentials)
        ensures
            res == *self,
    {
        Credentials {
            host: self.host.clone(),
            username: match &self.username {
                Some(u) => Some(u.clone()),
                None => None,
            },
            password: self.password.clone(),
        }
    }
}

/// `credentials` is what `client` is logged in with: its host and password,
/// and for qBittorrent its user name, empty when none is configured.
pub open spec fn logs_in_with(client: Client, credentials: Credentials) -> bool {
    &&& credentials.host == client.host
    &&& credentials.password == client.password
    &&& match client.software {
        Software::Deluge => credentials.username is None,
        Software::QBittorrent => credentials.username matches Some(u) && u@ == match client.username {
            Some(v) => v@,
            None => Seq::<char>::empty(),
        },
    }
}

impl Client {
    /// The credentials to log in to this client with.
    ///
    /// qBittorrent is given the configured user name, or an empty one when
    /// none is configured.
    pub fn credentials(&self) -> (res: Credentials)
        ensures
            logs_in_with(*self, res),
    {
        let username = match self.software {
            Software::Deluge => None,
            Software::QBittorrent => match &self.username {
                Some(u) => Some(u.clone()),
                None => Some(String::new()),
            },
        };
        Credentials { host: self.host.clone(), username, password: self.password.clone() }
    }

    /// Look up the client with the id `client_id` in `options`.
    ///
    /// Returns a copy of the first client with that id, or
    /// [`Error::ClientNotFound`] when no client has it.
    pub fn get(client_id: String, options: &Options) -> (res: Result<Client, Error>)
        ensures
            match first_client_with_id(options.clients@, client_id@) {
                Some(i) => res matches Ok(c) && c@ == options.clients@[i]@,
                None => res == Err::<Client, Error>(Error::ClientNotFound { client_id }),
            },
            res matches Ok(c) ==> c.id@ == client_id@ && exists|i: int|
                #[trigger] is_first_with_id(options.clients@, i, client_id@) && c@ == options.clients@[i]@,
            res is Err <==> forall|j: int|
                0 <= j < options.clients@.len() ==> (#[trigger] options.clients@[j]).id@ != client_id@,
    {
        proof {
            lemma_first_client_with_id(options.clients@, client_id@);
        }
        let n = options.clients.len();
        assert(options.clients@.skip(0) =~= options.clients@);
        let mut i: usize = 0;
        while i < n
            invariant
                n == options.clients@.len(),
                i <= n,
                first_client_with_id(options.clients@, client_id@) == shift_index(
                    first_client_with_id(options.clients@.skip(i as int), client_id@),
                    i as int,
                ),
            decreases n - i,
        {
            let ghost rest = options.clients@.skip(i as int);
            assert(rest.drop_first() =~= options.clients@.skip(i + 1));
            if options.clients[i].id == client_id {
                let found = options.clients[i].clone();
                proof {
                    assert(rest[0] == options.clients@[i as int]);
                    assert(first_client_with_id(rest, client_id@) == Some(0int));
                    assert(first_client_with_id(options.clients@, client_id@) == Some(i as int));
                    assert(found.id@ == found@.id);
                    assert(options.clients@[i as int].id@ == options.clients@[i as int]@.id);
                    lemma_first_client_with_id(options.clients@, client_id@);
                    assert(is_first_with_id(options.clients@, i as int, client_id@));
                }
                return Ok(found);
            }
            i += 1;
        }
        Err(Error::ClientNotFound { client_id })
    }
}

} // verus!
