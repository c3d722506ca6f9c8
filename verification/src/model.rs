//! The data model: lobby records and responses, game sessions, users,
//! friendships, authentication claims, and the error kinds every operation
//! reports.

use vstd::prelude::*;

verus! {

/// Party readiness: `Ready` between matches, `InMatch` while a game session
/// is bound to the lobby.
#[derive(Clone, Copy, PartialEq, Eq, Structural, Debug)]
pub enum LobbyStatus {
    Ready,
    InMatch,
}

/// The wire label of a lobby status.
pub open spec fn status_label(s: LobbyStatus) -> Seq<char> {
    if s is Ready {
        "Ready"@
    } else {
        "In_Match"@
    }
}

impl LobbyStatus {
    /// The wire label of this status.
    pub fn label(&self) -> (r: &'static str)
        ensures
            r@ == status_label(*self),
    {
        match self {
            LobbyStatus::Ready => "Ready",
            LobbyStatus::InMatch => "In_Match",
        }
    }
}

/// How an operation fails, mirroring the synchronous error kinds of the
/// service: malformed input, missing authority, a conflicting state, a
/// missing subject, or an infrastructure fault.
#[derive(Clone, Copy, PartialEq, Eq, Structural, Debug)]
pub enum OpError {
    Validation,
    Authorization,
    Conflict,
    NotFound,
    Infrastructure,
}

impl OpError {
    /// The HTTP status code this error kind surfaces as.
    pub fn status_code(&self) -> (r: u16)
        ensures
            self is Validation ==> r == 400,
            self is Authorization ==> r == 403,
            self is Conflict ==> r == 409,
            self is NotFound ==> r == 404,
            self is Infrastructure ==> r == 500,
    {
        match self {
            OpError::Validation => 400,
            OpError::Authorization => 403,
            OpError::Conflict => 409,
            OpError::NotFound => 404,
            OpError::Infrastructure => 500,
        }
    }
}

/// The client-facing description of a lobby.
pub struct LobbyInfo {
    pub lobby_name: String,
    pub leader: String,
    pub limit_num: usize,
    pub status: String,
}

impl LobbyInfo {
    /// Builds a description from its four fields.
    pub fn new(in_name: &str, in_leader: &str, in_limit_num: usize, in_status: &str) -> (r: Self)
        ensures
            r.lobby_name@ == in_name@,
            r.leader@ == in_leader@,
            r.limit_num == in_limit_num,
            r.status@ == in_status@,
    {
        Self {
            lobby_name: String::from_str(in_name),
            leader: String::from_str(in_leader),
            limit_num: in_limit_num,
            status: String::from_str(in_status),
        }
    }
}

/// A provisioned game session: the simulation process's socket address and
/// the username that asked for it.
pub struct GameServer {
    pub address: String,
    pub host: String,
}

/// The mathematical value of a [`GameServer`].
pub struct GameServerV {
    pub address: Seq<char>,
    pub host: Seq<char>,
}

impl View for GameServer {
    type V = GameServerV;

    open spec fn view(&self) -> GameServerV {
        GameServerV { address: self.address@, host: self.host@ }
    }
}

impl GameServer {
    /// Builds a session record from an address and a host username.
    pub fn new(in_address: &str, in_host: &str) -> (r: Self)
        ensures
            r@.address == in_address@,
            r@.host == in_host@,
    {
        Self { address: String::from_str(in_address), host: String::from_str(in_host) }
    }
}

/// An established friendship between two players.
pub struct Friends {
    pub player1: String,
    pub player2: String,
}

impl Friends {
    /// Builds a friendship record.
    pub fn new(player1_username: &str, player2_username: &str) -> (r: Self)
        ensures
            r.player1@ == player1_username@,
            r.player2@ == player2_username@,
    {
        Self {
            player1: String::from_str(player1_username),
            player2: String::from_str(player2_username),
        }
    }

    /// The first player's username.
    pub fn get_player1(&self) -> (r: String)
        ensures
            r@ == self.player1@,
    {
        self.player1.clone()
    }

    /// The second player's username.
    pub fn get_player2(&self) -> (r: String)
        ensures
            r@ == self.player2@,
    {
        self.player2.clone()
    }
}

/// A pending friend request from `sender` to `receiver`.
pub struct FriendRequest {
    pub sender: String,
    pub receiver: String,
}

impl FriendRequest {
    /// Builds a pending friend request.
    pub fn new(player1_username: &str, player2_username: &str) -> (r: Self)
        ensures
            r.sender@ == player1_username@,
            r.receiver@ == player2_username@,
    {
        Self {
            sender: String::from_str(player1_username),
            receiver: String::from_str(player2_username),
        }
    }

    /// The requesting username.
    pub fn get_sender(&self) -> (r: String)
        ensures
            r@ == self.sender@,
    {
        self.sender.clone()
    }

    /// The requested username.
    pub fn get_receiver(&self) -> (r: String)
        ensures
            r@ == self.receiver@,
    {
        self.receiver.clone()
    }
}

/// The mathematical value of a [`User`].
pub struct UserV {
    pub username: Seq<char>,
    pub password: Seq<char>,
    pub status: bool,
}

/// A registered account: username, password, and online flag.
pub struct User {
    username: String,
    user_password: String,
    status: bool,
}

impl View for User {
    type V = UserV;

    closed spec fn view(&self) -> UserV {
        UserV {
            username: self.username@,
            password: self.user_password@,
            status: self.status,
        }
    }
}

impl User {
    /// Builds an account record.
    pub fn new(in_username: &str, in_password: &str, in_status: &bool) -> (r: Self)
        ensures
            r@.username == in_username@,
            r@.password == in_password@,
            r@.status == *in_status,
    {
        Self {
            username: String::from_str(in_username),
            user_password: String::from_str(in_password),
            status: *in_status,
        }
    }

    /// The account's username.
    pub fn get_username(&self) -> (r: String)
        ensures
            r@ == self@.username,
    {
        self.username.clone()
    }

    /// The account's password.
    pub fn get_password(&self) -> (r: String)
        ensures
            r@ == self@.password,
    {
        self.user_password.clone()
    }

    /// The account's online flag.
    pub fn get_status(&self) -> (r: bool)
        ensures
            r == self@.status,
    {
        self.status
    }
}

/// The payload of an authentication token: the subject username and the
/// expiry timestamp in seconds.
pub struct Claims {
    pub subject: String,
    pub exp: usize,
}

/// An authenticated caller identity, as established by the auth gate.
pub struct AuthUser {
    pub username: String,
}

/// Why authentication failed: the bearer credential was absent, or it did
/// not validate.
#[derive(Clone, Copy, PartialEq, Eq, Structural, Debug)]
pub enum AuthError {
    MissingToken,
    InvalidToken,
}

impl AuthError {
    /// The HTTP status code: both failures surface as unauthorized.
    pub fn status_code(&self) -> (r: u16)
        ensures
            r == 401,
    {
        401
    }

    /// The response body describing this failure.
    pub fn message(&self) -> (r: &'static str)
        ensures
            self is MissingToken ==> r@ == "Missing Token"@,
            self is InvalidToken ==> r@ == "Invalid Token"@,
    {
        match self {
            AuthError::MissingToken => "Missing Token",
            AuthError::InvalidToken => "Invalid Token",
        }
    }
}

/// Copies a vector of strings, preserving its mathematical value.
pub fn clone_string_vec(v: &Vec<String>) -> (r: Vec<String>)
    ensures
        r@ == v@,
{
    let mut r: Vec<String> = Vec::new();
    let n = v.len();
    for i in 0..n
        invariant
            n == v@.len(),
            r@ =~= v@.subrange(0, i as int),
    {
        r.push(v[i].clone());
    }
    proof {
        assert(r@ =~= v@);
    }
    r
}

/// The position of the first occurrence of `x` in `v`, if any.
pub fn index_of_string(v: &Vec<String>, x: &String) -> (r: Option<usize>)
    ensures
        match r {
            Some(i) => i < v@.len() && v.deep_view()[i as int] == x@ && (forall|j: int|
                0 <= j < i ==> v.deep_view()[j] != x@),
            None => !v.deep_view().contains(x@),
        },
{
    let n = v.len();
    for i in 0..n
        invariant
            n == v@.len(),
            forall|j: int| 0 <= j < i ==> v.deep_view()[j] != x@,
    {
        if v[i] == *x {
            return Some(i);
        }
    }
    proof {
        if v.deep_view().contains(x@) {
            let j = choose|j: int| 0 <= j < v.deep_view().len() && v.deep_view()[j] == x@;
            assert(v.deep_view()[j] != x@);
        }
    }
    None
}

/// The position of the first occurrence of `x` in `v`, if any.
pub fn index_of_u64(v: &Vec<u64>, x: u64) -> (r: Option<usize>)
    ensures
        match r {
            Some(i) => i < v@.len() && v@[i as int] == x && (forall|j: int|
                0 <= j < i ==> v@[j] != x),
            None => !v@.contains(x),
        },
{
    let n = v.len();
    for i in 0..n
        invariant
            n == v@.len(),
            forall|j: int| 0 <= j < i ==> v@[j] != x,
    {
        if v[i] == x {
            return Some(i);
        }
    }
    None
}


/// The (field, value) pairs under which a game session is stored as a hash.
pub fn create_game_server_info_hash_fields(game_server_info: &GameServer) -> (r: Vec<
    (&'static str, String),
>)
    ensures
        r@.len() == 2,
        r@[0].0@ == "address"@,
        r@[0].1@ == game_server_info@.address,
        r@[1].0@ == "host"@,
        r@[1].1@ == game_server_info@.host,
{
    let mut v: Vec<(&'static str, String)> = Vec::new();
    v.push(("address", game_server_info.address.clone()));
    v.push(("host", game_server_info.host.clone()));
    v
}

} // verus!
