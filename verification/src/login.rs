use vstd::prelude::*;

verus! {

/// A game server: a channel of a world server.
#[derive(Clone, Debug)]
pub struct GameServerInfo {
    pub entity: u64,
    pub name: String,
}

/// A world server as the login server lists it: the entity standing for it,
/// its name and its channels, in order.
#[derive(Clone, Debug)]
pub struct WorldServerInfo {
    pub entity: u64,
    pub name: String,
    pub channels: Vec<GameServerInfo>,
}

/// Why a list of channels was refused.
#[derive(Clone, Copy, Debug, PartialEq, Eq, Structural)]
pub enum GetChannelListError {
    InvalidServerId,
}

/// Why joining a server was refused.
#[derive(Clone, Copy, Debug, PartialEq, Eq, Structural)]
pub enum JoinServerError {
    InvalidServerId,
    InvalidChannelId,
}

/// Why reading an account failed.
#[derive(Clone, Copy, Debug, PartialEq, Eq, Structural)]
pub enum AccountStorageError {
    NotFound,
    InvalidPassword,
    Failed,
}

/// The answer to a login request that failed.
#[derive(Clone, Copy, Debug, PartialEq, Eq, Structural)]
pub enum LoginError {
    InvalidAccount,
    InvalidPassword,
    Failed,
}

/// The answer to a game connection request that failed.
#[derive(Clone, Copy, Debug, PartialEq, Eq, Structural)]
pub enum ConnectionRequestError {
    InvalidToken,
    InvalidPassword,
    Failed,
}

/// The numbered list of world servers a client is sent: each server's
/// position, as a 32-bit number, with its name.
pub fn world_server_list(servers: &Vec<WorldServerInfo>) -> (list: Vec<(u32, String)>)
    ensures
        list@.len() == servers@.len(),
        forall|i: int| 0 <= i < servers@.len() ==> (#[trigger] list@[i]).0 == i as u32 && list@[i].1@ == servers@[i].name@,
{
    let mut list: Vec<(u32, String)> = Vec::new();
    let mut i: usize = 0;
    while i < servers.len()
        invariant
            i <= servers.len(),
            list@.len() == i,
            forall|j: int| 0 <= j < i ==> (#[trigger] list@[j]).0 == j as u32 && list@[j].1@ == servers@[j].name@,
        decreases servers.len() - i,
    {
        list.push((i as u32, servers[i].name.clone()));
        i += 1;
    }
    list
}

/// The numbered channels of world server `server_id`: each channel's
/// position, as an 8-bit number, with its name.
pub fn channel_list(servers: &Vec<WorldServerInfo>, server_id: u32) -> (result: Result<Vec<(u8, String)>, GetChannelListError>)
    ensures
        match result {
            Ok(list) => server_id < servers@.len() && {
                let channels = servers@[server_id as int].channels@;
                &&& list@.len() == channels.len()
                &&& forall|i: int| 0 <= i < channels.len() ==> (#[trigger] list@[i]).0 == i as u8 && list@[i].1@ == channels[i].name@
            },
            Err(e) => server_id >= servers@.len() && e == GetChannelListError::InvalidServerId,
        },
{
    let index = server_id as usize;
    if index >= servers.len() {
        return Err(GetChannelListError::InvalidServerId);
    }
    let channels = &servers[index].channels;
    let mut list: Vec<(u8, String)> = Vec::new();
    let mut i: usize = 0;
    while i < channels.len()
        invariant
            i <= channels.len(),
            list@.len() == i,
            forall|j: int| 0 <= j < i ==> (#[trigger] list@[j]).0 == j as u8 && list@[j].1@ == channels@[j].name@,
        decreases channels.len() - i,
    {
        list.push((i as u8, channels[i].name.clone()));
        i += 1;
    }
    Ok(list)
}

/// Joining channel `channel_id` of world server `server_id`: both must
/// exist. Returns the two positions.
pub fn join_server(servers: &Vec<WorldServerInfo>, server_id: u32, channel_id: u8) -> (result: Result<(usize, usize), JoinServerError>)
    ensures
        server_id >= servers@.len() ==> result == Err::<(usize, usize), JoinServerError>(JoinServerError::InvalidServerId),
        server_id < servers@.len() && channel_id >= servers@[server_id as int].channels@.len()
            ==> result == Err::<(usize, usize), JoinServerError>(JoinServerError::InvalidChannelId),
        server_id < servers@.len() && channel_id < servers@[server_id as int].channels@.len()
            ==> result == Ok::<(usize, usize), JoinServerError>((server_id as usize, channel_id as usize)),
{
    let s = server_id as usize;
    if s >= servers.len() {
        return Err(JoinServerError::InvalidServerId);
    }
    let c = channel_id as usize;
    if c >= servers[s].channels.len() {
        return Err(JoinServerError::InvalidChannelId);
    }
    Ok((s, c))
}

/// The answer to a login request, from the outcome of reading the account.
pub fn login_result(account: Result<(), AccountStorageError>) -> (result: Result<(), LoginError>)
    ensures
        result == match account {
            Ok(()) => Ok(()),
            Err(AccountStorageError::NotFound) => Err(LoginError::InvalidAccount),
            Err(AccountStorageError::InvalidPassword) => Err(LoginError::InvalidPassword),
            Err(AccountStorageError::Failed) => Err(LoginError::Failed),
        },
{
    match account {
        Ok(()) => Ok(()),
        Err(AccountStorageError::NotFound) => Err(LoginError::InvalidAccount),
        Err(AccountStorageError::InvalidPassword) => Err(LoginError::InvalidPassword),
        Err(AccountStorageError::Failed) => Err(LoginError::Failed),
    }
}

/// A login token handed out when a client joined a server: the token, the
/// account and character it stands for, and the world and game clients
/// (entities) that hold it.
#[derive(Clone, Debug)]
pub struct LoginToken {
    pub token: u32,
    pub username: String,
    pub selected_character: String,
    pub world_client: Option<u64>,
    pub game_client: Option<u64>,
}

/// `k` is the first token with this value.
pub open spec fn first_token(tokens: Seq<LoginToken>, token: u32, k: int) -> bool {
    &&& 0 <= k < tokens.len()
    &&& tokens[k].token == token
    &&& forall|j: int| 0 <= j < k ==> tokens[j].token != token
}

/// The first login token with this value.
pub fn find_login_token(tokens: &Vec<LoginToken>, token: u32) -> (result: Option<usize>)
    ensures
        match result {
            Some(k) => first_token(tokens@, token, k as int),
            None => forall|j: int| 0 <= j < tokens@.len() ==> tokens@[j].token != token,
        },
{
    let mut k: usize = 0;
    while k < tokens.len()
        invariant
            k <= tokens.len(),
            forall|j: int| 0 <= j < k ==> tokens@[j].token != token,
        decreases tokens.len() - k,
    {
        if tokens[k].token == token {
            return Some(k);
        }
        k += 1;
    }
    None
}

/// Whether a game client may use the first token with this value: the
/// token must be held by a world client and not yet by a game client.
/// Returns its place, or `InvalidToken`.
pub fn check_login_token(tokens: &Vec<LoginToken>, token: u32) -> (result: Result<usize, ConnectionRequestError>)
    ensures
        match result {
            Ok(k) => first_token(tokens@, token, k as int) && tokens@[k as int].world_client is Some
                && tokens@[k as int].game_client is None,
            Err(e) => e == ConnectionRequestError::InvalidToken
                && forall|k: int| first_token(tokens@, token, k) ==>
                    (tokens@[k].world_client is None || tokens@[k].game_client is Some),
        },
{
    match find_login_token(tokens, token) {
        None => Err(ConnectionRequestError::InvalidToken),
        Some(k) => {
            if tokens[k].world_client.is_none() || tokens[k].game_client.is_some() {
                proof {
                    assert forall|j: int| first_token(tokens@, token, j) implies j == k by {
                        if j < k { assert(tokens@[j].token != token); }
                        if j > k { assert(tokens@[k as int].token == token); }
                    }
                }
                Err(ConnectionRequestError::InvalidToken)
            } else {
                Ok(k)
            }
        },
    }
}

/// Entering the game with the token at `k`: the game client `entity` now
/// holds it; every other token, and the rest of this one, stay as they were.
pub fn claim_login_token(tokens: &mut Vec<LoginToken>, k: usize, entity: u64)
    requires
        k < old(tokens)@.len(),
    ensures
        final(tokens)@.len() == old(tokens)@.len(),
        final(tokens)@[k as int].game_client == Some(entity),
        final(tokens)@[k as int].token == old(tokens)@[k as int].token,
        final(tokens)@[k as int].username == old(tokens)@[k as int].username,
        final(tokens)@[k as int].selected_character == old(tokens)@[k as int].selected_character,
        final(tokens)@[k as int].world_client == old(tokens)@[k as int].world_client,
        forall|j: int| 0 <= j < old(tokens)@.len() && j != k ==> final(tokens)@[j] == old(tokens)@[j],
{
    let t = LoginToken {
        token: tokens[k].token,
        username: tokens[k].username.clone(),
        selected_character: tokens[k].selected_character.clone(),
        world_client: tokens[k].world_client,
        game_client: Some(entity),
    };
    tokens.set(k, t);
}

/// The answer to a game connection request: the token must be usable (see
/// `check_login_token`), the account must accept the password, and the
/// selected character must load.
/// The checks go in that order; a later one is only asked for when the
/// earlier ones passed (`None` for one not asked, which counts as failed).
pub fn game_connection_result(token_valid: bool, password_ok: Option<bool>, character_loaded: Option<bool>)
    -> (result: Result<(), ConnectionRequestError>)
    ensures
        result == if !token_valid {
            Err(ConnectionRequestError::InvalidToken)
        } else if password_ok != Some(true) {
            Err(ConnectionRequestError::InvalidPassword)
        } else if character_loaded != Some(true) {
            Err(ConnectionRequestError::Failed)
        } else {
            Ok(())
        },
{
    if !token_valid {
        return Err(ConnectionRequestError::InvalidToken);
    }
    match password_ok {
        Some(true) => {},
        _ => return Err(ConnectionRequestError::InvalidPassword),
    }
    match character_loaded {
        Some(true) => Ok(()),
        _ => Err(ConnectionRequestError::Failed),
    }
}

/// Where and how a character enters the world.
#[derive(Clone, Copy, Debug, PartialEq, Eq, Structural)]
pub enum SpawnPosition {
    /// Where it was saved.
    Saved,
    /// At its revive point.
    Revive,
}

/// Health, mana and position of a character entering the world: one saved
/// dead comes back at its revive point with full health and mana; any other
/// keeps what was saved.
pub fn entering_state(saved_health: u32, saved_mana: u32, max_health: i32, max_mana: i32)
    -> (state: (u32, u32, SpawnPosition))
    ensures
        saved_health == 0 ==> state == (max_health as u32, max_mana as u32, SpawnPosition::Revive),
        saved_health != 0 ==> state == (saved_health, saved_mana, SpawnPosition::Saved),
{
    if saved_health == 0 {
        (max_health as u32, max_mana as u32, SpawnPosition::Revive)
    } else {
        (saved_health, saved_mana, SpawnPosition::Saved)
    }
}

/// `k` is the first world server standing for `entity`.
pub open spec fn world_server_at(servers: Seq<WorldServerInfo>, entity: u64, k: int) -> bool {
    &&& 0 <= k < servers.len()
    &&& servers[k].entity == entity
    &&& forall|j: int| 0 <= j < k ==> servers[j].entity != entity
}

/// The first world server standing for `entity`.
pub fn find_world_server(servers: &Vec<WorldServerInfo>, entity: u64) -> (result: Option<usize>)
    ensures
        match result {
            Some(k) => world_server_at(servers@, entity, k as int),
            None => forall|j: int| 0 <= j < servers@.len() ==> servers@[j].entity != entity,
        },
{
    let mut k: usize = 0;
    while k < servers.len()
        invariant
            k <= servers.len(),
            forall|j: int| 0 <= j < k ==> servers@[j].entity != entity,
        decreases servers.len() - k,
    {
        if servers[k].entity == entity {
            return Some(k);
        }
        k += 1;
    }
    None
}

/// A world server joins the list, with no channel yet.
pub fn add_world_server(servers: &mut Vec<WorldServerInfo>, entity: u64, name: String)
    ensures
        final(servers)@.len() == old(servers)@.len() + 1,
        forall|i: int| 0 <= i < old(servers)@.len() ==> #[trigger] final(servers)@[i] == old(servers)@[i],
        final(servers)@.last().entity == entity,
        final(servers)@.last().name@ == name@,
        final(servers)@.last().channels@.len() == 0,
{
    servers.push(WorldServerInfo { entity, name, channels: Vec::new() });
}

/// A game server joins the channels of the first world server standing for
/// `world_server`, which must be listed.
pub fn add_game_server(servers: &mut Vec<WorldServerInfo>, world_server: u64, entity: u64, name: String)
    requires
        exists|k: int| 0 <= k < old(servers)@.len() && old(servers)@[k].entity == world_server,
    ensures
        final(servers)@.len() == old(servers)@.len(),
        exists|k: int| world_server_at(old(servers)@, world_server, k) && {
            &&& forall|i: int| 0 <= i < old(servers)@.len() && i != k ==> #[trigger] final(servers)@[i] == old(servers)@[i]
            &&& final(servers)@[k].entity == old(servers)@[k].entity
            &&& final(servers)@[k].name == old(servers)@[k].name
            &&& final(servers)@[k].channels@.len() == old(servers)@[k].channels@.len() + 1
            &&& forall|c: int| 0 <= c < old(servers)@[k].channels@.len()
                ==> #[trigger] final(servers)@[k].channels@[c] == old(servers)@[k].channels@[c]
            &&& final(servers)@[k].channels@.last().entity == entity
            &&& final(servers)@[k].channels@.last().name@ == name@
        },
{
    let k = match find_world_server(servers, world_server) {
        Some(k) => k,
        None => {
            proof {
                let w = choose|w: int| 0 <= w < old(servers)@.len() && old(servers)@[w].entity == world_server;
                assert(old(servers)@[w].entity != world_server);
            }
            return;
        },
    };
    let mut server = servers.remove(k);
    server.channels.push(GameServerInfo { entity, name });
    servers.insert(k, server);
}

} // verus!
