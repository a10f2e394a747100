//! The statements that create the database and bring an older one up to date,
//! version by version.

use vstd::prelude::*;

verus! {

/// The version that an up-to-date database has.
pub const CURRENT_VERSION: i32 = 63;

/// How many versions changed the database.
pub const VERSION_COUNT: usize = 25;

pub const CREATE_CONFIG: &'static str =
    "CREATE TABLE config (id INTEGER PRIMARY KEY, keyname TEXT, value TEXT);";

pub const CONFIG_INDEX1: &'static str =
    "CREATE INDEX config_index1 ON config (keyname);";

pub const CREATE_CONTACTS: &'static str =
    "CREATE TABLE contacts (id INTEGER PRIMARY KEY AUTOINCREMENT, name TEXT DEFAULT '', addr TEXT DEFAULT '' COLLATE NOCASE, origin INTEGER DEFAULT 0, blocked INTEGER DEFAULT 0, last_seen INTEGER DEFAULT 0, param TEXT DEFAULT '');";

pub const CONTACTS_INDEX1: &'static str =
    "CREATE INDEX contacts_index1 ON contacts (name COLLATE NOCASE);";

pub const CONTACTS_INDEX2: &'static str =
    "CREATE INDEX contacts_index2 ON contacts (addr COLLATE NOCASE);";

pub const SEED_CONTACTS: &'static str =
    "INSERT INTO contacts (id,name,origin) VALUES (1,'self',262144), (2,'info',262144), (3,'rsvd',262144), (4,'rsvd',262144), (5,'device',262144), (6,'rsvd',262144), (7,'rsvd',262144), (8,'rsvd',262144), (9,'rsvd',262144);";

pub const CREATE_CHATS: &'static str =
    "CREATE TABLE chats (id INTEGER PRIMARY KEY AUTOINCREMENT,  type INTEGER DEFAULT 0, name TEXT DEFAULT '', draft_timestamp INTEGER DEFAULT 0, draft_txt TEXT DEFAULT '', blocked INTEGER DEFAULT 0, grpid TEXT DEFAULT '', param TEXT DEFAULT '');";

pub const CHATS_INDEX1: &'static str =
    "CREATE INDEX chats_index1 ON chats (grpid);";

pub const CREATE_CHATS_CONTACTS: &'static str =
    "CREATE TABLE chats_contacts (chat_id INTEGER, contact_id INTEGER);";

pub const CHATS_CONTACTS_INDEX1: &'static str =
    "CREATE INDEX chats_contacts_index1 ON chats_contacts (chat_id);";

pub const SEED_CHATS: &'static str =
    "INSERT INTO chats (id,type,name) VALUES (1,120,'deaddrop'), (2,120,'rsvd'), (3,120,'trash'), (4,120,'msgs_in_creation'), (5,120,'starred'), (6,120,'archivedlink'), (7,100,'rsvd'), (8,100,'rsvd'), (9,100,'rsvd');";

pub const CREATE_MSGS: &'static str =
    "CREATE TABLE msgs (id INTEGER PRIMARY KEY AUTOINCREMENT, rfc724_mid TEXT DEFAULT '', server_folder TEXT DEFAULT '', server_uid INTEGER DEFAULT 0, chat_id INTEGER DEFAULT 0, from_id INTEGER DEFAULT 0, to_id INTEGER DEFAULT 0, timestamp INTEGER DEFAULT 0, type INTEGER DEFAULT 0, state INTEGER DEFAULT 0, msgrmsg INTEGER DEFAULT 1, bytes INTEGER DEFAULT 0, txt TEXT DEFAULT '', txt_raw TEXT DEFAULT '', param TEXT DEFAULT '');";

pub const MSGS_INDEX1: &'static str =
    "CREATE INDEX msgs_index1 ON msgs (rfc724_mid);";

pub const MSGS_INDEX2: &'static str =
    "CREATE INDEX msgs_index2 ON msgs (chat_id);";

pub const MSGS_INDEX3: &'static str =
    "CREATE INDEX msgs_index3 ON msgs (timestamp);";

pub const MSGS_INDEX4: &'static str =
    "CREATE INDEX msgs_index4 ON msgs (state);";

pub const SEED_MSGS: &'static str =
    "INSERT INTO msgs (id,msgrmsg,txt) VALUES (1,0,'marker1'), (2,0,'rsvd'), (3,0,'rsvd'), (4,0,'rsvd'), (5,0,'rsvd'), (6,0,'rsvd'), (7,0,'rsvd'), (8,0,'rsvd'), (9,0,'daymarker');";

pub const CREATE_JOBS: &'static str =
    "CREATE TABLE jobs (id INTEGER PRIMARY KEY AUTOINCREMENT, added_timestamp INTEGER, desired_timestamp INTEGER DEFAULT 0, action INTEGER, foreign_id INTEGER, param TEXT DEFAULT '');";

pub const JOBS_INDEX1: &'static str =
    "CREATE INDEX jobs_index1 ON jobs (desired_timestamp);";

pub const CREATE_LEFTGRPS: &'static str =
    "CREATE TABLE leftgrps ( id INTEGER PRIMARY KEY, grpid TEXT DEFAULT '');";

pub const LEFTGRPS_INDEX1: &'static str =
    "CREATE INDEX leftgrps_index1 ON leftgrps (grpid);";

pub const ADD_CONTACTS_AUTHNAME: &'static str =
    "ALTER TABLE contacts ADD COLUMN authname TEXT DEFAULT '';";

pub const CREATE_KEYPAIRS: &'static str =
    "CREATE TABLE keypairs (id INTEGER PRIMARY KEY, addr TEXT DEFAULT '' COLLATE NOCASE, is_default INTEGER DEFAULT 0, private_key, public_key, created INTEGER DEFAULT 0);";

pub const CREATE_ACPEERSTATES: &'static str =
    "CREATE TABLE acpeerstates (id INTEGER PRIMARY KEY, addr TEXT DEFAULT '' COLLATE NOCASE, last_seen INTEGER DEFAULT 0, last_seen_autocrypt INTEGER DEFAULT 0, public_key, prefer_encrypted INTEGER DEFAULT 0);";

pub const ACPEERSTATES_INDEX1: &'static str =
    "CREATE INDEX acpeerstates_index1 ON acpeerstates (addr);";

pub const CREATE_MSGS_MDNS: &'static str =
    "CREATE TABLE msgs_mdns ( msg_id INTEGER,  contact_id INTEGER);";

pub const MSGS_MDNS_INDEX1: &'static str =
    "CREATE INDEX msgs_mdns_index1 ON msgs_mdns (msg_id);";

pub const ADD_CHATS_ARCHIVED: &'static str =
    "ALTER TABLE chats ADD COLUMN archived INTEGER DEFAULT 0;";

pub const CHATS_INDEX2: &'static str =
    "CREATE INDEX chats_index2 ON chats (archived);";

pub const ADD_MSGS_STARRED: &'static str =
    "ALTER TABLE msgs ADD COLUMN starred INTEGER DEFAULT 0;";

pub const MSGS_INDEX5: &'static str =
    "CREATE INDEX msgs_index5 ON msgs (starred);";

pub const ADD_ACPEERSTATES_GOSSIP_TIMESTAMP: &'static str =
    "ALTER TABLE acpeerstates ADD COLUMN gossip_timestamp INTEGER DEFAULT 0;";

pub const ADD_ACPEERSTATES_GOSSIP_KEY: &'static str =
    "ALTER TABLE acpeerstates ADD COLUMN gossip_key;";

pub const DELETE_OLD_DEADDROP_MSGS: &'static str =
    "DELETE FROM msgs WHERE chat_id=1 OR chat_id=2;";

pub const CHATS_CONTACTS_INDEX2: &'static str =
    "CREATE INDEX chats_contacts_index2 ON chats_contacts (contact_id);";

pub const ADD_MSGS_TIMESTAMP_SENT: &'static str =
    "ALTER TABLE msgs ADD COLUMN timestamp_sent INTEGER DEFAULT 0;";

pub const ADD_MSGS_TIMESTAMP_RCVD: &'static str =
    "ALTER TABLE msgs ADD COLUMN timestamp_rcvd INTEGER DEFAULT 0;";

pub const ADD_MSGS_HIDDEN: &'static str =
    "ALTER TABLE msgs ADD COLUMN hidden INTEGER DEFAULT 0;";

pub const ADD_MSGS_MDNS_TIMESTAMP_SENT: &'static str =
    "ALTER TABLE msgs_mdns ADD COLUMN timestamp_sent INTEGER DEFAULT 0;";

pub const ADD_ACPEERSTATES_PUBLIC_KEY_FINGERPRINT: &'static str =
    "ALTER TABLE acpeerstates ADD COLUMN public_key_fingerprint TEXT DEFAULT '';";

pub const ADD_ACPEERSTATES_GOSSIP_KEY_FINGERPRINT: &'static str =
    "ALTER TABLE acpeerstates ADD COLUMN gossip_key_fingerprint TEXT DEFAULT '';";

pub const ACPEERSTATES_INDEX3: &'static str =
    "CREATE INDEX acpeerstates_index3 ON acpeerstates (public_key_fingerprint);";

pub const ACPEERSTATES_INDEX4: &'static str =
    "CREATE INDEX acpeerstates_index4 ON acpeerstates (gossip_key_fingerprint);";

pub const CREATE_TOKENS: &'static str =
    "CREATE TABLE tokens ( id INTEGER PRIMARY KEY, namespc INTEGER DEFAULT 0, foreign_id INTEGER DEFAULT 0, token TEXT DEFAULT '', timestamp INTEGER DEFAULT 0);";

pub const ADD_ACPEERSTATES_VERIFIED_KEY: &'static str =
    "ALTER TABLE acpeerstates ADD COLUMN verified_key;";

pub const ADD_ACPEERSTATES_VERIFIED_KEY_FINGERPRINT: &'static str =
    "ALTER TABLE acpeerstates ADD COLUMN verified_key_fingerprint TEXT DEFAULT '';";

pub const ACPEERSTATES_INDEX5: &'static str =
    "CREATE INDEX acpeerstates_index5 ON acpeerstates (verified_key_fingerprint);";

pub const ADD_JOBS_THREAD: &'static str =
    "ALTER TABLE jobs ADD COLUMN thread INTEGER DEFAULT 0;";

pub const ADD_MSGS_MIME_HEADERS: &'static str =
    "ALTER TABLE msgs ADD COLUMN mime_headers TEXT;";

pub const ADD_MSGS_MIME_IN_REPLY_TO: &'static str =
    "ALTER TABLE msgs ADD COLUMN mime_in_reply_to TEXT;";

pub const ADD_MSGS_MIME_REFERENCES: &'static str =
    "ALTER TABLE msgs ADD COLUMN mime_references TEXT;";

pub const ADD_JOBS_TRIES: &'static str =
    "ALTER TABLE jobs ADD COLUMN tries INTEGER DEFAULT 0;";

pub const ADD_MSGS_MOVE_STATE: &'static str =
    "ALTER TABLE msgs ADD COLUMN move_state INTEGER DEFAULT 1;";

pub const ADD_CHATS_GOSSIPED_TIMESTAMP: &'static str =
    "ALTER TABLE chats ADD COLUMN gossiped_timestamp INTEGER DEFAULT 0;";

pub const CREATE_LOCATIONS: &'static str =
    "CREATE TABLE locations ( id INTEGER PRIMARY KEY AUTOINCREMENT, latitude REAL DEFAULT 0.0, longitude REAL DEFAULT 0.0, accuracy REAL DEFAULT 0.0, timestamp INTEGER DEFAULT 0, chat_id INTEGER DEFAULT 0, from_id INTEGER DEFAULT 0);";

pub const LOCATIONS_INDEX1: &'static str =
    "CREATE INDEX locations_index1 ON locations (from_id);";

pub const LOCATIONS_INDEX2: &'static str =
    "CREATE INDEX locations_index2 ON locations (timestamp);";

pub const ADD_CHATS_LOCATIONS_SEND_BEGIN: &'static str =
    "ALTER TABLE chats ADD COLUMN locations_send_begin INTEGER DEFAULT 0;";

pub const ADD_CHATS_LOCATIONS_SEND_UNTIL: &'static str =
    "ALTER TABLE chats ADD COLUMN locations_send_until INTEGER DEFAULT 0;";

pub const ADD_CHATS_LOCATIONS_LAST_SENT: &'static str =
    "ALTER TABLE chats ADD COLUMN locations_last_sent INTEGER DEFAULT 0;";

pub const CHATS_INDEX3: &'static str =
    "CREATE INDEX chats_index3 ON chats (locations_send_until);";

pub const ADD_MSGS_LOCATION_ID: &'static str =
    "ALTER TABLE msgs ADD COLUMN location_id INTEGER DEFAULT 0;";

pub const MSGS_INDEX6: &'static str =
    "CREATE INDEX msgs_index6 ON msgs (location_id);";

pub const ADD_LOCATIONS_INDEPENDENT: &'static str =
    "ALTER TABLE locations ADD COLUMN independent INTEGER DEFAULT 0;";

pub const CREATE_DEVMSGLABELS: &'static str =
    "CREATE TABLE devmsglabels (id INTEGER PRIMARY KEY AUTOINCREMENT, label TEXT, msg_id INTEGER DEFAULT 0);";

pub const DEVMSGLABELS_INDEX1: &'static str =
    "CREATE INDEX devmsglabels_index1 ON devmsglabels (label);";

pub const ADD_CHATS_CREATED_TIMESTAMP: &'static str =
    "ALTER TABLE chats ADD COLUMN created_timestamp INTEGER DEFAULT 0;";

pub const ADD_CONTACTS_SELFAVATAR_SENT: &'static str =
    "ALTER TABLE contacts ADD COLUMN selfavatar_sent INTEGER DEFAULT 0;";

pub const ADD_CHATS_MUTED_UNTIL: &'static str =
    "ALTER TABLE chats ADD COLUMN muted_until INTEGER DEFAULT 0;";

pub const CLEAR_SINGLE_CHAT_GRPID: &'static str =
    "UPDATE chats SET grpid='' WHERE type=100";

/// The versions that changed the database, oldest first: the one at place `i`.
pub open spec fn version_at(i: int) -> int {
    if i <= 0 {
        1
    } else if i == 1 {
        2
    } else if i == 2 {
        7
    } else if i == 3 {
        10
    } else if i == 4 {
        12
    } else if i == 5 {
        17
    } else if i == 6 {
        18
    } else if i == 7 {
        27
    } else if i == 8 {
        34
    } else if i == 9 {
        39
    } else if i == 10 {
        40
    } else if i == 11 {
        44
    } else if i == 12 {
        46
    } else if i == 13 {
        47
    } else if i == 14 {
        48
    } else if i == 15 {
        49
    } else if i == 16 {
        50
    } else if i == 17 {
        53
    } else if i == 18 {
        54
    } else if i == 19 {
        55
    } else if i == 20 {
        59
    } else if i == 21 {
        60
    } else if i == 22 {
        61
    } else if i == 23 {
        62
    } else {
        63
    }
}

/// How many of the versions are not above `dbversion`.
pub open spec fn applied(dbversion: int) -> int {
    if dbversion < 1 {
        0
    } else if dbversion < 2 {
        1
    } else if dbversion < 7 {
        2
    } else if dbversion < 10 {
        3
    } else if dbversion < 12 {
        4
    } else if dbversion < 17 {
        5
    } else if dbversion < 18 {
        6
    } else if dbversion < 27 {
        7
    } else if dbversion < 34 {
        8
    } else if dbversion < 39 {
        9
    } else if dbversion < 40 {
        10
    } else if dbversion < 44 {
        11
    } else if dbversion < 46 {
        12
    } else if dbversion < 47 {
        13
    } else if dbversion < 48 {
        14
    } else if dbversion < 49 {
        15
    } else if dbversion < 50 {
        16
    } else if dbversion < 53 {
        17
    } else if dbversion < 54 {
        18
    } else if dbversion < 55 {
        19
    } else if dbversion < 59 {
        20
    } else if dbversion < 60 {
        21
    } else if dbversion < 61 {
        22
    } else if dbversion < 62 {
        23
    } else if dbversion < 63 {
        24
    } else {
        25
    }
}

/// The statements of `version`, in the order in which they run. Version 0
/// stands for the creation of a new database.
pub open spec fn statements_spec(version: int) -> Seq<Seq<char>> {
    if version == 0 {
        seq![CREATE_CONFIG@, CONFIG_INDEX1@, CREATE_CONTACTS@, CONTACTS_INDEX1@, CONTACTS_INDEX2@, SEED_CONTACTS@, CREATE_CHATS@, CHATS_INDEX1@, CREATE_CHATS_CONTACTS@, CHATS_CONTACTS_INDEX1@, SEED_CHATS@, CREATE_MSGS@, MSGS_INDEX1@, MSGS_INDEX2@, MSGS_INDEX3@, MSGS_INDEX4@, SEED_MSGS@, CREATE_JOBS@, JOBS_INDEX1@]
    } else if version == 1 {
        seq![CREATE_LEFTGRPS@, LEFTGRPS_INDEX1@]
    } else if version == 2 {
        seq![ADD_CONTACTS_AUTHNAME@]
    } else if version == 7 {
        seq![CREATE_KEYPAIRS@]
    } else if version == 10 {
        seq![CREATE_ACPEERSTATES@, ACPEERSTATES_INDEX1@]
    } else if version == 12 {
        seq![CREATE_MSGS_MDNS@, MSGS_MDNS_INDEX1@]
    } else if version == 17 {
        seq![ADD_CHATS_ARCHIVED@, CHATS_INDEX2@, ADD_MSGS_STARRED@, MSGS_INDEX5@]
    } else if version == 18 {
        seq![ADD_ACPEERSTATES_GOSSIP_TIMESTAMP@, ADD_ACPEERSTATES_GOSSIP_KEY@]
    } else if version == 27 {
        seq![DELETE_OLD_DEADDROP_MSGS@, CHATS_CONTACTS_INDEX2@, ADD_MSGS_TIMESTAMP_SENT@, ADD_MSGS_TIMESTAMP_RCVD@]
    } else if version == 34 {
        seq![ADD_MSGS_HIDDEN@, ADD_MSGS_MDNS_TIMESTAMP_SENT@, ADD_ACPEERSTATES_PUBLIC_KEY_FINGERPRINT@, ADD_ACPEERSTATES_GOSSIP_KEY_FINGERPRINT@, ACPEERSTATES_INDEX3@, ACPEERSTATES_INDEX4@]
    } else if version == 39 {
        seq![CREATE_TOKENS@, ADD_ACPEERSTATES_VERIFIED_KEY@, ADD_ACPEERSTATES_VERIFIED_KEY_FINGERPRINT@, ACPEERSTATES_INDEX5@]
    } else if version == 40 {
        seq![ADD_JOBS_THREAD@]
    } else if version == 44 {
        seq![ADD_MSGS_MIME_HEADERS@]
    } else if version == 46 {
        seq![ADD_MSGS_MIME_IN_REPLY_TO@, ADD_MSGS_MIME_REFERENCES@]
    } else if version == 47 {
        seq![ADD_JOBS_TRIES@]
    } else if version == 48 {
        seq![ADD_MSGS_MOVE_STATE@]
    } else if version == 49 {
        seq![ADD_CHATS_GOSSIPED_TIMESTAMP@]
    } else if version == 50 {
        Seq::empty()
    } else if version == 53 {
        seq![CREATE_LOCATIONS@, LOCATIONS_INDEX1@, LOCATIONS_INDEX2@, ADD_CHATS_LOCATIONS_SEND_BEGIN@, ADD_CHATS_LOCATIONS_SEND_UNTIL@, ADD_CHATS_LOCATIONS_LAST_SENT@, CHATS_INDEX3@]
    } else if version == 54 {
        seq![ADD_MSGS_LOCATION_ID@, MSGS_INDEX6@]
    } else if version == 55 {
        seq![ADD_LOCATIONS_INDEPENDENT@]
    } else if version == 59 {
        seq![CREATE_DEVMSGLABELS@, DEVMSGLABELS_INDEX1@]
    } else if version == 60 {
        seq![ADD_CHATS_CREATED_TIMESTAMP@]
    } else if version == 61 {
        seq![ADD_CONTACTS_SELFAVATAR_SENT@]
    } else if version == 62 {
        seq![ADD_CHATS_MUTED_UNTIL@]
    } else if version == 63 {
        seq![CLEAR_SINGLE_CHAT_GRPID@]
    } else {
        Seq::empty()
    }
}

/// The tables that a new database must have once the statements of version 0
/// have run.
pub open spec fn required_tables_spec() -> Seq<Seq<char>> {
    seq!["config"@, "contacts"@, "chats"@, "chats_contacts"@, "msgs"@, "jobs"@]
}

/// The texts as sequences of characters.
pub open spec fn strs_view(v: Seq<&'static str>) -> Seq<Seq<char>> {
    v.map_values(|s: &'static str| s@)
}

/// The version at place `i` of the versions that changed the database.
pub fn version_of(i: usize) -> (r: i32)
    requires
        i < VERSION_COUNT,
    ensures
        r == version_at(i as int),
        1 <= r <= CURRENT_VERSION,
{
    if i == 0 {
        1
    } else if i == 1 {
        2
    } else if i == 2 {
        7
    } else if i == 3 {
        10
    } else if i == 4 {
        12
    } else if i == 5 {
        17
    } else if i == 6 {
        18
    } else if i == 7 {
        27
    } else if i == 8 {
        34
    } else if i == 9 {
        39
    } else if i == 10 {
        40
    } else if i == 11 {
        44
    } else if i == 12 {
        46
    } else if i == 13 {
        47
    } else if i == 14 {
        48
    } else if i == 15 {
        49
    } else if i == 16 {
        50
    } else if i == 17 {
        53
    } else if i == 18 {
        54
    } else if i == 19 {
        55
    } else if i == 20 {
        59
    } else if i == 21 {
        60
    } else if i == 22 {
        61
    } else if i == 23 {
        62
    } else {
        63
    }
}

/// The tables that a new database must have once the statements of version 0
/// have run.
pub fn required_tables() -> (r: Vec<&'static str>)
    ensures
        strs_view(r@) == required_tables_spec(),
{
    let r = vec!["config", "contacts", "chats", "chats_contacts", "msgs", "jobs"];
    assert(strs_view(r@) =~= required_tables_spec());
    r
}

/// The statements of `version`, in the order in which they run.
pub fn statements(version: i32) -> (r: Vec<&'static str>)
    ensures
        strs_view(r@) == statements_spec(version as int),
{
    let r: Vec<&'static str> = if version == 0 {
        vec![CREATE_CONFIG, CONFIG_INDEX1, CREATE_CONTACTS, CONTACTS_INDEX1, CONTACTS_INDEX2, SEED_CONTACTS, CREATE_CHATS, CHATS_INDEX1, CREATE_CHATS_CONTACTS, CHATS_CONTACTS_INDEX1, SEED_CHATS, CREATE_MSGS, MSGS_INDEX1, MSGS_INDEX2, MSGS_INDEX3, MSGS_INDEX4, SEED_MSGS, CREATE_JOBS, JOBS_INDEX1]
    } else if version == 1 {
        vec![CREATE_LEFTGRPS, LEFTGRPS_INDEX1]
    } else if version == 2 {
        vec![ADD_CONTACTS_AUTHNAME]
    } else if version == 7 {
        vec![CREATE_KEYPAIRS]
    } else if version == 10 {
        vec![CREATE_ACPEERSTATES, ACPEERSTATES_INDEX1]
    } else if version == 12 {
        vec![CREATE_MSGS_MDNS, MSGS_MDNS_INDEX1]
    } else if version == 17 {
        vec![ADD_CHATS_ARCHIVED, CHATS_INDEX2, ADD_MSGS_STARRED, MSGS_INDEX5]
    } else if version == 18 {
        vec![ADD_ACPEERSTATES_GOSSIP_TIMESTAMP, ADD_ACPEERSTATES_GOSSIP_KEY]
    } else if version == 27 {
        vec![DELETE_OLD_DEADDROP_MSGS, CHATS_CONTACTS_INDEX2, ADD_MSGS_TIMESTAMP_SENT, ADD_MSGS_TIMESTAMP_RCVD]
    } else if version == 34 {
        vec![ADD_MSGS_HIDDEN, ADD_MSGS_MDNS_TIMESTAMP_SENT, ADD_ACPEERSTATES_PUBLIC_KEY_FINGERPRINT, ADD_ACPEERSTATES_GOSSIP_KEY_FINGERPRINT, ACPEERSTATES_INDEX3, ACPEERSTATES_INDEX4]
    } else if version == 39 {
        vec![CREATE_TOKENS, ADD_ACPEERSTATES_VERIFIED_KEY, ADD_ACPEERSTATES_VERIFIED_KEY_FINGERPRINT, ACPEERSTATES_INDEX5]
    } else if version == 40 {
        vec![ADD_JOBS_THREAD]
    } else if version == 44 {
        vec![ADD_MSGS_MIME_HEADERS]
    } else if version == 46 {
        vec![ADD_MSGS_MIME_IN_REPLY_TO, ADD_MSGS_MIME_REFERENCES]
    } else if version == 47 {
        vec![ADD_JOBS_TRIES]
    } else if version == 48 {
        vec![ADD_MSGS_MOVE_STATE]
    } else if version == 49 {
        vec![ADD_CHATS_GOSSIPED_TIMESTAMP]
    } else if version == 50 {
        Vec::new()
    } else if version == 53 {
        vec![CREATE_LOCATIONS, LOCATIONS_INDEX1, LOCATIONS_INDEX2, ADD_CHATS_LOCATIONS_SEND_BEGIN, ADD_CHATS_LOCATIONS_SEND_UNTIL, ADD_CHATS_LOCATIONS_LAST_SENT, CHATS_INDEX3]
    } else if version == 54 {
        vec![ADD_MSGS_LOCATION_ID, MSGS_INDEX6]
    } else if version == 55 {
        vec![ADD_LOCATIONS_INDEPENDENT]
    } else if version == 59 {
        vec![CREATE_DEVMSGLABELS, DEVMSGLABELS_INDEX1]
    } else if version == 60 {
        vec![ADD_CHATS_CREATED_TIMESTAMP]
    } else if version == 61 {
        vec![ADD_CONTACTS_SELFAVATAR_SENT]
    } else if version == 62 {
        vec![ADD_CHATS_MUTED_UNTIL]
    } else if version == 63 {
        vec![CLEAR_SINGLE_CHAT_GRPID]
    } else {
        Vec::new()
    };
    assert(strs_view(r@) =~= statements_spec(version as int));
    r
}

} // verus!
