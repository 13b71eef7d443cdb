use vstd::prelude::*;
use vstd::string::StringExecFns;
use crate::bank::Bank;
use crate::items::{InventoryItems, Item};

verus! {

/// The path `std::path::Path::join` makes of a base directory and a file
/// name, as text.
pub uninterp spec fn path_join(base: Seq<char>, file: Seq<char>) -> Seq<char>;

/// `std::path::Path::join`: the path of `file` under `base`. The result is a
/// function of the two texts alone; what it is (a separator between them,
/// or `file` alone when it is absolute) is left to the name.
#[verifier::external_body]
fn join_path(base: &str, file: &str) -> (joined: String)
    ensures
        joined@ == path_join(base@, file@),
{
    std::path::Path::new(base).join(file).to_string_lossy().into_owned()
}

/// The file name a record named `name` is stored under.
pub open spec fn json_file_name(name: Seq<char>) -> Seq<char> {
    name + ".json"@
}

fn json_file(name: &str) -> (file: String)
    ensures
        file@ == json_file_name(name@),
{
    let mut file = String::from_str(name);
    file.append(".json");
    file
}

/// The path of the character named `name` in `storage_dir`.
pub fn get_character_path(storage_dir: &str, name: &str) -> (path: String)
    ensures
        path@ == path_join(storage_dir@, json_file_name(name@)),
{
    let file = json_file(name);
    join_path(storage_dir, file.as_str())
}

/// The path of the bank of account `account_name` in `storage_dir`.
pub fn get_bank_path(storage_dir: &str, account_name: &str) -> (path: String)
    ensures
        path@ == path_join(storage_dir@, json_file_name(account_name@)),
{
    let file = json_file(account_name);
    join_path(storage_dir, file.as_str())
}

/// The path of the clan named `name` in `storage_dir`.
pub fn get_clan_path(storage_dir: &str, name: &str) -> (path: String)
    ensures
        path@ == path_join(storage_dir@, json_file_name(name@)),
{
    let file = json_file(name);
    join_path(storage_dir, file.as_str())
}

/// A file to write: where, what, and whether a file already there may be
/// replaced.
#[derive(Clone, Debug)]
pub struct StorageWrite {
    pub path: String,
    pub contents: String,
    pub allow_overwrite: bool,
}

/// A stored character: its name, which places the file, and its record as
/// JSON text.
#[derive(Clone, Debug)]
pub struct CharacterStorage {
    pub name: String,
    pub json: String,
}

impl CharacterStorage {
    /// The write that stores a new character: it must not replace a
    /// character of the same name.
    pub fn try_create(&self, storage_dir: &str) -> (write: StorageWrite)
        ensures
            write.path@ == path_join(storage_dir@, json_file_name(self.name@)),
            write.contents@ == self.json@,
            !write.allow_overwrite,
    {
        self.save_character_impl(storage_dir, false)
    }

    /// The write that stores the character over its previous record.
    pub fn save(&self, storage_dir: &str) -> (write: StorageWrite)
        ensures
            write.path@ == path_join(storage_dir@, json_file_name(self.name@)),
            write.contents@ == self.json@,
            write.allow_overwrite,
    {
        self.save_character_impl(storage_dir, true)
    }

    fn save_character_impl(&self, storage_dir: &str, allow_overwrite: bool) -> (write: StorageWrite)
        ensures
            write.path@ == path_join(storage_dir@, json_file_name(self.name@)),
            write.contents@ == self.json@,
            write.allow_overwrite == allow_overwrite,
    {
        let path = get_character_path(storage_dir, self.name.as_str());
        StorageWrite { path, contents: self.json.clone(), allow_overwrite }
    }
}

/// Why a bank could not be loaded.
#[derive(Clone, Copy, Debug, PartialEq, Eq, Structural)]
pub enum BankStorageError {
    NotFound,
}

/// A stored bank: its slots.
#[derive(Clone, Debug)]
pub struct BankStorage {
    pub slots: Vec<Option<Item>>,
}

impl BankStorage {
    /// An empty bank, as a new account gets.
    pub fn new() -> (bank: BankStorage)
        ensures
            bank.slots@.len() == 0,
    {
        BankStorage { slots: Vec::new() }
    }

    /// The bank in play made of the stored one: the same slots, not yet
    /// sent to the client.
    pub fn into_bank(self) -> (bank: Bank)
        ensures
            bank.items.slots@ == self.slots@,
            !bank.sent_to_client,
    {
        Bank { items: InventoryItems { slots: self.slots }, sent_to_client: false }
    }

    /// The write that stores a new bank for an account, `json` being its
    /// record; it must not replace an existing one.
    pub fn create(&self, storage_dir: &str, account_name: &str, json: String) -> (write: StorageWrite)
        ensures
            write.path@ == path_join(storage_dir@, json_file_name(account_name@)),
            write.contents@ == json@,
            !write.allow_overwrite,
    {
        self.save_impl(storage_dir, account_name, json, false)
    }

    /// The write that stores the bank over its previous record, `json`
    /// being its record.
    pub fn save(&self, storage_dir: &str, account_name: &str, json: String) -> (write: StorageWrite)
        ensures
            write.path@ == path_join(storage_dir@, json_file_name(account_name@)),
            write.contents@ == json@,
            write.allow_overwrite,
    {
        self.save_impl(storage_dir, account_name, json, true)
    }

    fn save_impl(&self, storage_dir: &str, account_name: &str, json: String, allow_overwrite: bool) -> (write: StorageWrite)
        ensures
            write.path@ == path_join(storage_dir@, json_file_name(account_name@)),
            write.contents@ == json@,
            write.allow_overwrite == allow_overwrite,
    {
        let path = get_bank_path(storage_dir, account_name);
        StorageWrite { path, contents: json, allow_overwrite }
    }
}

/// What loading a bank gives once the disk has answered whether its record
/// at `path` exists: the path to read, or `NotFound`.
pub fn bank_load_result(path: String, exists: bool) -> (result: Result<String, BankStorageError>)
    ensures
        exists ==> (result matches Ok(p) && p@ == path@),
        !exists ==> result == Err::<String, BankStorageError>(BankStorageError::NotFound),
{
    if exists {
        Ok(path)
    } else {
        Err(BankStorageError::NotFound)
    }
}

/// Why a new character was refused.
#[derive(Clone, Copy, Debug, PartialEq, Eq, Structural)]
pub enum CharacterCreatorError {
    InvalidName,
    InvalidGender,
    InvalidBirthStone,
    InvalidFace,
    InvalidHair,
}

} // verus!
