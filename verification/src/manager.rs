//! The vault: the hash of the master password and one entry per service.
//!
//! The vault is modelled as its hash and a map from service name to the
//! pair of username and sealed secret. Service names are case-sensitive
//! and unique; the order of the entries carries no meaning.

use crate::encryption::{
    can_encrypt, decrypt_password, decryption_of, digestible, encrypt_password, encrypts,
    hash_password, is_master_hash, master_hash_matches, usable_salt, verify_master_password,
};
use crate::error::VaultError;
use vstd::prelude::*;

verus! {

/// One stored credential.
#[derive(Debug)]
struct Entry {
    service: String,
    username: String,
    encrypted_secret: String,
}

/// The vault as a mathematical value.
pub struct VaultView {
    /// The stored hash of the master password.
    pub master_password_hash: Seq<char>,
    /// Username and sealed secret for each service.
    pub entries: Map<Seq<char>, (Seq<char>, Seq<char>)>,
}

/// The vault: the hash of the master password, never the password itself,
/// and the entries. Every vault holds each service once.
#[derive(Debug)]
pub struct PasswordManager {
    master_password_hash: String,
    entries: Vec<Entry>,
}

/// Some entry of `entries` is for `service`.
spec fn has_service(entries: Seq<Entry>, service: Seq<char>) -> bool {
    exists|i: int| 0 <= i < entries.len() && #[trigger] entries[i].service@ == service
}

/// Where the entry for `service` stands.
spec fn index_of(entries: Seq<Entry>, service: Seq<char>) -> int {
    choose|i: int| 0 <= i < entries.len() && #[trigger] entries[i].service@ == service
}

/// No two entries are for one service.
spec fn distinct_services(entries: Seq<Entry>) -> bool {
    forall|i: int, j: int|
        0 <= i < j < entries.len() ==> #[trigger] entries[i].service@
            != #[trigger] entries[j].service@
}

/// The map that a sequence of entries stands for.
spec fn entries_map(entries: Seq<Entry>) -> Map<Seq<char>, (Seq<char>, Seq<char>)> {
    Map::new(
        |service: Seq<char>| has_service(entries, service),
        |service: Seq<char>|
            {
                let entry = entries[index_of(entries, service)];
                (entry.username@, entry.encrypted_secret@)
            },
    )
}

/// With distinct services, an entry is found where it stands.
proof fn lemma_index_of(entries: Seq<Entry>, i: int)
    requires
        distinct_services(entries),
        0 <= i < entries.len(),
    ensures
        has_service(entries, entries[i].service@),
        index_of(entries, entries[i].service@) == i,
{
    let j = index_of(entries, entries[i].service@);
    assert(0 <= j < entries.len() && entries[j].service@ == entries[i].service@);
    if j < i {
        assert(entries[j].service@ != entries[i].service@);
    } else if i < j {
        assert(entries[i].service@ != entries[j].service@);
    }
}

/// Appending an entry for a new service inserts it into the map.
proof fn lemma_push(entries: Seq<Entry>, entry: Entry)
    requires
        distinct_services(entries),
        !has_service(entries, entry.service@),
    ensures
        distinct_services(entries.push(entry)),
        entries_map(entries.push(entry)) == entries_map(entries).insert(
            entry.service@,
            (entry.username@, entry.encrypted_secret@),
        ),
{
    let after = entries.push(entry);
    assert forall|i: int, j: int| 0 <= i < j < after.len() implies #[trigger] after[i].service@
        != #[trigger] after[j].service@ by {
        if j == entries.len() {
            assert(after[i] == entries[i]);
            assert(entries[i].service@ != entry.service@);
        } else {
            assert(after[i] == entries[i] && after[j] == entries[j]);
        }
    }
    let expected = entries_map(entries).insert(
        entry.service@,
        (entry.username@, entry.encrypted_secret@),
    );
    assert forall|service: Seq<char>| #[trigger]
        entries_map(after).dom().contains(service) <==> expected.dom().contains(service) by {
        if has_service(after, service) {
            let i = index_of(after, service);
            if i < entries.len() {
                assert(entries[i].service@ == service);
            }
        }
        if has_service(entries, service) {
            let i = index_of(entries, service);
            assert(after[i].service@ == service);
        }
        if service == entry.service@ {
            assert(after[entries.len() as int].service@ == service);
        }
    }
    assert forall|service: Seq<char>| #[trigger]
        entries_map(after).dom().contains(service) implies entries_map(after)[service]
        == expected[service] by {
        let i = index_of(after, service);
        lemma_index_of(after, i);
        if i < entries.len() {
            assert(after[i] == entries[i]);
            lemma_index_of(entries, i);
        }
    }
    assert(entries_map(after) =~= expected);
}

/// Replacing the entry for a service by another for the same service
/// overwrites it in the map.
proof fn lemma_replace(entries: Seq<Entry>, at: int, entry: Entry)
    requires
        distinct_services(entries),
        0 <= at < entries.len(),
        entries[at].service@ == entry.service@,
    ensures
        distinct_services(entries.update(at, entry)),
        entries_map(entries.update(at, entry)) == entries_map(entries).insert(
            entry.service@,
            (entry.username@, entry.encrypted_secret@),
        ),
{
    let after = entries.update(at, entry);
    assert forall|i: int, j: int| 0 <= i < j < after.len() implies #[trigger] after[i].service@
        != #[trigger] after[j].service@ by {
        assert(after[i].service@ == entries[i].service@);
        assert(after[j].service@ == entries[j].service@);
    }
    let expected = entries_map(entries).insert(
        entry.service@,
        (entry.username@, entry.encrypted_secret@),
    );
    assert forall|service: Seq<char>| #[trigger]
        entries_map(after).dom().contains(service) <==> expected.dom().contains(service) by {
        if has_service(after, service) {
            let i = index_of(after, service);
            assert(entries[i].service@ == service);
        }
        if has_service(entries, service) {
            let i = index_of(entries, service);
            assert(after[i].service@ == service);
        }
        if service == entry.service@ {
            assert(after[at].service@ == service);
        }
    }
    assert forall|service: Seq<char>| #[trigger]
        entries_map(after).dom().contains(service) implies entries_map(after)[service]
        == expected[service] by {
        let i = index_of(after, service);
        lemma_index_of(after, i);
        if i != at {
            assert(after[i] == entries[i]);
            lemma_index_of(entries, i);
        }
    }
    assert(entries_map(after) =~= expected);
}

/// Taking the entry for a service out removes the service from the map.
proof fn lemma_remove(entries: Seq<Entry>, at: int)
    requires
        distinct_services(entries),
        0 <= at < entries.len(),
    ensures
        distinct_services(entries.remove(at)),
        entries_map(entries.remove(at)) == entries_map(entries).remove(entries[at].service@),
{
    let after = entries.remove(at);
    let gone = entries[at].service@;
    assert forall|i: int| 0 <= i < after.len() implies #[trigger] after[i] == entries[if i < at {
        i
    } else {
        i + 1
    }] by {}
    assert forall|i: int, j: int| 0 <= i < j < after.len() implies #[trigger] after[i].service@
        != #[trigger] after[j].service@ by {
        let oi = if i < at { i } else { i + 1 };
        let oj = if j < at { j } else { j + 1 };
        assert(after[i] == entries[oi] && after[j] == entries[oj]);
        assert(entries[oi].service@ != entries[oj].service@);
    }
    let expected = entries_map(entries).remove(gone);
    assert forall|service: Seq<char>| #[trigger]
        entries_map(after).dom().contains(service) <==> expected.dom().contains(service) by {
        if has_service(after, service) {
            let i = index_of(after, service);
            let oi = if i < at { i } else { i + 1 };
            assert(after[i] == entries[oi]);
            assert(entries[oi].service@ == service);
            if service == gone {
                lemma_index_of(entries, oi);
                lemma_index_of(entries, at);
            }
        }
        if has_service(entries, service) && service != gone {
            let i = index_of(entries, service);
            let ni = if i < at { i } else { i - 1 };
            assert(after[ni] == entries[i]);
            assert(after[ni].service@ == service);
        }
    }
    assert forall|service: Seq<char>| #[trigger]
        entries_map(after).dom().contains(service) implies entries_map(after)[service]
        == expected[service] by {
        let i = index_of(after, service);
        lemma_index_of(after, i);
        let oi = if i < at { i } else { i + 1 };
        assert(after[i] == entries[oi]);
        lemma_index_of(entries, oi);
    }
    assert(entries_map(after) =~= expected);
}

impl View for PasswordManager {
    type V = VaultView;

    closed spec fn view(&self) -> VaultView {
        VaultView {
            master_password_hash: self.master_password_hash@,
            entries: entries_map(self.entries@),
        }
    }
}

/// Looks for the entry of `service`.
fn find_service(entries: &Vec<Entry>, service: &str) -> (found: Option<usize>)
    ensures
        match found {
            Some(i) => i < entries@.len() && entries@[i as int].service@ == service@,
            None => !has_service(entries@, service@),
        },
{
    let wanted = service.to_owned();
    let mut i: usize = 0;
    while i < entries.len()
        invariant
            i <= entries@.len(),
            wanted@ == service@,
            forall|j: int| 0 <= j < i ==> #[trigger] entries@[j].service@ != service@,
        decreases entries@.len() - i,
    {
        if entries[i].service == wanted {
            return Some(i);
        }
        i += 1;
    }
    None
}

impl PasswordManager {
    #[verifier::type_invariant]
    spec fn well_formed(self) -> bool {
        distinct_services(self.entries@)
    }

    /// A vault with the given hash of the master password and no entry.
    pub fn new(master_password: String) -> (manager: Self)
        ensures
            manager@.master_password_hash == master_password@,
            manager@.entries == Map::<Seq<char>, (Seq<char>, Seq<char>)>::empty(),
    {
        let manager = Self { master_password_hash: master_password, entries: Vec::new() };
        assert(manager@.entries =~= Map::<Seq<char>, (Seq<char>, Seq<char>)>::empty());
        manager
    }

    /// Tells whether the vault holds no entry at all.
    pub fn is_empty(&self) -> (res: bool)
        ensures
            res == (self@.entries == Map::<Seq<char>, (Seq<char>, Seq<char>)>::empty()),
    {
        let res = self.entries.len() == 0;
        proof {
            if res {
                assert(self@.entries =~= Map::<Seq<char>, (Seq<char>, Seq<char>)>::empty());
            } else {
                assert(has_service(self.entries@, self.entries@[0].service@));
                assert(self@.entries.contains_key(self.entries@[0].service@));
            }
        }
        res
    }

    /// Tells whether the vault holds an entry for `service`.
    pub fn contains(&self, service: &str) -> (res: bool)
        ensures
            res == self@.entries.contains_key(service@),
    {
        find_service(&self.entries, service).is_some()
    }

    /// Username and sealed secret of the entry for `service`.
    pub fn entry(&self, service: &str) -> (res: Option<(String, String)>)
        ensures
            match res {
                Some((username, encrypted_secret)) => {
                    &&& self@.entries.contains_key(service@)
                    &&& self@.entries[service@] == (username@, encrypted_secret@)
                },
                None => !self@.entries.contains_key(service@),
            },
    {
        proof {
            use_type_invariant(self);
        }
        match find_service(&self.entries, service) {
            Some(i) => {
                proof {
                    lemma_index_of(self.entries@, i as int);
                }
                Some((self.entries[i].username.clone(), self.entries[i].encrypted_secret.clone()))
            },
            None => None,
        }
    }

    /// Stores an entry for `service`, in place of the one it had, if any.
    pub fn insert_entry(&mut self, service: String, username: String, encrypted_secret: String)
        ensures
            final(self)@.master_password_hash == old(self)@.master_password_hash,
            final(self)@.entries == old(self)@.entries.insert(
                service@,
                (username@, encrypted_secret@),
            ),
    {
        proof {
            use_type_invariant(&*self);
        }
        let mut entries: Vec<Entry> = Vec::new();
        std::mem::swap(&mut entries, &mut self.entries);
        let found = find_service(&entries, service.as_str());
        let entry = Entry { service, username, encrypted_secret };
        match found {
            Some(i) => {
                proof {
                    lemma_replace(entries@, i as int, entry);
                }
                entries.set(i, entry);
            },
            None => {
                proof {
                    lemma_push(entries@, entry);
                }
                entries.push(entry);
            },
        }
        self.entries = entries;
    }

    /// Takes the entry for `service` out of the vault and returns its
    /// username and sealed secret, or `None` where there is none.
    pub fn remove_entry(&mut self, service: &str) -> (res: Option<(String, String)>)
        ensures
            final(self)@.master_password_hash == old(self)@.master_password_hash,
            final(self)@.entries == old(self)@.entries.remove(service@),
            match res {
                Some((username, encrypted_secret)) => {
                    &&& old(self)@.entries.contains_key(service@)
                    &&& old(self)@.entries[service@] == (username@, encrypted_secret@)
                },
                None => !old(self)@.entries.contains_key(service@),
            },
    {
        proof {
            use_type_invariant(&*self);
        }
        let mut entries: Vec<Entry> = Vec::new();
        std::mem::swap(&mut entries, &mut self.entries);
        let res = match find_service(&entries, service) {
            Some(i) => {
                proof {
                    lemma_index_of(entries@, i as int);
                    lemma_remove(entries@, i as int);
                }
                let entry = entries.remove(i);
                Some((entry.username, entry.encrypted_secret))
            },
            None => {
                assert(entries_map(entries@).remove(service@) =~= entries_map(entries@));
                None
            },
        };
        self.entries = entries;
        res
    }
}

/// The stored hash of the master password.
pub fn get_master_password(manager: &PasswordManager) -> (hash: String)
    ensures
        hash@ == manager@.master_password_hash,
{
    manager.master_password_hash.clone()
}

/// A new vault for `master_password`: it holds the hash of the password
/// under `salt` and no entry.
pub fn initialize(master_password: &str, salt: &[u8]) -> (manager: PasswordManager)
    requires
        digestible(master_password@),
        usable_salt(salt@),
    ensures
        is_master_hash(manager@.master_password_hash, master_password@, salt@),
        manager@.entries == Map::<Seq<char>, (Seq<char>, Seq<char>)>::empty(),
{
    let hash = hash_password(master_password, salt);
    PasswordManager::new(hash)
}

/// What looking `service` up in `vault` with the candidate master password
/// gives: the username and the decrypted password, or the first thing that
/// stands in the way. Whether the entry exists is settled before the
/// candidate is looked at; the secret is opened under the candidate.
pub open spec fn lookup(
    vault: VaultView,
    service: Seq<char>,
    candidate: Seq<char>,
    salt: Seq<u8>,
) -> Result<(Seq<char>, Seq<char>), VaultError> {
    if !vault.entries.contains_key(service) {
        Err(VaultError::EntryNotFound)
    } else if !master_hash_matches(vault.master_password_hash, candidate, salt) {
        Err(VaultError::MasterPasswordMismatch)
    } else {
        let (username, encrypted_secret) = vault.entries[service];
        match decryption_of(encrypted_secret, username, candidate) {
            Ok(password) => Ok((username, password)),
            Err(e) => Err(e),
        }
    }
}

/// `listed` names every entry of `entries` once, each service with its
/// username, in some order.
pub open spec fn lists(
    listed: Seq<(String, String)>,
    entries: Map<Seq<char>, (Seq<char>, Seq<char>)>,
) -> bool {
    &&& forall|i: int|
        0 <= i < listed.len() ==> entries.contains_key((#[trigger] listed[i]).0@)
            && entries[listed[i].0@].0 == listed[i].1@
    &&& forall|service: Seq<char>| #[trigger]
        entries.contains_key(service) ==> exists|i: int|
            0 <= i < listed.len() && (#[trigger] listed[i]).0@ == service
    &&& forall|i: int, j: int|
        0 <= i < j < listed.len() ==> (#[trigger] listed[i]).0@ != (#[trigger] listed[j]).0@
}

/// Seals `password` under `master_password` and stores it with `username`
/// as the entry for `service`, in place of the one it had. Where the entry
/// cannot be sealed the vault is unchanged.
fn seal_and_store(
    manager: &mut PasswordManager,
    service: &str,
    username: &str,
    password: &str,
    master_password: &str,
) -> (res: Result<(), VaultError>)
    ensures
        final(manager)@.master_password_hash == old(manager)@.master_password_hash,
        match res {
            Ok(_) => {
                let blob = final(manager)@.entries[service@].1;
                &&& can_encrypt(password@, username@, master_password@)
                &&& encrypts(blob, password@, username@, master_password@)
                &&& decryption_of(blob, username@, master_password@) == Ok::<
                    Seq<char>,
                    VaultError,
                >(password@)
                &&& blob != password@
                &&& final(manager)@.entries == old(manager)@.entries.insert(
                    service@,
                    (username@, blob),
                )
            },
            Err(e) => {
                &&& e == VaultError::EncryptionFailure
                &&& !can_encrypt(password@, username@, master_password@)
                &&& final(manager)@.entries == old(manager)@.entries
            },
        },
{
    match encrypt_password(password, username, master_password) {
        Ok(blob) => {
            manager.insert_entry(service.to_owned(), username.to_owned(), blob);
            Ok(())
        },
        Err(e) => Err(e),
    }
}

/// Stores `password` with `username` as the entry for `service`, in place
/// of the one it had, once `master_password` is accepted against the
/// stored hash. The password is sealed under the master password. On any
/// failure the vault is unchanged.
pub fn add_password_entry(
    manager: &mut PasswordManager,
    service: &str,
    username: &str,
    password: &str,
    master_password: &str,
    salt: &[u8],
) -> (res: Result<(), VaultError>)
    ensures
        final(manager)@.master_password_hash == old(manager)@.master_password_hash,
        match res {
            Ok(_) => {
                let blob = final(manager)@.entries[service@].1;
                &&& master_hash_matches(old(manager)@.master_password_hash, master_password@, salt@)
                &&& can_encrypt(password@, username@, master_password@)
                &&& encrypts(blob, password@, username@, master_password@)
                &&& decryption_of(blob, username@, master_password@) == Ok::<
                    Seq<char>,
                    VaultError,
                >(password@)
                &&& blob != password@
                &&& final(manager)@.entries == old(manager)@.entries.insert(
                    service@,
                    (username@, blob),
                )
            },
            Err(e) => {
                &&& final(manager)@.entries == old(manager)@.entries
                &&& e == if !master_hash_matches(
                    old(manager)@.master_password_hash,
                    master_password@,
                    salt@,
                ) {
                    VaultError::MasterPasswordMismatch
                } else {
                    VaultError::EncryptionFailure
                }
                &&& e == VaultError::EncryptionFailure ==> !can_encrypt(
                    password@,
                    username@,
                    master_password@,
                )
            },
        },
{
    let hash = get_master_password(manager);
    if !verify_master_password(hash.as_str(), master_password, salt) {
        return Err(VaultError::MasterPasswordMismatch);
    }
    seal_and_store(manager, service, username, password, master_password)
}

/// Looks up the entry for `service` and decrypts its secret under
/// `master_password`, once that is accepted against the stored hash.
/// Returns the username and the password.
pub fn get_password_entry(
    manager: &PasswordManager,
    service: &str,
    master_password: &str,
    salt: &[u8],
) -> (res: Result<(String, String), VaultError>)
    ensures
        match res {
            Ok((username, password)) => lookup(manager@, service@, master_password@, salt@) == Ok::<
                (Seq<char>, Seq<char>),
                VaultError,
            >((username@, password@)),
            Err(e) => lookup(manager@, service@, master_password@, salt@) == Err::<
                (Seq<char>, Seq<char>),
                VaultError,
            >(e),
        },
{
    let (username, encrypted_secret) = match manager.entry(service) {
        Some(found) => found,
        None => {
            return Err(VaultError::EntryNotFound);
        },
    };
    let hash = get_master_password(manager);
    if !verify_master_password(hash.as_str(), master_password, salt) {
        return Err(VaultError::MasterPasswordMismatch);
    }
    match decrypt_password(encrypted_secret.as_str(), username.as_str(), master_password) {
        Ok(password) => Ok((username, password)),
        Err(e) => Err(e),
    }
}

/// Deletes the entry for `service`, once `master_password` is accepted
/// against the stored hash. The candidate is checked before the entry is
/// looked for; on any failure the vault is unchanged.
pub fn delete_password_entry(
    manager: &mut PasswordManager,
    service: &str,
    master_password: &str,
    salt: &[u8],
) -> (res: Result<(), VaultError>)
    ensures
        final(manager)@.master_password_hash == old(manager)@.master_password_hash,
        match res {
            Ok(_) => {
                &&& master_hash_matches(old(manager)@.master_password_hash, master_password@, salt@)
                &&& old(manager)@.entries.contains_key(service@)
                &&& final(manager)@.entries == old(manager)@.entries.remove(service@)
            },
            Err(e) => {
                &&& final(manager)@.entries == old(manager)@.entries
                &&& e == if !master_hash_matches(
                    old(manager)@.master_password_hash,
                    master_password@,
                    salt@,
                ) {
                    VaultError::MasterPasswordMismatch
                } else {
                    VaultError::EntryNotFound
                }
                &&& e == VaultError::EntryNotFound ==> !old(manager)@.entries.contains_key(service@)
            },
        },
{
    let hash = get_master_password(manager);
    if !verify_master_password(hash.as_str(), master_password, salt) {
        return Err(VaultError::MasterPasswordMismatch);
    }
    match manager.remove_entry(service) {
        Some(_) => Ok(()),
        None => {
            assert(old(manager)@.entries.remove(service@) =~= old(manager)@.entries);
            Err(VaultError::EntryNotFound)
        },
    }
}

/// The services of the vault, each with its username, in some order.
pub fn list_password_entries(manager: &PasswordManager) -> (listed: Vec<(String, String)>)
    ensures
        lists(listed@, manager@.entries),
{
    proof {
        use_type_invariant(manager);
    }
    let mut listed: Vec<(String, String)> = Vec::new();
    let mut i: usize = 0;
    while i < manager.entries.len()
        invariant
            i <= manager.entries@.len(),
            listed@.len() == i,
            forall|j: int|
                0 <= j < i ==> (#[trigger] listed@[j]).0@ == manager.entries@[j].service@
                    && listed@[j].1@ == manager.entries@[j].username@,
        decreases manager.entries@.len() - i,
    {
        let entry = &manager.entries[i];
        listed.push((entry.service.clone(), entry.username.clone()));
        i += 1;
    }
    proof {
        let entries = manager.entries@;
        assert forall|j: int| 0 <= j < listed@.len() implies manager@.entries.contains_key(
            (#[trigger] listed@[j]).0@,
        ) && manager@.entries[listed@[j].0@].0 == listed@[j].1@ by {
            lemma_index_of(entries, j);
        }
        assert forall|service: Seq<char>| #[trigger]
            manager@.entries.contains_key(service) implies exists|j: int|
            0 <= j < listed@.len() && (#[trigger] listed@[j]).0@ == service by {
            let j = index_of(entries, service);
            assert(listed@[j].0@ == service);
        }
        assert forall|j: int, k: int| 0 <= j < k < listed@.len() implies (#[trigger] listed@[j]).0@
            != (#[trigger] listed@[k]).0@ by {
            assert(entries[j].service@ != entries[k].service@);
        }
    }
    listed
}

/// Changes the username, the password or both of the entry for `service`,
/// once `master_password` is accepted against the stored hash.
///
/// The stored secret is decrypted with the username it was stored under;
/// what is not given anew is kept, and the password is sealed again for
/// the username that results. On any failure the vault is unchanged.
pub fn update_password_entry(
    manager: &mut PasswordManager,
    service: &str,
    master_password: &str,
    salt: &[u8],
    new_username: Option<String>,
    new_password: Option<String>,
) -> (res: Result<(), VaultError>)
    ensures
        final(manager)@.master_password_hash == old(manager)@.master_password_hash,
        match lookup(old(manager)@, service@, master_password@, salt@) {
            Err(e) => res == Err::<(), VaultError>(e) && final(manager)@.entries == old(
                manager,
            )@.entries,
            Ok((current_username, current_password)) => {
                let username = match new_username {
                    Some(given) => given@,
                    None => current_username,
                };
                let password = match new_password {
                    Some(given) => given@,
                    None => current_password,
                };
                match res {
                    Ok(_) => {
                        let blob = final(manager)@.entries[service@].1;
                        &&& can_encrypt(password, username, master_password@)
                        &&& encrypts(blob, password, username, master_password@)
                        &&& decryption_of(blob, username, master_password@) == Ok::<
                            Seq<char>,
                            VaultError,
                        >(password)
                        &&& blob != password
                        &&& final(manager)@.entries == old(manager)@.entries.insert(
                            service@,
                            (username, blob),
                        )
                    },
                    Err(e) => {
                        &&& e == VaultError::EncryptionFailure
                        &&& !can_encrypt(password, username, master_password@)
                        &&& final(manager)@.entries == old(manager)@.entries
                    },
                }
            },
        },
{
    let (current_username, current_password) = match get_password_entry(
        manager,
        service,
        master_password,
        salt,
    ) {
        Ok(found) => found,
        Err(e) => {
            return Err(e);
        },
    };
    let updated_username = match new_username {
        Some(given) => given,
        None => current_username,
    };
    let updated_password = match new_password {
        Some(given) => given,
        None => current_password,
    };
    seal_and_store(
        manager,
        service,
        updated_username.as_str(),
        updated_password.as_str(),
        master_password,
    )
}

} // verus!
