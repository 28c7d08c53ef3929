use vstd::prelude::*;
use std::str::FromStr;

verus! {

/// The encryption algorithms a vault can be created with.
#[derive(Clone, Copy, Debug, PartialEq, Eq, Structural)]
pub enum Cipher {
    ChaCha20,
    Aes256Gcm,
}

/// The cipher that a client-supplied name stands for: the variant's name, exactly.
pub open spec fn cipher_from_name(s: Seq<char>) -> Option<Cipher> {
    if s == "ChaCha20"@ {
        Some(Cipher::ChaCha20)
    } else if s == "Aes256Gcm"@ {
        Some(Cipher::Aes256Gcm)
    } else {
        None
    }
}

/// Relies on rencfs's `Cipher::from_str` (strum's `EnumString` derive, with no
/// renaming): it accepts the name of a variant, exactly, and nothing else.
#[verifier::external_body]
fn rencfs_cipher_from_str(name: &str) -> (r: Option<Cipher>)
    ensures
        r == cipher_from_name(name@),
{
    match rencfs::encryptedfs::Cipher::from_str(name) {
        Ok(rencfs::encryptedfs::Cipher::ChaCha20) => Some(Cipher::ChaCha20),
        Ok(rencfs::encryptedfs::Cipher::Aes256Gcm) => Some(Cipher::Aes256Gcm),
        Err(_) => None,
    }
}

impl Cipher {
    /// Parses a cipher name as clients send it.
    pub fn parse(name: &str) -> (r: Option<Cipher>)
        ensures
            r == cipher_from_name(name@),
    {
        rencfs_cipher_from_str(name)
    }
}


/// Why a control operation on a vault was refused or failed.
#[derive(Clone, Copy, Debug, PartialEq, Eq, Structural)]
pub enum VaultHandlerError {
    /// The mount engine could not detach the vault's session; it stays unlocked.
    CannotLockVault,
    /// The mount engine could not attach a session for the vault.
    CannotUnlockVault,
    /// The mount point given as the current one is not the recorded one.
    CannotChangeMountPoint,
    /// The data directory given as the current one is not the recorded one.
    CannotChangeDataDir,
    /// The configuration document is absent.
    CannotFindConfigFile,
    /// The configuration document is malformed.
    CannotReadConfigFile,
    /// The configuration document could not be written.
    CannotSaveConfigFile,
    /// No vault has this id.
    UnknownVault,
    /// The vault is mounted, or an unlock or lock of it is in flight.
    VaultBusy,
    /// A lock was asked of a vault that is already locked.
    AlreadyLocked,
    /// Another vault that is not locked uses this mount point.
    MountPointInUse,
    /// Another vault that is not locked uses this data directory.
    DataDirInUse,
    /// The mount engine's probe rejected the new data directory.
    InvalidDataDir,
    /// The vault's password could not be fetched from the keyring.
    KeyringUnavailable,
    /// The mount engine rejected the vault's password.
    InvalidPassword,
    /// Every vault id has been handed out.
    IdsExhausted,
}

/// The per-vault lock states; `Unlocking` and `Locking` are the guard states
/// held while the mount engine works.
#[derive(Clone, Copy, Debug, PartialEq, Eq, Structural)]
pub enum LockState {
    Locked,
    Unlocking,
    Unlocked,
    Locking,
}

/// One live mount of a vault's decrypted view, known by the handle that the
/// mount engine gave it. It is never copied: exactly one runtime entry owns it.
#[derive(Debug)]
pub struct MountSession {
    pub handle: u64,
}

/// A durable vault definition, as stored in the configuration document.
#[derive(Debug)]
pub struct Vault {
    pub id: u64,
    pub name: String,
    pub mount_point: String,
    pub data_dir: String,
    pub locked: bool,
    pub cipher: Cipher,
    pub derive_key_hash_rounds: u32,
}

impl Vault {
    pub open spec fn with_locked(self, locked: bool) -> Vault {
        Vault { locked, ..self }
    }

    pub open spec fn with_id(self, id: u64) -> Vault {
        Vault { id, ..self }
    }

    /// An exact copy of the record.
    pub fn duplicate(&self) -> (r: Vault)
        ensures
            r == *self,
    {
        Vault {
            id: self.id,
            name: self.name.clone(),
            mount_point: self.mount_point.clone(),
            data_dir: self.data_dir.clone(),
            locked: self.locked,
            cipher: self.cipher,
            derive_key_hash_rounds: self.derive_key_hash_rounds,
        }
    }
}

/// The durable document: the ordered list of vault records.
#[derive(Debug)]
pub struct Config {
    pub vaults: Vec<Vault>,
}

impl Config {
    pub fn new() -> (r: Self)
        ensures
            r.vaults@ == Seq::<Vault>::empty(),
    {
        Config { vaults: Vec::new() }
    }
}

/// The runtime entry of one vault: its lock state and, while it is unlocked,
/// its mount session.
#[derive(Debug)]
pub struct VaultHandler {
    pub id: u64,
    pub state: LockState,
    pub session: Option<MountSession>,
}

impl VaultHandler {
    /// The entry a vault gets when it is first referenced: locked, no session.
    pub fn new(id: u64) -> (r: Self)
        ensures
            r.id == id,
            r.state == LockState::Locked,
            r.session is None,
    {
        VaultHandler { id, state: LockState::Locked, session: None }
    }

    /// A session is held exactly while the vault is unlocked or being locked:
    /// it is released only once the mount engine has detached it.
    pub open spec fn wf(self) -> bool {
        (self.session is Some) == (self.state == LockState::Unlocked || self.state == LockState::Locking)
    }
}

/// A vault record together with its runtime entry, which is absent until the
/// vault is first referenced by an operation.
#[derive(Debug)]
pub struct VaultSlot {
    pub vault: Vault,
    pub handler: Option<VaultHandler>,
}

impl VaultSlot {
    /// The slot's lock state; a vault never referenced yet is locked.
    pub open spec fn state(self) -> LockState {
        match self.handler {
            Some(h) => h.state,
            None => LockState::Locked,
        }
    }

    /// The handle of the slot's mount session, if it has one.
    pub open spec fn session_handle(self) -> Option<u64> {
        match self.handler {
            Some(h) => match h.session {
                Some(s) => Some(s.handle),
                None => None,
            },
            None => None,
        }
    }

    /// The slot with a runtime entry in the given state, the record's
    /// `locked` mirror set as given.
    pub open spec fn moved_to(self, state: LockState, session: Option<MountSession>, locked: bool) -> VaultSlot {
        VaultSlot {
            vault: self.vault.with_locked(locked),
            handler: Some(VaultHandler { id: self.vault.id, state, session }),
        }
    }

    pub open spec fn wf(self) -> bool {
        match self.handler {
            Some(h) => h.id == self.vault.id && h.wf(),
            None => true,
        }
    }
}

/// What the mount engine needs to unlock a vault.
#[derive(Debug)]
pub struct UnlockPlan {
    pub id: u64,
    pub mount_point: String,
    pub data_dir: String,
    pub cipher: Cipher,
    pub derive_key_hash_rounds: u32,
}

/// Why an unlock attempt failed on the collaborators' side.
#[derive(Clone, Copy, Debug, PartialEq, Eq, Structural)]
pub enum UnlockFailure {
    /// The password could not be fetched from the keyring.
    Keyring,
    /// The mount engine rejected the password.
    BadPassword,
    /// The mount engine could not attach (path conflict, I/O, OS failure).
    Mount,
}

/// The error that an unlock failure of the collaborators is reported as.
pub open spec fn unlock_failure_error(f: UnlockFailure) -> VaultHandlerError {
    match f {
        UnlockFailure::Keyring => VaultHandlerError::KeyringUnavailable,
        UnlockFailure::BadPassword => VaultHandlerError::InvalidPassword,
        UnlockFailure::Mount => VaultHandlerError::CannotUnlockVault,
    }
}

/// The vault lifecycle manager: every vault record with its runtime entry,
/// and the next id to hand out.
pub struct VaultHandlerService {
    slots: Vec<VaultSlot>,
    next_id: u64,
}

/// No two records share an id.
pub open spec fn unique_ids(vs: Seq<Vault>) -> bool {
    forall|i: int, j: int| 0 <= i < vs.len() && 0 <= j < vs.len() && i != j ==> vs[i].id != vs[j].id
}

/// The records of the slots, in order.
pub open spec fn records_of(slots: Seq<VaultSlot>) -> Seq<Vault> {
    Seq::new(slots.len(), |i: int| slots[i].vault)
}

/// Whether a slot other than that of `id`, whose vault is not locked, uses
/// `mp` as its mount point.
pub open spec fn mount_point_taken(slots: Seq<VaultSlot>, id: u64, mp: Seq<char>) -> bool {
    exists|i: int|
        0 <= i < slots.len() && slots[i].vault.id != id && slots[i].state() != LockState::Locked
            && #[trigger] slots[i].vault.mount_point@ == mp
}

/// Whether a slot other than that of `id`, whose vault is not locked, uses
/// `dir` as its data directory.
pub open spec fn data_dir_taken(slots: Seq<VaultSlot>, id: u64, dir: Seq<char>) -> bool {
    exists|i: int|
        0 <= i < slots.len() && slots[i].vault.id != id && slots[i].state() != LockState::Locked
            && #[trigger] slots[i].vault.data_dir@ == dir
}

/// Whether a loaded document can stand as the set of vaults: no two records
/// share an id, and no record holds the largest id, so that fresh ids remain.
pub open spec fn loadable(vs: Seq<Vault>) -> bool {
    &&& unique_ids(vs)
    &&& forall|i: int| 0 <= i < vs.len() ==> #[trigger] vs[i].id < u64::MAX
}

impl View for VaultHandlerService {
    type V = Seq<VaultSlot>;

    closed spec fn view(&self) -> Seq<VaultSlot> {
        self.slots@
    }
}

impl VaultHandlerService {
    /// The id that the next inserted vault gets.
    pub closed spec fn next_id(&self) -> u64 {
        self.next_id
    }

    pub closed spec fn wf(&self) -> bool {
        &&& unique_ids(records_of(self.slots@))
        &&& forall|i: int| 0 <= i < self.slots@.len() ==> #[trigger] self.slots@[i].wf()
        &&& forall|i: int| 0 <= i < self.slots@.len() ==> #[trigger] self.slots@[i].vault.id < self.next_id
    }

    /// Whether a vault has this id.
    pub open spec fn known(&self, id: u64) -> bool {
        exists|i: int| 0 <= i < self@.len() && #[trigger] self@[i].vault.id == id
    }

    /// The position of the vault with this id.
    pub open spec fn index_of(&self, id: u64) -> int {
        choose|i: int| 0 <= i < self@.len() && #[trigger] self@[i].vault.id == id
    }

    /// The lock state of a vault; one never referenced is locked.
    pub open spec fn state_of(&self, id: u64) -> LockState {
        if self.known(id) {
            self@[self.index_of(id)].state()
        } else {
            LockState::Locked
        }
    }

    /// The durable records, in order.
    pub open spec fn records(&self) -> Seq<Vault> {
        records_of(self@)
    }

    proof fn lemma_index_of(&self, id: u64, k: int)
        requires
            self.wf(),
            0 <= k < self@.len(),
            self@[k].vault.id == id,
        ensures
            self.known(id),
            self.index_of(id) == k,
    {
        assert(self@[k].vault.id == id);
        let i = self.index_of(id);
        assert(records_of(self.slots@)[i].id == records_of(self.slots@)[k].id);
    }

    /// The position of the vault with this id, if there is one.
    fn find(&self, id: u64) -> (r: Option<usize>)
        requires
            self.wf(),
        ensures
            r is None <==> !self.known(id),
            r matches Some(k) ==> k < self@.len() && k == self.index_of(id),
    {
        let mut i: usize = 0;
        while i < self.slots.len()
            invariant
                self.wf(),
                i <= self.slots@.len(),
                forall|j: int| 0 <= j < i ==> self.slots@[j].vault.id != id,
            decreases self.slots@.len() - i,
        {
            if self.slots[i].vault.id == id {
                proof {
                    self.lemma_index_of(id, i as int);
                }
                return Some(i);
            }
            i = i + 1;
        }
        None
    }

    /// The lock state of the slot at `idx`.
    fn slot_state(&self, idx: usize) -> (r: LockState)
        requires
            idx < self@.len(),
        ensures
            r == self@[idx as int].state(),
    {
        match &self.slots[idx].handler {
            Some(h) => h.state,
            None => LockState::Locked,
        }
    }

    /// Whether a vault other than `id`, not locked, is mounted or being
    /// mounted at `mp`.
    fn mount_point_in_use(&self, id: u64, mp: &String) -> (r: bool)
        ensures
            r == mount_point_taken(self@, id, mp@),
    {
        let mut j: usize = 0;
        while j < self.slots.len()
            invariant
                j <= self@.len(),
                forall|k: int|
                    0 <= k < j ==> !(self@[k].vault.id != id && self@[k].state() != LockState::Locked
                        && #[trigger] self@[k].vault.mount_point@ == mp@),
            decreases self@.len() - j,
        {
            if self.slots[j].vault.id != id && self.slot_state(j) != LockState::Locked
                && self.slots[j].vault.mount_point == *mp {
                return true;
            }
            j = j + 1;
        }
        false
    }

    /// Whether a vault other than `id`, not locked, uses `dir` as its data
    /// directory.
    fn data_dir_in_use(&self, id: u64, dir: &String) -> (r: bool)
        ensures
            r == data_dir_taken(self@, id, dir@),
    {
        let mut j: usize = 0;
        while j < self.slots.len()
            invariant
                j <= self@.len(),
                forall|k: int|
                    0 <= k < j ==> !(self@[k].vault.id != id && self@[k].state() != LockState::Locked
                        && #[trigger] self@[k].vault.data_dir@ == dir@),
            decreases self@.len() - j,
        {
            if self.slots[j].vault.id != id && self.slot_state(j) != LockState::Locked
                && self.slots[j].vault.data_dir == *dir {
                return true;
            }
            j = j + 1;
        }
        false
    }

    /// Gives the slot at `idx` a fresh runtime entry in `state` holding
    /// `session`, and sets the record's `locked` mirror.
    fn move_to(&mut self, idx: usize, state: LockState, session: Option<MountSession>, locked: bool)
        requires
            old(self).wf(),
            idx < old(self)@.len(),
            (session is Some) == (state == LockState::Unlocked || state == LockState::Locking),
        ensures
            final(self).wf(),
            final(self).next_id() == old(self).next_id(),
            final(self)@ == old(self)@.update(idx as int, old(self)@[idx as int].moved_to(state, session, locked)),
    {
        let id = self.slots[idx].vault.id;
        let mut vault = self.slots[idx].vault.duplicate();
        vault.locked = locked;
        self.slots.set(idx, VaultSlot { vault, handler: Some(VaultHandler { id, state, session }) });
        proof {
            assert(forall|i: int| 0 <= i < self@.len() ==> #[trigger] records_of(self@)[i].id == records_of(old(self)@)[i].id);
        }
    }

    /// Moves the slot at `idx` between `Unlocked` and `Locking`, keeping its
    /// session where it is.
    fn flip_locking(&mut self, idx: usize, state: LockState)
        requires
            old(self).wf(),
            idx < old(self)@.len(),
            old(self)@[idx as int].state() == LockState::Unlocked || old(self)@[idx as int].state() == LockState::Locking,
            state == LockState::Unlocked || state == LockState::Locking,
        ensures
            final(self).wf(),
            final(self).next_id() == old(self).next_id(),
            final(self)@.len() == old(self)@.len(),
            final(self)@[idx as int].vault == old(self)@[idx as int].vault,
            final(self)@[idx as int].state() == state,
            final(self)@[idx as int].session_handle() == old(self)@[idx as int].session_handle(),
            forall|i: int| 0 <= i < old(self)@.len() && i != idx ==> final(self)@[i] == old(self)@[i],
    {
        match &mut self.slots[idx].handler {
            Some(h) => {
                h.state = state;
            },
            None => {},
        }
        proof {
            assert(old(self)@[idx as int].wf());
            assert(self@[idx as int].wf());
            assert(forall|i: int| 0 <= i < self@.len() && i != idx ==> self@[i] == old(self)@[i]);
            assert(forall|i: int| 0 <= i < self@.len() ==> #[trigger] self@[i].wf());
            assert(forall|i: int| 0 <= i < self@.len() ==> #[trigger] records_of(self@)[i].id == records_of(old(self)@)[i].id);
        }
    }

    /// Starts unlocking vault `id`: checks and sets its guard in one step.
    /// On success the vault is `Unlocking` and the caller gets what the
    /// keyring and the mount engine need; it must then report the outcome
    /// with `finish_unlock`.
    pub fn begin_unlock(&mut self, id: u64) -> (r: Result<UnlockPlan, VaultHandlerError>)
        requires
            old(self).wf(),
        ensures
            final(self).wf(),
            final(self).next_id() == old(self).next_id(),
            !old(self).known(id) ==> r == Err::<UnlockPlan, VaultHandlerError>(VaultHandlerError::UnknownVault),
            old(self).known(id) ==> ({
                let slot = old(self)@[old(self).index_of(id)];
                &&& slot.state() != LockState::Locked ==> r == Err::<UnlockPlan, VaultHandlerError>(
                    VaultHandlerError::VaultBusy,
                )
                &&& slot.state() == LockState::Locked && mount_point_taken(old(self)@, id, slot.vault.mount_point@)
                    ==> r == Err::<UnlockPlan, VaultHandlerError>(VaultHandlerError::MountPointInUse)
                &&& slot.state() == LockState::Locked && !mount_point_taken(old(self)@, id, slot.vault.mount_point@)
                    && data_dir_taken(old(self)@, id, slot.vault.data_dir@) ==> r == Err::<
                    UnlockPlan,
                    VaultHandlerError,
                >(VaultHandlerError::DataDirInUse)
                &&& slot.state() == LockState::Locked && !mount_point_taken(old(self)@, id, slot.vault.mount_point@)
                    && !data_dir_taken(old(self)@, id, slot.vault.data_dir@) ==> r is Ok
            }),
            r matches Ok(plan) ==> ({
                let i = old(self).index_of(id);
                let slot = old(self)@[i];
                &&& plan.id == id
                &&& plan.mount_point@ == slot.vault.mount_point@
                &&& plan.data_dir@ == slot.vault.data_dir@
                &&& plan.cipher == slot.vault.cipher
                &&& plan.derive_key_hash_rounds == slot.vault.derive_key_hash_rounds
                &&& final(self)@ == old(self)@.update(i, slot.moved_to(LockState::Unlocking, None, slot.vault.locked))
            }),
            r is Err ==> final(self)@ == old(self)@,
    {
        let idx = match self.find(id) {
            Some(k) => k,
            None => {
                return Err(VaultHandlerError::UnknownVault);
            },
        };
        if self.slot_state(idx) != LockState::Locked {
            return Err(VaultHandlerError::VaultBusy);
        }
        if self.mount_point_in_use(id, &self.slots[idx].vault.mount_point) {
            return Err(VaultHandlerError::MountPointInUse);
        }
        if self.data_dir_in_use(id, &self.slots[idx].vault.data_dir) {
            return Err(VaultHandlerError::DataDirInUse);
        }
        let plan = UnlockPlan {
            id,
            mount_point: self.slots[idx].vault.mount_point.clone(),
            data_dir: self.slots[idx].vault.data_dir.clone(),
            cipher: self.slots[idx].vault.cipher,
            derive_key_hash_rounds: self.slots[idx].vault.derive_key_hash_rounds,
        };
        let locked = self.slots[idx].vault.locked;
        self.move_to(idx, LockState::Unlocking, None, locked);
        Ok(plan)
    }

    /// Ends the unlock of vault `id` with what the keyring and the mount
    /// engine did: on a session the vault becomes `Unlocked` and its record
    /// unlocked; on a failure it goes back to `Locked`, record untouched, and
    /// the failure is reported as its own error kind.
    pub fn finish_unlock(&mut self, id: u64, outcome: Result<MountSession, UnlockFailure>) -> (r: Result<
        (),
        VaultHandlerError,
    >)
        requires
            old(self).wf(),
            old(self).known(id),
            old(self).state_of(id) == LockState::Unlocking,
        ensures
            final(self).wf(),
            final(self).next_id() == old(self).next_id(),
            ({
                let i = old(self).index_of(id);
                let slot = old(self)@[i];
                match outcome {
                    Ok(session) => r is Ok && final(self)@ == old(self)@.update(
                        i,
                        slot.moved_to(LockState::Unlocked, Some(session), false),
                    ),
                    Err(f) => r == Err::<(), VaultHandlerError>(unlock_failure_error(f)) && final(self)@
                        == old(self)@.update(i, slot.moved_to(LockState::Locked, None, slot.vault.locked)),
                }
            }),
    {
        let idx = match self.find(id) {
            Some(k) => k,
            None => {
                return Err(VaultHandlerError::UnknownVault);
            },
        };
        match outcome {
            Ok(session) => {
                self.move_to(idx, LockState::Unlocked, Some(session), false);
                Ok(())
            },
            Err(f) => {
                let locked = self.slots[idx].vault.locked;
                self.move_to(idx, LockState::Locked, None, locked);
                let e = match f {
                    UnlockFailure::Keyring => VaultHandlerError::KeyringUnavailable,
                    UnlockFailure::BadPassword => VaultHandlerError::InvalidPassword,
                    UnlockFailure::Mount => VaultHandlerError::CannotUnlockVault,
                };
                Err(e)
            },
        }
    }

    /// Starts locking vault `id`: checks and sets its guard in one step. On
    /// success the vault is `Locking`, still holding its session, whose handle
    /// is returned for the mount engine to detach; the caller must then report
    /// the outcome with `finish_lock`.
    pub fn begin_lock(&mut self, id: u64) -> (r: Result<u64, VaultHandlerError>)
        requires
            old(self).wf(),
        ensures
            final(self).wf(),
            final(self).next_id() == old(self).next_id(),
            !old(self).known(id) ==> r == Err::<u64, VaultHandlerError>(VaultHandlerError::UnknownVault),
            old(self).known(id) ==> ({
                let slot = old(self)@[old(self).index_of(id)];
                &&& slot.state() == LockState::Locked ==> r == Err::<u64, VaultHandlerError>(
                    VaultHandlerError::AlreadyLocked,
                )
                &&& (slot.state() == LockState::Unlocking || slot.state() == LockState::Locking) ==> r == Err::<
                    u64,
                    VaultHandlerError,
                >(VaultHandlerError::VaultBusy)
                &&& slot.state() == LockState::Unlocked ==> r == Ok::<u64, VaultHandlerError>(
                    slot.session_handle().unwrap(),
                )
            }),
            r is Ok ==> ({
                let i = old(self).index_of(id);
                &&& final(self)@.len() == old(self)@.len()
                &&& final(self)@[i].vault == old(self)@[i].vault
                &&& final(self)@[i].state() == LockState::Locking
                &&& final(self)@[i].session_handle() == old(self)@[i].session_handle()
                &&& forall|j: int| 0 <= j < old(self)@.len() && j != i ==> final(self)@[j] == old(self)@[j]
            }),
            r is Err ==> final(self)@ == old(self)@,
    {
        let idx = match self.find(id) {
            Some(k) => k,
            None => {
                return Err(VaultHandlerError::UnknownVault);
            },
        };
        let state = self.slot_state(idx);
        if state == LockState::Locked {
            return Err(VaultHandlerError::AlreadyLocked);
        }
        if state != LockState::Unlocked {
            return Err(VaultHandlerError::VaultBusy);
        }
        proof {
            assert(self@[idx as int].wf());
        }
        let handle = match &self.slots[idx].handler {
            Some(h) => match &h.session {
                Some(s) => s.handle,
                None => 0,
            },
            None => 0,
        };
        self.flip_locking(idx, LockState::Locking);
        Ok(handle)
    }

    /// Ends the lock of vault `id` with whether the mount engine detached its
    /// session: if it did, the session is released and the vault is `Locked`
    /// with its record locked; if not, it stays `Unlocked` with its session.
    pub fn finish_lock(&mut self, id: u64, detached: bool) -> (r: Result<(), VaultHandlerError>)
        requires
            old(self).wf(),
            old(self).known(id),
            old(self).state_of(id) == LockState::Locking,
        ensures
            final(self).wf(),
            final(self).next_id() == old(self).next_id(),
            ({
                let i = old(self).index_of(id);
                let slot = old(self)@[i];
                if detached {
                    r is Ok && final(self)@ == old(self)@.update(i, slot.moved_to(LockState::Locked, None, true))
                } else {
                    &&& r == Err::<(), VaultHandlerError>(VaultHandlerError::CannotLockVault)
                    &&& final(self)@.len() == old(self)@.len()
                    &&& final(self)@[i].vault == slot.vault
                    &&& final(self)@[i].state() == LockState::Unlocked
                    &&& final(self)@[i].session_handle() == slot.session_handle()
                    &&& forall|j: int| 0 <= j < old(self)@.len() && j != i ==> final(self)@[j] == old(self)@[j]
                }
            }),
    {
        let idx = match self.find(id) {
            Some(k) => k,
            None => {
                return Err(VaultHandlerError::UnknownVault);
            },
        };
        if detached {
            self.move_to(idx, LockState::Locked, None, true);
            Ok(())
        } else {
            self.flip_locking(idx, LockState::Unlocked);
            Err(VaultHandlerError::CannotLockVault)
        }
    }

    /// Moves the recorded mount point of vault `id` from `old_mount_point` to
    /// `new_mount_point`. The vault must be locked, `old_mount_point` must be
    /// the recorded one, and no other vault that is not locked may use
    /// `new_mount_point`.
    pub fn change_mount_point(&mut self, id: u64, old_mount_point: String, new_mount_point: String) -> (r: Result<
        (),
        VaultHandlerError,
    >)
        requires
            old(self).wf(),
        ensures
            final(self).wf(),
            final(self).next_id() == old(self).next_id(),
            !old(self).known(id) ==> r == Err::<(), VaultHandlerError>(VaultHandlerError::UnknownVault),
            old(self).known(id) ==> ({
                let slot = old(self)@[old(self).index_of(id)];
                &&& slot.state() != LockState::Locked ==> r == Err::<(), VaultHandlerError>(
                    VaultHandlerError::VaultBusy,
                )
                &&& slot.state() == LockState::Locked && slot.vault.mount_point@ != old_mount_point@ ==> r == Err::<
                    (),
                    VaultHandlerError,
                >(VaultHandlerError::CannotChangeMountPoint)
                &&& slot.state() == LockState::Locked && slot.vault.mount_point@ == old_mount_point@
                    && mount_point_taken(old(self)@, id, new_mount_point@) ==> r == Err::<(), VaultHandlerError>(
                    VaultHandlerError::MountPointInUse,
                )
                &&& slot.state() == LockState::Locked && slot.vault.mount_point@ == old_mount_point@
                    && !mount_point_taken(old(self)@, id, new_mount_point@) ==> r is Ok
            }),
            r is Ok ==> ({
                let i = old(self).index_of(id);
                let slot = old(self)@[i];
                final(self)@ == old(self)@.update(
                    i,
                    VaultSlot { vault: Vault { mount_point: new_mount_point, ..slot.vault }, ..slot },
                )
            }),
            r is Err ==> final(self)@ == old(self)@,
    {
        let idx = match self.find(id) {
            Some(k) => k,
            None => {
                return Err(VaultHandlerError::UnknownVault);
            },
        };
        if self.slot_state(idx) != LockState::Locked {
            return Err(VaultHandlerError::VaultBusy);
        }
        if self.slots[idx].vault.mount_point != old_mount_point {
            return Err(VaultHandlerError::CannotChangeMountPoint);
        }
        if self.mount_point_in_use(id, &new_mount_point) {
            return Err(VaultHandlerError::MountPointInUse);
        }
        proof {
            assert(self@[idx as int].wf());
        }
        self.slots[idx].vault.mount_point = new_mount_point;
        proof {
            assert(self@[idx as int].handler == old(self)@[idx as int].handler);
            assert(self@[idx as int].wf());
            assert(forall|i: int| 0 <= i < self@.len() ==> #[trigger] self@[i].wf());
            assert(forall|i: int| 0 <= i < self@.len() ==> #[trigger] records_of(self@)[i].id == records_of(old(self)@)[i].id);
        }
        Ok(())
    }

    /// Moves the recorded data directory of vault `id` from `old_data_dir` to
    /// `new_data_dir`. The vault must be locked, `old_data_dir` must be the
    /// recorded one, no other vault that is not locked may use `new_data_dir`,
    /// and the mount engine's probe of `new_data_dir` must have accepted it
    /// (`new_dir_valid`).
    pub fn change_data_dir(&mut self, id: u64, old_data_dir: String, new_data_dir: String, new_dir_valid: bool) -> (r:
        Result<(), VaultHandlerError>)
        requires
            old(self).wf(),
        ensures
            final(self).wf(),
            final(self).next_id() == old(self).next_id(),
            !old(self).known(id) ==> r == Err::<(), VaultHandlerError>(VaultHandlerError::UnknownVault),
            old(self).known(id) ==> ({
                let slot = old(self)@[old(self).index_of(id)];
                &&& slot.state() != LockState::Locked ==> r == Err::<(), VaultHandlerError>(
                    VaultHandlerError::VaultBusy,
                )
                &&& slot.state() == LockState::Locked && slot.vault.data_dir@ != old_data_dir@ ==> r == Err::<
                    (),
                    VaultHandlerError,
                >(VaultHandlerError::CannotChangeDataDir)
                &&& slot.state() == LockState::Locked && slot.vault.data_dir@ == old_data_dir@ && data_dir_taken(
                    old(self)@,
                    id,
                    new_data_dir@,
                ) ==> r == Err::<(), VaultHandlerError>(VaultHandlerError::DataDirInUse)
                &&& slot.state() == LockState::Locked && slot.vault.data_dir@ == old_data_dir@ && !data_dir_taken(
                    old(self)@,
                    id,
                    new_data_dir@,
                ) && !new_dir_valid ==> r == Err::<(), VaultHandlerError>(VaultHandlerError::InvalidDataDir)
                &&& slot.state() == LockState::Locked && slot.vault.data_dir@ == old_data_dir@ && !data_dir_taken(
                    old(self)@,
                    id,
                    new_data_dir@,
                ) && new_dir_valid ==> r is Ok
            }),
            r is Ok ==> ({
                let i = old(self).index_of(id);
                let slot = old(self)@[i];
                final(self)@ == old(self)@.update(
                    i,
                    VaultSlot { vault: Vault { data_dir: new_data_dir, ..slot.vault }, ..slot },
                )
            }),
            r is Err ==> final(self)@ == old(self)@,
    {
        let idx = match self.find(id) {
            Some(k) => k,
            None => {
                return Err(VaultHandlerError::UnknownVault);
            },
        };
        if self.slot_state(idx) != LockState::Locked {
            return Err(VaultHandlerError::VaultBusy);
        }
        if self.slots[idx].vault.data_dir != old_data_dir {
            return Err(VaultHandlerError::CannotChangeDataDir);
        }
        if self.data_dir_in_use(id, &new_data_dir) {
            return Err(VaultHandlerError::DataDirInUse);
        }
        if !new_dir_valid {
            return Err(VaultHandlerError::InvalidDataDir);
        }
        proof {
            assert(self@[idx as int].wf());
        }
        self.slots[idx].vault.data_dir = new_data_dir;
        proof {
            assert(self@[idx as int].handler == old(self)@[idx as int].handler);
            assert(self@[idx as int].wf());
            assert(forall|i: int| 0 <= i < self@.len() ==> #[trigger] self@[i].wf());
            assert(forall|i: int| 0 <= i < self@.len() ==> #[trigger] records_of(self@)[i].id == records_of(old(self)@)[i].id);
        }
        Ok(())
    }

    /// Adds `vault` under a fresh id, which is returned, with its record
    /// locked and a runtime entry in state `Locked`. The id and `locked`
    /// given with `vault` are ignored.
    pub fn insert(&mut self, vault: Vault) -> (r: Result<u64, VaultHandlerError>)
        requires
            old(self).wf(),
        ensures
            final(self).wf(),
            old(self).next_id() == u64::MAX ==> r == Err::<u64, VaultHandlerError>(VaultHandlerError::IdsExhausted)
                && final(self)@ == old(self)@ && final(self).next_id() == old(self).next_id(),
            old(self).next_id() < u64::MAX ==> ({
                let id = old(self).next_id();
                &&& r == Ok::<u64, VaultHandlerError>(id)
                &&& !old(self).known(id)
                &&& final(self).next_id() == id + 1
                &&& final(self)@ == old(self)@.push(
                    VaultSlot {
                        vault: vault.with_id(id).with_locked(true),
                        handler: Some(VaultHandler { id, state: LockState::Locked, session: None }),
                    },
                )
            }),
    {
        if self.next_id == u64::MAX {
            return Err(VaultHandlerError::IdsExhausted);
        }
        let id = self.next_id;
        let mut vault = vault;
        vault.id = id;
        vault.locked = true;
        self.slots.push(VaultSlot { vault, handler: Some(VaultHandler::new(id)) });
        self.next_id = id + 1;
        proof {
            let n = old(self)@.len();
            assert(forall|i: int| 0 <= i < n ==> #[trigger] self@[i] == old(self)@[i]);
            assert(forall|i: int| 0 <= i < n ==> #[trigger] records_of(self@)[i].id == records_of(old(self)@)[i].id);
            assert(forall|i: int| 0 <= i < n ==> #[trigger] old(self)@[i].vault.id < id);
            assert(forall|i: int| 0 <= i < self@.len() ==> #[trigger] self@[i].wf());
            assert(unique_ids(records_of(self@)));
        }
        Ok(id)
    }

    /// Removes vault `id`, record and runtime entry. The vault must be locked.
    pub fn delete(&mut self, id: u64) -> (r: Result<(), VaultHandlerError>)
        requires
            old(self).wf(),
        ensures
            final(self).wf(),
            final(self).next_id() == old(self).next_id(),
            !old(self).known(id) ==> r == Err::<(), VaultHandlerError>(VaultHandlerError::UnknownVault),
            old(self).known(id) ==> ({
                let slot = old(self)@[old(self).index_of(id)];
                &&& slot.state() != LockState::Locked ==> r == Err::<(), VaultHandlerError>(
                    VaultHandlerError::VaultBusy,
                )
                &&& slot.state() == LockState::Locked ==> r is Ok
            }),
            r is Ok ==> final(self)@ == old(self)@.remove(old(self).index_of(id)) && !final(self).known(id),
            r is Err ==> final(self)@ == old(self)@,
    {
        let idx = match self.find(id) {
            Some(k) => k,
            None => {
                return Err(VaultHandlerError::UnknownVault);
            },
        };
        if self.slot_state(idx) != LockState::Locked {
            return Err(VaultHandlerError::VaultBusy);
        }
        let _removed = self.slots.remove(idx);
        proof {
            let i = idx as int;
            assert(forall|k: int| 0 <= k < i ==> #[trigger] self@[k] == old(self)@[k]);
            assert(forall|k: int| i <= k < self@.len() ==> #[trigger] self@[k] == old(self)@[k + 1]);
            assert(forall|k: int| 0 <= k < self@.len() ==> #[trigger] self@[k].wf());
            assert(forall|k: int| 0 <= k < self@.len() ==> #[trigger] records_of(self@)[k].id == records_of(old(self)@)[if k < i { k } else { k + 1 }].id);
            assert(unique_ids(records_of(self@)));
            if self.known(id) {
                let j = self.index_of(id);
                assert(records_of(old(self)@)[if j < i { j } else { j + 1 }].id == id);
                assert(records_of(old(self)@)[i].id == id);
            }
        }
        Ok(())
    }

    /// The manager for the vaults of a loaded document: every record in
    /// order, none referenced yet, so every vault starts `Locked`. A document
    /// that is not `loadable` is refused as malformed.
    pub fn new(config: Config) -> (r: Result<Self, VaultHandlerError>)
        ensures
            r is Ok <==> loadable(config.vaults@),
            r matches Err(e) ==> e == VaultHandlerError::CannotReadConfigFile,
            r matches Ok(m) ==> ({
                &&& m.wf()
                &&& m.records() == config.vaults@
                &&& forall|i: int| 0 <= i < m@.len() ==> (#[trigger] m@[i]).handler is None
            }),
    {
        let mut m = VaultHandlerService { slots: Vec::new(), next_id: 0 };
        let mut i: usize = 0;
        while i < config.vaults.len()
            invariant
                m.wf(),
                i <= config.vaults@.len(),
                m@.len() == i,
                forall|k: int| 0 <= k < i ==> (#[trigger] m@[k]).vault == config.vaults@[k] && m@[k].handler is None,
                loadable(config.vaults@.subrange(0, i as int)),
            decreases config.vaults@.len() - i,
        {
            let v = config.vaults[i].duplicate();
            if v.id == u64::MAX {
                proof {
                    assert(config.vaults@[i as int].id == u64::MAX);
                }
                return Err(VaultHandlerError::CannotReadConfigFile);
            }
            match m.find(v.id) {
                Some(k) => {
                    proof {
                        assert(config.vaults@[k as int].id == config.vaults@[i as int].id);
                    }
                    return Err(VaultHandlerError::CannotReadConfigFile);
                },
                None => {},
            }
            proof {
                assert(forall|k: int| 0 <= k < i ==> #[trigger] config.vaults@[k].id != v.id) by {
                    assert forall|k: int| 0 <= k < i implies #[trigger] config.vaults@[k].id != v.id by {
                        assert(m@[k].vault.id == config.vaults@[k].id);
                    }
                }
            }
            let next = if v.id + 1 > m.next_id {
                v.id + 1
            } else {
                m.next_id
            };
            let ghost old_m = m@;
            m.slots.push(VaultSlot { vault: v, handler: None });
            m.next_id = next;
            i = i + 1;
            proof {
                assert(forall|k: int| 0 <= k < i - 1 ==> #[trigger] m@[k] == old_m[k]);
                assert(forall|k: int| 0 <= k < m@.len() ==> #[trigger] m@[k].wf());
                assert(forall|k: int| 0 <= k < m@.len() ==> #[trigger] m@[k].vault.id < m.next_id);
                assert(forall|k: int| 0 <= k < m@.len() ==> #[trigger] records_of(m@)[k] == config.vaults@[k]);
                assert(records_of(m@) =~= config.vaults@.subrange(0, i as int));
            }
        }
        proof {
            assert(records_of(m@) =~= config.vaults@);
            assert(config.vaults@.subrange(0, i as int) =~= config.vaults@);
        }
        Ok(m)
    }

    /// The durable document for the current records, in order.
    pub fn config(&self) -> (r: Config)
        ensures
            r.vaults@ == self.records(),
    {
        let mut vaults: Vec<Vault> = Vec::new();
        let mut i: usize = 0;
        while i < self.slots.len()
            invariant
                i <= self@.len(),
                vaults@.len() == i,
                forall|k: int| 0 <= k < i ==> #[trigger] vaults@[k] == self@[k].vault,
            decreases self@.len() - i,
        {
            vaults.push(self.slots[i].vault.duplicate());
            i = i + 1;
        }
        proof {
            assert(vaults@ =~= self.records());
        }
        Config { vaults }
    }

    /// The lock state of vault `id`; one never referenced is `Locked`.
    pub fn state(&self, id: u64) -> (r: LockState)
        requires
            self.wf(),
        ensures
            r == self.state_of(id),
    {
        match self.find(id) {
            Some(k) => self.slot_state(k),
            None => LockState::Locked,
        }
    }

    /// A copy of the record of vault `id`, if there is one.
    pub fn record(&self, id: u64) -> (r: Option<Vault>)
        requires
            self.wf(),
        ensures
            self.known(id) ==> r == Some(self@[self.index_of(id)].vault),
            !self.known(id) ==> r is None,
    {
        match self.find(id) {
            Some(k) => Some(self.slots[k].vault.duplicate()),
            None => None,
        }
    }

    /// Puts back an earlier record of a vault that is still present and
    /// locked, keeping its runtime entry; this undoes a change whose save
    /// failed.
    pub fn restore_record(&mut self, saved: Vault) -> (r: Result<(), VaultHandlerError>)
        requires
            old(self).wf(),
        ensures
            final(self).wf(),
            final(self).next_id() == old(self).next_id(),
            !old(self).known(saved.id) ==> r == Err::<(), VaultHandlerError>(VaultHandlerError::UnknownVault),
            old(self).known(saved.id) && old(self).state_of(saved.id) != LockState::Locked ==> r == Err::<
                (),
                VaultHandlerError,
            >(VaultHandlerError::VaultBusy),
            old(self).known(saved.id) && old(self).state_of(saved.id) == LockState::Locked ==> ({
                let i = old(self).index_of(saved.id);
                r is Ok && final(self)@ == old(self)@.update(i, VaultSlot { vault: saved, ..old(self)@[i] })
            }),
            r is Err ==> final(self)@ == old(self)@,
    {
        let idx = match self.find(saved.id) {
            Some(k) => k,
            None => {
                return Err(VaultHandlerError::UnknownVault);
            },
        };
        if self.slot_state(idx) != LockState::Locked {
            return Err(VaultHandlerError::VaultBusy);
        }
        proof {
            assert(self@[idx as int].wf());
        }
        self.slots[idx].vault = saved;
        proof {
            assert(self@[idx as int].wf());
            assert(forall|i: int| 0 <= i < self@.len() ==> #[trigger] self@[i].wf());
            assert(forall|i: int| 0 <= i < self@.len() ==> #[trigger] records_of(self@)[i].id == records_of(old(self)@)[i].id);
        }
        Ok(())
    }

    /// Adds back, at the end and locked, a removed vault under its own id;
    /// this undoes a removal whose save failed. The id must be free and must
    /// have been handed out already; any other record is refused as a
    /// document holding it would be.
    pub fn reinsert(&mut self, vault: Vault) -> (r: Result<(), VaultHandlerError>)
        requires
            old(self).wf(),
        ensures
            final(self).wf(),
            final(self).next_id() == old(self).next_id(),
            (old(self).known(vault.id) || vault.id >= old(self).next_id()) ==> r == Err::<(), VaultHandlerError>(
                VaultHandlerError::CannotReadConfigFile,
            ) && final(self)@ == old(self)@,
            !old(self).known(vault.id) && vault.id < old(self).next_id() ==> r is Ok && final(self)@ == old(self)@.push(
                VaultSlot { vault, handler: None },
            ),
    {
        if vault.id >= self.next_id {
            return Err(VaultHandlerError::CannotReadConfigFile);
        }
        match self.find(vault.id) {
            Some(_) => {
                return Err(VaultHandlerError::CannotReadConfigFile);
            },
            None => {},
        }
        let ghost id = vault.id;
        self.slots.push(VaultSlot { vault, handler: None });
        proof {
            let n = old(self)@.len();
            assert(forall|i: int| 0 <= i < n ==> #[trigger] self@[i] == old(self)@[i]);
            assert(forall|i: int| 0 <= i < n ==> #[trigger] records_of(self@)[i].id == records_of(old(self)@)[i].id);
            assert(forall|i: int| 0 <= i < n ==> #[trigger] old(self)@[i].vault.id != id);
            assert(forall|i: int| 0 <= i < self@.len() ==> #[trigger] self@[i].wf());
            assert(unique_ids(records_of(self@)));
        }
        Ok(())
    }

    /// The number of vaults.
    pub fn len(&self) -> (r: usize)
        ensures
            r == self@.len(),
    {
        self.slots.len()
    }
}

} // verus!

verus! {

/// A vault that no operation has referenced yet is `Locked`; ids that name
/// no vault read as `Locked` too.
pub proof fn lemma_unreferenced_is_locked(m: VaultHandlerService, id: u64)
    requires
        m.wf(),
        m.known(id) ==> m@[m.index_of(id)].handler is None,
    ensures
        m.state_of(id) == LockState::Locked,
{
}

/// Unlocking a locked vault and then locking it, every step succeeding
/// (`begin_unlock`, `finish_unlock` with a session, `begin_lock`,
/// `finish_lock` with the session detached), leaves it `Locked` with no
/// session, its record as before but marked locked, and every other vault as
/// it was.
pub proof fn lemma_unlock_then_lock(s0: Seq<VaultSlot>, i: int, session: MountSession, s3: Seq<VaultSlot>)
    requires
        0 <= i < s0.len(),
        s0[i].state() == LockState::Locked,
        ({
            let s1 = s0.update(i, s0[i].moved_to(LockState::Unlocking, None, s0[i].vault.locked));
            let s2 = s1.update(i, s1[i].moved_to(LockState::Unlocked, Some(session), false));
            &&& s3.len() == s2.len()
            &&& s3[i].vault == s2[i].vault
            &&& s3[i].state() == LockState::Locking
            &&& s3[i].session_handle() == s2[i].session_handle()
            &&& forall|j: int| 0 <= j < s2.len() && j != i ==> s3[j] == s2[j]
        }),
    ensures
        ({
            let s4 = s3.update(i, s3[i].moved_to(LockState::Locked, None, true));
            &&& s4.len() == s0.len()
            &&& s4[i].state() == LockState::Locked
            &&& s4[i].session_handle() is None
            &&& s4[i].vault == s0[i].vault.with_locked(true)
            &&& forall|j: int| 0 <= j < s0.len() && j != i ==> s4[j] == s0[j]
        }),
{
}

/// Once an unlock of a vault has begun, and after it has succeeded, the vault
/// is no longer `Locked`: a second unlock of it is refused as busy
/// (`begin_unlock`), so only one of two unlocks of one vault can mount it.
pub proof fn lemma_unlock_guard_excludes(
    m0: VaultHandlerService,
    m1: VaultHandlerService,
    id: u64,
    state: LockState,
    session: Option<MountSession>,
    locked: bool,
)
    requires
        m0.wf(),
        m1.wf(),
        m0.known(id),
        state == LockState::Unlocking || state == LockState::Unlocked,
        m1@ == m0@.update(m0.index_of(id), m0@[m0.index_of(id)].moved_to(state, session, locked)),
    ensures
        m1.known(id),
        m1.index_of(id) == m0.index_of(id),
        m1@[m1.index_of(id)].state() != LockState::Locked,
        m1.state_of(id) == state,
{
    let i = m0.index_of(id);
    m1.lemma_index_of(id, i);
}

/// An operation on one vault leaves every other vault as it was: its
/// presence, its record, its runtime entry and its lock state. Unlocking or
/// locking one vault thus never waits on, nor changes, another.
pub proof fn lemma_other_vault_unaffected(m0: VaultHandlerService, m1: VaultHandlerService, id1: u64, id2: u64)
    requires
        m0.wf(),
        m1.wf(),
        m0.known(id1),
        id1 != id2,
        m1@.len() == m0@.len(),
        m1@[m0.index_of(id1)].vault.id == id1,
        forall|j: int| 0 <= j < m0@.len() && j != m0.index_of(id1) ==> m1@[j] == m0@[j],
    ensures
        m1.known(id2) == m0.known(id2),
        m0.known(id2) ==> m1.index_of(id2) == m0.index_of(id2) && m1@[m1.index_of(id2)] == m0@[m0.index_of(id2)],
        m1.state_of(id2) == m0.state_of(id2),
{
    let i = m0.index_of(id1);
    if m0.known(id2) {
        let k = m0.index_of(id2);
        assert(k != i);
        m1.lemma_index_of(id2, k);
    }
    if m1.known(id2) {
        let k = m1.index_of(id2);
        assert(k != i);
        m0.lemma_index_of(id2, k);
    }
}

/// The document saved from a manager is always loadable, so saving the
/// records (`config`) and loading them back (`new`) reproduces every record
/// exactly, in order.
pub proof fn lemma_saved_config_reloads(m: VaultHandlerService)
    requires
        m.wf(),
    ensures
        loadable(m.records()),
{
    assert(forall|i: int| 0 <= i < m.records().len() ==> #[trigger] m.records()[i].id < u64::MAX) by {
        assert forall|i: int| 0 <= i < m.records().len() implies #[trigger] m.records()[i].id < u64::MAX by {
            assert(m@[i].vault.id < m.next_id());
        }
    }
}

} // verus!
