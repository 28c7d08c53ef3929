use rencfs_daemon::daemon::{
    handle_handler_empty_response, old_and_new, parse_id, vault_from_insert_request, Daemon,
    DaemonServiceError, ErrorClass,
};
use rencfs_daemon::vault_handler::{
    Cipher, Config, LockState, MountSession, UnlockFailure, Vault, VaultHandler, VaultHandlerError,
    VaultHandlerService,
};

fn vault(name: &str, mount_point: &str, data_dir: &str) -> Vault {
    Vault {
        id: 0,
        name: name.to_string(),
        mount_point: mount_point.to_string(),
        data_dir: data_dir.to_string(),
        locked: true,
        cipher: Cipher::ChaCha20,
        derive_key_hash_rounds: 1000,
    }
}

fn empty() -> VaultHandlerService {
    VaultHandlerService::new(Config::new()).unwrap()
}

fn unlock(m: &mut VaultHandlerService, id: u64, handle: u64) {
    m.begin_unlock(id).unwrap();
    m.finish_unlock(id, Ok(MountSession { handle })).unwrap();
}

#[test]
fn new_handler_is_locked() {
    let h = VaultHandler::new(7);
    assert_eq!(h.id, 7);
    assert_eq!(h.state, LockState::Locked);
    assert!(h.session.is_none());
}

#[test]
fn daemon_new() {
    let _d = Daemon::new();
}

#[test]
fn loaded_vaults_start_locked() {
    let mut v = vault("a", "/mnt/a", "/data/a");
    v.id = 3;
    v.locked = false;
    let m = VaultHandlerService::new(Config { vaults: vec![v] }).unwrap();
    assert_eq!(m.state(3), LockState::Locked);
    assert_eq!(m.state(99), LockState::Locked);
}

#[test]
fn insert_assigns_fresh_ids_and_locks() {
    let mut m = empty();
    let mut v = vault("a", "/mnt/a", "/data/a");
    v.locked = false;
    v.id = 42;
    let a = m.insert(v).unwrap();
    let b = m.insert(vault("b", "/mnt/b", "/data/b")).unwrap();
    assert_eq!(a, 0);
    assert_eq!(b, 1);
    assert_eq!(m.len(), 2);
    let c = m.config();
    assert_eq!(c.vaults[0].id, 0);
    assert!(c.vaults[0].locked);
    assert_eq!(m.state(a), LockState::Locked);
}

#[test]
fn unlock_then_lock_returns_to_locked() {
    let mut m = empty();
    let id = m.insert(vault("a", "/mnt/a", "/data/a")).unwrap();
    let plan = m.begin_unlock(id).unwrap();
    assert_eq!(plan.mount_point, "/mnt/a");
    assert_eq!(plan.data_dir, "/data/a");
    assert_eq!(plan.cipher, Cipher::ChaCha20);
    assert_eq!(plan.derive_key_hash_rounds, 1000);
    assert_eq!(m.state(id), LockState::Unlocking);
    m.finish_unlock(id, Ok(MountSession { handle: 5 })).unwrap();
    assert_eq!(m.state(id), LockState::Unlocked);
    assert!(!m.config().vaults[0].locked);
    assert_eq!(m.begin_lock(id), Ok(5));
    assert_eq!(m.state(id), LockState::Locking);
    m.finish_lock(id, true).unwrap();
    assert_eq!(m.state(id), LockState::Locked);
    assert!(m.config().vaults[0].locked);
    assert_eq!(m.begin_lock(id), Err(VaultHandlerError::AlreadyLocked));
}

#[test]
fn second_unlock_is_busy() {
    let mut m = empty();
    let id = m.insert(vault("a", "/mnt/a", "/data/a")).unwrap();
    assert!(m.begin_unlock(id).is_ok());
    assert_eq!(m.begin_unlock(id).err(), Some(VaultHandlerError::VaultBusy));
    m.finish_unlock(id, Ok(MountSession { handle: 1 })).unwrap();
    assert_eq!(m.begin_unlock(id).err(), Some(VaultHandlerError::VaultBusy));
    assert_eq!(m.state(id), LockState::Unlocked);
}

#[test]
fn distinct_vaults_unlock_independently() {
    let mut m = empty();
    let a = m.insert(vault("a", "/mnt/a", "/data/a")).unwrap();
    let b = m.insert(vault("b", "/mnt/b", "/data/b")).unwrap();
    assert!(m.begin_unlock(a).is_ok());
    assert!(m.begin_unlock(b).is_ok());
    m.finish_unlock(b, Ok(MountSession { handle: 2 })).unwrap();
    assert_eq!(m.state(a), LockState::Unlocking);
    m.finish_unlock(a, Ok(MountSession { handle: 1 })).unwrap();
    assert_eq!(m.state(a), LockState::Unlocked);
    assert_eq!(m.state(b), LockState::Unlocked);
}

#[test]
fn busy_vault_rejects_other_operations() {
    let mut m = empty();
    let id = m.insert(vault("a", "/mnt/a", "/data/a")).unwrap();
    m.begin_unlock(id).unwrap();
    assert_eq!(m.begin_lock(id), Err(VaultHandlerError::VaultBusy));
    assert_eq!(m.delete(id), Err(VaultHandlerError::VaultBusy));
    assert_eq!(
        m.change_mount_point(id, "/mnt/a".to_string(), "/mnt/z".to_string()),
        Err(VaultHandlerError::VaultBusy)
    );
}

#[test]
fn remove_unlocked_is_busy_and_locked_succeeds() {
    let mut m = empty();
    let id = m.insert(vault("a", "/mnt/a", "/data/a")).unwrap();
    unlock(&mut m, id, 1);
    assert_eq!(m.delete(id), Err(VaultHandlerError::VaultBusy));
    m.begin_lock(id).unwrap();
    m.finish_lock(id, true).unwrap();
    assert_eq!(m.delete(id), Ok(()));
    assert_eq!(m.len(), 0);
    assert_eq!(m.delete(id), Err(VaultHandlerError::UnknownVault));
}

#[test]
fn change_mount_point_rejects_stale_and_taken() {
    let mut m = empty();
    let a = m.insert(vault("a", "/mnt/a", "/data/a")).unwrap();
    let b = m.insert(vault("b", "/mnt/b", "/data/b")).unwrap();
    unlock(&mut m, b, 1);
    assert_eq!(
        m.change_mount_point(a, "/mnt/old".to_string(), "/mnt/c".to_string()),
        Err(VaultHandlerError::CannotChangeMountPoint)
    );
    assert_eq!(
        m.change_mount_point(a, "/mnt/a".to_string(), "/mnt/b".to_string()),
        Err(VaultHandlerError::MountPointInUse)
    );
    assert_eq!(m.change_mount_point(a, "/mnt/a".to_string(), "/mnt/c".to_string()), Ok(()));
    assert_eq!(m.config().vaults[0].mount_point, "/mnt/c");
}

#[test]
fn change_mount_point_to_locked_vaults_path_is_allowed() {
    let mut m = empty();
    let a = m.insert(vault("a", "/mnt/a", "/data/a")).unwrap();
    let _b = m.insert(vault("b", "/mnt/b", "/data/b")).unwrap();
    assert_eq!(m.change_mount_point(a, "/mnt/a".to_string(), "/mnt/b".to_string()), Ok(()));
    assert_eq!(
        m.begin_unlock(a).err(),
        None
    );
}

#[test]
fn unlock_refuses_mount_point_in_use() {
    let mut m = empty();
    let a = m.insert(vault("a", "/mnt/x", "/data/a")).unwrap();
    let b = m.insert(vault("b", "/mnt/x", "/data/b")).unwrap();
    unlock(&mut m, a, 1);
    assert_eq!(m.begin_unlock(b).err(), Some(VaultHandlerError::MountPointInUse));
    let c = m.insert(vault("c", "/mnt/c", "/data/a")).unwrap();
    assert_eq!(m.begin_unlock(c).err(), Some(VaultHandlerError::DataDirInUse));
}

#[test]
fn change_data_dir_checks() {
    let mut m = empty();
    let a = m.insert(vault("a", "/mnt/a", "/data/a")).unwrap();
    let b = m.insert(vault("b", "/mnt/b", "/data/b")).unwrap();
    unlock(&mut m, b, 1);
    assert_eq!(
        m.change_data_dir(a, "/data/x".to_string(), "/data/c".to_string(), true),
        Err(VaultHandlerError::CannotChangeDataDir)
    );
    assert_eq!(
        m.change_data_dir(a, "/data/a".to_string(), "/data/b".to_string(), true),
        Err(VaultHandlerError::DataDirInUse)
    );
    assert_eq!(
        m.change_data_dir(a, "/data/a".to_string(), "/data/c".to_string(), false),
        Err(VaultHandlerError::InvalidDataDir)
    );
    assert_eq!(m.change_data_dir(a, "/data/a".to_string(), "/data/c".to_string(), true), Ok(()));
    assert_eq!(m.config().vaults[0].data_dir, "/data/c");
    assert_eq!(
        m.change_data_dir(b, "/data/b".to_string(), "/data/d".to_string(), true),
        Err(VaultHandlerError::VaultBusy)
    );
    assert_eq!(
        m.change_data_dir(9, "/data/b".to_string(), "/data/d".to_string(), true),
        Err(VaultHandlerError::UnknownVault)
    );
}

#[test]
fn failed_lock_keeps_vault_unlocked() {
    let mut m = empty();
    let id = m.insert(vault("a", "/mnt/a", "/data/a")).unwrap();
    unlock(&mut m, id, 8);
    assert_eq!(m.begin_lock(id), Ok(8));
    assert_eq!(m.finish_lock(id, false), Err(VaultHandlerError::CannotLockVault));
    assert_eq!(m.state(id), LockState::Unlocked);
    assert!(!m.config().vaults[0].locked);
    assert_eq!(m.begin_lock(id), Ok(8));
}

#[test]
fn failed_unlock_reports_each_kind() {
    let mut m = empty();
    let id = m.insert(vault("a", "/mnt/a", "/data/a")).unwrap();
    let cases = [
        (UnlockFailure::Keyring, VaultHandlerError::KeyringUnavailable),
        (UnlockFailure::BadPassword, VaultHandlerError::InvalidPassword),
        (UnlockFailure::Mount, VaultHandlerError::CannotUnlockVault),
    ];
    for (f, e) in cases {
        m.begin_unlock(id).unwrap();
        assert_eq!(m.finish_unlock(id, Err(f)), Err(e));
        assert_eq!(m.state(id), LockState::Locked);
        assert!(m.config().vaults[0].locked);
    }
}

#[test]
fn unknown_vault_operations() {
    let mut m = empty();
    assert_eq!(m.begin_unlock(1).err(), Some(VaultHandlerError::UnknownVault));
    assert_eq!(m.begin_lock(1), Err(VaultHandlerError::UnknownVault));
    assert_eq!(
        m.change_mount_point(1, "a".to_string(), "b".to_string()),
        Err(VaultHandlerError::UnknownVault)
    );
}

#[test]
fn insert_save_load_round_trip() {
    let mut m = empty();
    let req = vault_from_insert_request(
        "work".to_string(),
        "/mnt/a".to_string(),
        "/data/a".to_string(),
        "Aes256Gcm",
        600000,
    )
    .unwrap();
    let id = m.insert(req).unwrap();
    let _other = m.insert(vault("b", "/mnt/b", "/data/b")).unwrap();
    let saved = m.config();
    let reloaded = VaultHandlerService::new(m.config()).unwrap();
    let again = reloaded.config();
    assert_eq!(saved.vaults.len(), again.vaults.len());
    for (x, y) in saved.vaults.iter().zip(again.vaults.iter()) {
        assert_eq!(x.id, y.id);
        assert_eq!(x.name, y.name);
        assert_eq!(x.mount_point, y.mount_point);
        assert_eq!(x.data_dir, y.data_dir);
        assert_eq!(x.locked, y.locked);
        assert_eq!(x.cipher, y.cipher);
        assert_eq!(x.derive_key_hash_rounds, y.derive_key_hash_rounds);
    }
    assert_eq!(reloaded.state(id), LockState::Locked);
}

#[test]
fn insert_work_vault_then_keyring_failure() {
    let mut m = empty();
    let req = vault_from_insert_request(
        "work".to_string(),
        "/mnt/a".to_string(),
        "/data/a".to_string(),
        "Aes256Gcm",
        600000,
    )
    .unwrap();
    let id = m.insert(req).unwrap();
    let c = m.config();
    assert!(c.vaults[0].locked);
    assert_eq!(c.vaults[0].name, "work");
    assert_eq!(c.vaults[0].cipher, Cipher::Aes256Gcm);
    assert_eq!(c.vaults[0].derive_key_hash_rounds, 600000);
    m.begin_unlock(id).unwrap();
    let e = m.finish_unlock(id, Err(UnlockFailure::Keyring)).unwrap_err();
    assert_eq!(e, VaultHandlerError::KeyringUnavailable);
    assert_ne!(e, VaultHandlerError::CannotUnlockVault);
    assert_eq!(m.state(id), LockState::Locked);
    assert!(m.config().vaults[0].locked);
}

#[test]
fn load_refuses_malformed_documents() {
    let mut a = vault("a", "/mnt/a", "/data/a");
    a.id = 4;
    let mut b = vault("b", "/mnt/b", "/data/b");
    b.id = 4;
    let dup = VaultHandlerService::new(Config { vaults: vec![a, b] });
    assert_eq!(dup.err().map(|_| ()), Some(()));
    let mut c = vault("c", "/mnt/c", "/data/c");
    c.id = u64::MAX;
    assert!(VaultHandlerService::new(Config { vaults: vec![c] }).is_err());
    let mut d = vault("d", "/mnt/d", "/data/d");
    d.id = u64::MAX - 1;
    let mut m = VaultHandlerService::new(Config { vaults: vec![d] }).unwrap();
    assert_eq!(m.insert(vault("e", "/mnt/e", "/data/e")), Err(VaultHandlerError::IdsExhausted));
}

#[test]
fn cipher_names() {
    assert_eq!(Cipher::parse("ChaCha20"), Some(Cipher::ChaCha20));
    assert_eq!(Cipher::parse("Aes256Gcm"), Some(Cipher::Aes256Gcm));
    assert_eq!(Cipher::parse("AES256"), None);
    assert_eq!(Cipher::parse("chacha20"), None);
    assert_eq!(Cipher::parse(""), None);
}

#[test]
fn insert_request_validation() {
    let bad = vault_from_insert_request("n".to_string(), "/m".to_string(), "/d".to_string(), "Rot13", 10);
    assert_eq!(bad.err().map(|e| e), Some(DaemonServiceError::InvalidCipher));
    let zero = vault_from_insert_request("n".to_string(), "/m".to_string(), "/d".to_string(), "ChaCha20", 0);
    assert_eq!(zero.err(), Some(DaemonServiceError::InvalidArgument));
    let ok = vault_from_insert_request("n".to_string(), "/m".to_string(), "/d".to_string(), "ChaCha20", 10).unwrap();
    assert_eq!(ok.cipher, Cipher::ChaCha20);
    assert!(ok.locked);
}

#[test]
fn change_request_values() {
    let two = vec!["a".to_string(), "b".to_string()];
    assert_eq!(old_and_new(&two), Ok(("a".to_string(), "b".to_string())));
    let one = vec!["a".to_string()];
    assert_eq!(old_and_new(&one), Err(DaemonServiceError::InvalidArgument));
    let three = vec!["a".to_string(), "b".to_string(), "c".to_string()];
    assert_eq!(old_and_new(&three), Err(DaemonServiceError::InvalidArgument));
}

#[test]
fn ids_from_text() {
    assert_eq!(parse_id("0"), Ok(0));
    assert_eq!(parse_id("1234"), Ok(1234));
    assert_eq!(parse_id("18446744073709551615"), Ok(u64::MAX));
    assert_eq!(parse_id("18446744073709551616"), Err(DaemonServiceError::InvalidArgument));
    assert_eq!(parse_id(""), Err(DaemonServiceError::InvalidArgument));
    assert_eq!(parse_id("12a"), Err(DaemonServiceError::InvalidArgument));
    assert_eq!(parse_id("-1"), Err(DaemonServiceError::InvalidArgument));
}

#[test]
fn empty_responses_keep_error_kind() {
    assert_eq!(handle_handler_empty_response(Ok(())), Ok(()));
    let r = handle_handler_empty_response(Err(VaultHandlerError::VaultBusy));
    assert_eq!(r, Err(DaemonServiceError::VaultHandlerError(VaultHandlerError::VaultBusy)));
    assert_eq!(r.unwrap_err().class(), ErrorClass::Busy);
    assert_eq!(DaemonServiceError::InvalidCipher.class(), ErrorClass::Client);
    assert_eq!(
        DaemonServiceError::VaultHandlerError(VaultHandlerError::KeyringUnavailable).class(),
        ErrorClass::Collaborator
    );
    assert_eq!(
        DaemonServiceError::VaultHandlerError(VaultHandlerError::MountPointInUse).class(),
        ErrorClass::Client
    );
}

#[test]
fn restore_record_undoes_a_change() {
    let mut m = empty();
    let a = m.insert(vault("a", "/mnt/a", "/data/a")).unwrap();
    let before = m.record(a).unwrap();
    m.change_mount_point(a, "/mnt/a".to_string(), "/mnt/z".to_string()).unwrap();
    assert_eq!(m.record(a).unwrap().mount_point, "/mnt/z");
    assert_eq!(m.restore_record(before), Ok(()));
    assert_eq!(m.record(a).unwrap().mount_point, "/mnt/a");
    assert!(m.record(77).is_none());
    unlock(&mut m, a, 3);
    let snapshot = m.record(a).unwrap();
    assert_eq!(m.restore_record(snapshot), Err(VaultHandlerError::VaultBusy));
}

#[test]
fn reinsert_undoes_a_removal() {
    let mut m = empty();
    let a = m.insert(vault("a", "/mnt/a", "/data/a")).unwrap();
    let b = m.insert(vault("b", "/mnt/b", "/data/b")).unwrap();
    let removed = m.record(a).unwrap();
    m.delete(a).unwrap();
    assert_eq!(m.reinsert(removed), Ok(()));
    assert_eq!(m.len(), 2);
    assert_eq!(m.record(a).unwrap().name, "a");
    assert_eq!(m.state(a), LockState::Locked);
    let dup = m.record(b).unwrap();
    assert_eq!(m.reinsert(dup), Err(VaultHandlerError::CannotReadConfigFile));
    let mut fresh = vault("c", "/mnt/c", "/data/c");
    fresh.id = 50;
    assert_eq!(m.reinsert(fresh), Err(VaultHandlerError::CannotReadConfigFile));
}
