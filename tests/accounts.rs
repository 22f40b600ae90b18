use chat_bridge::config::{parse_account_id, reconcile, LoginConf, Protocol};
use chat_bridge::error::{ConfigError, ConfigKind, LoginError, OperationKind};
use chat_bridge::session::{Accounts, Session, SessionAction, SessionEvent, SessionState};
use chat_bridge::token::SessionToken;

fn token(uin: i64) -> SessionToken {
    SessionToken {
        uin,
        d2: [0; 4],
        d2key: [0; 4],
        tgt: [0; 4],
        srm_token: [0; 4],
        t133: [0; 4],
        encrypted_a1: [0; 4],
        out_packet_session_id: [0; 4],
        tgtgt_key: [0; 4],
        wt_session_ticket_key: [0; 4],
    }
}

#[test]
fn ts_elr() {
    let ls: [Result<i32, i32>; 3] = [Ok(0), Err(1), Ok(2)];
    let mut seen = Vec::new();
    for x in 0..ls.len() {
        let v = match ls[x] {
            Ok(v) => v,
            _ => -1,
        };
        println!("{}:{}  ", x, v);
        seen.push(v);
    }
    assert_eq!(seen, vec![0, -1, 2]);
}

#[test]
fn test() -> Result<(), Box<dyn std::error::Error>> {
    Ok(())
}

#[test]
#[allow(non_snake_case)]
fn getConfig() {
    let config = reconcile(&vec![368894523], &vec![]).unwrap();
    println!("config:");
    println!("{:?}", config);
    assert_eq!(config.entries, vec![LoginConf::default_by_id(368894523)]);
}

#[test]
fn default_settings() {
    let c = LoginConf::default_by_id(42);
    assert_eq!(c, LoginConf { protocol: Protocol::MacOS, auto_login: true, id: 42 });
}

#[test]
fn reconciliation_synthesizes_missing_entries() {
    let listed = LoginConf { protocol: Protocol::AndroidWatch, auto_login: false, id: 1 };
    let r = reconcile(&vec![1, 2, 3], &vec![listed]).unwrap();
    assert_eq!(r.entries.len(), 3);
    assert_eq!(r.synthesized, 2);
    assert_eq!(r.entries, vec![listed, LoginConf::default_by_id(2), LoginConf::default_by_id(3)]);
}

#[test]
fn reconciliation_keeps_entries_without_directory() {
    let a = LoginConf { protocol: Protocol::IPAD, auto_login: true, id: 9 };
    let b = LoginConf { protocol: Protocol::QiDian, auto_login: false, id: 2 };
    let r = reconcile(&vec![2], &vec![a, b]).unwrap();
    assert_eq!(r.entries, vec![b, a]);
    assert_eq!(r.synthesized, 0);
}

#[test]
fn reconciliation_later_entry_wins() {
    let first = LoginConf { protocol: Protocol::IPAD, auto_login: true, id: 5 };
    let second = LoginConf { protocol: Protocol::AndroidPhone, auto_login: false, id: 5 };
    let r = reconcile(&vec![5], &vec![first, second]).unwrap();
    assert_eq!(r.entries, vec![second]);
}

#[test]
fn reconciliation_without_directories_fails() {
    let e = reconcile(&vec![], &vec![LoginConf::default_by_id(1)]).unwrap_err();
    assert_eq!((e.kind, e.operation), (ConfigKind::Client, OperationKind::NotFound));
}

fn drive(accounts: &mut Accounts, index: usize, device: Result<(), ConfigError>, tok: Result<SessionToken, ConfigError>, login_ok: bool, logins: &mut Vec<i64>) {
    assert_eq!(accounts.step(index, SessionEvent::Begin), SessionAction::LoadDevice);
    if accounts.step(index, SessionEvent::DeviceLoaded(device)) != SessionAction::LoadToken {
        return;
    }
    if let SessionAction::Login(t) = accounts.step(index, SessionEvent::TokenLoaded(tok)) {
        logins.push(t.uin);
        assert_eq!(accounts.step(index, SessionEvent::LoginFinished(login_ok)), if login_ok { SessionAction::PersistToken } else { SessionAction::Nothing });
    }
}

#[test]
fn failed_device_load_leaves_other_accounts_active() {
    let mut accounts = Accounts::new(&vec![10, 20, 30]);
    let mut logins = Vec::new();
    let device_err = ConfigError::new(ConfigKind::Device, OperationKind::Read);
    drive(&mut accounts, 0, Err(device_err.clone()), Ok(token(10)), true, &mut logins);
    assert_eq!(accounts.active_accounts(), None);
    drive(&mut accounts, 1, Ok(()), Ok(token(20)), true, &mut logins);
    drive(&mut accounts, 2, Ok(()), Ok(token(30)), true, &mut logins);
    assert_eq!(accounts.sessions[0].state, SessionState::Failed(LoginError::GetConfigError(device_err)));
    assert_eq!(accounts.active_accounts(), Some(vec![20, 30]));
    assert_eq!(logins, vec![20, 30]);
}

#[test]
fn wrong_credential_makes_no_login() {
    let mut s = Session::new(100);
    assert_eq!(s.step(SessionEvent::Begin), SessionAction::LoadDevice);
    assert_eq!(s.step(SessionEvent::DeviceLoaded(Ok(()))), SessionAction::LoadToken);
    let a = s.step(SessionEvent::TokenLoaded(Ok(token(200))));
    if let SessionAction::Login(_) = a {
        panic!("the client must not be called with another account's token");
    }
    assert_eq!(a, SessionAction::Nothing);
    assert_eq!(s.state, SessionState::Failed(LoginError::WrongCredential));
}

#[test]
fn token_load_error_fails_the_account() {
    let mut s = Session::new(1);
    s.step(SessionEvent::Begin);
    s.step(SessionEvent::DeviceLoaded(Ok(())));
    let e = ConfigError::new(ConfigKind::Token, OperationKind::Deserialization);
    assert_eq!(s.step(SessionEvent::TokenLoaded(Err(e.clone()))), SessionAction::Nothing);
    assert_eq!(s.state, SessionState::Failed(LoginError::GetConfigError(e)));
}

#[test]
fn rejected_login_fails_the_account() {
    let mut s = Session::new(1);
    s.step(SessionEvent::Begin);
    s.step(SessionEvent::DeviceLoaded(Ok(())));
    assert_eq!(s.step(SessionEvent::TokenLoaded(Ok(token(1)))), SessionAction::Login(token(1)));
    assert_eq!(s.step(SessionEvent::LoginFinished(false)), SessionAction::Nothing);
    assert_eq!(s.state, SessionState::Failed(LoginError::TokenLoginFailed));
    assert!(s.is_terminal());
    assert!(!s.is_active());
}

#[test]
fn timeout_fails_a_pending_account_only() {
    let mut s = Session::new(1);
    s.step(SessionEvent::Begin);
    assert_eq!(s.step(SessionEvent::TimedOut), SessionAction::Nothing);
    assert_eq!(s.state, SessionState::Failed(LoginError::Timeout));
    let mut done = Session::new(2);
    done.step(SessionEvent::Begin);
    done.step(SessionEvent::DeviceLoaded(Ok(())));
    done.step(SessionEvent::TokenLoaded(Ok(token(2))));
    done.step(SessionEvent::LoginFinished(true));
    done.step(SessionEvent::TimedOut);
    assert_eq!(done.state, SessionState::Active);
}

#[test]
fn unexpected_event_changes_nothing() {
    let mut s = Session::new(1);
    assert_eq!(s.step(SessionEvent::LoginFinished(true)), SessionAction::Nothing);
    assert_eq!(s.state, SessionState::Start);
}

#[test]
fn account_ids_from_directory_names() {
    assert_eq!(parse_account_id("368894523"), Some(368894523));
    assert_eq!(parse_account_id("+7"), Some(7));
    assert_eq!(parse_account_id("-5"), Some(-5));
    assert_eq!(parse_account_id("9223372036854775807"), Some(i64::MAX));
    assert_eq!(parse_account_id("-9223372036854775808"), Some(i64::MIN));
    assert_eq!(parse_account_id("9223372036854775808"), None);
    assert_eq!(parse_account_id("123456789012345678901234"), None);
    assert_eq!(parse_account_id(""), None);
    assert_eq!(parse_account_id("-"), None);
    assert_eq!(parse_account_id("12a"), None);
    assert_eq!(parse_account_id("logs"), None);
}
