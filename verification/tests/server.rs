use ircx_sspi::server::{AuthOutcome, AuthSession, ServerAuth};
use ircx_sspi::wire::{auth_command_line, escape, parse_auth_line, unescape, AuthPackage};
use ircx_sspi::{CtxtHandle, GateKeeperSecurityProvider, SecBuffer, SecBufferType, SecurityProvider, SspiError};

fn buf(t: SecBufferType, b: &[u8]) -> SecBuffer {
    SecBuffer { buffer_type: t, bytes: b.to_vec() }
}

#[test]
fn gatekeeper_login_over_auth_lines() {
    let mut server = ServerAuth::new();
    let mut session = AuthSession { active_package: None, active_context: None };
    let mut client = GateKeeperSecurityProvider::new();
    let cred = client.base.creds;
    let mut attr = 0u32;

    let mut cctx = CtxtHandle::default();
    let mut out = vec![buf(SecBufferType::Token, &[0u8; 128])];
    client.initialize_security_context(&cred, None, None, 0, 16,
        &[buf(SecBufferType::PkgParams, b"GK_CLIENT_ID_TOK"), buf(SecBufferType::PkgParams, b"localhost")],
        &mut cctx, &mut out, &mut attr).unwrap();
    let line = auth_command_line(AuthPackage::GateKeeper, b'I', &out[0].bytes);
    let (pkg, stage, payload) = parse_auth_line(&line).unwrap();
    assert!(server.handles_left());
    let challenge = match server.process_auth(&mut session, pkg, stage, &payload) {
        Ok(AuthOutcome::Continue(bytes)) => bytes,
        _ => panic!("expected a challenge"),
    };
    assert_eq!(session.active_package, Some(AuthPackage::GateKeeper));
    assert!(session.active_context.is_some());
    assert_eq!(unescape(&escape(&challenge)), challenge);

    let mut c2 = cctx;
    let mut out2 = vec![buf(SecBufferType::Token, &[0u8; 128])];
    let r = client.initialize_security_context(&cred, Some(&cctx), None, 0, 16,
        &[buf(SecBufferType::Token, &challenge)], &mut c2, &mut out2, &mut attr);
    assert_eq!(r, Ok(SspiError::Success));
    let line = auth_command_line(AuthPackage::GateKeeper, b'S', &out2[0].bytes);
    let (pkg, stage, payload) = parse_auth_line(&line).unwrap();
    match server.process_auth(&mut session, pkg, stage, &payload) {
        Ok(AuthOutcome::Success(name)) => assert_eq!(name, "435F4B47494C4E45545F49445F544F4B@GateKeeper"),
        _ => panic!("expected a finished login"),
    }
    assert_eq!(session, AuthSession { active_package: None, active_context: None });
    assert!(server.gk_provider.sessions.is_empty());
}

#[test]
fn continuing_without_a_login_is_refused() {
    let mut server = ServerAuth::new();
    let mut session = AuthSession { active_package: None, active_context: None };
    assert!(matches!(server.process_auth(&mut session, AuthPackage::Ntlm, 'S', b"x"), Err(SspiError::InvalidHandle)));
    assert!(matches!(server.process_auth(&mut session, AuthPackage::Ntlm, 'Q', b"x"), Err(SspiError::NotSupported)));
}

#[test]
fn opening_with_a_bad_token_keeps_no_context() {
    let mut server = ServerAuth::new();
    let mut session = AuthSession { active_package: None, active_context: None };
    let r = server.process_auth(&mut session, AuthPackage::GateKeeper, 'I', b"garbage");
    assert!(matches!(r, Err(SspiError::InvalidToken)));
    assert_eq!(session.active_package, Some(AuthPackage::GateKeeper));
    assert_eq!(session.active_context, None);
    let r = server.process_auth(&mut session, AuthPackage::GateKeeper, 'S', b"garbage");
    assert!(matches!(r, Err(SspiError::InvalidHandle)));
}

#[test]
fn a_package_switch_mid_login_is_refused() {
    let mut server = ServerAuth::new();
    let mut session = AuthSession { active_package: None, active_context: None };
    let mut client = GateKeeperSecurityProvider::new();
    let cred = client.base.creds;
    let mut attr = 0u32;
    let mut cctx = CtxtHandle::default();
    let mut out = vec![buf(SecBufferType::Token, &[])];
    client.initialize_security_context(&cred, None, None, 0, 16,
        &[buf(SecBufferType::PkgParams, b"0123456789abcdef"), buf(SecBufferType::PkgParams, b"localhost")],
        &mut cctx, &mut out, &mut attr).unwrap();
    let r = server.process_auth(&mut session, AuthPackage::GateKeeper, 'I', &escape(&out[0].bytes));
    assert!(matches!(r, Ok(AuthOutcome::Continue(_))));
    let r = server.process_auth(&mut session, AuthPackage::Ntlm, 'S', b"x");
    assert!(matches!(r, Err(SspiError::InvalidHandle)));
    assert_eq!(session.active_package, Some(AuthPackage::GateKeeper));
    let before = session.active_context;
    let r = server.process_auth(&mut session, AuthPackage::GateKeeper, 'S', b"bad");
    assert!(matches!(r, Err(SspiError::InvalidToken)));
    assert_eq!(session, AuthSession { active_package: None, active_context: None });
    assert!(before.is_some());
    assert!(server.gk_provider.sessions.is_empty());
}

#[test]
fn unknown_contexts_report_default_names() {
    let server = ServerAuth::new();
    let h = CtxtHandle { dw_lower: 42, dw_upper: 0x2000 };
    assert_eq!(server.get_username(AuthPackage::GateKeeper, &h), "GateKeeperUser@GateKeeper");
    assert_eq!(server.get_username(AuthPackage::GateKeeperPassport, &h), "GateKeeperPassportUser@GateKeeperPassport");
    assert_eq!(server.get_username(AuthPackage::Ntlm, &h), "NtlmUser@NTLM");
    assert_eq!(server.get_username(AuthPackage::NtlmPassport, &h), "NtlmUser+PassportUser@NTLMPassport");
}
