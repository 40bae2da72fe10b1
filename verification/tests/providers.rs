use ircx_sspi::dll::format_gatekeeper_id;
use ircx_sspi::internal::sam::SamPackage;
use ircx_sspi::ntlm::{ntlm_status_result, NtlmStatus};
use ircx_sspi::types::map_sspi_code;
use ircx_sspi::dll::context_user_name;
use ircx_sspi::vault::{UserLevel, Vault};
use ircx_sspi::{
    CredHandle, CtxtHandle, GateKeeperPassportSecurityProvider, GateKeeperSecurityProvider, NtlmPassportSecurityProvider,
    NtlmSecurityProvider, PassportSecurityProvider, SecBuffer, SecBufferType, SecurityProvider, SspiError,
};

fn token(bytes: &[u8]) -> SecBuffer {
    SecBuffer { buffer_type: SecBufferType::Token, bytes: bytes.to_vec() }
}

fn params(bytes: &[u8]) -> SecBuffer {
    SecBuffer { buffer_type: SecBufferType::PkgParams, bytes: bytes.to_vec() }
}

fn out_token() -> Vec<SecBuffer> {
    vec![token(&[])]
}

#[test]
fn status_codes_are_the_windows_values() {
    assert_eq!(SspiError::Success.to_raw(), 0);
    assert_eq!(SspiError::ContinueNeeded.to_raw(), 0x00090312);
    assert_eq!(SspiError::InvalidToken.to_raw(), 0x80090308u32 as i32);
    assert_eq!(SspiError::LogonDenied.to_raw(), 0x8009030Cu32 as i32);
    assert_eq!(SspiError::from_raw(0x80090301u32 as i32), Some(SspiError::InvalidHandle));
    assert_eq!(SspiError::from_raw(12345), None);
}

#[test]
fn raw_codes_read_back_as_outcomes() {
    assert_eq!(map_sspi_code(0), Ok(SspiError::Success));
    assert_eq!(map_sspi_code(0x00090312), Ok(SspiError::ContinueNeeded));
    assert_eq!(map_sspi_code(0x8009030Cu32 as i32), Err(SspiError::LogonDenied));
    assert_eq!(map_sspi_code(0x80090308u32 as i32), Err(SspiError::InvalidToken));
    assert_eq!(map_sspi_code(0x8009030Du32 as i32), Err(SspiError::UnknownCredentials));
    assert_eq!(map_sspi_code(7), Err(SspiError::InvalidHandle));
}

#[test]
fn gatekeeper_handshake_in_process() {
    let mut client = GateKeeperSecurityProvider::new();
    let mut server = GateKeeperSecurityProvider::new();
    let mut ccred = CredHandle::default();
    let mut scred = CredHandle::default();
    client.acquire_credentials_handle(None, "GateKeeper", 1, None, &mut ccred).unwrap();
    server.acquire_credentials_handle(None, "GateKeeper", 2, None, &mut scred).unwrap();
    assert_eq!(ccred, CredHandle { dw_lower: 0x3001, dw_upper: 0x8888 });

    let id = b"GK_CLIENT_ID_TOK";
    let mut cctx = CtxtHandle::default();
    let mut attr = 0u32;
    let mut out1 = out_token();
    let r1 = client.initialize_security_context(&ccred, None, None, 0, 16, &[params(id), params(b"localhost")],
        &mut cctx, &mut out1, &mut attr);
    assert_eq!(r1, Ok(SspiError::ContinueNeeded));
    assert_eq!(cctx, CtxtHandle { dw_lower: 1, dw_upper: 0x1000 });
    assert_eq!(out1[0].bytes, b"GKSSP\0\0\0\x03\0\0\0\x01\0\0\0".to_vec());

    let mut sctx = CtxtHandle::default();
    let mut out2 = out_token();
    let r2 = server.accept_security_context(&scred, None, &[token(&out1[0].bytes), params(b"localhost"), params(&[1])],
        0, 16, &mut sctx, &mut out2, &mut attr);
    assert_eq!(r2, Ok(SspiError::ContinueNeeded));
    assert_eq!(sctx.dw_upper, 0x2000);
    assert_eq!(out2[0].bytes.len(), 24);
    assert_eq!(&out2[0].bytes[12..16], &[2, 0, 0, 0]);
    let challenge: Vec<u8> = (0..8u32).map(|i| ((i * 37 + 101) % 254 + 1) as u8).collect();
    assert_eq!(&out2[0].bytes[16..], &challenge[..]);

    let mut cctx2 = cctx;
    let mut out3 = out_token();
    let r3 = client.initialize_security_context(&ccred, Some(&cctx), None, 0, 16, &[token(&out2[0].bytes)],
        &mut cctx2, &mut out3, &mut attr);
    assert_eq!(r3, Ok(SspiError::Success));
    assert_eq!(out3[0].bytes.len(), 48);
    assert_eq!(&out3[0].bytes[32..], &id[..]);

    let mut sctx2 = sctx;
    let mut out4 = out_token();
    let r4 = server.accept_security_context(&scred, Some(&sctx), &[token(&out3[0].bytes)], 0, 16, &mut sctx2,
        &mut out4, &mut attr);
    assert_eq!(r4, Ok(SspiError::Success));
    let session = server.sessions.get(&sctx.dw_lower).unwrap();
    assert_eq!(&session.gatekeeper_id, id);
    assert_eq!(format_gatekeeper_id(&session.gatekeeper_id), "435F4B47494C4E45545F49445F544F4B");

    assert_eq!(server.delete_security_context(&sctx), Ok(()));
    assert!(server.sessions.is_empty());
}

#[test]
fn gatekeeper_refuses_a_tampered_response() {
    let mut client = GateKeeperSecurityProvider::new();
    let mut server = GateKeeperSecurityProvider::new();
    let cred = client.base.creds;
    let mut attr = 0u32;
    let mut cctx = CtxtHandle::default();
    let mut out1 = out_token();
    client.initialize_security_context(&cred, None, None, 0, 16, &[params(b"0123456789ABCDEF"), params(b"hostname")],
        &mut cctx, &mut out1, &mut attr).unwrap();
    let mut sctx = CtxtHandle::default();
    let mut out2 = out_token();
    server.accept_security_context(&cred, None, &[token(&out1[0].bytes), params(b"hostname"), params(&[1])], 0, 16,
        &mut sctx, &mut out2, &mut attr).unwrap();
    let mut out3 = out_token();
    let mut c2 = cctx;
    client.initialize_security_context(&cred, Some(&cctx), None, 0, 16, &[token(&out2[0].bytes)], &mut c2,
        &mut out3, &mut attr).unwrap();
    let mut bad = out3[0].bytes.clone();
    bad[20] ^= 0xFF;
    let mut s2 = sctx;
    let mut out4 = out_token();
    let r = server.accept_security_context(&cred, Some(&sctx), &[token(&bad)], 0, 16, &mut s2, &mut out4, &mut attr);
    assert_eq!(r, Err(SspiError::LogonDenied));
}

#[test]
fn gatekeeper_refusals() {
    let mut p = GateKeeperSecurityProvider::new();
    let mut ctx = CtxtHandle::default();
    let mut attr = 0u32;
    let mut out = out_token();
    let wrong = CredHandle { dw_lower: 1, dw_upper: 2 };
    assert_eq!(p.initialize_security_context(&wrong, None, None, 0, 16, &[], &mut ctx, &mut out, &mut attr),
        Err(SspiError::UnknownCredentials));
    let cred = p.base.creds;
    assert_eq!(p.initialize_security_context(&cred, None, Some("target"), 0, 16, &[], &mut ctx, &mut out, &mut attr),
        Err(SspiError::TargetUnknown));
    assert_eq!(p.initialize_security_context(&cred, None, None, 0, 0, &[], &mut ctx, &mut out, &mut attr),
        Err(SspiError::NotSupported));
    assert_eq!(p.initialize_security_context(&cred, None, None, 0, 16, &[], &mut ctx, &mut out, &mut attr),
        Err(SspiError::InvalidToken));
    let bogus = CtxtHandle { dw_lower: 9, dw_upper: 0x1000 };
    assert_eq!(p.initialize_security_context(&cred, Some(&bogus), None, 0, 16, &[], &mut ctx, &mut out, &mut attr),
        Err(SspiError::InvalidHandle));
    assert_eq!(ctx, CtxtHandle::default());
}

#[test]
fn passport_ticket_travels_in_chunks() {
    let mut client = PassportSecurityProvider::new();
    let mut server = PassportSecurityProvider::new();
    let cred = client.base.creds;
    let ticket: Vec<u8> = (0..1000u32).map(|i| b'a' + (i % 26) as u8).collect();
    let mut attr = 0u32;
    let mut cctx = CtxtHandle::default();
    let mut out = out_token();
    let r = client.initialize_security_context(&cred, None, None, 0, 16, &[token(&ticket)], &mut cctx, &mut out,
        &mut attr);
    assert_eq!(r, Ok(SspiError::ContinueNeeded));
    assert_eq!(out[0].bytes, ticket[..480].to_vec());
    let mut sctx = CtxtHandle::default();
    let mut sout = out_token();
    let r = server.accept_security_context(&cred, None, &[token(&out[0].bytes)], 0, 16, &mut sctx, &mut sout,
        &mut attr);
    assert_eq!(r, Ok(SspiError::ContinueNeeded));
    assert_eq!(sout[0].bytes, b"OK".to_vec());

    let mut chunks = vec![out[0].bytes.clone()];
    loop {
        let mut c2 = cctx;
        let mut o = out_token();
        let r = client.initialize_security_context(&cred, Some(&cctx), None, 0, 16, &[token(b"OK")], &mut c2,
            &mut o, &mut attr).unwrap();
        chunks.push(o[0].bytes.clone());
        let mut s2 = sctx;
        let mut so = out_token();
        let sr = server.accept_security_context(&cred, Some(&sctx), &[token(&o[0].bytes)], 0, 16, &mut s2, &mut so,
            &mut attr).unwrap();
        if r == SspiError::Success {
            assert_eq!(sr, SspiError::Success);
            break;
        }
        assert_eq!(sr, SspiError::ContinueNeeded);
    }
    assert_eq!(chunks.len(), 3);
    assert_eq!(chunks.concat(), ticket);
    let session = server.sessions.get(&sctx.dw_lower).unwrap();
    assert!(session.is_finished);
    assert_eq!(session.client_info, String::from_utf8(ticket).unwrap());
}

#[test]
fn passport_refuses_oversized_tickets() {
    let mut client = PassportSecurityProvider::new();
    let cred = client.base.creds;
    let mut attr = 0u32;
    let mut cctx = CtxtHandle::default();
    let mut out = out_token();
    let r = client.initialize_security_context(&cred, None, None, 0, 16, &[token(&vec![b'x'; 4097])], &mut cctx,
        &mut out, &mut attr);
    assert_eq!(r, Err(SspiError::InvalidToken));
}

#[test]
fn gatekeeper_passport_runs_both_phases() {
    let mut client = GateKeeperPassportSecurityProvider::new();
    let mut server = GateKeeperPassportSecurityProvider::new();
    assert_eq!(client.base.creds, CredHandle { dw_lower: 0x5001, dw_upper: 0xAAAA });
    let cred = client.base.creds;
    let mut attr = 0u32;

    let mut cctx = CtxtHandle::default();
    let mut o1 = out_token();
    assert_eq!(client.initialize_security_context(&cred, None, None, 0, 16,
        &[params(b"GK_CLIENT_ID_TOK"), params(b"localhost")], &mut cctx, &mut o1, &mut attr),
        Ok(SspiError::ContinueNeeded));
    assert_eq!(cctx.dw_upper, 0x4000);

    let mut sctx = CtxtHandle::default();
    let mut o2 = out_token();
    assert_eq!(server.accept_security_context(&cred, None, &[token(&o1[0].bytes), params(b"localhost"), params(&[1])],
        0, 16, &mut sctx, &mut o2, &mut attr), Ok(SspiError::ContinueNeeded));
    assert_eq!(sctx.dw_upper, 0xA000);

    let mut c2 = cctx;
    let mut o3 = out_token();
    assert_eq!(client.initialize_security_context(&cred, Some(&cctx), None, 0, 16, &[token(&o2[0].bytes)], &mut c2,
        &mut o3, &mut attr), Ok(SspiError::ContinueNeeded));

    let mut s2 = sctx;
    let mut o4 = out_token();
    assert_eq!(server.accept_security_context(&cred, Some(&sctx), &[token(&o3[0].bytes)], 0, 16, &mut s2, &mut o4,
        &mut attr), Ok(SspiError::ContinueNeeded));
    assert_eq!(o4[0].bytes, b"OK".to_vec());
    assert_eq!(server.sessions.get(&sctx.dw_lower).unwrap().state, 162);

    let mut c3 = cctx;
    let mut o5 = out_token();
    assert_eq!(client.initialize_security_context(&cred, Some(&cctx), None, 0, 16,
        &[token(b"OK"), token(b"ticket-for-bob")], &mut c3, &mut o5, &mut attr), Ok(SspiError::Success));
    assert_eq!(o5[0].bytes, b"ticket-for-bob".to_vec());
    assert_eq!(client.sessions.get(&cctx.dw_lower).unwrap().state, 163);

    let mut s3 = sctx;
    let mut o6 = out_token();
    assert_eq!(server.accept_security_context(&cred, Some(&sctx), &[token(&o5[0].bytes)], 0, 16, &mut s3, &mut o6,
        &mut attr), Ok(SspiError::Success));
    let comb = *server.sessions.get(&sctx.dw_lower).unwrap();
    assert_eq!(comb.state, 163);
    let pctx = comb.slot1_context.unwrap();
    assert_eq!(server.sub_passport.sessions.get(&pctx.dw_lower).unwrap().client_info, "ticket-for-bob");

    assert_eq!(server.delete_security_context(&sctx), Ok(()));
    assert!(server.sessions.is_empty());
    assert!(server.sub_gk.sessions.is_empty());
    assert!(server.sub_passport.sessions.is_empty());
}

#[test]
fn combined_providers_refuse_unknown_contexts() {
    let mut gkp = GateKeeperPassportSecurityProvider::new();
    let mut np = NtlmPassportSecurityProvider::new();
    let mut attr = 0u32;
    let bogus = CtxtHandle { dw_lower: 5, dw_upper: 0x4000 };
    let mut ctx = CtxtHandle::default();
    let mut out = out_token();
    let cred = gkp.base.creds;
    assert_eq!(gkp.initialize_security_context(&cred, Some(&bogus), None, 0, 16, &[], &mut ctx, &mut out, &mut attr),
        Err(SspiError::InvalidHandle));
    let cred = np.base.creds;
    assert_eq!(np.accept_security_context(&cred, Some(&bogus), &[], 0, 16, &mut ctx, &mut out, &mut attr),
        Err(SspiError::InvalidHandle));
    assert_eq!(np.base.creds, CredHandle { dw_lower: 0x6001, dw_upper: 0xBBBB });
}

#[test]
fn ntlm_statuses_map_to_results() {
    assert_eq!(ntlm_status_result(NtlmStatus::Success), Ok(SspiError::Success));
    assert_eq!(ntlm_status_result(NtlmStatus::CompleteNeeded), Ok(SspiError::Success));
    assert_eq!(ntlm_status_result(NtlmStatus::ContinueNeeded), Ok(SspiError::ContinueNeeded));
    assert_eq!(ntlm_status_result(NtlmStatus::Renegotiate), Err(SspiError::InvalidToken));
}

#[test]
fn ntlm_negotiate_and_challenge() {
    let mut client = NtlmSecurityProvider::new();
    let mut server = NtlmSecurityProvider::new();
    let cred = client.base.creds;
    assert_eq!(cred, CredHandle { dw_lower: 0x4001, dw_upper: 0x6666 });
    let mut attr = 0u32;
    let mut cctx = CtxtHandle::default();
    let mut o1 = out_token();
    let r1 = client.initialize_security_context(&cred, None, None, 0, 16, &[], &mut cctx, &mut o1, &mut attr);
    assert_eq!(r1, Ok(SspiError::ContinueNeeded));
    assert_eq!(cctx, CtxtHandle { dw_lower: 1, dw_upper: 0x5000 });
    assert_eq!(&o1[0].bytes[..8], b"NTLMSSP\0");
    assert_eq!(o1[0].bytes[8], 1);

    let mut sctx = CtxtHandle::default();
    let mut o2 = out_token();
    let r2 = server.accept_security_context(&cred, None, &[token(&o1[0].bytes)], 0, 16, &mut sctx, &mut o2, &mut attr);
    assert_eq!(r2, Ok(SspiError::ContinueNeeded));
    assert_eq!(sctx, CtxtHandle { dw_lower: 1, dw_upper: 0x6000 });
    assert_eq!(&o2[0].bytes[..8], b"NTLMSSP\0");
    assert_eq!(o2[0].bytes[8], 2);

    let mut c2 = cctx;
    let mut o3 = out_token();
    let r3 = client.initialize_security_context(&cred, Some(&cctx), None, 0, 16, &[token(&o2[0].bytes)], &mut c2,
        &mut o3, &mut attr);
    assert!(r3.is_ok());
    assert_eq!(&o3[0].bytes[..8], b"NTLMSSP\0");
    assert_eq!(o3[0].bytes[8], 3);

    let wrong = CredHandle { dw_lower: 1, dw_upper: 1 };
    let mut ctx = CtxtHandle::default();
    assert_eq!(server.accept_security_context(&wrong, None, &[], 0, 16, &mut ctx, &mut o3, &mut attr),
        Err(SspiError::UnknownCredentials));
    assert_eq!(server.delete_security_context(&sctx), Ok(()));
    assert!(server.sessions.is_empty());
}

#[test]
fn sam_package_wipes_its_secrets() {
    let mut p = SamPackage::new("operator".to_string(), [7u8; 16]);
    assert_eq!(p.username, "operator");
    p.wipe();
    assert_eq!(p.username, "");
    assert_eq!(p.nt_hash, [0u8; 16]);
}

fn ntlm_login(password: &str) -> (NtlmSecurityProvider, NtlmSecurityProvider, CtxtHandle, Result<SspiError, SspiError>) {
    let mut client = NtlmSecurityProvider::new();
    let mut server = NtlmSecurityProvider::new();
    let mut vault = Vault::new();
    vault.add_user("TestUser", password, "", UserLevel::Admin);
    server.set_accounts(vault);
    let cred = client.base.creds;
    let mut attr = 0u32;
    let mut cctx = CtxtHandle::default();
    let mut o1 = out_token();
    client.initialize_security_context(&cred, None, None, 0, 16, &[], &mut cctx, &mut o1, &mut attr).unwrap();
    let mut sctx = CtxtHandle::default();
    let mut o2 = out_token();
    server.accept_security_context(&cred, None, &[token(&o1[0].bytes)], 0, 16, &mut sctx, &mut o2, &mut attr)
        .unwrap();
    let mut c2 = cctx;
    let mut o3 = out_token();
    let r3 = client.initialize_security_context(&cred, Some(&cctx), None, 0, 16, &[token(&o2[0].bytes)], &mut c2,
        &mut o3, &mut attr);
    assert_eq!(r3, Ok(SspiError::Success));
    let mut s2 = sctx;
    let mut o4 = out_token();
    let r4 = server.accept_security_context(&cred, Some(&sctx), &[token(&o3[0].bytes)], 0, 16, &mut s2, &mut o4,
        &mut attr);
    (client, server, sctx, r4)
}

#[test]
fn ntlm_logon_names_the_vault_user() {
    let (_client, server, sctx, r) = ntlm_login("password");
    assert_eq!(r, Ok(SspiError::Success));
    let s = server.sessions.get(&sctx.dw_lower).unwrap();
    assert_eq!(s.authenticated_username.as_deref(), Some("TestUser"));
    assert_eq!(s.authenticated_domain.as_deref(), Some(""));
    assert_eq!(s.authenticated_level, Some(UserLevel::Admin));
    let gk = GateKeeperSecurityProvider::new();
    assert_eq!(context_user_name(&gk, &server, &sctx), Some("TestUser".to_string()));
}

#[test]
fn ntlm_logon_with_a_password_no_account_has_is_denied() {
    let (_client, server, sctx, r) = ntlm_login("another");
    assert_eq!(r, Err(SspiError::LogonDenied));
    assert!(server.sessions.get(&sctx.dw_lower).unwrap().authenticated_username.is_none());
}

#[test]
fn gatekeeper_server_finishes_without_output_buffers() {
    let mut client = GateKeeperSecurityProvider::new();
    let mut server = GateKeeperSecurityProvider::new();
    let ccred = client.base.creds;
    let scred = server.base.creds;
    let mut attr = 0u32;
    let mut cctx = CtxtHandle::default();
    let mut out1 = out_token();
    client.initialize_security_context(&ccred, None, None, 0, 16, &[params(b"GK_CLIENT_ID_TOK"), params(b"chat.msn.com")],
        &mut cctx, &mut out1, &mut attr).unwrap();
    let mut sctx = CtxtHandle::default();
    let mut out2 = out_token();
    server.accept_security_context(&scred, None, &[token(&out1[0].bytes), params(b"chat.msn.com")], 0, 16,
        &mut sctx, &mut out2, &mut attr).unwrap();
    let mut c2 = cctx;
    let mut out3 = out_token();
    client.initialize_security_context(&ccred, Some(&cctx), None, 0, 16, &[token(&out2[0].bytes)], &mut c2,
        &mut out3, &mut attr).unwrap();
    let mut s2 = sctx;
    let mut none: Vec<SecBuffer> = Vec::new();
    let r = server.accept_security_context(&scred, Some(&sctx), &[token(&out3[0].bytes)], 0, 16, &mut s2,
        &mut none, &mut attr);
    assert_eq!(r, Ok(SspiError::Success));
    assert_eq!(s2, sctx);
    assert_eq!(format_gatekeeper_id(&server.sessions.get(&sctx.dw_lower).unwrap().gatekeeper_id),
        "435F4B47494C4E45545F49445F544F4B");
}
