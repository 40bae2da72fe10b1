use ircx_sspi::dll::{
    ansi_z, format_gatekeeper_id, ntlm_context_name, provider_for_context, provider_for_credential,
    provider_for_package, security_packages, wide_z, write_back_bytes, CharSet, PackageKind,
};
use ircx_sspi::{CredHandle, CtxtHandle, GateKeeperSecurityProvider, SecBuffer, SecBufferType, SecurityProvider};

#[test]
fn gatekeeper_ids_display_in_guid_order() {
    assert_eq!(format_gatekeeper_id(b"GK_CLIENT_ID_TOK"), "435F4B47494C4E45545F49445F544F4B");
    let bytes: [u8; 16] = [0x00, 0x01, 0x02, 0x03, 0x04, 0x05, 0x06, 0x07, 0x08, 0x09, 0x0A, 0x0B, 0x0C, 0x0D, 0x0E, 0xFF];
    assert_eq!(format_gatekeeper_id(&bytes), "030201000504070608090A0B0C0D0EFF");
}

#[test]
fn handles_route_by_upper_word() {
    assert_eq!(provider_for_credential(&CredHandle { dw_lower: 1, dw_upper: 0x8888 }), Some(PackageKind::GateKeeper));
    assert_eq!(provider_for_credential(&CredHandle { dw_lower: 1, dw_upper: 0x6666 }), Some(PackageKind::Ntlm));
    assert_eq!(provider_for_credential(&CredHandle { dw_lower: 1, dw_upper: 0x9999 }), None);
    assert_eq!(provider_for_context(&CtxtHandle { dw_lower: 1, dw_upper: 0x1000 }), Some(PackageKind::GateKeeper));
    assert_eq!(provider_for_context(&CtxtHandle { dw_lower: 1, dw_upper: 0x2000 }), Some(PackageKind::GateKeeper));
    assert_eq!(provider_for_context(&CtxtHandle { dw_lower: 1, dw_upper: 0x5000 }), Some(PackageKind::Ntlm));
    assert_eq!(provider_for_context(&CtxtHandle { dw_lower: 1, dw_upper: 0x6000 }), Some(PackageKind::Ntlm));
    assert_eq!(provider_for_context(&CtxtHandle { dw_lower: 1, dw_upper: 0x3000 }), None);
}

#[test]
fn package_names_route_without_regard_to_case() {
    assert_eq!(provider_for_package("GateKeeper"), Some(PackageKind::GateKeeper));
    assert_eq!(provider_for_package("GATEKEEPER"), Some(PackageKind::GateKeeper));
    assert_eq!(provider_for_package("ntlm"), Some(PackageKind::Ntlm));
    assert_eq!(provider_for_package("Negotiate"), None);
    assert_eq!(provider_for_package("GateKeeperPassport"), None);
}

#[test]
fn package_table_lists_both_packages() {
    let a = security_packages(CharSet::Ansi);
    assert_eq!(a.len(), 2);
    assert_eq!(a[0].name, "GateKeeper");
    assert_eq!(a[0].comment, "GateKeeper Security Package");
    assert_eq!((a[0].capabilities, a[0].version, a[0].rpc_id, a[0].max_token), (0x34, 1, 0xFFFF, 0x40));
    assert_eq!(a[1].name, "NTLM");
    assert_eq!(a[1].comment, "NTLM Security Package");
    assert_eq!((a[1].capabilities, a[1].version, a[1].rpc_id, a[1].max_token), (0x14, 1, 10, 2888));
    let w = security_packages(CharSet::Wide);
    assert_eq!(w[1].comment, "Microsoft NTLM Security Provider");
}

#[test]
fn c_strings_are_terminated() {
    assert_eq!(ansi_z("ab"), vec![b'a', b'b', 0]);
    assert_eq!(ansi_z(""), vec![0]);
    assert_eq!(wide_z("ab"), vec![0x61, 0x62, 0]);
    assert_eq!(wide_z("😀"), vec![0xD83D, 0xDE00, 0]);
}

#[test]
fn ntlm_context_names() {
    assert_eq!(ntlm_context_name(Some("MSN"), Some("bob")), "MSN\\bob");
    assert_eq!(ntlm_context_name(Some(""), Some("bob")), "bob");
    assert_eq!(ntlm_context_name(None, Some("bob")), "bob");
    assert_eq!(ntlm_context_name(Some("MSN"), None), "user");
    assert_eq!(ntlm_context_name(None, None), "user");
}

#[test]
fn contexts_a_provider_makes_route_back_to_it() {
    let mut gk = GateKeeperSecurityProvider::new();
    let mut cred = CredHandle::default();
    gk.acquire_credentials_handle(None, "GateKeeper", 1, None, &mut cred).unwrap();
    assert_eq!(provider_for_credential(&cred), Some(PackageKind::GateKeeper));
    let params = |b: &[u8]| SecBuffer { buffer_type: SecBufferType::PkgParams, bytes: b.to_vec() };
    let mut ctx = CtxtHandle::default();
    let mut out = vec![SecBuffer { buffer_type: SecBufferType::Token, bytes: Vec::new() }];
    let mut attr = 0u32;
    gk.initialize_security_context(&cred, None, None, 0, 16, &[params(b"GK_CLIENT_ID_TOK"), params(b"localhost")],
        &mut ctx, &mut out, &mut attr).unwrap();
    assert_eq!(provider_for_context(&ctx), Some(PackageKind::GateKeeper));
}

#[test]
fn write_back_takes_the_first_buffer_of_the_type_as_far_as_it_fits() {
    let bufs = vec![
        SecBuffer { buffer_type: SecBufferType::PkgParams, bytes: vec![9] },
        SecBuffer { buffer_type: SecBufferType::Token, bytes: vec![1, 2, 3, 4] },
        SecBuffer { buffer_type: SecBufferType::Token, bytes: vec![5] },
    ];
    assert_eq!(write_back_bytes(&bufs, SecBufferType::Token, 2), Some(vec![1, 2]));
    assert_eq!(write_back_bytes(&bufs, SecBufferType::Token, 10), Some(vec![1, 2, 3, 4]));
    assert_eq!(write_back_bytes(&bufs, SecBufferType::Other, 10), None);
}
