use ircx_sspi::wire::{
    auth_command_line, drop_cr, escape, failure_reply, parse_auth_line, parse_continue_reply, success_reply, unescape,
    AuthPackage, LineBuffer,
};

#[test]
fn escaping_covers_the_special_bytes() {
    assert_eq!(escape(b"a b,c\r\n\0\t\\"), b"a\\bb\\cc\\r\\n\\0\\t\\\\".to_vec());
    assert_eq!(escape(b""), Vec::<u8>::new());
    assert_eq!(escape(b"GKSSP"), b"GKSSP".to_vec());
}

#[test]
fn unescaping_reads_known_sequences_and_keeps_others() {
    assert_eq!(unescape(b"a\\bb\\cc\\r\\n\\0\\t\\\\"), b"a b,c\r\n\0\t\\".to_vec());
    assert_eq!(unescape(b"\\x"), b"\\x".to_vec());
    assert_eq!(unescape(b"end\\"), b"end\\".to_vec());
}

#[test]
fn unescape_undoes_escape() {
    let all: Vec<u8> = (0..=255u8).collect();
    assert_eq!(unescape(&escape(&all)), all);
    let tricky = b"\\\\b \\c".to_vec();
    assert_eq!(unescape(&escape(&tricky)), tricky);
}

#[test]
fn auth_lines_parse_into_package_stage_and_payload() {
    let (pkg, stage, payload) = parse_auth_line(b"AUTH GateKeeper I :GKSSP\\0").unwrap();
    assert_eq!(pkg, AuthPackage::GateKeeper);
    assert_eq!(stage, 'I');
    assert_eq!(payload, b"GKSSP\\0".to_vec());

    let (pkg, stage, payload) = parse_auth_line(b"AUTH NTLMPassport S abc").unwrap();
    assert_eq!(pkg, AuthPackage::NtlmPassport);
    assert_eq!(stage, 'S');
    assert_eq!(payload, b"abc".to_vec());

    let (pkg, stage, payload) = parse_auth_line(b"AUTH NTLM Start").unwrap();
    assert_eq!(pkg, AuthPackage::Ntlm);
    assert_eq!(stage, 'S');
    assert!(payload.is_empty());

    assert!(parse_auth_line(b"AUTH Kerberos I :x").is_none());
    assert!(parse_auth_line(b"AUTH GateKeeper X :x").is_none());
    assert!(parse_auth_line(b"AUTH GateKeeper").is_none());
    assert!(parse_auth_line(b"NICK bob").is_none());
    assert!(parse_auth_line(b"AUTH GateKeeper  :x").is_none());
}

#[test]
fn built_commands_parse_back() {
    let tok = b"GKSSP\0\0\0 ,\r\n".to_vec();
    let line = auth_command_line(AuthPackage::GateKeeperPassport, b'I', &tok);
    assert_eq!(&line[..30], b"AUTH GateKeeperPassport I :GKS");
    let (pkg, stage, payload) = parse_auth_line(&line).unwrap();
    assert_eq!(pkg, AuthPackage::GateKeeperPassport);
    assert_eq!(stage, 'I');
    assert_eq!(unescape(&payload), tok);
}

#[test]
fn replies_have_the_protocol_form() {
    assert_eq!(success_reply(AuthPackage::Ntlm, "bob@msn.com"), b"AUTH NTLM * bob@msn.com 0".to_vec());
    assert_eq!(failure_reply(), b":server 910 * :Auth failed".to_vec());
    let reply = b"AUTH GateKeeper S :\\bx\\c".to_vec();
    assert_eq!(parse_continue_reply(&reply, AuthPackage::GateKeeper), Some(b" x,".to_vec()));
    assert_eq!(parse_continue_reply(&reply, AuthPackage::Ntlm), None);
    assert_eq!(drop_cr(b"ab\rc\r"), b"abc".to_vec());
}

#[test]
fn line_buffer_cuts_at_cr_and_lf() {
    let mut lb = LineBuffer::new();
    let lines = lb.feed(b"AUTH NTLM I :x\r\nPI");
    assert_eq!(lines, vec![b"AUTH NTLM I :x".to_vec()]);
    let lines = lb.feed(b"NG\n \t \r\nlast");
    assert_eq!(lines, vec![b"PING".to_vec()]);
    let lines = lb.feed(b"\n");
    assert_eq!(lines, vec![b"last".to_vec()]);
    assert!(lb.feed(b"").is_empty());
}

#[test]
fn line_buffer_does_not_depend_on_chunking() {
    let stream = b"one\r\ntwo\n\nthree\rfour".to_vec();
    let mut whole = LineBuffer::new();
    let all = whole.feed(&stream);
    for cut in 0..stream.len() {
        let mut parts = LineBuffer::new();
        let mut got = parts.feed(&stream[..cut]);
        got.extend(parts.feed(&stream[cut..]));
        assert_eq!(got, all);
    }
    assert_eq!(all, vec![b"one".to_vec(), b"two".to_vec(), b"three".to_vec()]);
}
