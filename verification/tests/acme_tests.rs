use gproxy::acme::{
    acme_job, expiry_against, expiry_by, expiry_order, load_certs_from_disk, needs_renewal,
    new_account_key, paired, parse_certificate, read_account_key, AcmeAction, AcmeEvent, AcmeJob, AcmeWorker, DynamicCert, ExpiryOrder,
};
use gproxy::config::{AcmeSettings, ServerSettings, Settings, TlsSettings, UpstreamSettings};
use gproxy::redirect::ChallengeTable;
use openssl::asn1::Asn1Time;
use openssl::ec::{EcGroup, EcKey};
use openssl::hash::MessageDigest;
use openssl::nid::Nid;
use openssl::pkey::PKey;
use openssl::x509::{X509Name, X509};

fn settings(acme: Option<AcmeSettings>) -> Settings {
    Settings {
        server: ServerSettings {
            addr: "a".to_string(),
            grace_period_sec: 1,
            log_level: "info".to_string(),
            http_addr: None,
            metrics_addr: None,
            tls: Some(TlsSettings { enabled: false, cert_path: None, key_path: None, acme }),
            cookie_secret: None,
        },
        upstream: UpstreamSettings { routes: vec![], fallback: None },
    }
}

fn acme(enabled: bool, domains: &[&str], email: &str) -> Option<AcmeSettings> {
    Some(AcmeSettings {
        enabled,
        domains: domains.iter().map(|d| d.to_string()).collect(),
        email: email.to_string(),
        staging: true,
        cache_dir: "certs".to_string(),
        directory_url: None,
    })
}

/// A self-signed certificate that expires at the given second, with its key, both in PEM.
fn certificate(not_after: i64) -> (Vec<u8>, Vec<u8>) {
    let group = EcGroup::from_curve_name(Nid::X9_62_PRIME256V1).unwrap();
    let key = PKey::from_ec_key(EcKey::generate(&group).unwrap()).unwrap();
    let mut name = X509Name::builder().unwrap();
    name.append_entry_by_text("CN", "example.com").unwrap();
    let name = name.build();
    let mut builder = X509::builder().unwrap();
    builder.set_version(2).unwrap();
    builder.set_subject_name(&name).unwrap();
    builder.set_issuer_name(&name).unwrap();
    builder.set_pubkey(&key).unwrap();
    builder.set_not_before(&Asn1Time::from_unix(0).unwrap()).unwrap();
    builder.set_not_after(&Asn1Time::from_unix(not_after).unwrap()).unwrap();
    builder.sign(&key, MessageDigest::sha256()).unwrap();
    (builder.build().to_pem().unwrap(), key.private_key_to_pem_pkcs8().unwrap())
}

fn in_days(days: i64) -> i64 {
    chrono::Utc::now().timestamp() + days * 86400
}

#[test]
fn certificates_are_read_from_pem() {
    let (cert, key) = certificate(2_000_000_000);
    let (c, k) = load_certs_from_disk(Some(cert.clone()), Some(key.clone())).unwrap();
    assert_eq!(c.to_pem().unwrap(), cert);
    assert_eq!(k.private_key_to_pem_pkcs8().unwrap(), key);
    assert!(c.public_key().unwrap().public_eq(&k));
}

#[test]
fn both_files_must_be_there_and_readable() {
    let (cert, key) = certificate(2_000_000_000);
    assert!(load_certs_from_disk(None, Some(key.clone())).is_none());
    assert!(load_certs_from_disk(Some(cert.clone()), None).is_none());
    assert!(load_certs_from_disk(None, None).is_none());
    assert!(load_certs_from_disk(Some(key.clone()), Some(key.clone())).is_none());
    assert!(load_certs_from_disk(Some(cert.clone()), Some(cert.clone())).is_none());
    assert!(parse_certificate(b"", &key).is_none());
    assert!(parse_certificate(&cert, b"junk").is_none());
    assert!(parse_certificate(&cert, &key).is_some());
    let good = || Some(PKey::private_key_from_pem(&key));
    assert!(paired(X509::from_pem(&cert), good()).is_some());
    assert!(paired(X509::from_pem(b"junk"), good()).is_none());
    assert!(paired(X509::from_pem(&cert), Some(PKey::private_key_from_pem(b"junk"))).is_none());
    assert!(paired(X509::from_pem(&cert), None).is_none());
}

#[test]
fn the_key_comes_from_the_key_text_alone() {
    let (cert, key) = certificate(2_000_000_000);
    let both = [cert.clone(), key.clone()].concat();
    assert!(parse_certificate(&both, b"").is_none());
    assert!(parse_certificate(&both, &cert).is_none());
    let (_, other) = certificate(2_000_000_000);
    let (_, k) = parse_certificate(&both, &other).unwrap();
    assert_eq!(k.private_key_to_pem_pkcs8().unwrap(), other);
}

#[test]
fn the_first_certificate_of_a_chain_is_used() {
    let (leaf, key) = certificate(2_000_000_000);
    let (issuer, _) = certificate(1_900_000_000);
    let chain = [leaf.clone(), issuer].concat();
    let (c, _) = parse_certificate(&chain, &key).unwrap();
    assert_eq!(c.to_pem().unwrap(), leaf);
}

#[test]
fn expiry_is_compared_by_the_second() {
    let (cert, _) = certificate(2_000_000_000);
    let cert = X509::from_pem(&cert).unwrap();
    let against = |t| expiry_against(&cert, &Asn1Time::from_unix(t).unwrap());
    assert_eq!(against(1_999_999_999), ExpiryOrder::Later);
    assert_eq!(against(2_000_000_000), ExpiryOrder::Same);
    assert_eq!(against(2_000_000_001), ExpiryOrder::Earlier);
    assert_eq!(against(0), ExpiryOrder::Later);
}

#[test]
fn certificates_are_renewed_in_their_last_thirty_days() {
    let order = |days| {
        let (cert, _) = certificate(in_days(days));
        expiry_order(&X509::from_pem(&cert).unwrap()).unwrap()
    };
    assert_eq!(order(31), ExpiryOrder::Later);
    assert_eq!(order(29), ExpiryOrder::Earlier);
    let (cert, _) = certificate(in_days(30) + 600);
    let order_in = expiry_order(&X509::from_pem(&cert).unwrap()).unwrap();
    assert_eq!(order_in, ExpiryOrder::Later);
    let (cert, _) = certificate(in_days(30) - 600);
    let order_in = expiry_order(&X509::from_pem(&cert).unwrap()).unwrap();
    assert_eq!(order_in, ExpiryOrder::Earlier);
    assert_eq!(order(-1), ExpiryOrder::Earlier);
    assert!(!needs_renewal(ExpiryOrder::Later));
    assert!(needs_renewal(ExpiryOrder::Same));
    assert!(needs_renewal(ExpiryOrder::Earlier));
    assert!(needs_renewal(ExpiryOrder::Unknown));
}

#[test]
fn the_expiry_goes_by_the_limit_that_was_had() {
    let (cert, _) = certificate(2_000_000_000);
    let cert = X509::from_pem(&cert).unwrap();
    let at = |t| Asn1Time::from_unix(t);
    let none = || Asn1Time::from_str("no time");
    assert!(none().is_err());
    assert_eq!(expiry_by(&cert, at(1_999_999_999), None), Some(ExpiryOrder::Later));
    assert_eq!(expiry_by(&cert, at(2_000_000_001), Some(at(0))), Some(ExpiryOrder::Earlier));
    assert_eq!(expiry_by(&cert, none(), Some(at(2_000_000_000))), Some(ExpiryOrder::Same));
    assert_eq!(expiry_by(&cert, none(), Some(none())), None);
    assert_eq!(expiry_by(&cert, none(), None), None);
}

#[test]
fn the_installed_certificate_is_kept_until_renewed() {
    let (cert1, key1) = certificate(2_000_000_000);
    let (cert2, key2) = certificate(2_000_000_000);
    let mut installed = DynamicCert::new();
    assert!(installed.current().is_none());
    installed.install_if_empty(parse_certificate(&cert1, &key1).unwrap());
    installed.install_if_empty(parse_certificate(&cert2, &key2).unwrap());
    assert_eq!(installed.current().unwrap().0.to_pem().unwrap(), cert1);
    assert!(!installed.renew(&cert2, b"junk"));
    assert!(!installed.renew(b"junk", &key2));
    assert_eq!(installed.current().unwrap().0.to_pem().unwrap(), cert1);
    assert!(installed.renew(&cert2, &key2));
    assert_eq!(installed.current().unwrap().0.to_pem().unwrap(), cert2);
    assert_eq!(installed.current().unwrap().1.private_key_to_pem_pkcs8().unwrap(), key2);
    assert!(!installed.install_if_read(None));
    assert_eq!(installed.current().unwrap().0.to_pem().unwrap(), cert2);
    installed.install(parse_certificate(&cert1, &key1).unwrap());
    assert_eq!(installed.current().unwrap().0.to_pem().unwrap(), cert1);
}

#[test]
fn account_keys_are_kept_in_their_bytes() {
    let (_, der) = new_account_key().unwrap();
    let (_, other) = new_account_key().unwrap();
    assert_ne!(der, other);
    assert!(read_account_key(Some(der.clone())).is_some());
    assert!(PKey::private_key_from_pkcs8(&der).is_ok());
    assert!(read_account_key(None).is_none());
    assert!(read_account_key(Some(der[1..].to_vec())).is_none());
    assert!(read_account_key(Some(vec![])).is_none());
}

#[test]
fn jobs_come_from_the_settings() {
    assert!(acme_job(&settings(None)).is_none());
    assert!(acme_job(&settings(acme(false, &["a.example"], ""))).is_none());
    assert!(acme_job(&settings(acme(true, &[], ""))).is_none());
    let mut without_tls = settings(None);
    without_tls.server.tls = None;
    assert!(acme_job(&without_tls).is_none());
    let job = acme_job(&settings(acme(true, &["a.example", "b.example"], "me@a.example"))).unwrap();
    assert_eq!(job.domains, vec!["a.example".to_string(), "b.example".to_string()]);
    assert_eq!(job.email, "me@a.example");
    assert!(job.staging);
    assert_eq!(job.cache_dir, "certs");
    assert_eq!(job.custom_directory_url, None);
}

fn job(email: &str, staging: bool, url: Option<&str>) -> AcmeJob {
    AcmeJob {
        domains: vec!["a.example".to_string()],
        email: email.to_string(),
        staging,
        cache_dir: "certs".to_string(),
        custom_directory_url: url.map(|u| u.to_string()),
    }
}

#[test]
fn the_directory_is_custom_or_that_of_lets_encrypt() {
    assert_eq!(
        job("", true, None).directory_url(),
        "https://acme-staging-v02.api.letsencrypt.org/directory"
    );
    assert_eq!(
        job("", false, None).directory_url(),
        "https://acme-v02.api.letsencrypt.org/directory"
    );
    assert_eq!(job("", true, Some("https://ca/dir")).directory_url(), "https://ca/dir");
}

#[test]
fn the_contact_is_a_mail_address() {
    assert_eq!(job("me@a.example", true, None).contact().as_deref(), Some("mailto:me@a.example"));
    assert_eq!(job("", true, None).contact(), None);
}

const DAY: AcmeAction = AcmeAction::Sleep { secs: 86400 };

struct Run {
    worker: AcmeWorker,
    settings: Settings,
    challenges: ChallengeTable,
}

impl Run {
    fn new(settings: Settings) -> Run {
        let worker = AcmeWorker::new();
        assert_eq!(worker.pending, AcmeAction::Sleep { secs: 0 });
        Run { worker, settings, challenges: ChallengeTable::new() }
    }

    fn step(&mut self, event: AcmeEvent) -> Option<AcmeAction> {
        self.worker.step(&self.settings, &mut self.challenges, event)
    }

    fn expect(&mut self, event: AcmeEvent, action: AcmeAction) {
        assert_eq!(self.step(event), Some(action));
        assert_eq!(self.worker.pending, action);
    }

    /// Runs up to the first authorization of an order.
    fn ordered() -> Run {
        let mut run = Run::new(settings(acme(true, &["a.example"], "")));
        run.expect(AcmeEvent::Done, AcmeAction::CreateCacheDir);
        run.expect(AcmeEvent::Done, AcmeAction::LoadCertificates);
        run.expect(AcmeEvent::NoCertificate, AcmeAction::ReadAccountKey);
        run.expect(AcmeEvent::Done, AcmeAction::BuildAccount);
        run.expect(AcmeEvent::Done, AcmeAction::RereadAccountKey);
        run.expect(AcmeEvent::Done, AcmeAction::RegisterAccount);
        run.expect(AcmeEvent::Done, AcmeAction::PlaceOrder);
        run.expect(AcmeEvent::Done, AcmeAction::NextAuthorization);
        run
    }
}

fn challenge(token: &str) -> AcmeEvent {
    AcmeEvent::Challenge { token: token.to_string(), key_authorization: format!("{}.key", token) }
}

#[test]
fn without_a_job_the_worker_sleeps_for_a_day() {
    let mut run = Run::new(settings(acme(true, &[], "")));
    run.expect(AcmeEvent::Done, DAY);
    assert!(run.worker.job.is_none());
    run.settings = settings(acme(true, &["a.example"], ""));
    run.expect(AcmeEvent::Done, AcmeAction::CreateCacheDir);
    assert_eq!(run.worker.job.as_ref().unwrap().domains, vec!["a.example".to_string()]);
}

#[test]
fn a_whole_order() {
    let mut run = Run::ordered();
    run.expect(challenge("one"), AcmeAction::AnnounceReady);
    assert_eq!(run.challenges.get("one").as_deref(), Some("one.key"));
    run.expect(AcmeEvent::Done, AcmeAction::NextAuthorization);
    run.expect(challenge("two"), AcmeAction::AnnounceReady);
    assert_eq!(run.challenges.get("one").as_deref(), Some("one.key"));
    assert_eq!(run.challenges.get("two").as_deref(), Some("two.key"));
    run.expect(AcmeEvent::Done, AcmeAction::NextAuthorization);
    run.expect(AcmeEvent::NoMoreAuthorizations, AcmeAction::PollReady { timeout_secs: 120 });
    run.expect(AcmeEvent::Done, AcmeAction::FinalizeOrder);
    run.expect(AcmeEvent::Done, AcmeAction::PollCertificate { timeout_secs: 120 });
    run.expect(AcmeEvent::Done, AcmeAction::StoreCertificate);
    assert_eq!(run.challenges.get("one").as_deref(), Some("one.key"));
    run.expect(AcmeEvent::Done, DAY);
    assert_eq!(run.challenges.get("one"), None);
    assert_eq!(run.challenges.get("two"), None);
}

#[test]
fn a_good_certificate_is_installed_and_kept() {
    let mut run = Run::new(settings(acme(true, &["a.example"], "")));
    run.expect(AcmeEvent::Done, AcmeAction::CreateCacheDir);
    run.expect(AcmeEvent::Failed, AcmeAction::LoadCertificates);
    run.expect(AcmeEvent::Certificate { expiry: ExpiryOrder::Later }, AcmeAction::InstallIfEmpty);
    run.expect(AcmeEvent::Done, DAY);
}

#[test]
fn any_other_certificate_is_renewed() {
    for expiry in [ExpiryOrder::Same, ExpiryOrder::Earlier, ExpiryOrder::Unknown] {
        let mut run = Run::new(settings(acme(true, &["a.example"], "")));
        run.expect(AcmeEvent::Done, AcmeAction::CreateCacheDir);
        run.expect(AcmeEvent::Done, AcmeAction::LoadCertificates);
        run.expect(AcmeEvent::Certificate { expiry }, AcmeAction::ReadAccountKey);
    }
}

#[test]
fn account_troubles_shorten_the_pause() {
    let mut run = Run::new(settings(acme(true, &["a.example"], "me@a.example")));
    run.expect(AcmeEvent::Done, AcmeAction::CreateCacheDir);
    run.expect(AcmeEvent::Done, AcmeAction::LoadCertificates);
    run.expect(AcmeEvent::NoCertificate, AcmeAction::ReadAccountKey);
    run.expect(AcmeEvent::Failed, AcmeAction::GenerateAccountKey);
    run.expect(AcmeEvent::Failed, AcmeAction::BuildAccount);
    run.expect(AcmeEvent::Failed, AcmeAction::Sleep { secs: 60 });
    run.expect(AcmeEvent::Done, AcmeAction::CreateCacheDir);
    run.expect(AcmeEvent::Done, AcmeAction::LoadCertificates);
    run.expect(AcmeEvent::NoCertificate, AcmeAction::ReadAccountKey);
    run.expect(AcmeEvent::Failed, AcmeAction::GenerateAccountKey);
    run.expect(AcmeEvent::Done, AcmeAction::BuildAccount);
    run.expect(AcmeEvent::Done, AcmeAction::RereadAccountKey);
    run.expect(AcmeEvent::Failed, AcmeAction::Sleep { secs: 10 });
    run.expect(AcmeEvent::Done, AcmeAction::CreateCacheDir);
    run.expect(AcmeEvent::Done, AcmeAction::LoadCertificates);
    run.expect(AcmeEvent::NoCertificate, AcmeAction::ReadAccountKey);
    run.expect(AcmeEvent::Done, AcmeAction::BuildAccount);
    run.expect(AcmeEvent::Done, AcmeAction::RereadAccountKey);
    run.expect(AcmeEvent::Done, AcmeAction::RegisterAccount);
    run.expect(AcmeEvent::Done, AcmeAction::UpdateContact);
    run.expect(AcmeEvent::Failed, AcmeAction::PlaceOrder);
    run.expect(AcmeEvent::Failed, DAY);
}

#[test]
fn a_failed_registration_ends_the_round() {
    let mut run = Run::new(settings(acme(true, &["a.example"], "")));
    run.expect(AcmeEvent::Done, AcmeAction::CreateCacheDir);
    run.expect(AcmeEvent::Done, AcmeAction::LoadCertificates);
    run.expect(AcmeEvent::NoCertificate, AcmeAction::ReadAccountKey);
    run.expect(AcmeEvent::Done, AcmeAction::BuildAccount);
    run.expect(AcmeEvent::Done, AcmeAction::RereadAccountKey);
    run.expect(AcmeEvent::Done, AcmeAction::RegisterAccount);
    run.expect(AcmeEvent::Failed, DAY);
}

#[test]
fn a_failed_authorization_ends_the_order() {
    for event in [AcmeEvent::NoChallenge, AcmeEvent::Failed] {
        let mut run = Run::ordered();
        run.expect(challenge("one"), AcmeAction::AnnounceReady);
        run.expect(AcmeEvent::Done, AcmeAction::NextAuthorization);
        run.expect(event, DAY);
        assert_eq!(run.challenges.get("one"), None);
    }
    let mut run = Run::ordered();
    run.expect(challenge("one"), AcmeAction::AnnounceReady);
    run.expect(AcmeEvent::Failed, DAY);
    assert_eq!(run.challenges.get("one"), None);
}

#[test]
fn a_failure_after_the_authorizations_ends_the_order() {
    for successes in 0..4 {
        let mut run = Run::ordered();
        run.expect(challenge("one"), AcmeAction::AnnounceReady);
        run.expect(AcmeEvent::Done, AcmeAction::NextAuthorization);
        run.expect(AcmeEvent::NoMoreAuthorizations, AcmeAction::PollReady { timeout_secs: 120 });
        for _ in 0..successes {
            assert!(run.step(AcmeEvent::Done).is_some());
        }
        run.expect(AcmeEvent::Failed, DAY);
        assert_eq!(run.challenges.get("one"), None);
    }
}

#[test]
fn events_out_of_place_change_nothing() {
    let mut run = Run::ordered();
    assert_eq!(run.step(AcmeEvent::NoCertificate), None);
    assert_eq!(run.worker.pending, AcmeAction::NextAuthorization);
    run.expect(challenge("one"), AcmeAction::AnnounceReady);
    assert_eq!(run.step(challenge("two")), None);
    assert_eq!(run.challenges.get("two"), None);
    assert_eq!(run.challenges.get("one").as_deref(), Some("one.key"));
    let mut run = Run::new(settings(acme(true, &["a.example"], "")));
    assert_eq!(run.step(AcmeEvent::Failed), None);
    assert_eq!(run.worker.pending, AcmeAction::Sleep { secs: 0 });
}
