//! Obtaining and renewing certificates over ACME.
//!
//! `AcmeWorker` decides what to do next; whoever runs it does the input and output that
//! each `AcmeAction` names, and reports how it went as an `AcmeEvent`.

use openssl::asn1::Asn1Time;
use openssl::error::ErrorStack;
use openssl::pkey::{PKey, Private};
use openssl::x509::X509;
use vstd::prelude::*;

use crate::clock::is_clock_reading;
use crate::config::{AcmeSettings, Settings};
use crate::redirect::ChallengeTable;
use crate::text::{appended, copy_list, copy_option, same_str, views};

verus! {

/// The days before its expiry in which a certificate is renewed.
pub const RENEWAL_DAYS: u32 = 30;

/// The pause between two looks at the certificate, in seconds: a day.
pub const CHECK_SECS: u64 = 86400;

/// The pause after no account could be prepared, in seconds.
pub const ACCOUNT_RETRY_SECS: u64 = 60;

/// The pause after the account key could not be read back, in seconds.
pub const ACCOUNT_KEY_RETRY_SECS: u64 = 10;

/// How long an order is polled for, in seconds.
pub const POLL_SECS: u64 = 120;

// Certificates and keys.

/// An X.509 certificate.
#[verifier::external_type_specification]
#[verifier::external_body]
pub struct ExX509(openssl::x509::X509);

/// A public or private key.
#[verifier::external_type_specification]
#[verifier::external_body]
#[verifier::reject_recursive_types(T)]
pub struct ExPKey<T>(openssl::pkey::PKey<T>);

/// The mark of a key that holds its private part.
#[verifier::external_type_specification]
#[verifier::external_body]
pub struct ExPrivate(openssl::pkey::Private);

/// A point in time as certificates write it.
#[verifier::external_type_specification]
#[verifier::external_body]
pub struct ExAsn1Time(openssl::asn1::Asn1Time);

/// Why a call into OpenSSL failed.
#[verifier::external_type_specification]
#[verifier::external_body]
pub struct ExErrorStack(openssl::error::ErrorStack);

/// The DER encoding of a certificate.
pub uninterp spec fn certificate_der(cert: X509) -> Seq<u8>;

/// The DER encoding of a private key.
pub uninterp spec fn private_key_der(key: PKey<Private>) -> Seq<u8>;

/// The point in time that `t` holds, in seconds since the Unix epoch; `None` where it is not
/// written as a valid time.
pub uninterp spec fn asn1_seconds(t: Asn1Time) -> Option<int>;

/// What the first certificate in a plain PEM text encodes; `None` where there is none that can
/// be read.
pub uninterp spec fn pem_certificate(pem: Seq<u8>) -> Option<Seq<u8>>;

/// What the private key in a plain PEM text of one block encodes.
pub uninterp spec fn pem_private_key(pem: Seq<u8>) -> Seq<u8>;

/// When the certificate with the given DER encoding expires, on the scale of `asn1_seconds`;
/// `None` where that is not written as a valid time.
pub uninterp spec fn expiry_seconds(der: Seq<u8>) -> Option<int>;

/// The word by which a PEM text says that its contents are encrypted.
pub open spec fn encryption_mark() -> Seq<u8> {
    seq![69, 78, 67, 82, 89, 80, 84, 69, 68]
}

/// The mark at which a block of a PEM text begins.
pub open spec fn block_mark() -> Seq<u8> {
    seq![45, 45, 45, 45, 45, 66, 69, 71, 73, 78]
}

/// Whether `mark` stands in `pem` at `i`.
pub open spec fn stands_at(pem: Seq<u8>, mark: Seq<u8>, i: int) -> bool {
    0 <= i <= pem.len() - mark.len() && pem.subrange(i, i + mark.len()) == mark
}

/// Whether a PEM text nowhere says that its contents are encrypted.
pub open spec fn is_plain(pem: Seq<u8>) -> bool {
    forall|i: int| !#[trigger] stands_at(pem, encryption_mark(), i)
}

/// Whether a PEM text has exactly one block.
pub open spec fn is_one_block(pem: Seq<u8>) -> bool {
    exists|i: int|
        #![trigger stands_at(pem, block_mark(), i)]
        stands_at(pem, block_mark(), i) && forall|j: int| #[trigger]
            stands_at(pem, block_mark(), j) ==> i == j
}

/// Whether OpenSSL has read the certificate with the given DER encoding from a PEM text.
pub uninterp spec fn gave_certificate(pem: Seq<u8>, der: Seq<u8>) -> bool;

/// Whether OpenSSL has refused to read a certificate from a PEM text.
pub uninterp spec fn refused_certificate(pem: Seq<u8>) -> bool;

/// `X509::from_pem` reads the first certificate of a PEM text. The call panics on a text that
/// is longer than an `i32` counts. What a plain text gives, or that it is refused, goes by its
/// bytes alone, as `pem_certificate` has it. What an encrypted text gives depends on a pass
/// phrase that is asked for on the terminal; of it is said only that it was read or refused.
pub assume_specification[ X509::from_pem ](pem: &[u8]) -> (r: Result<X509, ErrorStack>)
    requires
        pem@.len() <= i32::MAX,
    ensures
        is_plain(pem@) ==> pem_certificate(pem@) == (match r {
            Ok(cert) => Some(certificate_der(cert)),
            Err(_) => None,
        }),
        match r {
            Ok(cert) => gave_certificate(pem@, certificate_der(cert)),
            Err(_) => refused_certificate(pem@),
        },
;

/// Whether OpenSSL has read the private key with the given DER encoding from a PEM text.
pub uninterp spec fn gave_key(pem: Seq<u8>, der: Seq<u8>) -> bool;

/// Whether OpenSSL has refused to read a private key from a PEM text.
pub uninterp spec fn refused_key(pem: Seq<u8>) -> bool;

/// `PKey::private_key_from_pem` reads a private key of a PEM text. The call panics on a text
/// that is longer than an `i32` counts. What an encrypted text gives depends on a pass phrase
/// that is asked for on the terminal. Which key types are known depends on the configuration of
/// OpenSSL on the machine, and blocks of other types are passed over: so only of a plain text of
/// one block is it said which key is read, and of any other that the key was read from it. Which
/// texts are refused is left open.
pub assume_specification[ PKey::<Private>::private_key_from_pem ](pem: &[u8]) -> (r: Result<
    PKey<Private>,
    ErrorStack,
>)
    requires
        pem@.len() <= i32::MAX,
    ensures
        match r {
            Ok(key) => gave_key(pem@, private_key_der(key)) && (is_plain(pem@) && is_one_block(pem@)
                ==> private_key_der(key) == pem_private_key(pem@)),
            Err(_) => refused_key(pem@),
        },
;

/// Whether a point in time is so many days after one that the clock has shown. Without days
/// between, a clock that shows no valid time gives none.
pub open spec fn is_days_ahead(time: Option<int>, days: int) -> bool {
    exists|now: int| #[trigger]
        is_clock_reading(now) && (time == Some(now + 86400 * days) || (days == 0 && time is None))
}

/// Whether OpenSSL has failed to give the point in time so many days from now.
pub uninterp spec fn lacked_time(days: u32) -> bool;

/// `Asn1Time::days_from_now` gives the point in time that is so many days after what the clock
/// shows. It counts the seconds in a C `long`, which need not hold those of more than 24855
/// days. When it fails is left open.
pub assume_specification[ Asn1Time::days_from_now ](days: u32) -> (r: Result<Asn1Time, ErrorStack>)
    requires
        days <= 24855,
    ensures
        match r {
            Ok(time) => is_days_ahead(asn1_seconds(time), days as int),
            Err(_) => lacked_time(days),
        },
;

/// How the expiry of a certificate stands to a point in time.
#[derive(Debug, Clone, Copy, PartialEq, Eq, Structural)]
pub enum ExpiryOrder {
    Later,
    Same,
    Earlier,
    /// The two could not be compared.
    Unknown,
}

/// How an expiry stands to a point in time; unknown where either is no valid time.
pub open spec fn compared(expiry: Option<int>, limit: Option<int>) -> ExpiryOrder {
    match (expiry, limit) {
        (Some(expiry), Some(limit)) => if expiry > limit {
            ExpiryOrder::Later
        } else if expiry == limit {
            ExpiryOrder::Same
        } else {
            ExpiryOrder::Earlier
        },
        _ => ExpiryOrder::Unknown,
    }
}

/// Compares the expiry of a certificate (`X509Ref::not_after`) with `limit`, by
/// `Asn1TimeRef::compare`, which goes by the seconds that the two stand for and fails where one
/// of them is no valid time.
#[verifier::external_body]
fn compare_expiry(cert: &X509, limit: &Asn1Time) -> (r: ExpiryOrder)
    ensures
        r == compared(expiry_seconds(certificate_der(*cert)), asn1_seconds(*limit)),
{
    match cert.not_after().compare(limit) {
        Ok(std::cmp::Ordering::Greater) => ExpiryOrder::Later,
        Ok(std::cmp::Ordering::Equal) => ExpiryOrder::Same,
        Ok(std::cmp::Ordering::Less) => ExpiryOrder::Earlier,
        Err(_) => ExpiryOrder::Unknown,
    }
}

/// How the expiry of a certificate stands to `limit`.
pub fn expiry_against(cert: &X509, limit: &Asn1Time) -> (r: ExpiryOrder)
    ensures
        r == compared(expiry_seconds(certificate_der(*cert)), asn1_seconds(*limit)),
{
    compare_expiry(cert, limit)
}

/// How the expiry of a certificate stands to the limit `ahead` or, should that not have been
/// had, to `now`. `None` where neither was had.
pub fn expiry_by(
    cert: &X509,
    ahead: Result<Asn1Time, ErrorStack>,
    now: Option<Result<Asn1Time, ErrorStack>>,
) -> (r: Option<ExpiryOrder>)
    ensures
        r == (match (ahead, now) {
            (Ok(limit), _) => Some(
                compared(expiry_seconds(certificate_der(*cert)), asn1_seconds(limit)),
            ),
            (Err(_), Some(Ok(limit))) => Some(
                compared(expiry_seconds(certificate_der(*cert)), asn1_seconds(limit)),
            ),
            _ => None,
        }),
{
    match (ahead, now) {
        (Ok(limit), _) => Some(expiry_against(cert, &limit)),
        (Err(_), Some(Ok(limit))) => Some(expiry_against(cert, &limit)),
        _ => None,
    }
}

/// Whether `order` is how an expiry stands to the point in time `days` from now.
pub open spec fn is_order_in_days(order: ExpiryOrder, expiry: Option<int>, days: int) -> bool {
    exists|limit: Option<int>| order == #[trigger] compared(expiry, limit) && is_days_ahead(
        limit,
        days,
    )
}

/// How the expiry of a certificate stands to the point in time `RENEWAL_DAYS` from now or,
/// should that not be had, to now. `None` where neither can be had.
pub fn expiry_order(cert: &X509) -> (r: Option<ExpiryOrder>)
    ensures
        match r {
            Some(order) => {
                ||| is_order_in_days(
                    order,
                    expiry_seconds(certificate_der(*cert)),
                    RENEWAL_DAYS as int,
                )
                ||| lacked_time(RENEWAL_DAYS) && is_order_in_days(
                    order,
                    expiry_seconds(certificate_der(*cert)),
                    0,
                )
            },
            None => lacked_time(RENEWAL_DAYS) && lacked_time(0),
        },
{
    let ahead = Asn1Time::days_from_now(RENEWAL_DAYS);
    let now = if ahead.is_err() {
        Some(Asn1Time::days_from_now(0))
    } else {
        None
    };
    let ghost (first, second) = (ahead, now);
    let r = expiry_by(cert, ahead, now);
    proof {
        if let Ok(limit) = first {
            assert(is_days_ahead(asn1_seconds(limit), RENEWAL_DAYS as int));
        } else if let Some(Ok(limit)) = second {
            assert(is_days_ahead(asn1_seconds(limit), 0));
        }
    }
    r
}

/// Whether a certificate whose expiry stands so to the renewal limit is to be replaced: unless
/// it is known to expire later.
pub fn needs_renewal(order: ExpiryOrder) -> (r: bool)
    ensures
        r == !(order is Later),
{
    match order {
        ExpiryOrder::Later => false,
        _ => true,
    }
}

/// Whether `pair` is a certificate and a key that OpenSSL has read from two PEM texts. From a
/// plain text it reads one certificate only, and from a plain text of one block one key only.
pub open spec fn is_read_from(pair: (X509, PKey<Private>), cert_pem: Seq<u8>, key_pem: Seq<u8>) -> bool {
    &&& gave_certificate(cert_pem, certificate_der(pair.0))
    &&& gave_key(key_pem, private_key_der(pair.1))
    &&& is_plain(cert_pem) ==> pem_certificate(cert_pem) == Some(certificate_der(pair.0))
    &&& is_plain(key_pem) && is_one_block(key_pem) ==> private_key_der(pair.1)
        == pem_private_key(key_pem)
}

/// Whether a PEM text is plain and holds no certificate that can be read.
pub open spec fn lacks_certificate(pem: Seq<u8>) -> bool {
    is_plain(pem) && pem_certificate(pem) is None
}

/// Whether two PEM texts may give no certificate with its key: OpenSSL has refused one of them.
pub open spec fn may_be_unreadable(cert_pem: Seq<u8>, key_pem: Seq<u8>) -> bool {
    refused_certificate(cert_pem) || refused_key(key_pem)
}

/// A certificate with its key, if both were read. The key is looked at only after the
/// certificate.
pub fn paired(
    cert: Result<X509, ErrorStack>,
    key: Option<Result<PKey<Private>, ErrorStack>>,
) -> (r: Option<(X509, PKey<Private>)>)
    ensures
        r == (match (cert, key) {
            (Ok(cert), Some(Ok(key))) => Some((cert, key)),
            _ => None::<(X509, PKey<Private>)>,
        }),
{
    match (cert, key) {
        (Ok(cert), Some(Ok(key))) => Some((cert, key)),
        _ => None,
    }
}

/// Reads a certificate and its key from two PEM texts; `None` where OpenSSL refuses either.
pub fn parse_certificate(cert_pem: &[u8], key_pem: &[u8]) -> (r: Option<(X509, PKey<Private>)>)
    requires
        cert_pem@.len() <= i32::MAX,
        key_pem@.len() <= i32::MAX,
    ensures
        lacks_certificate(cert_pem@) ==> r is None,
        match r {
            Some(pair) => is_read_from(pair, cert_pem@, key_pem@),
            None => may_be_unreadable(cert_pem@, key_pem@),
        },
{
    let cert = X509::from_pem(cert_pem);
    let key = if cert.is_ok() {
        Some(PKey::private_key_from_pem(key_pem))
    } else {
        None
    };
    paired(cert, key)
}

/// Reads a certificate and its key from the contents of their files, where `None` stands for a
/// file that is absent or cannot be read.
pub fn load_certs_from_disk(cert_file: Option<Vec<u8>>, key_file: Option<Vec<u8>>) -> (r: Option<
    (X509, PKey<Private>),
>)
    requires
        cert_file matches Some(bytes) ==> bytes@.len() <= i32::MAX,
        key_file matches Some(bytes) ==> bytes@.len() <= i32::MAX,
    ensures
        cert_file is None || key_file is None || lacks_certificate(cert_file->0@) ==> r is None,
        match r {
            Some(pair) => is_read_from(pair, cert_file->0@, key_file->0@),
            None => cert_file is None || key_file is None || may_be_unreadable(
                cert_file->0@,
                key_file->0@,
            ),
        },
{
    match (cert_file, key_file) {
        (Some(cert_pem), Some(key_pem)) => parse_certificate(
            cert_pem.as_slice(),
            key_pem.as_slice(),
        ),
        _ => None,
    }
}

/// The certificate that new TLS connections are given.
pub struct DynamicCert {
    pub cert_key: Option<(X509, PKey<Private>)>,
}

impl DynamicCert {
    /// Holds no certificate yet.
    pub fn new() -> (r: DynamicCert)
        ensures
            r.cert_key is None,
    {
        DynamicCert { cert_key: None }
    }

    /// What a new connection is given.
    pub fn current(&self) -> (r: Option<&(X509, PKey<Private>)>)
        ensures
            r == (match self.cert_key {
                Some(pair) => Some(&pair),
                None => None,
            }),
    {
        match &self.cert_key {
            Some(pair) => Some(pair),
            None => None,
        }
    }

    /// Replaces the certificate.
    pub fn install(&mut self, pair: (X509, PKey<Private>))
        ensures
            final(self).cert_key == Some(pair),
    {
        self.cert_key = Some(pair);
    }

    /// Takes the certificate unless there is one.
    pub fn install_if_empty(&mut self, pair: (X509, PKey<Private>))
        ensures
            final(self).cert_key == (match old(self).cert_key {
                Some(present) => Some(present),
                None => Some(pair),
            }),
    {
        if self.cert_key.is_none() {
            self.cert_key = Some(pair);
        }
    }

    /// Replaces the certificate by the one that was read, if one was. Says whether that is so.
    pub fn install_if_read(&mut self, read: Option<(X509, PKey<Private>)>) -> (r: bool)
        ensures
            r == (read is Some),
            final(self).cert_key == (match read {
                Some(pair) => Some(pair),
                None => old(self).cert_key,
            }),
    {
        match read {
            Some(pair) => {
                self.install(pair);
                true
            },
            None => false,
        }
    }

    /// Replaces the certificate by the one in two PEM texts, and keeps it where OpenSSL refuses
    /// either of them. Says which happened.
    pub fn renew(&mut self, cert_pem: &[u8], key_pem: &[u8]) -> (r: bool)
        requires
            cert_pem@.len() <= i32::MAX,
            key_pem@.len() <= i32::MAX,
        ensures
            lacks_certificate(cert_pem@) ==> !r,
            !r ==> *final(self) == *old(self) && may_be_unreadable(cert_pem@, key_pem@),
            r ==> final(self).cert_key is Some && is_read_from(
                final(self).cert_key->0,
                cert_pem@,
                key_pem@,
            ),
    {
        self.install_if_read(parse_certificate(cert_pem, key_pem))
    }
}

// The account key.

/// The key of an ACME account.
#[verifier::external_type_specification]
#[verifier::external_body]
pub struct ExAccountKey(instant_acme::Key);

/// What an account key is, in whatever bytes it was kept: its private and its public value.
pub uninterp spec fn account_key_content(key: instant_acme::Key) -> Seq<u8>;

/// The content of the account key in a PKCS#8 document; `None` where the bytes are no document
/// of a key that an ACME account can have.
pub uninterp spec fn pkcs8_account_key(der: Seq<u8>) -> Option<Seq<u8>>;

/// Reads an account key, by `instant_acme::Key::from_pkcs8_der`. What it reads, or that it
/// refuses, goes by the bytes alone, as `pkcs8_account_key` has it.
#[verifier::external_body]
fn account_key_from_pkcs8(der: Vec<u8>) -> (r: Option<instant_acme::Key>)
    ensures
        pkcs8_account_key(der@) == (match r {
            Some(key) => Some(account_key_content(key)),
            None => None,
        }),
{
    instant_acme::Key::from_pkcs8_der(rustls_pki_types::PrivatePkcs8KeyDer::from(der)).ok()
}

/// Whether bytes are the document of a key that the program has drawn.
pub uninterp spec fn is_new_key(der: Seq<u8>) -> bool;

/// Makes a new account key, by `instant_acme::Key::generate_pkcs8`, which hands out the key with
/// its bytes, having read it from them. The key is drawn at random, and nothing more is said of
/// it; that one is had depends on the random numbers of the machine.
#[verifier::external_body]
fn generate_pkcs8() -> (r: Option<(instant_acme::Key, Vec<u8>)>)
    ensures
        r matches Some((key, der)) ==> is_new_key(der@) && pkcs8_account_key(der@) == Some(
            account_key_content(key),
        ),
{
    match instant_acme::Key::generate_pkcs8() {
        Ok((key, der)) => Some((key, der.secret_pkcs8_der().to_vec())),
        Err(_) => None,
    }
}

/// Reads the account key from the contents of its file, where `None` stands for a file that is
/// absent or cannot be read.
pub fn read_account_key(file: Option<Vec<u8>>) -> (r: Option<instant_acme::Key>)
    ensures
        match file {
            Some(der) => pkcs8_account_key(der@) == (match r {
                Some(key) => Some(account_key_content(key)),
                None => None,
            }),
            None => r is None,
        },
{
    match file {
        Some(der) => account_key_from_pkcs8(der),
        None => None,
    }
}

/// Makes a new account key, to be kept in the bytes given with it, from which
/// `read_account_key` reads it back; `None` where no random numbers can be had.
pub fn new_account_key() -> (r: Option<(instant_acme::Key, Vec<u8>)>)
    ensures
        r matches Some((key, der)) ==> is_new_key(der@) && pkcs8_account_key(der@) == Some(
            account_key_content(key),
        ),
{
    generate_pkcs8()
}

// What the worker is asked to do.

/// A directory of Let's Encrypt.
#[derive(Debug, Clone, Copy, PartialEq, Eq, Structural)]
pub enum LetsEncryptServer {
    Production,
    Staging,
}

/// The address of a directory of Let's Encrypt.
pub open spec fn lets_encrypt_directory(server: LetsEncryptServer) -> Seq<char> {
    match server {
        LetsEncryptServer::Production => "https://acme-v02.api.letsencrypt.org/directory"@,
        LetsEncryptServer::Staging => "https://acme-staging-v02.api.letsencrypt.org/directory"@,
    }
}

/// The address of a directory of Let's Encrypt, by `instant_acme::LetsEncrypt::url`, which
/// returns one of two constants.
#[verifier::external_body]
fn lets_encrypt_url(server: LetsEncryptServer) -> (r: String)
    ensures
        r@ == lets_encrypt_directory(server),
{
    match server {
        LetsEncryptServer::Production => instant_acme::LetsEncrypt::Production.url().to_string(),
        LetsEncryptServer::Staging => instant_acme::LetsEncrypt::Staging.url().to_string(),
    }
}

/// The certificate that the worker is to keep valid.
pub struct AcmeJob {
    pub domains: Vec<String>,
    pub email: String,
    pub staging: bool,
    pub cache_dir: String,
    pub custom_directory_url: Option<String>,
}

impl AcmeJob {
    /// Whether this is the job that the ACME settings describe.
    pub open spec fn comes_from(self, acme: AcmeSettings) -> bool {
        &&& views(self.domains@) == views(acme.domains@)
        &&& self.email@ == acme.email@
        &&& self.staging == acme.staging
        &&& self.cache_dir@ == acme.cache_dir@
        &&& self.custom_directory_url == acme.directory_url
    }

    /// The ACME directory to ask: the configured one or else one of Let's Encrypt.
    pub fn directory_url(&self) -> (r: String)
        ensures
            r@ == (match self.custom_directory_url {
                Some(url) => url@,
                None => lets_encrypt_directory(
                    if self.staging {
                        LetsEncryptServer::Staging
                    } else {
                        LetsEncryptServer::Production
                    },
                ),
            }),
    {
        match &self.custom_directory_url {
            Some(url) => url.clone(),
            None => if self.staging {
                lets_encrypt_url(LetsEncryptServer::Staging)
            } else {
                lets_encrypt_url(LetsEncryptServer::Production)
            },
        }
    }

    /// The contact to give the account, if an e-mail address is configured.
    pub fn contact(&self) -> (r: Option<String>)
        ensures
            match r {
                Some(contact) => self.email@.len() > 0 && contact@ == "mailto:"@ + self.email@,
                None => self.email@.len() == 0,
            },
    {
        proof {
            reveal_strlit("");
        }
        assert(self.email@.len() == 0 ==> self.email@ == ""@);
        if same_str(self.email.as_str(), "") {
            None
        } else {
            Some(appended("mailto:", self.email.as_str()))
        }
    }
}

/// The ACME settings, if there are any.
pub open spec fn acme_settings(settings: Settings) -> Option<AcmeSettings> {
    match settings.server.tls {
        Some(tls) => tls.acme,
        None => None,
    }
}

/// Whether a certificate is wanted: ACME is enabled, for at least one domain.
pub open spec fn wants_certificate(settings: Settings) -> bool {
    match acme_settings(settings) {
        Some(acme) => acme.enabled && acme.domains@.len() > 0,
        None => false,
    }
}

/// The job that the settings describe, if they want a certificate.
pub fn acme_job(settings: &Settings) -> (r: Option<AcmeJob>)
    ensures
        match r {
            Some(job) => wants_certificate(*settings) && job.comes_from(
                acme_settings(*settings)->0,
            ),
            None => !wants_certificate(*settings),
        },
{
    let tls = match &settings.server.tls {
        Some(tls) => tls,
        None => {
            return None;
        },
    };
    let acme = match &tls.acme {
        Some(acme) => acme,
        None => {
            return None;
        },
    };
    if !acme.enabled || acme.domains.len() == 0 {
        return None;
    }
    Some(
        AcmeJob {
            domains: copy_list(&acme.domains),
            email: acme.email.clone(),
            staging: acme.staging,
            cache_dir: acme.cache_dir.clone(),
            custom_directory_url: copy_option(&acme.directory_url),
        },
    )
}

// The worker.

/// What the worker wants done.
#[derive(Debug, Clone, Copy, PartialEq, Eq, Structural)]
pub enum AcmeAction {
    /// Wait, then report `Done`.
    Sleep { secs: u64 },
    /// Create the cache directory.
    CreateCacheDir,
    /// Read the certificate and its key from the cache directory and compare the expiry.
    LoadCertificates,
    /// Install the loaded certificate unless one is installed.
    InstallIfEmpty,
    /// Read and parse the account key from the cache directory.
    ReadAccountKey,
    /// Make a new account key and write it to the cache directory.
    GenerateAccountKey,
    /// Prepare the account.
    BuildAccount,
    /// Read the bytes of the account key back from the cache directory.
    RereadAccountKey,
    /// Create or find the account at the directory of the job.
    RegisterAccount,
    /// Give the account the contact of the job.
    UpdateContact,
    /// Order a certificate for the domains of the job.
    PlaceOrder,
    /// Get the next authorization of the order, and its HTTP-01 challenge.
    NextAuthorization,
    /// Tell the server that the challenge can be looked up.
    AnnounceReady,
    /// Wait for the order to become ready.
    PollReady { timeout_secs: u64 },
    /// Finalize the order.
    FinalizeOrder,
    /// Wait for the certificate.
    PollCertificate { timeout_secs: u64 },
    /// Write the certificate and its key to the cache directory, and renew the installed one.
    StoreCertificate,
}

/// How an action went.
#[derive(Debug, Clone)]
pub enum AcmeEvent {
    /// It succeeded.
    Done,
    /// It failed.
    Failed,
    /// No certificate could be loaded.
    NoCertificate,
    /// A certificate was loaded; its expiry stands so to the renewal limit.
    Certificate { expiry: ExpiryOrder },
    /// The authorization has this challenge.
    Challenge { token: String, key_authorization: String },
    /// The authorization has no HTTP-01 challenge.
    NoChallenge,
    /// The order has no more authorizations.
    NoMoreAuthorizations,
}

/// Waiting for the next look at the certificate.
pub open spec fn rest() -> AcmeAction {
    AcmeAction::Sleep { secs: CHECK_SECS }
}

/// What to do after an action went as the event says; `None` where the event is none that the
/// action can have. `wanted` says whether the settings now want a certificate, `contact` whether
/// the job has one.
pub open spec fn next(done: AcmeAction, event: AcmeEvent, wanted: bool, contact: bool) -> Option<
    AcmeAction,
> {
    match (done, event) {
        (AcmeAction::Sleep { .. }, AcmeEvent::Done) => Some(
            if wanted {
                AcmeAction::CreateCacheDir
            } else {
                rest()
            },
        ),
        (AcmeAction::CreateCacheDir, AcmeEvent::Done | AcmeEvent::Failed) => Some(
            AcmeAction::LoadCertificates,
        ),
        (AcmeAction::LoadCertificates, AcmeEvent::NoCertificate) => Some(
            AcmeAction::ReadAccountKey,
        ),
        (AcmeAction::LoadCertificates, AcmeEvent::Certificate { expiry }) => Some(
            if expiry is Later {
                AcmeAction::InstallIfEmpty
            } else {
                AcmeAction::ReadAccountKey
            },
        ),
        (AcmeAction::InstallIfEmpty, AcmeEvent::Done) => Some(rest()),
        (AcmeAction::ReadAccountKey, AcmeEvent::Done) => Some(AcmeAction::BuildAccount),
        (AcmeAction::ReadAccountKey, AcmeEvent::Failed) => Some(AcmeAction::GenerateAccountKey),
        (AcmeAction::GenerateAccountKey, AcmeEvent::Done | AcmeEvent::Failed) => Some(
            AcmeAction::BuildAccount,
        ),
        (AcmeAction::BuildAccount, AcmeEvent::Done) => Some(AcmeAction::RereadAccountKey),
        (AcmeAction::BuildAccount, AcmeEvent::Failed) => Some(
            AcmeAction::Sleep { secs: ACCOUNT_RETRY_SECS },
        ),
        (AcmeAction::RereadAccountKey, AcmeEvent::Done) => Some(AcmeAction::RegisterAccount),
        (AcmeAction::RereadAccountKey, AcmeEvent::Failed) => Some(
            AcmeAction::Sleep { secs: ACCOUNT_KEY_RETRY_SECS },
        ),
        (AcmeAction::RegisterAccount, AcmeEvent::Done) => Some(
            if contact {
                AcmeAction::UpdateContact
            } else {
                AcmeAction::PlaceOrder
            },
        ),
        (AcmeAction::UpdateContact, AcmeEvent::Done | AcmeEvent::Failed) => Some(
            AcmeAction::PlaceOrder,
        ),
        (AcmeAction::PlaceOrder, AcmeEvent::Done) => Some(AcmeAction::NextAuthorization),
        (AcmeAction::NextAuthorization, AcmeEvent::Challenge { .. }) => Some(
            AcmeAction::AnnounceReady,
        ),
        (AcmeAction::NextAuthorization, AcmeEvent::NoMoreAuthorizations) => Some(
            AcmeAction::PollReady { timeout_secs: POLL_SECS },
        ),
        (AcmeAction::AnnounceReady, AcmeEvent::Done) => Some(AcmeAction::NextAuthorization),
        (AcmeAction::PollReady { .. }, AcmeEvent::Done) => Some(AcmeAction::FinalizeOrder),
        (AcmeAction::FinalizeOrder, AcmeEvent::Done) => Some(
            AcmeAction::PollCertificate { timeout_secs: POLL_SECS },
        ),
        (AcmeAction::PollCertificate { .. }, AcmeEvent::Done) => Some(AcmeAction::StoreCertificate),
        (AcmeAction::StoreCertificate, AcmeEvent::Done | AcmeEvent::Failed) => Some(rest()),
        (AcmeAction::NextAuthorization, AcmeEvent::NoChallenge | AcmeEvent::Failed) => Some(rest()),
        (
            AcmeAction::RegisterAccount
            | AcmeAction::PlaceOrder
            | AcmeAction::AnnounceReady
            | AcmeAction::PollReady { .. }
            | AcmeAction::FinalizeOrder
            | AcmeAction::PollCertificate { .. },
            AcmeEvent::Failed,
        ) => Some(rest()),
        _ => None,
    }
}

/// Whether an order is open while the action is done.
pub open spec fn in_order(action: AcmeAction) -> bool {
    match action {
        AcmeAction::NextAuthorization => true,
        AcmeAction::AnnounceReady => true,
        AcmeAction::PollReady { .. } => true,
        AcmeAction::FinalizeOrder => true,
        AcmeAction::PollCertificate { .. } => true,
        AcmeAction::StoreCertificate => true,
        _ => false,
    }
}

/// The published challenges after an action went as the event says and `then` follows: a new
/// challenge is added, and none is left when the order ends.
pub open spec fn published(
    challenges: Map<Seq<char>, Seq<char>>,
    done: AcmeAction,
    event: AcmeEvent,
    then_do: AcmeAction,
) -> Map<Seq<char>, Seq<char>> {
    if in_order(done) && !in_order(then_do) {
        Map::empty()
    } else {
        match event {
            AcmeEvent::Challenge { token, key_authorization } => challenges.insert(
                token@,
                key_authorization@,
            ),
            _ => challenges,
        }
    }
}

/// What to do after an action went as the event says, as `next` states it.
fn next_action(done: AcmeAction, event: &AcmeEvent, wanted: bool, contact: bool) -> (r: Option<
    AcmeAction,
>)
    ensures
        r == next(done, *event, wanted, contact),
{
    let rest = AcmeAction::Sleep { secs: CHECK_SECS };
    match (done, event) {
        (AcmeAction::Sleep { .. }, AcmeEvent::Done) => if wanted {
            Some(AcmeAction::CreateCacheDir)
        } else {
            Some(rest)
        },
        (AcmeAction::CreateCacheDir, AcmeEvent::Done | AcmeEvent::Failed) => Some(
            AcmeAction::LoadCertificates,
        ),
        (AcmeAction::LoadCertificates, AcmeEvent::NoCertificate) => Some(
            AcmeAction::ReadAccountKey,
        ),
        (AcmeAction::LoadCertificates, AcmeEvent::Certificate { expiry }) => if needs_renewal(
            *expiry,
        ) {
            Some(AcmeAction::ReadAccountKey)
        } else {
            Some(AcmeAction::InstallIfEmpty)
        },
        (AcmeAction::InstallIfEmpty, AcmeEvent::Done) => Some(rest),
        (AcmeAction::ReadAccountKey, AcmeEvent::Done) => Some(AcmeAction::BuildAccount),
        (AcmeAction::ReadAccountKey, AcmeEvent::Failed) => Some(AcmeAction::GenerateAccountKey),
        (AcmeAction::GenerateAccountKey, AcmeEvent::Done | AcmeEvent::Failed) => Some(
            AcmeAction::BuildAccount,
        ),
        (AcmeAction::BuildAccount, AcmeEvent::Done) => Some(AcmeAction::RereadAccountKey),
        (AcmeAction::BuildAccount, AcmeEvent::Failed) => Some(
            AcmeAction::Sleep { secs: ACCOUNT_RETRY_SECS },
        ),
        (AcmeAction::RereadAccountKey, AcmeEvent::Done) => Some(AcmeAction::RegisterAccount),
        (AcmeAction::RereadAccountKey, AcmeEvent::Failed) => Some(
            AcmeAction::Sleep { secs: ACCOUNT_KEY_RETRY_SECS },
        ),
        (AcmeAction::RegisterAccount, AcmeEvent::Done) => if contact {
            Some(AcmeAction::UpdateContact)
        } else {
            Some(AcmeAction::PlaceOrder)
        },
        (AcmeAction::UpdateContact, AcmeEvent::Done | AcmeEvent::Failed) => Some(
            AcmeAction::PlaceOrder,
        ),
        (AcmeAction::PlaceOrder, AcmeEvent::Done) => Some(AcmeAction::NextAuthorization),
        (AcmeAction::NextAuthorization, AcmeEvent::Challenge { .. }) => Some(
            AcmeAction::AnnounceReady,
        ),
        (AcmeAction::NextAuthorization, AcmeEvent::NoMoreAuthorizations) => Some(
            AcmeAction::PollReady { timeout_secs: POLL_SECS },
        ),
        (AcmeAction::AnnounceReady, AcmeEvent::Done) => Some(AcmeAction::NextAuthorization),
        (AcmeAction::PollReady { .. }, AcmeEvent::Done) => Some(AcmeAction::FinalizeOrder),
        (AcmeAction::FinalizeOrder, AcmeEvent::Done) => Some(
            AcmeAction::PollCertificate { timeout_secs: POLL_SECS },
        ),
        (AcmeAction::PollCertificate { .. }, AcmeEvent::Done) => Some(AcmeAction::StoreCertificate),
        (AcmeAction::StoreCertificate, AcmeEvent::Done | AcmeEvent::Failed) => Some(rest),
        (AcmeAction::NextAuthorization, AcmeEvent::NoChallenge | AcmeEvent::Failed) => Some(rest),
        (
            AcmeAction::RegisterAccount
            | AcmeAction::PlaceOrder
            | AcmeAction::AnnounceReady
            | AcmeAction::PollReady { .. }
            | AcmeAction::FinalizeOrder
            | AcmeAction::PollCertificate { .. },
            AcmeEvent::Failed,
        ) => Some(rest),
        _ => None,
    }
}

/// Keeps the certificate of a proxy valid, one action at a time.
pub struct AcmeWorker {
    /// What the worker waits for.
    pub pending: AcmeAction,
    /// The job that the present round is for.
    pub job: Option<AcmeJob>,
}

impl AcmeWorker {
    /// Whether the worker has a job whenever it is at work.
    pub open spec fn wf(self) -> bool {
        self.pending is Sleep || self.job is Some
    }

    /// Whether the account is to be given a contact.
    pub open spec fn has_contact(self) -> bool {
        match self.job {
            Some(job) => job.email@.len() > 0,
            None => false,
        }
    }

    /// A worker that first looks at the certificate at once.
    pub fn new() -> (r: AcmeWorker)
        ensures
            r.wf(),
            r.pending == (AcmeAction::Sleep { secs: 0 }),
            r.job is None,
    {
        AcmeWorker { pending: AcmeAction::Sleep { secs: 0 }, job: None }
    }

    /// Takes note of how the pending action went, and returns the action that follows. An event
    /// that the pending action cannot have changes nothing. The settings are looked at whenever
    /// the worker wakes; the challenges are those that the server may look up.
    pub fn step(
        &mut self,
        settings: &Settings,
        challenges: &mut ChallengeTable,
        event: AcmeEvent,
    ) -> (r: Option<AcmeAction>)
        requires
            old(self).wf(),
        ensures
            final(self).wf(),
            r == next(
                old(self).pending,
                event,
                wants_certificate(*settings),
                old(self).has_contact(),
            ),
            match r {
                None => *final(self) == *old(self) && final(challenges)@ == old(challenges)@,
                Some(action) => {
                    &&& final(self).pending == action
                    &&& final(challenges)@ == published(
                        old(challenges)@,
                        old(self).pending,
                        event,
                        action,
                    )
                    &&& if old(self).pending is Sleep {
                        match final(self).job {
                            Some(job) => wants_certificate(*settings) && job.comes_from(
                                acme_settings(*settings)->0,
                            ),
                            None => !wants_certificate(*settings),
                        }
                    } else {
                        final(self).job == old(self).job
                    }
                },
            },
    {
        let contact = match &self.job {
            Some(job) => job.contact().is_some(),
            None => false,
        };
        let fresh = acme_job(settings);
        let action = match next_action(self.pending, &event, fresh.is_some(), contact) {
            Some(action) => action,
            None => {
                return None;
            },
        };
        if is_in_order(self.pending) && !is_in_order(action) {
            challenges.clear();
        } else if let AcmeEvent::Challenge { token, key_authorization } = event {
            challenges.insert(token, key_authorization);
        }
        if let AcmeAction::Sleep { .. } = self.pending {
            self.job = fresh;
        }
        self.pending = action;
        Some(action)
    }
}

/// Whether an order is open while the action is done.
fn is_in_order(action: AcmeAction) -> (r: bool)
    ensures
        r == in_order(action),
{
    match action {
        AcmeAction::NextAuthorization
        | AcmeAction::AnnounceReady
        | AcmeAction::PollReady { .. }
        | AcmeAction::FinalizeOrder
        | AcmeAction::PollCertificate { .. }
        | AcmeAction::StoreCertificate => true,
        _ => false,
    }
}

/// Challenges are published only while an order is open: if that holds before a step, it holds
/// after it.
pub proof fn law_challenges_end_with_the_order(
    challenges: Map<Seq<char>, Seq<char>>,
    done: AcmeAction,
    event: AcmeEvent,
    wanted: bool,
    contact: bool,
)
    requires
        in_order(done) || challenges == Map::<Seq<char>, Seq<char>>::empty(),
    ensures
        match next(done, event, wanted, contact) {
            Some(action) => in_order(action) || published(challenges, done, event, action) == Map::<
                Seq<char>,
                Seq<char>,
            >::empty(),
            None => true,
        },
{
}

/// While an order is open, a challenge stays published once it is: it is gone only with the
/// order or replaced by one for the same token.
pub proof fn law_challenges_stay_while_the_order_is_open(
    challenges: Map<Seq<char>, Seq<char>>,
    done: AcmeAction,
    event: AcmeEvent,
    wanted: bool,
    contact: bool,
    token: Seq<char>,
)
    requires
        challenges.contains_key(token),
        next(done, event, wanted, contact) matches Some(action) && in_order(action),
    ensures
        published(challenges, done, event, next(done, event, wanted, contact)->0).contains_key(
            token,
        ),
{
}

/// Before the server is told that a challenge can be looked up, it is published.
pub proof fn law_announced_challenges_are_published(
    challenges: Map<Seq<char>, Seq<char>>,
    done: AcmeAction,
    event: AcmeEvent,
    wanted: bool,
    contact: bool,
)
    requires
        next(done, event, wanted, contact) == Some(AcmeAction::AnnounceReady),
    ensures
        event matches AcmeEvent::Challenge { token, key_authorization } && published(
            challenges,
            done,
            event,
            AcmeAction::AnnounceReady,
        ).contains_pair(token@, key_authorization@),
{
}

/// Whether an action talks to the ACME server.
pub open spec fn asks_server(action: AcmeAction) -> bool {
    ||| action is RegisterAccount
    ||| action is UpdateContact
    ||| action is PlaceOrder
    ||| in_order(action) && !(action is StoreCertificate)
}

/// The action after a list of events, unless the worker falls asleep on the way.
pub open spec fn after_all(
    start: AcmeAction,
    events: Seq<AcmeEvent>,
    contact: bool,
) -> Option<AcmeAction>
    decreases events.len(),
{
    if events.len() == 0 {
        Some(start)
    } else {
        match next(start, events[0], true, contact) {
            Some(action) => if action is Sleep {
                None
            } else {
                after_all(action, events.drop_first(), contact)
            },
            None => None,
        }
    }
}

/// A certificate that outlasts the renewal limit is kept: until the worker has slept again, it
/// does not talk to the ACME server.
pub proof fn law_good_certificates_are_kept(events: Seq<AcmeEvent>, contact: bool)
    requires
        events.len() > 0,
        events[0] matches AcmeEvent::Certificate { expiry } && expiry is Later,
    ensures
        match after_all(AcmeAction::LoadCertificates, events, contact) {
            Some(action) => !asks_server(action),
            None => true,
        },
{
    reveal_with_fuel(after_all, 3);
}

/// Renewal starts `RENEWAL_DAYS` before the expiry: of a certificate whose expiry was compared
/// with the point in time that many days from now, the one that expires later is kept, and every
/// other is renewed.
pub proof fn law_renewal_starts_before_the_expiry(
    order: ExpiryOrder,
    expiry: Option<int>,
    wanted: bool,
    contact: bool,
)
    requires
        is_order_in_days(order, expiry, RENEWAL_DAYS as int),
    ensures
        exists|now: int| #[trigger]
            is_clock_reading(now) && next(
                AcmeAction::LoadCertificates,
                AcmeEvent::Certificate { expiry: order },
                wanted,
                contact,
            ) == Some(
                if expiry is Some && expiry->0 > now + 30 * 86400 {
                    AcmeAction::InstallIfEmpty
                } else {
                    AcmeAction::ReadAccountKey
                },
            ),
{
    let limit = choose|limit: Option<int>| order == #[trigger] compared(expiry, limit)
        && is_days_ahead(limit, RENEWAL_DAYS as int);
    let now = choose|now: int| #[trigger] is_clock_reading(now) && limit == Some(
        now + 86400 * (RENEWAL_DAYS as int),
    );
    assert(is_clock_reading(now));
}

/// Whether the events are those of an order of which every authorization was answered: each
/// challenge was announced, then there were no more, and the order became ready.
pub open spec fn all_answered(events: Seq<AcmeEvent>) -> bool
    decreases events.len(),
{
    if events.len() == 2 {
        events[0] is NoMoreAuthorizations && events[1] is Done
    } else {
        &&& events.len() > 2
        &&& events[0] is Challenge
        &&& events[1] is Done
        &&& all_answered(events.skip(2))
    }
}

/// An order is finalized only after the challenge of every authorization was announced and the
/// order became ready.
pub proof fn law_only_answered_orders_are_finalized(events: Seq<AcmeEvent>, contact: bool)
    requires
        after_all(AcmeAction::NextAuthorization, events, contact) == Some(
            AcmeAction::FinalizeOrder,
        ),
    ensures
        all_answered(events),
    decreases events.len(),
{
    reveal_with_fuel(after_all, 6);
    if events.len() >= 2 {
        assert(events.drop_first().drop_first() == events.skip(2));
        if events[0] is Challenge {
            law_only_answered_orders_are_finalized(events.skip(2), contact);
        }
    }
}

/// The worker pauses for a day, or for a minute or ten seconds when no account could be had.
pub proof fn law_pauses(done: AcmeAction, event: AcmeEvent, wanted: bool, contact: bool, secs: u64)
    requires
        next(done, event, wanted, contact) == Some(AcmeAction::Sleep { secs }),
    ensures
        secs == 86400 || (done is BuildAccount && secs == 60) || (done is RereadAccountKey && secs
            == 10),
{
}

/// No failure stops the worker: every action that can fail is followed by another one.
pub proof fn law_failures_do_not_stop_the_worker(done: AcmeAction, wanted: bool, contact: bool)
    requires
        !(done is Sleep) && !(done is LoadCertificates) && !(done is InstallIfEmpty),
    ensures
        next(done, AcmeEvent::Failed, wanted, contact) is Some,
{
}

/// Whatever comes of giving the account its contact, the next action is to place the order.
pub proof fn law_the_contact_does_not_hold_up_the_order(
    event: AcmeEvent,
    wanted: bool,
    contact: bool,
)
    ensures
        event is Done || event is Failed ==> next(
            AcmeAction::UpdateContact,
            event,
            wanted,
            contact,
        ) == Some(AcmeAction::PlaceOrder),
        next(AcmeAction::UpdateContact, event, wanted, contact) matches Some(action)
            ==> action is PlaceOrder,
{
}

/// The worker sleeps only after a failure, after a certificate was kept, after one was stored, or
/// when none is wanted. (An authorization without a challenge that can be answered is a failure.)
pub proof fn law_the_worker_sleeps_only_with_reason(
    done: AcmeAction,
    event: AcmeEvent,
    wanted: bool,
    contact: bool,
)
    requires
        next(done, event, wanted, contact) matches Some(action) && action is Sleep,
    ensures
        event is Failed || event is NoChallenge || done is InstallIfEmpty
            || done is StoreCertificate || (done is Sleep && !wanted),
{
}

/// A worker that wakes begins a round if a certificate is wanted, and else sleeps for another
/// day. A round looks at the certificate first, whatever came of the cache directory, and keeps
/// one that outlasts the limit.
pub proof fn law_rounds_begin_with_the_certificate(
    secs: u64,
    event: AcmeEvent,
    expiry: ExpiryOrder,
    wanted: bool,
    contact: bool,
)
    ensures
        next((AcmeAction::Sleep { secs }), AcmeEvent::Done, true, contact) == Some(
            AcmeAction::CreateCacheDir,
        ),
        next((AcmeAction::Sleep { secs }), AcmeEvent::Done, false, contact) == Some(
            AcmeAction::Sleep { secs: 86400 },
        ),
        event is Done || event is Failed ==> next(
            AcmeAction::CreateCacheDir,
            event,
            wanted,
            contact,
        ) == Some(AcmeAction::LoadCertificates),
        next(AcmeAction::LoadCertificates, AcmeEvent::NoCertificate, wanted, contact) == Some(
            AcmeAction::ReadAccountKey,
        ),
        next(
            AcmeAction::LoadCertificates,
            (AcmeEvent::Certificate { expiry: ExpiryOrder::Later }),
            wanted,
            contact,
        ) == Some(AcmeAction::InstallIfEmpty),
        expiry != ExpiryOrder::Later ==> next(
            AcmeAction::LoadCertificates,
            (AcmeEvent::Certificate { expiry }),
            wanted,
            contact,
        ) == Some(AcmeAction::ReadAccountKey),
        next(AcmeAction::InstallIfEmpty, AcmeEvent::Done, wanted, contact) == Some(
            AcmeAction::Sleep { secs: 86400 },
        ),
{
}

/// What succeeds leads on: from the account key to the account, to its contact where there is one,
/// to the order, to each of its challenges, and on to the certificate, after which the worker
/// rests for a day. The order and the certificate are polled for two minutes.
pub proof fn law_success_leads_on(
    token: String,
    key_authorization: String,
    timeout_secs: u64,
    wanted: bool,
    contact: bool,
)
    ensures
        next(AcmeAction::ReadAccountKey, AcmeEvent::Done, wanted, contact) == Some(
            AcmeAction::BuildAccount,
        ),
        next(AcmeAction::GenerateAccountKey, AcmeEvent::Done, wanted, contact) == Some(
            AcmeAction::BuildAccount,
        ),
        next(AcmeAction::BuildAccount, AcmeEvent::Done, wanted, contact) == Some(
            AcmeAction::RereadAccountKey,
        ),
        next(AcmeAction::RereadAccountKey, AcmeEvent::Done, wanted, contact) == Some(
            AcmeAction::RegisterAccount,
        ),
        next(AcmeAction::RegisterAccount, AcmeEvent::Done, wanted, true) == Some(
            AcmeAction::UpdateContact,
        ),
        next(AcmeAction::RegisterAccount, AcmeEvent::Done, wanted, false) == Some(
            AcmeAction::PlaceOrder,
        ),
        next(AcmeAction::PlaceOrder, AcmeEvent::Done, wanted, contact) == Some(
            AcmeAction::NextAuthorization,
        ),
        next(
            AcmeAction::NextAuthorization,
            (AcmeEvent::Challenge { token, key_authorization }),
            wanted,
            contact,
        ) == Some(AcmeAction::AnnounceReady),
        next(AcmeAction::AnnounceReady, AcmeEvent::Done, wanted, contact) == Some(
            AcmeAction::NextAuthorization,
        ),
        next(AcmeAction::NextAuthorization, AcmeEvent::NoMoreAuthorizations, wanted, contact)
            == Some(AcmeAction::PollReady { timeout_secs: 120 }),
        next((AcmeAction::PollReady { timeout_secs }), AcmeEvent::Done, wanted, contact) == Some(
            AcmeAction::FinalizeOrder,
        ),
        next(AcmeAction::FinalizeOrder, AcmeEvent::Done, wanted, contact) == Some(
            AcmeAction::PollCertificate { timeout_secs: 120 },
        ),
        next((AcmeAction::PollCertificate { timeout_secs }), AcmeEvent::Done, wanted, contact)
            == Some(AcmeAction::StoreCertificate),
        next(AcmeAction::StoreCertificate, AcmeEvent::Done, wanted, contact) == Some(
            AcmeAction::Sleep { secs: 86400 },
        ),
{
}

/// What fails is passed over where the round can do without it, and else ends the round: for a
/// minute where no account could be prepared, for ten seconds where its key could not be read
/// back, and for a day in every other case.
pub proof fn law_failures_end_the_round(
    timeout_secs: u64,
    done: AcmeAction,
    wanted: bool,
    contact: bool,
)
    ensures
        next(AcmeAction::ReadAccountKey, AcmeEvent::Failed, wanted, contact) == Some(
            AcmeAction::GenerateAccountKey,
        ),
        next(AcmeAction::GenerateAccountKey, AcmeEvent::Failed, wanted, contact) == Some(
            AcmeAction::BuildAccount,
        ),
        next(AcmeAction::BuildAccount, AcmeEvent::Failed, wanted, contact) == Some(
            AcmeAction::Sleep { secs: 60 },
        ),
        next(AcmeAction::RereadAccountKey, AcmeEvent::Failed, wanted, contact) == Some(
            AcmeAction::Sleep { secs: 10 },
        ),
        next(AcmeAction::NextAuthorization, AcmeEvent::NoChallenge, wanted, contact) == Some(
            AcmeAction::Sleep { secs: 86400 },
        ),
        ({
            ||| done is RegisterAccount
            ||| done is PlaceOrder
            ||| done is NextAuthorization
            ||| done is AnnounceReady
            ||| done is PollReady
            ||| done is FinalizeOrder
            ||| done is PollCertificate
            ||| done is StoreCertificate
        }) ==> next(done, AcmeEvent::Failed, wanted, contact) == Some(
            AcmeAction::Sleep { secs: 86400 },
        ),
{
}

/// An action is told only how it can have gone: a look at the certificates reports what it found,
/// the search for an authorization whether there is one and what it asks, and every other
/// action whether it is done or failed, where waiting and installing do not fail.
pub proof fn law_events_suit_the_action(
    done: AcmeAction,
    event: AcmeEvent,
    wanted: bool,
    contact: bool,
)
    ensures
        next(done, event, wanted, contact) is Some <==> (if done is LoadCertificates {
            event is NoCertificate || event is Certificate
        } else if done is NextAuthorization {
            event is Challenge || event is NoChallenge || event is NoMoreAuthorizations
                || event is Failed
        } else if done is Sleep || done is InstallIfEmpty {
            event is Done
        } else {
            event is Done || event is Failed
        }),
{
}

/// What follows a list of events is had event by event, and nothing follows where the worker falls
/// asleep or is told what its action cannot report.
pub proof fn law_rounds_go_event_by_event(
    start: AcmeAction,
    event: AcmeEvent,
    events: Seq<AcmeEvent>,
    contact: bool,
)
    ensures
        after_all(start, Seq::empty(), contact) == Some(start),
        next(start, event, true, contact) matches Some(action) ==> after_all(
            start,
            seq![event] + events,
            contact,
        ) == (if action is Sleep {
            None
        } else {
            after_all(action, events, contact)
        }),
        next(start, event, true, contact) is None ==> after_all(
            start,
            seq![event] + events,
            contact,
        ) is None,
{
    assert((seq![event] + events).drop_first() == events);
}

/// A round in which every action succeeds ends with a stored certificate: from the account key on,
/// with or without a contact and with whatever challenges, the events of success lead through
/// the placing of the order and its finalizing to `StoreCertificate`, and the worker does not
/// sleep on the way.
pub proof fn law_a_round_of_success_stores_a_certificate(
    challenges: Seq<AcmeEvent>,
    contact: bool,
)
    requires
        forall|i: int| 0 <= i < challenges.len() ==> (#[trigger] challenges[i]) is Challenge,
    ensures
        ({
            let account = if contact {
                seq![
                    AcmeEvent::Done,
                    AcmeEvent::Done,
                    AcmeEvent::Done,
                    AcmeEvent::Done,
                    AcmeEvent::Done,
                ]
            } else {
                seq![AcmeEvent::Done, AcmeEvent::Done, AcmeEvent::Done, AcmeEvent::Done]
            };
            let answers = Seq::new(
                2 * challenges.len(),
                |i: int|
                    if i % 2 == 0 {
                        challenges[i / 2]
                    } else {
                        AcmeEvent::Done
                    },
            );
            let ready = account + seq![AcmeEvent::Done] + answers + seq![
                AcmeEvent::NoMoreAuthorizations,
                AcmeEvent::Done,
            ];
            &&& after_all(AcmeAction::ReadAccountKey, account, contact) == Some(
                AcmeAction::PlaceOrder,
            )
            &&& after_all(AcmeAction::ReadAccountKey, ready, contact) == Some(
                AcmeAction::FinalizeOrder,
            )
            &&& after_all(
                AcmeAction::ReadAccountKey,
                ready + seq![AcmeEvent::Done, AcmeEvent::Done],
                contact,
            ) == Some(AcmeAction::StoreCertificate)
        }),
{
    let account = if contact {
        seq![
            AcmeEvent::Done,
            AcmeEvent::Done,
            AcmeEvent::Done,
            AcmeEvent::Done,
            AcmeEvent::Done,
        ]
    } else {
        seq![AcmeEvent::Done, AcmeEvent::Done, AcmeEvent::Done, AcmeEvent::Done]
    };
    let answers = Seq::new(
        2 * challenges.len(),
        |i: int|
            if i % 2 == 0 {
                challenges[i / 2]
            } else {
                AcmeEvent::Done
            },
    );
    let placed = seq![AcmeEvent::Done];
    let polled = seq![AcmeEvent::NoMoreAuthorizations, AcmeEvent::Done];
    let finished = seq![AcmeEvent::Done, AcmeEvent::Done];
    let start = AcmeAction::ReadAccountKey;
    reveal_with_fuel(after_all, 7);
    assert(after_all(start, account, contact) == Some(AcmeAction::PlaceOrder));
    lemma_after_both(start, account, placed, contact);
    lemma_after_both(start, account + placed, answers, contact);
    lemma_after_both(start, account + placed + answers, polled, contact);
    lemma_after_both(start, account + placed + answers + polled, finished, contact);
    lemma_after_answers(challenges, contact);
}

proof fn lemma_after_both(
    start: AcmeAction,
    first: Seq<AcmeEvent>,
    second: Seq<AcmeEvent>,
    contact: bool,
)
    ensures
        after_all(start, first + second, contact) == (match after_all(start, first, contact) {
            Some(action) => after_all(action, second, contact),
            None => None,
        }),
    decreases first.len(),
{
    if first.len() == 0 {
        assert(first + second == second);
    } else {
        assert((first + second).drop_first() == first.drop_first() + second);
        assert((first + second)[0] == first[0]);
        if let Some(action) = next(start, first[0], true, contact) {
            lemma_after_both(action, first.drop_first(), second, contact);
        }
    }
}

proof fn lemma_after_answers(challenges: Seq<AcmeEvent>, contact: bool)
    requires
        forall|i: int| 0 <= i < challenges.len() ==> (#[trigger] challenges[i]) is Challenge,
    ensures
        after_all(
            AcmeAction::NextAuthorization,
            Seq::new(
                2 * challenges.len(),
                |i: int|
                    if i % 2 == 0 {
                        challenges[i / 2]
                    } else {
                        AcmeEvent::Done
                    },
            ),
            contact,
        ) == Some(AcmeAction::NextAuthorization),
    decreases challenges.len(),
{
    let answers = Seq::new(
        2 * challenges.len(),
        |i: int|
            if i % 2 == 0 {
                challenges[i / 2]
            } else {
                AcmeEvent::Done
            },
    );
    if challenges.len() > 0 {
        let others = challenges.drop_first();
        assert forall|i: int| 0 <= i < others.len() implies (#[trigger] others[i]) is Challenge by {
            assert(others[i] == challenges[i + 1]);
        }
        lemma_after_answers(others, contact);
        let rest = Seq::new(
            2 * others.len(),
            |i: int|
                if i % 2 == 0 {
                    others[i / 2]
                } else {
                    AcmeEvent::Done
                },
        );
        assert(answers.drop_first().drop_first() =~= rest);
        assert(answers[0] == challenges[0]);
        assert(answers.drop_first()[0] == AcmeEvent::Done);
        reveal_with_fuel(after_all, 3);
    }
}

/// A challenge is published under its token when it comes. As long as the order goes on the
/// others stay, and none is left when it ends. Outside of an order nothing is published.
pub proof fn law_challenges_are_published_as_they_come(
    challenges: Map<Seq<char>, Seq<char>>,
    done: AcmeAction,
    event: AcmeEvent,
    then_do: AcmeAction,
)
    ensures
        ({
            let opened = {
                ||| done is NextAuthorization
                ||| done is AnnounceReady
                ||| done is PollReady
                ||| done is FinalizeOrder
                ||| done is PollCertificate
                ||| done is StoreCertificate
            };
            let goes_on = {
                ||| then_do is NextAuthorization
                ||| then_do is AnnounceReady
                ||| then_do is PollReady
                ||| then_do is FinalizeOrder
                ||| then_do is PollCertificate
                ||| then_do is StoreCertificate
            };
            let after = published(challenges, done, event, then_do);
            &&& opened && !goes_on ==> after == Map::<Seq<char>, Seq<char>>::empty()
            &&& opened && goes_on && !(event is Challenge) ==> after == challenges
            &&& !opened && !(event is Challenge) ==> after == challenges
            &&& goes_on ==> (event matches AcmeEvent::Challenge { token, key_authorization }
                ==> after == challenges.insert(token@, key_authorization@))
        }),
{
}

/// A certificate is wanted exactly where ACME is there and enabled, with a domain.
pub proof fn law_when_a_certificate_is_wanted(settings: Settings)
    ensures
        settings.server.tls is None ==> acme_settings(settings) is None && !wants_certificate(
            settings,
        ),
        settings.server.tls matches Some(tls) ==> acme_settings(settings) == tls.acme,
        settings.server.tls matches Some(tls) ==> tls.acme is None ==> !wants_certificate(settings),
        settings.server.tls matches Some(tls) ==> (tls.acme matches Some(acme)
            ==> wants_certificate(settings) == (acme.enabled && acme.domains@.len() > 0)),
{
}

/// A job has what the ACME settings say, domain by domain.
pub proof fn law_jobs_are_as_configured(job: AcmeJob, acme: AcmeSettings, i: int)
    requires
        job.comes_from(acme),
    ensures
        job.domains@.len() == acme.domains@.len(),
        0 <= i < acme.domains@.len() ==> job.domains@[i]@ == acme.domains@[i]@,
        job.email@ == acme.email@,
        job.staging == acme.staging,
        job.cache_dir@ == acme.cache_dir@,
        job.custom_directory_url == acme.directory_url,
{
    let (x, y) = (job.domains@, acme.domains@);
    assert(views(x).len() == x.len() && views(y).len() == y.len());
    if 0 <= i < y.len() {
        assert(views(x)[i] == x[i]@ && views(y)[i] == y[i]@);
    }
}

/// A worker at work has a job, and gives the account a contact exactly where the job has an
/// e-mail address.
pub proof fn law_workers_at_work_have_a_job(worker: AcmeWorker)
    ensures
        worker.wf() <==> (worker.pending is Sleep || worker.job is Some),
        worker.job is None ==> !worker.has_contact(),
        worker.job matches Some(job) ==> worker.has_contact() == (job.email@.len() > 0),
{
}

/// The expiry of a certificate is compared as a number of seconds; without a valid time on both
/// sides nothing is known.
pub proof fn law_times_are_compared_by_their_seconds(expiry: int, limit: int, time: Option<int>)
    ensures
        compared(Some(expiry), Some(limit)) is Later <==> expiry > limit,
        compared(Some(expiry), Some(limit)) is Same <==> expiry == limit,
        compared(Some(expiry), Some(limit)) is Earlier <==> expiry < limit,
        compared(None, time) is Unknown,
        compared(time, None) is Unknown,
{
}

/// How an expiry stands to the time some days ahead goes by a time that the clock has shown, to
/// the second. It is unknown only where the expiry is no valid time, or no days are between.
pub proof fn law_expiries_are_held_against_the_clock(
    order: ExpiryOrder,
    expiry: Option<int>,
    days: int,
)
    requires
        is_order_in_days(order, expiry, days),
    ensures
        exists|now: int| #[trigger]
            is_clock_reading(now) && {
                ||| order is Unknown && (expiry is None || days == 0)
                ||| expiry is Some && order is Later && expiry->0 > now + 86400 * days
                ||| expiry is Some && order is Same && expiry->0 == now + 86400 * days
                ||| expiry is Some && order is Earlier && expiry->0 < now + 86400 * days
            },
{
    let limit = choose|limit: Option<int>| order == #[trigger] compared(expiry, limit)
        && is_days_ahead(limit, days);
    let now = choose|now: int| #[trigger]
        is_clock_reading(now) && (limit == Some(now + 86400 * days) || (days == 0 && limit is None));
    assert(is_clock_reading(now));
}

/// A certificate with its key was read from the two texts, each part from its own; where a text is
/// plain, it is what that text encodes. So a plain text that encodes no certificate gives none.
pub proof fn law_certificates_come_from_their_texts(
    pair: (X509, PKey<Private>),
    cert_pem: Seq<u8>,
    key_pem: Seq<u8>,
)
    requires
        is_read_from(pair, cert_pem, key_pem),
    ensures
        gave_certificate(cert_pem, certificate_der(pair.0)),
        gave_key(key_pem, private_key_der(pair.1)),
        is_plain(cert_pem) ==> pem_certificate(cert_pem) == Some(certificate_der(pair.0)),
        is_plain(key_pem) && is_one_block(key_pem) ==> private_key_der(pair.1) == pem_private_key(
            key_pem,
        ),
        !lacks_certificate(cert_pem),
{
}

/// Texts give nothing only where OpenSSL has refused one of them, and a plain text that encodes no
/// certificate always lacks one.
pub proof fn law_unreadable_texts_were_refused(cert_pem: Seq<u8>, key_pem: Seq<u8>)
    ensures
        may_be_unreadable(cert_pem, key_pem) ==> refused_certificate(cert_pem) || refused_key(
            key_pem,
        ),
        lacks_certificate(cert_pem) <==> is_plain(cert_pem) && pem_certificate(cert_pem) is None,
{
}

} // verus!
