//! The decisions of the site: who may see what, how stream requests are
//! answered, what the dashboard shows, and the secrets and e-mails of
//! account creation and password reset.

use vstd::prelude::*;
use rand::rngs::StdRng;
use rand::Rng;
use vstd::string::StringExecFns;

verus! {

/// An error answered with status 500 and its message.
pub struct QwerError(pub anyhow::Error);

#[verifier::external_type_specification]
#[verifier::external_body]
pub struct ExAnyhowError(anyhow::Error);

impl QwerError {
    pub fn new(e: anyhow::Error) -> (r: Self)
        ensures
            r.0 == e,
    {
        QwerError(e)
    }
}

/// Whether an account with the permission bits `granted` (none when the
/// session is unknown) has every bit of `required`.
pub open spec fn spec_has_permissions(granted: Option<i32>, required: i32) -> bool {
    match granted {
        Some(p) => p & required == required,
        None => false,
    }
}

pub fn has_permissions(granted: Option<i32>, required: i32) -> (r: bool)
    ensures
        r == spec_has_permissions(granted, required),
{
    match granted {
        Some(p) => p & required == required,
        None => false,
    }
}

/// The permission bit of administrators.
pub const PERMISSION_ADMIN: i32 = 0x1;

/// Whose bandwidth the dashboard shows.
#[derive(Debug, Copy, Clone, PartialEq, Eq, Structural)]
pub enum DashboardScope {
    /// Every account's: the session has the administrator permission.
    All,
    /// The session's account's.
    Account(i32),
    /// No one's: the visitor is sent to the login page.
    Login,
}

/// The dashboard's scope for a session: everyone for an administrator, the
/// session's account for another logged-in session, else the login page.
pub fn dashboard_scope(is_admin: bool, account_id: Option<i32>) -> (r: DashboardScope)
    ensures
        is_admin ==> r == DashboardScope::All,
        !is_admin ==> match account_id {
            Some(id) => r == DashboardScope::Account(id),
            None => r == DashboardScope::Login,
        },
{
    if is_admin {
        DashboardScope::All
    } else {
        match account_id {
            Some(id) => DashboardScope::Account(id),
            None => DashboardScope::Login,
        }
    }
}

/// A point of a dashboard's bandwidth graph: the bytes ingested and sent
/// up to `time`.
#[derive(Debug, Copy, Clone, PartialEq, Eq, Structural)]
pub struct DashboardBwSample {
    pub time: i64,
    pub ingest_bytes: u64,
    pub other_bytes: u64,
}

/// The sum of the bytes sent to viewers (`ingest` false) or ingested
/// (`ingest` true) of the first `n` samples, each `(time, other bytes,
/// ingest bytes)`.
pub open spec fn spec_total(samples: Seq<(i64, u32, u32)>, n: int, ingest: bool) -> nat
    decreases n,
{
    if n <= 0 {
        0
    } else {
        spec_total(samples, n - 1, ingest) + (if ingest {
            samples[n - 1].2
        } else {
            samples[n - 1].1
        }) as nat
    }
}

proof fn lemma_total_bound(samples: Seq<(i64, u32, u32)>, n: int, ingest: bool)
    requires
        0 <= n,
    ensures
        spec_total(samples, n, ingest) <= n * 0xffff_ffff,
    decreases n,
{
    if n > 0 {
        lemma_total_bound(samples, n - 1, ingest);
    }
}

/// The dashboard's graph of an account: for each bandwidth sample of its
/// sessions, in order, the time and the running totals of ingested and
/// sent bytes. The totals are 64-bit; `requires` bounds the number of
/// samples so that they cannot overflow.
pub fn dashboard_samples(samples: &Vec<(i64, u32, u32)>) -> (r: Vec<DashboardBwSample>)
    requires
        samples@.len() <= 0xffff_ffff,
    ensures
        r@.len() == samples@.len(),
        forall|i: int|
            0 <= i < samples@.len() ==> #[trigger] r@[i] == (DashboardBwSample {
                time: samples@[i].0,
                ingest_bytes: spec_total(samples@, i + 1, true) as u64,
                other_bytes: spec_total(samples@, i + 1, false) as u64,
            }),
{
    let mut r: Vec<DashboardBwSample> = Vec::new();
    let mut total_ingest_bytes: u64 = 0;
    let mut total_other_bytes: u64 = 0;
    let mut i: usize = 0;
    while i < samples.len()
        invariant
            i <= samples@.len(),
            samples@.len() <= 0xffff_ffff,
            r@.len() == i,
            total_ingest_bytes == spec_total(samples@, i as int, true),
            total_other_bytes == spec_total(samples@, i as int, false),
            forall|j: int|
                0 <= j < i ==> #[trigger] r@[j] == (DashboardBwSample {
                    time: samples@[j].0,
                    ingest_bytes: spec_total(samples@, j + 1, true) as u64,
                    other_bytes: spec_total(samples@, j + 1, false) as u64,
                }),
        decreases samples@.len() - i,
    {
        let (time, other_bytes, ingest_bytes) = samples[i];
        proof {
            lemma_total_bound(samples@, i + 1, true);
            lemma_total_bound(samples@, i + 1, false);
            assert((i + 1) * 0xffff_ffff <= 0xffff_ffff * 0xffff_ffff) by (nonlinear_arith)
                requires
                    i + 1 <= 0xffff_ffff,
            ;
        }
        total_ingest_bytes = total_ingest_bytes + ingest_bytes as u64;
        total_other_bytes = total_other_bytes + other_bytes as u64;
        r.push(
            DashboardBwSample {
                time,
                ingest_bytes: total_ingest_bytes,
                other_bytes: total_other_bytes,
            },
        );
        i = i + 1;
    }
    r
}

/// The most viewers a stream can have for another to join.
pub const MAX_VIEWERS: i32 = 10;

/// Whether a viewer may join a stream: `None` when the streamer has no
/// live session, else whether it has fewer than ten viewers.
pub fn auth_join_decision(viewer_count: Option<i32>) -> (r: Option<bool>)
    ensures
        match viewer_count {
            Some(n) => r == Some(n < MAX_VIEWERS),
            None => r is None,
        },
{
    match viewer_count {
        Some(n) => Some(n < MAX_VIEWERS),
        None => None,
    }
}

/// The answer to a request to join a stream.
#[derive(Debug, Copy, Clone, PartialEq, Eq, Structural)]
pub enum JoinReply {
    Accepted,
    /// "Too many viewers!"
    Unavailable,
    /// "Stream not found"
    NotFound,
    /// "Failed to auth join request"
    Internal,
}

/// The answer to a join request from the decision, or `None` when the
/// decision failed.
pub fn join_reply(decision: Option<Option<bool>>) -> (r: JoinReply)
    ensures
        r == (match decision {
            Some(Some(true)) => JoinReply::Accepted,
            Some(Some(false)) => JoinReply::Unavailable,
            Some(None) => JoinReply::NotFound,
            None => JoinReply::Internal,
        }),
{
    match decision {
        Some(Some(true)) => JoinReply::Accepted,
        Some(Some(false)) => JoinReply::Unavailable,
        Some(None) => JoinReply::NotFound,
        None => JoinReply::Internal,
    }
}

/// The answer to a request to ingest a stream.
pub enum IngestReply {
    /// The stream key belongs to the account: a session was started.
    Accepted { streamer_id: i32, stream_session_id: i32, streamer_name: String },
    /// "Invalid stream key"
    PermissionDenied,
    /// "Failed to auth"
    Internal,
}

/// The answer to an ingest request from the account and session it got,
/// `Some(None)` for an unknown stream key, or `None` when that failed.
pub fn ingest_reply(outcome: Option<Option<(i32, i32, String)>>) -> (r: IngestReply)
    ensures
        match outcome {
            Some(Some((a, s, n))) => r matches IngestReply::Accepted {
                streamer_id,
                stream_session_id,
                streamer_name,
            } && streamer_id == a && stream_session_id == s && streamer_name == n,
            Some(None) => r is PermissionDenied,
            None => r is Internal,
        },
{
    match outcome {
        Some(Some((streamer_id, stream_session_id, streamer_name))) => IngestReply::Accepted {
            streamer_id,
            stream_session_id,
            streamer_name,
        },
        Some(None) => IngestReply::PermissionDenied,
        None => IngestReply::Internal,
    }
}

/// Whether a streamer is live.
pub enum StreamStatus {
    Online(String),
    Offline(String),
}

/// The status of a stream page: unknown without an account of that name,
/// else online when the account has a session that has not stopped.
pub fn stream_status(account: Option<(i32, String)>, live: bool) -> (r: Option<StreamStatus>)
    ensures
        match account {
            Some((_, name)) => if live {
                r matches Some(StreamStatus::Online(n)) && n == name
            } else {
                r matches Some(StreamStatus::Offline(n)) && n == name
            },
            None => r is None,
        },
{
    match account {
        Some((_, name)) => if live {
            Some(StreamStatus::Online(name))
        } else {
            Some(StreamStatus::Offline(name))
        },
        None => None,
    }
}

/// The characters of an activation secret: `a`-`z`, `A`-`Z`, `0`-`9`.
pub open spec fn spec_charset_byte(i: int) -> u8 {
    if i < 26 {
        (0x61 + i) as u8
    } else if i < 52 {
        (0x41 + (i - 26)) as u8
    } else {
        (0x30 + (i - 52)) as u8
    }
}

/// An ASCII letter or digit.
pub open spec fn spec_is_alphanumeric(b: u8) -> bool {
    (0x61 <= b <= 0x7a) || (0x41 <= b <= 0x5a) || (0x30 <= b <= 0x39)
}

/// The size of the activation secret character set.
pub const SECRET_CHARSET_LEN: usize = 62;

fn secret_charset_byte(i: usize) -> (r: u8)
    requires
        i < SECRET_CHARSET_LEN,
    ensures
        r == spec_charset_byte(i as int),
        spec_is_alphanumeric(r),
{
    if i < 26 {
        0x61 + i as u8
    } else if i < 52 {
        0x41 + (i - 26) as u8
    } else {
        0x30 + (i - 52) as u8
    }
}

/// `fastrand::usize(..n)`: a random index below `n`. The range is empty,
/// and the call panics, when `n` is zero; `requires` leaves that out.
#[verifier::external_body]
fn random_index(n: usize) -> (r: usize)
    requires
        n > 0,
    ensures
        r < n,
{
    fastrand::usize(..n)
}

/// Fills `dest` with random characters of the secret character set.
pub fn generate_activation_secret(dest: &mut [u8; 32])
    ensures
        forall|i: int| 0 <= i < 32 ==> #[trigger] spec_is_alphanumeric(final(dest)@[i]),
{
    let mut i: usize = 0;
    while i < 32
        invariant
            i <= 32,
            forall|j: int| 0 <= j < i ==> #[trigger] spec_is_alphanumeric(dest@[j]),
        decreases 32 - i,
    {
        let c = secret_charset_byte(random_index(SECRET_CHARSET_LEN));
        dest.set(i, c);
        i = i + 1;
    }
}

/// `OsRng::try_fill_bytes` (rand_core) on `n` bytes: bytes from the
/// operating system's random source, `None` when that source fails.
/// Nothing is stated of the bytes but their number.
#[verifier::external_body]
pub(crate) fn os_random_bytes(n: usize) -> (r: Option<Vec<u8>>)
    ensures
        r matches Some(v) ==> v@.len() == n,
{
    let mut v = vec![0u8; n];
    match rand::RngCore::try_fill_bytes(&mut rand::rngs::OsRng, &mut v) {
        Ok(()) => Some(v),
        Err(_) => None,
    }
}

#[verifier::external_type_specification]
#[verifier::external_body]
pub struct ExStdRng(rand::rngs::StdRng);

/// `StdRng::from_seed` (rand): a generator seeded with the 32 bytes of
/// `seed`. Nothing is stated of its state.
#[verifier::external_body]
fn seeded_rng(seed: &[u8]) -> StdRng
    requires
        seed@.len() == 32,
{
    let mut s = [0u8; 32];
    s.copy_from_slice(seed);
    rand::SeedableRng::from_seed(s)
}

/// `rng.sample(Alphanumeric)` (rand): an ASCII letter or digit, as the
/// distribution's documentation says.
#[verifier::external_body]
fn sample_alphanumeric(rng: &mut StdRng) -> (r: u8)
    ensures
        spec_is_alphanumeric(r),
{
    rng.sample(rand::distributions::Alphanumeric)
}

/// `String::from_utf8` of ASCII bytes: the string of those characters.
#[verifier::external_body]
fn ascii_string(bytes: Vec<u8>) -> (r: String)
    requires
        forall|i: int| 0 <= i < bytes@.len() ==> #[trigger] bytes@[i] < 0x80,
    ensures
        r@ == bytes@.map_values(|b: u8| b as char),
{
    String::from_utf8(bytes).unwrap()
}

/// A secret of `len` ASCII letters and digits, drawn from a generator
/// seeded with the 32 bytes of `seed`.
pub fn secret_from_seed(seed: &[u8], len: usize) -> (r: String)
    requires
        seed@.len() == 32,
    ensures
        r@.len() == len,
        forall|i: int| 0 <= i < len ==> #[trigger] spec_is_alphanumeric(r@[i] as u8),
{
    let mut rng = seeded_rng(seed);
    let mut bytes: Vec<u8> = Vec::new();
    let mut i: usize = 0;
    while i < len
        invariant
            i <= len,
            bytes@.len() == i,
            forall|j: int| 0 <= j < i ==> #[trigger] spec_is_alphanumeric(bytes@[j]),
        decreases len - i,
    {
        bytes.push(sample_alphanumeric(&mut rng));
        i = i + 1;
    }
    let ghost b = bytes@;
    assert forall|i: int| 0 <= i < bytes@.len() implies #[trigger] bytes@[i] < 0x80 by {
        assert(spec_is_alphanumeric(bytes@[i]));
    }
    let r = ascii_string(bytes);
    assert forall|i: int| 0 <= i < len implies #[trigger] spec_is_alphanumeric(r@[i] as u8) by {
        assert(spec_is_alphanumeric(b[i]));
        assert(r@[i] == b[i] as char);
    }
    r
}

/// A random secret of `len` ASCII letters and digits: the secret built by
/// `secret_from_seed` from 32 bytes of the operating system's random
/// source, or `None` when that source fails.
pub fn generate_secret(len: usize) -> (r: Option<String>)
    ensures
        r matches Some(s) ==> s@.len() == len && forall|i: int|
            0 <= i < len ==> #[trigger] spec_is_alphanumeric(s@[i] as u8),
{
    match os_random_bytes(32) {
        Some(seed) => Some(secret_from_seed(seed.as_slice(), len)),
        None => None,
    }
}

/// The parts of an e-mail to send.
pub struct EmailText {
    pub from: String,
    pub to: String,
    pub subject: String,
    pub plain: String,
    pub html: String,
}

/// The sender of the site's e-mails: the site's domain with its
/// `no-reply` address.
pub open spec fn spec_from_address(site_domain: Seq<char>) -> Seq<char> {
    site_domain + " <no-reply@"@ + site_domain + ">"@
}

fn from_address(site_domain: &str) -> (r: String)
    ensures
        r@ == spec_from_address(site_domain@),
{
    site_domain.to_owned().concat(" <no-reply@").concat(site_domain).concat(">")
}

fn to_address(address: &str) -> (r: String)
    ensures
        r@ == "<"@ + address@ + ">"@,
{
    "<".to_owned().concat(address).concat(">")
}

/// The e-mail inviting to create an account: a link to the activation page
/// of the secret, as text and as HTML.
pub fn account_creation_email(site_domain: &str, web_url: &str, address: &str, secret: &str) -> (r:
    EmailText)
    ensures
        r.from@ == spec_from_address(site_domain@),
        r.to@ == "<"@ + address@ + ">"@,
        r.subject@ == "Create an account"@,
        r.plain@ == "Go to "@ + web_url@ + "account/activate/"@ + secret@
            + " to create a new account"@,
        r.html@ == "<html><body>Click <a href=\""@ + web_url@ + "account/activate/"@ + secret@
            + "\">here</a> to create a new account</body></html>"@,
{
    EmailText {
        from: from_address(site_domain),
        to: to_address(address),
        subject: "Create an account".to_owned(),
        plain: "Go to ".to_owned().concat(web_url).concat("account/activate/").concat(secret).concat(
            " to create a new account",
        ),
        html: "<html><body>Click <a href=\"".to_owned().concat(web_url).concat(
            "account/activate/",
        ).concat(secret).concat("\">here</a> to create a new account</body></html>"),
    }
}

/// The e-mail to reset a password: a link to the reset page of the secret,
/// as text and as HTML.
pub fn password_reset_email(site_domain: &str, web_url: &str, address: &str, secret: &str) -> (r:
    EmailText)
    ensures
        r.from@ == spec_from_address(site_domain@),
        r.to@ == "<"@ + address@ + ">"@,
        r.subject@ == "Reset your password"@,
        r.plain@ == "Go to "@ + web_url@ + "account/reset/"@ + secret@
            + " to change your password"@,
        r.html@ == "<html><body>Click <a href=\""@ + web_url@ + "account/reset/"@ + secret@
            + "\">here</a> to change your password</body></html>"@,
{
    EmailText {
        from: from_address(site_domain),
        to: to_address(address),
        subject: "Reset your password".to_owned(),
        plain: "Go to ".to_owned().concat(web_url).concat("account/reset/").concat(secret).concat(
            " to change your password",
        ),
        html: "<html><body>Click <a href=\"".to_owned().concat(web_url).concat(
            "account/reset/",
        ).concat(secret).concat("\">here</a> to change your password</body></html>"),
    }
}

} // verus!
