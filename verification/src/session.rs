//! Deterministic session identity.
//!
//! A session groups the events of one device, one application key and one UTC
//! calendar day. Its identifier is the SHA-256 digest of those three strings,
//! rendered as lowercase hex and truncated to 36 characters (the ingestion
//! service caps session identifiers at 36 characters). The same device, key
//! and day therefore always yield the same identifier, across process
//! restarts, with no stored randomness.

use vstd::prelude::*;

verus! {

/// The SHA-256 digest of the UTF-8 bytes of `machine_id`, `app_key` and
/// `date`, concatenated in that order. The digest is a pure function of those
/// bytes; no spec is given for its value.
pub uninterp spec fn sha256_of(machine_id: Seq<char>, app_key: Seq<char>, date: Seq<char>) -> Seq<
    u8,
>;

/// Relies on sha2::Sha256 through the Digest trait: feeding the three strings
/// to one hasher digests the concatenation of their UTF-8 bytes, the digest
/// depends on those bytes alone, and it is 32 bytes long.
#[verifier::external_body]
fn sha256_digest(machine_id: &str, app_key: &str, date: &str) -> (digest: Vec<u8>)
    ensures
        digest@ == sha256_of(machine_id@, app_key@, date@),
        digest@.len() == 32,
{
    let mut hasher = <sha2::Sha256 as sha2::Digest>::new();
    sha2::Digest::update(&mut hasher, machine_id.as_bytes());
    sha2::Digest::update(&mut hasher, app_key.as_bytes());
    sha2::Digest::update(&mut hasher, date.as_bytes());
    sha2::Digest::finalize(hasher).to_vec()
}

/// Relies on String::push: appends exactly one character at the end.
#[verifier::external_body]
fn push_char(s: &mut String, c: char)
    ensures
        final(s)@ == old(s)@.push(c),
{
    s.push(c);
}

/// The lowercase hex character for one value below 16.
pub open spec fn spec_hex_char(n: u8) -> char {
    if n == 0 {
        '0'
    } else if n == 1 {
        '1'
    } else if n == 2 {
        '2'
    } else if n == 3 {
        '3'
    } else if n == 4 {
        '4'
    } else if n == 5 {
        '5'
    } else if n == 6 {
        '6'
    } else if n == 7 {
        '7'
    } else if n == 8 {
        '8'
    } else if n == 9 {
        '9'
    } else if n == 10 {
        'a'
    } else if n == 11 {
        'b'
    } else if n == 12 {
        'c'
    } else if n == 13 {
        'd'
    } else if n == 14 {
        'e'
    } else {
        'f'
    }
}

fn hex_char(n: u8) -> (c: char)
    requires
        n < 16,
    ensures
        c == spec_hex_char(n),
{
    match n {
        0 => '0',
        1 => '1',
        2 => '2',
        3 => '3',
        4 => '4',
        5 => '5',
        6 => '6',
        7 => '7',
        8 => '8',
        9 => '9',
        10 => 'a',
        11 => 'b',
        12 => 'c',
        13 => 'd',
        14 => 'e',
        _ => 'f',
    }
}

/// True of the characters that lowercase hex encoding produces.
pub open spec fn is_hex_digit(c: char) -> bool {
    ('0' <= c && c <= '9') || ('a' <= c && c <= 'f')
}

/// Lowercase hex encoding of a byte sequence: two characters per byte,
/// high nibble first.
pub open spec fn spec_hex(bytes: Seq<u8>) -> Seq<char>
    decreases bytes.len(),
{
    if bytes.len() == 0 {
        Seq::empty()
    } else {
        seq![
            spec_hex_char((bytes[0] / 16) as u8),
            spec_hex_char((bytes[0] % 16) as u8),
        ] + spec_hex(bytes.drop_first())
    }
}

proof fn lemma_spec_hex_len(bytes: Seq<u8>)
    ensures
        spec_hex(bytes).len() == 2 * bytes.len(),
    decreases bytes.len(),
{
    if bytes.len() > 0 {
        lemma_spec_hex_len(bytes.drop_first());
    }
}

proof fn lemma_spec_hex_digits(bytes: Seq<u8>)
    ensures
        forall|i: int| 0 <= i < spec_hex(bytes).len() ==> is_hex_digit(#[trigger] spec_hex(bytes)[i]),
    decreases bytes.len(),
{
    if bytes.len() > 0 {
        lemma_spec_hex_digits(bytes.drop_first());
        lemma_spec_hex_len(bytes.drop_first());
    }
}

/// Appending one byte extends the encoding by its two digits.
proof fn lemma_spec_hex_snoc(bytes: Seq<u8>, b: u8)
    ensures
        spec_hex(bytes.push(b)) == spec_hex(bytes) + seq![
            spec_hex_char((b / 16) as u8),
            spec_hex_char((b % 16) as u8),
        ],
    decreases bytes.len(),
{
    if bytes.len() == 0 {
        assert(bytes.push(b).len() == 1);
        assert(bytes.push(b)[0] == b);
        assert(bytes.push(b).drop_first() =~= Seq::<u8>::empty());
        assert(spec_hex(bytes.push(b).drop_first()) =~= Seq::<char>::empty());
        assert(spec_hex(bytes) =~= Seq::<char>::empty());
        assert(spec_hex(bytes.push(b)) =~= spec_hex(bytes) + seq![
            spec_hex_char((b / 16) as u8),
            spec_hex_char((b % 16) as u8),
        ]);
    } else {
        assert(bytes.push(b).drop_first() =~= bytes.drop_first().push(b));
        lemma_spec_hex_snoc(bytes.drop_first(), b);
        assert(bytes.push(b)[0] == bytes[0]);
        assert(spec_hex(bytes.push(b)) == seq![
            spec_hex_char((bytes[0] / 16) as u8),
            spec_hex_char((bytes[0] % 16) as u8),
        ] + spec_hex(bytes.drop_first().push(b)));
        assert(spec_hex(bytes.push(b)) =~= spec_hex(bytes) + seq![
            spec_hex_char((b / 16) as u8),
            spec_hex_char((b % 16) as u8),
        ]);
    }
}

/// The deterministic session identifier: the first 36 hex characters of the
/// SHA-256 digest of machine id, application key and UTC date.
pub open spec fn session_id_of(machine_id: Seq<char>, app_key: Seq<char>, date: Seq<char>) -> Seq<
    char,
> {
    spec_hex(sha256_of(machine_id, app_key, date)).take(36)
}

/// Computes the deterministic session identifier from machine id, application
/// key, and a date string.
pub fn build_session_id(machine_id: &str, app_key: &str, date: &str) -> (id: String)
    ensures
        id@ == session_id_of(machine_id@, app_key@, date@),
        id@.len() == 36,
        forall|i: int| 0 <= i < id@.len() ==> is_hex_digit(#[trigger] id@[i]),
{
    let digest = sha256_digest(machine_id, app_key, date);
    let mut id = String::new();
    // The ingestion service caps session ids at 36 characters, so only the
    // first 18 of the 32 digest bytes are rendered.
    for i in 0..18
        invariant
            digest@ == sha256_of(machine_id@, app_key@, date@),
            digest@.len() == 32,
            id@ == spec_hex(digest@.take(i as int)),
    {
        let b = digest[i];
        proof {
            lemma_spec_hex_snoc(digest@.take(i as int), b);
            assert(digest@.take(i + 1) =~= digest@.take(i as int).push(digest@[i as int]));
        }
        push_char(&mut id, hex_char(b / 16));
        push_char(&mut id, hex_char(b % 16));
    }
    proof {
        lemma_spec_hex_prefix(digest@, 18);
        lemma_spec_hex_len(digest@);
        lemma_spec_hex_digits(digest@.take(18));
        lemma_spec_hex_len(digest@.take(18));
    }
    id
}

/// The encoding of a prefix is the prefix of the encoding.
proof fn lemma_spec_hex_prefix(bytes: Seq<u8>, k: int)
    requires
        0 <= k <= bytes.len(),
    ensures
        spec_hex(bytes.take(k)) == spec_hex(bytes).take(2 * k),
    decreases k,
{
    lemma_spec_hex_len(bytes);
    if k == 0 {
        assert(bytes.take(0) =~= Seq::<u8>::empty());
        assert(spec_hex(bytes.take(0)) =~= spec_hex(bytes).take(0));
    } else {
        lemma_spec_hex_prefix(bytes, k - 1);
        lemma_spec_hex_snoc(bytes.take(k - 1), bytes[k - 1]);
        assert(bytes.take(k) =~= bytes.take(k - 1).push(bytes[k - 1]));
        lemma_spec_hex_len(bytes.take(k - 1));
        assert(spec_hex(bytes.take(k)) =~= spec_hex(bytes).take(2 * k)) by {
            assert(spec_hex(bytes.take(k)) == spec_hex(bytes).take(2 * k - 2) + seq![
                spec_hex_char((bytes[k - 1] / 16) as u8),
                spec_hex_char((bytes[k - 1] % 16) as u8),
            ]);
            lemma_spec_hex_at(bytes, k - 1);
        }
    }
}

/// The two digits of byte `i` stand at positions `2 * i` and `2 * i + 1`.
proof fn lemma_spec_hex_at(bytes: Seq<u8>, i: int)
    requires
        0 <= i < bytes.len(),
    ensures
        spec_hex(bytes)[2 * i] == spec_hex_char((bytes[i] / 16) as u8),
        spec_hex(bytes)[2 * i + 1] == spec_hex_char((bytes[i] % 16) as u8),
    decreases i,
{
    lemma_spec_hex_len(bytes.drop_first());
    if i > 0 {
        lemma_spec_hex_at(bytes.drop_first(), i - 1);
    }
}

/// Relies on machine_uid::get: reads the OS-native machine identifier. The
/// value depends on the machine, so nothing is promised of it; `None` when
/// the lookup fails.
#[verifier::external_body]
fn machine_uid_lookup() -> (m: Option<String>) {
    match machine_uid::get() {
        Ok(id) => Some(id),
        Err(_) => None,
    }
}

/// The machine identifier used in session derivation: the OS-native one, or
/// a fixed placeholder when it cannot be read.
pub(crate) fn lookup_machine_id() -> (m: String) {
    match machine_uid_lookup() {
        Some(id) => id,
        None => "unknown".to_owned(),
    }
}

/// Relies on time::OffsetDateTime::now_utc and time::Date's Display: the
/// current UTC calendar date rendered as zero-padded "year-month-day". The
/// value depends on the clock, so nothing is promised of it.
#[verifier::external_body]
pub(crate) fn today_utc() -> (d: String) {
    time::OffsetDateTime::now_utc().date().to_string()
}

/// Derives the session identifier for this machine, the given application
/// key, and today's UTC date. Same device, same key and same calendar day
/// always yield the same identifier.
pub fn create_session_id(app_key: &str) -> (id: String)
    ensures
        id@.len() == 36,
        forall|i: int| 0 <= i < id@.len() ==> is_hex_digit(#[trigger] id@[i]),
{
    let machine_id = lookup_machine_id();
    let today = today_utc();
    build_session_id(machine_id.as_str(), app_key, today.as_str())
}

/// The live session record: the identifier handed out and the UTC date it
/// was derived for. Replaced wholesale when the date rolls over.
pub struct TrackingSession {
    pub id: String,
    pub date: String,
}

impl TrackingSession {
    /// A session for the given machine, key and date; its identifier is the
    /// deterministic derivation from the three.
    pub fn new(machine_id: &str, app_key: &str, date: &str) -> (s: Self)
        ensures
            s.id@ == session_id_of(machine_id@, app_key@, date@),
            s.date@ == date@,
    {
        TrackingSession { id: build_session_id(machine_id, app_key, date), date: date.to_owned() }
    }
}

/// The identifier after one rotation check: kept when the stored date is
/// still `today`, re-derived from `today` otherwise.
pub open spec fn rotated_id(
    id: Seq<char>,
    date: Seq<char>,
    machine_id: Seq<char>,
    app_key: Seq<char>,
    today: Seq<char>,
) -> Seq<char> {
    if date == today {
        id
    } else {
        session_id_of(machine_id, app_key, today)
    }
}

/// Rotates the session in place when its stored date is no longer `today`;
/// otherwise leaves it untouched.
pub fn rotate_session(session: &mut TrackingSession, machine_id: &str, app_key: &str, today: &str)
    ensures
        final(session).date@ == today@,
        final(session).id@ == rotated_id(
            old(session).id@,
            old(session).date@,
            machine_id@,
            app_key@,
            today@,
        ),
        old(session).date@ == today@ ==> *final(session) == *old(session),
{
    if !crate::str_eq(session.date.as_str(), today) {
        *session = TrackingSession::new(machine_id, app_key, today);
    }
}

/// Rotation on one UTC day is stable: a second check with the same `today`
/// keeps the identifier the first one produced.
pub proof fn lemma_rotation_same_day(
    id: Seq<char>,
    date: Seq<char>,
    machine_id: Seq<char>,
    app_key: Seq<char>,
    today: Seq<char>,
)
    ensures
        rotated_id(
            rotated_id(id, date, machine_id, app_key, today),
            today,
            machine_id,
            app_key,
            today,
        ) == rotated_id(id, date, machine_id, app_key, today),
{
}

/// Rotation across a date rollover re-derives the identifier from the new
/// date; it differs from the stored one whenever the two derivations differ.
pub proof fn lemma_rotation_new_day(
    id: Seq<char>,
    date: Seq<char>,
    machine_id: Seq<char>,
    app_key: Seq<char>,
    today: Seq<char>,
)
    requires
        date != today,
    ensures
        rotated_id(id, date, machine_id, app_key, today) == session_id_of(
            machine_id,
            app_key,
            today,
        ),
{
}

/// Determinism of the derivation: two results computed from equal machine
/// ids, equal application keys and equal dates are equal.
pub proof fn lemma_session_id_deterministic(
    r1: Seq<char>,
    r2: Seq<char>,
    machine_id: Seq<char>,
    app_key: Seq<char>,
    date: Seq<char>,
)
    requires
        r1 == session_id_of(machine_id, app_key, date),
        r2 == session_id_of(machine_id, app_key, date),
    ensures
        r1 == r2,
{
}

} // verus!
