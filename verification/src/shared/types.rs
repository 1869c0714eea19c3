//! The shared data model: file metadata, registered clients and the
//! real-time protocol's messages. Identifiers are the 128-bit values of
//! UUIDs and instants are held as chrono holds them: seconds since the Unix
//! epoch and the nanoseconds past that second.
use vstd::prelude::*;
use crate::shared::digest::{hex_digit, hex_digit_exec};
use crate::text::push_char;

verus! {

/// Whether a 128-bit value is a version-4 UUID of the RFC 4122 variant:
/// version nibble 4 and variant bits `10`.
pub open spec fn is_uuid_v4(id: u128) -> bool {
    id & 0xF000_C000_0000_0000_0000 == 0x4000_8000_0000_0000_0000
}

/// A fresh version-4 UUID as its 128-bit value.
///
/// Calls `uuid::Uuid::new_v4` and `Uuid::as_u128`. The value is random;
/// the contract states only what the crate's source fixes for every
/// outcome: the version nibble is 4 and the variant bits are `10`.
#[verifier::external_body]
pub fn new_uuid() -> (id: u128)
    ensures
        is_uuid_v4(id),
{
    uuid::Uuid::new_v4().as_u128()
}

/// An instant as `chrono::DateTime<Utc>` holds it: whole seconds since the
/// Unix epoch and the nanoseconds past that second. The derived order is
/// the order in time.
#[derive(Debug, Clone, Copy, PartialEq, Eq, Structural, PartialOrd, Ord, Hash)]
pub struct Timestamp {
    pub secs: i64,
    pub nanos: u32,
}

/// The current time.
///
/// Calls `chrono::Utc::now`, then `DateTime::timestamp` and
/// `DateTime::timestamp_subsec_nanos`. Nothing is stated of the value: it
/// is read from the system clock.
#[verifier::external_body]
pub(crate) fn now_timestamp() -> (t: Timestamp) {
    let now = chrono::Utc::now();
    Timestamp { secs: now.timestamp(), nanos: now.timestamp_subsec_nanos() }
}

/// The `j`-th hexadecimal digit (from the most significant) of a 128-bit value.
pub open spec fn nibble(id: u128, j: int) -> u8 {
    ((id >> ((124 - 4 * j) as u128)) & 0xf) as u8
}

pub open spec fn dashes_before(k: int) -> int {
    (if k > 8 { 1int } else { 0int }) + (if k > 13 { 1int } else { 0int }) + (if k > 18 { 1int } else { 0int })
        + (if k > 23 { 1int } else { 0int })
}

pub open spec fn uuid_char(id: u128, k: int) -> char {
    if k == 8 || k == 13 || k == 18 || k == 23 {
        '-'
    } else {
        hex_digit(nibble(id, k - dashes_before(k)))
    }
}

/// The hyphenated lower-case text of a UUID: 8-4-4-4-12 hexadecimal digits.
pub open spec fn uuid_text_spec(id: u128) -> Seq<char> {
    Seq::new(36, |k: int| uuid_char(id, k))
}

/// The hyphenated lower-case text of a UUID, as `Uuid`'s `Display` writes it.
pub fn uuid_text(id: u128) -> (r: String)
    ensures
        r@ == uuid_text_spec(id),
{
    let mut out = String::new();
    let mut k: usize = 0;
    while k < 36
        invariant
            k <= 36,
            out@ =~= uuid_text_spec(id).subrange(0, k as int),
        decreases 36 - k,
    {
        if k == 8 || k == 13 || k == 18 || k == 23 {
            push_char(&mut out, '-');
        } else {
            let d: usize = (if k > 8 { 1usize } else { 0usize }) + (if k > 13 { 1usize } else { 0usize })
                + (if k > 18 { 1usize } else { 0usize }) + (if k > 23 { 1usize } else { 0usize });
            let j: usize = k - d;
            let shift: u128 = (124 - 4 * j) as u128;
            let v: u128 = (id >> shift) & 0xf;
            proof { lemma_nibble_small(id, shift); }
            let n: u8 = v as u8;
            push_char(&mut out, hex_digit_exec(n));
        }
        k += 1;
    }
    out
}

/// Shifting four bits less appends the next nibble.
proof fn lemma_shift_step(a: u128, s: u128)
    requires
        4 <= s <= 124,
    ensures
        a >> ((s - 4) as u128) == ((a >> s) << 4u128) | ((a >> ((s - 4) as u128)) & 0xf),
{
    assert(a >> ((s - 4) as u128) == ((a >> s) << 4u128) | ((a >> ((s - 4) as u128)) & 0xf)) by (bit_vector)
        requires
            4 <= s <= 124;
}

/// Values whose first `m` hexadecimal digits agree agree on their top `4 * m` bits.
proof fn lemma_high_nibbles_determine(a: u128, b: u128, m: int)
    requires
        1 <= m <= 32,
        forall|j: int| 0 <= j < m ==> #[trigger] nibble(a, j) == nibble(b, j),
    ensures
        a >> ((128 - 4 * m) as u128) == b >> ((128 - 4 * m) as u128),
    decreases m,
{
    let s = (128 - 4 * m) as u128;
    lemma_nibble_small(a, s);
    lemma_nibble_small(b, s);
    assert(nibble(a, m - 1) == nibble(b, m - 1));
    assert((a >> s) & 0xf == (b >> s) & 0xf);
    if m == 1 {
        assert((a >> 124u128) & 0xf == a >> 124u128) by (bit_vector);
        assert((b >> 124u128) & 0xf == b >> 124u128) by (bit_vector);
    } else {
        lemma_high_nibbles_determine(a, b, m - 1);
        lemma_shift_step(a, (s + 4) as u128);
        lemma_shift_step(b, (s + 4) as u128);
    }
}

proof fn lemma_nibble_small(x: u128, s: u128)
    ensures
        ((x >> s) & 0xf) < 16,
{
    assert(((x >> s) & 0xf) < 16) by (bit_vector);
}

proof fn lemma_hex_digit_injective(x: u8, y: u8)
    requires
        x < 16,
        y < 16,
        hex_digit(x) == hex_digit(y),
    ensures
        x == y,
{
}

/// Different identifiers have different texts.
pub proof fn lemma_uuid_text_injective(a: u128, b: u128)
    requires
        a != b,
    ensures
        uuid_text_spec(a) != uuid_text_spec(b),
{
    if uuid_text_spec(a) == uuid_text_spec(b) {
        assert forall|j: int| 0 <= j < 32 implies #[trigger] nibble(a, j) == nibble(b, j) by {
            let k = if j < 8 { j } else if j < 12 { j + 1 } else if j < 16 { j + 2 } else if j < 20 { j + 3 } else { j + 4 };
            assert(uuid_text_spec(a)[k] == uuid_char(a, k));
            assert(uuid_text_spec(b)[k] == uuid_char(b, k));
            let x = nibble(a, j);
            let y = nibble(b, j);
            let sh = (124 - 4 * j) as u128;
            lemma_nibble_small(a, sh);
            lemma_nibble_small(b, sh);
            lemma_hex_digit_injective(x, y);
        }
        lemma_high_nibbles_determine(a, b, 32);
        assert(a >> 0u128 == a) by (bit_vector);
        assert(b >> 0u128 == b) by (bit_vector);
    }
}

/// What the server knows of a stored file.
#[derive(Debug, Clone, PartialEq)]
pub struct FileMetadata {
    pub id: u128,
    /// The path inside the vault namespace.
    pub path: String,
    pub size: u64,
    /// The hexadecimal SHA-256 digest of the content.
    pub checksum: String,
    pub last_modified: Timestamp,
    /// Starts at 1 and grows with every update.
    pub version: u64,
}

/// A registered device.
#[derive(Debug, Clone, PartialEq)]
pub struct Client {
    pub id: u128,
    pub name: String,
    pub public_key: Vec<u8>,
    pub registered_at: Timestamp,
}

/// Messages of the real-time protocol.
#[derive(Debug, Clone, PartialEq)]
pub enum WsMessage {
    FileUpdated { metadata: FileMetadata },
    FileDeleted { file_id: u128 },
    ConflictDetected { file_id: u128, clients: Vec<u128> },
    Ping,
    Pong,
}

/// The outcome of reading a whole file.
#[derive(Debug, Clone, PartialEq)]
pub enum FileRead {
    Content(Vec<u8>),
    NotFound,
    Failed(String),
}

impl FileMetadata {
    /// Metadata of a newly stored file: a fresh id, the current time, version 1.
    pub fn new(path: String, size: u64, checksum: String) -> (r: Self)
        ensures
            r.path == path,
            r.size == size,
            r.checksum == checksum,
            r.version == 1,
            is_uuid_v4(r.id),
    {
        FileMetadata {
            id: new_uuid(),
            path,
            size,
            checksum,
            last_modified: now_timestamp(),
            version: 1,
        }
    }

    /// Records new content: size and checksum are replaced, the time is
    /// renewed and the version grows by one, staying at `u64::MAX` once there.
    pub fn update(&mut self, size: u64, checksum: String)
        ensures
            final(self).id == old(self).id,
            final(self).path == old(self).path,
            final(self).size == size,
            final(self).checksum == checksum,
            final(self).version == if old(self).version == u64::MAX {
                u64::MAX
            } else {
                (old(self).version + 1) as u64
            },
    {
        self.size = size;
        self.checksum = checksum;
        self.last_modified = now_timestamp();
        self.version = self.version.saturating_add(1);
    }
}

impl Client {
    /// A newly registered client: a fresh id and the current time.
    pub fn new(name: String, public_key: Vec<u8>) -> (r: Self)
        ensures
            r.name == name,
            r.public_key == public_key,
            is_uuid_v4(r.id),
    {
        Client { id: new_uuid(), name, public_key, registered_at: now_timestamp() }
    }
}

/// Law: a file's version never decreases across updates, and grows by one
/// below `u64::MAX`.
pub proof fn lemma_update_version_monotone(before: u64, after: u64)
    requires
        after == if before == u64::MAX { u64::MAX } else { (before + 1) as u64 },
    ensures
        after >= before,
        before < u64::MAX ==> after == before + 1,
{
}

} // verus!
