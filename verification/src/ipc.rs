//! What crosses the IPC boundary: references and snapshots as JSON-safe
//! values that hold no native path. Identifiers and large numbers travel as
//! decimal strings, so a JavaScript client cannot lose precision.

use vstd::prelude::*;

use crate::entry::{EntryKind, EntryMetadataModel, FileEntry, SymlinkTarget};
use crate::id::{
    directory_reference_from_raw, entry_reference_from_raw, lemma_directory_reference_from_raw,
    lemma_entry_reference_from_raw,
    DirectoryReference, DirectorySessionId, EntryId, EntryReference,
};
use crate::path::decode_lossy;
use crate::reader::DirectoryEntrySummary;
use vstd::std_specs::convert::{FromSpecImpl, TryFromSpecImpl};
use vstd::utf8::{decode_utf8, encode_utf8, is_ascii_chars, valid_utf8};

verus! {

/// The character of a decimal digit.
pub open spec fn digit_char(digit: nat) -> char {
    (digit + 48) as char
}

pub open spec fn is_digit(c: char) -> bool {
    '0' <= c <= '9'
}

pub open spec fn digit_value(c: char) -> nat {
    (c as int - 48) as nat
}

/// The decimal text of `n`: its digits, most significant first, with no
/// leading zero.
pub open spec fn decimal_chars(n: nat) -> Seq<char>
    decreases n,
{
    if n < 10 {
        seq![digit_char(n)]
    } else {
        decimal_chars(n / 10).push(digit_char(n % 10))
    }
}

/// The value of a sequence of decimal digits.
pub open spec fn decimal_value(digits: Seq<char>) -> nat
    decreases digits.len(),
{
    if digits.len() == 0 {
        0
    } else {
        decimal_value(digits.drop_last()) * 10 + digit_value(digits.last())
    }
}

/// The digits of a text once an optional leading `+` is set aside.
pub open spec fn unsigned_digits(text: Seq<char>) -> Seq<char> {
    if text.len() > 0 && text[0] == '+' {
        text.drop_first()
    } else {
        text
    }
}

/// What parsing `text` as a `u64` gives, as Rust's `str::parse` does it: an
/// optional `+`, then at least one decimal digit and nothing else, for a
/// value that fits.
pub open spec fn parse_u64_model(text: Seq<char>) -> Option<u64> {
    let digits = unsigned_digits(text);
    if digits.len() == 0 {
        None
    } else if exists|i: int| 0 <= i < digits.len() && !is_digit(#[trigger] digits[i]) {
        None
    } else if decimal_value(digits) > u64::MAX {
        None
    } else {
        Some(decimal_value(digits) as u64)
    }
}

proof fn lemma_digit(d: nat)
    requires
        d < 10,
    ensures
        is_digit(digit_char(d)),
        digit_value(digit_char(d)) == d,
        digit_char(d) as u8 == d + 48,
        '\0' <= digit_char(d) <= '\u{7f}',
{
}

proof fn lemma_decimal_chars_shape(n: nat)
    ensures
        decimal_chars(n).len() > 0,
        forall|i: int| 0 <= i < decimal_chars(n).len() ==> is_digit(#[trigger] decimal_chars(n)[i]),
        decimal_value(decimal_chars(n)) == n,
        is_ascii_chars(decimal_chars(n)),
    decreases n,
{
    lemma_digit(n % 10);
    if n < 10 {
        assert(decimal_chars(n).drop_last() =~= Seq::<char>::empty());
        assert(decimal_value(Seq::<char>::empty()) == 0);
        assert(decimal_value(decimal_chars(n)) == n);
    }
    if n >= 10 {
        lemma_decimal_chars_shape(n / 10);
        let prefix = decimal_chars(n / 10);
        let chars = decimal_chars(n);
        assert(chars.drop_last() =~= prefix);
        assert forall|i: int| 0 <= i < chars.len() implies is_digit(#[trigger] chars[i]) by {
            if i < prefix.len() {
                assert(chars[i] == prefix[i]);
            }
        }
        vstd::arithmetic::div_mod::lemma_fundamental_div_mod(n as int, 10);
        assert(chars.last() == digit_char(n % 10));
        assert(decimal_value(chars) == decimal_value(prefix) * 10 + digit_value(digit_char(n % 10)));
        assert(decimal_value(prefix) == n / 10);
        assert(decimal_value(chars) == n);
    }
}

proof fn lemma_decimal_value_grows(digits: Seq<char>, k: int)
    requires
        0 <= k <= digits.len(),
        forall|i: int| 0 <= i < digits.len() ==> is_digit(#[trigger] digits[i]),
    ensures
        decimal_value(digits.take(k)) <= decimal_value(digits),
    decreases digits.len() - k,
{
    if k < digits.len() {
        assert(digits.take(k + 1).drop_last() =~= digits.take(k));
        lemma_decimal_value_grows(digits, k + 1);
    } else {
        assert(digits.take(k) =~= digits);
    }
}

/// The decimal text of `value`.
fn decimal_bytes(value: u128, out: &mut Vec<u8>)
    ensures
        final(out)@ == old(out)@ + decimal_chars(value as nat).map_values(|c: char| c as u8),
    decreases value,
{
    if value >= 10 {
        decimal_bytes(value / 10, out);
    }
    let digit = (value % 10) as u8;
    out.push(digit + 48);
    proof {
        let chars = decimal_chars(value as nat);
        if value >= 10 {
            assert(chars.map_values(|c: char| c as u8) =~= decimal_chars((value / 10) as nat).map_values(
                |c: char| c as u8,
            ).push((digit + 48) as u8));
        } else {
            assert(chars.map_values(|c: char| c as u8) =~= seq![(digit + 48) as u8]);
        }
    }
}

/// Renders `value` in decimal.
pub fn render_decimal(value: u128) -> (text: String)
    ensures
        text@ == decimal_chars(value as nat),
{
    let mut bytes: Vec<u8> = Vec::new();
    decimal_bytes(value, &mut bytes);
    proof {
        let chars = decimal_chars(value as nat);
        lemma_decimal_chars_shape(value as nat);
        vstd::utf8::is_ascii_chars_encode_utf8(chars);
        assert(bytes@ =~= encode_utf8(chars));
        vstd::utf8::encode_utf8_valid_utf8(chars);
        vstd::utf8::encode_utf8_decode_utf8(chars);
    }
    let (text, _) = decode_lossy(bytes.as_slice());
    text
}

/// Parses `text` as a `u64` the way Rust's `str::parse` does.
pub fn parse_u64(text: &str) -> (value: Option<u64>)
    ensures
        value == parse_u64_model(text@),
{
    let ghost all = text@;
    let ghost start: int = if all.len() > 0 && all[0] == '+' {
        1
    } else {
        0
    };
    let ghost digits = unsigned_digits(all);
    assert(digits =~= all.skip(start));
    let mut value: u64 = 0;
    let mut first = true;
    let mut seen_digit = false;
    let ghost mut count: int = 0;
    for c in it: text.chars()
        invariant
            it.seq() == all,
            all == text@,
            first == (it.index() == 0),
            digits == all.skip(start),
            digits == unsigned_digits(all),
            start == 0 || start == 1,
            start == 1 <==> all.len() > 0 && all[0] == '+',
            it.index() <= all.len(),
            count == if it.index() >= start {
                it.index() - start
            } else {
                0
            },
            seen_digit == (count > 0),
            forall|i: int| 0 <= i < count ==> is_digit(#[trigger] digits[i]),
            value == decimal_value(digits.take(count)),
    {
        assert(c == all[it.index()]);
        if first && c == '+' {
            assert(start == 1);
        } else {
            assert(count < digits.len());
            assert(digits[count] == c);
            if c < '0' || c > '9' {
                assert(!is_digit(digits[count]));
                return None;
            }
            let digit = (c as u32 - 48) as u64;
            assert(digit == digit_value(c));
            assert(digits.take(count + 1).drop_last() =~= digits.take(count));
            assert(digits.take(count + 1).last() == c);
            if value > (u64::MAX - digit) / 10 {
                proof {
                    assert(decimal_value(digits.take(count + 1)) > u64::MAX) by (nonlinear_arith)
                        requires
                            decimal_value(digits.take(count + 1)) == value * 10 + digit,
                            value > (u64::MAX - digit) / 10,
                            digit <= 9,
                    ;
                    if forall|i: int| 0 <= i < digits.len() ==> is_digit(#[trigger] digits[i]) {
                        lemma_decimal_value_grows(digits, count + 1);
                        assert(decimal_value(digits) > u64::MAX);
                        assert(parse_u64_model(all) is None);
                    } else {
                        let i = choose|i: int| 0 <= i < digits.len() && !is_digit(#[trigger] digits[i]);
                        assert(!is_digit(digits[i]));
                        assert(parse_u64_model(all) is None);
                    }
                }
                return None;
            }
            assert(value * 10 + digit <= u64::MAX) by (nonlinear_arith)
                requires
                    value <= (u64::MAX - digit) / 10,
                    digit <= 9,
            ;
            value = value * 10 + digit;
            seen_digit = true;
            proof {
                count = count + 1;
            }
        }
        first = false;
    }
    if !seen_digit {
        return None;
    }
    assert(digits.take(count) =~= digits);
    Some(value)
}

/// Rendering a `u64` in decimal and parsing it back gives the same value.
pub proof fn law_decimal_round_trip(value: u64)
    ensures
        parse_u64_model(decimal_chars(value as nat)) == Some(value),
{
    lemma_decimal_chars_shape(value as nat);
    let chars = decimal_chars(value as nat);
    assert(is_digit(chars[0]));
    assert(unsigned_digits(chars) == chars);
}


/// JSON-safe directory capability. It contains no native path.
#[derive(Clone, Debug, PartialEq, Eq)]
pub struct DirectoryReferenceDto {
    pub session_id: String,
}

/// JSON-safe entry capability. Both identifiers must resolve in one live
/// server-owned directory session.
#[derive(Clone, Debug, PartialEq, Eq)]
pub struct EntryReferenceDto {
    pub session_id: String,
    pub entry_id: String,
}

#[derive(Clone, Copy, Debug, PartialEq, Eq, Structural)]
pub enum IpcReferenceError {
    InvalidSessionId,
    InvalidEntryId,
}

impl IpcReferenceError {
    /// A short description that names no path.
    pub fn message(&self) -> (text: &'static str)
        ensures
            text@ == match *self {
                IpcReferenceError::InvalidSessionId => "invalid directory session reference"@,
                IpcReferenceError::InvalidEntryId => "invalid directory entry reference"@,
            },
    {
        match self {
            IpcReferenceError::InvalidSessionId => "invalid directory session reference",
            IpcReferenceError::InvalidEntryId => "invalid directory entry reference",
        }
    }
}

impl DirectoryReferenceDto {
    /// The capability for `reference`, its identifier in decimal.
    pub fn from_reference(reference: DirectoryReference) -> (dto: Self)
        ensures
            dto.session_id@ == decimal_chars(reference@@ as nat),
    {
        DirectoryReferenceDto { session_id: render_decimal(reference.session_id().get() as u128) }
    }
}

impl EntryReferenceDto {
    /// The capability for `reference`, its identifiers in decimal.
    pub fn from_reference(reference: EntryReference) -> (dto: Self)
        ensures
            dto.session_id@ == decimal_chars(reference@.0@ as nat),
            dto.entry_id@ == decimal_chars(reference@.1@ as nat),
    {
        EntryReferenceDto {
            session_id: render_decimal(reference.session_id().get() as u128),
            entry_id: render_decimal(reference.entry_id().get() as u128),
        }
    }
}

/// A non-zero identifier written in decimal, or `None`.
pub open spec fn identifier_model(text: Seq<char>) -> Option<u64> {
    match parse_u64_model(text) {
        Some(value) => if value != 0 {
            Some(value)
        } else {
            None
        },
        None => None,
    }
}

fn parse_identifier(text: &str) -> (value: Option<u64>)
    ensures
        value == identifier_model(text@),
{
    match parse_u64(text) {
        Some(value) => if value != 0 {
            Some(value)
        } else {
            None
        },
        None => None,
    }
}

impl TryFrom<DirectoryReferenceDto> for DirectoryReference {
    type Error = IpcReferenceError;

    /// Accepts exactly a non-zero decimal session identifier.
    fn try_from(value: DirectoryReferenceDto) -> (reference: Result<Self, Self::Error>) {
        match parse_identifier(value.session_id.as_str()) {
            Some(raw) => match DirectorySessionId::from_raw(raw) {
                Some(id) => {
                    let reference = DirectoryReference::new(id);
                    proof {
                        lemma_directory_reference_from_raw(reference);
                    }
                    Ok(reference)
                },
                None => Err(IpcReferenceError::InvalidSessionId),
            },
            None => Err(IpcReferenceError::InvalidSessionId),
        }
    }
}

impl TryFromSpecImpl<DirectoryReferenceDto> for DirectoryReference {
    open spec fn obeys_try_from_spec() -> bool {
        true
    }

    open spec fn try_from_spec(value: DirectoryReferenceDto) -> Result<Self, IpcReferenceError> {
        match identifier_model(value.session_id@) {
            Some(session) => Ok(directory_reference_from_raw(session)),
            None => Err(IpcReferenceError::InvalidSessionId),
        }
    }
}

/// What an entry capability turns back into: the reference, when both
/// identifiers are non-zero decimals, or which one is not.
pub open spec fn entry_reference_from_dto(value: EntryReferenceDto) -> Result<EntryReference, IpcReferenceError> {
    match identifier_model(value.session_id@) {
        None => Err(IpcReferenceError::InvalidSessionId),
        Some(session) => match identifier_model(value.entry_id@) {
            None => Err(IpcReferenceError::InvalidEntryId),
            Some(entry) => Ok(entry_reference_from_raw(session, entry)),
        },
    }
}

impl TryFrom<EntryReferenceDto> for EntryReference {
    type Error = IpcReferenceError;

    /// Accepts exactly non-zero decimal identifiers; the session identifier
    /// is checked first.
    fn try_from(value: EntryReferenceDto) -> (reference: Result<Self, Self::Error>) {
        let session = match parse_identifier(value.session_id.as_str()) {
            Some(raw) => match DirectorySessionId::from_raw(raw) {
                Some(id) => id,
                None => {
                    return Err(IpcReferenceError::InvalidSessionId);
                },
            },
            None => {
                return Err(IpcReferenceError::InvalidSessionId);
            },
        };
        let entry = match parse_identifier(value.entry_id.as_str()) {
            Some(raw) => match EntryId::from_raw(raw) {
                Some(id) => id,
                None => {
                    return Err(IpcReferenceError::InvalidEntryId);
                },
            },
            None => {
                return Err(IpcReferenceError::InvalidEntryId);
            },
        };
        let reference = EntryReference::new(session, entry);
        proof {
            lemma_entry_reference_from_raw(reference);
        }
        Ok(reference)
    }
}

impl TryFromSpecImpl<EntryReferenceDto> for EntryReference {
    open spec fn obeys_try_from_spec() -> bool {
        true
    }

    open spec fn try_from_spec(value: EntryReferenceDto) -> Result<Self, IpcReferenceError> {
        entry_reference_from_dto(value)
    }
}

/// A reference survives its trip through JSON: turning it into its
/// capability and back gives the same reference.
pub proof fn law_reference_round_trip(reference: EntryReference, dto: EntryReferenceDto)
    requires
        reference@.0@ != 0,
        reference@.1@ != 0,
        dto.session_id@ == decimal_chars(reference@.0@ as nat),
        dto.entry_id@ == decimal_chars(reference@.1@ as nat),
    ensures
        entry_reference_from_dto(dto) == Ok::<EntryReference, IpcReferenceError>(reference),
{
    law_decimal_round_trip(reference@.0@);
    law_decimal_round_trip(reference@.1@);
    lemma_entry_reference_from_raw(reference);
}

#[derive(Clone, Copy, Debug, PartialEq, Eq, Structural)]
pub enum EntryKindDto {
    File,
    Directory,
    Symlink,
    Other,
}

pub open spec fn entry_kind_dto(kind: EntryKind) -> EntryKindDto {
    match kind {
        EntryKind::File => EntryKindDto::File,
        EntryKind::Directory => EntryKindDto::Directory,
        EntryKind::Symlink => EntryKindDto::Symlink,
        EntryKind::Other => EntryKindDto::Other,
    }
}

impl From<EntryKind> for EntryKindDto {
    fn from(value: EntryKind) -> (dto: Self) {
        match value {
            EntryKind::File => EntryKindDto::File,
            EntryKind::Directory => EntryKindDto::Directory,
            EntryKind::Symlink => EntryKindDto::Symlink,
            EntryKind::Other => EntryKindDto::Other,
        }
    }
}

impl FromSpecImpl<EntryKind> for EntryKindDto {
    open spec fn obeys_from_spec() -> bool {
        true
    }

    open spec fn from_spec(value: EntryKind) -> Self {
        entry_kind_dto(value)
    }
}

#[derive(Clone, Copy, Debug, PartialEq, Eq, Structural)]
pub enum SymlinkTargetDto {
    File,
    Directory,
    Other,
    Missing,
    Unknown,
}

pub open spec fn symlink_target_dto(target: SymlinkTarget) -> SymlinkTargetDto {
    match target {
        SymlinkTarget::File => SymlinkTargetDto::File,
        SymlinkTarget::Directory => SymlinkTargetDto::Directory,
        SymlinkTarget::Other => SymlinkTargetDto::Other,
        SymlinkTarget::Missing => SymlinkTargetDto::Missing,
        SymlinkTarget::Unknown => SymlinkTargetDto::Unknown,
    }
}

impl From<SymlinkTarget> for SymlinkTargetDto {
    fn from(value: SymlinkTarget) -> (dto: Self) {
        match value {
            SymlinkTarget::File => SymlinkTargetDto::File,
            SymlinkTarget::Directory => SymlinkTargetDto::Directory,
            SymlinkTarget::Other => SymlinkTargetDto::Other,
            SymlinkTarget::Missing => SymlinkTargetDto::Missing,
            SymlinkTarget::Unknown => SymlinkTargetDto::Unknown,
        }
    }
}

impl FromSpecImpl<SymlinkTarget> for SymlinkTargetDto {
    open spec fn obeys_from_spec() -> bool {
        true
    }

    open spec fn from_spec(value: SymlinkTarget) -> Self {
        symlink_target_dto(value)
    }
}

/// Read-only snapshot sent to the interface. Sizes and timestamps are
/// decimal strings so JavaScript cannot lose precision above
/// `Number.MAX_SAFE_INTEGER`.
#[derive(Clone, Debug, PartialEq, Eq)]
pub struct EntrySnapshotDto {
    pub reference: EntryReferenceDto,
    pub display_name: String,
    pub display_name_is_lossy: bool,
    pub kind: EntryKindDto,
    pub byte_len: Option<String>,
    pub modified_at_unix_millis: Option<String>,
    pub is_hidden: bool,
    pub is_read_only: bool,
    pub symlink_target: Option<SymlinkTargetDto>,
}

/// The decimal text of an optional number.
pub open spec fn optional_decimal(text: Option<String>, value: Option<nat>) -> bool {
    match value {
        Some(n) => text matches Some(t) && t@ == decimal_chars(n),
        None => text is None,
    }
}

/// Milliseconds since the Unix epoch for a time in nanoseconds; a time
/// before the epoch has none.
pub open spec fn unix_millis(modified_at: Option<i128>) -> Option<nat> {
    match modified_at {
        Some(nanos) => if nanos >= 0 {
            Some((nanos / 1_000_000) as nat)
        } else {
            None
        },
        None => None,
    }
}

/// The snapshot fields that come from an entry's metadata.
pub open spec fn snapshot_matches_metadata(dto: EntrySnapshotDto, metadata: EntryMetadataModel) -> bool {
    &&& dto.kind == entry_kind_dto(metadata.kind)
    &&& optional_decimal(
        dto.byte_len,
        match metadata.byte_len {
            Some(len) => Some(len as nat),
            None => None,
        },
    )
    &&& optional_decimal(dto.modified_at_unix_millis, unix_millis(metadata.modified_at))
    &&& dto.is_hidden == metadata.is_hidden
    &&& dto.is_read_only == metadata.is_read_only
    &&& dto.symlink_target == match metadata.symlink_target {
        Some(target) => Some(symlink_target_dto(target)),
        None => None,
    }
}

fn optional_text(value: Option<u64>) -> (text: Option<String>)
    ensures
        optional_decimal(
            text,
            match value {
                Some(v) => Some(v as nat),
                None => None,
            },
        ),
{
    match value {
        Some(v) => Some(render_decimal(v as u128)),
        None => None,
    }
}

fn millis_text(modified_at: Option<i128>) -> (text: Option<String>)
    ensures
        optional_decimal(text, unix_millis(modified_at)),
{
    match modified_at {
        Some(nanos) => if nanos >= 0 {
            Some(render_decimal((nanos / 1_000_000) as u128))
        } else {
            None
        },
        None => None,
    }
}

fn snapshot_of(reference: EntryReferenceDto, display_name: String, display_name_is_lossy: bool, metadata: &crate::entry::EntryMetadata) -> (dto: EntrySnapshotDto)
    ensures
        dto.reference == reference,
        dto.display_name == display_name,
        dto.display_name_is_lossy == display_name_is_lossy,
        snapshot_matches_metadata(dto, metadata@),
{
    EntrySnapshotDto {
        reference,
        display_name,
        display_name_is_lossy,
        kind: EntryKindDto::from(metadata.kind()),
        byte_len: optional_text(metadata.byte_len()),
        modified_at_unix_millis: millis_text(metadata.modified_at()),
        is_hidden: metadata.is_hidden(),
        is_read_only: metadata.is_read_only(),
        symlink_target: match metadata.symlink_target() {
            Some(target) => Some(SymlinkTargetDto::from(target)),
            None => None,
        },
    }
}

impl EntrySnapshotDto {
    /// The snapshot of an entry of the session `session`.
    pub fn from_entry(session: DirectoryReference, entry: &FileEntry) -> (dto: Self)
        ensures
            dto.reference.session_id@ == decimal_chars(session@@ as nat),
            dto.reference.entry_id@ == decimal_chars(entry@.id as nat),
            dto.display_name@ == entry@.display_name,
            dto.display_name_is_lossy == entry@.display_name_is_lossy,
            snapshot_matches_metadata(dto, entry@.metadata),
    {
        let reference = EntryReferenceDto::from_reference(EntryReference::new(session.session_id(), entry.id()));
        snapshot_of(
            reference,
            entry.display_name().as_str().to_owned(),
            entry.display_name().is_lossy(),
            entry.metadata(),
        )
    }

    /// The snapshot of a listed entry.
    pub fn from_summary(summary: &DirectoryEntrySummary) -> (dto: Self)
        ensures
            dto.reference.session_id@ == decimal_chars(summary@.session_id@ as nat),
            dto.reference.entry_id@ == decimal_chars(summary@.entry_id as nat),
            dto.display_name@ == summary@.display_name,
            dto.display_name_is_lossy == summary@.display_name_is_lossy,
            snapshot_matches_metadata(dto, summary@.metadata),
    {
        snapshot_of(
            EntryReferenceDto::from_reference(summary.reference),
            summary.display_name.clone(),
            summary.display_name_is_lossy,
            &summary.metadata,
        )
    }
}

} // verus!
