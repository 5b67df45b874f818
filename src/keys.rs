//! Storage keys: a collection id and a document id joined by a zero byte.
use vstd::prelude::*;
use vstd::string::StringSliceAdditionalSpecFns;

verus! {

/// Maximum length, in bytes, of a collection id or a document id.
pub const MAX_ID_LENGTH: usize = 1500;

/// Byte that separates the collection id from the document id in a key.
pub const SEPARATOR: u8 = 0u8;

/// Why an id cannot be encoded into a key.
#[derive(Debug, PartialEq, Eq, Structural, Clone, Copy)]
pub enum KeyError {
    EmptyId,
    ContainsNullByte,
    ContainsSlash,
    TooLong { len: usize, max: usize },
}

/// Relies on `format!`: the length and the bound in the message.
#[verifier::external_body]
fn too_long_message(len: usize, max: usize) -> String {
    format!("id too long: {len} bytes, max {max}")
}

impl KeyError {
    /// A human-readable description of the error.
    pub fn to_string(&self) -> String {
        match self {
            KeyError::EmptyId => "id must not be empty".to_string(),
            KeyError::ContainsNullByte => "id must not contain null bytes".to_string(),
            KeyError::ContainsSlash => "id must not contain forward slashes".to_string(),
            KeyError::TooLong { len, max } => too_long_message(*len, *max),
        }
    }
}

/// The check that `validate` makes, as a function of the id's bytes.
pub open spec fn id_check(b: Seq<u8>) -> Result<(), KeyError> {
    if b.len() == 0 {
        Err(KeyError::EmptyId)
    } else if b.contains(SEPARATOR) {
        Err(KeyError::ContainsNullByte)
    } else if b.contains(0x2Fu8) {
        Err(KeyError::ContainsSlash)
    } else if b.len() > MAX_ID_LENGTH {
        Err(KeyError::TooLong { len: b.len() as usize, max: MAX_ID_LENGTH })
    } else {
        Ok(())
    }
}

fn contains_byte(b: &[u8], x: u8) -> (r: bool)
    ensures
        r == b@.contains(x),
{
    let mut i: usize = 0;
    while i < b.len()
        invariant
            i <= b@.len(),
            forall|j: int| 0 <= j < i ==> b@[j] != x,
        decreases b@.len() - i,
    {
        if b[i] == x {
            return true;
        }
        i = i + 1;
    }
    false
}

/// Validates a collection id or a document id.
pub fn validate(id: &str) -> (r: Result<(), KeyError>)
    ensures
        r == id_check(id.spec_bytes()),
{
    let b = id.as_bytes();
    if b.len() == 0 {
        return Err(KeyError::EmptyId);
    }
    if contains_byte(b, SEPARATOR) {
        return Err(KeyError::ContainsNullByte);
    }
    if contains_byte(b, 0x2Fu8) {
        return Err(KeyError::ContainsSlash);
    }
    if b.len() > MAX_ID_LENGTH {
        return Err(KeyError::TooLong { len: b.len(), max: MAX_ID_LENGTH });
    }
    Ok(())
}


/// The key of a document: the collection id's bytes, the separator, the
/// document id's bytes.
pub open spec fn key_bytes(collection: Seq<u8>, doc: Seq<u8>) -> Seq<u8> {
    collection + seq![SEPARATOR] + doc
}

/// What `encode` returns for two ids, given as bytes.
pub open spec fn encode_result(collection: Seq<u8>, doc: Seq<u8>) -> Result<Seq<u8>, KeyError> {
    match id_check(collection) {
        Err(e) => Err(e),
        Ok(_) => match id_check(doc) {
            Err(e) => Err(e),
            Ok(_) => Ok(key_bytes(collection, doc)),
        },
    }
}

/// `pos` is the first place in `b` that holds the separator.
pub open spec fn is_first_separator(b: Seq<u8>, pos: int) -> bool {
    &&& 0 <= pos < b.len()
    &&& b[pos] == SEPARATOR
    &&& forall|j: int| 0 <= j < pos ==> b[j] != SEPARATOR
}

fn append_bytes(v: &mut Vec<u8>, b: &[u8])
    ensures
        final(v)@ == old(v)@ + b@,
{
    let mut i: usize = 0;
    while i < b.len()
        invariant
            i <= b@.len(),
            v@ == old(v)@ + b@.subrange(0, i as int),
        decreases b@.len() - i,
    {
        v.push(b[i]);
        i = i + 1;
        assert(b@.subrange(0, i as int) == b@.subrange(0, i - 1) + seq![b@[i - 1]]);
    }
    assert(b@.subrange(0, b@.len() as int) == b@);
}

/// Encodes a collection id and a document id into a storage key:
/// the collection id, a zero byte, the document id.
///
/// Either id is refused as `validate` refuses it, the collection id first.
pub fn encode(collection_id: &str, doc_id: &str) -> (r: Result<Vec<u8>, KeyError>)
    ensures
        match r {
            Ok(key) => encode_result(collection_id.spec_bytes(), doc_id.spec_bytes()) == Ok::<
                Seq<u8>,
                KeyError,
            >(key@),
            Err(e) => encode_result(collection_id.spec_bytes(), doc_id.spec_bytes()) == Err::<
                Seq<u8>,
                KeyError,
            >(e),
        },
{
    match validate(collection_id) {
        Err(e) => return Err(e),
        Ok(_) => {},
    }
    match validate(doc_id) {
        Err(e) => return Err(e),
        Ok(_) => {},
    }
    let c = collection_id.as_bytes();
    let d = doc_id.as_bytes();
    let mut key: Vec<u8> = Vec::new();
    append_bytes(&mut key, c);
    key.push(SEPARATOR);
    append_bytes(&mut key, d);
    assert(key@ =~= key_bytes(c@, d@));
    Ok(key)
}

/// Relies on `std::str::from_utf8`: it accepts exactly the byte strings that
/// are valid UTF-8, and the text it returns is made of the same bytes.
#[verifier::external_body]
fn utf8_text<'a>(b: &'a [u8]) -> (r: Option<&'a str>)
    ensures
        r is Some <==> valid_utf8(b@),
        r matches Some(s) ==> s.spec_bytes() == b@,
{
    std::str::from_utf8(b).ok()
}

/// Whether a byte string is valid UTF-8.
pub uninterp spec fn valid_utf8(b: Seq<u8>) -> bool;

/// Decodes a storage key back into its collection id and document id, split
/// at the first separator.
///
/// Returns `None` when the key holds no separator, or when either part is not
/// valid UTF-8.
pub fn decode(key: &[u8]) -> (r: Option<(&str, &str)>)
    ensures
        r is Some <==> exists|pos: int|
            is_first_separator(key@, pos) && valid_utf8(key@.subrange(0, pos)) && valid_utf8(
                key@.subrange(pos + 1, key@.len() as int),
            ),
        r matches Some((c, d)) ==> exists|pos: int|
            is_first_separator(key@, pos) && c.spec_bytes() == key@.subrange(0, pos)
                && d.spec_bytes() == key@.subrange(pos + 1, key@.len() as int),
{
    let mut pos: usize = 0;
    while pos < key.len() && key[pos] != SEPARATOR
        invariant
            pos <= key@.len(),
            forall|j: int| 0 <= j < pos ==> key@[j] != SEPARATOR,
        decreases key@.len() - pos,
    {
        pos = pos + 1;
    }
    if pos == key.len() {
        assert forall|p: int| !is_first_separator(key@, p) by {
            if is_first_separator(key@, p) {
                assert(key@[p] != SEPARATOR);
            }
        }
        return None;
    }
    assert(is_first_separator(key@, pos as int));
    assert forall|p: int| is_first_separator(key@, p) implies p == pos by {
        if p < pos {
            assert(key@[p] != SEPARATOR);
        } else if p > pos {
            assert(key@[pos as int] != SEPARATOR);
        }
    }
    let collection = utf8_text(vstd::slice::slice_subrange(key, 0, pos));
    let doc = utf8_text(vstd::slice::slice_subrange(key, pos + 1, key.len()));
    match (collection, doc) {
        (Some(c), Some(d)) => Some((c, d)),
        _ => None,
    }
}

/// Builds the prefix that every key of a collection starts with: the
/// collection id and the separator.
pub fn collection_prefix(collection_id: &str) -> (r: Result<Vec<u8>, KeyError>)
    ensures
        match r {
            Ok(prefix) => id_check(collection_id.spec_bytes()) is Ok && prefix@
                == collection_id.spec_bytes() + seq![SEPARATOR],
            Err(e) => id_check(collection_id.spec_bytes()) == Err::<(), KeyError>(e),
        },
{
    match validate(collection_id) {
        Err(e) => return Err(e),
        Ok(_) => {},
    }
    let mut prefix: Vec<u8> = Vec::new();
    append_bytes(&mut prefix, collection_id.as_bytes());
    prefix.push(SEPARATOR);
    Ok(prefix)
}

} // verus!
