//! The two validation phases run on each newly appended element: structural
//! system checks, and the dispatch to an application callback.
use crate::hash::{AnyDhtHash, EntryHash, HeaderHash};
use crate::header::{
    encode_header, entry_hash, hash_entry, hash_header, header_encoding, header_entry_hash,
    header_hash, Element, Header, HeaderContent,
};
use crate::keystore::Keystore;
use vstd::prelude::*;

verus! {

/// What an application validation callback decides.
#[derive(Clone, Debug, PartialEq, Eq)]
pub enum Outcome {
    Accepted,
    Rejected(String),
    AwaitingDeps(Vec<AnyDhtHash>),
}

/// Which application callback, if any, an element goes to.
#[derive(Clone, Copy, Debug, PartialEq, Eq, Structural)]
pub enum AppValidation {
    /// Chain-structure headers are not validated by the application.
    Exempt,
    /// The link callback, with the base and target entries to fetch first.
    CreateLink { base_address: EntryHash, target_address: EntryHash },
    /// The delete-link callback.
    DeleteLink { link_add_address: HeaderHash },
    /// The general entry callback, on the element at this address.
    Entry { header_address: HeaderHash },
}

/// Why an element failed the system checks.
#[derive(Clone, Copy, Debug, PartialEq, Eq, Structural)]
pub enum SysValidationError {
    /// The address is not the hash of the header.
    WrongHeaderAddress,
    /// The header is not at its own sequence number.
    WrongSequence,
    /// The header does not link to the element before it.
    WrongPrevHeader,
    /// The header is older than the one before it.
    TimestampDecreased,
    /// The entry is missing, unexpected, or not the one the header names.
    EntryMismatch,
    /// The signature is not the author's over this header.
    BadSignature,
}

pub open spec fn app_validation_of(h: Header, address: HeaderHash) -> AppValidation {
    match h.content {
        HeaderContent::CreateLink { base_address, target_address, .. } => AppValidation::CreateLink {
            base_address,
            target_address,
        },
        HeaderContent::DeleteLink { link_add_address, .. } => AppValidation::DeleteLink { link_add_address },
        HeaderContent::Create { .. } => AppValidation::Entry { header_address: address },
        HeaderContent::Update { .. } => AppValidation::Entry { header_address: address },
        HeaderContent::Delete { .. } => AppValidation::Entry { header_address: address },
        _ => AppValidation::Exempt,
    }
}

/// Dispatches an element to the callback its header kind calls for.
pub fn app_validation_for(e: &Element) -> (r: AppValidation)
    ensures
        r == app_validation_of(e.spec_header(), e.address()),
{
    let address = *e.header_address();
    match &e.header().content {
        HeaderContent::CreateLink { base_address, target_address, .. } => AppValidation::CreateLink {
            base_address: *base_address,
            target_address: *target_address,
        },
        HeaderContent::DeleteLink { link_add_address, .. } => AppValidation::DeleteLink {
            link_add_address: *link_add_address,
        },
        HeaderContent::Create { .. } => AppValidation::Entry { header_address: address },
        HeaderContent::Update { .. } => AppValidation::Entry { header_address: address },
        HeaderContent::Delete { .. } => AppValidation::Entry { header_address: address },
        _ => AppValidation::Exempt,
    }
}

/// The entry is present exactly when the header names one, and is it.
pub open spec fn entry_matches(e: Element) -> bool {
    match header_entry_hash(e.spec_header()) {
        Some(h) => match e.entry {
            Some(x) => x.entry_hash == h && entry_hash(x.entry) == h,
            None => false,
        },
        None => e.entry is None,
    }
}

/// The first system check that the element at sequence number `i` fails,
/// given the element before it.
pub open spec fn sys_check(ks: Keystore, e: Element, i: int, prev: Option<Element>) -> Option<SysValidationError> {
    let h = e.spec_header();
    if e.address() != header_hash(h) {
        Some(SysValidationError::WrongHeaderAddress)
    } else if h.header_seq != i {
        Some(SysValidationError::WrongSequence)
    } else if h.prev_header != (match prev {
        Some(p) => Some(p.address()),
        None => None::<HeaderHash>,
    }) {
        Some(SysValidationError::WrongPrevHeader)
    } else if prev is Some && h.timestamp < prev->Some_0.spec_header().timestamp {
        Some(SysValidationError::TimestampDecreased)
    } else if !entry_matches(e) {
        Some(SysValidationError::EntryMismatch)
    } else if !ks.holds(h.author) || e.signed_header.signature != ks.signature_of(h.author, header_encoding(h)) {
        Some(SysValidationError::BadSignature)
    } else {
        None
    }
}

/// Runs the system checks on the element at sequence number `i`.
pub fn sys_validate_element(ks: &Keystore, e: &Element, i: u32, prev: Option<&Element>) -> (r: Result<(), SysValidationError>)
    requires
        ks.wf(),
    ensures
        r == (match sys_check(*ks, *e, i as int, match prev {
            Some(p) => Some(*p),
            None => None::<Element>,
        }) {
            Some(err) => Err(err),
            None => Ok::<(), SysValidationError>(()),
        }),
{
    let h = e.header();
    if *e.header_address() != hash_header(h) {
        return Err(SysValidationError::WrongHeaderAddress);
    }
    if h.header_seq != i {
        return Err(SysValidationError::WrongSequence);
    }
    let expected_prev = match prev {
        Some(p) => Some(*p.header_address()),
        None => None,
    };
    if h.prev_header != expected_prev {
        return Err(SysValidationError::WrongPrevHeader);
    }
    match prev {
        Some(p) => {
            if h.timestamp < p.header().timestamp {
                return Err(SysValidationError::TimestampDecreased);
            }
        },
        None => {},
    }
    let matches = match h.entry_hash() {
        Some(eh) => match &e.entry {
            Some(x) => x.entry_hash == eh && hash_entry(&x.entry) == eh,
            None => false,
        },
        None => e.entry.is_none(),
    };
    if !matches {
        return Err(SysValidationError::EntryMismatch);
    }
    let bytes = encode_header(h);
    match ks.sign(&h.author, &bytes) {
        Ok(sig) => {
            if sig != e.signed_header.signature {
                return Err(SysValidationError::BadSignature);
            }
        },
        Err(_) => {
            return Err(SysValidationError::BadSignature);
        },
    }
    Ok(())
}

} // verus!
