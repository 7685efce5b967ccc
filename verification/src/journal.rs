//! Durable request journals. A request is written down before it is sent to
//! the database and removed once its outcome is known, so an interrupted
//! request is retried as the same request and never replaced by another.
use vstd::prelude::*;
use crate::db_form::DbForm;
use crate::text::{chars_of, lowercase, push_all, push_str, same_text, string_of, to_lowercase, trim, trimmed};

verus! {

/// A pending request as a journal file holds it: who made it, its request
/// id, and the request itself as serialized bytes.
#[derive(Clone, Debug, PartialEq, Eq)]
pub struct JournalEntry {
    pub username: String,
    pub request_id: String,
    pub command: Vec<u8>,
}

pub type EntryView = (Seq<char>, Seq<char>, Seq<u8>);

impl JournalEntry {
    pub open spec fn view(self) -> EntryView {
        (self.username@, self.request_id@, self.command@)
    }
}

/// Why a journal refuses a step.
#[derive(Debug, PartialEq, Eq)]
pub enum JournalError {
    /// Another request is pending and must be resolved first.
    Unresolved,
    /// The pending request is not the one being resolved.
    Changed,
    /// No request is pending.
    Missing,
}

pub(crate) fn same_bytes(a: &[u8], b: &[u8]) -> (r: bool)
    ensures
        r == (a@ == b@),
{
    if a.len() != b.len() {
        return false;
    }
    let mut i: usize = 0;
    while i < a.len()
        invariant
            i <= a@.len(),
            a@.len() == b@.len(),
            forall|j: int| 0 <= j < i ==> a@[j] == b@[j],
        decreases a@.len() - i,
    {
        if a[i] != b[i] {
            return false;
        }
        i = i + 1;
    }
    proof {
        assert(a@ =~= b@);
    }
    true
}

/// Whether two entries are the same request by the same user.
pub fn same_entry(a: &JournalEntry, b: &JournalEntry) -> (r: bool)
    ensures
        r == (a.view() == b.view()),
{
    same_text(a.username.as_str(), b.username.as_str()) && same_text(
        a.request_id.as_str(),
        b.request_id.as_str(),
    ) && same_bytes(a.command.as_slice(), b.command.as_slice())
}

/// The journal after recording `request`: unchanged when that same request
/// is pending, refused when another one is.
pub open spec fn after_save(pending: Option<EntryView>, request: EntryView) -> Result<
    Option<EntryView>,
    JournalError,
> {
    match pending {
        None => Ok(Some(request)),
        Some(p) => if p == request {
            Ok(Some(p))
        } else {
            Err(JournalError::Unresolved)
        },
    }
}

/// The view of a journal's content.
pub open spec fn opt_view(e: Option<JournalEntry>) -> Option<EntryView> {
    match e {
        Some(x) => Some(x.view()),
        None => None,
    }
}

/// What a save must write: the request when none is pending, nothing when
/// that same request is already pending; refused when another request is
/// pending.
pub fn save_step(pending: &Option<JournalEntry>, request: &JournalEntry) -> (r: Result<
    Option<JournalEntry>,
    JournalError,
>)
    ensures
        after_save(opt_view(*pending), request.view()) == match r {
            Ok(Some(w)) => Ok(Some(w.view())),
            Ok(None) => Ok(opt_view(*pending)),
            Err(e) => Err::<Option<EntryView>, JournalError>(e),
        },
        match pending {
            None => r matches Ok(Some(w)) && w.view() == request.view(),
            Some(p) => if p.view() == request.view() {
                r matches Ok(None)
            } else {
                r == Err::<Option<JournalEntry>, JournalError>(JournalError::Unresolved)
            },
        },
{
    match pending {
        None => Ok(Some(request.clone_entry())),
        Some(p) => if same_entry(p, request) {
            Ok(None)
        } else {
            Err(JournalError::Unresolved)
        },
    }
}

impl JournalEntry {
    /// A copy of the entry.
    pub fn clone_entry(&self) -> (r: JournalEntry)
        ensures
            r.view() == self.view(),
    {
        JournalEntry {
            username: self.username.clone(),
            request_id: self.request_id.clone(),
            command: self.command.clone(),
        }
    }
}

/// The journal after resolving `request`: emptied when it is the pending
/// one; refused when another is pending, and when none is and
/// `missing_is_error`.
pub open spec fn after_clear(pending: Option<EntryView>, request: EntryView, missing_is_error: bool) -> Result<
    Option<EntryView>,
    JournalError,
> {
    match pending {
        None => if missing_is_error {
            Err(JournalError::Missing)
        } else {
            Ok(None)
        },
        Some(p) => if p == request {
            Ok(None)
        } else {
            Err(JournalError::Changed)
        },
    }
}

/// Whether a journal may be removed to resolve `request`, matching the whole
/// entry: a missing entry is refused when `missing_is_error`, else nothing
/// is removed.
pub fn clear_step(pending: &Option<JournalEntry>, request: &JournalEntry, missing_is_error: bool) -> (r: Result<
    bool,
    JournalError,
>)
    ensures
        after_clear(opt_view(*pending), request.view(), missing_is_error) == match r {
            Ok(_) => Ok(None),
            Err(e) => Err::<Option<EntryView>, JournalError>(e),
        },
        match pending {
            None => if missing_is_error {
                r == Err::<bool, JournalError>(JournalError::Missing)
            } else {
                r == Ok::<bool, JournalError>(false)
            },
            Some(p) => if p.view() == request.view() {
                r == Ok::<bool, JournalError>(true)
            } else {
                r == Err::<bool, JournalError>(JournalError::Changed)
            },
        },
{
    match pending {
        None => if missing_is_error {
            Err(JournalError::Missing)
        } else {
            Ok(false)
        },
        Some(p) => if same_entry(p, request) {
            Ok(true)
        } else {
            Err(JournalError::Changed)
        },
    }
}

/// Whether a journal may be removed to resolve the request with this id: only
/// when the pending request has that id.
pub fn clear_by_id(pending: &Option<JournalEntry>, request_id: &str) -> (r: Result<(), JournalError>)
    ensures
        r is Ok <==> (pending matches Some(p) && p.request_id@ == request_id@),
        r is Err ==> r == Err::<(), JournalError>(JournalError::Changed),
{
    match pending {
        Some(p) => if same_text(p.request_id.as_str(), request_id) {
            Ok(())
        } else {
            Err(JournalError::Changed)
        },
        None => Err(JournalError::Changed),
    }
}

/// Whether a new checkout may be recorded: never over an unresolved one.
pub fn create_step(pending_exists: bool) -> (r: Result<(), JournalError>)
    ensures
        r is Ok <==> !pending_exists,
        r is Err ==> r == Err::<(), JournalError>(JournalError::Unresolved),
{
    if pending_exists {
        Err(JournalError::Unresolved)
    } else {
        Ok(())
    }
}

/// The identity a journal file is named after: the lower-cased trimmed host,
/// the trimmed port and the trimmed database, joined by `:`.
pub open spec fn identity_text(f: DbForm) -> Seq<char> {
    lowercase(trimmed(f.host@)) + ":"@ + trimmed(f.port@) + ":"@ + trimmed(f.database@)
}

/// The identity of the database a journal belongs to.
pub fn journal_identity(form: &DbForm) -> (r: String)
    ensures
        r@ == identity_text(*form),
{
    let host = string_of(trim(chars_of(form.host.as_str()).as_slice()).as_slice());
    let lower = to_lowercase(host.as_str());
    let mut v = chars_of(lower.as_str());
    push_str(&mut v, ":");
    let port = trim(chars_of(form.port.as_str()).as_slice());
    push_all(&mut v, port.as_slice());
    push_str(&mut v, ":");
    let database = trim(chars_of(form.database.as_str()).as_slice());
    push_all(&mut v, database.as_slice());
    string_of(v.as_slice())
}

/// A pending request survives and cannot be replaced: once `a` is recorded,
/// recording it again changes nothing, recording another request is refused
/// and leaves `a` pending, resolving another request is refused, and only
/// resolving `a` empties the journal.
pub proof fn law_pending_request_not_replaced(a: EntryView, b: EntryView, missing_is_error: bool)
    requires
        a != b,
    ensures
        after_save(None, a) == Ok::<Option<EntryView>, JournalError>(Some(a)),
        after_save(Some(a), a) == Ok::<Option<EntryView>, JournalError>(Some(a)),
        after_save(Some(a), b) is Err,
        after_clear(Some(a), b, missing_is_error) is Err,
        after_clear(Some(a), a, missing_is_error) == Ok::<Option<EntryView>, JournalError>(None),
        after_clear(None, a, true) is Err,
{
}

/// Recording a request and resolving it returns the journal to empty, and
/// the request recorded is the one that a reload finds.
pub proof fn law_save_then_clear(a: EntryView)
    ensures
        after_save(None, a) matches Ok(Some(p)) && p == a && after_clear(Some(p), a, true)
            == Ok::<Option<EntryView>, JournalError>(None),
{
}

} // verus!
