//! Persisting the store: what a read of the persisted document yields,
//! the text that a store is written as, and what it means that a change
//! was handed over to be written.

use vstd::prelude::*;
use vstd::string::StringExecFns;
use crate::codec::{
    decode_document, document_of, encode_document, lemma_document_round_trip, store_of,
};
use crate::error::AccountError;
use crate::json::{json_model, parse_json, parsed_json, render_json, rendered_json};
use crate::manager::AccountManager;
use crate::store::{AccountStore, StoreView};

verus! {

/// What reading the persisted document gave.
#[derive(Debug, PartialEq, Eq)]
pub enum StoredFile {
    /// There is no document yet.
    Missing,
    /// There is a document, but it could not be read.
    Unreadable,
    /// The text of the document.
    Content(String),
}

/// The store that a read of the persisted document yields: the empty store
/// if there is no document, and the store that the document denotes if its
/// text is JSON and well formed.
pub open spec fn loaded(file: StoredFile) -> Result<StoreView, AccountError> {
    match file {
        StoredFile::Missing => Ok(StoreView::empty()),
        StoredFile::Unreadable => Err(AccountError::IoFailure),
        StoredFile::Content(text) => loaded_text(text@),
    }
}

/// The store that the text of a persisted document yields, if the text is
/// JSON and the document is well formed.
pub open spec fn loaded_text(text: Seq<char>) -> Result<StoreView, AccountError> {
    match parsed_json(text) {
        Some(document) => match store_of(document) {
            Some(store) => Ok(store),
            None => Err(AccountError::StoreCorrupt),
        },
        None => Err(AccountError::StoreCorrupt),
    }
}

/// Loading gives a valid store back from every text that parses to the
/// document that stands for the store.
pub proof fn lemma_load_reads_back(store: StoreView, text: Seq<char>)
    requires
        store.valid(),
        parsed_json(text) == Some(document_of(store)),
    ensures
        loaded_text(text) == Ok::<StoreView, AccountError>(store),
{
    lemma_document_round_trip(store);
}

/// The value of a store, or the error in its place.
pub open spec fn store_view(store: Result<AccountStore, AccountError>) -> Result<
    StoreView,
    AccountError,
> {
    match store {
        Ok(s) => Ok(s@),
        Err(e) => Err(e),
    }
}

/// Whether rendering the document that stands for `store` gives `text`,
/// or fails if `text` is nothing.
pub open spec fn rendering_of(store: StoreView, text: Option<Seq<char>>) -> bool {
    exists|document: serde_json::Value| #[trigger]
        json_model(document) == document_of(store) && rendered_json(document) == text
}

/// Whether `persist`, handed `text`, reported `written`.
pub open spec fn reported<P: FnOnce(&str) -> bool>(
    persist: P,
    text: Seq<char>,
    written: bool,
) -> bool {
    exists|handed: &str| handed@ == text && #[trigger] persist.ensures((handed,), written)
}

/// Whether handing `store` over to be persisted ended as `committed` says:
/// the store is committed if its document was rendered and `persist`
/// reported the text written, and not committed if rendering failed or
/// `persist` reported failure.
pub open spec fn handed_over<P: FnOnce(&str) -> bool>(
    persist: P,
    store: StoreView,
    committed: bool,
) -> bool {
    exists|text: Option<Seq<char>>| #[trigger]
        rendering_of(store, text) && match text {
            Some(text) => reported(persist, text, committed),
            None => !committed,
        }
}

/// Whether a change that leads from the store `before` to `next` ended as
/// `result` says, the store left as `after`: the change is committed, or
/// it is given up with `IoFailure` and the store left as it was.
pub open spec fn change_ended<P: FnOnce(&str) -> bool, R>(
    persist: P,
    before: StoreView,
    next: StoreView,
    after: StoreView,
    result: Result<R, AccountError>,
) -> bool {
    match result {
        Ok(_) => after == next && handed_over(persist, next, true),
        Err(e) => e == AccountError::IoFailure && after == before && handed_over(
            persist,
            next,
            false,
        ),
    }
}

/// The name of the temporary file that a document is written to before
/// it takes the place of the file `name`: the name with `.tmp` behind it,
/// so that the two stand in one directory.
pub open spec fn temporary_of(name: Seq<char>) -> Seq<char> {
    name + ".tmp"@
}

/// The name of the temporary file for the file `name`.
pub fn temporary_name(name: &str) -> (temporary: String)
    ensures
        temporary@ == temporary_of(name@),
        temporary@ != name@,
{
    let mut temporary = name.to_owned();
    temporary.append(".tmp");
    proof {
        reveal_strlit(".tmp");
        assert(temporary@.len() == name@.len() + 4);
    }
    temporary
}

/// Whether writing a document in two steps ended as `written` says.
///
/// The first step took the text and either failed, and then nothing was
/// written, or handed out what stands for the temporary file that it
/// wrote; the second step took that and reported `written`.
pub open spec fn written_in_steps<T, W: FnOnce(&str) -> Option<T>, N: FnOnce(T) -> bool>(
    write_temporary: W,
    replace: N,
    text: Seq<char>,
    written: bool,
) -> bool {
    exists|handed: &str, first: Option<T>| #[trigger]
        write_temporary.ensures((handed,), first) && handed@ == text && match first {
            Some(temporary) => replace.ensures((temporary,), written),
            None => !written,
        }
}

/// Writes a document so that a reader, or a process that starts after
/// this one was cut short, finds the old document or the new one whole.
///
/// The text goes to a temporary file first: `write_temporary` writes it
/// and hands out what stands for the file that it wrote, or nothing if it
/// failed. Only then does `replace` put that file in the place of the
/// document. `replace` is given what `write_temporary` handed out and has
/// nothing else to go by, so it cannot run before the temporary file is
/// written, nor after a write that failed.
pub fn write_atomically<T, W, N>(text: &str, write_temporary: W, replace: N) -> (written:
    bool) where W: FnOnce(&str) -> Option<T>, N: FnOnce(T) -> bool
    requires
        write_temporary.requires((text,)),
        forall|temporary: T| replace.requires((temporary,)),
    ensures
        written_in_steps(write_temporary, replace, text@, written),
{
    match write_temporary(text) {
        Some(temporary) => replace(temporary),
        None => false,
    }
}

impl AccountManager {
    /// The store that a read of the persisted document yields.
    ///
    /// A missing document is the empty store. A document that is not JSON,
    /// or not a well-formed store, is `StoreCorrupt`; one that could not
    /// be read is `IoFailure`.
    pub fn load(file: StoredFile) -> (result: Result<AccountStore, AccountError>)
        ensures
            store_view(result) == loaded(file),
            result matches Ok(store) ==> store@.valid(),
    {
        match file {
            StoredFile::Missing => Ok(AccountStore::new()),
            StoredFile::Unreadable => Err(AccountError::IoFailure),
            StoredFile::Content(text) => match parse_json(text.as_str()) {
                Ok(document) => decode_document(&document),
                Err(_) => Err(AccountError::StoreCorrupt),
            },
        }
    }

    /// The text to persist `store` as: the document that stands for it,
    /// rendered as indented JSON.
    ///
    /// Fails with `IoFailure` if the document cannot be rendered.
    pub fn save(store: &AccountStore) -> (result: Result<String, AccountError>)
        ensures
            match result {
                Ok(text) => rendering_of(store@, Some(text@)),
                Err(e) => e == AccountError::IoFailure && rendering_of(store@, None),
            },
    {
        let document = encode_document(store);
        match render_json(&document) {
            Ok(text) => Ok(text),
            Err(_) => Err(AccountError::IoFailure),
        }
    }
}

} // verus!
