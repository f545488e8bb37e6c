//! Edits of several files: the two encodings brought to one list of edits
//! by file, and the match of a file's URI with a path.

use vstd::prelude::*;
use crate::lsp::{
    DocumentChangeOperation, DocumentChanges, DocumentEdit, TextDocumentEdit, TextEdit,
    WorkspaceEdit, duplicate_edits,
};
use crate::text::str_eq;

verus! {

/// The edits of files by URI, as a value of specifications.
pub type FileEdits = Seq<(Seq<char>, Seq<TextEdit>)>;

pub open spec fn file_edits_view(entries: Seq<(String, Vec<TextEdit>)>) -> FileEdits {
    Seq::new(entries.len(), |i: int| (entries[i].0@, entries[i].1@))
}

/// The index of the entry of `entries` for `uri` at or behind `from`.
pub open spec fn entry_index(entries: FileEdits, uri: Seq<char>, from: int) -> Option<int>
    decreases entries.len() - from,
{
    if from < 0 || from >= entries.len() {
        None
    } else if entries[from].0 == uri {
        Some(from)
    } else {
        entry_index(entries, uri, from + 1)
    }
}

/// `entries` with `edits` added for `uri`: they go behind the edits that
/// are listed for the URI, where it has an entry; else a new entry goes to
/// the end. No edit is lost, and the edits of a file keep their order.
pub open spec fn add_edits(entries: FileEdits, uri: Seq<char>, edits: Seq<TextEdit>) -> FileEdits {
    match entry_index(entries, uri, 0) {
        Some(i) => entries.update(i, (uri, entries[i].1 + edits)),
        None => entries.push((uri, edits)),
    }
}

/// The edits that are listed for `uri`, or none.
pub open spec fn edits_for(entries: FileEdits, uri: Seq<char>) -> Seq<TextEdit> {
    match entry_index(entries, uri, 0) {
        Some(i) => entries[i].1,
        None => Seq::empty(),
    }
}

/// No URI has two entries.
pub open spec fn distinct_uris(entries: FileEdits) -> bool {
    forall|i: int, j: int|
        0 <= i < j < entries.len() ==> (#[trigger] entries[i]).0 != (#[trigger] entries[j]).0
}

/// The text edits of the edits of a document, notes dropped.
pub open spec fn plain_edits(edits: Seq<DocumentEdit>) -> Seq<TextEdit> {
    Seq::new(edits.len(), |i: int| edits[i].text_edit())
}

/// The edits by file of the first `n` entries of a list by URI.
pub open spec fn collect_changes(changes: Seq<(String, Vec<TextEdit>)>, n: int) -> FileEdits
    decreases n,
{
    if n <= 0 || n > changes.len() {
        Seq::empty()
    } else {
        add_edits(collect_changes(changes, n - 1), changes[n - 1].0@, changes[n - 1].1@)
    }
}

/// The edits by file of the first `n` document edits.
pub open spec fn collect_doc_edits(docs: Seq<TextDocumentEdit>, n: int) -> FileEdits
    decreases n,
{
    if n <= 0 || n > docs.len() {
        Seq::empty()
    } else {
        add_edits(collect_doc_edits(docs, n - 1), docs[n - 1].uri@, plain_edits(docs[n - 1].edits@))
    }
}

/// The edits by file of the first `n` changes; operations on files as a
/// whole are passed over.
pub open spec fn collect_operations(ops: Seq<DocumentChangeOperation>, n: int) -> FileEdits
    decreases n,
{
    if n <= 0 || n > ops.len() {
        Seq::empty()
    } else {
        match ops[n - 1] {
            DocumentChangeOperation::Op(_) => collect_operations(ops, n - 1),
            DocumentChangeOperation::Edit(e) => add_edits(
                collect_operations(ops, n - 1),
                e.uri@,
                plain_edits(e.edits@),
            ),
        }
    }
}

/// The number of operations on files as a whole among `ops`.
pub open spec fn skipped_operations(ops: Seq<DocumentChangeOperation>, n: int) -> nat
    decreases n,
{
    if n <= 0 || n > ops.len() {
        0
    } else {
        skipped_operations(ops, n - 1) + if ops[n - 1] is Op {
            1nat
        } else {
            0nat
        }
    }
}

/// The edits by file that a workspace edit asks for: those of its list by
/// URI where it has one, else those of its list of changes; none where it
/// has neither.
pub open spec fn workspace_file_edits(edit: WorkspaceEdit) -> Option<FileEdits> {
    match edit.changes {
        Some(changes) => Some(collect_changes(changes@, changes@.len() as int)),
        None => match edit.document_changes {
            None => None,
            Some(DocumentChanges::Edits(docs)) => Some(collect_doc_edits(docs@, docs@.len() as int)),
            Some(DocumentChanges::Operations(ops)) => Some(
                collect_operations(ops@, ops@.len() as int),
            ),
        },
    }
}

/// Adding edits for a URI keeps the entries apart, puts the edits behind
/// those that were listed for the URI, and leaves the edits of every
/// other URI as they were.
pub proof fn lemma_add_edits(entries: FileEdits, uri: Seq<char>, edits: Seq<TextEdit>)
    requires
        distinct_uris(entries),
    ensures
        distinct_uris(add_edits(entries, uri, edits)),
        edits_for(add_edits(entries, uri, edits), uri) == edits_for(entries, uri) + edits,
        forall|other: Seq<char>|
            other != uri ==> #[trigger] edits_for(add_edits(entries, uri, edits), other)
                == edits_for(entries, other),
{
    lemma_entry_index(entries, uri, 0);
    let r = add_edits(entries, uri, edits);
    lemma_entry_index(r, uri, 0);
    match entry_index(entries, uri, 0) {
        Some(i) => {
            assert forall|a: int, b: int| 0 <= a < b < r.len() implies (#[trigger] r[a]).0 != (
            #[trigger] r[b]).0 by {
                assert(r[a].0 == entries[a].0);
                assert(r[b].0 == entries[b].0);
            }
            assert(r[i].0 == uri);
            assert(entry_index(r, uri, 0) is Some);
            let k = entry_index(r, uri, 0)->0;
            if k != i {
                if k < i {
                    assert(r[k].0 != r[i].0);
                } else {
                    assert(r[i].0 != r[k].0);
                }
            }
            assert forall|other: Seq<char>| other != uri implies #[trigger] edits_for(r, other)
                == edits_for(entries, other) by {
                lemma_entry_index(entries, other, 0);
                lemma_entry_index(r, other, 0);
                lemma_same_names_same_index(entries, r, other, 0);
            }
        },
        None => {
            let n = entries.len() as int;
            assert(r[n].0 == uri);
            assert forall|a: int, b: int| 0 <= a < b < r.len() implies (#[trigger] r[a]).0 != (
            #[trigger] r[b]).0 by {
                assert(r[a] == entries[a]);
                if b < n {
                    assert(r[b] == entries[b]);
                }
            }
            assert(entry_index(r, uri, 0) is Some);
            let k = entry_index(r, uri, 0)->0;
            if k < n {
                assert(r[k] == entries[k]);
            }
            assert(edits_for(r, uri) =~= edits_for(entries, uri) + edits);
            assert forall|other: Seq<char>| other != uri implies #[trigger] edits_for(r, other)
                == edits_for(entries, other) by {
                lemma_entry_index(entries, other, 0);
                lemma_entry_index(r, other, 0);
                if entry_index(entries, other, 0) is Some {
                    let j = entry_index(entries, other, 0)->0;
                    assert(r[j] == entries[j]);
                    let k2 = entry_index(r, other, 0)->0;
                    if k2 < j {
                        assert(r[k2] == entries[k2]);
                    }
                } else if entry_index(r, other, 0) is Some {
                    let k2 = entry_index(r, other, 0)->0;
                    if k2 < n {
                        assert(r[k2] == entries[k2]);
                    }
                }
            }
        },
    }
}

/// Lists that name the same URIs at the same places find a URI at the same
/// place.
proof fn lemma_same_names_same_index(a: FileEdits, b: FileEdits, uri: Seq<char>, from: int)
    requires
        a.len() == b.len(),
        forall|i: int| 0 <= i < a.len() ==> (#[trigger] a[i]).0 == b[i].0,
        0 <= from,
    ensures
        entry_index(a, uri, from) == entry_index(b, uri, from),
    decreases a.len() - from,
{
    if from < a.len() {
        assert(a[from].0 == b[from].0);
        if a[from].0 != uri {
            lemma_same_names_same_index(a, b, uri, from + 1);
        }
    }
}

/// What `entry_index` finds is the first entry for the URI.
pub proof fn lemma_entry_index(entries: FileEdits, uri: Seq<char>, from: int)
    requires
        0 <= from,
    ensures
        entry_index(entries, uri, from) matches Some(i) ==> from <= i < entries.len()
            && entries[i].0 == uri && forall|k: int| from <= k < i ==> (#[trigger] entries[k]).0 != uri,
        entry_index(entries, uri, from) is None ==> forall|k: int|
            from <= k < entries.len() ==> (#[trigger] entries[k]).0 != uri,
    decreases entries.len() - from,
{
    if from < entries.len() && entries[from].0 != uri {
        lemma_entry_index(entries, uri, from + 1);
    }
}

/// The edits by file of a workspace edit name each file once.
pub proof fn lemma_workspace_edits_distinct(edit: WorkspaceEdit)
    ensures
        workspace_file_edits(edit) matches Some(entries) ==> distinct_uris(entries),
{
    match edit.changes {
        Some(changes) => lemma_collect_changes_distinct(changes@, changes@.len() as int),
        None => match edit.document_changes {
            None => {},
            Some(DocumentChanges::Edits(docs)) => lemma_collect_docs_distinct(
                docs@,
                docs@.len() as int,
            ),
            Some(DocumentChanges::Operations(ops)) => lemma_collect_ops_distinct(
                ops@,
                ops@.len() as int,
            ),
        },
    }
}

proof fn lemma_collect_changes_distinct(changes: Seq<(String, Vec<TextEdit>)>, n: int)
    ensures
        distinct_uris(collect_changes(changes, n)),
    decreases n,
{
    if 0 < n <= changes.len() {
        lemma_collect_changes_distinct(changes, n - 1);
        lemma_add_edits(collect_changes(changes, n - 1), changes[n - 1].0@, changes[n - 1].1@);
    }
}

proof fn lemma_collect_docs_distinct(docs: Seq<TextDocumentEdit>, n: int)
    ensures
        distinct_uris(collect_doc_edits(docs, n)),
    decreases n,
{
    if 0 < n <= docs.len() {
        lemma_collect_docs_distinct(docs, n - 1);
        lemma_add_edits(
            collect_doc_edits(docs, n - 1),
            docs[n - 1].uri@,
            plain_edits(docs[n - 1].edits@),
        );
    }
}

proof fn lemma_collect_ops_distinct(ops: Seq<DocumentChangeOperation>, n: int)
    ensures
        distinct_uris(collect_operations(ops, n)),
    decreases n,
{
    if 0 < n <= ops.len() {
        lemma_collect_ops_distinct(ops, n - 1);
        match ops[n - 1] {
            DocumentChangeOperation::Op(_) => {},
            DocumentChangeOperation::Edit(e) => lemma_add_edits(
                collect_operations(ops, n - 1),
                e.uri@,
                plain_edits(e.edits@),
            ),
        }
    }
}

/// A list by URI that names each file once is its own list of edits by file.
pub proof fn lemma_collect_changes_identity(changes: Seq<(String, Vec<TextEdit>)>, n: int)
    requires
        distinct_uris(file_edits_view(changes)),
        0 <= n <= changes.len(),
    ensures
        collect_changes(changes, n) == file_edits_view(changes).subrange(0, n),
    decreases n,
{
    let view = file_edits_view(changes);
    if n > 0 {
        lemma_collect_changes_identity(changes, n - 1);
        let prev = collect_changes(changes, n - 1);
        lemma_entry_index(prev, changes[n - 1].0@, 0);
        if entry_index(prev, changes[n - 1].0@, 0) is Some {
            let i = entry_index(prev, changes[n - 1].0@, 0)->0;
            assert(prev[i] == view[i]);
            assert(view[i].0 != view[n - 1].0);
        }
        assert(collect_changes(changes, n) =~= view.subrange(0, n));
    } else {
        assert(collect_changes(changes, n) =~= view.subrange(0, n));
    }
}

/// Adds `edits` for `uri` to `entries`.
pub fn add_file_edits(entries: &mut Vec<(String, Vec<TextEdit>)>, uri: &String, edits: Vec<TextEdit>)
    ensures
        file_edits_view(final(entries)@) == add_edits(file_edits_view(old(entries)@), uri@, edits@),
{
    let ghost before = file_edits_view(entries@);
    let mut i: usize = 0;
    while i < entries.len()
        invariant
            i <= entries@.len(),
            file_edits_view(entries@) == before,
            entries@ == old(entries)@,
            entry_index(before, uri@, 0) == entry_index(before, uri@, i as int),
        decreases entries@.len() - i,
    {
        assert(before[i as int] == (entries@[i as int].0@, entries@[i as int].1@));
        if str_eq(entries[i].0.as_str(), uri.as_str()) {
            let mut joined = duplicate_edits(&entries[i].1);
            let mut more = edits;
            joined.append(&mut more);
            entries[i] = (uri.clone(), joined);
            assert(file_edits_view(entries@) =~= before.update(
                i as int,
                (uri@, before[i as int].1 + edits@),
            ));
            return ;
        }
        i += 1;
    }
    entries.push((uri.clone(), edits));
    assert(file_edits_view(entries@) =~= before.push((uri@, edits@)));
}

/// The text edits of the edits of a document.
pub fn plain_text_edits(edits: &Vec<DocumentEdit>) -> (r: Vec<TextEdit>)
    ensures
        r@ == plain_edits(edits@),
{
    let mut out: Vec<TextEdit> = Vec::new();
    let mut i: usize = 0;
    while i < edits.len()
        invariant
            i <= edits@.len(),
            out@ == plain_edits(edits@).subrange(0, i as int),
        decreases edits@.len() - i,
    {
        let e = match &edits[i] {
            DocumentEdit::Plain(e) => e.duplicate(),
            DocumentEdit::Annotated(a) => a.text_edit.duplicate(),
        };
        out.push(e);
        assert(out@ =~= plain_edits(edits@).subrange(0, i + 1));
        i += 1;
    }
    assert(plain_edits(edits@).subrange(0, i as int) =~= plain_edits(edits@));
    out
}

/// The edits by file that `edit` asks for, and the number of changes that
/// were passed over because they are no edits of text.
pub fn workspace_edits_counted(edit: &WorkspaceEdit) -> (r: (Option<Vec<(String, Vec<TextEdit>)>>, usize))
    ensures
        match r.0 {
            Some(entries) => workspace_file_edits(*edit) == Some(file_edits_view(entries@)),
            None => workspace_file_edits(*edit) is None,
        },
        r.1 == (match (edit.changes, edit.document_changes) {
            (None, Some(DocumentChanges::Operations(ops))) => skipped_operations(
                ops@,
                ops@.len() as int,
            ),
            _ => 0,
        }),
{
    let mut out: Vec<(String, Vec<TextEdit>)> = Vec::new();
    assert(file_edits_view(out@) =~= Seq::empty());
    if let Some(changes) = &edit.changes {
        let mut i: usize = 0;
        while i < changes.len()
            invariant
                i <= changes@.len(),
                file_edits_view(out@) == collect_changes(changes@, i as int),
            decreases changes@.len() - i,
        {
            add_file_edits(&mut out, &changes[i].0, duplicate_edits(&changes[i].1));
            i += 1;
        }
        return (Some(out), 0);
    }
    match &edit.document_changes {
        None => (None, 0),
        Some(DocumentChanges::Edits(docs)) => {
            let mut i: usize = 0;
            while i < docs.len()
                invariant
                    i <= docs@.len(),
                    file_edits_view(out@) == collect_doc_edits(docs@, i as int),
                decreases docs@.len() - i,
            {
                add_file_edits(&mut out, &docs[i].uri, plain_text_edits(&docs[i].edits));
                i += 1;
            }
            (Some(out), 0)
        },
        Some(DocumentChanges::Operations(ops)) => {
            let mut skipped: usize = 0;
            let mut i: usize = 0;
            while i < ops.len()
                invariant
                    i <= ops@.len(),
                    file_edits_view(out@) == collect_operations(ops@, i as int),
                    skipped == skipped_operations(ops@, i as int),
                    skipped <= i,
                decreases ops@.len() - i,
            {
                match &ops[i] {
                    DocumentChangeOperation::Op(_) => {
                        skipped += 1;
                    },
                    DocumentChangeOperation::Edit(e) => {
                        add_file_edits(&mut out, &e.uri, plain_text_edits(&e.edits));
                    },
                }
                i += 1;
            }
            (Some(out), skipped)
        },
    }
}

/// The edits by file that `edit` asks for.
pub fn workspace_edits(edit: &WorkspaceEdit) -> (r: Option<Vec<(String, Vec<TextEdit>)>>)
    ensures
        match r {
            Some(entries) => workspace_file_edits(*edit) == Some(file_edits_view(entries@)),
            None => workspace_file_edits(*edit) is None,
        },
{
    workspace_edits_counted(edit).0
}

/// `lsp_types::Url::parse` on `uri`, then `Url::to_file_path` on the URL, as
/// a string: none where `uri` is no URL, names no file on this machine, or
/// names one whose path is no Unicode. What path a URI names depends on the
/// machine's operating system, so nothing is said of it.
#[verifier::external_body]
pub(crate) fn file_path_of_uri(uri: &str) -> (r: Option<String>) {
    let url = lsp_types::Url::parse(uri).ok()?;
    url.to_file_path().ok()?.into_os_string().into_string().ok()
}

/// `lsp_types::Url::from_file_path` on `path`, as the URL's text: none where
/// `path` is not absolute. The text depends on the machine's operating
/// system, so nothing is said of it.
#[verifier::external_body]
fn uri_of_file_path(path: &str) -> (r: Option<String>) {
    lsp_types::Url::from_file_path(path).ok().map(String::from)
}

/// Whether the file of a URI is the file `path`, given the path that the
/// URI names (`uri_path`) and the URI that names the path (`path_uri`),
/// each where there is one: either the two paths or the two URIs are alike.
pub fn paths_match(path: &str, uri: &str, uri_path: &Option<String>, path_uri: &Option<String>) -> (r:
    bool)
    ensures
        r == ((uri_path matches Some(p) && p@ == path@) || (path_uri matches Some(u) && u@
            == uri@)),
{
    let mut matches = false;
    if let Some(p) = uri_path {
        if str_eq(p.as_str(), path) {
            matches = true;
        }
    }
    if let Some(u) = path_uri {
        if str_eq(u.as_str(), uri) {
            matches = true;
        }
    }
    matches
}

/// Check if a URI matches the path. What the URI and the path are turned
/// into depends on the machine; `paths_match` says what is made of it.
pub fn url_matches_path(path: &str, uri: &str) -> (r: bool) {
    let uri_path = file_path_of_uri(uri);
    let path_uri = uri_of_file_path(path);
    paths_match(path, uri, &uri_path, &path_uri)
}


/// The edits that the first `n` document edits list for `uri`, one
/// document edit after the other.
pub open spec fn gathered_edits(docs: Seq<TextDocumentEdit>, n: int, uri: Seq<char>) -> Seq<TextEdit>
    decreases n,
{
    if n <= 0 || n > docs.len() {
        Seq::empty()
    } else if docs[n - 1].uri@ == uri {
        gathered_edits(docs, n - 1, uri) + plain_edits(docs[n - 1].edits@)
    } else {
        gathered_edits(docs, n - 1, uri)
    }
}

/// Bringing document edits to one list by file loses no edit: the list of
/// a file holds the edits of every document edit for the file, in their
/// order.
pub proof fn lemma_doc_edits_kept(docs: Seq<TextDocumentEdit>, n: int, uri: Seq<char>)
    requires
        0 <= n <= docs.len(),
    ensures
        edits_for(collect_doc_edits(docs, n), uri) == gathered_edits(docs, n, uri),
    decreases n,
{
    if n > 0 {
        lemma_doc_edits_kept(docs, n - 1, uri);
        lemma_collect_docs_distinct(docs, n - 1);
        lemma_add_edits(
            collect_doc_edits(docs, n - 1),
            docs[n - 1].uri@,
            plain_edits(docs[n - 1].edits@),
        );
    }
}

} // verus!
