//! Certificate Transparency search results (crt.sh JSON output): the
//! first entries of the result list, each reduced to the names it covers
//! and its issuer.

use crate::json::Json;
use vstd::prelude::*;

verus! {

/// How many results are kept.
pub const MAX_CT_ENTRIES: usize = 20usize;

/// One certificate entry: its `name_value` and `issuer_name` strings (empty
/// when missing or not strings).
pub struct CertEntry {
    pub name: String,
    pub issuer: String,
}

/// The `(name, issuer)` texts of an entry.
pub open spec fn entry_texts(item: Json) -> (Seq<char>, Seq<char>) {
    (item.member_text("name_value"@), item.member_text("issuer_name"@))
}

/// The entries of a result list: the first `MAX_CT_ENTRIES` items of a JSON
/// array, or none when the document is not an array.
pub open spec fn ct_entries(doc: Json) -> Seq<(Seq<char>, Seq<char>)> {
    match doc {
        Json::Array(items) => {
            let n = if items@.len() < MAX_CT_ENTRIES { items@.len() } else { MAX_CT_ENTRIES as nat };
            Seq::new(n, |i: int| entry_texts(items@[i]))
        },
        _ => Seq::empty(),
    }
}

/// The texts of a list of entries.
pub open spec fn entries_view(v: Seq<CertEntry>) -> Seq<(Seq<char>, Seq<char>)> {
    v.map_values(|e: CertEntry| (e.name@, e.issuer@))
}

/// The entries of a crt.sh result document.
pub fn ct_log_entries(doc: &Json) -> (r: Vec<CertEntry>)
    ensures
        entries_view(r@) == ct_entries(*doc),
{
    let mut out: Vec<CertEntry> = Vec::new();
    match doc {
        Json::Array(items) => {
            let n = if items.len() < MAX_CT_ENTRIES { items.len() } else { MAX_CT_ENTRIES };
            let mut i: usize = 0;
            while i < n
                invariant
                    i <= n,
                    n <= items@.len(),
                    entries_view(out@) == Seq::new(i as nat, |k: int| entry_texts(items@[k])),
                decreases n - i,
            {
                let item = &items[i];
                let name = String::from_str(item.member_str_or_empty("name_value"));
                let issuer = String::from_str(item.member_str_or_empty("issuer_name"));
                let ghost texts = (name@, issuer@);
                let ghost before = out@;
                out.push(CertEntry { name, issuer });
                assert(entries_view(out@) =~= entries_view(before).push(texts));
                assert(entries_view(out@) =~= Seq::new((i + 1) as nat, |k: int| entry_texts(items@[k])));
                i += 1;
            }
            assert(entries_view(out@) =~= ct_entries(*doc));
        },
        _ => {
            assert(entries_view(out@) =~= ct_entries(*doc));
        },
    }
    out
}

/// The entries follow the result list item by item: there are as many as
/// the list has items, at most `MAX_CT_ENTRIES`, and entry `k` holds the
/// `name_value` and `issuer_name` strings of item `k`. A document that is
/// not a list has no entries.
pub proof fn lemma_entries_follow_items(doc: Json)
    ensures
        match doc {
            Json::Array(items) => {
                &&& ct_entries(doc).len() == if items@.len() < MAX_CT_ENTRIES {
                    items@.len()
                } else {
                    MAX_CT_ENTRIES as nat
                }
                &&& forall|k: int|
                    0 <= k < ct_entries(doc).len() ==> #[trigger] ct_entries(doc)[k] == (
                        items@[k].member_text("name_value"@),
                        items@[k].member_text("issuer_name"@),
                    )
            },
            _ => ct_entries(doc).len() == 0,
        },
{
}

} // verus!
