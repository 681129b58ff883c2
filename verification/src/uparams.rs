//! The uParams collection: which documents are asked for, how the documents
//! that come back are framed as one JSON array for the data-frame reader, and
//! how the ISO-3 codes of a limited query are collected from the cursor.
use vstd::prelude::*;

verus! {

// ---------------------------------------------------------------------------
// Queries
// ---------------------------------------------------------------------------

/// A query of documents whose `field` holds one of `any_of`, in
/// `database.collection`, with at most `limit` documents when there is one.
pub struct DocumentQuery {
    pub database: String,
    pub collection: String,
    pub field: String,
    pub any_of: Vec<String>,
    pub limit: Option<i64>,
}

/// The text values of a list of strings.
pub open spec fn texts(values: Seq<String>) -> Seq<Seq<char>> {
    values.map_values(|s: String| s@)
}

/// The database of the service.
pub const DATABASE: &'static str = "delphi-dev";

/// The collection of the uParams documents.
pub const COLLECTION: &'static str = "uparams";

/// The field that holds a document's country code.
pub const COUNTRY_FIELD: &'static str = "iso3";

/// The query for the uParams of the United States and Canada, all of them.
pub fn country_uparams_query() -> (q: DocumentQuery)
    ensures
        q.database@ == DATABASE@,
        q.collection@ == COLLECTION@,
        q.field@ == COUNTRY_FIELD@,
        texts(q.any_of@) == seq!["USA"@, "CAN"@],
        q.limit is None,
{
    let mut any_of: Vec<String> = Vec::new();
    any_of.push(String::from_str("USA"));
    any_of.push(String::from_str("CAN"));
    assert(texts(any_of@) =~= seq!["USA"@, "CAN"@]);
    DocumentQuery {
        database: String::from_str(DATABASE),
        collection: String::from_str(COLLECTION),
        field: String::from_str(COUNTRY_FIELD),
        any_of,
        limit: None,
    }
}

/// The query for a sample of the uParams of Great Britain and Australia: at
/// most three documents.
pub fn sample_uparams_query() -> (q: DocumentQuery)
    ensures
        q.database@ == DATABASE@,
        q.collection@ == COLLECTION@,
        q.field@ == COUNTRY_FIELD@,
        texts(q.any_of@) == seq!["GBR"@, "AUS"@],
        q.limit == Some(3i64),
{
    let mut any_of: Vec<String> = Vec::new();
    any_of.push(String::from_str("GBR"));
    any_of.push(String::from_str("AUS"));
    assert(texts(any_of@) =~= seq!["GBR"@, "AUS"@]);
    DocumentQuery {
        database: String::from_str(DATABASE),
        collection: String::from_str(COLLECTION),
        field: String::from_str(COUNTRY_FIELD),
        any_of,
        limit: Some(3),
    }
}

// ---------------------------------------------------------------------------
// Framing the fetched documents as one JSON array
// ---------------------------------------------------------------------------

/// The JSON object that stands for a document that could not be fetched.
pub const FETCH_FAILURE_ENTRY: &'static str = "{\"error\":\"Failed to fetch document\"}";

/// The JSON text of one fetched entry: the document's own text, or the
/// failure object where the document could not be fetched.
pub open spec fn entry_text(entry: Option<String>) -> Seq<char> {
    match entry {
        Some(text) => text@,
        None => FETCH_FAILURE_ENTRY@,
    }
}

/// The texts of the first `n` entries, separated by commas.
pub open spec fn joined_entries(entries: Seq<Option<String>>, n: int) -> Seq<char>
    decreases n,
{
    if n <= 0 {
        seq![]
    } else if n == 1 {
        entry_text(entries[0])
    } else {
        joined_entries(entries, n - 1) + ","@ + entry_text(entries[n - 1])
    }
}

/// The compact JSON array of the entries, in order.
pub open spec fn json_array_text(entries: Seq<Option<String>>) -> Seq<char> {
    "["@ + joined_entries(entries, entries.len() as int) + "]"@
}

/// Frames the fetched documents as one compact JSON array: each entry is the
/// JSON text of a document, or absent where the document could not be
/// fetched, which the failure object then stands for.
pub fn documents_json_array(entries: &Vec<Option<String>>) -> (text: String)
    ensures
        text@ == json_array_text(entries@),
{
    let mut text = String::from_str("[");
    let mut i: usize = 0;
    while i < entries.len()
        invariant
            i <= entries@.len(),
            text@ == "["@ + joined_entries(entries@, i as int),
        decreases entries@.len() - i,
    {
        if i > 0 {
            text.append(",");
        }
        match &entries[i] {
            Some(document) => text.append(document.as_str()),
            None => text.append(FETCH_FAILURE_ENTRY),
        }
        proof {
            if i == 0 {
                assert(joined_entries(entries@, 0) =~= Seq::<char>::empty());
            }
        }
        i += 1;
    }
    text.append("]");
    text
}

// ---------------------------------------------------------------------------
// Collecting the country codes from a cursor
// ---------------------------------------------------------------------------

/// What the cursor of a query reported.
pub enum CursorEvent {
    /// One more document, of which only its country code is read.
    Document(String),
    /// No document is left.
    Exhausted,
}

/// What the loader asks for next.
pub enum LoadAction {
    /// Advance the cursor and report what it holds.
    FetchNext,
    /// Stop: these are the country codes, in the order of the documents.
    Return(Vec<String>),
}

/// The country codes of the documents read so far.
pub struct UParamsLoad {
    collected: Vec<String>,
}

/// One step of the loader, on its codes so far: the codes after the step,
/// and the codes handed out if the step ends the load.
pub open spec fn load_step(codes: Seq<Seq<char>>, event: CursorEvent) -> (
    Seq<Seq<char>>,
    Option<Seq<Seq<char>>>,
) {
    match event {
        CursorEvent::Document(code) => (codes.push(code@), None),
        CursorEvent::Exhausted => (seq![], Some(codes)),
    }
}

impl UParamsLoad {
    /// The codes collected so far, in order.
    pub closed spec fn codes(&self) -> Seq<Seq<char>> {
        texts(self.collected@)
    }

    /// A load that has read nothing yet.
    pub fn new() -> (load: Self)
        ensures
            load.codes() == Seq::<Seq<char>>::empty(),
    {
        let load = UParamsLoad { collected: Vec::new() };
        assert(load.codes() =~= Seq::<Seq<char>>::empty());
        load
    }

    /// Takes in what the cursor reported: a document's code is kept and the
    /// next document asked for; at the end the codes are handed out and the
    /// load starts afresh.
    pub fn step(&mut self, event: CursorEvent) -> (action: LoadAction)
        ensures
            final(self).codes() == load_step(old(self).codes(), event).0,
            load_step(old(self).codes(), event).1 is None ==> action is FetchNext,
            load_step(old(self).codes(), event).1 matches Some(codes) ==> action matches LoadAction::Return(
                out,
            ) && texts(out@) == codes,
    {
        match event {
            CursorEvent::Document(code) => {
                self.collected.push(code);
                assert(self.codes() =~= old(self).codes().push(code@));
                LoadAction::FetchNext
            },
            CursorEvent::Exhausted => {
                let mut out: Vec<String> = Vec::new();
                std::mem::swap(&mut out, &mut self.collected);
                assert(self.codes() =~= Seq::<Seq<char>>::empty());
                LoadAction::Return(out)
            },
        }
    }
}

} // verus!

verus! {

/// What the loader hands out when it takes in `events` one by one, starting
/// from the codes `codes`: the codes of the first end, if the events reach one.
pub open spec fn load_outcome(codes: Seq<Seq<char>>, events: Seq<CursorEvent>) -> Option<
    Seq<Seq<char>>,
>
    decreases events.len(),
{
    if events.len() == 0 {
        None
    } else {
        let (next, out) = load_step(codes, events[0]);
        match out {
            Some(handed_out) => Some(handed_out),
            None => load_outcome(next, events.drop_first()),
        }
    }
}

/// The cursor events of the documents whose codes are `codes`, then the end.
pub open spec fn documents_then_end(codes: Seq<String>) -> Seq<CursorEvent> {
    codes.map_values(|code: String| CursorEvent::Document(code)).push(CursorEvent::Exhausted)
}

/// Loading gives back what the cursor held: fed the documents of `codes` and
/// then the end, a load that holds `start` hands out `start` followed by
/// those codes, in the order of the documents.
pub proof fn lemma_load_hands_out_documents(start: Seq<Seq<char>>, codes: Seq<String>)
    ensures
        load_outcome(start, documents_then_end(codes)) == Some(start + texts(codes)),
    decreases codes.len(),
{
    let events = documents_then_end(codes);
    if codes.len() == 0 {
        assert(events =~= seq![CursorEvent::Exhausted]);
        assert(start + texts(codes) =~= start);
    } else {
        let rest = codes.drop_first();
        lemma_load_hands_out_documents(start.push(codes[0]@), rest);
        assert(events.drop_first() =~= documents_then_end(rest));
        assert(start.push(codes[0]@) + texts(rest) =~= start + texts(codes));
    }
}

/// A fresh load fed the documents of `codes` and then the end hands out
/// exactly their codes, in order.
pub proof fn lemma_fresh_load_hands_out_documents(codes: Seq<String>)
    ensures
        load_outcome(seq![], documents_then_end(codes)) == Some(texts(codes)),
{
    lemma_load_hands_out_documents(seq![], codes);
    assert(Seq::<Seq<char>>::empty() + texts(codes) =~= texts(codes));
}

} // verus!

verus! {

/// The texts of the first entries do not depend on the later ones.
proof fn lemma_joined_prefix(entries: Seq<Option<String>>, extra: Option<String>, n: int)
    requires
        0 <= n <= entries.len(),
    ensures
        joined_entries(entries.push(extra), n) == joined_entries(entries, n),
    decreases n,
{
    if n > 1 {
        lemma_joined_prefix(entries, extra, n - 1);
    }
}

/// No documents frame the empty array.
pub proof fn lemma_json_array_of_nothing()
    ensures
        json_array_text(Seq::<Option<String>>::empty()) == seq!['[', ']'],
{
    reveal_strlit("[");
    reveal_strlit("]");
    assert(json_array_text(Seq::<Option<String>>::empty()) =~= seq!['[', ']']);
}

/// One more document adds exactly one element at the end of the array: its
/// text (or the failure object), after a comma unless it is the first. So
/// the array holds one element per entry, in order, however many there are.
pub proof fn lemma_json_array_push(entries: Seq<Option<String>>, entry: Option<String>)
    ensures
        json_array_text(entries.push(entry)) == json_array_text(entries).drop_last() + (if entries.len()
            == 0 {
            Seq::<char>::empty()
        } else {
            seq![',']
        }) + entry_text(entry) + seq![']'],
        json_array_text(entries)[0] == '[',
        json_array_text(entries).last() == ']',
{
    reveal_strlit("[");
    reveal_strlit("]");
    reveal_strlit(",");
    let n = entries.len() as int;
    lemma_joined_prefix(entries, entry, n);
    let longer = entries.push(entry);
    assert(longer[n] == entry);
    assert(json_array_text(entries).drop_last() =~= "["@ + joined_entries(entries, n));
    if n == 0 {
        assert(joined_entries(entries, 0) =~= Seq::<char>::empty());
        assert(joined_entries(longer, 1) == entry_text(longer[0]));
    } else {
        assert(joined_entries(longer, n + 1) == joined_entries(longer, n) + ","@ + entry_text(longer[n]));
    }
    assert(json_array_text(longer) =~= json_array_text(entries).drop_last() + (if n == 0 {
        Seq::<char>::empty()
    } else {
        seq![',']
    }) + entry_text(entry) + seq![']']);
}

} // verus!

verus! {

/// Every load starts afresh: the end of a load hands out the codes it held
/// and leaves none behind, so whatever a loader held before, a next load fed
/// the documents of `codes` and then the end hands out exactly their codes,
/// in order.
pub proof fn lemma_next_load_is_independent(held: Seq<Seq<char>>, codes: Seq<String>)
    ensures
        load_step(held, CursorEvent::Exhausted).1 == Some(held),
        load_step(held, CursorEvent::Exhausted).0 == Seq::<Seq<char>>::empty(),
        load_outcome(load_step(held, CursorEvent::Exhausted).0, documents_then_end(codes)) == Some(
            texts(codes),
        ),
{
    lemma_fresh_load_hands_out_documents(codes);
}

/// A document is kept at the end of the codes held, and asks for no return.
pub proof fn lemma_document_is_appended(held: Seq<Seq<char>>, code: String)
    ensures
        load_step(held, CursorEvent::Document(code)).0.len() == held.len() + 1,
        load_step(held, CursorEvent::Document(code)).0.last() == code@,
        load_step(held, CursorEvent::Document(code)).0.drop_last() == held,
        load_step(held, CursorEvent::Document(code)).1 is None,
{
    assert(held.push(code@).drop_last() =~= held);
}

} // verus!

verus! {

/// The queries name the database `delphi-dev`, the collection `uparams` and
/// the country field `iso3`; a document that could not be fetched stands as
/// the object `{"error":"Failed to fetch document"}`.
pub proof fn lemma_query_names()
    ensures
        DATABASE@ == seq!['d', 'e', 'l', 'p', 'h', 'i', '-', 'd', 'e', 'v'],
        COLLECTION@ == seq!['u', 'p', 'a', 'r', 'a', 'm', 's'],
        COUNTRY_FIELD@ == seq!['i', 's', 'o', '3'],
        FETCH_FAILURE_ENTRY@ == seq!['{', '"', 'e', 'r', 'r', 'o', 'r', '"', ':', '"'] + seq![
            'F', 'a', 'i', 'l', 'e', 'd', ' ', 't', 'o', ' ', 'f', 'e', 't', 'c', 'h', ' ',
        ] + seq!['d', 'o', 'c', 'u', 'm', 'e', 'n', 't', '"', '}'],
{
    reveal_strlit("delphi-dev");
    reveal_strlit("uparams");
    reveal_strlit("iso3");
    reveal_strlit("{\"error\":\"Failed to fetch document\"}");
    assert(DATABASE@ =~= seq!['d', 'e', 'l', 'p', 'h', 'i', '-', 'd', 'e', 'v']);
    assert(COLLECTION@ =~= seq!['u', 'p', 'a', 'r', 'a', 'm', 's']);
    assert(COUNTRY_FIELD@ =~= seq!['i', 's', 'o', '3']);
    assert(FETCH_FAILURE_ENTRY@ =~= seq!['{', '"', 'e', 'r', 'r', 'o', 'r', '"', ':', '"'] + seq![
        'F', 'a', 'i', 'l', 'e', 'd', ' ', 't', 'o', ' ', 'f', 'e', 't', 'c', 'h', ' ',
    ] + seq!['d', 'o', 'c', 'u', 'm', 'e', 'n', 't', '"', '}']);
}

} // verus!
