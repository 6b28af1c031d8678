use vstd::prelude::*;
use vstd::string::StringExecFns;

verus! {

/// What `str::trim` returns for a text: the text without leading and
/// trailing white space, as Unicode defines white space.
pub uninterp spec fn trim_of(s: Seq<char>) -> Seq<char>;

/// What `str::to_lowercase` returns for a text, by Unicode's case mapping.
pub uninterp spec fn lower_of(s: Seq<char>) -> Seq<char>;

/// Relies on `str::trim`: the text with leading and trailing white space removed.
#[verifier::external_body]
fn trimmed(s: &str) -> (r: String)
    ensures
        r@ == trim_of(s@),
{
    s.trim().to_string()
}

/// Relies on `str::to_lowercase`: the lower-case form of the text.
#[verifier::external_body]
fn lowercased(s: &str) -> (r: String)
    ensures
        r@ == lower_of(s@),
{
    s.to_lowercase()
}

/// One record of a list: its identity `symbol`, its tags and its category.
#[derive(Debug, Clone)]
pub struct Entry {
    pub symbol: String,
    pub tags: Vec<String>,
    pub category: String,
}

/// The mathematical value of an [`Entry`].
pub struct EntryView {
    pub symbol: Seq<char>,
    pub tags: Seq<Seq<char>>,
    pub category: Seq<char>,
}

/// The texts held by a sequence of strings.
pub open spec fn texts(v: Seq<String>) -> Seq<Seq<char>> {
    v.map_values(|t: String| t@)
}

impl View for Entry {
    type V = EntryView;

    open spec fn view(&self) -> EntryView {
        EntryView { symbol: self.symbol@, tags: texts(self.tags@), category: self.category@ }
    }
}

impl Entry {
    /// A copy of the entry with the same fields.
    pub fn clone_entry(&self) -> (r: Entry)
        ensures
            r@ == self@,
    {
        let mut tags: Vec<String> = Vec::new();
        let n = self.tags.len();
        let mut i: usize = 0;
        while i < n
            invariant
                n == self.tags@.len(),
                i <= n,
                texts(tags@) == texts(self.tags@).take(i as int),
            decreases n - i,
        {
            let t = self.tags[i].clone();
            let ghost prev = tags@;
            tags.push(t);
            assert(texts(tags@) =~= texts(prev).push(t@));
            assert(texts(tags@) =~= texts(self.tags@).take(i + 1));
            i = i + 1;
        }
        assert(texts(self.tags@).take(n as int) =~= texts(self.tags@));
        Entry { symbol: self.symbol.clone(), tags, category: self.category.clone() }
    }
}

/// Why an operation on a list failed.
#[derive(Debug, Clone)]
pub enum StoreError {
    /// The entry's symbol is empty once trimmed.
    EmptySymbol,
    /// The file system refused a step; the text says what happened.
    Io(String),
}

impl StoreError {
    /// A human-readable description of the error.
    pub fn message(&self) -> (r: String)
        ensures
            self is Io ==> r@ == self->Io_0@,
            self is EmptySymbol ==> r@ == "symbol cannot be empty"@,
    {
        match self {
            StoreError::EmptySymbol => String::from_str("symbol cannot be empty"),
            StoreError::Io(m) => m.clone(),
        }
    }
}

pub open spec fn is_nonempty(t: Seq<char>) -> bool {
    t.len() > 0
}

/// A tag as stored: trimmed, then lower-cased.
pub open spec fn normalized_tag(t: Seq<char>) -> Seq<char> {
    lower_of(trim_of(t))
}

/// The tags as stored: each one normalized, the empty ones dropped, the
/// order of the rest kept.
pub open spec fn normalized_tags(tags: Seq<Seq<char>>) -> Seq<Seq<char>> {
    tags.map_values(|t: Seq<char>| normalized_tag(t)).filter(|t: Seq<char>| is_nonempty(t))
}

/// The entry that sanitizing `raw` produces, or `None` where its symbol is
/// empty once trimmed.
pub open spec fn sanitized(raw: EntryView) -> Option<EntryView> {
    if trim_of(raw.symbol).len() == 0 {
        None
    } else {
        Some(
            EntryView {
                symbol: trim_of(raw.symbol),
                tags: normalized_tags(raw.tags),
                category: trim_of(raw.category),
            },
        )
    }
}

/// Drops the empty texts of `tags` and keeps the order of the rest.
pub fn keep_nonempty(tags: Vec<String>) -> (r: Vec<String>)
    ensures
        texts(r@) == texts(tags@).filter(|t: Seq<char>| is_nonempty(t)),
{
    let mut r: Vec<String> = Vec::new();
    let n = tags.len();
    let mut i: usize = 0;
    while i < n
        invariant
            n == tags@.len(),
            i <= n,
            texts(r@) == texts(tags@.take(i as int)).filter(|t: Seq<char>| is_nonempty(t)),
        decreases n - i,
    {
        proof {
            assert(tags@.take(i + 1) == tags@.take(i as int).push(tags@[i as int]));
            assert(texts(tags@.take(i + 1)) == texts(tags@.take(i as int)).push(tags@[i as int]@));
            texts(tags@.take(i as int)).lemma_filter_push(
                tags@[i as int]@,
                |t: Seq<char>| is_nonempty(t),
            );
        }
        let t = tags[i].clone();
        if !t.as_str().is_empty() {
            let ghost prev = r@;
            r.push(t);
            proof {
                assert(texts(r@) == texts(prev).push(t@));
            }
        }
        i = i + 1;
    }
    assert(tags@.take(n as int) == tags@);
    r
}

/// Builds an entry from fields that are already normalized: fails where the
/// symbol is empty, and drops the empty tags.
pub fn entry_from_normalized(symbol: String, tags: Vec<String>, category: String) -> (r: Result<
    Entry,
    StoreError,
>)
    ensures
        symbol@.len() == 0 <==> r is Err,
        r is Err ==> r->Err_0 is EmptySymbol,
        r is Ok ==> r->Ok_0@ == (EntryView {
            symbol: symbol@,
            tags: texts(tags@).filter(|t: Seq<char>| is_nonempty(t)),
            category: category@,
        }),
{
    if symbol.as_str().is_empty() {
        return Err(StoreError::EmptySymbol);
    }
    let tags = keep_nonempty(tags);
    Ok(Entry { symbol, tags, category })
}

/// Normalizes a candidate entry: the symbol and the category are trimmed,
/// each tag is trimmed and lower-cased and the empty tags are dropped. Fails
/// with [`StoreError::EmptySymbol`] where the trimmed symbol is empty.
pub fn sanitize(raw: &Entry) -> (r: Result<Entry, StoreError>)
    ensures
        r is Err <==> sanitized(raw@) is None,
        r is Err ==> r->Err_0 is EmptySymbol,
        r is Ok ==> sanitized(raw@) == Some(r->Ok_0@),
{
    let symbol = trimmed(raw.symbol.as_str());
    if symbol.as_str().is_empty() {
        return Err(StoreError::EmptySymbol);
    }
    let mut folded: Vec<String> = Vec::new();
    let n = raw.tags.len();
    let mut i: usize = 0;
    while i < n
        invariant
            n == raw.tags@.len(),
            i <= n,
            texts(folded@) == texts(raw.tags@).take(i as int).map_values(
                |t: Seq<char>| normalized_tag(t),
            ),
        decreases n - i,
    {
        let t = lowercased(trimmed(raw.tags[i].as_str()).as_str());
        let ghost prev = folded@;
        folded.push(t);
        proof {
            assert(texts(raw.tags@).take(i + 1) == texts(raw.tags@).take(i as int).push(
                raw.tags@[i as int]@,
            ));
            assert(texts(folded@) == texts(prev).push(t@));
        }
        i = i + 1;
    }
    assert(texts(raw.tags@).take(n as int) == texts(raw.tags@));
    let category = trimmed(raw.category.as_str());
    entry_from_normalized(symbol, folded, category)
}

} // verus!
