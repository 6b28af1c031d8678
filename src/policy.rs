use vstd::prelude::*;
use crate::entry::{Entry, EntryView};

verus! {

/// How many entries the recents list keeps.
pub const RECENTS_CAPACITY: usize = 20;

/// The values held by a list of entries.
pub open spec fn views(v: Seq<Entry>) -> Seq<EntryView> {
    v.map_values(|e: Entry| e@)
}

/// Some entry of `s` carries `sym`.
pub open spec fn has_symbol(s: Seq<EntryView>, sym: Seq<char>) -> bool {
    exists|i: int| 0 <= i < s.len() && #[trigger] s[i].symbol == sym
}

/// `i` is the first position of `s` whose entry carries `sym`.
pub open spec fn is_first_with(s: Seq<EntryView>, sym: Seq<char>, i: int) -> bool {
    &&& 0 <= i < s.len()
    &&& s[i].symbol == sym
    &&& forall|j: int| 0 <= j < i ==> #[trigger] s[j].symbol != sym
}

/// The first position of `s` whose entry carries `sym` (meaningful where
/// `has_symbol(s, sym)`).
pub open spec fn first_with(s: Seq<EntryView>, sym: Seq<char>) -> int {
    choose|i: int| is_first_with(s, sym, i)
}

/// No two entries of `s` carry the same symbol.
pub open spec fn unique_symbols(s: Seq<EntryView>) -> bool {
    forall|i: int, j: int| 0 <= i < j < s.len() ==> #[trigger] s[i].symbol != #[trigger] s[j].symbol
}

/// The catalog after an upsert of `e`: the first entry with `e`'s symbol
/// takes `e`'s tags and category in place, or `e` is appended.
pub open spec fn upserted(s: Seq<EntryView>, e: EntryView) -> Seq<EntryView> {
    if has_symbol(s, e.symbol) {
        s.update(first_with(s, e.symbol), e)
    } else {
        s.push(e)
    }
}

/// The entries of `s` that do not carry `sym`, in order.
pub open spec fn without_symbol(s: Seq<EntryView>, sym: Seq<char>) -> Seq<EntryView> {
    s.filter(|x: EntryView| x.symbol != sym)
}

/// The recents list after recording `e`: `e` first, then the other entries
/// without `e`'s symbol, cut to the capacity.
pub open spec fn recorded(s: Seq<EntryView>, e: EntryView) -> Seq<EntryView> {
    let full = seq![e] + without_symbol(s, e.symbol);
    if full.len() <= RECENTS_CAPACITY {
        full
    } else {
        full.take(RECENTS_CAPACITY as int)
    }
}

/// The favorites after toggling `e`, and whether `e`'s symbol is a favorite
/// afterwards: the first entry with `e`'s symbol is removed, or `e` is appended.
pub open spec fn toggled(s: Seq<EntryView>, e: EntryView) -> (Seq<EntryView>, bool) {
    if has_symbol(s, e.symbol) {
        (s.remove(first_with(s, e.symbol)), false)
    } else {
        (s.push(e), true)
    }
}

proof fn lemma_first_with_unique(s: Seq<EntryView>, sym: Seq<char>, i: int)
    requires
        is_first_with(s, sym, i),
    ensures
        has_symbol(s, sym),
        first_with(s, sym) == i,
{
    let k = first_with(s, sym);
    assert(is_first_with(s, sym, k));
    if k < i {
        assert(s[k].symbol != sym);
    }
    if i < k {
        assert(s[i].symbol != sym);
    }
}

/// Searches `list` for the first entry whose symbol is `sym`.
pub fn position_of(list: &Vec<Entry>, sym: &String) -> (r: Option<usize>)
    ensures
        r is None <==> !has_symbol(views(list@), sym@),
        r is Some ==> is_first_with(views(list@), sym@, r->Some_0 as int),
        r is Some ==> first_with(views(list@), sym@) == r->Some_0 as int,
{
    let n = list.len();
    let mut i: usize = 0;
    while i < n
        invariant
            n == list@.len(),
            i <= n,
            forall|j: int| 0 <= j < i ==> #[trigger] views(list@)[j].symbol != sym@,
        decreases n - i,
    {
        if list[i].symbol == *sym {
            proof {
                lemma_first_with_unique(views(list@), sym@, i as int);
            }
            return Some(i);
        }
        i = i + 1;
    }
    assert(!has_symbol(views(list@), sym@)) by {
        if has_symbol(views(list@), sym@) {
            let k = choose|k: int| 0 <= k < views(list@).len() && #[trigger] views(list@)[k].symbol == sym@;
            assert(views(list@)[k].symbol != sym@);
        }
    }
    None
}

/// Upserts `entry` into the catalog `list`: where an entry with the same
/// symbol exists, the first such takes `entry`'s tags and category at its
/// position; else `entry` is appended.
pub fn upsert(list: &mut Vec<Entry>, entry: Entry)
    ensures
        views(final(list)@) == upserted(views(old(list)@), entry@),
{
    match position_of(list, &entry.symbol) {
        Some(i) => {
            list.set(i, entry);
            assert(views(final(list)@) =~= upserted(views(old(list)@), entry@));
        },
        None => {
            list.push(entry);
            assert(views(final(list)@) =~= upserted(views(old(list)@), entry@));
        },
    }
}

/// Records `entry` as the most recent use: any entry with the same symbol is
/// removed, `entry` goes first, and the list is cut to [`RECENTS_CAPACITY`]
/// entries, the oldest past the bound dropped.
pub fn record_recent(list: &mut Vec<Entry>, entry: Entry)
    ensures
        views(final(list)@) == recorded(views(old(list)@), entry@),
{
    let ghost s = views(list@);
    let ghost sym = entry@.symbol;
    let n = list.len();
    let mut kept: Vec<Entry> = Vec::new();
    let mut i: usize = 0;
    while i < n
        invariant
            n == list@.len(),
            s == views(list@),
            sym == entry@.symbol,
            i <= n,
            views(kept@) == without_symbol(s.take(i as int), sym),
        decreases n - i,
    {
        proof {
            assert(s.take(i + 1) == s.take(i as int).push(s[i as int]));
            s.take(i as int).lemma_filter_push(s[i as int], |x: EntryView| x.symbol != sym);
        }
        if list[i].symbol != entry.symbol {
            let ghost prev = kept@;
            kept.push(list[i].clone_entry());
            assert(views(kept@) =~= views(prev).push(s[i as int]));
        }
        i = i + 1;
    }
    assert(s.take(n as int) == s);
    let ghost e = entry@;
    kept.insert(0, entry);
    assert(views(kept@) =~= seq![e] + without_symbol(s, sym));
    kept.truncate(RECENTS_CAPACITY);
    assert(views(kept@) =~= recorded(s, e));
    *list = kept;
}

/// Toggles the favorite `entry`: where an entry with the same symbol exists,
/// the first such is removed and `false` comes back; else `entry` is appended
/// and `true` comes back. The result tells whether `entry`'s symbol is a
/// favorite afterwards.
pub fn toggle_favorite(list: &mut Vec<Entry>, entry: Entry) -> (r: bool)
    ensures
        (views(final(list)@), r) == toggled(views(old(list)@), entry@),
{
    match position_of(list, &entry.symbol) {
        Some(i) => {
            list.remove(i);
            assert(views(final(list)@) =~= toggled(views(old(list)@), entry@).0);
            false
        },
        None => {
            list.push(entry);
            assert(views(final(list)@) =~= toggled(views(old(list)@), entry@).0);
            true
        },
    }
}

proof fn lemma_first_exists_from(s: Seq<EntryView>, sym: Seq<char>, k: int)
    requires
        0 <= k < s.len(),
        s[k].symbol == sym,
    ensures
        is_first_with(s, sym, first_with(s, sym)),
    decreases k,
{
    if exists|j: int| 0 <= j < k && #[trigger] s[j].symbol == sym {
        let j = choose|j: int| 0 <= j < k && #[trigger] s[j].symbol == sym;
        lemma_first_exists_from(s, sym, j);
    } else {
        assert(is_first_with(s, sym, k));
    }
}

/// Where some entry carries `sym`, [`first_with`] names the first such.
pub proof fn lemma_first_with(s: Seq<EntryView>, sym: Seq<char>)
    requires
        has_symbol(s, sym),
    ensures
        is_first_with(s, sym, first_with(s, sym)),
{
    let k = choose|k: int| 0 <= k < s.len() && #[trigger] s[k].symbol == sym;
    lemma_first_exists_from(s, sym, k);
}

/// An upsert keeps the symbols of the catalog unique.
pub proof fn upsert_keeps_symbols_unique(s: Seq<EntryView>, e: EntryView)
    requires
        unique_symbols(s),
    ensures
        unique_symbols(upserted(s, e)),
        has_symbol(upserted(s, e), e.symbol),
{
    let r = upserted(s, e);
    if has_symbol(s, e.symbol) {
        lemma_first_with(s, e.symbol);
        let k = first_with(s, e.symbol);
        assert forall|i: int, j: int| 0 <= i < j < r.len() implies #[trigger] r[i].symbol
            != #[trigger] r[j].symbol by {
            assert(s[i].symbol != s[j].symbol);
        }
        assert(r[k].symbol == e.symbol);
    } else {
        assert forall|i: int, j: int| 0 <= i < j < r.len() implies #[trigger] r[i].symbol
            != #[trigger] r[j].symbol by {
            if j < s.len() {
                assert(s[i].symbol != s[j].symbol);
            } else {
                assert(s[i].symbol != e.symbol);
            }
        }
        assert(r[s.len() as int].symbol == e.symbol);
    }
}

/// Upserting two entries with the same symbol one after the other leaves
/// the catalog as upserting the latter alone: the entry keeps the position
/// that the first upsert gave it (its old position, or the end) and carries
/// the latest tags and category; a catalog with unique symbols holds exactly
/// one entry with that symbol afterwards.
pub proof fn upsert_twice_keeps_latest(s: Seq<EntryView>, e1: EntryView, e2: EntryView)
    requires
        e1.symbol == e2.symbol,
    ensures
        upserted(upserted(s, e1), e2) == upserted(s, e2),
        has_symbol(s, e1.symbol) ==> upserted(upserted(s, e1), e2) == s.update(
            first_with(s, e1.symbol),
            e2,
        ),
        !has_symbol(s, e1.symbol) ==> upserted(upserted(s, e1), e2) == s.push(e2),
        unique_symbols(s) ==> unique_symbols(upserted(upserted(s, e1), e2)),
        unique_symbols(s) ==> has_symbol(upserted(upserted(s, e1), e2), e2.symbol),
{
    let sym = e1.symbol;
    let t = upserted(s, e1);
    if has_symbol(s, sym) {
        lemma_first_with(s, sym);
        let k = first_with(s, sym);
        assert(is_first_with(t, sym, k));
        lemma_first_with_unique(t, sym, k);
        assert(upserted(t, e2) =~= s.update(k, e2));
    } else {
        let n = s.len() as int;
        assert forall|j: int| 0 <= j < n implies #[trigger] t[j].symbol != sym by {
            assert(s[j].symbol != sym);
        }
        assert(is_first_with(t, sym, n));
        lemma_first_with_unique(t, sym, n);
        assert(upserted(t, e2) =~= s.push(e2));
    }
    if unique_symbols(s) {
        upsert_keeps_symbols_unique(s, e1);
        upsert_keeps_symbols_unique(t, e2);
    }
}

/// After recording `e`, `e` is the first entry, no other entry carries its
/// symbol, and the list holds at most [`RECENTS_CAPACITY`] entries.
pub proof fn record_moves_to_front(s: Seq<EntryView>, e: EntryView)
    ensures
        recorded(s, e).len() >= 1,
        recorded(s, e).len() <= RECENTS_CAPACITY,
        recorded(s, e)[0] == e,
        forall|i: int| 1 <= i < recorded(s, e).len() ==> #[trigger] recorded(s, e)[i].symbol != e.symbol,
{
    let w = without_symbol(s, e.symbol);
    let r = recorded(s, e);
    assert forall|i: int| 1 <= i < r.len() implies #[trigger] r[i].symbol != e.symbol by {
        assert(r[i] == w[i - 1]);
        s.lemma_filter_pred(|x: EntryView| x.symbol != e.symbol, i - 1);
    }
}

/// The recents list after recording each entry of `es` in turn, starting
/// from `s`.
pub open spec fn recorded_all(s: Seq<EntryView>, es: Seq<EntryView>) -> Seq<EntryView>
    decreases es.len(),
{
    if es.len() == 0 {
        s
    } else {
        recorded(recorded_all(s, es.drop_last()), es.last())
    }
}

proof fn lemma_filter_keeps_all(s: Seq<EntryView>, sym: Seq<char>)
    requires
        forall|i: int| 0 <= i < s.len() ==> #[trigger] s[i].symbol != sym,
    ensures
        without_symbol(s, sym) == s,
    decreases s.len(),
{
    if s.len() > 0 {
        let p = s.drop_last();
        assert forall|i: int| 0 <= i < p.len() implies #[trigger] p[i].symbol != sym by {
            assert(p[i] == s[i]);
        }
        lemma_filter_keeps_all(p, sym);
        assert(s == p.push(s.last()));
        p.lemma_filter_push(s.last(), |x: EntryView| x.symbol != sym);
    } else {
        assert(without_symbol(s, sym) =~= s);
    }
}

/// Recording entries with distinct symbols into an empty recents list keeps
/// the latest [`RECENTS_CAPACITY`] of them, the most recent first: the older
/// ones are evicted.
pub proof fn recorded_distinct_keeps_latest(es: Seq<EntryView>)
    requires
        unique_symbols(es),
    ensures
        recorded_all(Seq::empty(), es).len() == if es.len() <= RECENTS_CAPACITY {
            es.len()
        } else {
            RECENTS_CAPACITY as nat
        },
        forall|i: int|
            0 <= i < recorded_all(Seq::empty(), es).len() ==> #[trigger] recorded_all(
                Seq::empty(),
                es,
            )[i] == es[es.len() - 1 - i],
    decreases es.len(),
{
    if es.len() > 0 {
        let p = es.drop_last();
        let e = es.last();
        let n = es.len() as int;
        assert(unique_symbols(p)) by {
            assert forall|i: int, j: int| 0 <= i < j < p.len() implies #[trigger] p[i].symbol
                != #[trigger] p[j].symbol by {
                assert(es[i].symbol != es[j].symbol);
            }
        }
        recorded_distinct_keeps_latest(p);
        let prev = recorded_all(Seq::empty(), p);
        assert forall|i: int| 0 <= i < prev.len() implies #[trigger] prev[i].symbol
            != e.symbol by {
            assert(prev[i] == es[n - 2 - i]);
            assert(es[n - 2 - i].symbol != es[n - 1].symbol);
        }
        lemma_filter_keeps_all(prev, e.symbol);
        let r = recorded_all(Seq::empty(), es);
        assert(r == recorded(prev, e));
        assert forall|i: int| 0 <= i < r.len() implies #[trigger] r[i] == es[n - 1 - i] by {
            if i > 0 {
                assert(r[i] == prev[i - 1]);
            }
        }
    }
}

/// Toggling an entry whose symbol is not a favorite appends it and reports
/// membership; toggling the same symbol again removes it, reports that it is
/// no longer a favorite, and gives the favorites back as they were.
pub proof fn toggle_twice_restores(s: Seq<EntryView>, e1: EntryView, e2: EntryView)
    requires
        !has_symbol(s, e1.symbol),
        e1.symbol == e2.symbol,
    ensures
        toggled(s, e1) == (s.push(e1), true),
        toggled(s.push(e1), e2) == (s, false),
{
    let t = s.push(e1);
    let n = s.len() as int;
    assert forall|j: int| 0 <= j < n implies #[trigger] t[j].symbol != e1.symbol by {
        assert(s[j].symbol != e1.symbol);
    }
    assert(is_first_with(t, e1.symbol, n));
    lemma_first_with_unique(t, e1.symbol, n);
    assert(t.remove(n) =~= s);
}

} // verus!
