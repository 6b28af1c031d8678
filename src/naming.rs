use vstd::prelude::*;
use vstd::string::StringExecFns;

verus! {

/// The decimal digit that stands for `d`.
pub open spec fn digit_char(d: nat) -> char {
    if d == 0 { '0' }
    else if d == 1 { '1' }
    else if d == 2 { '2' }
    else if d == 3 { '3' }
    else if d == 4 { '4' }
    else if d == 5 { '5' }
    else if d == 6 { '6' }
    else if d == 7 { '7' }
    else if d == 8 { '8' }
    else { '9' }
}

/// The decimal notation of `n`, without leading zeros.
pub open spec fn decimal(n: nat) -> Seq<char>
    decreases n,
{
    if n < 10 {
        seq![digit_char(n)]
    } else {
        decimal(n / 10).push(digit_char(n % 10))
    }
}

/// The name of the temporary sibling that a write of `name` goes through:
/// `<name>.<process id>.<time stamp>.tmp`.
pub open spec fn temp_name(name: Seq<char>, pid: nat, stamp: nat) -> Seq<char> {
    name + seq!['.'] + decimal(pid) + seq!['.'] + decimal(stamp) + seq!['.', 't', 'm', 'p']
}

/// The name that a corrupt file `name` is kept under:
/// `<name>.corrupt.<unix seconds>`.
pub open spec fn backup_name(name: Seq<char>, secs: nat) -> Seq<char> {
    name + seq!['.', 'c', 'o', 'r', 'r', 'u', 'p', 't', '.'] + decimal(secs)
}

proof fn lemma_decimal_shape(n: nat)
    ensures
        decimal(n).len() >= 1,
        n >= 10 ==> decimal(n).len() >= 2,
        forall|i: int| 0 <= i < decimal(n).len() ==> #[trigger] decimal(n)[i] != '.',
    decreases n,
{
    if n >= 10 {
        lemma_decimal_shape(n / 10);
        let p = decimal(n / 10);
        assert forall|i: int| 0 <= i < decimal(n).len() implies #[trigger] decimal(n)[i] != '.' by {
            if i < p.len() {
                assert(decimal(n)[i] == p[i]);
            }
        }
    }
}

proof fn lemma_decimal_injective(n: nat, m: nat)
    requires
        decimal(n) == decimal(m),
    ensures
        n == m,
    decreases n,
{
    lemma_decimal_shape(n);
    lemma_decimal_shape(m);
    if n >= 10 && m >= 10 {
        assert(decimal(n).drop_last() == decimal(n / 10));
        assert(decimal(m).drop_last() == decimal(m / 10));
        lemma_decimal_injective(n / 10, m / 10);
        assert(decimal(n).last() == digit_char(n % 10));
        assert(decimal(m).last() == digit_char(m % 10));
    } else if n < 10 && m < 10 {
        assert(decimal(n)[0] == digit_char(n));
        assert(decimal(m)[0] == digit_char(m));
    }
}

/// Two writers of the same file that differ in process id or in time stamp
/// never share a temporary file name.
pub proof fn temp_names_distinct(name: Seq<char>, pid1: nat, stamp1: nat, pid2: nat, stamp2: nat)
    requires
        pid1 != pid2 || stamp1 != stamp2,
    ensures
        temp_name(name, pid1, stamp1) != temp_name(name, pid2, stamp2),
{
    let t1 = temp_name(name, pid1, stamp1);
    let t2 = temp_name(name, pid2, stamp2);
    let d1 = decimal(pid1);
    let d2 = decimal(pid2);
    let e1 = decimal(stamp1);
    let e2 = decimal(stamp2);
    lemma_decimal_shape(pid1);
    lemma_decimal_shape(pid2);
    lemma_decimal_shape(stamp1);
    lemma_decimal_shape(stamp2);
    let a: int = name.len() as int + 1;
    if t1 == t2 {
        assert forall|i: int| 0 <= i < d1.len() implies t1[a + i] == d1[i] by {}
        assert forall|i: int| 0 <= i < d2.len() implies t2[a + i] == d2[i] by {}
        assert(t1[a + d1.len() as int] == '.');
        assert(t2[a + d2.len() as int] == '.');
        if d1.len() < d2.len() {
            assert(t2[a + d1.len() as int] == d2[d1.len() as int]);
        }
        if d2.len() < d1.len() {
            assert(t1[a + d2.len() as int] == d1[d2.len() as int]);
        }
        assert(d1.len() == d2.len());
        assert(d1 =~= d2) by {
            assert forall|i: int| 0 <= i < d1.len() implies d1[i] == d2[i] by {
                assert(t1[a + i] == t2[a + i]);
            }
        }
        lemma_decimal_injective(pid1, pid2);
        let b: int = a + d1.len() as int + 1;
        assert(t1.len() == t2.len());
        assert(e1.len() == e2.len());
        assert(e1 =~= e2) by {
            assert forall|i: int| 0 <= i < e1.len() implies e1[i] == e2[i] by {
                assert(t1[b + i] == e1[i]);
                assert(t2[b + i] == e2[i]);
            }
        }
        lemma_decimal_injective(stamp1, stamp2);
    }
}

fn digit_text(d: u8) -> (r: &'static str)
    requires
        d < 10,
    ensures
        r@ == seq![digit_char(d as nat)],
{
    match d {
        0 => { proof { reveal_strlit("0"); } "0" },
        1 => { proof { reveal_strlit("1"); } "1" },
        2 => { proof { reveal_strlit("2"); } "2" },
        3 => { proof { reveal_strlit("3"); } "3" },
        4 => { proof { reveal_strlit("4"); } "4" },
        5 => { proof { reveal_strlit("5"); } "5" },
        6 => { proof { reveal_strlit("6"); } "6" },
        7 => { proof { reveal_strlit("7"); } "7" },
        8 => { proof { reveal_strlit("8"); } "8" },
        _ => { proof { reveal_strlit("9"); } "9" },
    }
}

/// The decimal notation of `n`.
pub fn decimal_text(n: u128) -> (r: String)
    ensures
        r@ == decimal(n as nat),
    decreases n,
{
    if n < 10 {
        String::from_str(digit_text(n as u8))
    } else {
        let mut s = decimal_text(n / 10);
        s.append(digit_text((n % 10) as u8));
        s
    }
}

/// The name of the temporary file that a durable write of the file `name`
/// goes through, unique to the writing process and the moment.
pub fn temp_file_name(name: &str, pid: u32, stamp: u128) -> (r: String)
    ensures
        r@ == temp_name(name@, pid as nat, stamp as nat),
{
    let mut r = String::from_str(name);
    proof { reveal_strlit("."); }
    r.append(".");
    r.append(decimal_text(pid as u128).as_str());
    r.append(".");
    r.append(decimal_text(stamp).as_str());
    proof { reveal_strlit(".tmp"); }
    r.append(".tmp");
    r
}

/// The name under which the corrupt file `name` is kept, found corrupt at
/// `secs` seconds after the Unix epoch.
pub fn backup_file_name(name: &str, secs: u64) -> (r: String)
    ensures
        r@ == backup_name(name@, secs as nat),
{
    let mut r = String::from_str(name);
    proof { reveal_strlit(".corrupt."); }
    r.append(".corrupt.");
    r.append(decimal_text(secs as u128).as_str());
    r
}

/// One of the three lists, each kept in a file of its own.
#[derive(Debug, Clone, Copy, PartialEq, Eq, Structural)]
pub enum Collection {
    /// The user's catalog of entries, keyed by symbol.
    Catalog,
    /// The most recently used entries, the latest first.
    Recents,
    /// The favorite entries.
    Favorites,
}

/// The name of the file that holds `c`.
pub open spec fn collection_file(c: Collection) -> Seq<char> {
    match c {
        Collection::Catalog => "kaomojis.user.json"@,
        Collection::Recents => "kaomojis.recents.json"@,
        Collection::Favorites => "kaomojis.favorites.json"@,
    }
}

impl Collection {
    /// The name of the file that holds this list, within the application's
    /// data directory.
    pub fn file_name(&self) -> (r: &'static str)
        ensures
            r@ == collection_file(*self),
    {
        match self {
            Collection::Catalog => "kaomojis.user.json",
            Collection::Recents => "kaomojis.recents.json",
            Collection::Favorites => "kaomojis.favorites.json",
        }
    }
}

} // verus!
