//! The public room directory: search filtering, ordering by member count and
//! pagination with `n<offset>` / `p<offset>` batch tokens.
use vstd::prelude::*;
use vstd::string::*;
use crate::error::{Error, ErrorKind};
use crate::text::{
    chars_of, decimal_digits, format_u64, lowercase, parse_u64, parse_u64_spec, seq_contains,
    str_contains, to_lowercase,
};

verus! {

broadcast use vstd::seq_lib::group_to_multiset_ensures;

/// One room of the directory, as the directory lists it.
#[derive(Debug, Clone)]
pub struct PublicRoomsChunk {
    pub room_id: String,
    pub name: Option<String>,
    pub topic: Option<String>,
    pub canonical_alias: Option<String>,
    pub avatar_url: Option<String>,
    pub num_joined_members: u64,
    pub world_readable: bool,
    pub guest_can_join: bool,
}

/// One page of the directory.
#[derive(Debug, Clone)]
pub struct PublicRoomsPage {
    pub chunk: Vec<PublicRoomsChunk>,
    pub prev_batch: Option<String>,
    pub next_batch: Option<String>,
    pub total_room_count_estimate: u64,
}

/// The page size used when the request gives none.
pub open spec fn default_limit() -> u64 {
    10
}

// ---------------------------------------------------------------------------
// Batch tokens
// ---------------------------------------------------------------------------

/// The offset that a `since` token names, for a page of `limit` rooms: `n<k>`
/// starts at `k`, `p<k>` at `k - limit` (not below zero); no token starts at 0.
/// A refusal comes with its message.
pub open spec fn since_offset_spec(since: Option<Seq<char>>, limit: u64) -> Result<
    u64,
    (ErrorKind, Seq<char>),
> {
    match since {
        None => Ok(0),
        Some(s) => if s.len() > 0 && (s[0] == 'n' || s[0] == 'p') {
            match parse_u64_spec(s.drop_first()) {
                Some(k) => if s[0] == 'p' {
                    Ok(if k >= limit { (k - limit) as u64 } else { 0 })
                } else {
                    Ok(k)
                },
                None => Err((ErrorKind::InvalidParam, "Invalid `since` token."@)),
            }
        } else {
            Err((ErrorKind::InvalidParam, "Invalid `since` token"@))
        },
    }
}

/// The token of the next page: `n` and the offset.
pub open spec fn next_token_spec(offset: nat) -> Seq<char> {
    seq!['n'] + decimal_digits(offset)
}

/// The token of the previous page: `p` and the offset.
pub open spec fn prev_token_spec(offset: nat) -> Seq<char> {
    seq!['p'] + decimal_digits(offset)
}

/// The offset that a `since` token names for pages of `limit` rooms
/// (`InvalidParam` for a token that is neither `n<u64>` nor `p<u64>`).
pub fn since_offset(since: Option<&str>, limit: u64) -> (r: Result<u64, Error>)
    ensures
        match since_offset_spec(
            match since {
                Some(s) => Some(s@),
                None => None,
            },
            limit,
        ) {
            Ok(k) => r == Ok::<u64, Error>(k),
            Err((kind, msg)) => r matches Err(e) && e.kind == kind && e.message@ == msg,
        },
{
    match since {
        None => Ok(0),
        Some(s) => {
            let v = chars_of(s);
            if v.len() == 0 || (v[0] != 'n' && v[0] != 'p') {
                return Err(Error::new(ErrorKind::InvalidParam, "Invalid `since` token"));
            }
            let backwards = v[0] == 'p';
            let rest = s.substring_char(1, v.len());
            assert(rest@ =~= s@.drop_first());
            match parse_u64(rest) {
                Some(k) => {
                    if backwards {
                        Ok(k.saturating_sub(limit))
                    } else {
                        Ok(k)
                    }
                },
                None => Err(Error::new(ErrorKind::InvalidParam, "Invalid `since` token.")),
            }
        },
    }
}

/// The token of the page that starts at `offset` (`n<offset>`).
pub fn next_token(offset: u64) -> (s: String)
    ensures
        s@ == next_token_spec(offset as nat),
{
    let n = String::from_str("n");
    proof {
        reveal_strlit("n");
    }
    let s = n.concat(format_u64(offset).as_str());
    assert(s@ =~= next_token_spec(offset as nat));
    s
}

/// The token of the page that ends before `offset` (`p<offset>`).
pub fn prev_token(offset: u64) -> (s: String)
    ensures
        s@ == prev_token_spec(offset as nat),
{
    let p = String::from_str("p");
    proof {
        reveal_strlit("p");
    }
    let s = p.concat(format_u64(offset).as_str());
    assert(s@ =~= prev_token_spec(offset as nat));
    s
}

/// A next-page token names its offset and a previous-page token names its
/// offset less one page: following `next` and then `prev` comes back.
pub proof fn lemma_tokens_round_trip(offset: u64, limit: u64)
    ensures
        since_offset_spec(Some(next_token_spec(offset as nat)), limit) == Ok::<u64, (ErrorKind, Seq<char>)>(
            offset,
        ),
        since_offset_spec(Some(prev_token_spec(offset as nat)), limit) == Ok::<u64, (ErrorKind, Seq<char>)>(
            if offset >= limit {
                (offset - limit) as u64
            } else {
                0
            },
        ),
{
    crate::text::lemma_parse_format_u64(offset);
    assert(next_token_spec(offset as nat).drop_first() =~= decimal_digits(offset as nat));
    assert(prev_token_spec(offset as nat).drop_first() =~= decimal_digits(offset as nat));
}

// ---------------------------------------------------------------------------
// Search
// ---------------------------------------------------------------------------

/// An optional text field contains the (lower-cased) query once lower-cased.
pub open spec fn field_matches(field: Option<String>, query: Seq<char>) -> bool {
    match field {
        Some(f) => seq_contains(lowercase(f@), query),
        None => false,
    }
}

/// A room matches a search term when its name, topic or canonical alias
/// contains the term, ignoring case; every room matches when there is none.
pub open spec fn room_matches(c: PublicRoomsChunk, term: Option<Seq<char>>) -> bool {
    match term {
        None => true,
        Some(t) => {
            let q = lowercase(t);
            field_matches(c.name, q) || field_matches(c.topic, q) || field_matches(
                c.canonical_alias,
                q,
            )
        },
    }
}

/// The rooms of `s` that match `term`, in order.
pub open spec fn matching_rooms(s: Seq<PublicRoomsChunk>, term: Option<Seq<char>>) -> Seq<
    PublicRoomsChunk,
>
    decreases s.len(),
{
    if s.len() == 0 {
        s
    } else if room_matches(s.last(), term) {
        matching_rooms(s.drop_last(), term).push(s.last())
    } else {
        matching_rooms(s.drop_last(), term)
    }
}

fn field_matches_exec(field: &Option<String>, query: &str) -> (r: bool)
    ensures
        r == field_matches(*field, query@),
{
    match field {
        Some(f) => {
            let l = to_lowercase(f.as_str());
            str_contains(l.as_str(), query)
        },
        None => false,
    }
}

/// A room the filter keeps is one of the given rooms.
proof fn lemma_matching_from_input(s: Seq<PublicRoomsChunk>, term: Option<Seq<char>>)
    ensures
        forall|i: int|
            0 <= i < matching_rooms(s, term).len() ==> s.contains(
                #[trigger] matching_rooms(s, term)[i],
            ) && room_matches(matching_rooms(s, term)[i], term),
    decreases s.len(),
{
    if s.len() > 0 {
        lemma_matching_from_input(s.drop_last(), term);
        let m0 = matching_rooms(s.drop_last(), term);
        assert forall|i: int| 0 <= i < matching_rooms(s, term).len() implies s.contains(
            #[trigger] matching_rooms(s, term)[i],
        ) && room_matches(matching_rooms(s, term)[i], term) by {
            if i < m0.len() {
                assert(matching_rooms(s, term)[i] == m0[i]);
                let j = choose|j: int| 0 <= j < s.drop_last().len() && s.drop_last()[j] == m0[i];
                assert(s[j] == s.drop_last()[j]);
            } else {
                assert(matching_rooms(s, term)[i] == s.last());
                assert(s[s.len() - 1] == s.last());
            }
        }
    }
}

/// Every given room that matches is kept.
proof fn lemma_matching_keeps(s: Seq<PublicRoomsChunk>, term: Option<Seq<char>>, j: int)
    requires
        0 <= j < s.len(),
        room_matches(s[j], term),
    ensures
        matching_rooms(s, term).contains(s[j]),
    decreases s.len(),
{
    let m = matching_rooms(s, term);
    if j == s.len() - 1 {
        assert(s.last() == s[j]);
        assert(m[m.len() - 1] == s[j]);
    } else {
        assert(s.drop_last()[j] == s[j]);
        lemma_matching_keeps(s.drop_last(), term, j);
        let m0 = matching_rooms(s.drop_last(), term);
        let k = choose|k: int| 0 <= k < m0.len() && m0[k] == s[j];
        assert(m[k] == m0[k]);
    }
}

/// A text field holds the term, ignoring case.
pub open spec fn holds_term(field: Option<String>, term: Seq<char>) -> bool {
    field matches Some(f) && seq_contains(lowercase(f@), lowercase(term))
}

/// The search of the directory: without a term every room is kept; with one,
/// a room is kept exactly when its name, its topic or its canonical alias
/// holds the term, ignoring case. Kept rooms are given rooms.
pub proof fn lemma_search_keeps_matching_rooms(s: Seq<PublicRoomsChunk>, term: Option<Seq<char>>)
    ensures
        term is None ==> matching_rooms(s, term) == s,
        forall|j: int|
            0 <= j < s.len() && term is Some && (holds_term(s[j].name, term.unwrap()) || holds_term(
                s[j].topic,
                term.unwrap(),
            ) || holds_term(s[j].canonical_alias, term.unwrap())) ==> matching_rooms(s, term).contains(
                #[trigger] s[j],
            ),
        forall|i: int|
            0 <= i < matching_rooms(s, term).len() ==> s.contains(
                #[trigger] matching_rooms(s, term)[i],
            ) && (term is Some ==> (holds_term(matching_rooms(s, term)[i].name, term.unwrap())
                || holds_term(matching_rooms(s, term)[i].topic, term.unwrap()) || holds_term(
                matching_rooms(s, term)[i].canonical_alias,
                term.unwrap(),
            ))),
    decreases s.len(),
{
    lemma_matching_from_input(s, term);
    assert forall|j: int|
        0 <= j < s.len() && term is Some && (holds_term(s[j].name, term.unwrap()) || holds_term(
            s[j].topic,
            term.unwrap(),
        ) || holds_term(s[j].canonical_alias, term.unwrap())) implies matching_rooms(s, term).contains(
        #[trigger] s[j],
    ) by {
        lemma_matching_keeps(s, term, j);
    }
    if term is None {
        lemma_matching_all(s, term);
    }
}

proof fn lemma_matching_all(s: Seq<PublicRoomsChunk>, term: Option<Seq<char>>)
    requires
        term is None,
    ensures
        matching_rooms(s, term) == s,
    decreases s.len(),
{
    if s.len() > 0 {
        lemma_matching_all(s.drop_last(), term);
        assert(s.drop_last().push(s.last()) =~= s);
    }
}

/// Keeps the rooms whose name, topic or canonical alias contains the search
/// term, ignoring case.
pub fn filter_rooms(rooms: Vec<PublicRoomsChunk>, term: Option<&str>) -> (out: Vec<PublicRoomsChunk>)
    ensures
        out@ == matching_rooms(
            rooms@,
            match term {
                Some(t) => Some(t@),
                None => None,
            },
        ),
        term is None ==> out@ == rooms@,
        forall|j: int|
            0 <= j < rooms@.len() && term is Some && (holds_term(rooms@[j].name, term.unwrap()@)
                || holds_term(rooms@[j].topic, term.unwrap()@) || holds_term(
                rooms@[j].canonical_alias,
                term.unwrap()@,
            ))
                ==> out@.contains(#[trigger] rooms@[j]),
        forall|i: int|
            0 <= i < out@.len() ==> rooms@.contains(#[trigger] out@[i]) && (term is Some ==> (holds_term(
                out@[i].name,
                term.unwrap()@,
            ) || holds_term(out@[i].topic, term.unwrap()@) || holds_term(
                out@[i].canonical_alias,
                term.unwrap()@,
            ))),
{
    proof {
        lemma_search_keeps_matching_rooms(
            rooms@,
            match term {
                Some(t) => Some(t@),
                None => None,
            },
        );
    }
    let ghost t = match term {
        Some(t) => Some(t@),
        None => None,
    };
    let query: Option<String> = match term {
        Some(t) => Some(to_lowercase(t)),
        None => None,
    };
    let mut out: Vec<PublicRoomsChunk> = Vec::new();
    let mut rest = rooms;
    let ghost orig = rest@;
    let mut i: usize = 0;
    let n0 = rest.len();
    while rest.len() > 0
        invariant
            orig.len() == i + rest@.len(),
            orig.len() == n0,
            rest@ == orig.skip(i as int),
            out@ == matching_rooms(orig.take(i as int), t),
            t == match term {
                Some(t) => Some(t@),
                None => None::<Seq<char>>,
            },
            match t {
                Some(tt) => query matches Some(q) && q@ == lowercase(tt),
                None => query is None,
            },
        decreases rest.len(),
    {
        let c = rest.remove(0);
        assert(c == orig[i as int]);
        assert(orig.take(i + 1).drop_last() =~= orig.take(i as int));
        assert(orig.take(i + 1).last() == c);
        let keep = match &query {
            None => true,
            Some(q) => {
                field_matches_exec(&c.name, q.as_str()) || field_matches_exec(
                    &c.topic,
                    q.as_str(),
                ) || field_matches_exec(&c.canonical_alias, q.as_str())
            },
        };
        assert(keep == room_matches(c, t));
        if keep {
            out.push(c);
        }
        i = i + 1;
        assert(rest@ =~= orig.skip(i as int));
    }
    assert(orig.take(i as int) =~= orig);
    out
}

// ---------------------------------------------------------------------------
// Ordering by member count
// ---------------------------------------------------------------------------

/// The sort key: the number of joined members.
pub open spec fn members(c: PublicRoomsChunk) -> u64 {
    c.num_joined_members
}

/// Ordered by member count, most members first.
pub open spec fn sorted_by_members_desc(s: Seq<PublicRoomsChunk>) -> bool {
    forall|i: int, j: int| 0 <= i < j < s.len() ==> members(s[i]) >= members(s[j])
}

/// Where a room with `k` members goes in a list ordered by member count:
/// after every room with at least `k` members.
pub open spec fn insert_pos(s: Seq<PublicRoomsChunk>, k: u64) -> int
    decreases s.len(),
{
    if s.len() == 0 {
        0
    } else if members(s[0]) < k {
        0
    } else {
        1 + insert_pos(s.drop_first(), k)
    }
}

/// Ordering by member count that keeps rooms with equal counts in their
/// given order (a stable sort, most members first).
pub open spec fn sort_by_members(s: Seq<PublicRoomsChunk>) -> Seq<PublicRoomsChunk>
    decreases s.len(),
{
    if s.len() == 0 {
        s
    } else {
        let t = sort_by_members(s.drop_last());
        t.insert(insert_pos(t, members(s.last())), s.last())
    }
}

proof fn lemma_insert_pos_unique(s: Seq<PublicRoomsChunk>, k: u64, p: int)
    requires
        0 <= p <= s.len(),
        forall|j: int| 0 <= j < p ==> members(#[trigger] s[j]) >= k,
        p < s.len() ==> members(s[p]) < k,
    ensures
        insert_pos(s, k) == p,
    decreases s.len(),
{
    if s.len() > 0 && p > 0 {
        assert(members(s[0]) >= k);
        assert forall|j: int| 0 <= j < p - 1 implies members(#[trigger] s.drop_first()[j]) >= k by {
            assert(members(s[j + 1]) >= k);
        }
        lemma_insert_pos_unique(s.drop_first(), k, p - 1);
    }
}

proof fn lemma_insert_sorted(s: Seq<PublicRoomsChunk>, x: PublicRoomsChunk, p: int)
    requires
        sorted_by_members_desc(s),
        0 <= p <= s.len(),
        forall|j: int| 0 <= j < p ==> members(#[trigger] s[j]) >= members(x),
        p < s.len() ==> members(s[p]) < members(x),
    ensures
        sorted_by_members_desc(s.insert(p, x)),
{
    let t = s.insert(p, x);
    assert forall|i: int, j: int| 0 <= i < j < t.len() implies members(t[i]) >= members(t[j]) by {
        if i < p {
            if j < p {
            } else if j == p {
            } else {
                assert(t[j] == s[j - 1]);
            }
        } else if i == p {
            assert(t[j] == s[j - 1]);
            assert(members(s[p]) >= members(s[j - 1]) || j - 1 == p);
        } else {
            assert(t[i] == s[i - 1]);
            assert(t[j] == s[j - 1]);
        }
    }
}

proof fn lemma_insert_pos_props(s: Seq<PublicRoomsChunk>, k: u64)
    ensures
        0 <= insert_pos(s, k) <= s.len(),
        forall|j: int| 0 <= j < insert_pos(s, k) ==> members(#[trigger] s[j]) >= k,
        insert_pos(s, k) < s.len() ==> members(s[insert_pos(s, k)]) < k,
    decreases s.len(),
{
    if s.len() > 0 && members(s[0]) >= k {
        lemma_insert_pos_props(s.drop_first(), k);
        assert forall|j: int| 0 <= j < insert_pos(s, k) implies members(#[trigger] s[j]) >= k by {
            if j > 0 {
                assert(s[j] == s.drop_first()[j - 1]);
            }
        }
    }
}

/// The stable ordering by member count is ordered, most members first, and
/// holds the same rooms as its input.
pub proof fn lemma_sort_by_members(s: Seq<PublicRoomsChunk>)
    ensures
        sorted_by_members_desc(sort_by_members(s)),
        sort_by_members(s).to_multiset() == s.to_multiset(),
        sort_by_members(s).len() == s.len(),
    decreases s.len(),
{
    if s.len() > 0 {
        let t = sort_by_members(s.drop_last());
        lemma_sort_by_members(s.drop_last());
        let p = insert_pos(t, members(s.last()));
        lemma_insert_pos_props(t, members(s.last()));
        lemma_insert_sorted(t, s.last(), p);
        assert(s =~= s.drop_last().push(s.last()));
        vstd::seq_lib::to_multiset_insert(t, p, s.last());
    }
}

/// The rooms with exactly `k` members, in order.
pub open spec fn with_members(s: Seq<PublicRoomsChunk>, k: u64) -> Seq<PublicRoomsChunk>
    decreases s.len(),
{
    if s.len() == 0 {
        Seq::empty()
    } else if members(s.last()) == k {
        with_members(s.drop_last(), k).push(s.last())
    } else {
        with_members(s.drop_last(), k)
    }
}

proof fn lemma_with_members_concat(a: Seq<PublicRoomsChunk>, b: Seq<PublicRoomsChunk>, k: u64)
    ensures
        with_members(a + b, k) == with_members(a, k) + with_members(b, k),
    decreases b.len(),
{
    if b.len() == 0 {
        assert(a + b =~= a);
        assert(with_members(a, k) + with_members(b, k) =~= with_members(a, k));
    } else {
        lemma_with_members_concat(a, b.drop_last(), k);
        assert((a + b).drop_last() =~= a + b.drop_last());
        assert((a + b).last() == b.last());
        if members(b.last()) == k {
            assert(with_members(a, k) + with_members(b.drop_last(), k).push(b.last()) =~= (
            with_members(a, k) + with_members(b.drop_last(), k)).push(b.last()));
        }
    }
}

proof fn lemma_with_members_none(s: Seq<PublicRoomsChunk>, k: u64)
    requires
        forall|j: int| 0 <= j < s.len() ==> members(#[trigger] s[j]) != k,
    ensures
        with_members(s, k) == Seq::<PublicRoomsChunk>::empty(),
    decreases s.len(),
{
    if s.len() > 0 {
        assert(members(s[s.len() - 1]) != k);
        lemma_with_members_none(s.drop_last(), k);
    }
}

/// The ordering by member count is stable: the rooms with any one member
/// count come out in the order they came in.
pub proof fn lemma_sort_is_stable(s: Seq<PublicRoomsChunk>, k: u64)
    ensures
        with_members(sort_by_members(s), k) == with_members(s, k),
    decreases s.len(),
{
    if s.len() > 0 {
        let x = s.last();
        let t = sort_by_members(s.drop_last());
        lemma_sort_is_stable(s.drop_last(), k);
        lemma_sort_by_members(s.drop_last());
        let p = insert_pos(t, members(x));
        lemma_insert_pos_props(t, members(x));
        let ins = t.insert(p, x);
        assert(ins =~= t.take(p) + seq![x] + t.skip(p));
        assert(t =~= t.take(p) + t.skip(p));
        lemma_with_members_concat(t.take(p) + seq![x], t.skip(p), k);
        lemma_with_members_concat(t.take(p), seq![x], k);
        lemma_with_members_concat(t.take(p), t.skip(p), k);
        assert(seq![x].drop_last() =~= Seq::<PublicRoomsChunk>::empty());
        assert(seq![x].last() == x);
        assert(with_members(Seq::<PublicRoomsChunk>::empty(), k) =~= Seq::<PublicRoomsChunk>::empty());
        assert(with_members(seq![x].drop_last(), k) =~= Seq::<PublicRoomsChunk>::empty());
        if members(x) == k {
            assert forall|j: int| 0 <= j < t.skip(p).len() implies members(
                #[trigger] t.skip(p)[j],
            ) != k by {
                assert(t.skip(p)[j] == t[p + j]);
                if j > 0 {
                    assert(members(t[p]) >= members(t[p + j]));
                }
            }
            lemma_with_members_none(t.skip(p), k);
            assert(with_members(seq![x], k) =~= seq![x]);
            assert(with_members(ins, k) =~= with_members(t, k).push(x));
        } else {
            assert(with_members(seq![x], k) =~= Seq::<PublicRoomsChunk>::empty());
            assert(with_members(ins, k) =~= with_members(t, k));
        }
    }
}

/// Orders rooms by member count, most members first, keeping rooms with
/// equal counts in their given order.
pub fn sort_rooms(rooms: Vec<PublicRoomsChunk>) -> (out: Vec<PublicRoomsChunk>)
    ensures
        out@ == sort_by_members(rooms@),
        sorted_by_members_desc(out@),
        out@.to_multiset() == rooms@.to_multiset(),
{
    let ghost orig = rooms@;
    let mut rest = rooms;
    let mut out: Vec<PublicRoomsChunk> = Vec::new();
    let mut i: usize = 0;
    let n0 = rest.len();
    while rest.len() > 0
        invariant
            orig.len() == i + rest@.len(),
            orig.len() == n0,
            rest@ == orig.skip(i as int),
            out@ == sort_by_members(orig.take(i as int)),
        decreases rest.len(),
    {
        let c = rest.remove(0);
        assert(c == orig[i as int]);
        let k = c.num_joined_members;
        let mut p: usize = 0;
        while p < out.len() && out[p].num_joined_members >= k
            invariant
                p <= out@.len(),
                forall|j: int| 0 <= j < p ==> members(#[trigger] out@[j]) >= k,
            decreases out.len() - p,
        {
            p = p + 1;
        }
        proof {
            lemma_insert_pos_unique(out@, k, p as int);
            assert(orig.take(i + 1).drop_last() =~= orig.take(i as int));
            assert(orig.take(i + 1).last() == c);
        }
        out.insert(p, c);
        i = i + 1;
        assert(rest@ =~= orig.skip(i as int));
    }
    assert(orig.take(i as int) =~= orig);
    proof {
        lemma_sort_by_members(orig);
    }
    out
}

// ---------------------------------------------------------------------------
// Pages
// ---------------------------------------------------------------------------

/// The rooms of one page: `limit` rooms starting at `offset` (fewer at the
/// end of the list).
pub open spec fn page_of(s: Seq<PublicRoomsChunk>, offset: u64, limit: u64) -> Seq<PublicRoomsChunk> {
    if offset >= s.len() {
        Seq::empty()
    } else if offset + limit >= s.len() {
        s.skip(offset as int)
    } else {
        s.subrange(offset as int, offset + limit)
    }
}

/// Consecutive pages tile the list: the page at `offset` followed by the
/// page its next-page token leads to holds the rooms from `offset` on, two
/// pages' worth (fewer at the end), each room once and in order.
pub proof fn lemma_pages_tile(s: Seq<PublicRoomsChunk>, offset: u64, limit: u64)
    requires
        offset + limit + limit <= u64::MAX,
    ensures
        page_of(s, offset, limit) + page_of(s, (offset + limit) as u64, limit) == page_of(
            s,
            offset,
            (limit + limit) as u64,
        ),
{
    let a = page_of(s, offset, limit);
    let b = page_of(s, (offset + limit) as u64, limit);
    let c = page_of(s, offset, (limit + limit) as u64);
    assert(a + b =~= c);
}

/// Paging forward and then back returns the same page: the next-page token
/// of the page at `offset` names `offset + limit`, that page's
/// previous-page token names `offset` again, and so the page it leads to is
/// the page at `offset`.
pub proof fn lemma_forward_then_back(s: Seq<PublicRoomsChunk>, offset: u64, limit: u64)
    requires
        offset + limit <= u64::MAX,
        limit >= 1,
    ensures
        since_offset_spec(Some(next_token_spec((offset + limit) as nat)), limit) == Ok::<
            u64,
            (ErrorKind, Seq<char>),
        >((offset + limit) as u64),
        since_offset_spec(Some(prev_token_spec((offset + limit) as nat)), limit) == Ok::<
            u64,
            (ErrorKind, Seq<char>),
        >(offset),
        page_of(s, offset, limit) == page_of(
            s,
            match since_offset_spec(Some(prev_token_spec((offset + limit) as nat)), limit) {
                Ok(k) => k,
                Err(_) => 0,
            },
            limit,
        ),
{
    lemma_tokens_round_trip((offset + limit) as u64, limit);
}

/// The page of the directory that a request asks for: the matching rooms,
/// most members first, `limit` (default 10) of them from the offset that
/// `since` names; a previous-page token when the page does not start at 0, a
/// next-page token when the page is full, and the number of matching rooms
/// (cut to 32 bits).
pub fn get_public_rooms_filtered_helper(
    rooms: Vec<PublicRoomsChunk>,
    limit: Option<u64>,
    since: Option<&str>,
    search_term: Option<&str>,
) -> (r: Result<PublicRoomsPage, Error>)
    requires
        match limit {
            Some(l) => l <= 0x1f_ffff_ffff_ffff,
            None => true,
        },
        rooms@.len() + match limit {
            Some(l) => l,
            None => default_limit(),
        } <= u64::MAX,
    ensures
        ({
            let lim = match limit {
                Some(l) => l,
                None => default_limit(),
            };
            let term = match search_term {
                Some(t) => Some(t@),
                None => None,
            };
            let s = match since {
                Some(s) => Some(s@),
                None => None,
            };
            match since_offset_spec(s, lim) {
                Err((kind, msg)) => r matches Err(e) && e.kind == kind && e.message@ == msg,
                Ok(offset) => r matches Ok(page) && {
                    let all = sort_by_members(matching_rooms(rooms@, term));
                    &&& page.chunk@ == page_of(all, offset, lim)
                    &&& page.total_room_count_estimate == all.len() % 4294967296
                    &&& (offset == 0 ==> page.prev_batch is None)
                    &&& (offset != 0 ==> (page.prev_batch matches Some(p) && p@ == prev_token_spec(
                        offset as nat,
                    )))
                    &&& (page.chunk@.len() < lim ==> page.next_batch is None)
                    &&& (page.chunk@.len() >= lim ==> (page.next_batch matches Some(n) && n@
                        == next_token_spec((offset + lim) as nat)))
                },
            }
        }),
{
    let lim = match limit {
        Some(l) => l,
        None => 10,
    };
    let offset = match since_offset(since, lim) {
        Ok(k) => k,
        Err(e) => {
            return Err(e);
        },
    };
    let filtered = filter_rooms(rooms, search_term);
    let all = sort_rooms(filtered);
    proof {
        lemma_sort_by_members(matching_rooms(rooms@, match search_term {
            Some(t) => Some(t@),
            None => None,
        }));
        lemma_matching_len(rooms@, match search_term {
            Some(t) => Some(t@),
            None => None,
        });
    }
    let total = all.len() as u64;
    let ghost all_s = all@;
    let mut chunk: Vec<PublicRoomsChunk> = Vec::new();
    let mut rest = all;
    let mut idx: u64 = 0;
    while rest.len() > 0 && (idx < offset || idx - offset < lim)
        invariant
            all_s.len() == total,
            total + lim <= u64::MAX,
            lim <= 0x1f_ffff_ffff_ffff,
            idx <= total,
            idx + rest@.len() == total,
            rest@ == all_s.skip(idx as int),
            idx <= offset ==> chunk@.len() == 0,
            idx > offset ==> chunk@ == all_s.subrange(offset as int, idx as int),
            idx <= offset + lim,
        decreases rest.len(),
    {
        let c = rest.remove(0);
        assert(c == all_s[idx as int]);
        if idx >= offset {
            chunk.push(c);
            proof {
                if idx == offset {
                    assert(chunk@ =~= all_s.subrange(offset as int, idx + 1));
                } else {
                    assert(chunk@ =~= all_s.subrange(offset as int, idx + 1));
                }
            }
        }
        idx = idx + 1;
        assert(rest@ =~= all_s.skip(idx as int));
    }
    proof {
        if offset >= total {
            assert(chunk@.len() == 0);
        } else if offset + lim >= total {
            assert(idx == total);
            assert(chunk@ =~= all_s.skip(offset as int));
        } else {
            assert(idx == offset + lim);
        }
    }
    let prev_batch = if offset == 0 {
        None
    } else {
        Some(prev_token(offset))
    };
    let next_batch = if (chunk.len() as u64) < lim {
        None
    } else {
        assert(lim == 0 || offset < total);
        Some(next_token(offset + lim))
    };
    Ok(
        PublicRoomsPage {
            chunk,
            prev_batch,
            next_batch,
            total_room_count_estimate: total % 4294967296,
        },
    )
}

proof fn lemma_matching_len(s: Seq<PublicRoomsChunk>, term: Option<Seq<char>>)
    ensures
        matching_rooms(s, term).len() <= s.len(),
    decreases s.len(),
{
    if s.len() > 0 {
        lemma_matching_len(s.drop_last(), term);
    }
}

/// Whether a directory request names another server, whose directory is
/// then asked instead of this one.
pub fn is_remote_directory(server: Option<&str>, our_server: &str) -> (r: bool)
    ensures
        r == match server {
            Some(s) => s@ != our_server@,
            None => false,
        },
{
    match server {
        Some(s) => !crate::text::str_eq(s, our_server),
        None => false,
    }
}

/// The visibility a client asks a room to have in the directory.
#[derive(Debug, Clone, Copy, PartialEq, Eq, Structural)]
pub enum DirectoryVisibility {
    Public,
    Private,
    Custom,
}

/// Whether the room is published: yes for public, no for private; other
/// visibilities are refused (`InvalidParam`).
pub fn set_room_visibility(v: DirectoryVisibility) -> (r: Result<bool, Error>)
    ensures
        v == DirectoryVisibility::Public ==> r == Ok::<bool, Error>(true),
        v == DirectoryVisibility::Private ==> r == Ok::<bool, Error>(false),
        v == DirectoryVisibility::Custom ==> (r matches Err(e) && e.kind == ErrorKind::InvalidParam
            && e.message@ == "Room visibility type is not supported."@),
{
    match v {
        DirectoryVisibility::Public => Ok(true),
        DirectoryVisibility::Private => Ok(false),
        DirectoryVisibility::Custom => Err(
            Error::new(ErrorKind::InvalidParam, "Room visibility type is not supported."),
        ),
    }
}

} // verus!
