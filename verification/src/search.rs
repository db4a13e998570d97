//! Searching: merging the hits of several rooms, newest first, into pages,
//! reading the page token, the terms to highlight, and the user directory.
use vstd::prelude::*;
use vstd::string::*;
use crate::error::{Error, ErrorKind};
use crate::text::{
    lowercase, parse_u64, parse_u64_spec, seq_contains, str_contains, to_lowercase,
};

verus! {

// ---------------------------------------------------------------------------
// Merging the hits of several rooms
// ---------------------------------------------------------------------------

/// A hit, by the position of its event: the room's number, then the
/// event's count. Hits compare by room first, then by count.
pub type Hit = (u64, u64);

/// The hit at position `p` of a room's hits, if any.
pub open spec fn head(s: Seq<Hit>, p: int) -> Option<Hit> {
    if 0 <= p < s.len() {
        Some(s[p])
    } else {
        None
    }
}

/// `a` comes no later than `b`: no hit comes before any hit, and hits
/// compare by room, then count.
pub open spec fn hit_le(a: Option<Hit>, b: Option<Hit>) -> bool {
    match (a, b) {
        (None, _) => true,
        (Some(_), None) => false,
        (Some(x), Some(y)) => x.0 < y.0 || (x.0 == y.0 && x.1 <= y.1),
    }
}

/// The room whose next hit is the greatest among the first `m` rooms, the
/// last such room on ties (-1 when `m` is 0).
pub open spec fn pick_upto(streams: Seq<Seq<Hit>>, pos: Seq<int>, m: int) -> int
    decreases m,
{
    if m <= 0 {
        -1
    } else {
        let p = pick_upto(streams, pos, m - 1);
        if p == -1 || hit_le(head(streams[p], pos[p]), head(streams[m - 1], pos[m - 1])) {
            m - 1
        } else {
            p
        }
    }
}

/// The first `n` steps of the merge: each step takes the next hit of the
/// room picked by `pick_upto` (nothing when that room has none left).
/// Gives the hits taken and each room's position.
pub open spec fn merged(streams: Seq<Seq<Hit>>, n: nat) -> (Seq<Hit>, Seq<int>)
    decreases n,
{
    if n == 0 {
        (Seq::empty(), Seq::new(streams.len(), |i: int| 0))
    } else {
        let (out, pos) = merged(streams, (n - 1) as nat);
        let i = pick_upto(streams, pos, streams.len() as int);
        if i >= 0 && pos[i] < streams[i].len() {
            (out.push(streams[i][pos[i]]), pos.update(i, pos[i] + 1))
        } else {
            (out, pos)
        }
    }
}

proof fn lemma_merged_pos(streams: Seq<Seq<Hit>>, n: nat)
    ensures
        merged(streams, n).1.len() == streams.len(),
        forall|i: int| 0 <= i < streams.len() ==> 0 <= #[trigger] merged(streams, n).1[i] <= streams[i].len(),
    decreases n,
{
    if n > 0 {
        lemma_merged_pos(streams, (n - 1) as nat);
        let pos = merged(streams, (n - 1) as nat).1;
        lemma_pick_range(streams, pos, streams.len() as int);
    }
}

proof fn lemma_pick_range(streams: Seq<Seq<Hit>>, pos: Seq<int>, m: int)
    ensures
        m <= 0 ==> pick_upto(streams, pos, m) == -1,
        m > 0 ==> 0 <= pick_upto(streams, pos, m) < m,
    decreases m,
{
    if m > 0 {
        lemma_pick_range(streams, pos, m - 1);
    }
}

fn head_of(streams: &Vec<Vec<Hit>>, pos: &Vec<usize>, i: usize) -> (h: Option<Hit>)
    requires
        i < streams@.len(),
        pos@.len() == streams@.len(),
    ensures
        h == head(streams@[i as int]@, pos@[i as int] as int),
{
    if pos[i] < streams[i].len() {
        Some(streams[i][pos[i]])
    } else {
        None
    }
}

fn le(a: Option<Hit>, b: Option<Hit>) -> (r: bool)
    ensures
        r == hit_le(a, b),
{
    match (a, b) {
        (None, _) => true,
        (Some(_), None) => false,
        (Some(x), Some(y)) => x.0 < y.0 || (x.0 == y.0 && x.1 <= y.1),
    }
}

/// The view of the rooms' hits.
pub open spec fn hits_view(streams: Seq<Vec<Hit>>) -> Seq<Seq<Hit>> {
    Seq::new(streams.len(), |i: int| streams[i]@)
}

/// Takes `n` steps of the merge of the rooms' hits.
pub fn merge_hits(streams: &Vec<Vec<Hit>>, n: usize) -> (out: Vec<Hit>)
    ensures
        out@ == merged(hits_view(streams@), n as nat).0,
{
    let ghost sv = hits_view(streams@);
    let mut pos: Vec<usize> = Vec::new();
    let mut k: usize = 0;
    while k < streams.len()
        invariant
            k <= streams@.len(),
            pos@.len() == k,
            forall|j: int| 0 <= j < k ==> pos@[j] == 0,
        decreases streams.len() - k,
    {
        pos.push(0);
        k = k + 1;
    }
    let mut out: Vec<Hit> = Vec::new();
    let mut step: usize = 0;
    assert(Seq::new(pos@.len(), |j: int| pos@[j] as int) =~= merged(sv, 0).1);
    while step < n
        invariant
            step <= n,
            sv == hits_view(streams@),
            pos@.len() == streams@.len(),
            out@ == merged(sv, step as nat).0,
            Seq::new(pos@.len(), |j: int| pos@[j] as int) == merged(sv, step as nat).1,
        decreases n - step,
    {
        let ghost gpos = Seq::new(pos@.len(), |j: int| pos@[j] as int);
        proof {
            lemma_merged_pos(sv, step as nat);
        }
        // Find the last room with the greatest next hit.
        let mut best: Option<usize> = None;
        let mut i: usize = 0;
        while i < streams.len()
            invariant
                i <= streams@.len(),
                sv == hits_view(streams@),
                pos@.len() == streams@.len(),
                gpos == Seq::new(pos@.len(), |j: int| pos@[j] as int),
                match best {
                    None => pick_upto(sv, gpos, i as int) == -1,
                    Some(b) => b < i && pick_upto(sv, gpos, i as int) == b as int,
                },
            decreases streams.len() - i,
        {
            assert(sv[i as int] == streams@[i as int]@);
            let hi = head_of(streams, &pos, i);
            match best {
                None => {
                    best = Some(i);
                },
                Some(b) => {
                    assert(sv[b as int] == streams@[b as int]@);
                    let hb = head_of(streams, &pos, b);
                    if le(hb, hi) {
                        best = Some(i);
                    }
                },
            }
            i = i + 1;
        }
        match best {
            Some(b) => {
                assert(sv[b as int] == streams@[b as int]@);
                if pos[b] < streams[b].len() {
                    let h = streams[b][pos[b]];
                    out.push(h);
                    let next = pos[b] + 1;
                    pos.set(b, next);
                    assert(Seq::new(pos@.len(), |j: int| pos@[j] as int) =~= gpos.update(
                        b as int,
                        gpos[b as int] + 1,
                    ));
                }
            },
            None => {},
        }
        step = step + 1;
    }
    out
}

// ---------------------------------------------------------------------------
// Pages
// ---------------------------------------------------------------------------

/// The page size of a search: the filter's limit, ten without one.
pub fn search_limit(limit: Option<u64>) -> (n: u64)
    ensures
        n == match limit {
            Some(l) => l,
            None => 10,
        },
{
    match limit {
        Some(l) => l,
        None => 10,
    }
}

/// The position a search page starts at: the `next_batch` token, a number
/// (`InvalidParam` otherwise), 0 without one.
pub fn search_skip(next_batch: Option<&str>) -> (r: Result<u64, Error>)
    ensures
        match next_batch {
            None => r == Ok::<u64, Error>(0),
            Some(t) => match parse_u64_spec(t@) {
                Some(n) => r == Ok::<u64, Error>(n),
                None => (r matches Err(e) && e.kind == ErrorKind::InvalidParam && e.message@ == "Invalid next_batch token."@),
            },
        },
{
    match next_batch {
        None => Ok(0),
        Some(t) => match parse_u64(t) {
            Some(n) => Ok(n),
            None => Err(Error::new(ErrorKind::InvalidParam, "Invalid next_batch token.")),
        },
    }
}

/// A page of results: `limit` items after the first `skip`, and the token
/// of the next page (`skip + limit`), none when the page is not full.
pub open spec fn page_spec<E>(items: Seq<E>, skip: nat, limit: nat) -> (Seq<E>, Option<nat>) {
    let rest = if skip < items.len() {
        items.skip(skip as int)
    } else {
        Seq::empty()
    };
    let page = if limit < rest.len() {
        rest.take(limit as int)
    } else {
        rest
    };
    (page, if page.len() < limit {
        None
    } else {
        Some(skip + limit)
    })
}

/// Consecutive search pages tile the results: a page followed by the page
/// its token leads to holds two pages' worth from the same start, each
/// result once and in order.
pub proof fn lemma_search_pages_tile<E>(items: Seq<E>, skip: nat, limit: nat)
    ensures
        page_spec(items, skip, limit).0 + page_spec(items, skip + limit, limit).0 == page_spec(
            items,
            skip,
            limit + limit,
        ).0,
{
    let a = page_spec(items, skip, limit).0;
    let b = page_spec(items, skip + limit, limit).0;
    let c = page_spec(items, skip, limit + limit).0;
    if skip < items.len() {
        if skip + limit < items.len() {
            assert(items.skip(skip as int).take(limit as int) =~= items.subrange(skip as int, (skip + limit) as int));
            assert(a + b =~= c);
        } else {
            assert(a + b =~= c);
        }
    } else {
        assert(a + b =~= c);
    }
}

/// Cuts a page out of the results.
pub fn page<E>(items: Vec<E>, skip: usize, limit: usize) -> (r: (Vec<E>, Option<usize>))
    requires
        skip + limit <= usize::MAX,
    ensures
        r.0@ == page_spec(items@, skip as nat, limit as nat).0,
        match page_spec(items@, skip as nat, limit as nat).1 {
            Some(t) => r.1 == Some(t as usize),
            None => r.1 is None,
        },
{
    let ghost all = items@;
    let mut v = items;
    let n = v.len();
    let end = if skip + limit < n {
        skip + limit
    } else {
        n
    };
    v.truncate(end);
    let mut out: Vec<E> = Vec::new();
    // Move the items from `skip` to `end` out, in order.
    let mut rev: Vec<E> = Vec::new();
    while v.len() > skip
        invariant
            v@ == all.take(v@.len() as int),
            v@.len() <= end,
            v@.len() >= (if skip < end { skip as int } else { end as int }),
            end <= all.len(),
            rev@ == all.subrange(v@.len() as int, end as int).reverse(),
        decreases v@.len(),
    {
        let ghost before = v@;
        let x = v.pop().unwrap();
        assert(x == all[v@.len() as int]);
        rev.push(x);
        assert(v@ =~= all.take(v@.len() as int));
        assert(rev@ =~= all.subrange(v@.len() as int, end as int).reverse());
    }
    let lo = v.len();
    let ghost start = lo as int;
    while rev.len() > 0
        invariant
            out@ + rev@.reverse() == all.subrange(start, end as int),
        decreases rev@.len(),
    {
        let ghost r0 = rev@;
        let x = rev.pop().unwrap();
        out.push(x);
        assert(r0.reverse() =~= seq![x] + rev@.reverse());
        assert(out@ + rev@.reverse() =~= all.subrange(start, end as int));
    }
    assert(out@ =~= all.subrange(start, end as int));
    assert(start == (if skip < all.len() { skip as int } else { end as int }));
    assert(out@ =~= page_spec(all, skip as nat, limit as nat).0);
    let token = if out.len() < limit {
        None
    } else {
        Some(skip + limit)
    };
    (out, token)
}

// ---------------------------------------------------------------------------
// Highlights
// ---------------------------------------------------------------------------

/// Whether `char::is_alphanumeric` holds of a character (Unicode letters
/// and numbers).
pub uninterp spec fn unicode_alphanumeric(c: char) -> bool;

/// Calls `char::is_alphanumeric`; the contract claims only that the answer
/// is `unicode_alphanumeric` of the character.
#[verifier::external_body]
fn is_alphanumeric(c: char) -> (b: bool)
    ensures
        b == unicode_alphanumeric(c),
{
    c.is_alphanumeric()
}

/// The pieces of a text between characters that are not letters or
/// numbers, as `str::split` cuts them (one more piece than separators).
pub open spec fn split_pieces(s: Seq<char>) -> Seq<Seq<char>>
    decreases s.len(),
{
    if s.len() == 0 {
        seq![Seq::empty()]
    } else {
        let prev = split_pieces(s.drop_last());
        let c = s.last();
        if !unicode_alphanumeric(c) {
            prev.push(Seq::empty())
        } else {
            prev.update(prev.len() - 1, prev.last().push(c))
        }
    }
}

proof fn lemma_split_pieces_len(s: Seq<char>)
    ensures
        split_pieces(s).len() >= 1,
    decreases s.len(),
{
    if s.len() > 0 {
        lemma_split_pieces_len(s.drop_last());
    }
}

/// The pieces as `str::split_terminator` gives them: a last empty piece is
/// dropped.
pub open spec fn term_pieces(s: Seq<char>) -> Seq<Seq<char>> {
    let p = split_pieces(s);
    if p.last().len() == 0 {
        p.drop_last()
    } else {
        p
    }
}

/// The words of a search term to highlight: its pieces, in lower case.
pub open spec fn highlights_spec(term: Seq<char>) -> Seq<Seq<char>> {
    term_pieces(term).map_values(|p: Seq<char>| lowercase(p))
}

/// The words of a search term to highlight.
pub fn highlights(term: &str) -> (out: Vec<String>)
    ensures
        out@.map_values(|s: String| s@) == highlights_spec(term@),
{
    let n = term.unicode_len();
    let mut pieces: Vec<String> = Vec::new();
    let mut start: usize = 0;
    let mut i: usize = 0;
    proof {
        lemma_split_pieces_len(term@.take(0));
    }
    assert(term@.take(0) =~= Seq::<char>::empty());
    while i < n
        invariant
            n == term@.len(),
            start <= i <= n,
            split_pieces(term@.take(i as int)).len() >= 1,
            pieces@.len() + 1 == split_pieces(term@.take(i as int)).len(),
            forall|j: int| 0 <= j < pieces@.len() ==> (#[trigger] pieces@[j])@ == split_pieces(term@.take(i as int))[j],
            term@.subrange(start as int, i as int) == split_pieces(term@.take(i as int)).last(),
        decreases n - i,
    {
        assert(term@.take(i + 1).drop_last() =~= term@.take(i as int));
        assert(term@.take(i + 1).last() == term@[i as int]);
        let c = term.get_char(i);
        if is_alphanumeric(c) {
            assert(term@.subrange(start as int, i + 1) =~= term@.subrange(start as int, i as int).push(c));
        } else {
            let piece = String::from_str(term.substring_char(start, i));
            pieces.push(piece);
            start = i + 1;
            assert(term@.subrange(start as int, i + 1) =~= Seq::<char>::empty());
        }
        i = i + 1;
    }
    assert(term@.take(i as int) =~= term@);
    if start < n {
        let piece = String::from_str(term.substring_char(start, n));
        pieces.push(piece);
    }
    assert(pieces@.map_values(|s: String| s@) =~= term_pieces(term@));
    let mut out: Vec<String> = Vec::new();
    let mut k: usize = 0;
    while k < pieces.len()
        invariant
            k <= pieces@.len(),
            pieces@.map_values(|s: String| s@) == term_pieces(term@),
            out@.len() == k,
            forall|j: int| 0 <= j < k ==> (#[trigger] out@[j])@ == lowercase(pieces@[j]@),
        decreases pieces.len() - k,
    {
        out.push(to_lowercase(pieces[k].as_str()));
        k = k + 1;
    }
    assert(out@.map_values(|s: String| s@) =~= highlights_spec(term@)) by {
        assert forall|j: int| 0 <= j < out@.len() implies out@.map_values(|s: String| s@)[j]
            == highlights_spec(term@)[j] by {
            assert(pieces@.map_values(|s: String| s@)[j] == pieces@[j]@);
        }
    }
    out
}

// ---------------------------------------------------------------------------
// The user directory
// ---------------------------------------------------------------------------

/// A user of the directory: the user id and the display name, if any.
pub struct DirectoryUser {
    pub user_id: String,
    pub display_name: Option<String>,
}

/// A user matches a search when the term, in lower case, occurs in the user
/// id or the display name, both in lower case.
pub open spec fn user_matches(u: DirectoryUser, term: Seq<char>) -> bool {
    seq_contains(lowercase(u.user_id@), lowercase(term)) || (u.display_name is Some
        && seq_contains(lowercase(u.display_name.unwrap()@), lowercase(term)))
}

/// The matching users, in order.
pub open spec fn matching_users(users: Seq<DirectoryUser>, term: Seq<char>) -> Seq<DirectoryUser>
    decreases users.len(),
{
    if users.len() == 0 {
        Seq::empty()
    } else {
        let prev = matching_users(users.drop_last(), term);
        if user_matches(users.last(), term) {
            prev.push(users.last())
        } else {
            prev
        }
    }
}

/// Searches the user directory: the first `limit` matching users, and
/// whether more match.
pub fn search_users(users: Vec<DirectoryUser>, term: &str, limit: usize) -> (r: (
    Vec<DirectoryUser>,
    bool,
))
    ensures
        r.0@ == (if matching_users(users@, term@).len() <= limit {
            matching_users(users@, term@)
        } else {
            matching_users(users@, term@).take(limit as int)
        }),
        r.1 == (matching_users(users@, term@).len() > limit),
{
    let ghost all = users@;
    let lower_term = to_lowercase(term);
    let mut rest = users;
    let mut rev: Vec<DirectoryUser> = Vec::new();
    while rest.len() > 0
        invariant
            all == rest@ + rev@.reverse(),
        decreases rest@.len(),
    {
        let ghost before = rest@;
        let x = rest.pop().unwrap();
        rev.push(x);
        assert(before == rest@.push(x));
        assert(all =~= rest@ + rev@.reverse());
    }
    assert(rev@.reverse() =~= all);
    let mut found: Vec<DirectoryUser> = Vec::new();
    let ghost mut k: int = 0;
    while rev.len() > 0
        invariant
            0 <= k <= all.len(),
            rev@.reverse() =~= all.skip(k),
            lower_term@ == lowercase(term@),
            found@ == matching_users(all.take(k), term@),
        decreases rev@.len(),
    {
        let ghost rv = rev@;
        assert(rv.reverse().len() == rv.len());
        assert(k < all.len());
        assert(rv.reverse()[0] == rv[rv.len() - 1]);
        assert(all.skip(k)[0] == all[k]);
        let u = rev.pop().unwrap();
        assert(u == all[k]);
        assert(all.take(k + 1).drop_last() =~= all.take(k));
        let id_lower = to_lowercase(u.user_id.as_str());
        let mut m = str_contains(id_lower.as_str(), lower_term.as_str());
        if !m {
            match &u.display_name {
                Some(n) => {
                    let n_lower = to_lowercase(n.as_str());
                    m = str_contains(n_lower.as_str(), lower_term.as_str());
                },
                None => {},
            }
        }
        if m {
            found.push(u);
        }
        proof {
            assert forall|j: int| 0 <= j < rev@.len() implies rev@.reverse()[j] == all.skip(
                k + 1,
            )[j] by {
                assert(rv.reverse()[j + 1] == all.skip(k)[j + 1]);
                assert(rev@[rev@.len() - 1 - j] == rv[rv.len() - 1 - (j + 1)]);
            }
            k = k + 1;
        }
        assert(rev@.reverse() =~= all.skip(k));
    }
    assert(all.take(k) =~= all);
    let limited = found.len() > limit;
    found.truncate(limit);
    (found, limited)
}

} // verus!
