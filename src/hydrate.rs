//! Hydrator: splits ranked identities into lookups the store accepts,
//! decides on retries of unprocessed keys, and reassembles the records that
//! came back in rank order.

use crate::attribute_helper::{AttrSeq, strings_view, AttrValue, AttributeMap, AttrView};
use crate::email::{decode_email, Email, EmailView};
use vstd::prelude::*;

verus! {

/// Most keys the store accepts in one batched read.
pub const BATCH_GET_LIMIT: usize = 100;

/// Most batched reads made for one chunk before its remaining keys are
/// treated as missing.
pub const MAX_FETCH_ATTEMPTS: u32 = 5;

/// Wait before the first retry; each further retry waits twice as long.
pub const BACKOFF_BASE_MS: u64 = 50;

/// The lower end of chunk `j` when `n` items are cut into chunks of `size`.
pub open spec fn chunk_start(n: int, size: int, j: int) -> int {
    if j * size <= n {
        j * size
    } else {
        n
    }
}

/// The bounds of consecutive chunks of `size` over `n` items, the last one
/// possibly shorter: chunk `j` is `[chunk_start(j), chunk_start(j + 1))`,
/// and there are as many chunks as it takes to cover the items.
pub fn chunk_bounds(n: usize, size: usize) -> (bounds: Vec<(usize, usize)>)
    requires
        size > 0,
    ensures
        bounds.len() * size >= n,
        bounds.len() == 0 || (bounds.len() - 1) * size < n,
        forall|j: int|
            0 <= j < bounds.len() ==> #[trigger] bounds@[j] == (
                chunk_start(n as int, size as int, j) as usize,
                chunk_start(n as int, size as int, j + 1) as usize,
            ),
        forall|j: int| 0 <= j < bounds.len() ==> #[trigger] bounds@[j].0 < bounds@[j].1 <= n,
{
    let mut bounds: Vec<(usize, usize)> = Vec::new();
    let mut start: usize = 0;
    assert(0 * (size as int) == 0) by (nonlinear_arith);
    while start < n
        invariant
            size > 0,
            start <= n,
            start == chunk_start(n as int, size as int, bounds.len() as int),
            bounds.len() == 0 || (bounds.len() - 1) * size < n,
            forall|j: int|
                0 <= j < bounds.len() ==> #[trigger] bounds@[j] == (
                    chunk_start(n as int, size as int, j) as usize,
                    chunk_start(n as int, size as int, j + 1) as usize,
                ),
            forall|j: int| 0 <= j < bounds.len() ==> #[trigger] bounds@[j].0 < bounds@[j].1 <= n,
        decreases n - start,
    {
        let c = bounds.len();
        assert(start == c * size);
        assert((c + 1) * size == c * size + size) by (nonlinear_arith);
        let end: usize = if n - start < size { n } else { start + size };
        assert(end == chunk_start(n as int, size as int, c + 1));
        bounds.push((start, end));
        start = end;
    }
    assert(bounds.len() * size >= n) by {
        if bounds.len() * size < n {
            assert(start == bounds.len() * size);
        }
    }
    bounds
}

/// Copies `ids[lo..hi]`.
fn copy_range(ids: &Vec<String>, lo: usize, hi: usize) -> (r: Vec<String>)
    requires
        lo <= hi <= ids.len(),
    ensures
        strings_view(r@) == strings_view(ids@.subrange(lo as int, hi as int)),
{
    let mut r: Vec<String> = Vec::new();
    let mut k: usize = lo;
    while k < hi
        invariant
            lo <= k <= hi <= ids.len(),
            strings_view(r@) == strings_view(ids@.subrange(lo as int, k as int)),
        decreases hi - k,
    {
        r.push(ids[k].clone());
        k += 1;
        assert(strings_view(ids@.subrange(lo as int, k as int)) =~= strings_view(
            ids@.subrange(lo as int, k - 1),
        ).push(ids@[k - 1]@));
    }
    r
}

/// Cuts `ids` into consecutive chunks of `size`, the last one possibly
/// shorter; together they are `ids`, in order.
pub fn chunk_identities(ids: &Vec<String>, size: usize) -> (chunks: Vec<Vec<String>>)
    requires
        size > 0,
    ensures
        chunks.len() * size >= ids.len(),
        chunks.len() == 0 || (chunks.len() - 1) * size < ids.len(),
        forall|j: int|
            0 <= j < chunks.len() ==> strings_view(#[trigger] chunks@[j]@) == strings_view(
                ids@.subrange(chunk_start(ids.len() as int, size as int, j), chunk_start(ids.len() as int, size as int, j + 1)),
            ),
{
    let bounds = chunk_bounds(ids.len(), size);
    let mut chunks: Vec<Vec<String>> = Vec::new();
    let mut j: usize = 0;
    while j < bounds.len()
        invariant
            j <= bounds.len(),
            chunks.len() == j,
            forall|i: int|
                0 <= i < bounds.len() ==> #[trigger] bounds@[i] == (
                    chunk_start(ids.len() as int, size as int, i) as usize,
                    chunk_start(ids.len() as int, size as int, i + 1) as usize,
                ),
            forall|i: int| 0 <= i < bounds.len() ==> #[trigger] bounds@[i].0 < bounds@[i].1 <= ids.len(),
            forall|i: int|
                0 <= i < j ==> strings_view(#[trigger] chunks@[i]@) == strings_view(
                    ids@.subrange(chunk_start(ids.len() as int, size as int, i), chunk_start(ids.len() as int, size as int, i + 1)),
                ),
        decreases bounds.len() - j,
    {
        let (lo, hi) = bounds[j];
        chunks.push(copy_range(ids, lo, hi));
        j += 1;
    }
    chunks
}

/// The key of an email in the store: its `id` as a string scalar.
pub open spec fn email_key(id: Seq<char>) -> AttrSeq {
    seq![("id"@, AttrView::S(id))]
}

/// The store keys of a chunk of email identities, in order.
pub fn email_lookup_keys(chunk: &Vec<String>) -> (keys: Vec<AttributeMap>)
    ensures
        keys.len() == chunk.len(),
        forall|i: int| 0 <= i < keys.len() ==> (#[trigger] keys@[i])@ == email_key(chunk@[i]@),
        forall|i: int| 0 <= i < keys.len() ==> (#[trigger] keys@[i]).wf(),
{
    let mut keys: Vec<AttributeMap> = Vec::new();
    let mut i: usize = 0;
    while i < chunk.len()
        invariant
            i <= chunk.len(),
            keys.len() == i,
            forall|j: int| 0 <= j < i ==> (#[trigger] keys@[j])@ == email_key(chunk@[j]@),
            forall|j: int| 0 <= j < i ==> (#[trigger] keys@[j]).wf(),
        decreases chunk.len() - i,
    {
        let mut entries: Vec<(String, AttrValue)> = Vec::new();
        entries.push(("id".to_string(), AttrValue::S(chunk[i].clone())));
        let key = AttributeMap { entries };
        assert(key@ =~= email_key(chunk@[i as int]@));
        keys.push(key);
        i += 1;
    }
    keys
}

/// The emails that the rows returned by the store decode to, in the order
/// they came; rows that do not decode are left out.
pub open spec fn decoded_rows(rows: Seq<AttrSeq>) -> Seq<EmailView>
    decreases rows.len(),
{
    if rows.len() == 0 {
        seq![]
    } else {
        let rest = decoded_rows(rows.drop_last());
        match decode_email(rows.last()) {
            Ok(e) => rest.push(e),
            Err(_) => rest,
        }
    }
}

/// The first email of `found` with identity `id`.
pub open spec fn first_with_id(found: Seq<EmailView>, id: Seq<char>) -> Option<EmailView>
    decreases found.len(),
{
    if found.len() == 0 {
        None
    } else if found[0].id == id {
        Some(found[0])
    } else {
        first_with_id(found.drop_first(), id)
    }
}

/// The hydrated result: for each identity in rank order, the email found
/// for it; identities with none are left out.
pub open spec fn hydrate(ids: Seq<Seq<char>>, found: Seq<EmailView>) -> Seq<EmailView>
    decreases ids.len(),
{
    if ids.len() == 0 {
        seq![]
    } else {
        let rest = hydrate(ids.drop_last(), found);
        match first_with_id(found, ids.last()) {
            Some(e) => rest.push(e),
            None => rest,
        }
    }
}

proof fn lemma_first_with_id_matches(found: Seq<EmailView>, id: Seq<char>)
    ensures
        first_with_id(found, id) is Some ==> first_with_id(found, id).unwrap().id == id,
    decreases found.len(),
{
    if found.len() > 0 && found[0].id != id {
        lemma_first_with_id_matches(found.drop_first(), id);
    }
}

/// Hydration keeps rank order. The result never holds more records than
/// there are identities; and where a record was found for every identity,
/// however the store ordered them, the result holds one per identity and
/// the `i`-th is the one found for the `i`-th identity.
pub proof fn lemma_hydration_keeps_rank_order(ids: Seq<Seq<char>>, found: Seq<EmailView>)
    ensures
        hydrate(ids, found).len() <= ids.len(),
        (forall|i: int| 0 <= i < ids.len() ==> (#[trigger] first_with_id(found, ids[i])) is Some) ==> {
            &&& hydrate(ids, found).len() == ids.len()
            &&& forall|i: int|
                0 <= i < ids.len() ==> {
                    &&& #[trigger] hydrate(ids, found)[i] == first_with_id(found, ids[i]).unwrap()
                    &&& hydrate(ids, found)[i].id == ids[i]
                }
        },
    decreases ids.len(),
{
    if ids.len() > 0 {
        let prev = ids.drop_last();
        lemma_hydration_keeps_rank_order(prev, found);
        lemma_first_with_id_matches(found, ids.last());
        if forall|i: int| 0 <= i < ids.len() ==> (#[trigger] first_with_id(found, ids[i])) is Some {
            assert forall|i: int| 0 <= i < prev.len() implies (#[trigger] first_with_id(found, prev[i])) is Some by {
                assert(prev[i] == ids[i]);
            }
            assert(first_with_id(found, ids[ids.len() - 1]) is Some);
            assert forall|i: int| 0 <= i < ids.len() implies {
                &&& #[trigger] hydrate(ids, found)[i] == first_with_id(found, ids[i]).unwrap()
                &&& hydrate(ids, found)[i].id == ids[i]
            } by {
                lemma_first_with_id_matches(found, ids[i]);
                if i < prev.len() {
                    assert(prev[i] == ids[i]);
                    assert(hydrate(prev, found)[i] == first_with_id(found, prev[i]).unwrap());
                }
            }
        }
    }
}

pub open spec fn emails_view(v: Seq<Email>) -> Seq<EmailView> {
    v.map_values(|e: Email| e@)
}

pub open spec fn rows_view(v: Seq<AttributeMap>) -> Seq<AttrSeq> {
    v.map_values(|m: AttributeMap| m@)
}

/// Decodes the rows that the store returned, dropping those that do not.
pub fn decode_rows(rows: &Vec<AttributeMap>) -> (r: Vec<Email>)
    ensures
        emails_view(r@) == decoded_rows(rows_view(rows@)),
{
    let mut r: Vec<Email> = Vec::new();
    let mut i: usize = 0;
    while i < rows.len()
        invariant
            i <= rows.len(),
            emails_view(r@) == decoded_rows(rows_view(rows@).take(i as int)),
        decreases rows.len() - i,
    {
        let ghost before = r@;
        assert(rows_view(rows@).take(i + 1).drop_last() =~= rows_view(rows@).take(i as int));
        match Email::from(&rows[i]) {
            Ok(e) => {
                r.push(e);
                assert(emails_view(r@) =~= emails_view(before).push(r@.last()@));
            },
            Err(_) => {},
        }
        i += 1;
    }
    assert(rows_view(rows@).take(rows.len() as int) =~= rows_view(rows@));
    r
}

/// The first email of `found` with identity `id`, copied.
fn find_by_id(found: &Vec<Email>, id: &String) -> (r: Option<Email>)
    ensures
        match r {
            Some(e) => first_with_id(emails_view(found@), id@) == Some(e@),
            None => first_with_id(emails_view(found@), id@) is None,
        },
{
    let mut i: usize = 0;
    assert(emails_view(found@).skip(0) =~= emails_view(found@));
    while i < found.len()
        invariant
            i <= found.len(),
            first_with_id(emails_view(found@), id@) == first_with_id(emails_view(found@).skip(i as int), id@),
        decreases found.len() - i,
    {
        assert(emails_view(found@).skip(i as int).drop_first() =~= emails_view(found@).skip(i + 1));
        if found[i].id == *id {
            return Some(found[i].duplicate());
        }
        i += 1;
    }
    None
}

/// Puts the emails found in the order of the ranked identities, leaving
/// out identities for which none was found.
pub fn order_by_identity(ids: &Vec<String>, found: &Vec<Email>) -> (r: Vec<Email>)
    ensures
        emails_view(r@) == hydrate(strings_view(ids@), emails_view(found@)),
{
    let ghost idv = strings_view(ids@);
    let mut r: Vec<Email> = Vec::new();
    let mut i: usize = 0;
    while i < ids.len()
        invariant
            i <= ids.len(),
            idv == strings_view(ids@),
            emails_view(r@) == hydrate(idv.take(i as int), emails_view(found@)),
        decreases ids.len() - i,
    {
        let ghost before = r@;
        assert(idv.take(i + 1).drop_last() =~= idv.take(i as int));
        assert(idv.take(i + 1).last() == ids@[i as int]@);
        match find_by_id(found, &ids[i]) {
            Some(e) => {
                r.push(e);
                assert(emails_view(r@) =~= emails_view(before).push(r@.last()@));
            },
            None => {},
        }
        i += 1;
    }
    assert(idv.take(ids.len() as int) =~= idv);
    r
}

/// Hydrates ranked identities from the rows the store returned for them,
/// in whatever order and over however many batched reads they came.
pub fn hydrate_rows(ids: &Vec<String>, rows: &Vec<AttributeMap>) -> (r: Vec<Email>)
    ensures
        emails_view(r@) == hydrate(strings_view(ids@), decoded_rows(rows_view(rows@))),
{
    let found = decode_rows(rows);
    order_by_identity(ids, &found)
}

/// The wait before retry number `a + 1`.
pub open spec fn backoff_ms(a: nat) -> nat
    decreases a,
{
    if a == 0 {
        BACKOFF_BASE_MS as nat
    } else {
        2 * backoff_ms((a - 1) as nat)
    }
}

proof fn lemma_backoff_bound(k: nat)
    requires
        k < MAX_FETCH_ATTEMPTS,
    ensures
        backoff_ms(k) <= 800,
{
    assert(backoff_ms(0) == 50);
    assert(backoff_ms(1) == 100);
    assert(backoff_ms(2) == 200);
    assert(backoff_ms(3) == 400);
    assert(backoff_ms(4) == 800);
}

/// What to do after a batched read of a chunk.
pub enum FetchStep {
    /// Every key was processed.
    Done,
    /// Wait this many milliseconds, then read the unprocessed keys again.
    RetryAfter(u64),
    /// The attempts are used up: the unprocessed keys count as missing.
    GiveUp,
}

/// Decides, after `attempts_made` batched reads of a chunk, the last of
/// which left `unprocessed` keys, whether to read again and after how long.
pub fn next_fetch_step(unprocessed: usize, attempts_made: u32) -> (r: FetchStep)
    ensures
        unprocessed == 0 ==> r is Done,
        unprocessed > 0 && attempts_made >= MAX_FETCH_ATTEMPTS ==> r is GiveUp,
        unprocessed > 0 && attempts_made < MAX_FETCH_ATTEMPTS ==> r == FetchStep::RetryAfter(
            backoff_ms(attempts_made as nat) as u64,
        ),
{
    if unprocessed == 0 {
        return FetchStep::Done;
    }
    if attempts_made >= MAX_FETCH_ATTEMPTS {
        return FetchStep::GiveUp;
    }
    let mut delay: u64 = BACKOFF_BASE_MS;
    let mut k: u32 = 0;
    while k < attempts_made
        invariant
            k <= attempts_made < MAX_FETCH_ATTEMPTS,
            delay == backoff_ms(k as nat),
        decreases attempts_made - k,
    {
        proof {
            lemma_backoff_bound(k as nat);
        }
        delay = delay * 2;
        k += 1;
    }
    FetchStep::RetryAfter(delay)
}

} // verus!
