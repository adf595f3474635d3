//! The promises the server keeps, stated once, over the whole pipeline.
//! Each law is proved from the public contracts of the parsing, resolving,
//! rendering and pool functions.

use vstd::prelude::*;
use crate::ascii::ascii_bytes;
use crate::html::escaped;
use crate::html::listing_item;
use crate::html::listing_items;
use crate::html::listing_bytes;
use crate::html::pair_views;
use crate::html::page_bytes;
use crate::response::response_header;
use crate::response::ok_response_bytes;
use crate::response::not_found_response_bytes;
use crate::response::resolved_response_bytes;
use crate::response::Resolved;
use crate::pool::WorkerPool;
use crate::pool::queued_jobs;
use crate::pool::queued_sentinels;

verus! {

/// Serving an existing file returns status `200 OK`, and the response body
/// is byte-identical to the file's contents.
pub proof fn lemma_file_response(contents: Vec<u8>)
    ensures
        resolved_response_bytes(Resolved::File { contents }) == ok_response_bytes(contents@),
        resolved_response_bytes(Resolved::File { contents }).skip(
            response_header(ascii_bytes("200 OK"@)).len() as int,
        ) == contents@,
{
    assert(resolved_response_bytes(Resolved::File { contents }).skip(
        response_header(ascii_bytes("200 OK"@)).len() as int,
    ) =~= contents@);
}

/// A directory with an index page answers exactly as the index file itself
/// would: the two resolved targets yield identical responses.
pub proof fn lemma_index_file_same_response(contents: Vec<u8>)
    ensures
        resolved_response_bytes(Resolved::DirectoryWithIndex { contents })
            == resolved_response_bytes(Resolved::File { contents }),
{
}

/// The links of a listing, one per entry, in the entries' order.
pub open spec fn listing_item_seq(pairs: Seq<(Seq<u8>, Seq<u8>)>) -> Seq<Seq<u8>> {
    pairs.map(|i: int, p: (Seq<u8>, Seq<u8>)| listing_item(p.0, p.1))
}

/// A rendered listing is exactly its links laid end to end: each entry
/// appears exactly once, at its position.
pub proof fn lemma_listing_structure(pairs: Seq<(Seq<u8>, Seq<u8>)>)
    ensures
        listing_items(pairs) == listing_item_seq(pairs).flatten(),
        listing_item_seq(pairs).len() == pairs.len(),
        forall|i: int|
            0 <= i < pairs.len() ==> listing_item_seq(pairs)[i] == listing_item(
                pairs[i].0,
                pairs[i].1,
            ),
    decreases pairs.len(),
{
    if pairs.len() == 0 {
        assert(listing_items(pairs) =~= listing_item_seq(pairs).flatten());
    } else {
        lemma_listing_structure(pairs.skip(1));
        assert(listing_item_seq(pairs).drop_first() =~= listing_item_seq(pairs.skip(1)));
        assert(listing_item_seq(pairs).first() == listing_item(pairs[0].0, pairs[0].1));
        assert(listing_item_seq(pairs).flatten() == listing_item_seq(pairs).first().add(
            listing_item_seq(pairs).drop_first().flatten(),
        ));
        assert(listing_items(pairs) == listing_item(pairs[0].0, pairs[0].1) + listing_items(
            pairs.skip(1),
        ));
    }
}

/// Two different (href, label) pairs always render different links: the
/// rendered link determines the pair it came from.
pub proof fn lemma_listing_item_injective(p: (Seq<u8>, Seq<u8>), q: (Seq<u8>, Seq<u8>))
    requires
        listing_item(p.0, p.1) == listing_item(q.0, q.1),
    ensures
        p == q,
{
    reveal_strlit("<li><a href=\"");
    reveal_strlit("\">");
    reveal_strlit("</a></li>");
    let pre = ascii_bytes("<li><a href=\""@);
    let mid = ascii_bytes("\">"@);
    let end = ascii_bytes("</a></li>"@);
    let s1 = listing_item(p.0, p.1).skip(pre.len() as int);
    assert(s1 =~= escaped(p.0) + mid + escaped(p.1) + end);
    assert(s1 =~= escaped(q.0) + mid + escaped(q.1) + end);
    // The first raw quote after the prefix closes the href attribute, and
    // escaped text never holds one, so it sits right after the href.
    crate::html::lemma_escaped_no_quote(p.0);
    crate::html::lemma_escaped_no_quote(q.0);
    assert(mid[0] == 34);
    assert(s1[escaped(p.0).len() as int] == 34);
    assert(forall|j: int| 0 <= j < escaped(p.0).len() ==> s1[j] != 34);
    crate::request::lemma_find_byte_at(s1, 34, escaped(p.0).len() as int);
    assert(s1[escaped(q.0).len() as int] == 34);
    assert(forall|j: int| 0 <= j < escaped(q.0).len() ==> s1[j] != 34);
    crate::request::lemma_find_byte_at(s1, 34, escaped(q.0).len() as int);
    let quote_at = escaped(p.0).len() as int;
    assert(escaped(q.0).len() == quote_at);
    assert(escaped(p.0) =~= s1.take(quote_at));
    assert(escaped(q.0) =~= s1.take(quote_at));
    crate::html::lemma_escaped_injective(p.0, q.0);
    // Behind the closed attribute, the label precedes the fixed tail.
    let s2 = s1.skip(quote_at + 2);
    assert(s2 =~= escaped(p.1) + end);
    assert(s2 =~= escaped(q.1) + end);
    let label_len = s2.len() - end.len();
    assert(escaped(p.1) =~= s2.take(label_len as int));
    assert(escaped(q.1) =~= s2.take(label_len as int));
    crate::html::lemma_escaped_injective(p.1, q.1);
}

/// A directory without an index page answers with status `200 OK`, and its
/// body lists every immediate entry exactly once, as the link of that entry,
/// in the order the entries were given.
pub proof fn lemma_directory_listing(path: Vec<u8>, entries: Vec<(Vec<u8>, Vec<u8>)>)
    ensures
        resolved_response_bytes(Resolved::Directory { path, entries }) == ok_response_bytes(
            page_bytes(path@, listing_bytes(pair_views(entries@))),
        ),
        listing_bytes(pair_views(entries@)) == ascii_bytes("<ul>"@) + listing_item_seq(
            pair_views(entries@),
        ).flatten() + ascii_bytes("</ul>"@),
        listing_item_seq(pair_views(entries@)).len() == entries@.len(),
        forall|i: int|
            0 <= i < entries@.len() ==> listing_item_seq(pair_views(entries@))[i] == listing_item(
                entries@[i].0@,
                entries@[i].1@,
            ),
        forall|i: int, j: int|
            0 <= i < entries@.len() && 0 <= j < entries@.len() && pair_views(entries@)[i]
                != pair_views(entries@)[j] ==> listing_item_seq(pair_views(entries@))[i]
                != listing_item_seq(pair_views(entries@))[j],
{
    lemma_listing_structure(pair_views(entries@));
    assert forall|i: int, j: int|
        0 <= i < entries@.len() && 0 <= j < entries@.len() && pair_views(entries@)[i]
            != pair_views(entries@)[j] implies listing_item_seq(pair_views(entries@))[i]
        != listing_item_seq(pair_views(entries@))[j] by {
        if listing_item_seq(pair_views(entries@))[i] == listing_item_seq(pair_views(entries@))[j] {
            lemma_listing_item_injective(pair_views(entries@)[i], pair_views(entries@)[j]);
        }
    }
}

/// A target with no corresponding path answers with the fixed not-found
/// page, whose status line reads `404 NOT FOUND`, whatever the target was.
pub proof fn lemma_missing_response()
    ensures
        resolved_response_bytes(Resolved::Missing) == not_found_response_bytes(),
        not_found_response_bytes().take(ascii_bytes("HTTP/1.1 404 NOT FOUND\r\n\r\n"@).len() as int)
            == ascii_bytes("HTTP/1.1 404 NOT FOUND\r\n\r\n"@),
{
    reveal_strlit("HTTP/1.1 ");
    reveal_strlit("404 NOT FOUND");
    reveal_strlit("\r\n\r\n");
    reveal_strlit("HTTP/1.1 404 NOT FOUND\r\n\r\n");
    assert(response_header(ascii_bytes("404 NOT FOUND"@)) =~= ascii_bytes(
        "HTTP/1.1 404 NOT FOUND\r\n\r\n"@,
    ));
    assert(not_found_response_bytes().take(
        ascii_bytes("HTTP/1.1 404 NOT FOUND\r\n\r\n"@).len() as int,
    ) =~= response_header(ascii_bytes("404 NOT FOUND"@)));
}

/// No submitted job is lost or duplicated: the jobs handed to workers,
/// followed by the jobs still queued, are exactly the submitted jobs, in
/// submission order; once the queue holds no more jobs, every submitted
/// job has been handed out exactly once.
pub proof fn lemma_jobs_exactly_once(p: WorkerPool)
    requires
        p.wf(),
    ensures
        p.delivered@ + queued_jobs(p.queue@) == p.submitted@,
        p.delivered@ == p.submitted@.take(p.delivered@.len() as int),
        queued_jobs(p.queue@).len() == 0 ==> p.delivered@ == p.submitted@,
{
    assert(p.delivered@ =~= p.submitted@.take(p.delivered@.len() as int));
    if queued_jobs(p.queue@).len() == 0 {
        assert(p.delivered@ =~= p.submitted@);
    }
}

/// Shutdown joins every worker: in any drained post-shutdown state — the
/// state `WorkerPool::shutdown` leaves behind — each worker has taken its
/// sentinel and exited, and every job submitted before the shutdown was
/// handed to a worker first.
pub proof fn lemma_shutdown_joins_all(p: WorkerPool)
    requires
        p.wf(),
        p.shutting_down,
        p.queue@.len() == 0,
    ensures
        p.workers_exited == p.worker_count,
        p.delivered@ == p.submitted@,
{
    assert(queued_sentinels(p.queue@) == 0);
    assert(queued_jobs(p.queue@).len() == 0);
    assert(p.delivered@ =~= p.submitted@);
}

} // verus!
