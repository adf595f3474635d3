//! Rendering response bodies: a small structured HTML builder. Text and
//! attribute values are escaped byte by byte, so a file name can never
//! inject markup into a directory listing.

use vstd::prelude::*;
use crate::ascii::ascii_bytes;
use crate::ascii::append_ascii;

verus! {

/// How one byte of text appears inside rendered HTML.
pub open spec fn escape_byte(b: u8) -> Seq<u8> {
    if b == 38 {  // &
        ascii_bytes("&amp;"@)
    } else if b == 60 {  // <
        ascii_bytes("&lt;"@)
    } else if b == 62 {  // >
        ascii_bytes("&gt;"@)
    } else if b == 34 {  // "
        ascii_bytes("&quot;"@)
    } else {
        seq![b]
    }
}

/// A byte sequence with every markup-significant byte escaped.
pub open spec fn escaped(s: Seq<u8>) -> Seq<u8>
    decreases s.len(),
{
    if s.len() == 0 {
        Seq::empty()
    } else {
        escape_byte(s[0]) + escaped(s.skip(1))
    }
}

/// Escaping distributes over concatenation.
pub proof fn lemma_escaped_concat(a: Seq<u8>, b: Seq<u8>)
    ensures
        escaped(a + b) == escaped(a) + escaped(b),
    decreases a.len(),
{
    if a.len() == 0 {
        assert(a + b =~= b);
        assert(escaped(a) + escaped(b) =~= escaped(b));
    } else {
        assert((a + b).skip(1) =~= a.skip(1) + b);
        lemma_escaped_concat(a.skip(1), b);
        assert(escaped(a + b) =~= escaped(a) + escaped(b));
    }
}

/// Escaped text never holds a raw quote byte, so a quote in the rendered
/// output always comes from the markup, never from the escaped text.
pub proof fn lemma_escaped_no_quote(s: Seq<u8>)
    ensures
        forall|i: int| 0 <= i < escaped(s).len() ==> escaped(s)[i] != 34,
    decreases s.len(),
{
    reveal_strlit("&amp;");
    reveal_strlit("&lt;");
    reveal_strlit("&gt;");
    reveal_strlit("&quot;");
    if s.len() > 0 {
        lemma_escaped_no_quote(s.skip(1));
        let head = escape_byte(s[0]);
        assert(forall|i: int| 0 <= i < head.len() ==> head[i] != 34);
        assert forall|i: int| 0 <= i < escaped(s).len() implies escaped(s)[i] != 34 by {
            if i < head.len() {
                assert(escaped(s)[i] == head[i]);
            } else {
                assert(escaped(s)[i] == escaped(s.skip(1))[i - head.len()]);
            }
        }
    }
}

/// No two bytes escape to the same expansion, and the first two bytes of
/// an expansion already settle which byte it came from.
proof fn lemma_escape_byte_heads(a: u8, b: u8)
    requires
        escape_byte(a).len() <= escape_byte(b).len(),
        forall|i: int| 0 <= i < escape_byte(a).len() ==> escape_byte(a)[i] == escape_byte(b)[i],
    ensures
        a == b,
{
    reveal_strlit("&amp;");
    reveal_strlit("&lt;");
    reveal_strlit("&gt;");
    reveal_strlit("&quot;");
    assert(escape_byte(a)[0] == escape_byte(b)[0]);
    if escape_byte(a).len() > 1 {
        assert(escape_byte(a)[1] == escape_byte(b)[1]);
    }
}

/// Escaping is injective: equal escaped forms come from equal text.
pub proof fn lemma_escaped_injective(x: Seq<u8>, y: Seq<u8>)
    requires
        escaped(x) == escaped(y),
    ensures
        x == y,
    decreases x.len(),
{
    reveal_strlit("&amp;");
    reveal_strlit("&lt;");
    reveal_strlit("&gt;");
    reveal_strlit("&quot;");
    if x.len() == 0 && y.len() == 0 {
        assert(x =~= y);
    } else if x.len() == 0 {
        assert(escaped(y).len() >= escape_byte(y[0]).len());
    } else if y.len() == 0 {
        assert(escaped(x).len() >= escape_byte(x[0]).len());
    } else {
        let ex = escape_byte(x[0]);
        let ey = escape_byte(y[0]);
        if ex.len() <= ey.len() {
            assert forall|i: int| 0 <= i < ex.len() implies ex[i] == ey[i] by {
                assert(escaped(x)[i] == ex[i]);
                assert(escaped(y)[i] == ey[i]);
            }
            lemma_escape_byte_heads(x[0], y[0]);
        } else {
            assert forall|i: int| 0 <= i < ey.len() implies ey[i] == ex[i] by {
                assert(escaped(x)[i] == ex[i]);
                assert(escaped(y)[i] == ey[i]);
            }
            lemma_escape_byte_heads(y[0], x[0]);
        }
        assert(escaped(x.skip(1)) =~= escaped(x).skip(ex.len() as int));
        assert(escaped(y.skip(1)) =~= escaped(y).skip(ey.len() as int));
        lemma_escaped_injective(x.skip(1), y.skip(1));
        assert forall|i: int| 0 <= i < x.len() implies x[i] == y[i] by {
            if i > 0 {
                assert(x.skip(1)[i - 1] == x[i]);
                assert(y.skip(1)[i - 1] == y[i]);
            }
        }
        assert(x =~= y);
    }
}

/// Escapes one byte of text into `out`.
fn push_escaped_byte(out: &mut Vec<u8>, b: u8)
    ensures
        final(out)@ == old(out)@ + escape_byte(b),
{
    proof {
        reveal_strlit("&amp;");
        reveal_strlit("&lt;");
        reveal_strlit("&gt;");
        reveal_strlit("&quot;");
    }
    if b == 38 {
        append_ascii(out, "&amp;");
    } else if b == 60 {
        append_ascii(out, "&lt;");
    } else if b == 62 {
        append_ascii(out, "&gt;");
    } else if b == 34 {
        append_ascii(out, "&quot;");
    } else {
        out.push(b);
        assert(final(out)@ =~= old(out)@ + escape_byte(b));
    }
}

/// Appends the escaped form of `s` to `out`.
pub fn append_escaped(out: &mut Vec<u8>, s: &Vec<u8>)
    ensures
        final(out)@ == old(out)@ + escaped(s@),
{
    let mut i: usize = 0;
    while i < s.len()
        invariant
            i <= s@.len(),
            out@ == old(out)@ + escaped(s@.take(i as int)),
        decreases s@.len() - i,
    {
        proof {
            let b = s@[i as int];
            let one: Seq<u8> = seq![b];
            assert(s@.take(i as int + 1) =~= s@.take(i as int) + one);
            lemma_escaped_concat(s@.take(i as int), one);
            assert(one[0] == b);
            assert(one.skip(1) =~= Seq::<u8>::empty());
            assert(escaped(one.skip(1)) =~= Seq::<u8>::empty());
            assert(escaped(one) == escape_byte(one[0]) + escaped(one.skip(1)));
            assert(escaped(one) =~= escape_byte(b));
        }
        push_escaped_byte(out, s[i]);
        i = i + 1;
    }
    proof {
        assert(s@.take(s@.len() as int) =~= s@);
    }
}

/// The escaped form of a byte vector, on its own.
pub fn escape_html(s: &Vec<u8>) -> (r: Vec<u8>)
    ensures
        r@ == escaped(s@),
{
    let mut out: Vec<u8> = Vec::new();
    append_escaped(&mut out, s);
    assert(out@ =~= escaped(s@));
    out
}

/// A full HTML document: the escaped title in the head, the already
/// rendered content in the body.
pub open spec fn page_bytes(title: Seq<u8>, content: Seq<u8>) -> Seq<u8> {
    ascii_bytes("<html><head><title>"@) + escaped(title) + ascii_bytes("</title></head><body>"@)
        + content + ascii_bytes("</body></html>"@)
}

/// Renders a full HTML document around already rendered body content.
pub fn get_basic_response_body(title: &Vec<u8>, content: &Vec<u8>) -> (r: Vec<u8>)
    ensures
        r@ == page_bytes(title@, content@),
{
    proof {
        reveal_strlit("<html><head><title>");
        reveal_strlit("</title></head><body>");
        reveal_strlit("</body></html>");
    }
    let mut out: Vec<u8> = Vec::new();
    append_ascii(&mut out, "<html><head><title>");
    append_escaped(&mut out, title);
    append_ascii(&mut out, "</title></head><body>");
    out.extend_from_slice(content.as_slice());
    append_ascii(&mut out, "</body></html>");
    assert(out@ =~= page_bytes(title@, content@));
    out
}

/// One directory-listing entry: a link whose href and label are escaped.
pub open spec fn listing_item(href: Seq<u8>, label: Seq<u8>) -> Seq<u8> {
    ascii_bytes("<li><a href=\""@) + escaped(href) + ascii_bytes("\">"@) + escaped(label)
        + ascii_bytes("</a></li>"@)
}

/// The items of a directory listing, one per entry, in order.
pub open spec fn listing_items(pairs: Seq<(Seq<u8>, Seq<u8>)>) -> Seq<u8>
    decreases pairs.len(),
{
    if pairs.len() == 0 {
        Seq::empty()
    } else {
        listing_item(pairs[0].0, pairs[0].1) + listing_items(pairs.skip(1))
    }
}

/// A whole directory listing: an unordered list of the entries' links.
pub open spec fn listing_bytes(pairs: Seq<(Seq<u8>, Seq<u8>)>) -> Seq<u8> {
    ascii_bytes("<ul>"@) + listing_items(pairs) + ascii_bytes("</ul>"@)
}

/// The views of a vector of (href, label) byte pairs.
pub open spec fn pair_views(pairs: Seq<(Vec<u8>, Vec<u8>)>) -> Seq<(Seq<u8>, Seq<u8>)> {
    pairs.map(|i: int, p: (Vec<u8>, Vec<u8>)| (p.0@, p.1@))
}

/// Rendering one more entry extends the items by one link.
pub proof fn lemma_listing_items_push(pairs: Seq<(Seq<u8>, Seq<u8>)>, p: (Seq<u8>, Seq<u8>))
    ensures
        listing_items(pairs.push(p)) == listing_items(pairs) + listing_item(p.0, p.1),
    decreases pairs.len(),
{
    if pairs.len() == 0 {
        assert(pairs.push(p)[0] == p);
        assert(pairs.push(p).skip(1) =~= Seq::<(Seq<u8>, Seq<u8>)>::empty());
        assert(listing_items(pairs.push(p).skip(1)) =~= Seq::<u8>::empty());
        assert(listing_items(pairs.push(p)) == listing_item(p.0, p.1) + listing_items(
            pairs.push(p).skip(1),
        ));
        assert(listing_items(pairs) =~= Seq::<u8>::empty());
        assert(listing_items(pairs.push(p)) =~= listing_items(pairs) + listing_item(p.0, p.1));
    } else {
        let rest = pairs.skip(1);
        assert(pairs.push(p).skip(1) =~= rest.push(p));
        lemma_listing_items_push(rest, p);
        assert(pairs.push(p)[0] == pairs[0]);
        assert(listing_items(pairs.push(p)) == listing_item(pairs[0].0, pairs[0].1)
            + (listing_items(rest) + listing_item(p.0, p.1)));
        assert(listing_items(pairs.push(p)) =~= (listing_item(pairs[0].0, pairs[0].1)
            + listing_items(rest)) + listing_item(p.0, p.1));
    }
}

/// Renders the unordered list for a directory's (href, label) entries.
pub fn render_listing(pairs: &Vec<(Vec<u8>, Vec<u8>)>) -> (r: Vec<u8>)
    ensures
        r@ == listing_bytes(pair_views(pairs@)),
{
    proof {
        reveal_strlit("<ul>");
        reveal_strlit("</ul>");
        reveal_strlit("<li><a href=\"");
        reveal_strlit("\">");
        reveal_strlit("</a></li>");
    }
    let mut out: Vec<u8> = Vec::new();
    append_ascii(&mut out, "<ul>");
    let mut i: usize = 0;
    while i < pairs.len()
        invariant
            i <= pairs@.len(),
            out@ == ascii_bytes("<ul>"@) + listing_items(pair_views(pairs@).take(i as int)),
        decreases pairs@.len() - i,
    {
        proof {
            reveal_strlit("<li><a href=\"");
            reveal_strlit("\">");
            reveal_strlit("</a></li>");
            assert(pair_views(pairs@).take(i as int + 1) =~= pair_views(pairs@).take(
                i as int,
            ).push((pairs@[i as int].0@, pairs@[i as int].1@)));
            lemma_listing_items_push(
                pair_views(pairs@).take(i as int),
                (pairs@[i as int].0@, pairs@[i as int].1@),
            );
        }
        append_ascii(&mut out, "<li><a href=\"");
        append_escaped(&mut out, &pairs[i].0);
        append_ascii(&mut out, "\">");
        append_escaped(&mut out, &pairs[i].1);
        append_ascii(&mut out, "</a></li>");
        proof {
            assert(out@ =~= ascii_bytes("<ul>"@) + listing_items(
                pair_views(pairs@).take(i as int + 1),
            ));
        }
        i = i + 1;
    }
    append_ascii(&mut out, "</ul>");
    proof {
        assert(pair_views(pairs@).take(pairs@.len() as int) =~= pair_views(pairs@));
        assert(out@ =~= listing_bytes(pair_views(pairs@)));
    }
    out
}

} // verus!
