//! Pagination of a tag-list API: a response's `Link` header names related
//! pages, and the listing continues at the page linked with the `next`
//! relation. The header's raw text is handed in; choosing the next page out
//! of the parsed links is decided here.

use std::str::FromStr;

use vstd::prelude::*;

use crate::store::names_contain;

verus! {

/// One parsed link-header value: the target URI and its relation types, in
/// their standard lowercase text.
pub struct LinkEntry {
    pub uri: String,
    pub rels: Vec<String>,
}

/// The link values a well-formed `Link` header carries, in header order,
/// each as its URI and relation texts; `None` for text that does not parse
/// as a `Link` header.
pub uninterp spec fn link_entries_of(raw: Seq<char>) -> Option<Seq<(Seq<char>, Seq<Seq<char>>)>>;

/// The values of a parsed entry list.
pub open spec fn entries_view(es: Seq<LinkEntry>) -> Seq<(Seq<char>, Seq<Seq<char>>)> {
    es.map_values(|e: LinkEntry| (e.uri@, e.rels.deep_view()))
}

/// Relies on hyperx's `Link` header parsing: `Link::from_str` reads the raw
/// header text into link values; each value's target URI and relation types
/// (in their standard text) are handed back, in order. The result is a
/// function of the header text alone.
#[verifier::external_body]
fn parse_link_header(raw: &str) -> (r: Option<Vec<LinkEntry>>)
    ensures
        match r {
            Some(es) => link_entries_of(raw@) == Some(entries_view(es@)),
            None => link_entries_of(raw@) is None,
        },
{
    let link = hyperx::header::Link::from_str(raw).ok()?;
    let mut out = Vec::new();
    for v in link.values() {
        let uri = v.link().to_string();
        let mut rels = Vec::new();
        if let Some(rs) = v.rel() {
            for rel in rs {
                rels.push(rel.to_string());
            }
        }
        out.push(LinkEntry { uri, rels });
    }
    Some(out)
}

/// The first link carrying the `next` relation, when there is one.
pub open spec fn spec_next_of(entries: Seq<(Seq<char>, Seq<Seq<char>>)>) -> Option<Seq<char>>
    decreases entries.len(),
{
    if entries.len() == 0 {
        None
    } else if entries[0].1.contains("next"@) {
        Some(entries[0].0)
    } else {
        spec_next_of(entries.drop_first())
    }
}

/// The URL the listing continues at: the first link of the header that
/// carries the `next` relation. `None` when the header text does not parse
/// or no link carries the relation.
pub fn next_page_url(raw_link_header: &str) -> (r: Option<String>)
    ensures
        match r {
            Some(u) => link_entries_of(raw_link_header@) matches Some(es) && spec_next_of(es)
                == Some(u@),
            None => match link_entries_of(raw_link_header@) {
                Some(es) => spec_next_of(es) is None,
                None => true,
            },
        },
{
    let entries = match parse_link_header(raw_link_header) {
        Some(es) => es,
        None => {
            return None;
        },
    };
    let ghost es = entries_view(entries@);
    let mut i: usize = 0;
    proof {
        assert(es.skip(0) =~= es);
    }
    while i < entries.len()
        invariant
            0 <= i <= entries.len(),
            es == entries_view(entries@),
            link_entries_of(raw_link_header@) == Some(es),
            spec_next_of(es) == spec_next_of(es.skip(i as int)),
        decreases entries.len() - i,
    {
        proof {
            assert(es.skip(i as int)[0] == es[i as int]);
            assert(es.skip(i as int).drop_first() =~= es.skip(i as int + 1));
        }
        if names_contain(&entries[i].rels, "next") {
            proof {
                reveal_strlit("next");
            }
            return Some(entries[i].uri.clone());
        }
        i = i + 1;
    }
    proof {
        assert(es.skip(entries.len() as int) =~= Seq::<(Seq<char>, Seq<Seq<char>>)>::empty());
    }
    None
}

} // verus!
