//! Finding the link to the local tool archive on a problem page.
use crate::select::views;
use vstd::prelude::*;

verus! {

/// An `a` element of a page: its descendant text pieces and its `href`.
#[derive(Clone, Debug, PartialEq, Eq)]
pub struct Anchor {
    pub texts: Vec<String>,
    pub href: Option<String>,
}

/// Why no single tool link was found: the number of links that were.
#[derive(Clone, Copy, Debug, PartialEq, Eq, Structural)]
pub struct ToolLinkError {
    pub found: usize,
}

pub type AnchorView = (Seq<Seq<char>>, Option<Seq<char>>);

pub open spec fn opt_view(o: Option<String>) -> Option<Seq<char>> {
    match o {
        Some(s) => Some(s@),
        None => None,
    }
}

pub open spec fn anchor_views(s: Seq<Anchor>) -> Seq<AnchorView> {
    s.map_values(|a: Anchor| (views(a.texts@), opt_view(a.href)))
}

/// The anchors that scraper finds in an HTML document, in the order in which
/// Html::select yields them.
pub uninterp spec fn anchors_of(html: Seq<char>) -> Seq<(Seq<Seq<char>>, Option<Seq<char>>)>;

/// The text that marks the link to the local tools.
pub open spec fn local_marker() -> Seq<char> {
    seq!['\u{30ed}', '\u{30fc}', '\u{30ab}', '\u{30eb}', '\u{7248}']
}

/// `m` stands in `s` from position `k`.
pub open spec fn occurs_at(s: Seq<char>, m: Seq<char>, k: int) -> bool {
    0 <= k && k + m.len() <= s.len() && s.subrange(k, k + m.len()) == m
}

/// `m` stands somewhere in `s`.
pub open spec fn occurs_in(s: Seq<char>, m: Seq<char>) -> bool {
    exists|k: int| occurs_at(s, m, k)
}

/// One of the text pieces holds the marker.
pub open spec fn mentions_tools(texts: Seq<Seq<char>>) -> bool {
    exists|i: int| 0 <= i < texts.len() && occurs_in(#[trigger] texts[i], local_marker())
}

/// The `href` of every anchor whose text holds the marker and that has one, in order.
pub open spec fn tool_links(anchors: Seq<AnchorView>) -> Seq<Seq<char>>
    decreases anchors.len(),
{
    if anchors.len() == 0 {
        Seq::empty()
    } else {
        let rest = tool_links(anchors.drop_last());
        let a = anchors.last();
        if mentions_tools(a.0) && a.1 is Some {
            rest.push(a.1->Some_0)
        } else {
            rest
        }
    }
}

/// Relies on scraper: Html::parse_document reads the page, Selector::parse
/// accepts the selector `a`, Html::select yields the matching elements in the
/// order of its node arena, and ElementRef::text and ElementRef::attr give each one's
/// text pieces and attribute. The result depends on the page alone.
#[verifier::external_body]
fn document_anchors(html: &str, selector: &str, attr: &str) -> (r: Vec<Anchor>)
    requires
        selector@ == seq!['a'],
        attr@ == seq!['h', 'r', 'e', 'f'],
    ensures
        anchor_views(r@) == anchors_of(html@),
{
    let document = scraper::Html::parse_document(html);
    match scraper::Selector::parse(selector) {
        Ok(sel) => document.select(&sel).map(|e| Anchor {
            texts: e.text().map(|t| t.to_string()).collect(),
            href: e.attr(attr).map(|h| h.to_string()),
        }).collect(),
        Err(_) => Vec::new(),
    }
}

/// Whether `m` stands somewhere in `s`.
pub fn text_contains(s: &str, m: &str) -> (r: bool)
    ensures
        r == occurs_in(s@, m@),
{
    let n = s.unicode_len();
    let ml = m.unicode_len();
    if ml > n {
        return false;
    }
    let mut k: usize = 0;
    while k <= n - ml
        invariant
            n == s@.len(),
            ml == m@.len(),
            ml <= n,
            k <= n - ml + 1,
            forall|k2: int| 0 <= k2 < k ==> !occurs_at(s@, m@, k2),
        decreases n - ml + 1 - k,
    {
        let mut j: usize = 0;
        while j < ml && s.get_char(k + j) == m.get_char(j)
            invariant
                n == s@.len(),
                ml == m@.len(),
                k + ml <= n,
                j <= ml,
                s@.subrange(k as int, k + j) == m@.subrange(0, j as int),
            decreases ml - j,
        {
            proof {
                assert(s@.subrange(k as int, k + j + 1) =~= s@.subrange(k as int, k + j).push(
                    s@[k + j],
                ));
                assert(m@.subrange(0, j + 1) =~= m@.subrange(0, j as int).push(m@[j as int]));
            }
            j = j + 1;
        }
        if j == ml {
            proof {
                assert(m@.subrange(0, ml as int) =~= m@);
                assert(occurs_at(s@, m@, k as int));
            }
            return true;
        }
        proof {
            if occurs_at(s@, m@, k as int) {
                assert(s@.subrange(k as int, k + ml)[j as int] == m@[j as int]);
            }
        }
        k = k + 1;
    }
    false
}

fn mentions_marker(texts: &Vec<String>, marker: &str) -> (r: bool)
    requires
        marker@ == local_marker(),
    ensures
        r == mentions_tools(views(texts@)),
{
    let mut i: usize = 0;
    while i < texts.len()
        invariant
            i <= texts.len(),
            marker@ == local_marker(),
            forall|i2: int| 0 <= i2 < i ==> !occurs_in(#[trigger] views(texts@)[i2], local_marker()),
        decreases texts.len() - i,
    {
        assert(views(texts@).len() == texts@.len());
        assert(views(texts@)[i as int] == texts@[i as int]@);
        if text_contains(texts[i].as_str(), marker) {
            assert(occurs_in(views(texts@)[i as int], local_marker()));
            return true;
        }
        i = i + 1;
    }
    false
}

/// The link to the local tools among `anchors`: the `href` of the one anchor
/// whose text holds the marker and that has one. When there is not exactly
/// one such anchor, how many there are.
pub fn select_tool_url(anchors: &Vec<Anchor>) -> (r: Result<String, ToolLinkError>)
    ensures
        ({
            let links = tool_links(anchor_views(anchors@));
            &&& links.len() == 1 ==> r is Ok && r->Ok_0@ == links[0]
            &&& links.len() != 1 ==> r == Err::<String, ToolLinkError>(
                ToolLinkError { found: links.len() as usize },
            )
        }),
{
    let marker = "\u{30ed}\u{30fc}\u{30ab}\u{30eb}\u{7248}";
    proof {
        reveal_strlit("\u{30ed}\u{30fc}\u{30ab}\u{30eb}\u{7248}");
        assert(marker@ =~= local_marker());
    }
    let mut tools: Vec<String> = Vec::new();
    let mut i: usize = 0;
    assert(anchor_views(anchors@).take(0) =~= Seq::<AnchorView>::empty());
    assert(views(tools@) =~= Seq::<Seq<char>>::empty());
    while i < anchors.len()
        invariant
            i <= anchors.len(),
            marker@ == local_marker(),
            tools.len() <= i,
            views(tools@) == tool_links(anchor_views(anchors@).take(i as int)),
        decreases anchors.len() - i,
    {
        let a = &anchors[i];
        proof {
            assert(anchor_views(anchors@).take(i + 1).drop_last() =~= anchor_views(anchors@).take(
                i as int,
            ));
            assert(anchor_views(anchors@)[i as int] == (views(a.texts@), opt_view(a.href)));
        }
        if mentions_marker(&a.texts, marker) {
            match &a.href {
                Some(h) => {
                    let item = h.clone();
                    proof {
                        assert(views(tools@.push(item)) =~= views(tools@).push(item@));
                    }
                    tools.push(item);
                },
                None => {},
            }
        }
        i = i + 1;
    }
    assert(anchor_views(anchors@).take(i as int) =~= anchor_views(anchors@));
    if tools.len() != 1 {
        Err(ToolLinkError { found: tools.len() })
    } else {
        assert(views(tools@)[0] == tools@[0]@);
        Ok(tools[0].clone())
    }
}

/// The link to the local tools on an HTML page: the `href` of the one `a`
/// element whose text holds the marker, as scraper reads the page. When there
/// is not exactly one such element, how many there are.
pub fn find_tool_url(html: &str) -> (r: Result<String, ToolLinkError>)
    ensures
        ({
            let links = tool_links(anchors_of(html@));
            &&& links.len() == 1 ==> r is Ok && r->Ok_0@ == links[0]
            &&& links.len() != 1 ==> r == Err::<String, ToolLinkError>(
                ToolLinkError { found: links.len() as usize },
            )
        }),
{
    let selector = "a";
    let attr = "href";
    proof {
        reveal_strlit("a");
        reveal_strlit("href");
        assert(selector@ =~= seq!['a']);
        assert(attr@ =~= seq!['h', 'r', 'e', 'f']);
    }
    let anchors = document_anchors(html, selector, attr);
    select_tool_url(&anchors)
}

} // verus!
