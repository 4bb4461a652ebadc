use vstd::prelude::*;

use crate::AggregationError;
use crate::Project;
use crate::org::ExportedPage;
use crate::org::PageModel;
use crate::org::RenderedPage;
use crate::org::document_html;
use crate::org::export_document;
use crate::paths::SysPath;
use crate::text::html_name;
use crate::text::html_name_of;
use crate::text::is_iso_date;
use crate::text::opt_text;
use crate::text::iso_date_key;
use crate::text::parse_date_key;

verus! {

#[verifier::external_type_specification]
#[verifier::external_body]
pub struct ExRssItem(rss::Item);

#[verifier::external_type_specification]
#[verifier::external_body]
pub struct ExRssError(rss::Error);

/// What a feed item holds: its title, its optional description, and its date
/// text, as they were handed to the feed. This module builds items only
/// through its own constructor, which leaves every other field at its
/// default.
pub uninterp spec fn item_view(it: rss::Item) -> (Seq<char>, Option<Seq<char>>, Seq<char>);

/// The serialized feed channel: a function of its title, link, description
/// and items alone, every other channel field left at its default.
pub uninterp spec fn channel_xml(
    title: Seq<char>,
    link: Option<Seq<char>>,
    description: Option<Seq<char>>,
    items: Seq<(Seq<char>, Option<Seq<char>>, Seq<char>)>,
) -> Seq<char>;

/// Relies on rss::Item's setters: the built item carries exactly the given
/// title, description and date.
#[verifier::external_body]
fn build_rss_item(title: &str, description: &Option<String>, date: &str) -> (r: rss::Item)
    ensures
        item_view(r) == (
            title@,
            match *description {
                Some(ref d) => Some(d@),
                None => None,
            },
            date@,
        ),
{
    let mut item = rss::Item::default();
    item.set_title(title.to_string());
    if let Some(d) = description {
        item.set_description(d.clone());
    }
    item.set_pub_date(date.to_string());
    item
}

/// Relies on rss::Channel::write_to: the channel built from the given title,
/// link, description and items serializes to a text that depends on them
/// alone, with the items in the given order. The call succeeds: write_to
/// fails only when the sink does, the in-memory buffer never does, and the
/// produced bytes are valid UTF-8 (rss's own Display impl depends on both).
#[verifier::external_body]
fn write_channel(
    title: &str,
    link: &Option<String>,
    description: &Option<String>,
    items: Vec<rss::Item>,
) -> (r: Result<String, rss::Error>)
    ensures
        r is Ok,
        r matches Ok(s) ==> s@ == channel_xml(
            title@,
            match *link {
                Some(ref l) => Some(l@),
                None => None,
            },
            match *description {
                Some(ref d) => Some(d@),
                None => None,
            },
            items@.map_values(|it: rss::Item| item_view(it)),
        ),
{
    let mut channel = rss::Channel::default();
    channel.set_title(title.to_string());
    if let Some(l) = link {
        channel.set_link(l.clone());
    }
    if let Some(d) = description {
        channel.set_description(d.clone());
    }
    channel.set_items(items);
    let buf = channel.write_to(Vec::new())?;
    String::from_utf8(buf).map_err(|e| rss::Error::Utf8(e.utf8_error()))
}

/// One article of the feed, as it was added.
pub struct FeedItem {
    pub title: String,
    pub description: Option<String>,
    pub date: String,
}

pub open spec fn feed_item_model(it: FeedItem) -> (Seq<char>, Option<Seq<char>>, Seq<char>) {
    (
        it.title@,
        match it.description {
            Some(d) => Some(d@),
            None => None,
        },
        it.date@,
    )
}

pub open spec fn feed_models(items: Seq<FeedItem>) -> Seq<(Seq<char>, Option<Seq<char>>, Seq<char>)> {
    items.map_values(|it: FeedItem| feed_item_model(it))
}

/// The feed channel of one project. It lives in two states: building, while
/// articles are added, and finalized, after the one `generate` call that
/// serializes it; any mutation after that is a contract violation, answered
/// with a dedicated error.
pub struct RssGenerator {
    pub title: String,
    pub link: Option<String>,
    pub description: Option<String>,
    pub items: Vec<FeedItem>,
    pub finalized: bool,
}

impl RssGenerator {
    /// Starts a feed for one project: its title is the project's name, its
    /// link the project's home link if set, its description the project's
    /// description if set; no articles yet, building.
    pub fn new(project: &Project) -> (r: RssGenerator)
        ensures
            r.title@ == project.name@,
            opt_text(r.link) == opt_text(project.link_home),
            opt_text(r.description) == opt_text(project.description),
            r.items@.len() == 0,
            !r.finalized,
    {
        let link = match &project.link_home {
            Some(l) => Some(l.clone()),
            None => None,
        };
        let description = match &project.description {
            Some(d) => Some(d.clone()),
            None => None,
        };
        RssGenerator {
            title: project.name.clone(),
            link,
            description,
            items: Vec::new(),
            finalized: false,
        }
    }

    /// Appends one article while the feed is building. After finalization the
    /// call is rejected as a contract violation and the feed is unchanged.
    pub fn add_article(&mut self, title: &str, description: Option<&str>, date: &str) -> (r:
        Result<(), AggregationError>)
        ensures
            old(self).finalized ==> (r matches Err(e) && e is ContractViolation && *final(self)
                == *old(self)),
            !old(self).finalized ==> {
                &&& r is Ok
                &&& !final(self).finalized
                &&& final(self).title == old(self).title
                &&& final(self).link == old(self).link
                &&& final(self).description == old(self).description
                &&& feed_models(final(self).items@) == feed_models(old(self).items@).push(
                    (
                        title@,
                        match description {
                            Some(d) => Some(d@),
                            None => None,
                        },
                        date@,
                    ),
                )
            },
    {
        if self.finalized {
            return Err(AggregationError::ContractViolation);
        }
        let ghost pre = feed_models(self.items@);
        let item = FeedItem {
            title: title.to_owned(),
            description: match description {
                Some(d) => Some(d.to_owned()),
                None => None,
            },
            date: date.to_owned(),
        };
        let ghost itemm = feed_item_model(item);
        self.items.push(item);
        proof {
            assert(feed_models(self.items@) =~= pre.push(itemm));
        }
        Ok(())
    }

    /// Serializes the feed: all articles added so far, once each, in the
    /// order they were added, around the title, link and description fixed at
    /// construction. On a building feed the call succeeds and consumes the
    /// building state: the feed is finalized afterwards, and a second call,
    /// like any later mutation, is rejected as a contract violation.
    pub fn generate(&mut self) -> (r: Result<String, AggregationError>)
        ensures
            old(self).finalized ==> (r matches Err(e) && e is ContractViolation && *final(self)
                == *old(self)),
            !old(self).finalized ==> {
                &&& final(self).finalized
                &&& final(self).title == old(self).title
                &&& final(self).link == old(self).link
                &&& final(self).description == old(self).description
                &&& final(self).items == old(self).items
                &&& (r matches Ok(s) && s@ == channel_xml(
                    old(self).title@,
                    opt_text(old(self).link),
                    opt_text(old(self).description),
                    feed_models(old(self).items@),
                ))
            },
    {
        if self.finalized {
            return Err(AggregationError::ContractViolation);
        }
        let mut rss_items: Vec<rss::Item> = Vec::new();
        let n = self.items.len();
        let mut i: usize = 0;
        proof {
            assert(rss_items@.map_values(|it: rss::Item| item_view(it)) =~= feed_models(
                self.items@,
            ).take(0int));
        }
        while i < n
            invariant
                i <= n,
                n == self.items@.len(),
                rss_items@.len() == i,
                rss_items@.map_values(|it: rss::Item| item_view(it)) == feed_models(
                    self.items@,
                ).take(i as int),
            decreases n - i,
        {
            let entry = &self.items[i];
            let item = build_rss_item(entry.title.as_str(), &entry.description, entry.date.as_str());
            rss_items.push(item);
            proof {
                assert(rss_items@.map_values(|it: rss::Item| item_view(it)) =~= feed_models(
                    self.items@,
                ).take(i as int + 1));
            }
            i += 1;
        }
        proof {
            assert(feed_models(self.items@).take(n as int) =~= feed_models(self.items@));
        }
        let out = write_channel(self.title.as_str(), &self.link, &self.description, rss_items);
        self.finalized = true;
        match out {
            Ok(s) => Ok(s),
            Err(_) => Err(AggregationError::Serialize),
        }
    }
}

/// A page's recency rank: the date key of a well-formed date, else below
/// every real date.
pub open spec fn date_rank(p: PageModel) -> int {
    match p.date {
        Some(d) => if is_iso_date(d) {
            iso_date_key(d)
        } else {
            -1
        },
        None => -1,
    }
}

pub open spec fn page_models(s: Seq<RenderedPage>) -> Seq<PageModel> {
    s.map_values(|p: RenderedPage| p@)
}

/// Each page's rank paired with its discovery position.
pub open spec fn rank_pairs(ps: Seq<PageModel>) -> Seq<(int, int)> {
    Seq::new(ps.len(), |i: int| (date_rank(ps[i]), i))
}

/// The sitemap's order on rank pairs: higher rank first, ties by the earlier
/// discovery position.
pub open spec fn pair_leq(a: (int, int), b: (int, int)) -> bool {
    a.0 > b.0 || (a.0 == b.0 && a.1 <= b.1)
}

/// The pages ordered most recent first, ties kept in discovery order.
pub open spec fn recent_first_order(ps: Seq<PageModel>) -> Seq<PageModel> {
    rank_pairs(ps).sort_by(|a: (int, int), b: (int, int)| pair_leq(a, b)).map_values(
        |pr: (int, int)| ps[pr.1],
    )
}

/// The order the sitemap lists pages in.
pub open spec fn sitemap_pages(ps: Seq<PageModel>, recent_first: bool) -> Seq<PageModel> {
    if recent_first {
        recent_first_order(ps)
    } else {
        ps
    }
}

/// Rank pairs in sitemap order.
pub open spec fn pairs_sorted(s: Seq<(int, int)>) -> bool {
    forall|i: int, j: int| 0 <= i < j < s.len() ==> pair_leq(#[trigger] s[i], #[trigger] s[j])
}

proof fn lemma_pair_leq_total()
    ensures
        vstd::relations::total_ordering(|a: (int, int), b: (int, int)| pair_leq(a, b)),
{
    let leq = |a: (int, int), b: (int, int)| pair_leq(a, b);
    assert forall|a: (int, int), b: (int, int)| #[trigger] leq(a, b) && #[trigger] leq(b, a)
        implies a == b by {
        assert(a.0 == b.0 && a.1 == b.1);
        assert(a == (a.0, a.1));
        assert(b == (b.0, b.1));
    }
}

fn page_rank_exec(p: &RenderedPage) -> (r: i64)
    ensures
        r as int == date_rank(p@),
{
    match &p.date {
        Some(d) => match parse_date_key(d.as_str()) {
            Some(k) => {
                proof {
                    assert(iso_date_key(d@) <= 99999999);
                }
                k as i64
            },
            None => -1,
        },
        None => -1,
    }
}

pub open spec fn pair_models(s: Seq<(i64, usize)>) -> Seq<(int, int)> {
    s.map_values(|p: (i64, usize)| (p.0 as int, p.1 as int))
}

/// Orders pages most recent first: descending date, ties kept in the order
/// the pages came in.
pub fn order_pages(pages: &Vec<RenderedPage>) -> (r: Vec<RenderedPage>)
    ensures
        page_models(r@) == recent_first_order(page_models(pages@)),
{
    let ghost ps = page_models(pages@);
    let ghost leq = |a: (int, int), b: (int, int)| pair_leq(a, b);
    let n = pages.len();
    let mut pairs: Vec<(i64, usize)> = Vec::new();
    let mut i: usize = 0;
    proof {
        assert(pair_models(pairs@) =~= rank_pairs(ps).take(0int));
    }
    while i < n
        invariant
            i <= n,
            n == pages@.len(),
            ps == page_models(pages@),
            pairs@.len() == i,
            pair_models(pairs@) == rank_pairs(ps).take(i as int),
        decreases n - i,
    {
        let rank = page_rank_exec(&pages[i]);
        pairs.push((rank, i));
        proof {
            assert(pair_models(pairs@) =~= rank_pairs(ps).take(i as int + 1));
        }
        i += 1;
    }
    proof {
        assert(rank_pairs(ps).take(n as int) =~= rank_pairs(ps));
    }
    // selection sort on the rank pairs
    let mut src = pairs;
    let mut sorted: Vec<(i64, usize)> = Vec::new();
    proof {
        broadcast use vstd::seq_lib::group_to_multiset_ensures;
        assert(pair_models(sorted@) =~= Seq::<(int, int)>::empty());
        assert(pair_models(sorted@).to_multiset().add(pair_models(src@).to_multiset())
            =~= pair_models(src@).to_multiset());
    }
    while src.len() > 0
        invariant
            ps == page_models(pages@),
            leq == (|a: (int, int), b: (int, int)| pair_leq(a, b)),
            pair_models(sorted@).to_multiset().add(pair_models(src@).to_multiset()) == rank_pairs(
                ps,
            ).to_multiset(),
            pairs_sorted(pair_models(sorted@)),
            forall|x: int, y: int|
                0 <= x < sorted@.len() && 0 <= y < src@.len() ==> pair_leq(
                    #[trigger] pair_models(sorted@)[x],
                    #[trigger] pair_models(src@)[y],
                ),
        decreases src.len(),
    {
        let mut m: usize = 0;
        let mut k: usize = 1;
        while k < src.len()
            invariant
                src.len() > 0,
                m < src.len(),
                1 <= k <= src.len(),
                forall|j: int|
                    0 <= j < k ==> pair_leq(
                        pair_models(src@)[m as int],
                        #[trigger] pair_models(src@)[j],
                    ),
            decreases src.len() - k,
        {
            let (rk, ik) = src[k];
            let (rm, im) = src[m];
            if rk > rm || (rk == rm && ik < im) {
                m = k;
            }
            k += 1;
        }
        let ghost old_src = src@;
        let ghost old_sorted = sorted@;
        let e = src.remove(m);
        sorted.push(e);
        proof {
            broadcast use vstd::seq_lib::group_to_multiset_ensures;
            let ghost em = (e.0 as int, e.1 as int);
            assert(pair_models(src@) =~= pair_models(old_src).remove(m as int));
            assert(pair_models(sorted@) =~= pair_models(old_sorted).push(em));
            assert(pair_models(old_src)[m as int] == em);
            assert(pair_models(old_src).remove(m as int).to_multiset() =~= pair_models(
                old_src,
            ).to_multiset().remove(em));
            assert(pair_models(old_sorted).push(em).to_multiset() =~= pair_models(
                old_sorted,
            ).to_multiset().insert(em));
            assert(pair_models(old_src).contains(em));
            assert(pair_models(old_src).to_multiset().count(em) > 0);
            assert(pair_models(sorted@).to_multiset().add(pair_models(src@).to_multiset())
                =~= rank_pairs(ps).to_multiset());
            assert forall|x: int, y: int|
                #![trigger pair_models(sorted@)[x], pair_models(sorted@)[y]]
                0 <= x < y < sorted@.len() implies pair_leq(
                pair_models(sorted@)[x],
                pair_models(sorted@)[y],
            ) by {
                if y < old_sorted.len() {
                    assert(pair_models(sorted@)[x] == pair_models(old_sorted)[x]);
                    assert(pair_models(sorted@)[y] == pair_models(old_sorted)[y]);
                } else {
                    assert(pair_models(sorted@)[y] == em);
                    if x < old_sorted.len() {
                        assert(pair_models(sorted@)[x] == pair_models(old_sorted)[x]);
                        assert(pair_leq(
                            pair_models(old_sorted)[x],
                            pair_models(old_src)[m as int],
                        ));
                    }
                }
            }
            assert forall|x: int, y: int|
                0 <= x < sorted@.len() && 0 <= y < src@.len() implies pair_leq(
                #[trigger] pair_models(sorted@)[x],
                #[trigger] pair_models(src@)[y],
            ) by {
                let oy: int = if y < m {
                    y
                } else {
                    y + 1
                };
                assert(pair_models(src@)[y] == pair_models(old_src)[oy]);
                if x < old_sorted.len() {
                    assert(pair_models(sorted@)[x] == pair_models(old_sorted)[x]);
                } else {
                    assert(pair_models(sorted@)[x] == em);
                    assert(pair_leq(pair_models(old_src)[m as int], pair_models(old_src)[oy]));
                }
            }
        }
    }
    proof {
        broadcast use vstd::seq_lib::group_to_multiset_ensures;
        assert(pair_models(src@) =~= Seq::<(int, int)>::empty());
        assert(pair_models(sorted@).to_multiset().add(pair_models(src@).to_multiset())
            =~= pair_models(sorted@).to_multiset());
        lemma_pair_leq_total();
        rank_pairs(ps).lemma_sort_by_ensures(leq);
        assert(vstd::relations::sorted_by(pair_models(sorted@), leq)) by {
            assert forall|i: int, j: int|
                0 <= i < j < pair_models(sorted@).len() implies #[trigger] leq(
                pair_models(sorted@)[i],
                pair_models(sorted@)[j],
            ) by {
                assert(pair_leq(pair_models(sorted@)[i], pair_models(sorted@)[j]));
            }
        }
        vstd::seq_lib::lemma_sorted_unique(
            pair_models(sorted@),
            rank_pairs(ps).sort_by(leq),
            leq,
        );
        assert(pair_models(sorted@) == rank_pairs(ps).sort_by(leq));
    }
    // read the pages out in the sorted order
    let mut out: Vec<RenderedPage> = Vec::new();
    let mut k: usize = 0;
    proof {
        assert(page_models(out@) =~= recent_first_order(ps).take(0int));
        assert(recent_first_order(ps).len() == sorted@.len());
    }
    while k < sorted.len()
        invariant
            k <= sorted@.len(),
            ps == page_models(pages@),
            leq == (|a: (int, int), b: (int, int)| pair_leq(a, b)),
            pages@.len() == ps.len(),
            pair_models(sorted@) == rank_pairs(ps).sort_by(leq),
            recent_first_order(ps).len() == sorted@.len(),
            page_models(out@) == recent_first_order(ps).take(k as int),
        decreases sorted@.len() - k,
    {
        let (_, idx) = sorted[k];
        let ghost em = pair_models(sorted@)[k as int];
        proof {
            broadcast use vstd::seq_lib::group_to_multiset_ensures;
            lemma_pair_leq_total();
            rank_pairs(ps).lemma_sort_by_ensures(leq);
            assert(em == (sorted@[k as int].0 as int, sorted@[k as int].1 as int));
            assert(em.1 == idx as int);
            assert(rank_pairs(ps).sort_by(leq).contains(em));
            assert(rank_pairs(ps).sort_by(leq).to_multiset().count(em) > 0);
            assert(rank_pairs(ps).to_multiset().count(em) > 0);
            assert(rank_pairs(ps).contains(em));
            let w = choose|w: int| 0 <= w < rank_pairs(ps).len() && rank_pairs(ps)[w] == em;
            assert(em.1 == w);
            assert(0 <= idx < pages@.len());
            assert(recent_first_order(ps)[k as int] == ps[em.1]);
        }
        let ghost pre_out = page_models(out@);
        out.push((&pages[idx]).duplicate());
        proof {
            assert(page_models(out@) =~= pre_out.push(pages@[idx as int]@));
            assert(ps[em.1] == pages@[idx as int]@);
            assert(page_models(out@) =~= recent_first_order(ps).take(k as int + 1));
        }
        k += 1;
    }
    proof {
        assert(recent_first_order(ps).take(sorted@.len() as int) =~= recent_first_order(ps));
    }
    out
}

/// One line of the index document: a link to the page, shown under its
/// title, or under its file name when it has none.
pub open spec fn page_line(p: PageModel) -> Seq<char> {
    "- [[file:"@ + p.file_name + "]["@ + (match p.title {
        Some(t) => t,
        None => p.file_name,
    }) + "]]\n"@
}

/// The listing of the index document: one line per page, in order.
pub open spec fn pages_lines(ps: Seq<PageModel>) -> Seq<char>
    decreases ps.len(),
{
    if ps.len() == 0 {
        Seq::empty()
    } else {
        pages_lines(ps.drop_last()) + page_line(ps.last())
    }
}

/// The whole index document: its title keyword, then the listing.
pub open spec fn sitemap_org_text(title: Seq<char>, ps: Seq<PageModel>) -> Seq<char> {
    "#+TITLE: "@ + title + "\n\n"@ + pages_lines(ps)
}

/// The index builder of one project: it lists the rendered pages as links,
/// most recent first when so configured.
pub struct SitemapGenerator {
    pub title: String,
    pub filename: String,
    pub recent_first: bool,
}

impl SitemapGenerator {
    /// Reads the sitemap settings off a project: the configured title and
    /// file name, with the project's name and a conventional name as the
    /// fallbacks.
    pub fn new(project: &Project) -> (r: SitemapGenerator)
        ensures
            r.title@ == (match project.sitemap_title {
                Some(t) => t@,
                None => project.name@,
            }),
            r.filename@ == (match project.sitemap_filename {
                Some(f) => f@,
                None => "sitemap.org"@,
            }),
            r.recent_first == project.recent_first,
    {
        let title = match &project.sitemap_title {
            Some(t) => t.clone(),
            None => project.name.clone(),
        };
        let filename = match &project.sitemap_filename {
            Some(f) => f.clone(),
            None => "sitemap.org".to_owned(),
        };
        SitemapGenerator { title, filename, recent_first: project.recent_first }
    }

    /// Builds the index document's text: the title keyword, then one link
    /// line per page. With `recent_first` the pages are listed by descending
    /// date, ties in the order they came in; otherwise in the order they
    /// came in.
    pub fn generate_index(&self, pages: &Vec<RenderedPage>) -> (r: String)
        ensures
            r@ == sitemap_org_text(
                self.title@,
                sitemap_pages(page_models(pages@), self.recent_first),
            ),
    {
        let ghost listed = sitemap_pages(page_models(pages@), self.recent_first);
        let ordered: Vec<RenderedPage> = if self.recent_first {
            order_pages(pages)
        } else {
            let mut copy: Vec<RenderedPage> = Vec::new();
            let mut i: usize = 0;
            proof {
                assert(page_models(copy@) =~= page_models(pages@).take(0int));
            }
            while i < pages.len()
                invariant
                    i <= pages@.len(),
                    page_models(copy@) == page_models(pages@).take(i as int),
                decreases pages@.len() - i,
            {
                let ghost pre = page_models(copy@);
                copy.push((&pages[i]).duplicate());
                proof {
                    assert(page_models(copy@) =~= pre.push(pages@[i as int]@));
                    assert(page_models(copy@) =~= page_models(pages@).take(i as int + 1));
                }
                i += 1;
            }
            proof {
                assert(page_models(pages@).take(pages@.len() as int) =~= page_models(pages@));
            }
            copy
        };
        let mut s = String::new();
        s.append("#+TITLE: ");
        s.append(self.title.as_str());
        s.append("\n\n");
        let ghost head: Seq<char> = "#+TITLE: "@ + self.title@ + "\n\n"@;
        proof {
            assert(page_models(ordered@) == listed);
            assert(s@ =~= head + pages_lines(listed.take(0int)));
        }
        let mut i: usize = 0;
        while i < ordered.len()
            invariant
                i <= ordered@.len(),
                page_models(ordered@) == listed,
                listed.len() == ordered@.len(),
                head == "#+TITLE: "@ + self.title@ + "\n\n"@,
                s@ == head + pages_lines(listed.take(i as int)),
            decreases ordered@.len() - i,
        {
            let p = &ordered[i];
            s.append("- [[file:");
            s.append(p.file_name.as_str());
            s.append("][");
            match &p.title {
                Some(t) => s.append(t.as_str()),
                None => s.append(p.file_name.as_str()),
            }
            s.append("]]\n");
            proof {
                let taken = listed.take(i as int + 1);
                assert(taken.drop_last() =~= listed.take(i as int));
                assert(taken.last() == listed[i as int]);
                assert(listed[i as int] == ordered@[i as int]@);
                assert(s@ =~= head + pages_lines(taken));
            }
            i += 1;
        }
        proof {
            assert(listed.take(ordered@.len() as int) =~= listed);
        }
        s
    }

    /// Exports the index through the same document-export path as any other
    /// document: its text is parsed and rendered, and the page lands flat
    /// under the publish root, named after the configured sitemap file.
    pub fn export(&self, publish_dir: &SysPath, pages: &Vec<RenderedPage>) -> (r: ExportedPage)
        ensures
            r.html@ == document_html(
                sitemap_org_text(
                    self.title@,
                    sitemap_pages(page_models(pages@), self.recent_first),
                ),
            ),
            r.page.file_name@ == html_name_of(self.filename@),
            opt_text(r.page.title) == crate::org::first_keyword(
                crate::org::org_events(
                    sitemap_org_text(
                        self.title@,
                        sitemap_pages(page_models(pages@), self.recent_first),
                    ),
                ),
                "title"@,
            ),
            r.dest@.absolute == publish_dir@.absolute,
            r.dest@.parts == publish_dir@.parts.push(html_name_of(self.filename@)),
    {
        let text = self.generate_index(pages);
        let handler = export_document(text.as_str());
        let name = html_name(self.filename.as_str());
        let mut dest = publish_dir.duplicate();
        dest.push_part(name.clone());
        ExportedPage {
            dest,
            html: handler.output,
            page: RenderedPage { file_name: name, title: handler.title, date: handler.date },
        }
    }
}

} // verus!
