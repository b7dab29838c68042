//! The content registry: the owning store of all posts, pages, stylesheets
//! and assets of one build.
//!
//! The registry assigns every post and page a pair of output filenames
//! derived from its title (trimmed, spaces replaced by underscores,
//! lower-cased, with `.html` and `.md` extensions).  When the plain names
//! collide with an entity already registered in the same collection, the
//! suffixes `_1`, `_2`, ... are tried in increasing order until both names
//! are simultaneously free; both filenames always carry the same suffix.
//! The registry also enforces that at most one page is the site's landing
//! page; that page's `.html` output is named `index.html`, and no other
//! page may claim the reserved title `index`.

use vstd::prelude::*;
use vstd::set_lib::{lemma_int_range, lemma_len_subset, lemma_len_union, set_int_range};
use crate::error::BlogError;
use crate::page::{parse_page_spec, Page, PageData};
use crate::post::{parse_post_spec, Post, PostData};
use crate::stylesheet::{Asset, Stylesheet};
use crate::text::{
    dec_str, digit_char, lower_of, lowercase, spaces_to_underscores, str_eq, trim, trim_spec,
    underscored, uint_to_string,
};

verus! {

/// The normalized form of a title, used as the stem of its filenames:
/// trimmed, spaces replaced by underscores, lower-cased.
pub open spec fn slug_of(title: Seq<char>) -> Seq<char> {
    lower_of(underscored(trim_spec(title)))
}

/// The basename for collision suffix `n`: the bare stem for 0, else the
/// stem with `_n` appended.
pub open spec fn suffixed_base(base: Seq<char>, n: nat) -> Seq<char> {
    if n == 0 {
        base
    } else {
        base + "_"@ + dec_str(n)
    }
}

/// The `.html` output filename for suffix `n`.
pub open spec fn html_name(base: Seq<char>, n: nat) -> Seq<char> {
    suffixed_base(base, n) + ".html"@
}

/// The `.md` source filename for suffix `n`.
pub open spec fn md_name(base: Seq<char>, n: nat) -> Seq<char> {
    suffixed_base(base, n) + ".md"@
}

/// Whether either proposed filename collides with any of the registered
/// `(html, md)` filename pairs, each against its own extension.
pub open spec fn names_taken(
    names: Seq<(Seq<char>, Seq<char>)>,
    html: Seq<char>,
    md: Seq<char>,
) -> bool {
    exists|i: int|
        0 <= i < names.len() && (#[trigger] names[i].0 == html || names[i].1 == md)
}

/// Whether the names that suffix `n` yields over the two stems collide
/// with a registered pair.
pub open spec fn suffix_taken(
    names: Seq<(Seq<char>, Seq<char>)>,
    html_base: Seq<char>,
    md_base: Seq<char>,
    n: nat,
) -> bool {
    names_taken(names, html_name(html_base, n), md_name(md_base, n))
}

/// The stem of a page's `.html` filename: the reserved name `index` for
/// the landing page, else the page's normalized title.
pub open spec fn page_html_base(index: bool, title: Seq<char>) -> Seq<char> {
    if index {
        "index"@
    } else {
        slug_of(title)
    }
}

/// Whether `n` is the suffix the collision resolution picks: the first one
/// whose two names are both free.
pub open spec fn is_chosen_suffix(
    names: Seq<(Seq<char>, Seq<char>)>,
    html_base: Seq<char>,
    md_base: Seq<char>,
    n: nat,
) -> bool {
    !suffix_taken(names, html_base, md_base, n) && forall|m: nat|
        m < n ==> suffix_taken(names, html_base, md_base, m)
}

/// The suffix the collision resolution picks for the two stems among
/// `names`.
pub open spec fn chosen_suffix(
    names: Seq<(Seq<char>, Seq<char>)>,
    html_base: Seq<char>,
    md_base: Seq<char>,
) -> nat {
    choose|n: nat| is_chosen_suffix(names, html_base, md_base, n)
}

/// The filename pairs of a post collection.
pub open spec fn post_names(posts: Seq<Post>) -> Seq<(Seq<char>, Seq<char>)> {
    posts.map(|i: int, p: Post| (p.html_filename@, p.md_filename@))
}

/// The filename pairs of a page collection.
pub open spec fn page_names(pages: Seq<Page>) -> Seq<(Seq<char>, Seq<char>)> {
    pages.map(|i: int, p: Page| (p.html_filename@, p.md_filename@))
}

proof fn lemma_dec_str_len(n: nat)
    ensures
        dec_str(n).len() >= 1,
    decreases n,
{
    if n >= 10 {
        lemma_dec_str_len(n / 10);
    }
}

proof fn lemma_digit_char_inj(a: nat, b: nat)
    requires
        a < 10,
        b < 10,
        digit_char(a) == digit_char(b),
    ensures
        a == b,
{
}

proof fn lemma_dec_str_inj(a: nat, b: nat)
    requires
        dec_str(a) == dec_str(b),
    ensures
        a == b,
    decreases a,
{
    if a < 10 && b < 10 {
        assert(dec_str(a) == seq![digit_char(a)]);
        assert(dec_str(b) == seq![digit_char(b)]);
        assert(digit_char(a) == dec_str(a)[0]);
        assert(digit_char(b) == dec_str(b)[0]);
        lemma_digit_char_inj(a, b);
    } else if a < 10 && b >= 10 {
        lemma_dec_str_len(b / 10);
        assert(dec_str(b).len() >= 2);
        assert(false);
    } else if a >= 10 && b < 10 {
        lemma_dec_str_len(a / 10);
        assert(dec_str(a).len() >= 2);
        assert(false);
    } else {
        lemma_dec_str_len(a / 10);
        lemma_dec_str_len(b / 10);
        assert(dec_str(a).last() == digit_char(a % 10));
        assert(dec_str(b).last() == digit_char(b % 10));
        lemma_digit_char_inj(a % 10, b % 10);
        assert(dec_str(a).drop_last() =~= dec_str(a / 10));
        assert(dec_str(b).drop_last() =~= dec_str(b / 10));
        lemma_dec_str_inj(a / 10, b / 10);
    }
}

proof fn lemma_append_cancel_right(a: Seq<char>, b: Seq<char>, e: Seq<char>)
    requires
        a + e == b + e,
    ensures
        a == b,
{
    assert((a + e).len() == a.len() + e.len());
    assert((b + e).len() == b.len() + e.len());
    assert(a.len() == b.len());
    assert(a =~= (a + e).subrange(0, a.len() as int));
    assert(b =~= (b + e).subrange(0, b.len() as int));
}

proof fn lemma_suffixed_base_inj(base: Seq<char>, n: nat, m: nat)
    requires
        suffixed_base(base, n) == suffixed_base(base, m),
    ensures
        n == m,
{
    reveal_strlit("_");
    if n == 0 && m != 0 {
        lemma_dec_str_len(m);
        assert(suffixed_base(base, m).len() >= base.len() + 2);
        assert(false);
    } else if n != 0 && m == 0 {
        lemma_dec_str_len(n);
        assert(suffixed_base(base, n).len() >= base.len() + 2);
        assert(false);
    } else if n != 0 && m != 0 {
        let p = base + "_"@;
        assert(suffixed_base(base, n) =~= p + dec_str(n));
        assert(suffixed_base(base, m) =~= p + dec_str(m));
        assert(dec_str(n).len() == dec_str(m).len());
        assert(dec_str(n) =~= (p + dec_str(n)).subrange(
            p.len() as int,
            (p.len() + dec_str(n).len()) as int,
        ));
        assert(dec_str(m) =~= (p + dec_str(m)).subrange(
            p.len() as int,
            (p.len() + dec_str(m).len()) as int,
        ));
        lemma_dec_str_inj(n, m);
    }
}

proof fn lemma_html_name_inj(base: Seq<char>, n: nat, m: nat)
    requires
        html_name(base, n) == html_name(base, m),
    ensures
        n == m,
{
    lemma_append_cancel_right(suffixed_base(base, n), suffixed_base(base, m), ".html"@);
    lemma_suffixed_base_inj(base, n, m);
}

proof fn lemma_md_name_inj(base: Seq<char>, n: nat, m: nat)
    requires
        md_name(base, n) == md_name(base, m),
    ensures
        n == m,
{
    lemma_append_cancel_right(suffixed_base(base, n), suffixed_base(base, m), ".md"@);
    lemma_suffixed_base_inj(base, n, m);
}

/// The suffixes whose `.html` name entity `i` holds.
spec fn html_match_set(names: Seq<(Seq<char>, Seq<char>)>, base: Seq<char>, i: int) -> Set<int> {
    Set::new(|n: int| n >= 0 && names[i].0 == html_name(base, n as nat))
}

/// The suffixes whose `.md` name entity `i` holds.
spec fn md_match_set(names: Seq<(Seq<char>, Seq<char>)>, base: Seq<char>, i: int) -> Set<int> {
    Set::new(|n: int| n >= 0 && names[i].1 == md_name(base, n as nat))
}

proof fn lemma_html_match_set_small(names: Seq<(Seq<char>, Seq<char>)>, base: Seq<char>, i: int)
    ensures
        html_match_set(names, base, i).finite(),
        html_match_set(names, base, i).len() <= 1,
{
    let s = html_match_set(names, base, i);
    if exists|x: int| s.contains(x) {
        let x0 = choose|x: int| s.contains(x);
        assert forall|y: int| s.contains(y) implies y == x0 by {
            lemma_html_name_inj(base, y as nat, x0 as nat);
        }
        assert(s =~= Set::empty().insert(x0));
    } else {
        assert(s =~= Set::empty());
    }
}

proof fn lemma_md_match_set_small(names: Seq<(Seq<char>, Seq<char>)>, base: Seq<char>, i: int)
    ensures
        md_match_set(names, base, i).finite(),
        md_match_set(names, base, i).len() <= 1,
{
    let s = md_match_set(names, base, i);
    if exists|x: int| s.contains(x) {
        let x0 = choose|x: int| s.contains(x);
        assert forall|y: int| s.contains(y) implies y == x0 by {
            lemma_md_name_inj(base, y as nat, x0 as nat);
        }
        assert(s =~= Set::empty().insert(x0));
    } else {
        assert(s =~= Set::empty());
    }
}

/// All suffixes blocked by the first `k` entities, through either stem.
spec fn blocked_upto(
    names: Seq<(Seq<char>, Seq<char>)>,
    html_base: Seq<char>,
    md_base: Seq<char>,
    k: int,
) -> Set<int>
    decreases k,
{
    if k <= 0 {
        Set::empty()
    } else {
        blocked_upto(names, html_base, md_base, k - 1).union(
            html_match_set(names, html_base, k - 1),
        ).union(md_match_set(names, md_base, k - 1))
    }
}

proof fn lemma_blocked_card(
    names: Seq<(Seq<char>, Seq<char>)>,
    html_base: Seq<char>,
    md_base: Seq<char>,
    k: int,
)
    requires
        k >= 0,
    ensures
        blocked_upto(names, html_base, md_base, k).finite(),
        blocked_upto(names, html_base, md_base, k).len() <= 2 * k,
    decreases k,
{
    if k > 0 {
        lemma_blocked_card(names, html_base, md_base, k - 1);
        lemma_html_match_set_small(names, html_base, k - 1);
        lemma_md_match_set_small(names, md_base, k - 1);
        let b = blocked_upto(names, html_base, md_base, k - 1);
        let h = html_match_set(names, html_base, k - 1);
        let m = md_match_set(names, md_base, k - 1);
        lemma_len_union(b, h);
        lemma_len_union(b.union(h), m);
    }
}

proof fn lemma_blocked_contains(
    names: Seq<(Seq<char>, Seq<char>)>,
    html_base: Seq<char>,
    md_base: Seq<char>,
    i: int,
    k: int,
    x: int,
)
    requires
        0 <= i < k,
        html_match_set(names, html_base, i).contains(x) || md_match_set(
            names,
            md_base,
            i,
        ).contains(x),
    ensures
        blocked_upto(names, html_base, md_base, k).contains(x),
    decreases k,
{
    if i < k - 1 {
        lemma_blocked_contains(names, html_base, md_base, i, k - 1, x);
    }
}

/// Among the suffixes `0 ..= 2 * names.len()` at least one is free: every
/// registered entity can block at most one suffix through its `.html` name
/// and one through its `.md` name.
proof fn lemma_free_suffix_exists(
    names: Seq<(Seq<char>, Seq<char>)>,
    html_base: Seq<char>,
    md_base: Seq<char>,
)
    ensures
        exists|n: nat| n <= 2 * names.len() && !suffix_taken(names, html_base, md_base, n),
{
    let l = names.len() as int;
    if forall|n: nat| n <= 2 * names.len() ==> suffix_taken(names, html_base, md_base, n) {
        let s = set_int_range(0, 2 * l + 1);
        lemma_int_range(0, 2 * l + 1);
        let b = blocked_upto(names, html_base, md_base, l);
        assert forall|x: int| s.contains(x) implies b.contains(x) by {
            assert(suffix_taken(names, html_base, md_base, x as nat));
            let i = choose|i: int|
                0 <= i < names.len() && (names[i].0 == html_name(html_base, x as nat)
                    || names[i].1 == md_name(md_base, x as nat));
            lemma_blocked_contains(names, html_base, md_base, i, l, x);
        }
        lemma_blocked_card(names, html_base, md_base, l);
        lemma_len_subset(s, b);
        assert(false);
    }
}

proof fn lemma_chosen_unique(
    names: Seq<(Seq<char>, Seq<char>)>,
    html_base: Seq<char>,
    md_base: Seq<char>,
    n1: nat,
    n2: nat,
)
    requires
        is_chosen_suffix(names, html_base, md_base, n1),
        is_chosen_suffix(names, html_base, md_base, n2),
    ensures
        n1 == n2,
{
    if n1 < n2 {
        assert(suffix_taken(names, html_base, md_base, n1));
        assert(false);
    }
    if n2 < n1 {
        assert(suffix_taken(names, html_base, md_base, n2));
        assert(false);
    }
}

/// No two posts of a collection share an `.html` or an `.md` filename.
pub open spec fn posts_filenames_unique(posts: Seq<Post>) -> bool {
    forall|i: int, j: int|
        0 <= i < j < posts.len() ==> posts[i].html_filename@ != posts[j].html_filename@
            && posts[i].md_filename@ != posts[j].md_filename@
}

/// No two pages of a collection share an `.html` or an `.md` filename.
pub open spec fn pages_filenames_unique(pages: Seq<Page>) -> bool {
    forall|i: int, j: int|
        0 <= i < j < pages.len() ==> pages[i].html_filename@ != pages[j].html_filename@
            && pages[i].md_filename@ != pages[j].md_filename@
}

/// Some page of the collection is the landing page.
pub open spec fn has_index_page(pages: Seq<Page>) -> bool {
    exists|i: int| 0 <= i < pages.len() && pages[i].index
}

/// At most one page of the collection is the landing page.
pub open spec fn at_most_one_index(pages: Seq<Page>) -> bool {
    forall|i: int, j: int|
        0 <= i < pages.len() && 0 <= j < pages.len() && pages[i].index && pages[j].index ==> i
            == j
}

/// No page outside the landing page bears the reserved normalized title
/// `index`.
pub open spec fn no_reserved_title(pages: Seq<Page>) -> bool {
    forall|i: int|
        0 <= i < pages.len() && !pages[i].index ==> slug_of(pages[i].title@) != "index"@
}

/// The owning store of all content entities of one build.
pub struct SiteComponentRegistry {
    pages: Vec<Page>,
    posts: Vec<Post>,
    stylesheets: Vec<Stylesheet>,
    assets: Vec<Asset>,
}

impl SiteComponentRegistry {
    /// The registered pages, in insertion order.
    pub closed spec fn spec_pages(&self) -> Seq<Page> {
        self.pages@
    }

    /// The registered posts, in insertion order.
    pub closed spec fn spec_posts(&self) -> Seq<Post> {
        self.posts@
    }

    /// The registered stylesheets, in insertion order.
    pub closed spec fn spec_stylesheets(&self) -> Seq<Stylesheet> {
        self.stylesheets@
    }

    /// The registered assets, in insertion order.
    pub closed spec fn spec_assets(&self) -> Seq<Asset> {
        self.assets@
    }

    /// An empty registry.
    pub fn new() -> (r: SiteComponentRegistry)
        ensures
            r.spec_pages() == Seq::<Page>::empty(),
            r.spec_posts() == Seq::<Post>::empty(),
            r.spec_stylesheets() == Seq::<Stylesheet>::empty(),
            r.spec_assets() == Seq::<Asset>::empty(),
    {
        SiteComponentRegistry {
            pages: Vec::new(),
            posts: Vec::new(),
            stylesheets: Vec::new(),
            assets: Vec::new(),
        }
    }

    /// The registered pages, in insertion order.
    pub fn get_pages(&self) -> (r: &Vec<Page>)
        ensures
            r@ == self.spec_pages(),
    {
        &self.pages
    }

    /// The registered posts, in insertion order.
    pub fn get_posts(&self) -> (r: &Vec<Post>)
        ensures
            r@ == self.spec_posts(),
    {
        &self.posts
    }

    /// The registered pages, for in-place rewriting by later build stages.
    pub fn get_pages_mut(&mut self) -> (r: &mut Vec<Page>)
        ensures
            r@ == old(self).spec_pages(),
            final(self).spec_pages() == final(r)@,
            final(self).spec_posts() == old(self).spec_posts(),
            final(self).spec_stylesheets() == old(self).spec_stylesheets(),
            final(self).spec_assets() == old(self).spec_assets(),
    {
        &mut self.pages
    }

    /// The registered posts, for in-place rewriting by later build stages.
    pub fn get_posts_mut(&mut self) -> (r: &mut Vec<Post>)
        ensures
            r@ == old(self).spec_posts(),
            final(self).spec_posts() == final(r)@,
            final(self).spec_pages() == old(self).spec_pages(),
            final(self).spec_stylesheets() == old(self).spec_stylesheets(),
            final(self).spec_assets() == old(self).spec_assets(),
    {
        &mut self.posts
    }

    /// The registered stylesheets, in insertion order.
    pub fn get_stylesheets(&self) -> (r: &Vec<Stylesheet>)
        ensures
            r@ == self.spec_stylesheets(),
    {
        &self.stylesheets
    }

    /// The registered stylesheets, for in-place rewriting.
    pub fn get_stylesheets_mut(&mut self) -> (r: &mut Vec<Stylesheet>)
        ensures
            r@ == old(self).spec_stylesheets(),
            final(self).spec_stylesheets() == final(r)@,
            final(self).spec_pages() == old(self).spec_pages(),
            final(self).spec_posts() == old(self).spec_posts(),
            final(self).spec_assets() == old(self).spec_assets(),
    {
        &mut self.stylesheets
    }

    /// The registered assets, in insertion order.
    pub fn get_assets(&self) -> (r: &Vec<Asset>)
        ensures
            r@ == self.spec_assets(),
    {
        &self.assets
    }

    /// Whether a post already uses `html_fname` as its `.html` name or
    /// `md_fname` as its `.md` name.
    fn contains_post_filename(&self, html_fname: &String, md_fname: &String) -> (r: bool)
        ensures
            r == names_taken(post_names(self.spec_posts()), html_fname@, md_fname@),
    {
        let ghost names = post_names(self.spec_posts());
        let mut i: usize = 0;
        while i < self.posts.len()
            invariant
                names == post_names(self.spec_posts()),
                0 <= i <= self.spec_posts().len(),
                forall|k: int|
                    0 <= k < i ==> (#[trigger] names[k]).0 != html_fname@ && names[k].1
                        != md_fname@,
            decreases self.spec_posts().len() - i,
        {
            proof {
                assert(names[i as int].0 == self.spec_posts()[i as int].html_filename@);
                assert(names[i as int].1 == self.spec_posts()[i as int].md_filename@);
            }
            if str_eq(self.posts[i].html_filename.as_str(), html_fname.as_str()) || str_eq(
                self.posts[i].md_filename.as_str(),
                md_fname.as_str(),
            ) {
                return true;
            }
            i = i + 1;
        }
        false
    }

    /// Whether a page already uses `html_fname` as its `.html` name or
    /// `md_fname` as its `.md` name.
    fn contains_page_filename(&self, html_fname: &String, md_fname: &String) -> (r: bool)
        ensures
            r == names_taken(page_names(self.spec_pages()), html_fname@, md_fname@),
    {
        let ghost names = page_names(self.spec_pages());
        let mut i: usize = 0;
        while i < self.pages.len()
            invariant
                names == page_names(self.spec_pages()),
                0 <= i <= self.spec_pages().len(),
                forall|k: int|
                    0 <= k < i ==> (#[trigger] names[k]).0 != html_fname@ && names[k].1
                        != md_fname@,
            decreases self.spec_pages().len() - i,
        {
            proof {
                assert(names[i as int].0 == self.spec_pages()[i as int].html_filename@);
                assert(names[i as int].1 == self.spec_pages()[i as int].md_filename@);
            }
            if str_eq(self.pages[i].html_filename.as_str(), html_fname.as_str()) || str_eq(
                self.pages[i].md_filename.as_str(),
                md_fname.as_str(),
            ) {
                return true;
            }
            i = i + 1;
        }
        false
    }

    /// Whether the registry already holds a landing page.
    fn contains_index_page(&self) -> (r: bool)
        ensures
            r == has_index_page(self.spec_pages()),
    {
        let mut i: usize = 0;
        while i < self.pages.len()
            invariant
                0 <= i <= self.spec_pages().len(),
                forall|k: int| 0 <= k < i ==> !(#[trigger] self.spec_pages()[k].index),
            decreases self.spec_pages().len() - i,
        {
            if self.pages[i].index {
                return true;
            }
            i = i + 1;
        }
        false
    }

    /// The normalized stem of a title, as a string.
    fn slug_string(title: &String) -> (r: String)
        ensures
            r@ == slug_of(title@),
    {
        lowercase(spaces_to_underscores(trim(title.as_str())).as_str())
    }

    /// The filenames for suffix `n` over the two stems.
    fn names_for_suffix(html_base: &String, md_base: &String, n: u128) -> (r: (String, String))
        ensures
            r.0@ == html_name(html_base@, n as nat),
            r.1@ == md_name(md_base@, n as nat),
    {
        proof {
            reveal_strlit("_");
            reveal_strlit(".html");
            reveal_strlit(".md");
        }
        let mut html_fname = html_base.clone();
        let mut md_fname = md_base.clone();
        if n > 0 {
            let digits = uint_to_string(n);
            html_fname.append("_");
            html_fname.append(digits.as_str());
            md_fname.append("_");
            md_fname.append(digits.as_str());
        }
        html_fname.append(".html");
        md_fname.append(".md");
        proof {
            assert(html_fname@ =~= html_name(html_base@, n as nat));
            assert(md_fname@ =~= md_name(md_base@, n as nat));
        }
        (html_fname, md_fname)
    }

    /// The `.html`/`.md` filename pair the registry would assign to `post`:
    /// the post's normalized title with the first suffix whose two names are
    /// both still free among the registered posts.
    #[verifier::loop_isolation(false)]
    pub fn get_post_filename(&self, post: &Post) -> (r: Result<(String, String), BlogError>)
        ensures
            ({
                let names = post_names(self.spec_posts());
                let base = slug_of(post.header.title@);
                let n = chosen_suffix(names, base, base);
                match r {
                    Ok(p) => {
                        &&& is_chosen_suffix(names, base, base, n)
                        &&& p.0@ == html_name(base, n)
                        &&& p.1@ == md_name(base, n)
                    },
                    Err(_) => false,
                }
            }),
    {
        let ghost names = post_names(self.spec_posts());
        let base = Self::slug_string(&post.header.title);
        let ghost bb = slug_of(post.header.title@);
        let total = self.posts.len();
        let mut n: u128 = 0;
        loop
            invariant
                names == post_names(self.spec_posts()),
                bb == base@,
                n <= 2 * (total as nat),
                names.len() == total,
                names.len() == self.spec_posts().len(),
                forall|m: nat| m < n ==> suffix_taken(names, bb, bb, m),
            decreases 2 * names.len() + 1 - n,
        {
            let pair = Self::names_for_suffix(&base, &base, n);
            if !self.contains_post_filename(&pair.0, &pair.1) {
                proof {
                    assert(is_chosen_suffix(names, bb, bb, n as nat));
                    assert(exists|m: nat| is_chosen_suffix(names, bb, bb, m));
                    assert(is_chosen_suffix(names, bb, bb, chosen_suffix(names, bb, bb)));
                    lemma_chosen_unique(names, bb, bb, n as nat, chosen_suffix(names, bb, bb));
                }
                return Ok(pair);
            }
            proof {
                assert(suffix_taken(names, bb, bb, n as nat));
                lemma_free_suffix_exists(names, bb, bb);
                let f = choose|m: nat|
                    m <= 2 * names.len() && !suffix_taken(names, bb, bb, m);
                assert(!suffix_taken(names, bb, bb, f));
                if f < n as nat + 1 {
                    assert(suffix_taken(names, bb, bb, f));
                    assert(false);
                }
            }
            n = n + 1;
        }
    }

    /// The `.html`/`.md` filename pair the registry would assign to `page`.
    /// A second landing page is refused, as is the reserved normalized title
    /// `index` on a page that is not the landing page; otherwise the names
    /// carry the first collision-free suffix among the registered pages.
    #[verifier::loop_isolation(false)]
    pub fn get_page_filename(&self, page: &Page) -> (r: Result<(String, String), BlogError>)
        ensures
            ({
                let names = page_names(self.spec_pages());
                let base = slug_of(page.title@);
                let hb = page_html_base(page.index, page.title@);
                let n = chosen_suffix(names, hb, base);
                let dup = page.index && has_index_page(self.spec_pages());
                let reserved = !page.index && base == "index"@;
                match r {
                    Ok(p) => {
                        &&& !dup
                        &&& !reserved
                        &&& is_chosen_suffix(names, hb, base, n)
                        &&& p.0@ == html_name(hb, n)
                        &&& p.1@ == md_name(base, n)
                    },
                    Err(e) => {
                        &&& e.wf()
                        &&& dup ==> e.chain() == seq![duplicate_index_msg()]
                        &&& !dup ==> reserved && e.chain() == seq![reserved_index_msg()]
                    },
                }
            }),
    {
        let ghost names = page_names(self.spec_pages());
        let base = Self::slug_string(&page.title);
        let ghost bb = slug_of(page.title@);
        if page.index && self.contains_index_page() {
            return Err(
                BlogError::new(String::from_str("Duplicate index pages are not allowed.")),
            );
        }
        if !page.index && str_eq(base.as_str(), "index") {
            return Err(
                BlogError::new(String::from_str("Non-index page can't be named 'index'")),
            );
        }
        let html_base = if page.index {
            String::from_str("index")
        } else {
            base.clone()
        };
        let ghost hb = page_html_base(page.index, page.title@);
        proof {
            assert(hb == html_base@);
        }
        let total = self.pages.len();
        let mut n: u128 = 0;
        loop
            invariant
                names == page_names(self.spec_pages()),
                bb == base@,
                hb == html_base@,
                n <= 2 * (total as nat),
                names.len() == total,
                names.len() == self.spec_pages().len(),
                forall|m: nat| m < n ==> suffix_taken(names, hb, bb, m),
            decreases 2 * names.len() + 1 - n,
        {
            let pair = Self::names_for_suffix(&html_base, &base, n);
            if !self.contains_page_filename(&pair.0, &pair.1) {
                proof {
                    assert(is_chosen_suffix(names, hb, bb, n as nat));
                    assert(exists|m: nat| is_chosen_suffix(names, hb, bb, m));
                    assert(is_chosen_suffix(names, hb, bb, chosen_suffix(names, hb, bb)));
                    lemma_chosen_unique(names, hb, bb, n as nat, chosen_suffix(names, hb, bb));
                }
                return Ok(pair);
            }
            proof {
                assert(suffix_taken(names, hb, bb, n as nat));
                lemma_free_suffix_exists(names, hb, bb);
                let f = choose|m: nat|
                    m <= 2 * names.len() && !suffix_taken(names, hb, bb, m);
                assert(!suffix_taken(names, hb, bb, f));
                if f < n as nat + 1 {
                    assert(suffix_taken(names, hb, bb, f));
                    assert(false);
                }
            }
            n = n + 1;
        }
    }

    /// Registers a post: assigns it the first collision-free filename pair
    /// for its title and appends it to the post collection.  Registration of
    /// a post never fails, and filename uniqueness of the collection is
    /// preserved.
    pub fn register_post(&mut self, post: Post) -> (r: Result<(), BlogError>)
        ensures
            r is Ok,
            ({
                let names = post_names(old(self).spec_posts());
                let base = slug_of(post.header.title@);
                let n = chosen_suffix(names, base, base);
                let new_posts = final(self).spec_posts();
                &&& is_chosen_suffix(names, base, base, n)
                &&& new_posts.len() == old(self).spec_posts().len() + 1
                &&& new_posts.take(new_posts.len() - 1) == old(self).spec_posts()
                &&& new_posts.last().header == post.header
                &&& new_posts.last().content == post.content
                &&& new_posts.last().html_filename@ == html_name(base, n)
                &&& new_posts.last().md_filename@ == md_name(base, n)
            }),
            final(self).spec_pages() == old(self).spec_pages(),
            final(self).spec_stylesheets() == old(self).spec_stylesheets(),
            final(self).spec_assets() == old(self).spec_assets(),
            posts_filenames_unique(old(self).spec_posts()) ==> posts_filenames_unique(
                final(self).spec_posts(),
            ),
    {
        let ghost old_posts = self.spec_posts();
        let ghost names = post_names(old_posts);
        let ghost base = slug_of(post.header.title@);
        let mut post = post;
        match self.get_post_filename(&post) {
            Ok(pair) => {
                post.html_filename = pair.0;
                post.md_filename = pair.1;
            },
            Err(e) => {
                return Err(e);
            },
        }
        self.posts.push(post);
        proof {
            let new_posts = self.spec_posts();
            assert(new_posts.take(new_posts.len() - 1) =~= old_posts);
            let n = chosen_suffix(names, base, base);
            assert forall|k: int| 0 <= k < old_posts.len() implies (#[trigger] names[k]).0
                == old_posts[k].html_filename@ && names[k].1 == old_posts[k].md_filename@ by {}
            if posts_filenames_unique(old_posts) {
                assert forall|i: int, j: int| 0 <= i < j < new_posts.len() implies new_posts[i].html_filename@
                    != new_posts[j].html_filename@ && new_posts[i].md_filename@
                    != new_posts[j].md_filename@ by {
                    if j < new_posts.len() - 1 {
                        assert(new_posts[i] == old_posts[i]);
                        assert(new_posts[j] == old_posts[j]);
                    } else {
                        assert(new_posts[i] == old_posts[i]);
                        assert(!names_taken(names, html_name(base, n), md_name(base, n)));
                        assert(!(names[i].0 == html_name(base, n) || names[i].1 == md_name(
                            base,
                            n,
                        )));
                    }
                }
            }
        }
        Ok(())
    }

    /// Registers a page: enforces that at most one page is the landing page
    /// and that no other page bears the reserved title `index`, assigns the
    /// first collision-free filename pair, and appends the page.  On failure
    /// the registry is left unchanged.
    pub fn register_page(&mut self, page: Page) -> (r: Result<(), BlogError>)
        ensures
            ({
                let names = page_names(old(self).spec_pages());
                let base = slug_of(page.title@);
                let hb = page_html_base(page.index, page.title@);
                let n = chosen_suffix(names, hb, base);
                let dup = page.index && has_index_page(old(self).spec_pages());
                let reserved = !page.index && base == "index"@;
                let new_pages = final(self).spec_pages();
                match r {
                    Ok(u) => {
                        &&& !dup
                        &&& !reserved
                        &&& is_chosen_suffix(names, hb, base, n)
                        &&& new_pages.len() == old(self).spec_pages().len() + 1
                        &&& new_pages.take(new_pages.len() - 1) == old(self).spec_pages()
                        &&& new_pages.last().title == page.title
                        &&& new_pages.last().content == page.content
                        &&& new_pages.last().draft == page.draft
                        &&& new_pages.last().index == page.index
                        &&& new_pages.last().html_filename@ == html_name(hb, n)
                        &&& new_pages.last().md_filename@ == md_name(base, n)
                    },
                    Err(e) => {
                        &&& *final(self) == *old(self)
                        &&& e.wf()
                        &&& dup ==> e.chain() == seq![duplicate_index_msg()]
                        &&& !dup ==> reserved && e.chain() == seq![reserved_index_msg()]
                    },
                }
            }),
            final(self).spec_posts() == old(self).spec_posts(),
            final(self).spec_stylesheets() == old(self).spec_stylesheets(),
            final(self).spec_assets() == old(self).spec_assets(),
            pages_filenames_unique(old(self).spec_pages()) ==> pages_filenames_unique(
                final(self).spec_pages(),
            ),
            at_most_one_index(old(self).spec_pages()) ==> at_most_one_index(
                final(self).spec_pages(),
            ),
            no_reserved_title(old(self).spec_pages()) ==> no_reserved_title(
                final(self).spec_pages(),
            ),
    {
        let ghost old_pages = self.spec_pages();
        let ghost names = page_names(old_pages);
        let ghost base = slug_of(page.title@);
        let mut page = page;
        match self.get_page_filename(&page) {
            Ok(pair) => {
                page.html_filename = pair.0;
                page.md_filename = pair.1;
            },
            Err(e) => {
                return Err(e);
            },
        }
        self.pages.push(page);
        proof {
            let new_pages = self.spec_pages();
            assert(new_pages.take(new_pages.len() - 1) =~= old_pages);
            let hb = page_html_base(page.index, page.title@);
            let n = chosen_suffix(names, hb, base);
            assert forall|k: int| 0 <= k < old_pages.len() implies (#[trigger] names[k]).0
                == old_pages[k].html_filename@ && names[k].1 == old_pages[k].md_filename@ by {}
            if pages_filenames_unique(old_pages) {
                assert forall|i: int, j: int| 0 <= i < j < new_pages.len() implies new_pages[i].html_filename@
                    != new_pages[j].html_filename@ && new_pages[i].md_filename@
                    != new_pages[j].md_filename@ by {
                    if j < new_pages.len() - 1 {
                        assert(new_pages[i] == old_pages[i]);
                        assert(new_pages[j] == old_pages[j]);
                    } else {
                        assert(new_pages[i] == old_pages[i]);
                        assert(!names_taken(names, html_name(hb, n), md_name(base, n)));
                        assert(!(names[i].0 == html_name(hb, n) || names[i].1 == md_name(
                            base,
                            n,
                        )));
                    }
                }
            }
            if at_most_one_index(old_pages) {
                assert forall|i: int, j: int|
                    0 <= i < new_pages.len() && 0 <= j < new_pages.len() && new_pages[i].index
                        && new_pages[j].index implies i == j by {
                    if i < new_pages.len() - 1 {
                        assert(new_pages[i] == old_pages[i]);
                    }
                    if j < new_pages.len() - 1 {
                        assert(new_pages[j] == old_pages[j]);
                    }
                }
            }
            if no_reserved_title(old_pages) {
                assert forall|i: int|
                    0 <= i < new_pages.len() && !new_pages[i].index implies slug_of(
                    new_pages[i].title@) != "index"@ by {
                    if i < new_pages.len() - 1 {
                        assert(new_pages[i] == old_pages[i]);
                    }
                }
            }
        }
        Ok(())
    }
}

pub open spec fn duplicate_index_msg() -> Seq<char> {
    "Duplicate index pages are not allowed."@
}

pub open spec fn reserved_index_msg() -> Seq<char> {
    "Non-index page can't be named 'index'"@
}

pub open spec fn post_parse_ctx_msg(name: Seq<char>) -> Seq<char> {
    "Failed to parse post '"@ + name + "'"@
}

pub open spec fn page_parse_ctx_msg(name: Seq<char>) -> Seq<char> {
    "Failed to parse page '"@ + name + "'"@
}

pub open spec fn page_register_ctx_msg() -> Seq<char> {
    "Failed to register new page"@
}

/// `p` is the post the parsed fields `d` yield when registered over the
/// collection `before`: the fields carried over, the filenames derived from
/// the title with the first collision-free suffix.
pub open spec fn post_matches_data(p: Post, d: PostData, before: Seq<Post>) -> bool {
    let base = slug_of(d.title);
    let n = chosen_suffix(post_names(before), base, base);
    &&& p.header.title@ == d.title
    &&& p.header.description@ == d.description
    &&& p.header.date == d.date
    &&& p.header.tags@.map(|i: int, t: String| t@) == d.tags
    &&& p.header.draft == d.draft
    &&& p.content@ == d.content
    &&& p.html_filename@ == html_name(base, n)
    &&& p.md_filename@ == md_name(base, n)
}

/// Parsing and registering the files one by one, in order, starting from
/// the collection `before`, succeeds and yields the collection `after`.
pub open spec fn posts_loaded(
    before: Seq<Post>,
    files: Seq<(Seq<char>, Seq<char>)>,
    after: Seq<Post>,
) -> bool
    decreases files.len(),
{
    if files.len() == 0 {
        after == before
    } else {
        match parse_post_spec(files[0].1) {
            Ok(d) => exists|p: Post|
                #[trigger] post_matches_data(p, d, before) && posts_loaded(
                    before.push(p),
                    files.drop_first(),
                    after,
                ),
            Err(m) => false,
        }
    }
}

/// Whether the registry accepts the page fields `d` over the collection
/// `before`: it is not a second landing page and does not bear the reserved
/// normalized title `index`.
pub open spec fn page_registrable(d: PageData, before: Seq<Page>) -> bool {
    &&& !(d.index && has_index_page(before))
    &&& !(!d.index && slug_of(d.title) == "index"@)
}

/// `p` is the page the parsed fields `d` yield when registered over the
/// collection `before`.
pub open spec fn page_matches_data(p: Page, d: PageData, before: Seq<Page>) -> bool {
    let base = slug_of(d.title);
    let hb = page_html_base(d.index, d.title);
    let n = chosen_suffix(page_names(before), hb, base);
    &&& p.title@ == d.title
    &&& p.draft == d.draft
    &&& p.index == d.index
    &&& p.content@ == d.content
    &&& p.html_filename@ == html_name(hb, n)
    &&& p.md_filename@ == md_name(base, n)
}

/// Parsing and registering the files one by one, in order, starting from
/// the collection `before`, succeeds and yields the collection `after`.
pub open spec fn pages_loaded(
    before: Seq<Page>,
    files: Seq<(Seq<char>, Seq<char>)>,
    after: Seq<Page>,
) -> bool
    decreases files.len(),
{
    if files.len() == 0 {
        after == before
    } else {
        match parse_page_spec(files[0].1) {
            Ok(d) => page_registrable(d, before) && exists|p: Page|
                #[trigger] page_matches_data(p, d, before) && pages_loaded(
                    before.push(p),
                    files.drop_first(),
                    after,
                ),
            Err(m) => false,
        }
    }
}

proof fn lemma_posts_loaded_snoc(
    before: Seq<Post>,
    files: Seq<(Seq<char>, Seq<char>)>,
    mid: Seq<Post>,
    f: (Seq<char>, Seq<char>),
    p: Post,
)
    requires
        posts_loaded(before, files, mid),
        parse_post_spec(f.1) is Ok,
        post_matches_data(p, parse_post_spec(f.1)->Ok_0, mid),
    ensures
        posts_loaded(before, files.push(f), mid.push(p)),
    decreases files.len(),
{
    let g = files.push(f);
    assert(g.len() == files.len() + 1);
    if files.len() == 0 {
        assert(mid == before);
        assert(g[0] == f);
        assert(g.drop_first() =~= Seq::<(Seq<char>, Seq<char>)>::empty());
        assert(posts_loaded(mid.push(p), g.drop_first(), mid.push(p)));
    } else {
        assert(g[0] == files[0]);
        let d0 = parse_post_spec(files[0].1)->Ok_0;
        let p0 = choose|p0: Post|
            #[trigger] post_matches_data(p0, d0, before) && posts_loaded(
                before.push(p0),
                files.drop_first(),
                mid,
            );
        lemma_posts_loaded_snoc(before.push(p0), files.drop_first(), mid, f, p);
        assert(g.drop_first() =~= files.drop_first().push(f));
    }
}

proof fn lemma_pages_loaded_snoc(
    before: Seq<Page>,
    files: Seq<(Seq<char>, Seq<char>)>,
    mid: Seq<Page>,
    f: (Seq<char>, Seq<char>),
    p: Page,
)
    requires
        pages_loaded(before, files, mid),
        parse_page_spec(f.1) is Ok,
        page_registrable(parse_page_spec(f.1)->Ok_0, mid),
        page_matches_data(p, parse_page_spec(f.1)->Ok_0, mid),
    ensures
        pages_loaded(before, files.push(f), mid.push(p)),
    decreases files.len(),
{
    let g = files.push(f);
    assert(g.len() == files.len() + 1);
    if files.len() == 0 {
        assert(mid == before);
        assert(g[0] == f);
        assert(g.drop_first() =~= Seq::<(Seq<char>, Seq<char>)>::empty());
        assert(pages_loaded(mid.push(p), g.drop_first(), mid.push(p)));
    } else {
        assert(g[0] == files[0]);
        let d0 = parse_page_spec(files[0].1)->Ok_0;
        let p0 = choose|p0: Page|
            #[trigger] page_matches_data(p0, d0, before) && pages_loaded(
                before.push(p0),
                files.drop_first(),
                mid,
            );
        lemma_pages_loaded_snoc(before.push(p0), files.drop_first(), mid, f, p);
        assert(g.drop_first() =~= files.drop_first().push(f));
    }
}

/// The `(name, contents)` views of a list of files.
pub open spec fn file_views(files: Seq<(String, String)>) -> Seq<(Seq<char>, Seq<char>)> {
    files.map(|i: int, f: (String, String)| (f.0@, f.1@))
}

impl SiteComponentRegistry {
    /// Parses the given post files (each a `(name, contents)` pair) in order
    /// and registers every parsed post.  The first file that fails to parse
    /// aborts loading; the posts registered before it stay registered.
    #[verifier::loop_isolation(false)]
    pub fn init_posts(&mut self, files: &Vec<(String, String)>) -> (r: Result<(), BlogError>)
        ensures
            final(self).spec_pages() == old(self).spec_pages(),
            final(self).spec_stylesheets() == old(self).spec_stylesheets(),
            final(self).spec_assets() == old(self).spec_assets(),
            posts_filenames_unique(old(self).spec_posts()) ==> posts_filenames_unique(
                final(self).spec_posts(),
            ),
            ({
                let fv = file_views(files@);
                match r {
                    Ok(u) => posts_loaded(old(self).spec_posts(), fv, final(self).spec_posts()),
                    Err(e) => exists|k: int|
                        {
                            &&& 0 <= k < fv.len()
                            &&& posts_loaded(
                                old(self).spec_posts(),
                                #[trigger] fv.take(k),
                                final(self).spec_posts(),
                            )
                            &&& parse_post_spec(fv[k].1) matches Err(m)
                            &&& e.wf()
                            &&& e.chain() == seq![post_parse_ctx_msg(fv[k].0), m]
                        },
                }
            }),
    {
        let ghost fv = file_views(files@);
        let ghost before = self.spec_posts();
        let mut k: usize = 0;
        while k < files.len()
            invariant
                0 <= k <= files@.len(),
                posts_loaded(before, fv.take(k as int), self.spec_posts()),
                posts_filenames_unique(before) ==> posts_filenames_unique(self.spec_posts()),
                self.spec_pages() == old(self).spec_pages(),
                self.spec_stylesheets() == old(self).spec_stylesheets(),
                self.spec_assets() == old(self).spec_assets(),
            decreases files@.len() - k,
        {
            proof {
                assert(fv[k as int] == (files@[k as int].0@, files@[k as int].1@));
            }
            let ghost mid = self.spec_posts();
            let file = &files[k];
            match crate::post::parse_from_string(file.1.clone()) {
                Ok(post) => {
                    let ghost d = parse_post_spec(fv[k as int].1)->Ok_0;
                    let ghost hdr = post.header;
                    let ghost body = post.content;
                    match self.register_post(post) {
                        Ok(u) => {
                            proof {
                                let new_posts = self.spec_posts();
                                assert(new_posts =~= mid.push(new_posts.last()));
                                assert(post_matches_data(new_posts.last(), d, mid));
                                lemma_posts_loaded_snoc(
                                    before,
                                    fv.take(k as int),
                                    mid,
                                    fv[k as int],
                                    new_posts.last(),
                                );
                                assert(fv.take(k as int).push(fv[k as int]) =~= fv.take(
                                    k + 1,
                                ));
                            }
                        },
                        Err(e) => {
                            return Err(
                                e.context(String::from_str("Failed to register post")),
                            );
                        },
                    }
                },
                Err(e) => {
                    let mut m = String::from_str("Failed to parse post '");
                    m.append(file.0.as_str());
                    m.append("'");
                    proof {
                        reveal_strlit("Failed to parse post '");
                        reveal_strlit("'");
                        assert(m@ =~= post_parse_ctx_msg(fv[k as int].0));
                    }
                    return Err(e.context(m));
                },
            }
            k = k + 1;
        }
        proof {
            assert(fv.take(files@.len() as int) =~= fv);
        }
        Ok(())
    }

    /// Parses the given page files (each a `(name, contents)` pair) in order
    /// and registers every parsed page.  The first file that fails to parse
    /// or whose page the registry refuses aborts loading; the pages
    /// registered before it stay registered.
    #[verifier::loop_isolation(false)]
    pub fn init_pages(&mut self, files: &Vec<(String, String)>) -> (r: Result<(), BlogError>)
        ensures
            final(self).spec_posts() == old(self).spec_posts(),
            final(self).spec_stylesheets() == old(self).spec_stylesheets(),
            final(self).spec_assets() == old(self).spec_assets(),
            pages_filenames_unique(old(self).spec_pages()) ==> pages_filenames_unique(
                final(self).spec_pages(),
            ),
            at_most_one_index(old(self).spec_pages()) ==> at_most_one_index(
                final(self).spec_pages(),
            ),
            no_reserved_title(old(self).spec_pages()) ==> no_reserved_title(
                final(self).spec_pages(),
            ),
            ({
                let fv = file_views(files@);
                match r {
                    Ok(u) => pages_loaded(old(self).spec_pages(), fv, final(self).spec_pages()),
                    Err(e) => exists|k: int|
                        0 <= k < fv.len() && pages_loaded(
                            old(self).spec_pages(),
                            #[trigger] fv.take(k),
                            final(self).spec_pages(),
                        ) && e.wf() && match parse_page_spec(fv[k].1) {
                            Err(m) => e.chain() == seq![page_parse_ctx_msg(fv[k].0), m],
                            Ok(d) => {
                                let dup = d.index && has_index_page(final(self).spec_pages());
                                let reserved = !d.index && slug_of(d.title) == "index"@;
                                &&& !page_registrable(d, final(self).spec_pages())
                                &&& dup ==> e.chain() == seq![
                                    page_register_ctx_msg(),
                                    duplicate_index_msg(),
                                ]
                                &&& !dup ==> reserved && e.chain() == seq![
                                    page_register_ctx_msg(),
                                    reserved_index_msg(),
                                ]
                            },
                        },
                }
            }),
    {
        let ghost fv = file_views(files@);
        let ghost before = self.spec_pages();
        let mut k: usize = 0;
        while k < files.len()
            invariant
                0 <= k <= files@.len(),
                pages_loaded(before, fv.take(k as int), self.spec_pages()),
                pages_filenames_unique(before) ==> pages_filenames_unique(self.spec_pages()),
                at_most_one_index(before) ==> at_most_one_index(self.spec_pages()),
                no_reserved_title(before) ==> no_reserved_title(self.spec_pages()),
                self.spec_posts() == old(self).spec_posts(),
                self.spec_stylesheets() == old(self).spec_stylesheets(),
                self.spec_assets() == old(self).spec_assets(),
            decreases files@.len() - k,
        {
            proof {
                assert(fv[k as int] == (files@[k as int].0@, files@[k as int].1@));
            }
            let ghost mid = self.spec_pages();
            let file = &files[k];
            match crate::page::parse_from_string(file.1.as_str()) {
                Ok(page) => {
                    let ghost d = parse_page_spec(fv[k as int].1)->Ok_0;
                    match self.register_page(page) {
                        Ok(u) => {
                            proof {
                                let new_pages = self.spec_pages();
                                assert(new_pages =~= mid.push(new_pages.last()));
                                assert(page_matches_data(new_pages.last(), d, mid));
                                lemma_pages_loaded_snoc(
                                    before,
                                    fv.take(k as int),
                                    mid,
                                    fv[k as int],
                                    new_pages.last(),
                                );
                                assert(fv.take(k as int).push(fv[k as int]) =~= fv.take(
                                    k + 1,
                                ));
                            }
                        },
                        Err(e) => {
                            return Err(
                                e.context(String::from_str("Failed to register new page")),
                            );
                        },
                    }
                },
                Err(e) => {
                    let mut m = String::from_str("Failed to parse page '");
                    m.append(file.0.as_str());
                    m.append("'");
                    proof {
                        reveal_strlit("Failed to parse page '");
                        reveal_strlit("'");
                        assert(m@ =~= page_parse_ctx_msg(fv[k as int].0));
                    }
                    return Err(e.context(m));
                },
            }
            k = k + 1;
        }
        proof {
            assert(fv.take(files@.len() as int) =~= fv);
        }
        Ok(())
    }

    /// Loads the posts and then the pages from the given `(name, contents)`
    /// file lists, wrapping a failure of either step with a message naming
    /// the step.
    pub fn initialize(
        &mut self,
        posts_files: &Vec<(String, String)>,
        pages_files: &Vec<(String, String)>,
    ) -> (r: Result<(), BlogError>)
        ensures
            final(self).spec_stylesheets() == old(self).spec_stylesheets(),
            final(self).spec_assets() == old(self).spec_assets(),
            posts_filenames_unique(old(self).spec_posts()) ==> posts_filenames_unique(
                final(self).spec_posts(),
            ),
            pages_filenames_unique(old(self).spec_pages()) ==> pages_filenames_unique(
                final(self).spec_pages(),
            ),
            at_most_one_index(old(self).spec_pages()) ==> at_most_one_index(
                final(self).spec_pages(),
            ),
            no_reserved_title(old(self).spec_pages()) ==> no_reserved_title(
                final(self).spec_pages(),
            ),
            match r {
                Ok(u) => {
                    &&& posts_loaded(
                        old(self).spec_posts(),
                        file_views(posts_files@),
                        final(self).spec_posts(),
                    )
                    &&& pages_loaded(
                        old(self).spec_pages(),
                        file_views(pages_files@),
                        final(self).spec_pages(),
                    )
                },
                Err(e) => e.wf() && e.chain().len() >= 2 && (e.chain()[0]
                    == "Failed to load posts from disk"@ || e.chain()[0]
                    == "Failed to load pages from disk"@),
            },
    {
        match self.init_posts(posts_files) {
            Ok(u) => {},
            Err(e) => {
                return Err(e.context(String::from_str("Failed to load posts from disk")));
            },
        }
        match self.init_pages(pages_files) {
            Ok(u) => {},
            Err(e) => {
                return Err(e.context(String::from_str("Failed to load pages from disk")));
            },
        }
        Ok(())
    }

    /// Registers the given stylesheet files (each a `(filename, contents)`
    /// pair), in order.
    #[verifier::loop_isolation(false)]
    pub fn init_stylesheets(&mut self, files: &Vec<(String, String)>)
        ensures
            final(self).spec_posts() == old(self).spec_posts(),
            final(self).spec_pages() == old(self).spec_pages(),
            final(self).spec_assets() == old(self).spec_assets(),
            final(self).spec_stylesheets().len() == old(self).spec_stylesheets().len()
                + files@.len(),
            final(self).spec_stylesheets().take(old(self).spec_stylesheets().len() as int)
                == old(self).spec_stylesheets(),
            ({
                let base = old(self).spec_stylesheets().len() as int;
                let fv = file_views(files@);
                forall|k: int|
                    0 <= k < fv.len() ==> (#[trigger] final(self).spec_stylesheets()[base
                        + k]).filename@ == fv[k].0 && final(self).spec_stylesheets()[base
                        + k].content@ == fv[k].1
            }),
    {
        let ghost base_len = self.spec_stylesheets().len();
        let mut k: usize = 0;
        while k < files.len()
            invariant
                0 <= k <= files@.len(),
                self.spec_posts() == old(self).spec_posts(),
                self.spec_pages() == old(self).spec_pages(),
                self.spec_assets() == old(self).spec_assets(),
                self.spec_stylesheets().len() == base_len + k,
                self.spec_stylesheets().take(base_len as int) == old(self).spec_stylesheets(),
                forall|j: int|
                    0 <= j < k ==> (#[trigger] self.spec_stylesheets()[base_len + j]).filename@
                        == file_views(files@)[j].0 && self.spec_stylesheets()[base_len
                        + j].content@ == file_views(files@)[j].1,
            decreases files@.len() - k,
        {
            proof {
                assert(file_views(files@)[k as int] == (files@[k as int].0@,
                files@[k as int].1@));
            }
            let file = &files[k];
            self.stylesheets.push(
                Stylesheet { content: file.1.clone(), filename: file.0.clone() },
            );
            proof {
                assert(self.spec_stylesheets().take(base_len as int) =~= old(
                    self,
                ).spec_stylesheets());
            }
            k = k + 1;
        }
    }

    /// Registers the given asset files (each a `(filename, contents)` pair),
    /// in order.
    #[verifier::loop_isolation(false)]
    pub fn init_assets(&mut self, files: &Vec<(String, String)>)
        ensures
            final(self).spec_posts() == old(self).spec_posts(),
            final(self).spec_pages() == old(self).spec_pages(),
            final(self).spec_stylesheets() == old(self).spec_stylesheets(),
            final(self).spec_assets().len() == old(self).spec_assets().len() + files@.len(),
            final(self).spec_assets().take(old(self).spec_assets().len() as int)
                == old(self).spec_assets(),
            ({
                let base = old(self).spec_assets().len() as int;
                let fv = file_views(files@);
                forall|k: int|
                    0 <= k < fv.len() ==> (#[trigger] final(self).spec_assets()[base
                        + k]).filename@ == fv[k].0 && final(self).spec_assets()[base
                        + k].content@ == fv[k].1
            }),
    {
        let ghost base_len = self.spec_assets().len();
        let mut k: usize = 0;
        while k < files.len()
            invariant
                0 <= k <= files@.len(),
                self.spec_posts() == old(self).spec_posts(),
                self.spec_pages() == old(self).spec_pages(),
                self.spec_stylesheets() == old(self).spec_stylesheets(),
                self.spec_assets().len() == base_len + k,
                self.spec_assets().take(base_len as int) == old(self).spec_assets(),
                forall|j: int|
                    0 <= j < k ==> (#[trigger] self.spec_assets()[base_len + j]).filename@
                        == file_views(files@)[j].0 && self.spec_assets()[base_len + j].content@
                        == file_views(files@)[j].1,
            decreases files@.len() - k,
        {
            proof {
                assert(file_views(files@)[k as int] == (files@[k as int].0@,
                files@[k as int].1@));
            }
            let file = &files[k];
            self.assets.push(Asset { content: file.1.clone(), filename: file.0.clone() });
            proof {
                assert(self.spec_assets().take(base_len as int) =~= old(self).spec_assets());
            }
            k = k + 1;
        }
    }
}

} // verus!
